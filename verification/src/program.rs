//! A contract program as the library reads it: its source, the taproot
//! internal key, the build mode, and the storage slots committed as hidden
//! leaves of its taproot tree, with the shape of that tree.
use vstd::prelude::*;

use std::collections::HashMap;
use std::sync::Arc;

use simplicityhl::ast::ElementsJetHinter;
use simplicityhl::elements::taproot::TapLeafHash;
use simplicityhl::elements::Script;
use simplicityhl::simplicity::hashes::Hash as _;
use simplicityhl::{Arguments, TemplateAst, UnresolvedValues, UnstableFeatures};

verus! {

/// A contract program: its source, its taproot internal key (`None` stands
/// for the unspendable default key), whether it is built with debug
/// symbols (`None` where the protocol's default applies), its storage, and
/// its arguments: each parameter's name and its value written in
/// SimplicityHL's value syntax, as argument files give them.
#[derive(PartialEq, Eq, Debug)]
pub struct Program {
    pub source: String,
    pub arguments: Vec<(String, String)>,
    pub pub_key: Option<[u8; 32]>,
    pub include_debug_symbols: Option<bool>,
    pub storage: Vec<Vec<u8>>,
}

/// The depths of the leaves of the taproot tree of a program with
/// `total_leaves` leaves: the script leaf and the first storage leaf sit
/// deepest, at `total_leaves - 1`, and each further leaf one level higher.
pub open spec fn leaf_depths(total_leaves: nat) -> Seq<nat> {
    Seq::new(
        total_leaves,
        |i: int|
            if i == 0 {
                (total_leaves - 1) as nat
            } else {
                (total_leaves - i) as nat
            },
    )
}

/// `2` to the power `e`.
pub open spec fn two_pow(e: nat) -> nat
    decreases e,
{
    if e == 0 {
        1
    } else {
        2 * two_pow((e - 1) as nat)
    }
}

/// The sum of `2^(height - d)` over the depths `ds`: it equals
/// `2^height` exactly when leaves at these depths fill a binary tree of
/// that height.
pub open spec fn kraft_sum(ds: Seq<nat>, height: nat) -> int
    decreases ds.len(),
{
    if ds.len() == 0 {
        0
    } else {
        kraft_sum(ds.drop_last(), height) + two_pow((height - ds.last()) as nat)
    }
}

proof fn lemma_kraft_prefix(total_leaves: nat, m: nat)
    requires
        1 <= m <= total_leaves,
    ensures
        kraft_sum(leaf_depths(total_leaves).take(m as int), (total_leaves - 1) as nat) == two_pow(
            (m - 1) as nat,
        ),
    decreases m,
{
    let ds = leaf_depths(total_leaves);
    let e = (total_leaves - 1) as nat;
    if m == 1 {
        assert(ds.take(1).drop_last() =~= Seq::<nat>::empty());
        assert(ds.take(1).last() == e);
        assert(kraft_sum(ds.take(1).drop_last(), e) == 0);
        assert(two_pow(0) == 1);
    } else {
        lemma_kraft_prefix(total_leaves, (m - 1) as nat);
        assert(ds.take(m as int).drop_last() =~= ds.take(m - 1));
        assert(ds.take(m as int).last() == total_leaves - (m - 1));
        assert((e - (total_leaves - (m - 1))) as nat == (m - 2) as nat);
        assert(two_pow((m - 1) as nat) == 2 * two_pow((m - 2) as nat));
    }
}

/// The leaf depths describe a full binary tree: every internal node has
/// two children, so `sum 2^-depth == 1`.
pub proof fn lemma_leaf_depths_fill_tree(total_leaves: nat)
    requires
        total_leaves > 0,
    ensures
        kraft_sum(leaf_depths(total_leaves), (total_leaves - 1) as nat) == two_pow(
            (total_leaves - 1) as nat,
        ),
{
    lemma_kraft_prefix(total_leaves, total_leaves);
    assert(leaf_depths(total_leaves).take(total_leaves as int) =~= leaf_depths(total_leaves));
}

/// The storage that `with_storage_capacity` sets: `capacity` slots of 32
/// zero bytes.
pub open spec fn zeroed_storage(capacity: nat) -> Seq<Seq<u8>> {
    Seq::new(capacity, |i: int| Seq::new(32, |j: int| 0u8))
}

/// The contents of the storage slots.
pub open spec fn storage_view(s: Seq<Vec<u8>>) -> Seq<Seq<u8>> {
    s.map_values(|v: Vec<u8>| v@)
}

impl Program {
    /// A program for `source` with `arguments`, the default internal key,
    /// the default build mode, and no storage.
    pub fn new(source: &str, arguments: Vec<(String, String)>) -> (r: Program)
        ensures
            r.source@ == source@,
            r.arguments == arguments,
            r.pub_key is None,
            r.include_debug_symbols is None,
            r.storage@.len() == 0,
    {
        Program {
            source: String::from_str(source),
            arguments,
            pub_key: None,
            include_debug_symbols: None,
            storage: Vec::new(),
        }
    }

    /// The program with the taproot internal key `pub_key`.
    pub fn with_taproot_pubkey(self, pub_key: [u8; 32]) -> (r: Program)
        ensures
            r == (Program { pub_key: Some(pub_key), ..self }),
    {
        let mut p = self;
        p.pub_key = Some(pub_key);
        p
    }

    /// The program built with or without debug symbols.
    pub fn with_debug_symbols(self, enabled: bool) -> (r: Program)
        ensures
            r == (Program { include_debug_symbols: Some(enabled), ..self }),
    {
        let mut p = self;
        p.include_debug_symbols = Some(enabled);
        p
    }

    /// The program with `capacity` storage slots of 32 zero bytes.
    pub fn with_storage_capacity(self, capacity: usize) -> (r: Program)
        ensures
            r.source == self.source,
            r.arguments == self.arguments,
            r.pub_key == self.pub_key,
            r.include_debug_symbols == self.include_debug_symbols,
            storage_view(r.storage@) == zeroed_storage(capacity as nat),
    {
        let mut p = self;
        let mut storage: Vec<Vec<u8>> = Vec::new();
        let mut i: usize = 0;
        while i < capacity
            invariant
                i <= capacity,
                storage@.len() == i,
                storage_view(storage@) == zeroed_storage(i as nat),
            decreases capacity - i,
        {
            let mut slot: Vec<u8> = Vec::new();
            let mut j: usize = 0;
            while j < 32
                invariant
                    j <= 32,
                    slot@ == Seq::new(j as nat, |k: int| 0u8),
                decreases 32 - j,
            {
                slot.push(0u8);
                assert(slot@ =~= Seq::new((j + 1) as nat, |k: int| 0u8));
                j += 1;
            }
            assert(slot@ =~= Seq::new(32, |j: int| 0u8));
            let ghost prev = storage@;
            let ghost sv = slot@;
            storage.push(slot);
            assert forall|k: int| 0 <= k < i + 1 implies #[trigger] storage_view(storage@)[k]
                == zeroed_storage((i + 1) as nat)[k] by {
                if k < i {
                    assert(storage@[k] == prev[k]);
                    assert(storage_view(prev)[k] == zeroed_storage(i as nat)[k]);
                } else {
                    assert(storage@[k]@ == sv);
                }
            }
            assert(storage_view(storage@) =~= zeroed_storage((i + 1) as nat));
            i += 1;
        }
        p.storage = storage;
        p
    }

    /// Sets the storage slot at `index` to `new_value`.
    pub fn set_storage_at(&mut self, index: usize, new_value: Vec<u8>)
        requires
            index < old(self).storage@.len(),
        ensures
            final(self).source == old(self).source,
            final(self).pub_key == old(self).pub_key,
            final(self).include_debug_symbols == old(self).include_debug_symbols,
            final(self).storage@ == old(self).storage@.update(index as int, new_value),
    {
        self.storage.set(index, new_value);
    }

    /// The number of storage slots.
    pub fn get_storage_len(&self) -> (r: usize)
        ensures
            r == self.storage@.len(),
    {
        self.storage.len()
    }

    /// All storage slots.
    pub fn get_storage(&self) -> (r: &Vec<Vec<u8>>)
        ensures
            r == &self.storage,
    {
        &self.storage
    }

    /// A copy of the storage slot at `index`.
    pub fn get_storage_at(&self, index: usize) -> (r: Vec<u8>)
        requires
            index < self.storage@.len(),
        ensures
            r@ == self.storage@[index as int]@,
    {
        self.storage[index].clone()
    }

    /// The depths of the leaves of a taproot tree with `total_leaves`
    /// leaves (see `leaf_depths`).
    pub fn taproot_leaf_depths(total_leaves: usize) -> (r: Vec<usize>)
        requires
            total_leaves > 0,
        ensures
            r@.map_values(|d: usize| d as nat) == leaf_depths(total_leaves as nat),
    {
        let extra = total_leaves - 1;
        let mut depths: Vec<usize> = Vec::new();
        depths.push(extra);
        let mut k: usize = extra;
        while k >= 1
            invariant
                k <= extra,
                extra == total_leaves - 1,
                depths@.len() == 1 + extra - k,
                forall|i: int|
                    0 <= i < depths@.len() ==> #[trigger] depths@[i] as nat == leaf_depths(
                        total_leaves as nat,
                    )[i],
            decreases k,
        {
            depths.push(k);
            k -= 1;
        }
        assert(depths@.map_values(|d: usize| d as nat) =~= leaf_depths(total_leaves as nat));
        depths
    }

    /// The depths at which the program's taproot tree holds its leaves:
    /// the script first, then one hidden leaf per storage slot in order.
    pub fn taproot_leaf_plan(&self) -> (r: Vec<usize>)
        requires
            self.storage@.len() < usize::MAX,
        ensures
            r@.map_values(|d: usize| d as nat) == leaf_depths(self.storage@.len() + 1),
    {
        Program::taproot_leaf_depths(1 + self.get_storage_len())
    }
}

/// What checking a program's input before running it can fail on.
#[derive(PartialEq, Eq, Debug)]
pub enum ProgramError {
    /// The transaction has no coin at the input's index.
    UtxoIndexOutOfBounds { input_index: usize, utxo_count: usize },
    /// The coin at the input's index is locked by another script than the
    /// program's.
    ScriptPubkeyMismatch { expected_script: Vec<u8>, actual_script: Vec<u8> },
}

/// Whether two byte strings are equal.
pub fn bytes_eq(a: &Vec<u8>, b: &Vec<u8>) -> (r: bool)
    ensures
        r == (a@ == b@),
{
    if a.len() != b.len() {
        return false;
    }
    let mut i: usize = 0;
    while i < a.len()
        invariant
            i <= a.len(),
            a.len() == b.len(),
            forall|j: int| 0 <= j < i ==> a@[j] == b@[j],
        decreases a.len() - i,
    {
        if a[i] != b[i] {
            return false;
        }
        i += 1;
    }
    assert(a@ =~= b@);
    true
}

/// The checks made before a program runs for the input `input_index` of a
/// transaction whose spent coins are locked by `utxo_scripts`: the input
/// has a coin, and that coin is locked by the program's own script
/// `program_script`.
pub fn env_input_check(utxo_scripts: &Vec<Vec<u8>>, input_index: usize, program_script: &Vec<u8>) -> (r:
    Result<(), ProgramError>)
    ensures
        input_index >= utxo_scripts@.len() ==> r == Err::<(), ProgramError>(
            ProgramError::UtxoIndexOutOfBounds { input_index, utxo_count: utxo_scripts@.len() as usize },
        ),
        input_index < utxo_scripts@.len() && utxo_scripts@[input_index as int]@ != program_script@ ==> (
        r matches Err(ProgramError::ScriptPubkeyMismatch { expected_script: e, actual_script: a })
            && e@ == program_script@ && a@ == utxo_scripts@[input_index as int]@),
        input_index < utxo_scripts@.len() && utxo_scripts@[input_index as int]@ == program_script@
            ==> r is Ok,
{
    if utxo_scripts.len() <= input_index {
        return Err(
            ProgramError::UtxoIndexOutOfBounds { input_index, utxo_count: utxo_scripts.len() },
        );
    }
    let target = &utxo_scripts[input_index];
    if !bytes_eq(target, program_script) {
        return Err(
            ProgramError::ScriptPubkeyMismatch {
                expected_script: program_script.clone(),
                actual_script: target.clone(),
            },
        );
    }
    Ok(())
}

/// Arguments as a map from name to value text; a later entry of a name
/// replaces an earlier one.
pub open spec fn arguments_map(s: Seq<(String, String)>) -> Map<Seq<char>, Seq<char>>
    decreases s.len(),
{
    if s.len() == 0 {
        Map::empty()
    } else {
        arguments_map(s.drop_last()).insert(s.last().0@, s.last().1@)
    }
}

/// The commitment Merkle root of a source compiled with the arguments
/// (name to value text) and with or without debug symbols, or `None` where
/// the source, an argument or the instantiation is refused.
pub uninterp spec fn compiled_cmr(
    source: Seq<char>,
    arguments: Map<Seq<char>, Seq<char>>,
    debug: bool,
) -> Option<Seq<u8>>;

/// Analyses the source with SimplicityHL's `TemplateAst::new_with_unstable`
/// (all unstable features, Elements jets), reads the arguments as bare value
/// strings through `UnresolvedValues` (by way of their JSON form) and
/// resolves them against the declared parameters, instantiates the template
/// with them, and gives the root of its commitment (`commit().cmr()`). The
/// root is named by `compiled_cmr`; the error's message is not stated, as
/// which of several refused arguments is reported depends on a hash map's
/// order.
#[verifier::external_body]
fn compile_cmr(source: &str, arguments: &Vec<(String, String)>, debug: bool) -> (r: Result<[u8; 32], String>)
    ensures
        match r {
            Ok(c) => compiled_cmr(source@, arguments_map(arguments@), debug) == Some(c@),
            Err(_) => compiled_cmr(source@, arguments_map(arguments@), debug) is None,
        },
{
    let hinter = Box::new(ElementsJetHinter);
    let t = TemplateAst::new_with_unstable(Arc::<str>::from(source), &UnstableFeatures::all(), hinter)
        .map_err(|e| e.to_string())?;
    let map: HashMap<String, String> = arguments.iter().cloned().collect();
    let json = serde_json::to_string(&map).map_err(|e| e.to_string())?;
    let unresolved: UnresolvedValues = serde_json::from_str(&json).map_err(|e| e.to_string())?;
    let resolved: Arguments = unresolved.resolve(t.parameters())?;
    Ok(t.instantiate(resolved, debug)?.commit().cmr().to_byte_array())
}

/// The tapleaf hash of the Simplicity script whose bytes are a commitment
/// root.
pub uninterp spec fn tapleaf_hash_of(cmr: Seq<u8>) -> Seq<u8>;

/// Calls elements' `TapLeafHash::from_script` on the script made of the
/// root's bytes with Simplicity's `leaf_version()`; named by
/// `tapleaf_hash_of`.
#[verifier::external_body]
fn tapleaf_hash(cmr: &[u8; 32]) -> (r: [u8; 32])
    ensures
        r@ == tapleaf_hash_of(cmr@),
{
    let script = Script::from(cmr.to_vec());
    TapLeafHash::from_script(&script, simplicityhl::simplicity::leaf_version()).to_byte_array()
}

impl Program {
    /// Whether the program is built with debug symbols: its own build mode,
    /// else `default_debug`.
    pub open spec fn debug_mode(&self, default_debug: bool) -> bool {
        match self.include_debug_symbols {
            Some(b) => b,
            None => default_debug,
        }
    }

    /// Compiles the program with its arguments and build mode (the
    /// protocol's default `default_debug` where it sets none) and gives
    /// its commitment Merkle root; fails with the compiler's message.
    pub fn get_cmr(&self, default_debug: bool) -> (r: Result<[u8; 32], String>)
        ensures
            match r {
                Ok(c) => compiled_cmr(
                    self.source@,
                    arguments_map(self.arguments@),
                    self.debug_mode(default_debug),
                ) == Some(c@),
                Err(_) => compiled_cmr(
                    self.source@,
                    arguments_map(self.arguments@),
                    self.debug_mode(default_debug),
                ) is None,
            },
    {
        let debug = match self.include_debug_symbols {
            Some(b) => b,
            None => default_debug,
        };
        compile_cmr(self.source.as_str(), &self.arguments, debug)
    }

    /// The tapleaf hash of the program's Simplicity script, whose bytes are
    /// its commitment root; fails where the program does not compile.
    pub fn get_tapleaf_hash(&self, default_debug: bool) -> (r: Result<[u8; 32], String>)
        ensures
            match compiled_cmr(
                self.source@,
                arguments_map(self.arguments@),
                self.debug_mode(default_debug),
            ) {
                Some(c) => r matches Ok(h) && h@ == tapleaf_hash_of(c),
                None => r is Err,
            },
    {
        let cmr = self.get_cmr(default_debug)?;
        Ok(tapleaf_hash(&cmr))
    }
}

} // verus!
