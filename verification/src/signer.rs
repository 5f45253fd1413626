//! The decisions of the signer: the wallet's derivation path and
//! descriptors, which coins fund a transaction and in what order, how the
//! fee search proceeds, how an estimated fee is split between the fee and
//! change outputs, and the witness value that carries a signature.
use vstd::prelude::*;

use elements_miniscript::bitcoin::bip32::Xpriv;
use elements_miniscript::bitcoin::NetworkKind;
use simplicityhl::elements::confidential::Value as ConfValue;
use simplicityhl::elements::secp256k1_zkp::{Secp256k1, SecretKey};
use simplicityhl::elements::TxOut;

use crate::hl_type::{HlType, TypeModel, UIntType};
use crate::hl_value::{wf_value, HlValue, InnerModel, UIntValue, ValueModel};
use crate::wtns_error::{WrapErrorModel, WtnsWrappingError};
use crate::wtns_injector::{inject_spec, path_routes, WtnsInjector};

verus! {

/// The text of the wallet's BIP-84 derivation path on mainnet (coin type
/// 1776) or elsewhere (coin type 1).
pub open spec fn derivation_path_text(is_mainnet: bool) -> Seq<char> {
    if is_mainnet {
        "m/84h/1776h/0h"@
    } else {
        "m/84h/1h/0h"@
    }
}

/// The text of the wallet's derivation path.
pub fn derivation_path(is_mainnet: bool) -> (r: String)
    ensures
        r@ == derivation_path_text(is_mainnet),
{
    if is_mainnet {
        String::from_str("m/84h/1776h/0h")
    } else {
        String::from_str("m/84h/1h/0h")
    }
}

/// The wallet's wpkh descriptor, over both the receive and change chains.
pub open spec fn wpkh_descriptor_text(fingerprint: Seq<char>, path: Seq<char>, xpub: Seq<char>) -> Seq<
    char,
> {
    "elwpkh(["@ + fingerprint + "/"@ + path + "]"@ + xpub + "/<0;1>/*)"@
}

/// The wallet's confidential descriptor: the wpkh descriptor blinded with
/// the SLIP-77 master blinding key.
pub open spec fn slip77_descriptor_text(blinding_key: Seq<char>, wpkh: Seq<char>) -> Seq<char> {
    "ct(slip77("@ + blinding_key + "),"@ + wpkh + ")"@
}

/// The wpkh descriptor for the key with `fingerprint`, derived along
/// `path` to `xpub`.
pub fn wpkh_descriptor(fingerprint: &str, path: &str, xpub: &str) -> (r: String)
    ensures
        r@ == wpkh_descriptor_text(fingerprint@, path@, xpub@),
{
    let mut s = String::from_str("elwpkh([");
    s.append(fingerprint);
    s.append("/");
    s.append(path);
    s.append("]");
    s.append(xpub);
    s.append("/<0;1>/*)");
    assert(s@ =~= wpkh_descriptor_text(fingerprint@, path@, xpub@));
    s
}

/// The confidential descriptor of `wpkh` with the blinding key
/// `blinding_key`.
pub fn slip77_descriptor(blinding_key: &str, wpkh: &str) -> (r: String)
    ensures
        r@ == slip77_descriptor_text(blinding_key@, wpkh@),
{
    let mut s = String::from_str("ct(slip77(");
    s.append(blinding_key);
    s.append("),");
    s.append(wpkh);
    s.append(")");
    assert(s@ =~= slip77_descriptor_text(blinding_key@, wpkh@));
    s
}

/// What the signer can fail on when funding and fee-paying a transaction.
#[derive(PartialEq, Eq, Debug)]
pub enum SignerError {
    /// The transaction's inputs exceed its outputs by less than the least fee.
    DustAmount(i64),
    /// The amount left for the fee cannot cover the costs: the amount, then the required fee.
    NotEnoughFeeAmount(i64, u64),
    /// The wallet's coins cannot cover the costs: the required fee.
    NotEnoughFunds(u64),
    /// The witness to put a signature into is not one of the program's witnesses.
    WtnsFieldNotFound(String),
    /// Putting the signature into the witness failed.
    WtnsInjectError(WtnsWrappingError),
    /// The mnemonic phrase does not parse, or gives no master key: the message.
    Mnemonic(String),
    /// A coin's output does not decode, or a confidential one does not
    /// unblind with the wallet's blinding key.
    Unblind,
}

/// A coin of the wallet: its outpoint and its value (unblinded where it is
/// confidential).
#[derive(Clone, Copy, PartialEq, Eq, Debug)]
pub struct UtxoEntry {
    pub txid: [u8; 32],
    pub vout: u32,
    pub value: u64,
}

/// An outpoint: a transaction id and an output index.
pub type OutPointRef = ([u8; 32], u32);

/// Whether the coin is spent by one of the outpoints `used`.
pub open spec fn is_used(u: UtxoEntry, used: Seq<OutPointRef>) -> bool {
    exists|i: int| 0 <= i < used.len() && used[i].0 == u.txid && used[i].1 == u.vout
}

/// The coins not spent by `used`, in their order.
pub open spec fn unused_utxos(s: Seq<UtxoEntry>, used: Seq<OutPointRef>) -> Seq<UtxoEntry>
    decreases s.len(),
{
    if s.len() == 0 {
        Seq::empty()
    } else if is_used(s.last(), used) {
        unused_utxos(s.drop_last(), used)
    } else {
        unused_utxos(s.drop_last(), used).push(s.last())
    }
}

/// `sorted` with `x` placed after every coin of at least its value.
pub open spec fn insert_desc(sorted: Seq<UtxoEntry>, x: UtxoEntry) -> Seq<UtxoEntry>
    decreases sorted.len(),
{
    if sorted.len() == 0 {
        seq![x]
    } else if sorted.last().value >= x.value {
        sorted.push(x)
    } else {
        insert_desc(sorted.drop_last(), x).push(sorted.last())
    }
}

/// The coins by descending value; coins of equal value keep their order.
pub open spec fn sort_desc(s: Seq<UtxoEntry>) -> Seq<UtxoEntry>
    decreases s.len(),
{
    if s.len() == 0 {
        Seq::empty()
    } else {
        insert_desc(sort_desc(s.drop_last()), s.last())
    }
}

/// Whether the coins come by descending value.
pub open spec fn is_desc(s: Seq<UtxoEntry>) -> bool {
    forall|i: int, j: int| 0 <= i < j < s.len() ==> s[i].value >= s[j].value
}

proof fn lemma_insert_desc(sorted: Seq<UtxoEntry>, x: UtxoEntry)
    requires
        is_desc(sorted),
    ensures
        is_desc(insert_desc(sorted, x)),
        insert_desc(sorted, x).to_multiset() == sorted.to_multiset().insert(x),
        insert_desc(sorted, x).len() == sorted.len() + 1,
    decreases sorted.len(),
{
    broadcast use vstd::seq_lib::group_to_multiset_ensures;
    if sorted.len() == 0 {
        assert(seq![x] =~= Seq::<UtxoEntry>::empty().push(x));
    } else if sorted.last().value >= x.value {
    } else {
        let init = sorted.drop_last();
        assert(is_desc(init));
        lemma_insert_desc(init, x);
        let r = insert_desc(init, x);
        assert(sorted =~= init.push(sorted.last()));
        assert forall|i: int, j: int| 0 <= i < j < r.push(sorted.last()).len() implies r.push(
            sorted.last(),
        )[i].value >= r.push(sorted.last())[j].value by {
            if j == r.len() {
                let ri = r[i];
                assert(r.to_multiset().count(ri) > 0);
                assert(init.to_multiset().insert(x).count(ri) > 0);
                if ri != x {
                    assert(init.to_multiset().count(ri) > 0);
                    assert(init.contains(ri));
                    let k = choose|k: int| 0 <= k < init.len() && init[k] == ri;
                    assert(sorted[k] == ri);
                }
            }
        }
    }
}

/// Sorting by descending value yields the same coins, by descending value.
pub proof fn lemma_sort_desc(s: Seq<UtxoEntry>)
    ensures
        is_desc(sort_desc(s)),
        sort_desc(s).to_multiset() == s.to_multiset(),
        sort_desc(s).len() == s.len(),
    decreases s.len(),
{
    broadcast use vstd::seq_lib::group_to_multiset_ensures;
    if s.len() > 0 {
        lemma_sort_desc(s.drop_last());
        lemma_insert_desc(sort_desc(s.drop_last()), s.last());
        assert(s =~= s.drop_last().push(s.last()));
    }
}

fn same_outpoint(u: &UtxoEntry, o: &OutPointRef) -> (r: bool)
    ensures
        r == (o.0 == u.txid && o.1 == u.vout),
{
    if u.vout != o.1 {
        return false;
    }
    let mut i: usize = 0;
    while i < 32
        invariant
            i <= 32,
            forall|j: int| 0 <= j < i ==> u.txid[j] == o.0[j],
        decreases 32 - i,
    {
        if u.txid[i] != o.0[i] {
            return false;
        }
        i += 1;
    }
    proof {
        broadcast use vstd::array::axiom_array_ext_equal;
        assert(u.txid =~= o.0);
    }
    true
}

fn is_used_exec(u: &UtxoEntry, used: &Vec<OutPointRef>) -> (r: bool)
    ensures
        r == is_used(*u, used@),
{
    let mut i: usize = 0;
    while i < used.len()
        invariant
            i <= used@.len(),
            forall|j: int| 0 <= j < i ==> !(used@[j].0 == u.txid && used@[j].1 == u.vout),
        decreases used@.len() - i,
    {
        if same_outpoint(u, &used[i]) {
            return true;
        }
        i += 1;
    }
    false
}

/// `sorted` with `x` placed after every coin of at least its value.
fn insert_desc_exec(sorted: &mut Vec<UtxoEntry>, x: UtxoEntry)
    ensures
        final(sorted)@ == insert_desc(old(sorted)@, x),
{
    let ghost s0 = sorted@;
    let mut k: usize = sorted.len();
    assert(s0.take(k as int) =~= s0);
    assert(s0.skip(k as int) =~= Seq::<UtxoEntry>::empty());
    assert(insert_desc(s0, x) =~= insert_desc(s0.take(k as int), x) + s0.skip(k as int));
    while k > 0 && sorted[k - 1].value < x.value
        invariant
            k <= s0.len(),
            sorted@ == s0,
            insert_desc(s0, x) == insert_desc(s0.take(k as int), x) + s0.skip(k as int),
        decreases k,
    {
        proof {
            let t = s0.take(k as int);
            assert(t.drop_last() =~= s0.take(k - 1));
            assert(t.last() == s0[k - 1]);
            assert(insert_desc(t, x) == insert_desc(t.drop_last(), x).push(t.last()));
            assert(insert_desc(s0.take(k - 1), x).push(s0[k - 1]) + s0.skip(k as int)
                =~= insert_desc(s0.take(k - 1), x) + s0.skip(k - 1));
        }
        k -= 1;
    }
    proof {
        let t = s0.take(k as int);
        if k == 0 {
            assert(insert_desc(t, x) =~= seq![x]);
        } else {
            assert(insert_desc(t, x) =~= t.push(x));
        }
    }
    sorted.insert(k, x);
    assert(sorted@ =~= insert_desc(s0.take(k as int), x) + s0.skip(k as int));
}

/// The wallet's coins that the transaction does not already spend, by
/// descending value; coins of equal value keep their order.
pub fn spendable_utxos(utxos: &Vec<UtxoEntry>, used: &Vec<OutPointRef>) -> (r: Vec<UtxoEntry>)
    ensures
        r@ == sort_desc(unused_utxos(utxos@, used@)),
{
    let mut sorted: Vec<UtxoEntry> = Vec::new();
    let mut i: usize = 0;
    while i < utxos.len()
        invariant
            i <= utxos@.len(),
            sorted@ == sort_desc(unused_utxos(utxos@.take(i as int), used@)),
        decreases utxos@.len() - i,
    {
        let u = utxos[i];
        proof {
            assert(utxos@.take(i + 1).drop_last() =~= utxos@.take(i as int));
            assert(utxos@.take(i + 1).last() == u);
        }
        if !is_used_exec(&u, used) {
            insert_desc_exec(&mut sorted, u);
            proof {
                let f = unused_utxos(utxos@.take(i as int), used@);
                assert(unused_utxos(utxos@.take(i + 1), used@) == f.push(u));
                assert(f.push(u).drop_last() =~= f);
            }
        }
        i += 1;
    }
    assert(utxos@.take(utxos@.len() as int) =~= utxos@);
    sorted
}

/// What the next step of a fee search is.
#[derive(Clone, Copy, PartialEq, Eq, Debug, Structural)]
pub enum FeeStep {
    /// Estimate the transaction with this much available for fee and change.
    Estimate(u64),
    /// Add the coin at this position of the spendable coins as an input.
    AddInput(usize),
    /// Give up: the wallet cannot pay this fee.
    Fail(u64),
}

/// The state of the search for a fee that the wallet's coins can pay: the
/// least fee to look for, and how many of the spendable coins have been
/// added as inputs.
#[derive(Clone, Copy, PartialEq, Eq, Debug, Structural)]
pub struct FeeSearch {
    pub curr_fee: u64,
    pub next_utxo: usize,
    pub n_utxos: usize,
}

impl FeeSearch {
    /// A search over `n_utxos` spendable coins, starting from the least fee
    /// `min_fee`.
    pub fn new(min_fee: u64, n_utxos: usize) -> (r: FeeSearch)
        ensures
            r == (FeeSearch { curr_fee: min_fee, next_utxo: 0, n_utxos }),
    {
        FeeSearch { curr_fee: min_fee, next_utxo: 0, n_utxos }
    }

    /// The step after measuring that the transaction's inputs exceed its
    /// outputs by `delta`: estimate if that covers the fee sought, else add
    /// the next coin, else give up.
    pub fn on_delta(&mut self, delta: i64) -> (r: FeeStep)
        requires
            old(self).next_utxo <= old(self).n_utxos,
        ensures
            final(self).next_utxo <= final(self).n_utxos,
            final(self).curr_fee == old(self).curr_fee,
            final(self).n_utxos == old(self).n_utxos,
            delta >= old(self).curr_fee ==> r == FeeStep::Estimate(delta as u64) && *final(self)
                == *old(self),
            delta < old(self).curr_fee && old(self).next_utxo < old(self).n_utxos ==> r
                == FeeStep::AddInput(old(self).next_utxo) && final(self).next_utxo == old(
                self,
            ).next_utxo + 1,
            delta < old(self).curr_fee && old(self).next_utxo == old(self).n_utxos ==> r
                == FeeStep::Fail(old(self).curr_fee) && *final(self) == *old(self),
    {
        if delta >= 0 && delta as u64 >= self.curr_fee {
            FeeStep::Estimate(delta as u64)
        } else if self.next_utxo < self.n_utxos {
            let i = self.next_utxo;
            self.next_utxo = i + 1;
            FeeStep::AddInput(i)
        } else {
            FeeStep::Fail(self.curr_fee)
        }
    }

    /// The step after an estimate found that the transaction needs the fee
    /// `required_fee`: look for that fee from now on, adding the next coin,
    /// or give up if none is left.
    pub fn on_estimate_failure(&mut self, required_fee: u64) -> (r: FeeStep)
        requires
            old(self).next_utxo <= old(self).n_utxos,
        ensures
            final(self).next_utxo <= final(self).n_utxos,
            final(self).curr_fee == required_fee,
            final(self).n_utxos == old(self).n_utxos,
            old(self).next_utxo < old(self).n_utxos ==> r == FeeStep::AddInput(old(self).next_utxo)
                && final(self).next_utxo == old(self).next_utxo + 1,
            old(self).next_utxo == old(self).n_utxos ==> r == FeeStep::Fail(required_fee)
                && final(self).next_utxo == old(self).next_utxo,
    {
        self.curr_fee = required_fee;
        if self.next_utxo < self.n_utxos {
            let i = self.next_utxo;
            self.next_utxo = i + 1;
            FeeStep::AddInput(i)
        } else {
            FeeStep::Fail(required_fee)
        }
    }
}

/// How an estimated fee is paid out of the amount available for it.
#[derive(Clone, Copy, PartialEq, Eq, Debug, Structural)]
pub enum FeeSplit {
    /// Pay `fee` and return `change` to the wallet.
    WithChange { change: u64, fee: u64 },
    /// Pay the whole amount as the fee; `fee` is what the transaction needs.
    WithoutChange { fee_output: u64, fee: u64 },
    /// The amount cannot pay the fee the transaction needs.
    Short(u64),
}

/// With a change output, the estimate succeeds when the available amount
/// exceeds the fee by at least `min_fee`: the rest goes back as change.
pub fn split_with_change(available: u64, fee: u64, min_fee: u64) -> (r: Option<FeeSplit>)
    ensures
        (available > fee && available - fee >= min_fee) ==> r == Some(
            FeeSplit::WithChange { change: (available - fee) as u64, fee },
        ),
        !(available > fee && available - fee >= min_fee) ==> r is None,
{
    if available > fee && available - fee >= min_fee {
        Some(FeeSplit::WithChange { change: available - fee, fee })
    } else {
        None
    }
}

/// Without a change output, the whole available amount goes to the fee
/// output if it covers the fee the transaction needs.
pub fn split_without_change(available: u64, fee: u64) -> (r: FeeSplit)
    ensures
        available < fee ==> r == FeeSplit::Short(fee),
        available >= fee ==> r == (FeeSplit::WithoutChange { fee_output: available, fee }),
{
    if available < fee {
        FeeSplit::Short(fee)
    } else {
        FeeSplit::WithoutChange { fee_output: available, fee }
    }
}

/// Before paying a fixed transaction's fee: its inputs must exceed its
/// outputs by at least `min_fee`; that excess is what is available.
pub fn check_fee_amount(delta: i64, min_fee: u64) -> (r: Result<u64, SignerError>)
    ensures
        delta < min_fee ==> r == Err::<u64, SignerError>(SignerError::DustAmount(delta)),
        delta >= min_fee ==> r == Ok::<u64, SignerError>(delta as u64),
{
    if delta < 0 || (delta as u64) < min_fee {
        Err(SignerError::DustAmount(delta))
    } else {
        Ok(delta as u64)
    }
}

/// The outcome of paying a fixed transaction's fee: the estimate, or the
/// error that names the amount and the fee it fell short of.
pub fn strict_outcome(delta: i64, split: FeeSplit) -> (r: Result<FeeSplit, SignerError>)
    ensures
        split matches FeeSplit::Short(required) ==> r == Err::<FeeSplit, SignerError>(
            SignerError::NotEnoughFeeAmount(delta, required),
        ),
        !(split is Short) ==> r == Ok::<FeeSplit, SignerError>(split),
{
    match split {
        FeeSplit::Short(required) => Err(SignerError::NotEnoughFeeAmount(delta, required)),
        _ => Ok(split),
    }
}

/// The value of a byte string: an array of `u8`.
pub open spec fn bytes_value(bytes: Seq<u8>) -> ValueModel {
    ValueModel {
        inner: InnerModel::Array(
            Seq::new(
                bytes.len(),
                |i: int|
                    ValueModel {
                        inner: InnerModel::UInt(UIntValue::U8(bytes[i])),
                        ty: TypeModel::UInt(UIntType::U8),
                    },
            ),
        ),
        ty: TypeModel::Array(Box::new(TypeModel::UInt(UIntType::U8)), bytes.len()),
    }
}

/// The witness value that carries a signature: the signature bytes
/// themselves when `sig_path` is empty, else the program's witness
/// `witness` (of type `witness_type`, absent where the program has no
/// witness of that name) with the signature injected at `sig_path`.
pub fn signature_witness_value(
    signature: &Vec<u8>,
    sig_path: &[&str],
    witness_name: &str,
    witness_type: Option<&HlType>,
    witness: &HlValue,
) -> (r: Result<HlValue, SignerError>)
    requires
        sig_path@.len() > 0 && witness_type is Some ==> wf_value(witness@) && witness@.ty
            == witness_type.unwrap()@,
    ensures
        sig_path@.len() == 0 ==> (r matches Ok(v) && v@ == bytes_value(signature@)),
        sig_path@.len() > 0 && witness_type is None ==> (r matches Err(
            SignerError::WtnsFieldNotFound(n),
        ) && n@ == witness_name@),
        sig_path@.len() > 0 && witness_type is Some ==> match r {
            Ok(v) => inject_spec(
                witness@,
                witness_type.unwrap()@,
                path_routes(sig_path@),
                bytes_value(signature@),
            ) == Ok::<ValueModel, WrapErrorModel>(v@),
            Err(SignerError::WtnsInjectError(e)) => inject_spec(
                witness@,
                witness_type.unwrap()@,
                path_routes(sig_path@),
                bytes_value(signature@),
            ) == Err::<ValueModel, WrapErrorModel>(e@),
            _ => false,
        },
{
    let sig_value = HlValue::byte_array(signature);
    assert(sig_value@ == bytes_value(signature@));
    if sig_path.len() == 0 {
        return Ok(sig_value);
    }
    match witness_type {
        None => Err(SignerError::WtnsFieldNotFound(String::from_str(witness_name))),
        Some(ty) => match WtnsInjector::inject_value(witness, ty, sig_path, sig_value) {
            Ok(v) => Ok(v),
            Err(e) => Err(SignerError::WtnsInjectError(e)),
        },
    }
}

/// What parsing a BIP-39 mnemonic phrase, taking its seed with the empty
/// passphrase and deriving the BIP-32 master key from it gives: the key's
/// 78-byte serialization (test-network version), or the error's message.
pub uninterp spec fn master_key_of(mnemonic: Seq<char>) -> Result<Seq<u8>, Seq<char>>;

/// Parses `mnemonic` with bip39's `Mnemonic::from_str`, takes its seed with
/// `to_seed("")`, and derives `Xpriv::new_master` for the test network from
/// it, giving the key's `encode()`d bytes or the error's message; that
/// outcome is named by `master_key_of`.
#[verifier::external_body]
fn mnemonic_master_key(mnemonic: &str) -> (r: Result<Vec<u8>, String>)
    ensures
        match r {
            Ok(k) => master_key_of(mnemonic@) == Ok::<Seq<u8>, Seq<char>>(k@),
            Err(m) => master_key_of(mnemonic@) == Err::<Seq<u8>, Seq<char>>(m@),
        },
{
    let m: bip39::Mnemonic = mnemonic.parse().map_err(|e: bip39::Error| e.to_string())?;
    let xprv = Xpriv::new_master(NetworkKind::Test, &m.to_seed("")).map_err(|e| e.to_string())?;
    Ok(xprv.encode().to_vec())
}

/// The keys a signer holds: its BIP-32 master key, serialized.
#[derive(PartialEq, Eq, Debug)]
pub struct SignerKeys {
    pub master_key: Vec<u8>,
}

/// The keys of the wallet of a mnemonic phrase; fails with the message of
/// a phrase that does not parse.
pub fn signer_keys(mnemonic: &str) -> (r: Result<SignerKeys, SignerError>)
    ensures
        match master_key_of(mnemonic@) {
            Ok(k) => r matches Ok(keys) && keys.master_key@ == k,
            Err(m) => r matches Err(SignerError::Mnemonic(e)) && e@ == m,
        },
{
    match mnemonic_master_key(mnemonic) {
        Ok(k) => Ok(SignerKeys { master_key: k }),
        Err(m) => Err(SignerError::Mnemonic(m)),
    }
}

/// A coin as the wallet's provider reports it: its outpoint and its
/// output in consensus encoding.
#[derive(PartialEq, Eq, Debug)]
pub struct FetchedUtxo {
    pub txid: [u8; 32],
    pub vout: u32,
    pub txout: Vec<u8>,
}

/// The amount of an output: explicit, confidential, or absent.
#[derive(PartialEq, Eq, Debug, Clone, Copy)]
pub enum TxOutValue {
    Explicit(u64),
    Confidential,
    Null,
}

/// The amount of a consensus-encoded output, or `None` where the bytes do
/// not decode as one.
pub uninterp spec fn txout_value_of(txout: Seq<u8>) -> Option<TxOutValue>;

/// The amount that unblinding a consensus-encoded confidential output with
/// a blinding key gives, or `None` where it does not decode or unblind.
pub uninterp spec fn unblinded_value(txout: Seq<u8>, blinding_key: Seq<u8>) -> Option<u64>;

/// Decodes the output with elements' `encode::deserialize` and gives its
/// amount, variant for variant; named by `txout_value_of`.
#[verifier::external_body]
fn read_txout_value(txout: &Vec<u8>) -> (r: Option<TxOutValue>)
    ensures
        r == txout_value_of(txout@),
{
    let out: TxOut = simplicityhl::elements::encode::deserialize(txout).ok()?;
    Some(match out.value {
        ConfValue::Explicit(v) => TxOutValue::Explicit(v),
        ConfValue::Confidential(_) => TxOutValue::Confidential,
        ConfValue::Null => TxOutValue::Null,
    })
}

/// Decodes the output, reads the blinding key with `SecretKey::from_slice`
/// and calls elements' `TxOut::unblind`, giving the unblinded amount; named
/// by `unblinded_value`.
#[verifier::external_body]
fn unblind_txout(txout: &Vec<u8>, blinding_key: &[u8; 32]) -> (r: Option<u64>)
    ensures
        r == unblinded_value(txout@, blinding_key@),
{
    let out: TxOut = simplicityhl::elements::encode::deserialize(txout).ok()?;
    let key = SecretKey::from_slice(blinding_key).ok()?;
    out.unblind(&Secp256k1::new(), key).ok().map(|secrets| secrets.value)
}

/// The wallet's coin for a fetched coin of amount `value`.
pub open spec fn entry_of(f: FetchedUtxo, value: u64) -> UtxoEntry {
    UtxoEntry { txid: f.txid, vout: f.vout, value }
}

/// The coins with an explicit amount, in order; an output without an
/// amount counts as zero.
pub open spec fn explicit_entries(s: Seq<FetchedUtxo>) -> Seq<UtxoEntry>
    decreases s.len(),
{
    if s.len() == 0 {
        Seq::empty()
    } else {
        explicit_entries(s.drop_last()) + match txout_value_of(s.last().txout@) {
            Some(TxOutValue::Explicit(v)) => seq![entry_of(s.last(), v)],
            Some(TxOutValue::Null) => seq![entry_of(s.last(), 0)],
            _ => Seq::empty(),
        }
    }
}

/// The confidential coins with their unblinded amounts, in order.
pub open spec fn confidential_entries(s: Seq<FetchedUtxo>, key: Seq<u8>) -> Seq<UtxoEntry>
    decreases s.len(),
{
    if s.len() == 0 {
        Seq::empty()
    } else {
        confidential_entries(s.drop_last(), key) + match txout_value_of(s.last().txout@) {
            Some(TxOutValue::Confidential) => seq![
                entry_of(s.last(), unblinded_value(s.last().txout@, key).unwrap()),
            ],
            _ => Seq::empty(),
        }
    }
}

/// Whether a fetched coin's amount can be read: its output decodes, and a
/// confidential one unblinds with the key.
pub open spec fn readable(f: FetchedUtxo, key: Seq<u8>) -> bool {
    &&& txout_value_of(f.txout@) is Some
    &&& txout_value_of(f.txout@) == Some(TxOutValue::Confidential) ==> unblinded_value(
        f.txout@,
        key,
    ) is Some
}

/// The wallet's coins from what the provider reports: the coins with
/// explicit amounts first, then the confidential ones unblinded with
/// `blinding_key`, each group in the order fetched. Fails when a coin's
/// amount cannot be read.
pub fn order_utxos(fetched: Vec<FetchedUtxo>, blinding_key: [u8; 32]) -> (r: Result<
    Vec<UtxoEntry>,
    SignerError,
>)
    ensures
        (forall|i: int| 0 <= i < fetched@.len() ==> readable(#[trigger] fetched@[i], blinding_key@))
            ==> (r matches Ok(es) && es@ == explicit_entries(fetched@) + confidential_entries(
            fetched@,
            blinding_key@,
        )),
        !(forall|i: int| 0 <= i < fetched@.len() ==> readable(#[trigger] fetched@[i], blinding_key@))
            ==> r == Err::<Vec<UtxoEntry>, SignerError>(SignerError::Unblind),
{
    let mut explicit: Vec<UtxoEntry> = Vec::new();
    let mut confidential: Vec<UtxoEntry> = Vec::new();
    let mut i: usize = 0;
    while i < fetched.len()
        invariant
            i <= fetched@.len(),
            explicit@ == explicit_entries(fetched@.take(i as int)),
            confidential@ == confidential_entries(fetched@.take(i as int), blinding_key@),
            forall|j: int| 0 <= j < i ==> readable(#[trigger] fetched@[j], blinding_key@),
        decreases fetched@.len() - i,
    {
        let f = &fetched[i];
        let ghost t = fetched@.take(i + 1);
        assert(t.drop_last() =~= fetched@.take(i as int));
        assert(t.last() == fetched@[i as int]);
        match read_txout_value(&f.txout) {
            None => {
                assert(!readable(fetched@[i as int], blinding_key@));
                return Err(SignerError::Unblind);
            },
            Some(TxOutValue::Explicit(v)) => {
                explicit.push(UtxoEntry { txid: f.txid, vout: f.vout, value: v });
                assert(confidential_entries(t, blinding_key@) =~= confidential_entries(
                    t.drop_last(),
                    blinding_key@,
                ));
            },
            Some(TxOutValue::Null) => {
                explicit.push(UtxoEntry { txid: f.txid, vout: f.vout, value: 0 });
                assert(confidential_entries(t, blinding_key@) =~= confidential_entries(
                    t.drop_last(),
                    blinding_key@,
                ));
            },
            Some(TxOutValue::Confidential) => match unblind_txout(&f.txout, &blinding_key) {
                None => {
                    assert(!readable(fetched@[i as int], blinding_key@));
                    return Err(SignerError::Unblind);
                },
                Some(v) => {
                    confidential.push(UtxoEntry { txid: f.txid, vout: f.vout, value: v });
                    assert(explicit_entries(t) =~= explicit_entries(t.drop_last()));
                },
            },
        }
        i += 1;
    }
    assert(fetched@.take(fetched@.len() as int) =~= fetched@);
    explicit.append(&mut confidential);
    Ok(explicit)
}

proof fn lemma_unused_contains(s: Seq<UtxoEntry>, used: Seq<OutPointRef>, x: UtxoEntry)
    ensures
        unused_utxos(s, used).contains(x) <==> (s.contains(x) && !is_used(x, used)),
    decreases s.len(),
{
    if s.len() > 0 {
        lemma_unused_contains(s.drop_last(), used, x);
        let init = s.drop_last();
        assert(s =~= init.push(s.last()));
        if s.contains(x) && !is_used(x, used) {
            let k = choose|k: int| 0 <= k < s.len() && s[k] == x;
            if k < s.len() - 1 {
                assert(init[k] == x);
            }
        }
        if init.contains(x) {
            let k = choose|k: int| 0 <= k < init.len() && init[k] == x;
            assert(s[k] == x);
        }
        if unused_utxos(s, used).contains(x) && !is_used(s.last(), used) {
            let r = unused_utxos(init, used);
            let k = choose|k: int| 0 <= k < r.push(s.last()).len() && r.push(s.last())[k] == x;
            if k < r.len() {
                assert(r[k] == x);
            }
        }
        if !is_used(s.last(), used) && unused_utxos(init, used).contains(x) {
            let r = unused_utxos(init, used);
            let k = choose|k: int| 0 <= k < r.len() && r[k] == x;
            assert(r.push(s.last())[k] == x);
        }
        if !is_used(s.last(), used) && x == s.last() {
            let r = unused_utxos(init, used);
            assert(r.push(s.last())[r.len() as int] == x);
        }
    }
}

/// A coin of the wallet is among the spendable coins exactly when no
/// outpoint that the transaction already spends is the coin's own
/// transaction id and output index: other outputs of the same
/// transaction stay spendable.
pub proof fn lemma_spendable_exactly_when_outpoint_unused(
    utxos: Seq<UtxoEntry>,
    used: Seq<OutPointRef>,
    u: UtxoEntry,
)
    requires
        utxos.contains(u),
    ensures
        sort_desc(unused_utxos(utxos, used)).contains(u) <==> (forall|j: int|
            0 <= j < used.len() ==> !(#[trigger] used[j].0 == u.txid && used[j].1 == u.vout)),
{
    broadcast use vstd::seq_lib::group_to_multiset_ensures;
    lemma_sort_desc(unused_utxos(utxos, used));
    lemma_unused_contains(utxos, used, u);
    let r = unused_utxos(utxos, used);
    assert(sort_desc(r).contains(u) <==> r.contains(u)) by {
        broadcast use vstd::seq_lib::group_to_multiset_ensures;
        assert(sort_desc(r).to_multiset() == r.to_multiset());
        assert(sort_desc(r).contains(u) <==> sort_desc(r).to_multiset().count(u) > 0);
        assert(r.contains(u) <==> r.to_multiset().count(u) > 0);
    }
}

proof fn lemma_entries_complete(s: Seq<FetchedUtxo>, key: Seq<u8>)
    requires
        forall|i: int| 0 <= i < s.len() ==> readable(#[trigger] s[i], key),
    ensures
        explicit_entries(s).len() + confidential_entries(s, key).len() == s.len(),
        forall|i: int|
            0 <= i < s.len() && txout_value_of(#[trigger] s[i].txout@) == Some(
                TxOutValue::Confidential,
            ) ==> confidential_entries(s, key).contains(
                UtxoEntry {
                    txid: s[i].txid,
                    vout: s[i].vout,
                    value: unblinded_value(s[i].txout@, key).unwrap(),
                },
            ),
        forall|i: int|
            0 <= i < s.len() && txout_value_of(#[trigger] s[i].txout@) is Some && txout_value_of(s[i].txout@).unwrap() is Explicit ==> explicit_entries(s).contains(
                UtxoEntry { txid: s[i].txid, vout: s[i].vout, value: txout_value_of(s[i].txout@).unwrap()->Explicit_0 },
            ),
    decreases s.len(),
{
    if s.len() > 0 {
        let init = s.drop_last();
        assert forall|i: int| 0 <= i < init.len() implies readable(#[trigger] init[i], key) by {
            assert(init[i] == s[i]);
        }
        lemma_entries_complete(init, key);
        let last = s.last();
        assert(readable(s[s.len() - 1], key));
        let ce = confidential_entries(s, key);
        let ci = confidential_entries(init, key);
        let ee = explicit_entries(s);
        let ei = explicit_entries(init);
        assert forall|i: int|
            0 <= i < s.len() && txout_value_of(#[trigger] s[i].txout@) == Some(
                TxOutValue::Confidential,
            ) implies ce.contains(
            UtxoEntry {
                txid: s[i].txid,
                vout: s[i].vout,
                value: unblinded_value(s[i].txout@, key).unwrap(),
            },
        ) by {
            let x = UtxoEntry {
                txid: s[i].txid,
                vout: s[i].vout,
                value: unblinded_value(s[i].txout@, key).unwrap(),
            };
            if i < s.len() - 1 {
                assert(init[i] == s[i]);
                assert(ci.contains(x));
                let k = choose|k: int| 0 <= k < ci.len() && ci[k] == x;
                assert(ce[k] == x);
            } else {
                assert(ce[ci.len() as int] == x);
            }
        }
        assert forall|i: int|
            0 <= i < s.len() && txout_value_of(#[trigger] s[i].txout@) is Some && txout_value_of(s[i].txout@).unwrap() is Explicit implies ee.contains(UtxoEntry { txid: s[i].txid, vout: s[i].vout, value: txout_value_of(s[i].txout@).unwrap()->Explicit_0 }) by {
            let x = UtxoEntry { txid: s[i].txid, vout: s[i].vout, value: txout_value_of(s[i].txout@).unwrap()->Explicit_0 };
            if i < s.len() - 1 {
                assert(init[i] == s[i]);
                assert(ei.contains(x));
                let k = choose|k: int| 0 <= k < ei.len() && ei[k] == x;
                assert(ee[k] == x);
            } else {
                assert(ee[ei.len() as int] == x);
            }
        }
    }
}

/// When every fetched coin's amount can be read, the wallet's coins are
/// exactly as many as the fetched ones: each explicit coin appears with its
/// amount, and each confidential coin with the amount that unblinding it
/// with the key gives.
pub proof fn lemma_every_readable_coin_is_listed(fetched: Seq<FetchedUtxo>, key: Seq<u8>)
    requires
        forall|i: int| 0 <= i < fetched.len() ==> readable(#[trigger] fetched[i], key),
    ensures
        (explicit_entries(fetched) + confidential_entries(fetched, key)).len() == fetched.len(),
        forall|i: int|
            0 <= i < fetched.len() && txout_value_of(#[trigger] fetched[i].txout@) == Some(
                TxOutValue::Confidential,
            ) ==> (explicit_entries(fetched) + confidential_entries(fetched, key)).contains(
                UtxoEntry {
                    txid: fetched[i].txid,
                    vout: fetched[i].vout,
                    value: unblinded_value(fetched[i].txout@, key).unwrap(),
                },
            ),
        forall|i: int|
            0 <= i < fetched.len() && txout_value_of(#[trigger] fetched[i].txout@) is Some && txout_value_of(fetched[i].txout@).unwrap() is Explicit ==> (explicit_entries(fetched) + confidential_entries(fetched, key)).contains(
                UtxoEntry { txid: fetched[i].txid, vout: fetched[i].vout, value: txout_value_of(fetched[i].txout@).unwrap()->Explicit_0 },
            ),
{
    lemma_entries_complete(fetched, key);
    let ee = explicit_entries(fetched);
    let ce = confidential_entries(fetched, key);
    assert forall|x: UtxoEntry| ce.contains(x) implies (ee + ce).contains(x) by {
        let k = choose|k: int| 0 <= k < ce.len() && ce[k] == x;
        assert((ee + ce)[ee.len() + k] == x);
    }
    assert forall|x: UtxoEntry| ee.contains(x) implies (ee + ce).contains(x) by {
        let k = choose|k: int| 0 <= k < ee.len() && ee[k] == x;
        assert((ee + ce)[k] == x);
    }
}

} // verus!
