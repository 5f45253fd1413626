//! The ABI of a contract with every nominal enum type reachable from it,
//! keyed by declared name, for generated code to look enum types up.
use vstd::prelude::*;

use crate::hl_type::{
    lemma_types_view, lemma_variants_view, type_view, types_view, EnumModel, HlType, TypeModel,
};

verus! {

/// The full ABI of a contract: its parameter and witness types, plus every
/// nominal enum type reachable from them, keyed by declared enum name.
#[derive(PartialEq, Eq, Debug)]
pub struct AbiTypes {
    pub parameters: Vec<(String, HlType)>,
    pub witness_types: Vec<(String, HlType)>,
    pub enum_types: Vec<(String, HlType)>,
}

/// `m` with the enum types reachable from `t` recorded by name; an enum is
/// recorded before its payloads, and a later enum of the same name
/// replaces an earlier one.
pub open spec fn collect_spec(t: TypeModel, m: Map<Seq<char>, TypeModel>) -> Map<Seq<char>, TypeModel>
    decreases t, 0nat,
{
    match t {
        TypeModel::Enum(info) => collect_variants_spec(
            info.variants,
            info.variants.len(),
            m.insert(info.name, t),
        ),
        TypeModel::Either(l, r) => collect_spec(*r, collect_spec(*l, m)),
        TypeModel::Option(x) => collect_spec(*x, m),
        TypeModel::Tuple(es) => collect_types_spec(es, es.len(), m),
        TypeModel::Array(e, _) => collect_spec(*e, m),
        TypeModel::List(e, _) => collect_spec(*e, m),
        _ => m,
    }
}

/// `collect_spec` over the first `k` types, in order.
pub open spec fn collect_types_spec(es: Seq<TypeModel>, k: nat, m: Map<Seq<char>, TypeModel>) -> Map<
    Seq<char>,
    TypeModel,
>
    decreases es, k,
{
    if k == 0 || k > es.len() {
        m
    } else {
        collect_spec(es[k - 1], collect_types_spec(es, (k - 1) as nat, m))
    }
}

/// `collect_spec` over the payloads of the first `k` variants, in order.
pub open spec fn collect_variants_spec(
    vs: Seq<crate::hl_type::VariantModel>,
    k: nat,
    m: Map<Seq<char>, TypeModel>,
) -> Map<Seq<char>, TypeModel>
    decreases vs, k,
{
    if k == 0 || k > vs.len() {
        m
    } else {
        collect_types_spec(
            vs[k - 1].payload,
            vs[k - 1].payload.len(),
            collect_variants_spec(vs, (k - 1) as nat, m),
        )
    }
}

/// No name occurs twice among the entries.
pub open spec fn keys_distinct(s: Seq<(String, HlType)>) -> bool {
    forall|i: int, j: int| 0 <= i < j < s.len() ==> (#[trigger] s[i]).0@ != (#[trigger] s[j]).0@
}

/// The entries as a map from name to type.
pub open spec fn entries_map(s: Seq<(String, HlType)>) -> Map<Seq<char>, TypeModel>
    decreases s.len(),
{
    if s.len() == 0 {
        Map::empty()
    } else {
        entries_map(s.drop_last()).insert(s.last().0@, s.last().1@)
    }
}

proof fn lemma_entries_map_update(s: Seq<(String, HlType)>, i: int, name: String, t: HlType)
    requires
        keys_distinct(s),
        0 <= i < s.len(),
        s[i].0@ == name@,
    ensures
        entries_map(s.update(i, (name, t))) == entries_map(s).insert(name@, t@),
        keys_distinct(s.update(i, (name, t))),
    decreases s.len(),
{
    let u = s.update(i, (name, t));
    if i == s.len() - 1 {
        assert(u.drop_last() =~= s.drop_last());
        assert(entries_map(u) =~= entries_map(s).insert(name@, t@));
    } else {
        assert(keys_distinct(s.drop_last()));
        lemma_entries_map_update(s.drop_last(), i, name, t);
        assert(u.drop_last() =~= s.drop_last().update(i, (name, t)));
        assert(s.last().0@ != name@);
        assert(entries_map(u) =~= entries_map(s).insert(name@, t@));
    }
    assert forall|a: int, b: int| 0 <= a < b < u.len() implies (#[trigger] u[a]).0@ != (
    #[trigger] u[b]).0@ by {
        assert(s[a].0@ != s[b].0@);
    }
}

proof fn lemma_entries_map_absent(s: Seq<(String, HlType)>, k: Seq<char>)
    requires
        forall|i: int| 0 <= i < s.len() ==> (#[trigger] s[i]).0@ != k,
    ensures
        !entries_map(s).contains_key(k),
    decreases s.len(),
{
    if s.len() > 0 {
        assert forall|i: int| 0 <= i < s.len() - 1 implies (#[trigger] s.drop_last()[i]).0@ != k by {
            assert(s.drop_last()[i] == s[i]);
        }
        lemma_entries_map_absent(s.drop_last(), k);
    }
}

/// Records `t` under `name`, replacing the type recorded under it before.
#[verifier::loop_isolation(false)]
fn insert_entry(entries: &mut Vec<(String, HlType)>, name: String, t: HlType)
    requires
        keys_distinct(old(entries)@),
    ensures
        keys_distinct(final(entries)@),
        entries_map(final(entries)@) == entries_map(old(entries)@).insert(name@, t@),
{
    let mut i: usize = 0;
    while i < entries.len()
        invariant
            i <= entries@.len(),
            entries@ == old(entries)@,
            keys_distinct(entries@),
            forall|j: int| 0 <= j < i ==> (#[trigger] entries@[j]).0@ != name@,
        decreases entries@.len() - i,
    {
        if crate::text::str_eq(entries[i].0.as_str(), name.as_str()) {
            proof {
                lemma_entries_map_update(entries@, i as int, name, t);
            }
            entries.set(i, (name, t));
            return;
        }
        i += 1;
    }
    let ghost prev = entries@;
    entries.push((name, t));
    proof {
        assert(entries@.drop_last() =~= prev);
        assert forall|a: int, b: int| 0 <= a < b < entries@.len() implies (
        #[trigger] entries@[a]).0@ != (#[trigger] entries@[b]).0@ by {
            if b == entries@.len() - 1 {
                assert(prev[a].0@ != name@);
            } else {
                assert(prev[a].0@ != prev[b].0@);
            }
        }
    }
}

#[verifier::loop_isolation(false)]
fn collect_from_types(es: &Vec<HlType>, entries: &mut Vec<(String, HlType)>)
    requires
        keys_distinct(old(entries)@),
    ensures
        keys_distinct(final(entries)@),
        entries_map(final(entries)@) == collect_types_spec(
            types_view(es@),
            es@.len(),
            entries_map(old(entries)@),
        ),
    decreases es, 0nat,
{
    proof {
        lemma_types_view(es@);
    }
    let ghost tv = types_view(es@);
    let ghost start = entries_map(entries@);
    let mut i: usize = 0;
    while i < es.len()
        invariant
            i <= es.len(),
            keys_distinct(entries@),
            entries_map(entries@) == collect_types_spec(tv, i as nat, start),
        decreases es.len() - i,
    {
        proof {
            broadcast use vstd::std_specs::vec::axiom_vec_index_decreases;
            assert(decreases_to!(*es => es[i as int]));
        }
        collect_from_type(&es[i], entries);
        i += 1;
    }
}

#[verifier::loop_isolation(false)]
fn collect_from_variants(vs: &Vec<crate::hl_type::EnumVariantInfo>, entries: &mut Vec<(String, HlType)>)
    requires
        keys_distinct(old(entries)@),
    ensures
        keys_distinct(final(entries)@),
        entries_map(final(entries)@) == collect_variants_spec(
            crate::hl_type::variants_view(vs@),
            vs@.len(),
            entries_map(old(entries)@),
        ),
    decreases vs, 1nat,
{
    proof {
        lemma_variants_view(vs@);
    }
    let ghost vv = crate::hl_type::variants_view(vs@);
    let ghost start = entries_map(entries@);
    let mut j: usize = 0;
    while j < vs.len()
        invariant
            j <= vs.len(),
            keys_distinct(entries@),
            entries_map(entries@) == collect_variants_spec(vv, j as nat, start),
        decreases vs.len() - j,
    {
        proof {
            broadcast use vstd::std_specs::vec::axiom_vec_index_decreases;
            assert(decreases_to!(*vs => vs[j as int]));
            assert(decreases_to!(vs[j as int] => vs[j as int].payload));
            assert(vv[j as int] == crate::hl_type::variant_view(vs@[j as int]));
            lemma_types_view(vs@[j as int].payload@);
        }
        collect_from_types(&vs[j].payload, entries);
        j += 1;
    }
}

/// Records by name every enum type reachable from `ty` (see
/// `collect_spec`).
pub fn collect_from_type(ty: &HlType, enum_types: &mut Vec<(String, HlType)>)
    requires
        keys_distinct(old(enum_types)@),
    ensures
        keys_distinct(final(enum_types)@),
        entries_map(final(enum_types)@) == collect_spec(ty@, entries_map(old(enum_types)@)),
    decreases ty, 0nat,
{
    match ty {
        HlType::Enum(info) => {
            assert(ty@ == TypeModel::Enum(crate::hl_type::enum_view(*info)));
            proof {
                lemma_variants_view(info.variants@);
            }
            insert_entry(enum_types, info.name.clone(), ty.duplicate());
            collect_from_variants(&info.variants, enum_types);
        },
        HlType::Either(left, right) => {
            collect_from_type(left, enum_types);
            collect_from_type(right, enum_types);
        },
        HlType::Option(inner) => collect_from_type(inner, enum_types),
        HlType::Tuple(elements) => {
            proof {
                lemma_types_view(elements@);
            }
            collect_from_types(elements, enum_types);
        },
        HlType::Array(element, _) => collect_from_type(element, enum_types),
        HlType::List(element, _) => collect_from_type(element, enum_types),
        _ => {},
    }
}

/// The enum types reachable from an ABI's parameters, then its witnesses.
pub open spec fn abi_enum_map(
    parameters: Seq<(String, HlType)>,
    witness_types: Seq<(String, HlType)>,
) -> Map<Seq<char>, TypeModel> {
    collect_types_spec(
        types_view(witness_types.map_values(|p: (String, HlType)| p.1)),
        witness_types.len(),
        collect_types_spec(
            types_view(parameters.map_values(|p: (String, HlType)| p.1)),
            parameters.len(),
            Map::empty(),
        ),
    )
}

fn collect_from_pairs(pairs: &Vec<(String, HlType)>, entries: &mut Vec<(String, HlType)>)
    requires
        keys_distinct(old(entries)@),
    ensures
        keys_distinct(final(entries)@),
        entries_map(final(entries)@) == collect_types_spec(
            types_view(pairs@.map_values(|p: (String, HlType)| p.1)),
            pairs@.len(),
            entries_map(old(entries)@),
        ),
{
    let ghost ts = pairs@.map_values(|p: (String, HlType)| p.1);
    proof {
        lemma_types_view(ts);
    }
    let ghost tv = types_view(ts);
    let ghost start = entries_map(entries@);
    let mut i: usize = 0;
    while i < pairs.len()
        invariant
            i <= pairs@.len(),
            ts == pairs@.map_values(|p: (String, HlType)| p.1),
            tv == types_view(ts),
            tv.len() == pairs@.len(),
            forall|k: int| 0 <= k < pairs@.len() ==> #[trigger] tv[k] == type_view(ts[k]),
            keys_distinct(entries@),
            entries_map(entries@) == collect_types_spec(tv, i as nat, start),
        decreases pairs@.len() - i,
    {
        assert(tv[i as int] == pairs@[i as int].1@);
        collect_from_type(&pairs[i].1, entries);
        i += 1;
    }
}

impl AbiTypes {
    /// The ABI of a contract with the enum types reachable from its
    /// parameters and witnesses, one per name.
    pub fn from_abi(parameters: Vec<(String, HlType)>, witness_types: Vec<(String, HlType)>) -> (r:
        AbiTypes)
        ensures
            r.parameters == parameters,
            r.witness_types == witness_types,
            keys_distinct(r.enum_types@),
            entries_map(r.enum_types@) == abi_enum_map(parameters@, witness_types@),
    {
        let mut enum_types: Vec<(String, HlType)> = Vec::new();
        assert(entries_map(enum_types@) =~= Map::empty());
        collect_from_pairs(&parameters, &mut enum_types);
        collect_from_pairs(&witness_types, &mut enum_types);
        AbiTypes { parameters, witness_types, enum_types }
    }

    /// The enum type declared under `name`, if the ABI reaches one.
    #[verifier::loop_isolation(false)]
    pub fn enum_type(&self, name: &str) -> (r: Option<&HlType>)
        requires
            keys_distinct(self.enum_types@),
        ensures
            match r {
                Some(t) => entries_map(self.enum_types@).contains_key(name@) && entries_map(
                    self.enum_types@,
                )[name@] == t@,
                None => !entries_map(self.enum_types@).contains_key(name@),
            },
    {
        let mut i: usize = 0;
        while i < self.enum_types.len()
            invariant
                i <= self.enum_types@.len(),
                forall|j: int| 0 <= j < i ==> (#[trigger] self.enum_types@[j]).0@ != name@,
            decreases self.enum_types@.len() - i,
        {
            if crate::text::str_eq(self.enum_types[i].0.as_str(), name) {
                proof {
                    lemma_entries_map_lookup(self.enum_types@, i as int);
                }
                return Some(&self.enum_types[i].1);
            }
            i += 1;
        }
        proof {
            lemma_entries_map_absent(self.enum_types@, name@);
        }
        None
    }
}

proof fn lemma_entries_map_lookup(s: Seq<(String, HlType)>, i: int)
    requires
        keys_distinct(s),
        0 <= i < s.len(),
    ensures
        entries_map(s).contains_key(s[i].0@),
        entries_map(s)[s[i].0@] == s[i].1@,
    decreases s.len(),
{
    if i < s.len() - 1 {
        assert(keys_distinct(s.drop_last()));
        assert(s.drop_last()[i] == s[i]);
        lemma_entries_map_lookup(s.drop_last(), i);
        assert(s.last().0@ != s[i].0@);
    }
}

} // verus!
