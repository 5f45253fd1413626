//! The Rust side of a contract's ABI: the Rust type that stands for each
//! SimplicityHL type in generated bindings, and the spelling of enum and
//! variant identifiers.
use vstd::prelude::*;
use vstd::relations::injective_on;
use vstd::set_lib::{lemma_int_range, lemma_len_subset, lemma_map_size, set_int_range};

use crate::hl_type::{
    lemma_types_view, lemma_variants_view, EnumModel, HlType, TypeModel, UIntType, VariantModel,
};
use crate::text::str_eq;

verus! {

/// A variant of a generated Rust enum: its name and payload types.
#[derive(PartialEq, Eq, Debug)]
pub struct RustEnumVariant {
    pub name: String,
    pub payload: Vec<RustType>,
}

/// A nominal enum type mirrored from SimplicityHL.
#[derive(PartialEq, Eq, Debug)]
pub struct RustEnum {
    /// Nominal name used by the SimplicityHL ABI.
    pub name: String,
    /// Rust spelling of the name (written as a raw identifier).
    pub rust_name: String,
    pub variants: Vec<RustEnumVariant>,
}

/// The Rust type that a generated binding uses for a SimplicityHL type.
#[derive(PartialEq, Eq, Debug)]
pub enum RustType {
    Bool,
    U1,
    U2,
    U4,
    U8,
    U16,
    U32,
    U64,
    U128,
    U256Array,
    Array(Box<RustType>, usize),
    Tuple(Vec<RustType>),
    Either(Box<RustType>, Box<RustType>),
    Option(Box<RustType>),
    List(Box<RustType>, usize),
    Enum(RustEnum),
}

/// Mathematical model of a generated enum variant.
pub struct RustVariantModel {
    pub name: Seq<char>,
    pub payload: Seq<RustTypeModel>,
}

/// Mathematical model of a generated enum.
pub struct RustEnumModel {
    pub name: Seq<char>,
    pub rust_name: Seq<char>,
    pub variants: Seq<RustVariantModel>,
}

/// Mathematical model of a binding type.
pub enum RustTypeModel {
    Bool,
    U1,
    U2,
    U4,
    U8,
    U16,
    U32,
    U64,
    U128,
    U256Array,
    Array(Box<RustTypeModel>, nat),
    Tuple(Seq<RustTypeModel>),
    Either(Box<RustTypeModel>, Box<RustTypeModel>),
    Option(Box<RustTypeModel>),
    List(Box<RustTypeModel>, nat),
    Enum(RustEnumModel),
}

pub open spec fn rtype_view(t: RustType) -> RustTypeModel
    decreases t,
{
    match t {
        RustType::Bool => RustTypeModel::Bool,
        RustType::U1 => RustTypeModel::U1,
        RustType::U2 => RustTypeModel::U2,
        RustType::U4 => RustTypeModel::U4,
        RustType::U8 => RustTypeModel::U8,
        RustType::U16 => RustTypeModel::U16,
        RustType::U32 => RustTypeModel::U32,
        RustType::U64 => RustTypeModel::U64,
        RustType::U128 => RustTypeModel::U128,
        RustType::U256Array => RustTypeModel::U256Array,
        RustType::Array(e, n) => RustTypeModel::Array(Box::new(rtype_view(*e)), n as nat),
        RustType::Tuple(es) => RustTypeModel::Tuple(rtypes_view(es@)),
        RustType::Either(l, r) => RustTypeModel::Either(
            Box::new(rtype_view(*l)),
            Box::new(rtype_view(*r)),
        ),
        RustType::Option(x) => RustTypeModel::Option(Box::new(rtype_view(*x))),
        RustType::List(e, n) => RustTypeModel::List(Box::new(rtype_view(*e)), n as nat),
        RustType::Enum(def) => RustTypeModel::Enum(renum_view(def)),
    }
}

pub open spec fn rtypes_view(s: Seq<RustType>) -> Seq<RustTypeModel>
    decreases s,
{
    if s.len() == 0 {
        Seq::empty()
    } else {
        rtypes_view(s.drop_last()).push(rtype_view(s.last()))
    }
}

pub open spec fn renum_view(e: RustEnum) -> RustEnumModel
    decreases e,
{
    RustEnumModel { name: e.name@, rust_name: e.rust_name@, variants: rvariants_view(e.variants@) }
}

pub open spec fn rvariants_view(s: Seq<RustEnumVariant>) -> Seq<RustVariantModel>
    decreases s,
{
    if s.len() == 0 {
        Seq::empty()
    } else {
        rvariants_view(s.drop_last()).push(rvariant_view(s.last()))
    }
}

pub open spec fn rvariant_view(v: RustEnumVariant) -> RustVariantModel
    decreases v,
{
    RustVariantModel { name: v.name@, payload: rtypes_view(v.payload@) }
}

impl View for RustType {
    type V = RustTypeModel;

    open spec fn view(&self) -> RustTypeModel {
        rtype_view(*self)
    }
}

impl View for RustEnum {
    type V = RustEnumModel;

    open spec fn view(&self) -> RustEnumModel {
        renum_view(*self)
    }
}

impl View for RustEnumVariant {
    type V = RustVariantModel;

    open spec fn view(&self) -> RustVariantModel {
        rvariant_view(*self)
    }
}

pub proof fn lemma_rtypes_view(s: Seq<RustType>)
    ensures
        rtypes_view(s).len() == s.len(),
        forall|i: int| 0 <= i < s.len() ==> #[trigger] rtypes_view(s)[i] == rtype_view(s[i]),
    decreases s.len(),
{
    if s.len() > 0 {
        lemma_rtypes_view(s.drop_last());
    }
}

pub proof fn lemma_rvariants_view(s: Seq<RustEnumVariant>)
    ensures
        rvariants_view(s).len() == s.len(),
        forall|i: int| 0 <= i < s.len() ==> #[trigger] rvariants_view(s)[i] == rvariant_view(s[i]),
    decreases s.len(),
{
    if s.len() > 0 {
        lemma_rvariants_view(s.drop_last());
    }
}

/// Where a value sits relative to the field that holds it; this decides
/// whether generated conversions reach it through a reference.
#[derive(Clone, Copy, PartialEq, Eq, Debug, Structural)]
pub enum RustTypeContext {
    Root,
    Array,
    Tuple,
    EitherLeft,
    EitherRight,
    Option,
    List,
    EnumVariant,
}

/// Values reached by pattern matching on a reference, or by iterating over a
/// list, are references and are dereferenced before conversion.
pub open spec fn deref_needed(c: RustTypeContext) -> bool {
    match c {
        RustTypeContext::Array | RustTypeContext::Tuple | RustTypeContext::Root => false,
        _ => true,
    }
}

/// The human-readable description of a context.
pub open spec fn context_description(c: RustTypeContext) -> Seq<char> {
    match c {
        RustTypeContext::Root => "root element"@,
        RustTypeContext::Array => "array element"@,
        RustTypeContext::Tuple => "tuple element"@,
        RustTypeContext::EitherLeft => "left either branch"@,
        RustTypeContext::EitherRight => "right either branch"@,
        RustTypeContext::Option => "option element"@,
        RustTypeContext::List => "list element"@,
        RustTypeContext::EnumVariant => "enum variant payload"@,
    }
}

/// The name of a context's variant, as its `Debug` form writes it.
pub open spec fn context_name(c: RustTypeContext) -> Seq<char> {
    match c {
        RustTypeContext::Root => "Root"@,
        RustTypeContext::Array => "Array"@,
        RustTypeContext::Tuple => "Tuple"@,
        RustTypeContext::EitherLeft => "EitherLeft"@,
        RustTypeContext::EitherRight => "EitherRight"@,
        RustTypeContext::Option => "Option"@,
        RustTypeContext::List => "List"@,
        RustTypeContext::EnumVariant => "EnumVariant"@,
    }
}

impl RustTypeContext {
    /// Whether a value in this context is a reference that generated code
    /// must dereference.
    pub fn is_deref_needed(&self) -> (r: bool)
        ensures
            r == deref_needed(*self),
    {
        match self {
            RustTypeContext::Array | RustTypeContext::Tuple | RustTypeContext::Root => false,
            RustTypeContext::List
            | RustTypeContext::EitherLeft
            | RustTypeContext::EitherRight
            | RustTypeContext::Option
            | RustTypeContext::EnumVariant => true,
        }
    }

    /// The human-readable description of the context (`root element`, ...).
    pub fn description(&self) -> (r: &'static str)
        ensures
            r@ == context_description(*self),
    {
        match self {
            RustTypeContext::Root => "root element",
            RustTypeContext::Array => "array element",
            RustTypeContext::Tuple => "tuple element",
            RustTypeContext::EitherLeft => "left either branch",
            RustTypeContext::EitherRight => "right either branch",
            RustTypeContext::Option => "option element",
            RustTypeContext::List => "list element",
            RustTypeContext::EnumVariant => "enum variant payload",
        }
    }

    /// The name of the context's variant (`Root`, `Array`, ...).
    pub fn name(&self) -> (r: &'static str)
        ensures
            r@ == context_name(*self),
    {
        match self {
            RustTypeContext::Root => "Root",
            RustTypeContext::Array => "Array",
            RustTypeContext::Tuple => "Tuple",
            RustTypeContext::EitherLeft => "EitherLeft",
            RustTypeContext::EitherRight => "EitherRight",
            RustTypeContext::Option => "Option",
            RustTypeContext::List => "List",
            RustTypeContext::EnumVariant => "EnumVariant",
        }
    }
}

/// Names that cannot be written as raw identifiers: the path keywords and
/// the single underscore.
pub open spec fn is_unraw_name(n: Seq<char>) -> bool {
    n == "self"@ || n == "Self"@ || n == "super"@ || n == "crate"@ || n == "_"@
}

/// `k` underscores.
pub open spec fn underscores(k: nat) -> Seq<char> {
    Seq::new(k, |i: int| '_')
}

/// The least `j >= k` such that `name` followed by `j` underscores is not in
/// `taken`; past `taken.len() + 1` candidates the search stops, and
/// `lemma_free_suffix_exists` shows that it never gets there.
pub open spec fn first_free(name: Seq<char>, taken: Seq<Seq<char>>, k: nat) -> nat
    decreases taken.len() + 1 - k,
{
    if k > taken.len() || !taken.contains(name + underscores(k)) {
        k
    } else {
        first_free(name, taken, k + 1)
    }
}

/// The Rust spelling of a declared name: names that cannot be raw
/// identifiers get underscores appended until the result is not one of the
/// `taken` names; every other name is kept as it is.
pub open spec fn escaped_name(name: Seq<char>, taken: Seq<Seq<char>>) -> Seq<char> {
    if is_unraw_name(name) {
        name + underscores(first_free(name, taken, 1))
    } else {
        name
    }
}

/// The texts of a list of strings.
pub open spec fn strings_view(s: Seq<String>) -> Seq<Seq<char>> {
    s.map_values(|x: String| x@)
}

/// Among `taken.len() + 1` distinct candidates some candidate is not taken.
proof fn lemma_free_suffix_exists(name: Seq<char>, taken: Seq<Seq<char>>)
    ensures
        exists|k: nat| 1 <= k <= taken.len() + 1 && !taken.contains(name + underscores(k)),
{
    let l = taken.len() as int;
    if forall|k: nat| 1 <= k <= l + 1 ==> taken.contains(name + underscores(k)) {
        let dom = set_int_range(1, l + 2);
        let f = |k: int| name + underscores(k as nat);
        lemma_int_range(1, l + 2);
        assert(injective_on(f, dom)) by {
            assert forall|a: int, b: int|
                dom.contains(a) && dom.contains(b) && #[trigger] f(a) == #[trigger] f(b) implies a
                == b by {
                assert(f(a).len() == name.len() + a);
                assert(f(b).len() == name.len() + b);
            }
        }
        let img = dom.map(f);
        lemma_map_size(dom, img, f);
        assert(img.subset_of(taken.to_set())) by {
            assert forall|s: Seq<char>| img.contains(s) implies taken.to_set().contains(s) by {
                let k = choose|k: int| dom.contains(k) && f(k) == s;
                assert(taken.contains(name + underscores(k as nat)));
            }
        }
        taken.lemma_cardinality_of_set();
        lemma_len_subset(img, taken.to_set());
        assert(false);
    }
}

/// `first_free` from `k` finds a name outside `taken` whenever one exists at
/// or after `k`, and never goes below `k`.
proof fn lemma_first_free(name: Seq<char>, taken: Seq<Seq<char>>, k: nat, j: nat)
    requires
        k <= j <= taken.len() + 1,
        !taken.contains(name + underscores(j)),
    ensures
        k <= first_free(name, taken, k) <= j,
        !taken.contains(name + underscores(first_free(name, taken, k))),
        forall|m: nat| k <= m < first_free(name, taken, k) ==> taken.contains(name + underscores(m)),
    decreases taken.len() + 1 - k,
{
    if k > taken.len() || !taken.contains(name + underscores(k)) {
    } else {
        lemma_first_free(name, taken, k + 1, j);
    }
}

/// The escaped spelling of a name is never a path keyword or `_`, and when
/// the name had to change, the new spelling is the shortest one that none of
/// the `taken` names uses.
pub proof fn lemma_escaped_name(name: Seq<char>, taken: Seq<Seq<char>>)
    ensures
        !is_unraw_name(escaped_name(name, taken)),
        is_unraw_name(name) ==> !taken.contains(escaped_name(name, taken)),
        is_unraw_name(name) ==> escaped_name(name, taken).len() > name.len(),
        is_unraw_name(name) ==> forall|m: nat|
            1 <= m < escaped_name(name, taken).len() - name.len() ==> taken.contains(
                #[trigger] (name + underscores(m)),
            ),
        !is_unraw_name(name) ==> escaped_name(name, taken) == name,
{
    if is_unraw_name(name) {
        lemma_free_suffix_exists(name, taken);
        let j = choose|k: nat| 1 <= k <= taken.len() + 1 && !taken.contains(name + underscores(k));
        lemma_first_free(name, taken, 1, j);
        let e = escaped_name(name, taken);
        let k = first_free(name, taken, 1);
        assert(e.len() == name.len() + k);
        assert(e[e.len() - 1] == '_');
        reveal_strlit("self");
        reveal_strlit("Self");
        reveal_strlit("super");
        reveal_strlit("crate");
        reveal_strlit("_");
        assert(e.len() >= 2);
        assert(e[e.len() - 1] != "self"@.last());
        assert(e[e.len() - 1] != "Self"@.last());
        assert(e[e.len() - 1] != "super"@.last());
        assert(e[e.len() - 1] != "crate"@.last());
    }
}

/// Whether `s` is one of the `names`.
pub fn contains_name(names: &Vec<String>, s: &str) -> (r: bool)
    ensures
        r == strings_view(names@).contains(s@),
{
    let mut i: usize = 0;
    while i < names.len()
        invariant
            i <= names.len(),
            forall|j: int| 0 <= j < i ==> names@[j]@ != s@,
        decreases names.len() - i,
    {
        if str_eq(names[i].as_str(), s) {
            assert(strings_view(names@)[i as int] == s@);
            return true;
        }
        i += 1;
    }
    proof {
        if strings_view(names@).contains(s@) {
            let j = choose|j: int| 0 <= j < names@.len() && strings_view(names@)[j] == s@;
            assert(names@[j]@ == s@);
        }
    }
    false
}

/// The Rust spelling of a declared name (see `escaped_name`); generated code
/// writes it as a raw identifier.
pub fn rust_identifier(name: &str, taken: &Vec<String>) -> (r: String)
    ensures
        r@ == escaped_name(name@, strings_view(taken@)),
{
    let mut out = String::from_str(name);
    let unraw = str_eq(name, "self") || str_eq(name, "Self") || str_eq(name, "super") || str_eq(
        name,
        "crate",
    ) || str_eq(name, "_");
    if !unraw {
        return out;
    }
    let ghost tv = strings_view(taken@);
    proof {
        lemma_free_suffix_exists(name@, tv);
    }
    proof {
        reveal_strlit("_");
    }
    out.append("_");
    let ghost mut k: nat = 1;
    assert(out@ =~= name@ + underscores(1));
    while contains_name(taken, out.as_str())
        invariant
            tv == strings_view(taken@),
            tv.len() == taken@.len(),
            1 <= k <= tv.len() + 1,
            out@ == name@ + underscores(k),
            forall|m: nat| 1 <= m < k ==> tv.contains(name@ + underscores(m)),
            first_free(name@, tv, 1) == first_free(name@, tv, k),
            exists|j: nat| 1 <= j <= tv.len() + 1 && !tv.contains(name@ + underscores(j)),
        decreases tv.len() + 1 - k,
    {
        proof {
            let j = choose|j: nat| 1 <= j <= tv.len() + 1 && !tv.contains(name@ + underscores(j));
            if j <= k {
                if j < k {
                    assert(tv.contains(name@ + underscores(j)));
                }
            }
            assert(k < j);
        }
        out.append("_");
        proof {
            reveal_strlit("_");
            assert(out@ =~= name@ + underscores(k + 1));
            k = k + 1;
        }
    }
    out
}

/// What generating bindings for a type can fail on.
#[derive(Clone, Copy, PartialEq, Eq, Debug, Structural)]
pub enum CodegenError {
    /// The type has no Rust counterpart.
    UnsupportedType,
}

impl CodegenError {
    /// The error's message.
    pub fn message(&self) -> (r: &'static str)
        ensures
            r@ == "Unsupported type in macro conversions"@,
    {
        "Unsupported type in macro conversions"
    }
}

/// The binding type for a SimplicityHL type, with each enum's Rust name
/// escaped on its own; `None` where the type has no Rust counterpart.
pub open spec fn rust_type_of(t: TypeModel) -> Option<RustTypeModel>
    decreases t,
{
    match t {
        TypeModel::Boolean => Some(RustTypeModel::Bool),
        TypeModel::UInt(u) => Some(
            match u {
                UIntType::U1 => RustTypeModel::U1,
                UIntType::U2 => RustTypeModel::U2,
                UIntType::U4 => RustTypeModel::U4,
                UIntType::U8 => RustTypeModel::U8,
                UIntType::U16 => RustTypeModel::U16,
                UIntType::U32 => RustTypeModel::U32,
                UIntType::U64 => RustTypeModel::U64,
                UIntType::U128 => RustTypeModel::U128,
                UIntType::U256 => RustTypeModel::U256Array,
            },
        ),
        TypeModel::Either(l, r) => match (rust_type_of(*l), rust_type_of(*r)) {
            (Some(a), Some(b)) => Some(RustTypeModel::Either(Box::new(a), Box::new(b))),
            _ => None,
        },
        TypeModel::Option(x) => match rust_type_of(*x) {
            Some(a) => Some(RustTypeModel::Option(Box::new(a))),
            None => None,
        },
        TypeModel::Tuple(es) => match rust_types_of(es) {
            Some(v) => Some(RustTypeModel::Tuple(v)),
            None => None,
        },
        TypeModel::Array(e, n) => match rust_type_of(*e) {
            Some(a) => Some(RustTypeModel::Array(Box::new(a), n)),
            None => None,
        },
        TypeModel::List(e, n) => match rust_type_of(*e) {
            Some(a) => Some(RustTypeModel::List(Box::new(a), n)),
            None => None,
        },
        TypeModel::Enum(info) => match rust_variants_of(info.variants) {
            Some(vs) => Some(
                RustTypeModel::Enum(
                    RustEnumModel {
                        name: info.name,
                        rust_name: escaped_name(info.name, Seq::empty()),
                        variants: vs,
                    },
                ),
            ),
            None => None,
        },
        TypeModel::Never => None,
    }
}

/// The binding types of a list of types; `None` if any has no counterpart.
pub open spec fn rust_types_of(s: Seq<TypeModel>) -> Option<Seq<RustTypeModel>>
    decreases s,
{
    if s.len() == 0 {
        Some(Seq::empty())
    } else {
        match (rust_types_of(s.drop_last()), rust_type_of(s.last())) {
            (Some(v), Some(a)) => Some(v.push(a)),
            _ => None,
        }
    }
}

/// The binding variants of an enum's variants; `None` if a payload type
/// has no counterpart.
pub open spec fn rust_variants_of(s: Seq<VariantModel>) -> Option<Seq<RustVariantModel>>
    decreases s,
{
    if s.len() == 0 {
        Some(Seq::empty())
    } else {
        match (rust_variants_of(s.drop_last()), rust_types_of(s.last().payload)) {
            (Some(v), Some(p)) => Some(v.push(RustVariantModel { name: s.last().name, payload: p })),
            _ => None,
        }
    }
}

/// Binding types of `es` in order.
#[verifier::loop_isolation(false)]
fn from_resolved_types(es: &Vec<HlType>) -> (r: Result<Vec<RustType>, CodegenError>)
    ensures
        match r {
            Ok(v) => rust_types_of(crate::hl_type::types_view(es@)) == Some(rtypes_view(v@)),
            Err(_) => rust_types_of(crate::hl_type::types_view(es@)) is None,
        },
    decreases es,
{
    proof {
        lemma_types_view(es@);
    }
    let ghost tv = crate::hl_type::types_view(es@);
    let mut out: Vec<RustType> = Vec::new();
    let mut i: usize = 0;
    while i < es.len()
        invariant
            i <= es.len(),
            rust_types_of(tv.take(i as int)) == Some(rtypes_view(out@)),
        decreases es.len() - i,
    {
        proof {
            broadcast use vstd::std_specs::vec::axiom_vec_index_decreases;
            assert(decreases_to!(*es => es[i as int]));
            assert(tv.take(i + 1).drop_last() =~= tv.take(i as int));
        }
        match RustType::from_resolved_type_inner(&es[i]) {
            Ok(t) => {
                let ghost prev = out@;
                out.push(t);
                proof {
                    assert(out@.drop_last() =~= prev);
                }
            },
            Err(e) => {
                proof {
                    lemma_rust_types_of_prefix(tv, i as int + 1);
                }
                return Err(e);
            },
        }
        i += 1;
    }
    assert(tv.take(es.len() as int) =~= tv);
    Ok(out)
}

/// A list with a prefix that has no counterpart has none either.
proof fn lemma_rust_types_of_prefix(s: Seq<TypeModel>, k: int)
    requires
        0 <= k <= s.len(),
        rust_types_of(s.take(k)) is None,
    ensures
        rust_types_of(s) is None,
    decreases s.len(),
{
    if k < s.len() {
        assert(s.drop_last().take(k) =~= s.take(k));
        lemma_rust_types_of_prefix(s.drop_last(), k);
    } else {
        assert(s.take(k) =~= s);
    }
}

proof fn lemma_rust_variants_of_prefix(s: Seq<VariantModel>, k: int)
    requires
        0 <= k <= s.len(),
        rust_variants_of(s.take(k)) is None,
    ensures
        rust_variants_of(s) is None,
    decreases s.len(),
{
    if k < s.len() {
        assert(s.drop_last().take(k) =~= s.take(k));
        lemma_rust_variants_of_prefix(s.drop_last(), k);
    } else {
        assert(s.take(k) =~= s);
    }
}

/// Binding variants of an enum's variants in order.
#[verifier::loop_isolation(false)]
fn from_resolved_variants(vs: &Vec<crate::hl_type::EnumVariantInfo>) -> (r: Result<
    Vec<RustEnumVariant>,
    CodegenError,
>)
    ensures
        match r {
            Ok(v) => rust_variants_of(crate::hl_type::variants_view(vs@)) == Some(
                rvariants_view(v@),
            ),
            Err(_) => rust_variants_of(crate::hl_type::variants_view(vs@)) is None,
        },
    decreases vs,
{
    proof {
        lemma_variants_view(vs@);
    }
    let ghost vv = crate::hl_type::variants_view(vs@);
    let mut out: Vec<RustEnumVariant> = Vec::new();
    let mut i: usize = 0;
    while i < vs.len()
        invariant
            i <= vs.len(),
            rust_variants_of(vv.take(i as int)) == Some(rvariants_view(out@)),
        decreases vs.len() - i,
    {
        proof {
            broadcast use vstd::std_specs::vec::axiom_vec_index_decreases;
            assert(decreases_to!(*vs => vs[i as int]));
            assert(vv.take(i + 1).drop_last() =~= vv.take(i as int));
        }
        match from_resolved_types(&vs[i].payload) {
            Ok(p) => {
                let v = RustEnumVariant { name: vs[i].name.clone(), payload: p };
                assert(vv[i as int] == crate::hl_type::variant_view(vs@[i as int]));
                assert(rvariant_view(v) == RustVariantModel {
                    name: vv[i as int].name,
                    payload: rtypes_view(p@),
                });
                let ghost prev = out@;
                out.push(v);
                proof {
                    assert(out@.drop_last() =~= prev);
                }
            },
            Err(e) => {
                proof {
                    lemma_rust_variants_of_prefix(vv, i as int + 1);
                }
                return Err(e);
            },
        }
        i += 1;
    }
    assert(vv.take(vs.len() as int) =~= vv);
    Ok(out)
}

impl RustType {
    /// The binding type for a SimplicityHL type, each enum's Rust name
    /// escaped on its own; fails on a type without a Rust counterpart.
    pub fn from_resolved_type_inner(ty: &HlType) -> (r: Result<RustType, CodegenError>)
        ensures
            match r {
                Ok(t) => rust_type_of(ty@) == Some(t@),
                Err(_) => rust_type_of(ty@) is None,
            },
        decreases ty,
    {
        match ty {
            HlType::Boolean => Ok(RustType::Bool),
            HlType::UInt(u) => Ok(
                match u {
                    UIntType::U1 => RustType::U1,
                    UIntType::U2 => RustType::U2,
                    UIntType::U4 => RustType::U4,
                    UIntType::U8 => RustType::U8,
                    UIntType::U16 => RustType::U16,
                    UIntType::U32 => RustType::U32,
                    UIntType::U64 => RustType::U64,
                    UIntType::U128 => RustType::U128,
                    UIntType::U256 => RustType::U256Array,
                },
            ),
            HlType::Either(left, right) => {
                let left_ty = RustType::from_resolved_type_inner(left)?;
                let right_ty = RustType::from_resolved_type_inner(right)?;
                Ok(RustType::Either(Box::new(left_ty), Box::new(right_ty)))
            },
            HlType::Option(inner) => {
                let inner_ty = RustType::from_resolved_type_inner(inner)?;
                Ok(RustType::Option(Box::new(inner_ty)))
            },
            HlType::Tuple(elements) => {
                let element_types = from_resolved_types(elements)?;
                Ok(RustType::Tuple(element_types))
            },
            HlType::Array(element, size) => {
                let element_ty = RustType::from_resolved_type_inner(element)?;
                Ok(RustType::Array(Box::new(element_ty), *size))
            },
            HlType::List(element, size) => {
                let element_ty = RustType::from_resolved_type_inner(element)?;
                Ok(RustType::List(Box::new(element_ty), *size))
            },
            HlType::Enum(info) => {
                assert(ty@ == TypeModel::Enum(crate::hl_type::enum_view(*info)));
                let variants = from_resolved_variants(&info.variants)?;
                let no_names: Vec<String> = Vec::new();
                let rust_name = rust_identifier(info.name.as_str(), &no_names);
                assert(strings_view(no_names@) =~= Seq::<Seq<char>>::empty());
                let def = RustEnum { name: info.name.clone(), rust_name, variants };
                assert(renum_view(def) == RustEnumModel {
                    name: info@.name,
                    rust_name: escaped_name(info@.name, Seq::empty()),
                    variants: rvariants_view(def.variants@),
                });
                Ok(RustType::Enum(def))
            },
            HlType::Never => Err(CodegenError::UnsupportedType),
        }
    }
}

/// The declared names of the enums reachable from a type, in depth-first
/// order, each enum before its payloads.
pub open spec fn enum_names(t: RustTypeModel) -> Seq<Seq<char>>
    decreases t,
{
    match t {
        RustTypeModel::Enum(def) => seq![def.name] + variants_enum_names(def.variants),
        RustTypeModel::Array(e, _) => enum_names(*e),
        RustTypeModel::Option(e) => enum_names(*e),
        RustTypeModel::List(e, _) => enum_names(*e),
        RustTypeModel::Either(l, r) => enum_names(*l) + enum_names(*r),
        RustTypeModel::Tuple(es) => types_enum_names(es),
        _ => Seq::empty(),
    }
}

pub open spec fn types_enum_names(s: Seq<RustTypeModel>) -> Seq<Seq<char>>
    decreases s,
{
    if s.len() == 0 {
        Seq::empty()
    } else {
        types_enum_names(s.drop_last()) + enum_names(s.last())
    }
}

pub open spec fn variants_enum_names(s: Seq<RustVariantModel>) -> Seq<Seq<char>>
    decreases s,
{
    if s.len() == 0 {
        Seq::empty()
    } else {
        variants_enum_names(s.drop_last()) + types_enum_names(s.last().payload)
    }
}

/// The type with the Rust name of every reachable enum escaped against
/// `names`.
pub open spec fn renamed(t: RustTypeModel, names: Seq<Seq<char>>) -> RustTypeModel
    decreases t,
{
    match t {
        RustTypeModel::Enum(def) => RustTypeModel::Enum(
            RustEnumModel {
                name: def.name,
                rust_name: escaped_name(def.name, names),
                variants: renamed_variants(def.variants, names),
            },
        ),
        RustTypeModel::Array(e, n) => RustTypeModel::Array(Box::new(renamed(*e, names)), n),
        RustTypeModel::Option(e) => RustTypeModel::Option(Box::new(renamed(*e, names))),
        RustTypeModel::List(e, n) => RustTypeModel::List(Box::new(renamed(*e, names)), n),
        RustTypeModel::Either(l, r) => RustTypeModel::Either(
            Box::new(renamed(*l, names)),
            Box::new(renamed(*r, names)),
        ),
        RustTypeModel::Tuple(es) => RustTypeModel::Tuple(renamed_types(es, names)),
        _ => t,
    }
}

pub open spec fn renamed_types(s: Seq<RustTypeModel>, names: Seq<Seq<char>>) -> Seq<RustTypeModel>
    decreases s,
{
    if s.len() == 0 {
        Seq::empty()
    } else {
        renamed_types(s.drop_last(), names).push(renamed(s.last(), names))
    }
}

pub open spec fn renamed_variants(s: Seq<RustVariantModel>, names: Seq<Seq<char>>) -> Seq<
    RustVariantModel,
>
    decreases s,
{
    if s.len() == 0 {
        Seq::empty()
    } else {
        renamed_variants(s.drop_last(), names).push(
            RustVariantModel {
                name: s.last().name,
                payload: renamed_types(s.last().payload, names),
            },
        )
    }
}

/// The declared names of the enums reachable from any of the types.
pub open spec fn all_enum_names(s: Seq<RustTypeModel>) -> Seq<Seq<char>> {
    types_enum_names(s)
}

/// Whether an enum is reachable from the type.
pub open spec fn has_enum(t: RustTypeModel) -> bool
    decreases t,
{
    match t {
        RustTypeModel::Enum(_) => true,
        RustTypeModel::Array(e, _) => has_enum(*e),
        RustTypeModel::Option(e) => has_enum(*e),
        RustTypeModel::List(e, _) => has_enum(*e),
        RustTypeModel::Either(l, r) => has_enum(*l) || has_enum(*r),
        RustTypeModel::Tuple(es) => exists|i: int| 0 <= i < es.len() && has_enum(#[trigger] es[i]),
        _ => false,
    }
}

/// The names of an enum's variants.
pub open spec fn variant_names(s: Seq<RustVariantModel>) -> Seq<Seq<char>> {
    s.map_values(|v: RustVariantModel| v.name)
}

proof fn lemma_renamed_types_len(s: Seq<RustTypeModel>, names: Seq<Seq<char>>)
    ensures
        renamed_types(s, names).len() == s.len(),
    decreases s.len(),
{
    if s.len() > 0 {
        lemma_renamed_types_len(s.drop_last(), names);
    }
}

/// Appends the declared names of the enums reachable from the types in `es`.
#[verifier::loop_isolation(false)]
fn collect_types_enum_names(es: &Vec<RustType>, names: &mut Vec<String>)
    ensures
        strings_view(final(names)@) == strings_view(old(names)@) + types_enum_names(
            rtypes_view(es@),
        ),
    decreases es,
{
    proof {
        lemma_rtypes_view(es@);
    }
    let ghost tv = rtypes_view(es@);
    let ghost start = strings_view(names@);
    let mut i: usize = 0;
    while i < es.len()
        invariant
            i <= es.len(),
            strings_view(names@) == start + types_enum_names(tv.take(i as int)),
        decreases es.len() - i,
    {
        proof {
            broadcast use vstd::std_specs::vec::axiom_vec_index_decreases;
            assert(decreases_to!(*es => es[i as int]));
            assert(tv.take(i + 1).drop_last() =~= tv.take(i as int));
        }
        es[i].collect_enum_names(names);
        proof {
            assert(tv.take(i + 1).last() == tv[i as int]);
            assert(strings_view(names@) =~= start + types_enum_names(tv.take(i + 1)));
        }
        i += 1;
    }
    assert(tv.take(es.len() as int) =~= tv);
}

#[verifier::loop_isolation(false)]
fn collect_variants_enum_names(vs: &Vec<RustEnumVariant>, names: &mut Vec<String>)
    ensures
        strings_view(final(names)@) == strings_view(old(names)@) + variants_enum_names(
            rvariants_view(vs@),
        ),
    decreases vs,
{
    proof {
        lemma_rvariants_view(vs@);
    }
    let ghost vv = rvariants_view(vs@);
    let ghost start = strings_view(names@);
    let mut i: usize = 0;
    while i < vs.len()
        invariant
            i <= vs.len(),
            strings_view(names@) == start + variants_enum_names(vv.take(i as int)),
        decreases vs.len() - i,
    {
        proof {
            broadcast use vstd::std_specs::vec::axiom_vec_index_decreases;
            assert(decreases_to!(*vs => vs[i as int]));
            assert(vv.take(i + 1).drop_last() =~= vv.take(i as int));
        }
        collect_types_enum_names(&vs[i].payload, names);
        proof {
            assert(vv.take(i + 1).last() == vv[i as int]);
            assert(strings_view(names@) =~= start + variants_enum_names(vv.take(i + 1)));
        }
        i += 1;
    }
    assert(vv.take(vs.len() as int) =~= vv);
}

/// Copies of the types with every reachable enum renamed against `names`.
#[verifier::loop_isolation(false)]
fn renamed_types_exec(es: &Vec<RustType>, names: &Vec<String>) -> (r: Vec<RustType>)
    ensures
        rtypes_view(r@) == renamed_types(rtypes_view(es@), strings_view(names@)),
    decreases es,
{
    proof {
        lemma_rtypes_view(es@);
    }
    let ghost tv = rtypes_view(es@);
    let ghost nv = strings_view(names@);
    let mut out: Vec<RustType> = Vec::new();
    let mut i: usize = 0;
    while i < es.len()
        invariant
            i <= es.len(),
            rtypes_view(out@) == renamed_types(tv.take(i as int), nv),
        decreases es.len() - i,
    {
        proof {
            broadcast use vstd::std_specs::vec::axiom_vec_index_decreases;
            assert(decreases_to!(*es => es[i as int]));
            assert(tv.take(i + 1).drop_last() =~= tv.take(i as int));
        }
        let t = es[i].renamed(names);
        let ghost prev = out@;
        out.push(t);
        proof {
            assert(out@.drop_last() =~= prev);
            assert(tv.take(i + 1).last() == tv[i as int]);
        }
        i += 1;
    }
    assert(tv.take(es.len() as int) =~= tv);
    out
}

#[verifier::loop_isolation(false)]
fn renamed_variants_exec(vs: &Vec<RustEnumVariant>, names: &Vec<String>) -> (r: Vec<
    RustEnumVariant,
>)
    ensures
        rvariants_view(r@) == renamed_variants(rvariants_view(vs@), strings_view(names@)),
    decreases vs,
{
    proof {
        lemma_rvariants_view(vs@);
    }
    let ghost vv = rvariants_view(vs@);
    let ghost nv = strings_view(names@);
    let mut out: Vec<RustEnumVariant> = Vec::new();
    let mut i: usize = 0;
    while i < vs.len()
        invariant
            i <= vs.len(),
            rvariants_view(out@) == renamed_variants(vv.take(i as int), nv),
        decreases vs.len() - i,
    {
        proof {
            broadcast use vstd::std_specs::vec::axiom_vec_index_decreases;
            assert(decreases_to!(*vs => vs[i as int]));
            assert(vv.take(i + 1).drop_last() =~= vv.take(i as int));
        }
        let payload = renamed_types_exec(&vs[i].payload, names);
        let v = RustEnumVariant { name: vs[i].name.clone(), payload };
        assert(vv[i as int] == rvariant_view(vs@[i as int]));
        assert(rvariant_view(v) == RustVariantModel {
            name: vv[i as int].name,
            payload: renamed_types(vv[i as int].payload, nv),
        });
        let ghost prev = out@;
        out.push(v);
        proof {
            assert(out@.drop_last() =~= prev);
            assert(vv.take(i + 1).last() == vv[i as int]);
        }
        i += 1;
    }
    assert(vv.take(vs.len() as int) =~= vv);
    out
}

/// Whether an enum is reachable from any of the types.
#[verifier::loop_isolation(false)]
fn types_contain_enum(es: &Vec<RustType>) -> (r: bool)
    ensures
        r == exists|i: int| 0 <= i < es@.len() && has_enum(#[trigger] rtypes_view(es@)[i]),
    decreases es,
{
    proof {
        lemma_rtypes_view(es@);
    }
    let mut i: usize = 0;
    while i < es.len()
        invariant
            i <= es.len(),
            forall|j: int| 0 <= j < i ==> !has_enum(#[trigger] rtypes_view(es@)[j]),
        decreases es.len() - i,
    {
        proof {
            broadcast use vstd::std_specs::vec::axiom_vec_index_decreases;
            assert(decreases_to!(*es => es[i as int]));
        }
        if es[i].contains_enum() {
            assert(has_enum(rtypes_view(es@)[i as int]));
            return true;
        }
        i += 1;
    }
    false
}

impl RustEnum {
    /// The Rust spelling of the `i`-th variant's name, escaped against the
    /// names of the enum's variants.
    pub fn variant_ident(&self, i: usize) -> (r: String)
        requires
            i < self.variants@.len(),
        ensures
            r@ == escaped_name(self.variants@[i as int].name@, variant_names(self@.variants)),
    {
        let mut taken: Vec<String> = Vec::new();
        let mut j: usize = 0;
        proof {
            lemma_rvariants_view(self.variants@);
        }
        while j < self.variants.len()
            invariant
                j <= self.variants@.len(),
                rvariants_view(self.variants@).len() == self.variants@.len(),
                forall|m: int| 0 <= m < self.variants@.len() ==> #[trigger] rvariants_view(self.variants@)[m] == rvariant_view(self.variants@[m]),
                self@.variants == rvariants_view(self.variants@),
                strings_view(taken@) =~= variant_names(self@.variants).take(j as int),
            decreases self.variants@.len() - j,
        {
            assert(variant_names(self@.variants)[j as int] == self.variants@[j as int].name@);
            taken.push(self.variants[j].name.clone());
            assert(variant_names(self@.variants).take(j + 1) =~= variant_names(self@.variants).take(j as int).push(self.variants@[j as int].name@));
            j += 1;
        }
        assert(variant_names(self@.variants).take(j as int) =~= variant_names(self@.variants));
        rust_identifier(self.variants[i].name.as_str(), &taken)
    }
}

impl RustType {
    /// Appends the declared names of the enums reachable from the type.
    pub fn collect_enum_names(&self, names: &mut Vec<String>)
        ensures
            strings_view(final(names)@) == strings_view(old(names)@) + enum_names(self@),
        decreases self,
    {
        let ghost start = strings_view(names@);
        match self {
            RustType::Enum(def) => {
                assert(self@ == RustTypeModel::Enum(renum_view(*def)));
                names.push(def.name.clone());
                collect_variants_enum_names(&def.variants, names);
                assert(strings_view(names@) =~= start + enum_names(self@));
            },
            RustType::Array(e, _) => e.collect_enum_names(names),
            RustType::Option(e) => e.collect_enum_names(names),
            RustType::List(e, _) => e.collect_enum_names(names),
            RustType::Either(l, r) => {
                l.collect_enum_names(names);
                r.collect_enum_names(names);
                assert(strings_view(names@) =~= start + enum_names(self@));
            },
            RustType::Tuple(es) => collect_types_enum_names(es, names),
            _ => {
                assert(strings_view(names@) =~= start + enum_names(self@));
            },
        }
    }

    /// A copy of the type with the Rust name of every reachable enum escaped
    /// against `names`.
    pub fn renamed(&self, names: &Vec<String>) -> (r: RustType)
        ensures
            r@ == renamed(self@, strings_view(names@)),
        decreases self,
    {
        match self {
            RustType::Enum(def) => {
                assert(self@ == RustTypeModel::Enum(renum_view(*def)));
                let rust_name = rust_identifier(def.name.as_str(), names);
                let variants = renamed_variants_exec(&def.variants, names);
                let d = RustEnum { name: def.name.clone(), rust_name, variants };
                assert(renum_view(d).variants == renamed_variants(renum_view(*def).variants, strings_view(names@)));
                RustType::Enum(d)
            },
            RustType::Array(e, n) => RustType::Array(Box::new(e.renamed(names)), *n),
            RustType::Option(e) => RustType::Option(Box::new(e.renamed(names))),
            RustType::List(e, n) => RustType::List(Box::new(e.renamed(names)), *n),
            RustType::Either(lt, rt) => {
                let a = lt.renamed(names);
                let b = rt.renamed(names);
                RustType::Either(Box::new(a), Box::new(b))
            },
            RustType::Tuple(es) => RustType::Tuple(renamed_types_exec(es, names)),
            RustType::Bool => RustType::Bool,
            RustType::U1 => RustType::U1,
            RustType::U2 => RustType::U2,
            RustType::U4 => RustType::U4,
            RustType::U8 => RustType::U8,
            RustType::U16 => RustType::U16,
            RustType::U32 => RustType::U32,
            RustType::U64 => RustType::U64,
            RustType::U128 => RustType::U128,
            RustType::U256Array => RustType::U256Array,
        }
    }

    /// Whether an enum is reachable from the type.
    pub fn contains_enum(&self) -> (r: bool)
        ensures
            r == has_enum(self@),
        decreases self,
    {
        match self {
            RustType::Enum(def) => {
                assert(self@ == RustTypeModel::Enum(renum_view(*def)));
                true
            },
            RustType::Array(e, _) => e.contains_enum(),
            RustType::Option(e) => e.contains_enum(),
            RustType::List(e, _) => e.contains_enum(),
            RustType::Either(a, b) => a.contains_enum() || b.contains_enum(),
            RustType::Tuple(es) => {
                proof {
                    lemma_rtypes_view(es@);
                }
                types_contain_enum(es)
            },
            _ => false,
        }
    }

    /// Escapes the Rust names of the enums reachable from all of `types`
    /// against the declared names of all of them, so that one enum is spelled
    /// alike in every field of an ABI.
    pub fn resolve_enum_names(types: &mut Vec<RustType>)
        ensures
            final(types)@.len() == old(types)@.len(),
            rtypes_view(final(types)@) == renamed_types(
                rtypes_view(old(types)@),
                all_enum_names(rtypes_view(old(types)@)),
            ),
    {
        let mut names: Vec<String> = Vec::new();
        collect_types_enum_names(types, &mut names);
        assert(strings_view(names@) =~= all_enum_names(rtypes_view(types@)));
        let out = renamed_types_exec(types, &names);
        proof {
            lemma_rtypes_view(types@);
            lemma_rtypes_view(out@);
            lemma_renamed_types_len(rtypes_view(types@), strings_view(names@));
        }
        *types = out;
    }

    /// The binding type for a SimplicityHL type, with enum names escaped
    /// against the names reachable from it; fails on a type without a Rust
    /// counterpart.
    pub fn from_resolved_type(ty: &HlType) -> (r: Result<RustType, CodegenError>)
        ensures
            match r {
                Ok(t) => exists|x: RustTypeModel|
                    rust_type_of(ty@) == Some(x) && t@ == renamed(x, enum_names(x)),
                Err(_) => rust_type_of(ty@) is None,
            },
    {
        let t = RustType::from_resolved_type_inner(ty)?;
        let ghost x = t@;
        let mut ts: Vec<RustType> = Vec::new();
        ts.push(t);
        proof {
            let one = ts@;
            lemma_rtypes_view(one);
            assert(rtypes_view(one) =~= seq![x]);
            let xs = seq![x];
            assert(xs.drop_last() =~= Seq::<RustTypeModel>::empty());
            assert(types_enum_names(xs.drop_last()) =~= Seq::<Seq<char>>::empty());
            assert(types_enum_names(xs) =~= enum_names(x));
            assert(renamed_types(xs.drop_last(), enum_names(x)) =~= Seq::<RustTypeModel>::empty());
            assert(renamed_types(xs, enum_names(x)) =~= seq![renamed(x, enum_names(x))]);
        }
        RustType::resolve_enum_names(&mut ts);
        let ghost after = ts@;
        proof {
            lemma_rtypes_view(after);
            assert(rtypes_view(after)[0] == renamed(x, enum_names(x)));
        }
        let r = ts.remove(0);
        assert(r == after[0]);
        assert(rust_type_of(ty@) == Some(x) && r@ == renamed(x, enum_names(x)));
        Ok(r)
    }
}

/// Renaming keeps the declared names, and a second renaming overrides the
/// first.
pub proof fn lemma_renamed_twice(t: RustTypeModel, n1: Seq<Seq<char>>, n2: Seq<Seq<char>>)
    ensures
        enum_names(renamed(t, n1)) == enum_names(t),
        renamed(renamed(t, n1), n2) == renamed(t, n2),
        has_enum(renamed(t, n1)) == has_enum(t),
    decreases t,
{
    match t {
        RustTypeModel::Enum(def) => {
            lemma_renamed_variants_twice(def.variants, n1, n2);
        },
        RustTypeModel::Array(e, _) => lemma_renamed_twice(*e, n1, n2),
        RustTypeModel::Option(e) => lemma_renamed_twice(*e, n1, n2),
        RustTypeModel::List(e, _) => lemma_renamed_twice(*e, n1, n2),
        RustTypeModel::Either(l, r) => {
            lemma_renamed_twice(*l, n1, n2);
            lemma_renamed_twice(*r, n1, n2);
        },
        RustTypeModel::Tuple(es) => {
            lemma_renamed_types_twice(es, n1, n2);
            lemma_renamed_types_len(es, n1);
            assert forall|i: int| 0 <= i < es.len() implies has_enum(
                #[trigger] renamed_types(es, n1)[i],
            ) == has_enum(es[i]) by {
                lemma_renamed_types_index(es, n1, i);
                lemma_renamed_twice(es[i], n1, n2);
            }
            if has_enum(t) {
                let i = choose|i: int| 0 <= i < es.len() && has_enum(#[trigger] es[i]);
                assert(has_enum(renamed_types(es, n1)[i]));
            }
            if has_enum(renamed(t, n1)) {
                let i = choose|i: int|
                    0 <= i < renamed_types(es, n1).len() && has_enum(
                        #[trigger] renamed_types(es, n1)[i],
                    );
                assert(has_enum(es[i]));
            }
        },
        _ => {},
    }
}

pub proof fn lemma_renamed_types_index(s: Seq<RustTypeModel>, names: Seq<Seq<char>>, i: int)
    requires
        0 <= i < s.len(),
    ensures
        renamed_types(s, names)[i] == renamed(s[i], names),
    decreases s.len(),
{
    lemma_renamed_types_len(s.drop_last(), names);
    if i < s.len() - 1 {
        lemma_renamed_types_index(s.drop_last(), names, i);
    }
}

pub proof fn lemma_renamed_types_twice(s: Seq<RustTypeModel>, n1: Seq<Seq<char>>, n2: Seq<Seq<char>>)
    ensures
        types_enum_names(renamed_types(s, n1)) == types_enum_names(s),
        renamed_types(renamed_types(s, n1), n2) == renamed_types(s, n2),
    decreases s,
{
    if s.len() > 0 {
        lemma_renamed_types_twice(s.drop_last(), n1, n2);
        lemma_renamed_twice(s.last(), n1, n2);
        let r1 = renamed_types(s, n1);
        assert(r1.drop_last() =~= renamed_types(s.drop_last(), n1));
        assert(r1.last() == renamed(s.last(), n1));
    }
}

pub proof fn lemma_renamed_variants_twice(
    s: Seq<RustVariantModel>,
    n1: Seq<Seq<char>>,
    n2: Seq<Seq<char>>,
)
    ensures
        variants_enum_names(renamed_variants(s, n1)) == variants_enum_names(s),
        renamed_variants(renamed_variants(s, n1), n2) == renamed_variants(s, n2),
    decreases s,
{
    if s.len() > 0 {
        lemma_renamed_variants_twice(s.drop_last(), n1, n2);
        lemma_renamed_types_twice(s.last().payload, n1, n2);
        let r1 = renamed_variants(s, n1);
        assert(r1.drop_last() =~= renamed_variants(s.drop_last(), n1));
    }
}

/// A list of types has binding types exactly when each of them has one,
/// and then they are the binding types of its elements.
pub proof fn lemma_rust_types_of(s: Seq<TypeModel>)
    ensures
        (rust_types_of(s) is Some) <==> (forall|i: int|
            0 <= i < s.len() ==> #[trigger] rust_type_of(s[i]) is Some),
        rust_types_of(s) is Some ==> rust_types_of(s).unwrap().len() == s.len() && forall|i: int|
            0 <= i < s.len() ==> rust_type_of(s[i]) == Some(
                #[trigger] rust_types_of(s).unwrap()[i],
            ),
    decreases s.len(),
{
    if s.len() > 0 {
        lemma_rust_types_of(s.drop_last());
        if !(rust_types_of(s) is Some) {
            if rust_types_of(s.drop_last()) is None {
                let i = choose|i: int|
                    0 <= i < s.drop_last().len() && !(#[trigger] rust_type_of(s.drop_last()[i]) is Some);
                assert(s.drop_last()[i] == s[i]);
            } else {
                assert(rust_type_of(s[s.len() - 1]) is None);
            }
        } else {
            assert forall|i: int| 0 <= i < s.len() implies rust_type_of(s[i]) == Some(
                #[trigger] rust_types_of(s).unwrap()[i],
            ) by {
                if i < s.len() - 1 {
                    assert(s.drop_last()[i] == s[i]);
                }
            }
            assert forall|i: int| 0 <= i < s.len() implies #[trigger] rust_type_of(s[i]) is Some by {
                assert(rust_type_of(s[i]) == Some(rust_types_of(s).unwrap()[i]));
            }
        }
    }
}

/// The enum names of a concatenation are the concatenated enum names.
pub proof fn lemma_types_enum_names_concat(a: Seq<RustTypeModel>, b: Seq<RustTypeModel>)
    ensures
        types_enum_names(a + b) == types_enum_names(a) + types_enum_names(b),
    decreases b.len(),
{
    if b.len() == 0 {
        assert(a + b =~= a);
        assert(types_enum_names(a) + types_enum_names(b) =~= types_enum_names(a));
    } else {
        lemma_types_enum_names_concat(a, b.drop_last());
        assert((a + b).drop_last() =~= a + b.drop_last());
        assert((a + b).last() == b.last());
        assert(types_enum_names(a + b) =~= types_enum_names(a) + types_enum_names(b));
    }
}

/// Lists whose elements have the same enum names have the same enum names.
pub proof fn lemma_types_enum_names_congruent(a: Seq<RustTypeModel>, b: Seq<RustTypeModel>)
    requires
        a.len() == b.len(),
        forall|i: int| 0 <= i < a.len() ==> enum_names(#[trigger] a[i]) == enum_names(b[i]),
    ensures
        types_enum_names(a) == types_enum_names(b),
    decreases a.len(),
{
    if a.len() > 0 {
        assert forall|i: int| 0 <= i < a.drop_last().len() implies enum_names(
            #[trigger] a.drop_last()[i],
        ) == enum_names(b.drop_last()[i]) by {
            assert(a.drop_last()[i] == a[i]);
            assert(b.drop_last()[i] == b[i]);
        }
        lemma_types_enum_names_congruent(a.drop_last(), b.drop_last());
        assert(enum_names(a.last()) == enum_names(b.last()));
    }
}

/// Distinct names among `taken` get distinct Rust spellings.
pub proof fn lemma_escaped_names_distinct(a: Seq<char>, b: Seq<char>, taken: Seq<Seq<char>>)
    requires
        taken.contains(a),
        taken.contains(b),
        a != b,
    ensures
        escaped_name(a, taken) != escaped_name(b, taken),
{
    lemma_escaped_name(a, taken);
    lemma_escaped_name(b, taken);
    let ea = escaped_name(a, taken);
    let eb = escaped_name(b, taken);
    if is_unraw_name(a) && is_unraw_name(b) && ea == eb {
        reveal_strlit("self");
        reveal_strlit("Self");
        reveal_strlit("super");
        reveal_strlit("crate");
        reveal_strlit("_");
        let ka = first_free(a, taken, 1);
        let kb = first_free(b, taken, 1);
        assert(ea == a + underscores(ka));
        assert(eb == b + underscores(kb));
        assert(ea[0] == eb[0]);
        assert(ea[1] == eb[1]);
        assert(ea[0] == a[0]);
        assert(eb[0] == b[0]);
        assert(a.len() >= 2 ==> ea[1] == a[1]);
        assert(b.len() >= 2 ==> eb[1] == b[1]);
        assert(a.len() == 1 ==> ea[1] == '_');
        assert(b.len() == 1 ==> eb[1] == '_');
        assert(false);
    }
}

/// The width in bits of an unsigned SimplicityHL integer type.
pub open spec fn uint_bits(u: UIntType) -> nat {
    match u {
        UIntType::U1 => 1,
        UIntType::U2 => 2,
        UIntType::U4 => 4,
        UIntType::U8 => 8,
        UIntType::U16 => 16,
        UIntType::U32 => 32,
        UIntType::U64 => 64,
        UIntType::U128 => 128,
        UIntType::U256 => 256,
    }
}

/// The width in bits of the integer that a binding type holds, if it holds
/// one: `u8` and the narrower ones, up to `u128`, and the 32-byte array of
/// a 256-bit integer.
pub open spec fn rust_int_bits(r: RustTypeModel) -> Option<nat> {
    match r {
        RustTypeModel::U1 => Some(1),
        RustTypeModel::U2 => Some(2),
        RustTypeModel::U4 => Some(4),
        RustTypeModel::U8 => Some(8),
        RustTypeModel::U16 => Some(16),
        RustTypeModel::U32 => Some(32),
        RustTypeModel::U64 => Some(64),
        RustTypeModel::U128 => Some(128),
        RustTypeModel::U256Array => Some(256),
        _ => None,
    }
}

/// An integer type of every width has a binding type, and that binding
/// holds an integer of the same width: `u64` stays `u64`.
pub proof fn lemma_integer_bindings_keep_their_width(u: UIntType)
    ensures
        rust_type_of(TypeModel::UInt(u)) matches Some(r) && rust_int_bits(r) == Some(uint_bits(u)),
{
}

} // verus!
