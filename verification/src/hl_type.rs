//! The SimplicityHL type system as plain data: unsigned integer widths,
//! sums, options, tuples, arrays, bounded lists and nominal enums.
use vstd::prelude::*;

use crate::text::{decimal_text, usize_to_decimal};

verus! {

/// Width of an unsigned integer type.
#[derive(Clone, Copy, PartialEq, Eq, Debug, Structural)]
pub enum UIntType {
    U1,
    U2,
    U4,
    U8,
    U16,
    U32,
    U64,
    U128,
    U256,
}

/// One variant of a nominal enum: its name and payload types.
#[derive(PartialEq, Eq, Debug)]
pub struct EnumVariantInfo {
    pub name: String,
    pub payload: Vec<HlType>,
}

/// Definition of a nominal enum: its name and its variants in declaration order.
#[derive(PartialEq, Eq, Debug)]
pub struct EnumInfo {
    pub name: String,
    pub variants: Vec<EnumVariantInfo>,
}

/// A resolved SimplicityHL type.
#[derive(PartialEq, Eq, Debug)]
pub enum HlType {
    Either(Box<HlType>, Box<HlType>),
    Option(Box<HlType>),
    Boolean,
    UInt(UIntType),
    Tuple(Vec<HlType>),
    Array(Box<HlType>, usize),
    /// Element type and the exclusive bound on the number of elements.
    List(Box<HlType>, usize),
    Enum(EnumInfo),
    Never,
}

/// Mathematical model of an enum variant.
pub struct VariantModel {
    pub name: Seq<char>,
    pub payload: Seq<TypeModel>,
}

/// Mathematical model of an enum definition.
pub struct EnumModel {
    pub name: Seq<char>,
    pub variants: Seq<VariantModel>,
}

/// Mathematical model of a SimplicityHL type.
pub enum TypeModel {
    Either(Box<TypeModel>, Box<TypeModel>),
    Option(Box<TypeModel>),
    Boolean,
    UInt(UIntType),
    Tuple(Seq<TypeModel>),
    Array(Box<TypeModel>, nat),
    List(Box<TypeModel>, nat),
    Enum(EnumModel),
    Never,
}

pub open spec fn type_view(t: HlType) -> TypeModel
    decreases t,
{
    match t {
        HlType::Either(l, r) => TypeModel::Either(Box::new(type_view(*l)), Box::new(type_view(*r))),
        HlType::Option(x) => TypeModel::Option(Box::new(type_view(*x))),
        HlType::Boolean => TypeModel::Boolean,
        HlType::UInt(u) => TypeModel::UInt(u),
        HlType::Tuple(es) => TypeModel::Tuple(types_view(es@)),
        HlType::Array(e, n) => TypeModel::Array(Box::new(type_view(*e)), n as nat),
        HlType::List(e, n) => TypeModel::List(Box::new(type_view(*e)), n as nat),
        HlType::Enum(info) => TypeModel::Enum(enum_view(info)),
        HlType::Never => TypeModel::Never,
    }
}

pub open spec fn types_view(s: Seq<HlType>) -> Seq<TypeModel>
    decreases s,
{
    if s.len() == 0 {
        Seq::empty()
    } else {
        types_view(s.drop_last()).push(type_view(s.last()))
    }
}

pub open spec fn enum_view(e: EnumInfo) -> EnumModel
    decreases e,
{
    EnumModel { name: e.name@, variants: variants_view(e.variants@) }
}

pub open spec fn variants_view(s: Seq<EnumVariantInfo>) -> Seq<VariantModel>
    decreases s,
{
    if s.len() == 0 {
        Seq::empty()
    } else {
        variants_view(s.drop_last()).push(variant_view(s.last()))
    }
}

pub open spec fn variant_view(v: EnumVariantInfo) -> VariantModel
    decreases v,
{
    VariantModel { name: v.name@, payload: types_view(v.payload@) }
}

impl View for HlType {
    type V = TypeModel;

    open spec fn view(&self) -> TypeModel {
        type_view(*self)
    }
}

impl View for EnumInfo {
    type V = EnumModel;

    open spec fn view(&self) -> EnumModel {
        enum_view(*self)
    }
}

impl View for EnumVariantInfo {
    type V = VariantModel;

    open spec fn view(&self) -> VariantModel {
        variant_view(*self)
    }
}

pub proof fn lemma_types_view(s: Seq<HlType>)
    ensures
        types_view(s).len() == s.len(),
        forall|i: int| 0 <= i < s.len() ==> #[trigger] types_view(s)[i] == type_view(s[i]),
    decreases s.len(),
{
    if s.len() > 0 {
        lemma_types_view(s.drop_last());
    }
}

pub proof fn lemma_variants_view(s: Seq<EnumVariantInfo>)
    ensures
        variants_view(s).len() == s.len(),
        forall|i: int| 0 <= i < s.len() ==> #[trigger] variants_view(s)[i] == variant_view(s[i]),
    decreases s.len(),
{
    if s.len() > 0 {
        lemma_variants_view(s.drop_last());
    }
}

pub open spec fn uint_text(u: UIntType) -> Seq<char> {
    match u {
        UIntType::U1 => "u1"@,
        UIntType::U2 => "u2"@,
        UIntType::U4 => "u4"@,
        UIntType::U8 => "u8"@,
        UIntType::U16 => "u16"@,
        UIntType::U32 => "u32"@,
        UIntType::U64 => "u64"@,
        UIntType::U128 => "u128"@,
        UIntType::U256 => "u256"@,
    }
}

/// The display text of a type, as SimplicityHL writes it: `Either<A, B>`,
/// `Option<A>`, `bool`, `u8`, `(A, B)`, `(A,)`, `[A; n]`, `List<A, n>`, the
/// enum's name, and `!`.
pub open spec fn type_text(t: TypeModel) -> Seq<char>
    decreases t,
{
    match t {
        TypeModel::Either(l, r) => "Either<"@ + type_text(*l) + ", "@ + type_text(*r) + ">"@,
        TypeModel::Option(x) => "Option<"@ + type_text(*x) + ">"@,
        TypeModel::Boolean => "bool"@,
        TypeModel::UInt(u) => uint_text(u),
        TypeModel::Tuple(es) => "("@ + types_text(es) + (if es.len() == 1 {
            ","@
        } else {
            Seq::empty()
        }) + ")"@,
        TypeModel::Array(e, n) => "["@ + type_text(*e) + "; "@ + decimal_text(n) + "]"@,
        TypeModel::List(e, n) => "List<"@ + type_text(*e) + ", "@ + decimal_text(n) + ">"@,
        TypeModel::Enum(info) => info.name,
        TypeModel::Never => "!"@,
    }
}

/// The display texts of `s`, separated by `", "`.
pub open spec fn types_text(s: Seq<TypeModel>) -> Seq<char>
    decreases s,
{
    if s.len() == 0 {
        Seq::empty()
    } else if s.len() == 1 {
        type_text(s[0])
    } else {
        types_text(s.drop_last()) + ", "@ + type_text(s.last())
    }
}

/// Whether `n` is a power of two greater than one.
pub open spec fn is_pow2_above_one(n: nat) -> bool
    decreases n,
{
    if n == 2 {
        true
    } else if n < 2 || n % 2 == 1 {
        false
    } else {
        is_pow2_above_one(n / 2)
    }
}

impl UIntType {
    /// Display text of the integer type (`u1` .. `u256`).
    pub fn text(&self) -> (r: &'static str)
        ensures
            r@ == uint_text(*self),
    {
        match self {
            UIntType::U1 => "u1",
            UIntType::U2 => "u2",
            UIntType::U4 => "u4",
            UIntType::U8 => "u8",
            UIntType::U16 => "u16",
            UIntType::U32 => "u32",
            UIntType::U64 => "u64",
            UIntType::U128 => "u128",
            UIntType::U256 => "u256",
        }
    }
}

/// Whether the two lists of types have equal models.
#[verifier::loop_isolation(false)]
pub fn types_eq(a: &Vec<HlType>, b: &Vec<HlType>) -> (r: bool)
    ensures
        r == (types_view(a@) == types_view(b@)),
    decreases a,
{
    proof {
        lemma_types_view(a@);
        lemma_types_view(b@);
    }
    if a.len() != b.len() {
        return false;
    }
    let mut i: usize = 0;
    while i < a.len()
        invariant
            i <= a.len(),
            a.len() == b.len(),
            forall|j: int| 0 <= j < i ==> type_view(a@[j]) == type_view(b@[j]),
        decreases a.len() - i,
    {
        proof {
            broadcast use vstd::std_specs::vec::axiom_vec_index_decreases;
            assert(decreases_to!(*a => a[i as int]));
        }
        if !a[i].equals(&b[i]) {
            assert(types_view(a@)[i as int] != types_view(b@)[i as int]);
            return false;
        }
        i += 1;
    }
    assert(types_view(a@) =~= types_view(b@));
    true
}

#[verifier::loop_isolation(false)]
fn variants_eq(a: &Vec<EnumVariantInfo>, b: &Vec<EnumVariantInfo>) -> (r: bool)
    ensures
        r == (variants_view(a@) == variants_view(b@)),
    decreases a,
{
    proof {
        lemma_variants_view(a@);
        lemma_variants_view(b@);
    }
    if a.len() != b.len() {
        return false;
    }
    let mut i: usize = 0;
    while i < a.len()
        invariant
            i <= a.len(),
            a.len() == b.len(),
            forall|j: int| 0 <= j < i ==> variant_view(a@[j]) == variant_view(b@[j]),
        decreases a.len() - i,
    {
        proof {
            broadcast use vstd::std_specs::vec::axiom_vec_index_decreases;
            assert(decreases_to!(*a => a[i as int]));
        }
        let same_name = a[i].name == b[i].name;
        if !same_name {
            assert(variants_view(a@)[i as int].name != variants_view(b@)[i as int].name);
            return false;
        }
        if !types_eq(&a[i].payload, &b[i].payload) {
            assert(variants_view(a@)[i as int].payload != variants_view(b@)[i as int].payload);
            return false;
        }
        i += 1;
    }
    assert(variants_view(a@) =~= variants_view(b@));
    true
}

/// A copy of the list of types with the same models.
#[verifier::loop_isolation(false)]
pub fn types_duplicate(a: &Vec<HlType>) -> (r: Vec<HlType>)
    ensures
        types_view(r@) == types_view(a@),
    decreases a,
{
    proof {
        lemma_types_view(a@);
    }
    let mut out: Vec<HlType> = Vec::new();
    let mut i: usize = 0;
    while i < a.len()
        invariant
            i <= a.len(),
            out@.len() == i,
            forall|j: int| 0 <= j < i ==> type_view(out@[j]) == type_view(a@[j]),
        decreases a.len() - i,
    {
        proof {
            broadcast use vstd::std_specs::vec::axiom_vec_index_decreases;
            assert(decreases_to!(*a => a[i as int]));
        }
        let e = a[i].duplicate();
        out.push(e);
        i += 1;
    }
    proof {
        lemma_types_view(out@);
    }
    assert(types_view(out@) =~= types_view(a@));
    out
}

#[verifier::loop_isolation(false)]
fn variants_duplicate(a: &Vec<EnumVariantInfo>) -> (r: Vec<EnumVariantInfo>)
    ensures
        variants_view(r@) == variants_view(a@),
    decreases a,
{
    proof {
        lemma_variants_view(a@);
    }
    let mut out: Vec<EnumVariantInfo> = Vec::new();
    let mut i: usize = 0;
    while i < a.len()
        invariant
            i <= a.len(),
            out@.len() == i,
            forall|j: int| 0 <= j < i ==> variant_view(out@[j]) == variant_view(a@[j]),
        decreases a.len() - i,
    {
        proof {
            broadcast use vstd::std_specs::vec::axiom_vec_index_decreases;
            assert(decreases_to!(*a => a[i as int]));
        }
        let v = EnumVariantInfo { name: a[i].name.clone(), payload: types_duplicate(&a[i].payload) };
        out.push(v);
        i += 1;
    }
    proof {
        lemma_variants_view(out@);
    }
    assert(variants_view(out@) =~= variants_view(a@));
    out
}

impl HlType {
    /// Structural equality of two types (names and shapes).
    pub fn equals(&self, other: &HlType) -> (r: bool)
        ensures
            r == (self@ == other@),
        decreases self,
    {
        match (self, other) {
            (HlType::Either(l1, r1), HlType::Either(l2, r2)) => l1.equals(l2) && r1.equals(r2),
            (HlType::Option(x1), HlType::Option(x2)) => x1.equals(x2),
            (HlType::Boolean, HlType::Boolean) => true,
            (HlType::UInt(u1), HlType::UInt(u2)) => *u1 == *u2,
            (HlType::Tuple(e1), HlType::Tuple(e2)) => types_eq(e1, e2),
            (HlType::Array(e1, n1), HlType::Array(e2, n2)) => *n1 == *n2 && e1.equals(e2),
            (HlType::List(e1, n1), HlType::List(e2, n2)) => *n1 == *n2 && e1.equals(e2),
            (HlType::Enum(i1), HlType::Enum(i2)) => {
                let same_name = i1.name == i2.name;
                let same_variants = variants_eq(&i1.variants, &i2.variants);
                assert(self@ == TypeModel::Enum(enum_view(*i1)));
                assert(other@ == TypeModel::Enum(enum_view(*i2)));
                same_name && same_variants
            },
            (HlType::Never, HlType::Never) => true,
            _ => false,
        }
    }

    /// A copy of the type with the same model.
    pub fn duplicate(&self) -> (r: HlType)
        ensures
            r@ == self@,
        decreases self,
    {
        let out = match self {
            HlType::Either(lt, rt) => {
                let a = lt.duplicate();
                let b = rt.duplicate();
                HlType::Either(Box::new(a), Box::new(b))
            },
            HlType::Option(x) => {
                let a = x.duplicate();
                HlType::Option(Box::new(a))
            },
            HlType::Boolean => HlType::Boolean,
            HlType::UInt(u) => HlType::UInt(*u),
            HlType::Tuple(es) => HlType::Tuple(types_duplicate(es)),
            HlType::Array(e, n) => {
                let a = e.duplicate();
                HlType::Array(Box::new(a), *n)
            },
            HlType::List(e, n) => {
                let a = e.duplicate();
                HlType::List(Box::new(a), *n)
            },
            HlType::Enum(info) => {
                let name = info.name.clone();
                let variants = variants_duplicate(&info.variants);
                let d = EnumInfo { name, variants };
                assert(enum_view(d) == enum_view(*info));
                HlType::Enum(d)
            },
            HlType::Never => HlType::Never,
        };
        out
    }

    /// Display text of the type.
    pub fn to_text(&self) -> (r: String)
        ensures
            r@ == type_text(self@),
        decreases self,
    {
        match self {
            HlType::Either(left, right) => {
                let mut s = String::new();
                s.append("Either<");
                let lt = left.to_text();
                s.append(lt.as_str());
                s.append(", ");
                let rt = right.to_text();
                s.append(rt.as_str());
                s.append(">");
                assert(s@ =~= "Either<"@ + type_text(left@) + ", "@ + type_text(right@) + ">"@);
                s
            },
            HlType::Option(x) => {
                let mut s = String::new();
                s.append("Option<");
                let xt = x.to_text();
                s.append(xt.as_str());
                s.append(">");
                assert(s@ =~= "Option<"@ + type_text(x@) + ">"@);
                s
            },
            HlType::Boolean => String::from_str("bool"),
            HlType::UInt(u) => String::from_str(u.text()),
            HlType::Tuple(es) => {
                let mut s = String::new();
                s.append("(");
                let inner = types_to_text(es);
                s.append(inner.as_str());
                if es.len() == 1 {
                    s.append(",");
                }
                s.append(")");
                proof {
                    lemma_types_view(es@);
                    if es.len() != 1 {
                        assert(s@ =~= "("@ + types_text(types_view(es@)) + Seq::<char>::empty()
                            + ")"@);
                    } else {
                        assert(s@ =~= "("@ + types_text(types_view(es@)) + ","@ + ")"@);
                    }
                }
                s
            },
            HlType::Array(e, n) => {
                let mut s = String::new();
                s.append("[");
                let et = e.to_text();
                s.append(et.as_str());
                s.append("; ");
                let nt = usize_to_decimal(*n);
                s.append(nt.as_str());
                s.append("]");
                assert(s@ =~= "["@ + type_text(e@) + "; "@ + decimal_text(*n as nat) + "]"@);
                s
            },
            HlType::List(e, n) => {
                let mut s = String::new();
                s.append("List<");
                let et = e.to_text();
                s.append(et.as_str());
                s.append(", ");
                let nt = usize_to_decimal(*n);
                s.append(nt.as_str());
                s.append(">");
                assert(s@ =~= "List<"@ + type_text(e@) + ", "@ + decimal_text(*n as nat) + ">"@);
                s
            },
            HlType::Enum(info) => {
                assert(self@ == TypeModel::Enum(enum_view(*info)));
                info.name.clone()
            },
            HlType::Never => String::from_str("!"),
        }
    }

    pub fn boolean() -> (r: HlType)
        ensures
            r@ == TypeModel::Boolean,
    {
        HlType::Boolean
    }

    pub fn uint(u: UIntType) -> (r: HlType)
        ensures
            r@ == TypeModel::UInt(u),
    {
        HlType::UInt(u)
    }

    pub fn either(left: HlType, right: HlType) -> (r: HlType)
        ensures
            r@ == TypeModel::Either(Box::new(left@), Box::new(right@)),
    {
        HlType::Either(Box::new(left), Box::new(right))
    }

    pub fn option(inner: HlType) -> (r: HlType)
        ensures
            r@ == TypeModel::Option(Box::new(inner@)),
    {
        HlType::Option(Box::new(inner))
    }

    pub fn tuple(elements: Vec<HlType>) -> (r: HlType)
        ensures
            r@ == TypeModel::Tuple(types_view(elements@)),
    {
        HlType::Tuple(elements)
    }

    pub fn array(element: HlType, size: usize) -> (r: HlType)
        ensures
            r@ == TypeModel::Array(Box::new(element@), size as nat),
    {
        HlType::Array(Box::new(element), size)
    }
}

/// Display texts of the types separated by `", "`.
#[verifier::loop_isolation(false)]
fn types_to_text(es: &Vec<HlType>) -> (r: String)
    ensures
        r@ == types_text(types_view(es@)),
    decreases es,
{
    proof {
        lemma_types_view(es@);
    }
    let mut s = String::new();
    let mut i: usize = 0;
    while i < es.len()
        invariant
            i <= es.len(),
            s@ == types_text(types_view(es@).take(i as int)),
        decreases es.len() - i,
    {
        proof {
            broadcast use vstd::std_specs::vec::axiom_vec_index_decreases;
            assert(decreases_to!(*es => es[i as int]));
        }
        if i > 0 {
            s.append(", ");
        }
        let t = es[i].to_text();
        s.append(t.as_str());
        proof {
            let tv = types_view(es@);
            assert(tv.take(i + 1).drop_last() =~= tv.take(i as int));
            if i == 0 {
                assert(s@ =~= type_text(tv.take(1)[0]));
            }
        }
        i += 1;
    }
    assert(types_view(es@).take(es.len() as int) =~= types_view(es@));
    s
}

} // verus!
