//! SimplicityHL values as plain data. Every value carries its type, as in
//! SimplicityHL; `wf_value` says when the two agree.
use vstd::prelude::*;

use crate::text::str_eq;
use crate::hl_type::{
    enum_view, lemma_types_view, lemma_variants_view, type_view, types_eq, types_view, variant_view,
    variants_view,
    EnumVariantInfo, HlType, TypeModel, UIntType, VariantModel,
};

verus! {

/// An unsigned integer of one of the SimplicityHL widths. `U256` holds its
/// 32 bytes in big-endian order.
#[derive(Clone, Copy, PartialEq, Eq, Debug)]
pub enum UIntValue {
    U1(u8),
    U2(u8),
    U4(u8),
    U8(u8),
    U16(u16),
    U32(u32),
    U64(u64),
    U128(u128),
    U256([u8; 32]),
}

/// The structure of a value.
#[derive(PartialEq, Eq, Debug)]
pub enum ValueInner {
    Left(Box<HlValue>),
    Right(Box<HlValue>),
    NoneValue,
    SomeValue(Box<HlValue>),
    Boolean(bool),
    UInt(UIntValue),
    Tuple(Vec<HlValue>),
    Array(Vec<HlValue>),
    /// Elements and the exclusive bound on their number.
    List(Vec<HlValue>, usize),
    /// Position of the variant among the declared variants, and its payload.
    Enum(usize, Vec<HlValue>),
}

/// A SimplicityHL value together with its type.
#[derive(PartialEq, Eq, Debug)]
pub struct HlValue {
    pub inner: ValueInner,
    pub ty: HlType,
}

/// Mathematical model of the structure of a value.
pub enum InnerModel {
    Left(Box<ValueModel>),
    Right(Box<ValueModel>),
    NoneValue,
    SomeValue(Box<ValueModel>),
    Boolean(bool),
    UInt(UIntValue),
    Tuple(Seq<ValueModel>),
    Array(Seq<ValueModel>),
    List(Seq<ValueModel>, nat),
    Enum(nat, Seq<ValueModel>),
}

/// Mathematical model of a value.
pub struct ValueModel {
    pub inner: InnerModel,
    pub ty: TypeModel,
}

pub open spec fn value_view(v: HlValue) -> ValueModel
    decreases v,
{
    ValueModel { inner: inner_view(v.inner), ty: type_view(v.ty) }
}

pub open spec fn inner_view(i: ValueInner) -> InnerModel
    decreases i,
{
    match i {
        ValueInner::Left(x) => InnerModel::Left(Box::new(value_view(*x))),
        ValueInner::Right(x) => InnerModel::Right(Box::new(value_view(*x))),
        ValueInner::NoneValue => InnerModel::NoneValue,
        ValueInner::SomeValue(x) => InnerModel::SomeValue(Box::new(value_view(*x))),
        ValueInner::Boolean(b) => InnerModel::Boolean(b),
        ValueInner::UInt(u) => InnerModel::UInt(u),
        ValueInner::Tuple(es) => InnerModel::Tuple(values_view(es@)),
        ValueInner::Array(es) => InnerModel::Array(values_view(es@)),
        ValueInner::List(es, b) => InnerModel::List(values_view(es@), b as nat),
        ValueInner::Enum(i, p) => InnerModel::Enum(i as nat, values_view(p@)),
    }
}

pub open spec fn values_view(s: Seq<HlValue>) -> Seq<ValueModel>
    decreases s,
{
    if s.len() == 0 {
        Seq::empty()
    } else {
        values_view(s.drop_last()).push(value_view(s.last()))
    }
}

impl View for HlValue {
    type V = ValueModel;

    open spec fn view(&self) -> ValueModel {
        value_view(*self)
    }
}

pub proof fn lemma_values_view(s: Seq<HlValue>)
    ensures
        values_view(s).len() == s.len(),
        forall|i: int| 0 <= i < s.len() ==> #[trigger] values_view(s)[i] == value_view(s[i]),
    decreases s.len(),
{
    if s.len() > 0 {
        lemma_values_view(s.drop_last());
    }
}

pub open spec fn uint_value_type(u: UIntValue) -> UIntType {
    match u {
        UIntValue::U1(_) => UIntType::U1,
        UIntValue::U2(_) => UIntType::U2,
        UIntValue::U4(_) => UIntType::U4,
        UIntValue::U8(_) => UIntType::U8,
        UIntValue::U16(_) => UIntType::U16,
        UIntValue::U32(_) => UIntType::U32,
        UIntValue::U64(_) => UIntType::U64,
        UIntValue::U128(_) => UIntType::U128,
        UIntValue::U256(_) => UIntType::U256,
    }
}

/// The narrow widths hold values below 2, 4 and 16.
pub open spec fn uint_in_range(u: UIntValue) -> bool {
    match u {
        UIntValue::U1(v) => v < 2,
        UIntValue::U2(v) => v < 4,
        UIntValue::U4(v) => v < 16,
        _ => true,
    }
}

/// The types of the values, in order.
pub open spec fn types_of(s: Seq<ValueModel>) -> Seq<TypeModel> {
    Seq::new(s.len(), |i: int| s[i].ty)
}

/// Every value of `s` has type `t`.
pub open spec fn all_of_type(s: Seq<ValueModel>, t: TypeModel) -> bool {
    forall|i: int| 0 <= i < s.len() ==> #[trigger] s[i].ty == t
}

/// A value is well formed when its structure agrees with its type at every level.
pub open spec fn wf_value(v: ValueModel) -> bool
    decreases v,
{
    match v.inner {
        InnerModel::Left(x) => match v.ty {
            TypeModel::Either(l, _) => *l == x.ty && wf_value(*x),
            _ => false,
        },
        InnerModel::Right(x) => match v.ty {
            TypeModel::Either(_, r) => *r == x.ty && wf_value(*x),
            _ => false,
        },
        InnerModel::NoneValue => v.ty is Option,
        InnerModel::SomeValue(x) => v.ty == TypeModel::Option(Box::new(x.ty)) && wf_value(*x),
        InnerModel::Boolean(_) => v.ty == TypeModel::Boolean,
        InnerModel::UInt(u) => v.ty == TypeModel::UInt(uint_value_type(u)) && uint_in_range(u),
        InnerModel::Tuple(es) => v.ty == TypeModel::Tuple(types_of(es)) && all_wf(es),
        InnerModel::Array(es) => match v.ty {
            TypeModel::Array(e, n) => n == es.len() && all_of_type(es, *e) && all_wf(es),
            _ => false,
        },
        InnerModel::List(es, b) => match v.ty {
            TypeModel::List(e, b2) => b2 == b && es.len() < b && all_of_type(es, *e) && all_wf(es),
            _ => false,
        },
        InnerModel::Enum(i, p) => match v.ty {
            TypeModel::Enum(info) => i < info.variants.len() && types_of(p)
                == info.variants[i as int].payload && all_wf(p),
            _ => false,
        },
    }
}

/// Every value of `s` is well formed.
pub open spec fn all_wf(s: Seq<ValueModel>) -> bool
    decreases s,
{
    if s.len() == 0 {
        true
    } else {
        all_wf(s.drop_last()) && wf_value(s.last())
    }
}

pub proof fn lemma_all_wf(s: Seq<ValueModel>)
    ensures
        all_wf(s) <==> forall|i: int| 0 <= i < s.len() ==> #[trigger] wf_value(s[i]),
    decreases s.len(),
{
    if s.len() > 0 {
        lemma_all_wf(s.drop_last());
        if forall|i: int| 0 <= i < s.len() ==> #[trigger] wf_value(s[i]) {
            assert forall|i: int| 0 <= i < s.len() - 1 implies #[trigger] wf_value(s.drop_last()[i]) by {
                assert(s.drop_last()[i] == s[i]);
            }
            assert(wf_value(s[s.len() - 1]));
        }
        if all_wf(s) {
            assert forall|i: int| 0 <= i < s.len() implies #[trigger] wf_value(s[i]) by {
                if i < s.len() - 1 {
                    assert(s.drop_last()[i] == s[i]);
                }
            }
        }
    }
}

/// `Left(x)` of type `Either<type of x, right>`.
pub open spec fn left_model(x: ValueModel, right: TypeModel) -> ValueModel {
    ValueModel { inner: InnerModel::Left(Box::new(x)), ty: TypeModel::Either(Box::new(x.ty), Box::new(right)) }
}

/// `Right(x)` of type `Either<left, type of x>`.
pub open spec fn right_model(left: TypeModel, x: ValueModel) -> ValueModel {
    ValueModel { inner: InnerModel::Right(Box::new(x)), ty: TypeModel::Either(Box::new(left), Box::new(x.ty)) }
}

/// The tuple of `es`, typed by the types of its components.
pub open spec fn tuple_model(es: Seq<ValueModel>) -> ValueModel {
    ValueModel { inner: InnerModel::Tuple(es), ty: TypeModel::Tuple(types_of(es)) }
}

/// The array of `es` with element type `e`.
pub open spec fn array_model(es: Seq<ValueModel>, e: TypeModel) -> ValueModel {
    ValueModel { inner: InnerModel::Array(es), ty: TypeModel::Array(Box::new(e), es.len()) }
}

/// Position of the first variant of `vs` named `name`, searching from `start`.
pub open spec fn find_variant_from(vs: Seq<VariantModel>, name: Seq<char>, start: nat) -> Option<nat>
    decreases vs.len() - start,
{
    if start >= vs.len() {
        None
    } else if vs[start as int].name == name {
        Some(start)
    } else {
        find_variant_from(vs, name, start + 1)
    }
}

/// Position of the first variant of `vs` named `name`.
pub open spec fn find_variant(vs: Seq<VariantModel>, name: Seq<char>) -> Option<nat> {
    find_variant_from(vs, name, 0)
}

pub proof fn lemma_find_variant_from(vs: Seq<VariantModel>, name: Seq<char>, start: nat)
    ensures
        find_variant_from(vs, name, start) matches Some(i) ==> start <= i < vs.len() && vs[i as int].name
            == name && forall|j: int| start <= j < i ==> vs[j].name != name,
        find_variant_from(vs, name, start) is None ==> forall|j: int|
            start <= j < vs.len() ==> vs[j].name != name,
    decreases vs.len() - start,
{
    if start < vs.len() && vs[start as int].name != name {
        lemma_find_variant_from(vs, name, start + 1);
    }
}

/// The value of the variant `name` of the enum type `t` with `payload`, when
/// `t` is an enum that declares `name` and the payload has the variant's types.
pub open spec fn enum_variant_spec(t: TypeModel, name: Seq<char>, payload: Seq<ValueModel>) -> Option<
    ValueModel,
> {
    match t {
        TypeModel::Enum(info) => match find_variant(info.variants, name) {
            Some(i) => if types_of(payload) == info.variants[i as int].payload {
                Some(ValueModel { inner: InnerModel::Enum(i, payload), ty: t })
            } else {
                None
            },
            None => None,
        },
        _ => None,
    }
}

impl UIntValue {
    /// The type of the integer.
    pub fn get_type(&self) -> (r: UIntType)
        ensures
            r == uint_value_type(*self),
    {
        match self {
            UIntValue::U1(_) => UIntType::U1,
            UIntValue::U2(_) => UIntType::U2,
            UIntValue::U4(_) => UIntType::U4,
            UIntValue::U8(_) => UIntType::U8,
            UIntValue::U16(_) => UIntType::U16,
            UIntValue::U32(_) => UIntType::U32,
            UIntValue::U64(_) => UIntType::U64,
            UIntValue::U128(_) => UIntType::U128,
            UIntValue::U256(_) => UIntType::U256,
        }
    }

    /// A 1-bit integer, when `v` is below 2.
    pub fn u1(v: u8) -> (r: Option<UIntValue>)
        ensures
            r == (if v < 2 { Some(UIntValue::U1(v)) } else { None::<UIntValue> }),
    {
        if v < 2 {
            Some(UIntValue::U1(v))
        } else {
            None
        }
    }

    /// A 2-bit integer, when `v` is below 4.
    pub fn u2(v: u8) -> (r: Option<UIntValue>)
        ensures
            r == (if v < 4 { Some(UIntValue::U2(v)) } else { None::<UIntValue> }),
    {
        if v < 4 {
            Some(UIntValue::U2(v))
        } else {
            None
        }
    }

    /// A 4-bit integer, when `v` is below 16.
    pub fn u4(v: u8) -> (r: Option<UIntValue>)
        ensures
            r == (if v < 16 { Some(UIntValue::U4(v)) } else { None::<UIntValue> }),
    {
        if v < 16 {
            Some(UIntValue::U4(v))
        } else {
            None
        }
    }
}

/// A copy of the list of values with the same models.
#[verifier::loop_isolation(false)]
pub fn values_duplicate(a: &Vec<HlValue>) -> (r: Vec<HlValue>)
    ensures
        values_view(r@) == values_view(a@),
    decreases a,
{
    proof {
        lemma_values_view(a@);
    }
    let mut out: Vec<HlValue> = Vec::new();
    let mut i: usize = 0;
    while i < a.len()
        invariant
            i <= a.len(),
            out@.len() == i,
            forall|j: int| 0 <= j < i ==> value_view(out@[j]) == value_view(a@[j]),
        decreases a.len() - i,
    {
        proof {
            broadcast use vstd::std_specs::vec::axiom_vec_index_decreases;
            assert(decreases_to!(*a => a[i as int]));
        }
        let e = a[i].duplicate();
        out.push(e);
        i += 1;
    }
    proof {
        lemma_values_view(out@);
    }
    assert(values_view(out@) =~= values_view(a@));
    out
}

/// The types of the values, in order.
#[verifier::loop_isolation(false)]
fn types_of_values(a: &Vec<HlValue>) -> (r: Vec<HlType>)
    ensures
        types_view(r@) == types_of(values_view(a@)),
{
    proof {
        lemma_values_view(a@);
    }
    let mut out: Vec<HlType> = Vec::new();
    let mut i: usize = 0;
    while i < a.len()
        invariant
            i <= a.len(),
            out@.len() == i,
            forall|j: int| 0 <= j < i ==> type_view(out@[j]) == type_view(a@[j].ty),
        decreases a.len() - i,
    {
        let t = a[i].ty.duplicate();
        out.push(t);
        i += 1;
    }
    proof {
        lemma_types_view(out@);
    }
    assert(types_view(out@) =~= types_of(values_view(a@)));
    out
}

/// Position of the first variant named `name`.
pub fn find_variant_index(variants: &Vec<EnumVariantInfo>, name: &str) -> (r: Option<usize>)
    ensures
        r matches Some(i) ==> find_variant(variants_view(variants@), name@) == Some(i as nat),
        r is None ==> find_variant(variants_view(variants@), name@) is None,
{
    proof {
        lemma_variants_view(variants@);
    }
    let ghost vs = variants_view(variants@);
    let mut i: usize = 0;
    while i < variants.len()
        invariant
            i <= variants.len(),
            vs == variants_view(variants@),
            vs.len() == variants.len(),
            forall|j: int| 0 <= j < vs.len() ==> #[trigger] vs[j] == variant_view(variants@[j]),
            find_variant(vs, name@) == find_variant_from(vs, name@, i as nat),
        decreases variants.len() - i,
    {
        if str_eq(variants[i].name.as_str(), name) {
            return Some(i);
        }
        i += 1;
    }
    None
}

impl HlValue {
    /// A copy of the value with the same model.
    pub fn duplicate(&self) -> (r: HlValue)
        ensures
            r@ == self@,
        decreases self,
    {
        let inner = match &self.inner {
            ValueInner::Left(x) => {
                let d = x.duplicate();
                ValueInner::Left(Box::new(d))
            },
            ValueInner::Right(x) => {
                let d = x.duplicate();
                ValueInner::Right(Box::new(d))
            },
            ValueInner::NoneValue => ValueInner::NoneValue,
            ValueInner::SomeValue(x) => {
                let d = x.duplicate();
                ValueInner::SomeValue(Box::new(d))
            },
            ValueInner::Boolean(b) => ValueInner::Boolean(*b),
            ValueInner::UInt(u) => ValueInner::UInt(*u),
            ValueInner::Tuple(es) => ValueInner::Tuple(values_duplicate(es)),
            ValueInner::Array(es) => ValueInner::Array(values_duplicate(es)),
            ValueInner::List(es, b) => ValueInner::List(values_duplicate(es), *b),
            ValueInner::Enum(i, p) => ValueInner::Enum(*i, values_duplicate(p)),
        };
        assert(inner_view(inner) == inner_view(self.inner));
        HlValue { inner, ty: self.ty.duplicate() }
    }

    /// The boolean `b`.
    pub fn from_bool(b: bool) -> (r: HlValue)
        ensures
            r@ == (ValueModel { inner: InnerModel::Boolean(b), ty: TypeModel::Boolean }),
            wf_value(r@),
    {
        HlValue { inner: ValueInner::Boolean(b), ty: HlType::Boolean }
    }

    /// The integer `u`, typed by its width.
    pub fn from_uint(u: UIntValue) -> (r: HlValue)
        requires
            uint_in_range(u),
        ensures
            r@ == (ValueModel { inner: InnerModel::UInt(u), ty: TypeModel::UInt(uint_value_type(u)) }),
            wf_value(r@),
    {
        HlValue { inner: ValueInner::UInt(u), ty: HlType::UInt(u.get_type()) }
    }

    /// The 8-bit integer `v`.
    pub fn u8(v: u8) -> (r: HlValue)
        ensures
            r@ == (ValueModel { inner: InnerModel::UInt(UIntValue::U8(v)), ty: TypeModel::UInt(UIntType::U8) }),
            wf_value(r@),
    {
        HlValue::from_uint(UIntValue::U8(v))
    }

    /// The 32-bit integer `v`.
    pub fn u32(v: u32) -> (r: HlValue)
        ensures
            r@ == (ValueModel {
                inner: InnerModel::UInt(UIntValue::U32(v)),
                ty: TypeModel::UInt(UIntType::U32),
            }),
            wf_value(r@),
    {
        HlValue::from_uint(UIntValue::U32(v))
    }

    /// The 64-bit integer `v`.
    pub fn u64(v: u64) -> (r: HlValue)
        ensures
            r@ == (ValueModel {
                inner: InnerModel::UInt(UIntValue::U64(v)),
                ty: TypeModel::UInt(UIntType::U64),
            }),
            wf_value(r@),
    {
        HlValue::from_uint(UIntValue::U64(v))
    }

    /// `Left(left)` of type `Either<type of left, right>`.
    pub fn left(left: HlValue, right: HlType) -> (r: HlValue)
        ensures
            r@ == left_model(left@, right@),
            wf_value(left@) ==> wf_value(r@),
    {
        let ty = HlType::Either(Box::new(left.ty.duplicate()), Box::new(right));
        HlValue { inner: ValueInner::Left(Box::new(left)), ty }
    }

    /// `Right(right)` of type `Either<left, type of right>`.
    pub fn right(left: HlType, right: HlValue) -> (r: HlValue)
        ensures
            r@ == right_model(left@, right@),
            wf_value(right@) ==> wf_value(r@),
    {
        let ty = HlType::Either(Box::new(left), Box::new(right.ty.duplicate()));
        HlValue { inner: ValueInner::Right(Box::new(right)), ty }
    }

    /// `None` of type `Option<inner>`.
    pub fn none(inner: HlType) -> (r: HlValue)
        ensures
            r@ == (ValueModel { inner: InnerModel::NoneValue, ty: TypeModel::Option(Box::new(inner@)) }),
            wf_value(r@),
    {
        HlValue { inner: ValueInner::NoneValue, ty: HlType::Option(Box::new(inner)) }
    }

    /// `Some(inner)` of type `Option<type of inner>`.
    pub fn some(inner: HlValue) -> (r: HlValue)
        ensures
            r@ == (ValueModel {
                inner: InnerModel::SomeValue(Box::new(inner@)),
                ty: TypeModel::Option(Box::new(inner@.ty)),
            }),
            wf_value(inner@) ==> wf_value(r@),
    {
        let ty = HlType::Option(Box::new(inner.ty.duplicate()));
        HlValue { inner: ValueInner::SomeValue(Box::new(inner)), ty }
    }

    /// The tuple of `elements`.
    pub fn tuple(elements: Vec<HlValue>) -> (r: HlValue)
        ensures
            r@ == tuple_model(values_view(elements@)),
            all_wf(values_view(elements@)) ==> wf_value(r@),
    {
        let tys = types_of_values(&elements);
        HlValue { inner: ValueInner::Tuple(elements), ty: HlType::Tuple(tys) }
    }

    /// The unit value, the empty tuple.
    pub fn unit() -> (r: HlValue)
        ensures
            r@ == tuple_model(Seq::empty()),
            wf_value(r@),
    {
        let r = HlValue::tuple(Vec::new());
        assert(values_view(Seq::<HlValue>::empty()) =~= Seq::<ValueModel>::empty());
        r
    }

    /// The array of `elements`, all of type `element_ty`.
    pub fn array(elements: Vec<HlValue>, element_ty: HlType) -> (r: HlValue)
        requires
            all_of_type(values_view(elements@), element_ty@),
        ensures
            r@ == array_model(values_view(elements@), element_ty@),
            all_wf(values_view(elements@)) ==> wf_value(r@),
    {
        proof {
            lemma_values_view(elements@);
        }
        let n = elements.len();
        HlValue { inner: ValueInner::Array(elements), ty: HlType::Array(Box::new(element_ty), n) }
    }

    /// The array of the bytes `bytes`, of type `[u8; bytes.len()]`.
    pub fn byte_array(bytes: &Vec<u8>) -> (r: HlValue)
        ensures
            wf_value(r@),
            r@.ty == TypeModel::Array(Box::new(TypeModel::UInt(UIntType::U8)), bytes@.len()),
            r@.inner == InnerModel::Array(
                Seq::new(
                    bytes@.len(),
                    |i: int|
                        ValueModel {
                            inner: InnerModel::UInt(UIntValue::U8(bytes@[i])),
                            ty: TypeModel::UInt(UIntType::U8),
                        },
                ),
            ),
    {
        let mut elements: Vec<HlValue> = Vec::new();
        let mut i: usize = 0;
        while i < bytes.len()
            invariant
                i <= bytes.len(),
                elements@.len() == i,
                forall|j: int|
                    0 <= j < i ==> value_view(#[trigger] elements@[j]) == (ValueModel {
                        inner: InnerModel::UInt(UIntValue::U8(bytes@[j])),
                        ty: TypeModel::UInt(UIntType::U8),
                    }),
            decreases bytes.len() - i,
        {
            elements.push(HlValue::u8(bytes[i]));
            i += 1;
        }
        proof {
            lemma_values_view(elements@);
            lemma_all_wf(values_view(elements@));
        }
        let r = HlValue::array(elements, HlType::UInt(UIntType::U8));
        assert(r@.inner == InnerModel::Array(
            Seq::new(
                bytes@.len(),
                |i: int|
                    ValueModel {
                        inner: InnerModel::UInt(UIntValue::U8(bytes@[i])),
                        ty: TypeModel::UInt(UIntType::U8),
                    },
            ),
        )) by {
            assert(values_view(elements@) =~= Seq::new(
                bytes@.len(),
                |i: int|
                    ValueModel {
                        inner: InnerModel::UInt(UIntValue::U8(bytes@[i])),
                        ty: TypeModel::UInt(UIntType::U8),
                    },
            ));
        }
        r
    }

    /// The value of the variant `name` of the enum type `ty` carrying
    /// `payload`, or `None` when `ty` is not an enum, declares no such
    /// variant, or the payload does not have the variant's types.
    pub fn enum_variant(ty: &HlType, name: &str, payload: Vec<HlValue>) -> (r: Option<HlValue>)
        ensures
            r matches Some(v) ==> enum_variant_spec(ty@, name@, values_view(payload@)) == Some(v@),
            r is None ==> enum_variant_spec(ty@, name@, values_view(payload@)) is None,
    {
        match ty {
            HlType::Enum(info) => {
                proof {
                    lemma_variants_view(info.variants@);
                }
                assert(ty@ == TypeModel::Enum(enum_view(*info)));
                match find_variant_index(&info.variants, name) {
                    Some(i) => {
                        proof {
                            lemma_find_variant_from(variants_view(info.variants@), name@, 0);
                        }
                        let tys = types_of_values(&payload);
                        if types_eq(&tys, &info.variants[i].payload) {
                            Some(HlValue { inner: ValueInner::Enum(i, payload), ty: ty.duplicate() })
                        } else {
                            None
                        }
                    },
                    None => None,
                }
            },
            _ => None,
        }
    }
}

} // verus!
