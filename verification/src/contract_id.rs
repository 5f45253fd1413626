//! Default arguments of a contract: the value that stands in for each
//! parameter when a contract is compiled at build time to learn its
//! commitment, before real arguments exist.
use vstd::prelude::*;

use crate::hl_type::{
    lemma_types_view, type_text, type_view, types_view, EnumModel, HlType, TypeModel, UIntType,
};
use crate::hl_value::{
    types_of, array_model, enum_variant_spec, lemma_values_view, left_model, tuple_model, value_view,
    values_view, HlValue, InnerModel, UIntValue, ValueInner, ValueModel,
};

verus! {

/// The zero of an integer type.
pub open spec fn default_uint_spec(t: UIntType) -> UIntValue {
    match t {
        UIntType::U1 => UIntValue::U1(0),
        UIntType::U2 => UIntValue::U2(0),
        UIntType::U4 => UIntValue::U4(0),
        UIntType::U8 => UIntValue::U8(0),
        UIntType::U16 => UIntValue::U16(0),
        UIntType::U32 => UIntValue::U32(0),
        UIntType::U64 => UIntValue::U64(0),
        UIntType::U128 => UIntValue::U128(0),
        UIntType::U256 => UIntValue::U256(vstd::array::spec_array_fill_for_copy_type::<u8, 32>(0u8)),
    }
}

/// The message of a type that has no default argument.
pub open spec fn unsupported_message(t: TypeModel) -> Seq<char> {
    "Cannot build a default argument for unsupported type '"@ + type_text(t) + "'"@
}

/// The message of an enum type without variants.
pub open spec fn empty_enum_message(t: TypeModel) -> Seq<char> {
    "Cannot build a default argument for empty enum type '"@ + type_text(t) + "'"@
}

/// The message of an enum type whose first variant cannot be built.
pub open spec fn enum_message(t: TypeModel) -> Seq<char> {
    "Cannot build a default argument for enum type '"@ + type_text(t) + "'"@
}

/// The default argument of a type: `false`, zero, `None`, the left branch,
/// defaults component by component, empty lists, and an enum's first
/// variant; or the message of the first type met that has none.
pub open spec fn default_value_spec(t: TypeModel) -> Result<ValueModel, Seq<char>>
    decreases t,
{
    match t {
        TypeModel::Boolean => Ok(ValueModel { inner: InnerModel::Boolean(false), ty: t }),
        TypeModel::UInt(u) => Ok(
            ValueModel { inner: InnerModel::UInt(default_uint_spec(u)), ty: TypeModel::UInt(u) },
        ),
        TypeModel::Option(x) => Ok(ValueModel { inner: InnerModel::NoneValue, ty: t }),
        TypeModel::Either(l, r) => match default_value_spec(*l) {
            Ok(v) => Ok(left_model(v, *r)),
            Err(e) => Err(e),
        },
        TypeModel::Tuple(es) => match default_values_spec(es) {
            Ok(vs) => Ok(tuple_model(vs)),
            Err(e) => Err(e),
        },
        TypeModel::Array(e, n) => if n == 0 {
            Ok(array_model(Seq::empty(), *e))
        } else {
            match default_value_spec(*e) {
                Ok(v) => Ok(array_model(Seq::new(n, |i: int| v), *e)),
                Err(m) => Err(m),
            }
        },
        TypeModel::List(e, b) => Ok(ValueModel { inner: InnerModel::List(Seq::empty(), b), ty: t }),
        TypeModel::Enum(info) => if info.variants.len() == 0 {
            Err(empty_enum_message(t))
        } else {
            match default_values_spec(info.variants[0].payload) {
                Ok(p) => match enum_variant_spec(t, info.variants[0].name, p) {
                    Some(v) => Ok(v),
                    None => Err(enum_message(t)),
                },
                Err(m) => Err(m),
            }
        },
        TypeModel::Never => Err(unsupported_message(t)),
    }
}

/// The default arguments of the types `s`, in order; or the message of
/// the first that has none.
pub open spec fn default_values_spec(s: Seq<TypeModel>) -> Result<Seq<ValueModel>, Seq<char>>
    decreases s,
{
    if s.len() == 0 {
        Ok(Seq::empty())
    } else {
        match default_values_spec(s.drop_last()) {
            Ok(vs) => match default_value_spec(s.last()) {
                Ok(v) => Ok(vs.push(v)),
                Err(m) => Err(m),
            },
            Err(m) => Err(m),
        }
    }
}

/// The models of a result of default arguments.
pub open spec fn default_result_view(r: Result<HlValue, String>) -> Result<ValueModel, Seq<char>> {
    match r {
        Ok(v) => Ok(v@),
        Err(m) => Err(m@),
    }
}

/// The zero of an integer type.
pub fn default_uint(ty: UIntType) -> (r: UIntValue)
    ensures
        r == default_uint_spec(ty),
{
    match ty {
        UIntType::U1 => UIntValue::U1(0),
        UIntType::U2 => UIntValue::U2(0),
        UIntType::U4 => UIntValue::U4(0),
        UIntType::U8 => UIntValue::U8(0),
        UIntType::U16 => UIntValue::U16(0),
        UIntType::U32 => UIntValue::U32(0),
        UIntType::U64 => UIntValue::U64(0),
        UIntType::U128 => UIntValue::U128(0),
        UIntType::U256 => UIntValue::U256([0u8; 32]),
    }
}

fn type_message(head: &str, ty: &HlType) -> (r: String)
    ensures
        r@ == head@ + type_text(ty@) + "'"@,
{
    let mut s = String::from_str(head);
    let t = ty.to_text();
    s.append(t.as_str());
    s.append("'");
    s
}

/// The default arguments of the types `es`, in order.
#[verifier::loop_isolation(false)]
fn default_values(es: &Vec<HlType>) -> (r: Result<Vec<HlValue>, String>)
    ensures
        match r {
            Ok(vs) => default_values_spec(types_view(es@)) == Ok::<Seq<ValueModel>, Seq<char>>(
                values_view(vs@),
            ),
            Err(m) => default_values_spec(types_view(es@)) == Err::<Seq<ValueModel>, Seq<char>>(
                m@,
            ),
        },
    decreases es,
{
    proof {
        lemma_types_view(es@);
    }
    let ghost tv = types_view(es@);
    let mut out: Vec<HlValue> = Vec::new();
    let mut i: usize = 0;
    while i < es.len()
        invariant
            i <= es.len(),
            default_values_spec(tv.take(i as int)) == Ok::<Seq<ValueModel>, Seq<char>>(
                values_view(out@),
            ),
        decreases es.len() - i,
    {
        proof {
            broadcast use vstd::std_specs::vec::axiom_vec_index_decreases;
            assert(decreases_to!(*es => es[i as int]));
            assert(tv.take(i + 1).drop_last() =~= tv.take(i as int));
            assert(tv.take(i + 1).last() == type_view(es@[i as int]));
        }
        match ContractId::default_value(&es[i]) {
            Ok(v) => {
                let ghost prev = out@;
                out.push(v);
                proof {
                    assert(out@.drop_last() =~= prev);
                }
            },
            Err(m) => {
                proof {
                    lemma_default_values_prefix(tv, i + 1);
                }
                return Err(m);
            },
        }
        i += 1;
    }
    assert(tv.take(es.len() as int) =~= tv);
    Ok(out)
}

/// An error in a prefix of the types is the error of all of them.
proof fn lemma_default_values_prefix(s: Seq<TypeModel>, k: int)
    requires
        0 <= k <= s.len(),
        default_values_spec(s.take(k)) is Err,
    ensures
        default_values_spec(s) == default_values_spec(s.take(k)),
    decreases s.len(),
{
    if k < s.len() {
        assert(s.drop_last().take(k) =~= s.take(k));
        lemma_default_values_prefix(s.drop_last(), k);
    } else {
        assert(s.take(k) =~= s);
    }
}

/// The commitment of a contract compiled with default arguments.
#[derive(PartialEq, Eq, Debug)]
pub struct ContractId {
    pub cmr: [u8; 32],
}

impl ContractId {
    /// The default argument of a type (see `default_value_spec`).
    pub fn default_value(ty: &HlType) -> (r: Result<HlValue, String>)
        ensures
            default_result_view(r) == default_value_spec(ty@),
        decreases ty,
    {
        match ty {
            HlType::Boolean => Ok(HlValue { inner: ValueInner::Boolean(false), ty: HlType::Boolean }),
            HlType::UInt(u) => Ok(
                HlValue { inner: ValueInner::UInt(default_uint(*u)), ty: HlType::UInt(*u) },
            ),
            HlType::Option(inner) => Ok(
                HlValue { inner: ValueInner::NoneValue, ty: HlType::Option(Box::new(inner.duplicate())) },
            ),
            HlType::Either(left, right) => {
                let v = ContractId::default_value(left)?;
                Ok(HlValue::left(v, right.duplicate()))
            },
            HlType::Tuple(elements) => {
                let vs = default_values(elements)?;
                let r = HlValue::tuple(vs);
                Ok(r)
            },
            HlType::Array(element, size) => {
                if *size == 0 {
                    let r = HlValue {
                        inner: ValueInner::Array(Vec::new()),
                        ty: HlType::Array(Box::new(element.duplicate()), 0),
                    };
                    proof {
                        lemma_values_view(Seq::<HlValue>::empty());
                    }
                    assert(r@ == array_model(Seq::empty(), element@));
                    return Ok(r);
                }
                let v = ContractId::default_value(element)?;
                let mut elems: Vec<HlValue> = Vec::new();
                let mut i: usize = 0;
                while i < *size
                    invariant
                        i <= *size,
                        elems@.len() == i,
                        forall|j: int| 0 <= j < i ==> #[trigger] value_view(elems@[j]) == v@,
                    decreases *size - i,
                {
                    elems.push(v.duplicate());
                    i += 1;
                }
                proof {
                    lemma_values_view(elems@);
                    assert(values_view(elems@) =~= Seq::new(*size as nat, |k: int| v@));
                }
                let r = HlValue {
                    inner: ValueInner::Array(elems),
                    ty: HlType::Array(Box::new(element.duplicate()), *size),
                };
                Ok(r)
            },
            HlType::List(element, bound) => {
                let r = HlValue {
                    inner: ValueInner::List(Vec::new(), *bound),
                    ty: HlType::List(Box::new(element.duplicate()), *bound),
                };
                proof {
                    lemma_values_view(Seq::<HlValue>::empty());
                }
                Ok(r)
            },
            HlType::Enum(info) => {
                assert(ty@ == TypeModel::Enum(crate::hl_type::enum_view(*info)));
                proof {
                    crate::hl_type::lemma_variants_view(info.variants@);
                }
                if info.variants.len() == 0 {
                    return Err(
                        type_message("Cannot build a default argument for empty enum type '", ty),
                    );
                }
                let first = &info.variants[0];
                proof {
                    assert(ty@->Enum_0.variants[0] == crate::hl_type::variant_view(*first));
                    broadcast use vstd::std_specs::vec::axiom_vec_index_decreases;
                    assert(decreases_to!(info.variants => info.variants[0]));
                    assert(decreases_to!(*ty => first.payload));
                }
                let payload = default_values(&first.payload)?;
                match HlValue::enum_variant(ty, first.name.as_str(), payload) {
                    Some(v) => Ok(v),
                    None => Err(
                        type_message("Cannot build a default argument for enum type '", ty),
                    ),
                }
            },
            HlType::Never => Err(
                type_message("Cannot build a default argument for unsupported type '", ty),
            ),
        }
    }

    /// The default arguments of a contract's parameters, by name.
    pub fn default_arguments(parameters: &Vec<(String, HlType)>) -> (r: Result<
        Vec<(String, HlValue)>,
        String,
    >)
        ensures
            match r {
                Ok(args) => args@.len() == parameters@.len() && forall|i: int|
                    0 <= i < args@.len() ==> #[trigger] args@[i].0@ == parameters@[i].0@
                        && default_value_spec(parameters@[i].1@) == Ok::<ValueModel, Seq<char>>(
                        args@[i].1@,
                    ),
                Err(m) => exists|i: int|
                    0 <= i < parameters@.len() && default_value_spec(#[trigger] parameters@[i].1@)
                        == Err::<ValueModel, Seq<char>>(m@),
            },
    {
        let mut out: Vec<(String, HlValue)> = Vec::new();
        let mut i: usize = 0;
        while i < parameters.len()
            invariant
                i <= parameters@.len(),
                out@.len() == i,
                forall|j: int|
                    0 <= j < i ==> #[trigger] out@[j].0@ == parameters@[j].0@ && default_value_spec(
                        parameters@[j].1@,
                    ) == Ok::<ValueModel, Seq<char>>(out@[j].1@),
            decreases parameters@.len() - i,
        {
            match ContractId::default_value(&parameters[i].1) {
                Ok(v) => {
                    out.push((parameters[i].0.clone(), v));
                },
                Err(m) => {
                    return Err(m);
                },
            }
            i += 1;
        }
        Ok(out)
    }
}

/// The default argument of a type has that type.
pub proof fn lemma_default_value_typed(t: TypeModel)
    ensures
        default_value_spec(t) matches Ok(v) ==> v.ty == t,
    decreases t,
{
    match t {
        TypeModel::UInt(u) => {
            assert(TypeModel::UInt(u) == t);
        },
        TypeModel::Either(l, r) => {
            lemma_default_value_typed(*l);
        },
        TypeModel::Tuple(es) => {
            lemma_default_values_typed(es);
        },
        TypeModel::Array(e, n) => {
            lemma_default_value_typed(*e);
        },
        _ => {},
    }
}

/// The default arguments of types have those types, in order.
pub proof fn lemma_default_values_typed(s: Seq<TypeModel>)
    ensures
        default_values_spec(s) matches Ok(vs) ==> types_of(vs) == s,
    decreases s,
{
    if s.len() > 0 {
        lemma_default_values_typed(s.drop_last());
        lemma_default_value_typed(s.last());
        if let Ok(vs) = default_values_spec(s) {
            let init = default_values_spec(s.drop_last())->Ok_0;
            let v = default_value_spec(s.last())->Ok_0;
            assert(vs == init.push(v));
            assert(types_of(init) == s.drop_last());
            assert forall|i: int| 0 <= i < s.len() implies #[trigger] types_of(vs)[i] == s[i] by {
                if i < s.len() - 1 {
                    assert(vs[i] == init[i]);
                    assert(types_of(init)[i] == init[i].ty);
                    assert(s.drop_last()[i] == s[i]);
                } else {
                    assert(vs[i] == v);
                }
            }
            assert(types_of(vs) =~= s);
        }
    }
}

/// The default of a list type is the list with no elements, under the
/// type's own bound, whatever the element type (even one without a default
/// of its own).
pub proof fn lemma_default_list_is_empty(e: TypeModel, b: nat)
    ensures
        default_value_spec(TypeModel::List(Box::new(e), b)) matches Ok(v) && v.ty == TypeModel::List(
            Box::new(e),
            b,
        ),
        default_value_spec(TypeModel::List(Box::new(e), b)) matches Ok(v) && (
        v.inner matches InnerModel::List(items, bound) && items.len() == 0 && bound == b),
{
}

} // verus!
