//! The ABI of a compiled contract: the names and types of its parameters
//! and witnesses, read from SimplicityHL's analysis of its source.
use vstd::multiset::Multiset;
use vstd::prelude::*;

use crate::bindings::{abi_view, SimfContent};
use crate::enum_types::{abi_enum_map, entries_map, keys_distinct, AbiTypes};
use crate::hl_type::{HlType, TypeModel};
use simplicityhl::types::EnumInfo as SimfEnumInfo;
use simplicityhl::ast::ElementsJetHinter;
use simplicityhl::types::TypeInner;
use simplicityhl::types::TypeInner::{
    Array as TArray, Boolean as TBoolean, Either as TEither, Enum as TEnum, List as TList,
    Tuple as TTuple, UInt as TUInt,
};
use simplicityhl::{ResolvedType, TemplateAst, UnstableFeatures};
use std::sync::Arc;
use simplicityhl::types::UIntType as SimfUInt;

verus! {

#[verifier::external_type_specification]
#[verifier::external_body]
pub struct ExResolvedType(simplicityhl::ResolvedType);

#[verifier::external_type_specification]
#[verifier::external_body]
pub struct ExSimfUInt(SimfUInt);

#[verifier::external_type_specification]
#[verifier::external_body]
pub struct ExSimfEnumInfo(SimfEnumInfo);

/// SimplicityHL's unsigned integer type, variant for variant.
#[verifier::external_body]
fn uint_model(u: &SimfUInt) -> crate::hl_type::UIntType {
    match u {
        SimfUInt::U1 => crate::hl_type::UIntType::U1,
        SimfUInt::U2 => crate::hl_type::UIntType::U2,
        SimfUInt::U4 => crate::hl_type::UIntType::U4,
        SimfUInt::U8 => crate::hl_type::UIntType::U8,
        SimfUInt::U16 => crate::hl_type::UIntType::U16,
        SimfUInt::U32 => crate::hl_type::UIntType::U32,
        SimfUInt::U64 => crate::hl_type::UIntType::U64,
        SimfUInt::U128 => crate::hl_type::UIntType::U128,
        SimfUInt::U256 => crate::hl_type::UIntType::U256,
    }
}

/// SimplicityHL's resolved type, variant for variant, with its parts
/// converted in turn. `TypeInner` is marked non-exhaustive; the version
/// brought has no variant beyond those listed, and the arm the compiler
/// asks for gives `Never`.
#[verifier::external_body]
fn type_model(ty: &ResolvedType) -> HlType {
    match ty.as_inner() {
        TEither(l, r) => HlType::Either(Box::new(type_model(l)), Box::new(type_model(r))),
        TypeInner::Option(x) => HlType::Option(Box::new(type_model(x))),
        TBoolean => HlType::Boolean,
        TUInt(u) => HlType::UInt(uint_model(u)),
        TTuple(es) => HlType::Tuple(es.iter().map(|e| type_model(e)).collect()),
        TArray(e, n) => HlType::Array(Box::new(type_model(e)), *n),
        TList(e, b) => HlType::List(Box::new(type_model(e)), b.get()),
        TEnum(info) => HlType::Enum(enum_model(info)),
        _ => HlType::Never,
    }
}

/// SimplicityHL's enum description: its name, and each variant's name and
/// payload types.
#[verifier::external_body]
fn enum_model(info: &SimfEnumInfo) -> crate::hl_type::EnumInfo {
    crate::hl_type::EnumInfo {
        name: info.name().to_string(),
        variants: info.variants().iter().map(|v| crate::hl_type::EnumVariantInfo {
            name: v.name().as_inner().to_string(),
            payload: v.payload().iter().map(type_model).collect(),
        }).collect(),
    }
}

/// The named types of an ABI, without their order.
pub open spec fn abi_bag(s: Seq<(String, HlType)>) -> Multiset<(Seq<char>, TypeModel)> {
    abi_view(s).to_multiset()
}

/// What SimplicityHL's analysis of a source gives: the names and types of
/// its parameters and of its witnesses, or the error's message.
pub uninterp spec fn compiled_abi(source: Seq<char>) -> Result<
    (Multiset<(Seq<char>, TypeModel)>, Multiset<(Seq<char>, TypeModel)>),
    Seq<char>,
>;

/// Calls SimplicityHL's `TemplateAst::new_with_unstable` with all unstable
/// features and the Elements jet hinter, then `generate_abi_meta`, and
/// gives the parameters and witnesses with their types in the library's
/// model, or the error's message; that outcome is named by `compiled_abi`.
/// The names and types come from hash maps, so their order is left open.
#[verifier::external_body]
fn compile_abi(source: &str) -> (r: Result<(Vec<(String, HlType)>, Vec<(String, HlType)>), String>)
    ensures
        match r {
            Ok((p, w)) => compiled_abi(source@) == Ok::<_, Seq<char>>((abi_bag(p@), abi_bag(w@))),
            Err(m) => compiled_abi(source@) == Err::<
                (Multiset<(Seq<char>, TypeModel)>, Multiset<(Seq<char>, TypeModel)>),
                _,
            >(m@),
        },
{
    let template = TemplateAst::new_with_unstable(
        Arc::<str>::from(source),
        &UnstableFeatures::all(),
        Box::new(ElementsJetHinter),
    ).map_err(|e| e.to_string())?;
    let meta = template.generate_abi_meta()?;
    let p = meta.param_types.iter().map(|(n, t)| (n.as_inner().to_string(), type_model(t))).collect();
    let w = meta.witness_types.iter().map(|(n, t)| (n.as_inner().to_string(), type_model(t))).collect();
    Ok((p, w))
}

/// Compiles `source` and collects its ABI types: its parameters and
/// witnesses, and every enum type they reach; `None` where the source does
/// not compile.
pub fn collect_abi_types(source: &str) -> (r: Option<AbiTypes>)
    ensures
        match compiled_abi(source@) {
            Ok((p, w)) => r matches Some(a) && abi_bag(a.parameters@) == p && abi_bag(
                a.witness_types@,
            ) == w && keys_distinct(a.enum_types@) && entries_map(a.enum_types@) == abi_enum_map(
                a.parameters@,
                a.witness_types@,
            ),
            Err(_) => r is None,
        },
{
    match compile_abi(source) {
        Ok((p, w)) => Some(AbiTypes::from_abi(p, w)),
        Err(_) => None,
    }
}

/// Analyses a contract's source with SimplicityHL and gives the names and
/// types of its parameters and of its witnesses, in an order left open, or
/// the error's message.
pub fn compile_simf(content: &SimfContent) -> (r: Result<
    (Vec<(String, HlType)>, Vec<(String, HlType)>),
    String,
>)
    ensures
        match r {
            Ok((p, w)) => compiled_abi(content.content@) == Ok::<_, Seq<char>>(
                (abi_bag(p@), abi_bag(w@)),
            ),
            Err(m) => compiled_abi(content.content@) == Err::<
                (Multiset<(Seq<char>, TypeModel)>, Multiset<(Seq<char>, TypeModel)>),
                _,
            >(m@),
        },
{
    compile_abi(content.content.as_str())
}

} // verus!
