use simplex::bindings::{abi_is_inhabited, expand_inner, string_literal_exec, SimfContent, SimfContractMeta};
use simplex::hl_type::{EnumInfo, EnumVariantInfo, HlType, UIntType};
use simplex::names::{
    convert_contract_name_to_contract_module, convert_contract_name_to_contract_source_const,
    convert_contract_name_to_struct_name, convert_witness_name_to_field_name,
};
use simplex::rust_type::{rust_identifier, CodegenError, RustEnum, RustEnumVariant, RustType, RustTypeContext};

fn mode_hl() -> HlType {
    HlType::Enum(EnumInfo {
        name: "Mode".to_string(),
        variants: vec![
            EnumVariantInfo { name: "Off".to_string(), payload: vec![] },
            EnumVariantInfo { name: "Single".to_string(), payload: vec![HlType::uint(UIntType::U32)] },
        ],
    })
}

fn mode_rust() -> RustType {
    RustType::from_resolved_type(&mode_hl()).unwrap()
}

#[test]
fn struct_names_are_upper_camel_case() {
    assert_eq!(convert_contract_name_to_struct_name("my_contract"), "MyContract");
    assert_eq!(convert_contract_name_to_struct_name("__a__b_"), "AB");
    assert_eq!(convert_contract_name_to_struct_name("p2pk"), "P2pk");
    assert_eq!(convert_contract_name_to_struct_name(""), "");
}

#[test]
fn derived_names() {
    assert_eq!(convert_contract_name_to_contract_source_const("my_contract"), "MY_CONTRACT_CONTRACT_SOURCE");
    assert_eq!(convert_contract_name_to_contract_module("my_contract"), "derived_my_contract");
    assert_eq!(convert_witness_name_to_field_name("SIG_A"), "sig_a");
}

#[test]
fn reserved_names_get_underscores() {
    assert_eq!(rust_identifier("Mode", &vec![]), "Mode");
    assert_eq!(rust_identifier("self", &vec![]), "self_");
    assert_eq!(rust_identifier("Self", &vec!["Self_".to_string(), "Self__".to_string()]), "Self___");
    assert_eq!(rust_identifier("_", &vec!["__".to_string()]), "___");
}

#[test]
fn never_has_no_rust_type() {
    assert_eq!(RustType::from_resolved_type(&HlType::Never), Err(CodegenError::UnsupportedType));
    let t = HlType::tuple(vec![HlType::boolean(), HlType::Never]);
    assert_eq!(RustType::from_resolved_type(&t), Err(CodegenError::UnsupportedType));
    assert_eq!(CodegenError::UnsupportedType.message(), "Unsupported type in macro conversions");
}

#[test]
fn enum_names_resolve_against_the_abi() {
    let self_enum = HlType::Enum(EnumInfo {
        name: "Self".to_string(),
        variants: vec![EnumVariantInfo { name: "A".to_string(), payload: vec![] }],
    });
    let other = HlType::Enum(EnumInfo {
        name: "Self_".to_string(),
        variants: vec![EnumVariantInfo { name: "B".to_string(), payload: vec![HlType::option(self_enum.duplicate())] }],
    });
    let t = RustType::from_resolved_type(&other).unwrap();
    match &t {
        RustType::Enum(def) => {
            assert_eq!(def.rust_name, "Self_");
            match &def.variants[0].payload[0] {
                RustType::Option(inner) => match inner.as_ref() {
                    RustType::Enum(inner_def) => assert_eq!(inner_def.rust_name, "Self__"),
                    _ => panic!("expected an enum"),
                },
                _ => panic!("expected an option"),
            }
        }
        _ => panic!("expected an enum"),
    }
}

#[test]
fn type_tokens() {
    let t = RustType::Either(
        Box::new(RustType::U4),
        Box::new(RustType::Array(Box::new(RustType::U16), 4)),
    );
    assert_eq!(t.to_type_token_stream(), "::simplex::either::Either<u8, [u16; 4]>");
    let tuple = RustType::Tuple(vec![RustType::Bool, RustType::U256Array, mode_rust()]);
    assert_eq!(tuple.to_type_token_stream(), "(bool, [u8; 32], super::enums::r#Mode)");
    let list = RustType::List(Box::new(RustType::U64), 8);
    assert_eq!(list.to_type_token_stream_with_enum_prefix("self::"), "::std::vec::Vec<u64>");
}

#[test]
fn type_construction() {
    let t = RustType::List(Box::new(RustType::U8), 4);
    assert_eq!(
        t.generate_simplicity_type_construction(),
        "ResolvedType::list(ResolvedType::u8(), NonZeroPow2Usize::new(4).ok_or_else(|| format!(\"Failed to create non zero pow2 length, got size: '{}'\", 4)).unwrap())"
    );
    assert_eq!(mode_rust().generate_simplicity_type_construction(), "enum_type(\"Mode\")");
    let tuple = RustType::Tuple(vec![RustType::Bool, RustType::U128]);
    assert_eq!(tuple.generate_simplicity_type_construction(), "ResolvedType::tuple([ResolvedType::boolean(), ResolvedType::u128()])");
}

#[test]
fn default_values() {
    let t = RustType::Tuple(vec![
        RustType::Bool,
        RustType::Either(Box::new(RustType::U8), Box::new(RustType::U16)),
        RustType::Array(Box::new(RustType::U256Array), 2),
    ]);
    assert_eq!(
        t.get_default_value(),
        "(Default::default(), ::simplex::either::Either::Left(Default::default()), ::std::array::from_fn(|_| [Default::default(); 32]))"
    );
    assert_eq!(mode_rust().get_default_value(), "super::enums::r#Mode::r#Off");
}

#[test]
fn conversions_to_values() {
    assert_eq!(RustType::Bool.generate_to_simplicity_conversion("self.flag"), "Value::from(self.flag)");
    assert_eq!(
        RustType::U8.generate_to_simplicity_conversion_inner("x", Some(RustTypeContext::List)),
        "Value::from(UIntValue::U8(*x))"
    );
    assert_eq!(
        RustType::U8.generate_to_simplicity_conversion_inner("x", Some(RustTypeContext::Tuple)),
        "Value::from(UIntValue::U8(x))"
    );
    assert_eq!(RustType::Tuple(vec![]).generate_to_simplicity_conversion("self.t"), "Value::unit()");
    let arr = RustType::Array(Box::new(RustType::Bool), 2);
    assert_eq!(
        arr.generate_to_simplicity_conversion("self.a"),
        "{ let elements = [Value::from(self.a[0]), Value::from(self.a[1])]; Value::array(elements, ResolvedType::boolean()) }"
    );
    let conv = mode_rust().generate_to_simplicity_conversion("self.mode");
    assert!(conv.starts_with("match &self.mode { super::enums::r#Mode::r#Off => Value::enum_variant(&enum_type(\"Mode\"), &Identifier::from_str_unchecked(\"Off\"), Vec::new())"));
    assert!(conv.contains("super::enums::r#Mode::r#Single(payload_0) => Value::enum_variant(&enum_type(\"Mode\"), &Identifier::from_str_unchecked(\"Single\"), vec![Value::from(UIntValue::U32(*payload_0))])"));
}

#[test]
fn extractions_from_values() {
    assert_eq!(
        RustType::U8.generate_value_extraction_from_expr("value", RustTypeContext::Root),
        "match value.inner() { ::simplex::simplicityhl::value::ValueInner::UInt(UIntValue::U8(v)) => *v, _ => return Err(format!(\"Wrong type for {}: expected U8\", \"Root\")), }"
    );
    let ex = mode_rust().generate_value_extraction_from_expr("value", RustTypeContext::Root);
    assert!(ex.contains("match *enum_variant_index { 0 => super::enums::r#Mode::r#Off, 1 => super::enums::r#Mode::r#Single(match enum_payload[0].inner()"));
    let with_check = mode_rust().generate_from_value_extraction("args", "MODE");
    assert!(with_check.starts_with("{ let witness_name = WitnessName::from_str_unchecked(\"MODE\"); let value = args.get(&witness_name)"));
    assert!(with_check.contains("let expected_type = enum_type(\"Mode\");"));
    let without_check = RustType::Bool.generate_from_value_extraction("args", "FLAG");
    assert!(!without_check.contains("expected_type"));
    assert_eq!(RustTypeContext::EitherLeft.description(), "left either branch");
    assert!(RustTypeContext::Option.is_deref_needed());
    assert!(!RustTypeContext::Array.is_deref_needed());
}

#[test]
fn enum_declarations_are_deduplicated() {
    let mut decls: Vec<(String, String)> = Vec::new();
    let t = RustType::Tuple(vec![mode_rust(), RustType::Option(Box::new(mode_rust()))]);
    t.collect_enum_declarations(&mut decls);
    assert_eq!(decls.len(), 1);
    assert_eq!(decls[0].0, "Mode");
    assert_eq!(
        decls[0].1,
        "#[derive(Debug, Clone, PartialEq, Eq)] #[allow(non_camel_case_types)] pub enum r#Mode { r#Off, r#Single(u32) }"
    );
}

#[test]
fn nested_enums_are_declared_before_their_users() {
    let outer = HlType::Enum(EnumInfo {
        name: "Outer".to_string(),
        variants: vec![EnumVariantInfo { name: "Wrap".to_string(), payload: vec![mode_hl()] }],
    });
    let t = RustType::from_resolved_type(&outer).unwrap();
    let mut decls: Vec<(String, String)> = Vec::new();
    t.collect_enum_declarations(&mut decls);
    let names: Vec<&str> = decls.iter().map(|d| d.0.as_str()).collect();
    assert_eq!(names, vec!["Mode", "Outer"]);
    assert!(decls[1].1.contains("r#Wrap(self::r#Mode)"));
}

#[test]
fn string_literals_escape_quotes_and_backslashes() {
    assert_eq!(string_literal_exec("a\"b\\c\r\nd"), "\"a\\\"b\\\\c\\r\nd\"");
}

#[test]
fn expands_a_contract_module() {
    let content = SimfContent { content: "fn main() {}".to_string(), contract_name: "my_vault".to_string() };
    let params = vec![("KEY".to_string(), HlType::uint(UIntType::U8))];
    let witnesses = vec![("MODE".to_string(), mode_hl())];
    let code = expand_inner(content, &params, &witnesses).unwrap();
    assert!(code.starts_with("pub mod derived_my_vault { fn abi_types()"));
    assert!(code.contains("pub mod enums { #[derive(Debug, Clone, PartialEq, Eq)] #[allow(non_camel_case_types)] pub enum r#Mode"));
    assert!(code.contains("pub const MY_VAULT_CONTRACT_SOURCE: &::std::primitive::str = \"fn main() {}\"; "));
    assert!(code.contains("pub use self::build_witness::MyVaultWitness; mod build_witness { use super::{abi_types, enum_type};"));
    assert!(code.contains("pub use self::build_arguments::MyVaultArguments; mod build_arguments { use ::std::collections::HashMap;"));
    assert!(code.contains("pub struct MyVaultArguments { pub key: u8 }"));
    assert!(code.contains("MyVaultArguments { key: Default::default() }"));
    assert!(code.ends_with("}"));
}

#[test]
fn expansion_fails_on_types_without_rust_counterpart() {
    let content = SimfContent { content: String::new(), contract_name: "c".to_string() };
    let params = vec![("X".to_string(), HlType::Never)];
    assert_eq!(expand_inner(content, &params, &vec![]), Err(CodegenError::UnsupportedType));
}

#[test]
fn meta_without_enums_has_no_declarations() {
    let content = SimfContent { content: String::new(), contract_name: "plain".to_string() };
    let params = vec![("A".to_string(), HlType::boolean())];
    let meta = SimfContractMeta::try_from(content, &params, &vec![]).unwrap();
    assert!(meta.enum_declarations().is_empty());
    assert_eq!(meta.contract_source_const_name, "PLAIN_CONTRACT_SOURCE");
    assert_eq!(meta.args_struct.struct_name, "PlainArguments");
    assert_eq!(meta.witness_struct.struct_name, "PlainWitness");
    let tokens = meta.args_struct.generate_arguments_impl().unwrap();
    assert!(tokens.struct_impl.contains("let x = ::simplex::simplicityhl::Arguments::deserialize(deserializer)?;"));
    assert!(!tokens.imports.contains("UnresolvedValues"));
}

#[test]
fn enum_variants_keep_raw_names() {
    let def = RustEnum {
        name: "E".to_string(),
        rust_name: "E".to_string(),
        variants: vec![
            RustEnumVariant { name: "self".to_string(), payload: vec![] },
            RustEnumVariant { name: "self_".to_string(), payload: vec![] },
        ],
    };
    assert_eq!(def.variant_ident(0), "self__");
    assert_eq!(def.variant_ident(1), "self_");
}

#[test]
fn struct_names_are_their_own_struct_names() {
    for name in ["my_contract", "__a__b_", "p2pk", "already_Camel_9"] {
        let once = convert_contract_name_to_struct_name(name);
        assert_eq!(convert_contract_name_to_struct_name(&once), once);
        assert_eq!(once.len(), name.len() - name.matches('_').count());
    }
}

#[test]
fn inhabited_abis() {
    let empty_enum = HlType::Enum(EnumInfo { name: "Empty".to_string(), variants: vec![] });
    assert!(abi_is_inhabited(&vec![("MODE".to_string(), mode_hl())]));
    assert!(abi_is_inhabited(&vec![("NEVER".to_string(), HlType::Never)]));
    assert!(!abi_is_inhabited(&vec![
        ("MODE".to_string(), mode_hl()),
        ("E".to_string(), HlType::option(empty_enum)),
    ]));
    assert!(abi_is_inhabited(&vec![]));
}
