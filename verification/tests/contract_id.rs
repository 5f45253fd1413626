use simplex::contract_id::ContractId;
use simplex::enum_types::AbiTypes;
use simplex::hl_type::{EnumInfo, EnumVariantInfo, HlType, UIntType};
use simplex::hl_value::{HlValue, UIntValue, ValueInner};

fn mode() -> HlType {
    HlType::Enum(EnumInfo {
        name: "Mode".to_string(),
        variants: vec![
            EnumVariantInfo { name: "Single".to_string(), payload: vec![HlType::uint(UIntType::U32)] },
            EnumVariantInfo { name: "Off".to_string(), payload: vec![] },
        ],
    })
}

#[test]
fn defaults_of_plain_types() {
    let t = HlType::tuple(vec![HlType::boolean(), HlType::uint(UIntType::U8), HlType::option(HlType::uint(UIntType::U64))]);
    let v = ContractId::default_value(&t).unwrap();
    let expected = HlValue::tuple(vec![
        HlValue::from_bool(false),
        HlValue::u8(0),
        HlValue::none(HlType::uint(UIntType::U64)),
    ]);
    assert_eq!(v, expected);
    let u = ContractId::default_value(&HlType::uint(UIntType::U256)).unwrap();
    assert_eq!(u.inner, ValueInner::UInt(UIntValue::U256([0u8; 32])));
}

#[test]
fn default_of_either_is_left_and_of_enum_is_first_variant() {
    let t = HlType::either(HlType::uint(UIntType::U16), HlType::Never);
    let v = ContractId::default_value(&t).unwrap();
    assert_eq!(v, HlValue::left(HlValue::from_uint(UIntValue::U16(0)), HlType::Never));
    let m = ContractId::default_value(&mode()).unwrap();
    assert_eq!(m, HlValue::enum_variant(&mode(), "Single", vec![HlValue::u32(0)]).unwrap());
}

#[test]
fn default_errors_name_the_type() {
    assert_eq!(
        ContractId::default_value(&HlType::Never),
        Err("Cannot build a default argument for unsupported type '!'".to_string())
    );
    let empty = HlType::Enum(EnumInfo { name: "Void".to_string(), variants: vec![] });
    assert_eq!(
        ContractId::default_value(&empty),
        Err("Cannot build a default argument for empty enum type 'Void'".to_string())
    );
    let arr = HlType::array(HlType::Never, 0);
    assert!(ContractId::default_value(&arr).is_ok());
    let arr2 = HlType::array(HlType::uint(UIntType::U1), 3);
    assert_eq!(
        ContractId::default_value(&arr2).unwrap(),
        HlValue::array(
            vec![HlValue::from_uint(UIntValue::U1(0)), HlValue::from_uint(UIntValue::U1(0)), HlValue::from_uint(UIntValue::U1(0))],
            HlType::uint(UIntType::U1)
        )
    );
}

#[test]
fn default_arguments_by_name() {
    let params = vec![("A".to_string(), HlType::boolean()), ("B".to_string(), HlType::uint(UIntType::U4))];
    let args = ContractId::default_arguments(&params).unwrap();
    assert_eq!(args.len(), 2);
    assert_eq!(args[0].0, "A");
    assert_eq!(args[1].1, HlValue::from_uint(UIntValue::U4(0)));
    let bad = vec![("X".to_string(), HlType::Never)];
    assert!(ContractId::default_arguments(&bad).is_err());
}

#[test]
fn abi_types_collect_enums_by_name() {
    let outer = HlType::Enum(EnumInfo {
        name: "Outer".to_string(),
        variants: vec![EnumVariantInfo { name: "Wrap".to_string(), payload: vec![HlType::option(mode())] }],
    });
    let abi = AbiTypes::from_abi(
        vec![("P".to_string(), HlType::tuple(vec![mode(), HlType::boolean()]))],
        vec![("W".to_string(), outer.duplicate())],
    );
    assert_eq!(abi.enum_types.len(), 2);
    assert_eq!(abi.enum_type("Mode"), Some(&mode()));
    assert_eq!(abi.enum_type("Outer"), Some(&outer));
    assert_eq!(abi.enum_type("Nope"), None);
}
