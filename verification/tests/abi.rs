use simplex::abi::{collect_abi_types, compile_simf};
use simplex::bindings::SimfContent;
use simplex::hl_type::{HlType, UIntType};

const ENUM_SOURCE: &str = "
enum Mode {
    Off,
    Single(u32),
    Pair(u32, u64),
}

fn main() {
    let argument: Mode = param::MODE;
    let witness: Mode = witness::MODE;
}
";

#[test]
fn abi_types_collect_the_contract_enums() {
    let abi = collect_abi_types(ENUM_SOURCE).expect("the source compiles");
    assert_eq!(abi.parameters.len(), 1);
    assert_eq!(abi.witness_types.len(), 1);
    assert_eq!(abi.parameters[0].0, "MODE");
    let mode = abi.enum_type("Mode").expect("Mode is reached");
    match mode {
        HlType::Enum(info) => {
            let names: Vec<&str> = info.variants.iter().map(|v| v.name.as_str()).collect();
            assert_eq!(names, vec!["Off", "Single", "Pair"]);
            assert!(info.variants[2].payload[1].equals(&HlType::uint(UIntType::U64)));
        }
        other => panic!("unexpected type {other:?}"),
    }
    assert!(abi.enum_type("Other").is_none());
}

#[test]
fn sources_that_do_not_compile_have_no_abi() {
    assert!(collect_abi_types("fn main() { let x: u8 = ; }").is_none());
    let content = SimfContent { content: "fn (".to_string(), contract_name: "c".to_string() };
    assert!(compile_simf(&content).is_err());
}

#[test]
fn plain_contracts_have_their_witness_types() {
    let content = SimfContent {
        content: "fn main() { let x: u32 = witness::X; assert!(jet::eq_32(x, 0)); }".to_string(),
        contract_name: "c".to_string(),
    };
    let (params, witnesses) = compile_simf(&content).unwrap();
    assert!(params.is_empty());
    assert_eq!(witnesses.len(), 1);
    assert_eq!(witnesses[0].0, "X");
    assert!(witnesses[0].1.equals(&HlType::uint(UIntType::U32)));
}
