use simplex::program::{env_input_check, Program, ProgramError};

#[test]
fn left_folded_depths() {
    assert_eq!(Program::taproot_leaf_depths(1), vec![0]);
    assert_eq!(Program::taproot_leaf_depths(2), vec![1, 1]);
    assert_eq!(Program::taproot_leaf_depths(3), vec![2, 2, 1]);
    assert_eq!(Program::taproot_leaf_depths(4), vec![3, 3, 2, 1]);
    assert_eq!(Program::taproot_leaf_depths(5), vec![4, 4, 3, 2, 1]);
}

// The measured boundary: a balanced tree agrees with a left fold up to three leaves and
// diverges from four. Four leaves balanced is [2, 2, 2, 2]; left-folded it is not.
#[test]
fn diverges_from_a_balanced_tree_at_four_leaves() {
    assert_eq!(Program::taproot_leaf_depths(3), vec![2, 2, 1]);
    assert_ne!(Program::taproot_leaf_depths(4), vec![2, 2, 2, 2]);
}

#[test]
fn leaf_depths_fill_a_binary_tree() {
    for total in 1..12usize {
        let depths = Program::taproot_leaf_depths(total);
        let height = (total - 1) as u32;
        let sum: u64 = depths.iter().map(|d| 1u64 << (height - *d as u32)).sum();
        assert_eq!(sum, 1u64 << height);
    }
}

#[test]
fn storage_capacity_is_zero_filled() {
    let program = Program::new("fn main() {}", vec![]).with_storage_capacity(3);
    assert_eq!(program.get_storage_len(), 3);
    for slot in program.get_storage() {
        assert_eq!(slot, &vec![0u8; 32]);
    }
}

#[test]
fn storage_write_then_read() {
    let mut program = Program::new("fn main() {}", vec![]).with_storage_capacity(2);
    program.set_storage_at(1, vec![7u8; 32]);
    assert_eq!(program.get_storage_at(1), vec![7u8; 32]);
    assert_eq!(program.get_storage_at(0), vec![0u8; 32]);
    assert_eq!(program.taproot_leaf_plan(), vec![2, 2, 1]);
}

#[test]
fn builders_set_key_and_mode() {
    let program = Program::new("src", vec![]).with_taproot_pubkey([1u8; 32]).with_debug_symbols(true);
    assert_eq!(program.pub_key, Some([1u8; 32]));
    assert_eq!(program.include_debug_symbols, Some(true));
    assert_eq!(program.source, "src");
}

#[test]
fn env_input_checks() {
    let program_script = vec![0x51u8, 0x20, 7];
    let scripts = vec![vec![0u8], program_script.clone()];
    assert_eq!(
        env_input_check(&scripts, 0, &program_script),
        Err(ProgramError::ScriptPubkeyMismatch { expected_script: program_script.clone(), actual_script: vec![0u8] })
    );
    assert_eq!(env_input_check(&scripts, 1, &program_script), Ok(()));
    assert_eq!(
        env_input_check(&scripts, 2, &program_script),
        Err(ProgramError::UtxoIndexOutOfBounds { input_index: 2, utxo_count: 2 })
    );
}

const DUMMY_PROGRAM: &str = r"
    fn main() {
        let ab: u16 = <(u8, u8)>::into((0x10, 0x01));
        let c: u16 = 0x1001;
        assert!(jet::eq_16(ab, c));
        let ab: u8 = <(u4, u4)>::into((0b1011, 0b1101));
        let c: u8 = 0b10111101;
        assert!(jet::eq_8(ab, c));
    }
";

fn dummy_program() -> Program {
    Program::new(DUMMY_PROGRAM, vec![])
}

#[test]
fn changed_build_mode_is_not_served_the_old_compilation() {
    let plain = dummy_program();
    let plain_cmr = plain.get_cmr(false).unwrap();

    let debug = dummy_program().with_debug_symbols(true);
    let debug_cmr = debug.get_cmr(false).unwrap();

    assert_ne!(plain_cmr, debug_cmr, "the build mode did not reach the compiler");
}

#[test]
fn compiling_twice_gives_the_same_root() {
    let program = dummy_program();
    assert_eq!(program.get_cmr(false).unwrap(), program.get_cmr(false).unwrap());
    assert_eq!(program.get_cmr(true).unwrap(), dummy_program().with_debug_symbols(true).get_cmr(false).unwrap());
    assert_ne!(program.get_tapleaf_hash(false).unwrap(), program.get_cmr(false).unwrap());
}

#[test]
fn arguments_reach_the_compiler() {
    let source = "fn main() { let x: u32 = param::X; assert!(jet::eq_32(x, 7)); }";
    let seven = Program::new(source, vec![("X".to_string(), "7".to_string())]).get_cmr(false).unwrap();
    let eight = Program::new(source, vec![("X".to_string(), "8".to_string())]).get_cmr(false).unwrap();
    assert_ne!(seven, eight);
    assert!(Program::new(source, vec![("X".to_string(), "true".to_string())]).get_cmr(false).is_err());
    assert!(Program::new(source, vec![]).get_cmr(false).is_err());
    assert!(Program::new("fn (", vec![]).get_tapleaf_hash(false).is_err());
}
