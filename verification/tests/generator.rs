use simplex::generator::{path_components_exec, ArtifactsGenerator, SimfArtifact};

fn artifact(path: &str, name: &str) -> SimfArtifact {
    SimfArtifact {
        relative_path: path.to_string(),
        mirrored_path: format!("out/{path}"),
        contract_name: name.to_string(),
    }
}

#[test]
fn path_components_skip_dots_and_empty_segments() {
    assert_eq!(path_components_exec("./a//b/../c.simf"), vec!["a", "b", "c.simf"]);
    assert_eq!(path_components_exec("p2pk.simf"), vec!["p2pk.simf"]);
    assert!(path_components_exec("").is_empty());
}

#[test]
fn build_tree_mirrors_directories() {
    let tree = ArtifactsGenerator::build_tree(vec![
        artifact("hash/func/sha256.simf", "sha256"),
        artifact("p2pk.simf", "p2pk"),
        artifact("hash/blake.simf", "blake"),
    ]);
    assert_eq!(tree.files.len(), 1);
    assert_eq!(tree.files[0].contract_name, "p2pk");
    assert_eq!(tree.dirs.len(), 1);
    let (name, hash) = &tree.dirs[0];
    assert_eq!(name, "hash");
    assert_eq!(hash.files.len(), 1);
    assert_eq!(hash.files[0].contract_name, "blake");
    assert_eq!(hash.dirs[0].0, "func");
    assert_eq!(hash.dirs[0].1.files[0].contract_name, "sha256");
}

#[test]
fn mod_binding_code_lists_modules() {
    let code = ArtifactsGenerator::generate_mod_binding_code(&vec!["a".to_string(), "hash".to_string()]);
    assert_eq!(code, "#![allow(clippy::all)] #[rustfmt::skip] pub mod a; #[rustfmt::skip] pub mod hash; ");
}

#[test]
fn simf_binding_code_names_the_program() {
    let code = ArtifactsGenerator::generate_simf_binding_code("my_vault", "out/my_vault.simf");
    assert!(code.contains("pub struct MyVaultProgram { program: Program, }"));
    assert!(code.contains("pub const SOURCE: &'static str = derived_my_vault::MY_VAULT_CONTRACT_SOURCE;"));
    assert!(code.ends_with("include_simf!(\"out/my_vault.simf\");"));
}

use simplex::generator::{declares_enums, embeddable_content, is_ident_text, relative_path, BuildError};

#[test]
fn embeds_flattened_source_for_contracts_without_enums() {
    let source = "fn main() { assert!(true); }";
    let flattened = "mod unit_0 { fn main() { assert!(true); } }".to_string();

    assert_eq!(embeddable_content(source, flattened.clone()).unwrap(), flattened);
}

#[test]
fn embeds_original_source_for_enum_contracts() {
    let source = "
enum Mode {
    Off,
}

fn main() {
    match witness::MODE {
        Mode::Off => assert!(true),
    }
}
";
    // The flattened text would wrap the enum in a module, where it is invalid.
    let flattened = "mod unit_0 { enum Mode { Off } fn main() { ... } }".to_string();

    assert_eq!(embeddable_content(source, flattened).unwrap(), source);
}

#[test]
fn rejects_enum_contracts_that_use_imports() {
    let source = "
enum Mode {
    Off,
}

use other::check;

fn main() {
    check();
    match witness::MODE {
        Mode::Off => assert!(true),
    }
}
";
    let err = embeddable_content(source, String::new()).unwrap_err();

    match err {
        BuildError::GenerationFailed(message) => {
            assert!(message.contains("cannot use imports"), "got: {message}")
        }
        other => panic!("unexpected error {other:?}"),
    }
}

#[test]
fn relative_paths() {
    assert_eq!(relative_path("/foo/bar/baz", "/foo/bar"), Some("baz".to_string()));
    assert_eq!(relative_path("/foo/bar", "baz"), Some("/foo/bar".to_string()));
    assert_eq!(relative_path("foo", "/bar"), None);
    let code = ArtifactsGenerator::simf_binding_code_for("c", "/x/out/c.simf", "/x").unwrap();
    assert!(code.ends_with("include_simf!(\"out/c.simf\");"));
    assert_eq!(
        ArtifactsGenerator::simf_binding_code_for("c", "out/c.simf", "/x"),
        Err(BuildError::FailedToFindCorrectRelativePath { cwd: "/x".to_string(), simf_file: "out/c.simf".to_string() })
    );
}

#[test]
fn formats_generated_code() {
    let code = ArtifactsGenerator::generate_mod_binding_code(&vec!["a".to_string()]);
    let pretty = ArtifactsGenerator::format_file(&code).unwrap();
    assert!(pretty.contains("pub mod a;"));
    let bindings = ArtifactsGenerator::generate_simf_binding_code("my_vault", "out/my_vault.simf");
    let pretty = ArtifactsGenerator::format_file(&bindings).unwrap();
    assert!(pretty.contains("pub struct MyVaultProgram {\n    program: Program,\n}"));
    assert_ne!(pretty, bindings);
    // `fn` is a keyword, so `pub mod fn;` does not parse.
    let keyword = ArtifactsGenerator::generate_mod_binding_code(&vec!["fn".to_string()]);
    assert!(matches!(ArtifactsGenerator::format_file(&keyword), Err(BuildError::GenerationFailed(_))));
}

#[test]
fn identifier_texts() {
    assert!(is_ident_text("my_vault2"));
    assert!(!is_ident_text(""));
    assert!(!is_ident_text("my-vault"));
    assert!(!is_ident_text("vault.simf"));
}

#[test]
fn detects_enum_declarations() {
    assert!(declares_enums("enum Mode { Off, } fn main() {}"));
    assert!(declares_enums("fn main() {} enum Mode { Off, On(u8), }"));
    assert!(!declares_enums("fn main() { assert!(true); }"));
    assert!(!declares_enums("enum ("));
}
