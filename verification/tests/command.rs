use wasm_builder::command::minimum_stable_version;
use wasm_builder::command::CargoCommand;
use wasm_builder::command::CargoCommandVersioned;
use wasm_builder::command::Probe;
use wasm_builder::command::ProcessOutput;
use wasm_builder::environment::Environment;
use wasm_builder::target::RuntimeTarget;
use wasm_builder::version::Version;

fn output(text: &str) -> Option<ProcessOutput> {
    Some(ProcessOutput { success: true, stdout: text.as_bytes().to_vec() })
}

fn probe(version: Option<&str>, target_list: Option<&str>) -> Probe {
    Probe {
        version: version.and_then(output),
        target_list: target_list.and_then(output),
    }
}

fn env(rustc_bootstrap: bool) -> Environment {
    Environment {
        cargo: "cargo".to_string(),
        toolchain: None,
        rustc_bootstrap,
    }
}

fn is(version: Option<Version>, major: u32, minor: u32, patch: u32, is_nightly: bool) -> bool {
    match version {
        Some(v) => {
            v.major == major && v.minor == minor && v.patch == patch && v.is_nightly == is_nightly
        }
        None => false,
    }
}

fn strings(texts: &[&str]) -> Vec<String> {
    texts.iter().map(ToString::to_string).collect()
}

const TARGETS: &str = "aarch64-apple-darwin\nriscv32ema-unknown-none-elf\nwasm32-unknown-unknown\n";

#[test]
fn new_keeps_program_and_probe() {
    let command = CargoCommand::new("cargo", &probe(Some("cargo 1.68.0 (abc 2023-01-01)"), Some(TARGETS)));
    assert_eq!(command.program(), "cargo");
    assert!(command.args().is_empty());
    assert!(is(command.version(), 1, 68, 0, false));
    let list = command.target_list().unwrap();
    assert_eq!(list.len(), 3);
    assert!(list.contains("wasm32-unknown-unknown"));
}

#[test]
fn new_with_args_keeps_the_args() {
    let command = CargoCommand::new_with_args(
        "rustup",
        &["run", "nightly-2020-02-20", "cargo"],
        &probe(Some("cargo 1.43.0-nightly (3c53211c3 2020-02-20)"), None),
    );
    assert_eq!(command.program(), "rustup");
    assert_eq!(command.args(), &strings(&["run", "nightly-2020-02-20", "cargo"]));
    assert!(is(command.version(), 1, 43, 0, true));
    assert!(command.target_list().is_none());
}

#[test]
fn new_without_answers_knows_nothing() {
    let command = CargoCommand::new("cargo", &probe(None, None));
    assert!(command.version().is_none());
    assert!(command.target_list().is_none());
}

#[test]
fn clone_keeps_all() {
    let command = CargoCommand::new_with_args("rustup", &["run", "x", "cargo"], &probe(Some("cargo 1.70.1"), Some("a\nb")));
    let copy = command.clone();
    assert_eq!(copy.program(), "rustup");
    assert_eq!(copy.args(), &strings(&["run", "x", "cargo"]));
    assert!(is(copy.version(), 1, 70, 1, false));
    assert_eq!(copy.target_list().unwrap().len(), 2);
    assert!(copy.target_list().unwrap().contains("b"));
}

#[test]
fn command_is_program_and_args() {
    let command = CargoCommand::new_with_args("rustup", &["run", "stable", "cargo"], &probe(None, None));
    let invocation = command.command();
    assert_eq!(invocation.program, "rustup");
    assert_eq!(invocation.args, strings(&["run", "stable", "cargo"]));
    assert!(invocation.env_remove.is_empty());
}

#[test]
fn version_query_adds_the_flag() {
    let query = CargoCommand::version_query("rustup", &strings(&["run", "stable", "cargo"]));
    assert_eq!(query.program, "rustup");
    assert_eq!(query.args, strings(&["run", "stable", "cargo", "--version"]));
    assert!(query.env_remove.is_empty());
    let query = CargoCommand::version_query("cargo", &Vec::new());
    assert_eq!(query.program, "cargo");
    assert_eq!(query.args, strings(&["--version"]));
}

#[test]
fn target_list_query_adds_the_flags() {
    let query = CargoCommand::target_list_query("rustup", &strings(&["run", "stable", "cargo"]));
    assert_eq!(query.program, "rustup");
    assert_eq!(
        query.args,
        strings(&["run", "stable", "cargo", "rustc", "-Z", "unstable-options", "--print", "target-list"])
    );
    assert_eq!(query.env_remove, strings(&["RUSTC"]));
}

#[test]
fn extract_version_reads_the_output() {
    assert!(is(CargoCommand::extract_version(&output("cargo 1.68.2 (abc 2023-01-01)\n")), 1, 68, 2, false));
    assert!(is(CargoCommand::extract_version(&output("cargo 1.70.0-nightly (abc 2023-01-01)\n")), 1, 70, 0, true));
}

#[test]
fn extract_version_of_a_failure_is_none() {
    assert!(CargoCommand::extract_version(&None).is_none());
    assert!(CargoCommand::extract_version(&output("")).is_none());
    assert!(CargoCommand::extract_version(&output("error: no such command")).is_none());
    let failed = Some(ProcessOutput { success: false, stdout: b"cargo 1.68.0".to_vec() });
    assert!(CargoCommand::extract_version(&failed).is_none());
}

#[test]
fn extract_version_of_invalid_utf8_is_none() {
    let mut bytes = b"cargo 1.68.0 ".to_vec();
    bytes.push(0xFF);
    let invalid = Some(ProcessOutput { success: true, stdout: bytes });
    assert!(CargoCommand::extract_version(&invalid).is_none());
    let cut = Some(ProcessOutput { success: true, stdout: vec![b'1', b'.', b'2', b'.', b'3', 0xC3] });
    assert!(CargoCommand::extract_version(&cut).is_none());
    let whole = Some(ProcessOutput { success: true, stdout: vec![b'1', b'.', b'2', b'.', b'3', 0xC3, 0xA9] });
    assert!(is(CargoCommand::extract_version(&whole), 1, 2, 3, false));
}

#[test]
fn extract_target_list_reads_the_output() {
    let list = CargoCommand::extract_target_list(&output(TARGETS)).unwrap();
    assert_eq!(list.len(), 3);
    assert!(list.contains("riscv32ema-unknown-none-elf"));
    assert!(list.contains("aarch64-apple-darwin"));
    assert!(!list.contains("riscv32ema-unknown-none"));
}

#[test]
fn extract_target_list_of_a_failure_is_none() {
    assert!(CargoCommand::extract_target_list(&None).is_none());
    let failed = Some(ProcessOutput { success: false, stdout: TARGETS.as_bytes().to_vec() });
    assert!(CargoCommand::extract_target_list(&failed).is_none());
    let invalid = Some(ProcessOutput { success: true, stdout: vec![b'a', b'\n', 0x80] });
    assert!(CargoCommand::extract_target_list(&invalid).is_none());
}

#[test]
fn extract_target_list_of_empty_output_holds_the_empty_line() {
    let list = CargoCommand::extract_target_list(&output("")).unwrap();
    assert_eq!(list.len(), 1);
    assert!(list.contains(""));
}

#[test]
fn minimum_stable_is_1_68_0() {
    let v = minimum_stable_version();
    assert_eq!((v.major, v.minor, v.patch, v.is_nightly), (1, 68, 0, false));
}

#[test]
fn wasm_needs_a_version() {
    let command = CargoCommand::new("cargo", &probe(None, Some(TARGETS)));
    assert!(!command.supports_substrate_runtime_env(RuntimeTarget::Wasm, &env(false)));
    assert!(!command.supports_substrate_runtime_env_wasm(&env(false)));
    let command = CargoCommand::new("cargo", &probe(Some("garbage"), None));
    assert!(!command.supports_substrate_runtime_env(RuntimeTarget::Wasm, &env(false)));
}

#[test]
fn wasm_is_supported_from_1_68_0() {
    for (text, expected) in [
        ("cargo 1.68.0", true),
        ("cargo 1.68.0-nightly", true),
        ("cargo 1.68.1", true),
        ("cargo 1.69.0", true),
        ("cargo 1.100.0", true),
        ("cargo 2.0.0", true),
        ("cargo 2.0.0-nightly", true),
        ("cargo 1.67.9", false),
        ("cargo 1.67.99", false),
        ("cargo 1.65.0", false),
        ("cargo 1.9.0", false),
        ("cargo 0.99.0", false),
        ("cargo 0.68.0", false),
    ] {
        let command = CargoCommand::new("cargo", &probe(Some(text), None));
        assert_eq!(command.supports_substrate_runtime_env(RuntimeTarget::Wasm, &env(false)), expected, "{}", text);
        assert_eq!(command.supports_substrate_runtime_env_wasm(&env(false)), expected, "{}", text);
    }
}

#[test]
fn wasm_is_supported_by_a_nightly() {
    for text in ["cargo 1.60.0-nightly", "cargo 1.0.0-nightly (abc 2015-05-15)", "cargo 0.1.0-nightly"] {
        let command = CargoCommand::new("cargo", &probe(Some(text), None));
        assert!(command.supports_substrate_runtime_env(RuntimeTarget::Wasm, &env(false)));
    }
}

#[test]
fn wasm_is_supported_under_bootstrap() {
    let command = CargoCommand::new("cargo", &probe(None, None));
    assert!(command.supports_substrate_runtime_env(RuntimeTarget::Wasm, &env(true)));
    assert!(command.supports_substrate_runtime_env_wasm(&env(true)));
    let command = CargoCommand::new("cargo", &probe(Some("cargo 1.0.0"), None));
    assert!(command.supports_substrate_runtime_env(RuntimeTarget::Wasm, &env(true)));
}

#[test]
fn riscv_needs_the_exact_triple() {
    let command = CargoCommand::new("cargo", &probe(Some("cargo 1.80.0-nightly"), Some(TARGETS)));
    assert!(command.supports_substrate_runtime_env(RuntimeTarget::Riscv, &env(false)));
    assert!(command.supports_substrate_runtime_env_riscv());
    for list in [
        "riscv32ema-unknown-none-elf2\nwasm32-unknown-unknown",
        "riscv32ema-unknown-none\nwasm32-unknown-unknown",
        "xriscv32ema-unknown-none-elf",
        "riscv32ema-unknown-none-elf x",
        "riscv32ema-unknown-none-elf\r\nwasm32-unknown-unknown\r\n",
        "RISCV32EMA-UNKNOWN-NONE-ELF",
        "",
    ] {
        let command = CargoCommand::new("cargo", &probe(Some("cargo 1.80.0-nightly"), Some(list)));
        assert!(!command.supports_substrate_runtime_env(RuntimeTarget::Riscv, &env(false)), "{:?}", list);
        assert!(!command.supports_substrate_runtime_env_riscv());
    }
}

#[test]
fn riscv_needs_a_target_list() {
    let command = CargoCommand::new("cargo", &probe(Some("cargo 1.80.0-nightly"), None));
    assert!(!command.supports_substrate_runtime_env(RuntimeTarget::Riscv, &env(false)));
    assert!(!command.supports_substrate_runtime_env(RuntimeTarget::Riscv, &env(true)));
    assert!(!command.supports_substrate_runtime_env_riscv());
}

#[test]
fn riscv_does_not_look_at_the_version() {
    let command = CargoCommand::new("cargo", &probe(None, Some("  riscv32ema-unknown-none-elf\n")));
    assert!(command.supports_substrate_runtime_env(RuntimeTarget::Riscv, &env(false)));
    let command = CargoCommand::new("cargo", &probe(Some("cargo 1.0.0"), Some(TARGETS)));
    assert!(command.supports_substrate_runtime_env(RuntimeTarget::Riscv, &env(false)));
}

#[test]
fn nightly_features_need_a_nightly_or_bootstrap() {
    let stable = CargoCommand::new("cargo", &probe(Some("cargo 1.80.0"), None));
    let nightly = CargoCommand::new("cargo", &probe(Some("cargo 1.60.0-nightly"), None));
    let unknown = CargoCommand::new("cargo", &probe(None, None));
    assert!(!stable.supports_nightly_features(&env(false)));
    assert!(nightly.supports_nightly_features(&env(false)));
    assert!(!unknown.supports_nightly_features(&env(false)));
    assert!(stable.supports_nightly_features(&env(true)));
    assert!(unknown.supports_nightly_features(&env(true)));
}

#[test]
fn versioned_command_keeps_both() {
    let command = CargoCommand::new_with_args("rustup", &["run", "stable", "cargo"], &probe(Some("cargo 1.70.0"), None));
    let versioned = CargoCommandVersioned::new(command, "rustc 1.70.0 (90c541806 2023-05-31)".to_string());
    assert_eq!(versioned.rustc_version(), "rustc 1.70.0 (90c541806 2023-05-31)");
    assert_eq!(versioned.program(), "rustup");
    assert_eq!(versioned.args(), &strings(&["run", "stable", "cargo"]));
    assert!(is(versioned.version(), 1, 70, 0, false));
    let copy = versioned.clone();
    assert_eq!(copy.rustc_version(), "rustc 1.70.0 (90c541806 2023-05-31)");
    assert_eq!(copy.program(), "rustup");
}
