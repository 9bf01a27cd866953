use wasm_builder::environment::build_std_required;
use wasm_builder::environment::color_output_enabled;
use wasm_builder::environment::get_bool_environment_variable;
use wasm_builder::environment::runtime_target;
use wasm_builder::environment::ConfigError;
use wasm_builder::environment::CARGO;
use wasm_builder::environment::RUNTIME_TARGET;
use wasm_builder::environment::RUSTC_BOOTSTRAP;
use wasm_builder::environment::WASM_BUILD_NO_COLOR;
use wasm_builder::environment::WASM_BUILD_STD;
use wasm_builder::environment::WASM_BUILD_TOOLCHAIN;
use wasm_builder::target::RuntimeTarget;

#[test]
fn variable_names() {
    assert_eq!(WASM_BUILD_TOOLCHAIN, "WASM_BUILD_TOOLCHAIN");
    assert_eq!(WASM_BUILD_NO_COLOR, "WASM_BUILD_NO_COLOR");
    assert_eq!(WASM_BUILD_STD, "WASM_BUILD_STD");
    assert_eq!(RUNTIME_TARGET, "SUBSTRATE_RUNTIME_TARGET");
    assert_eq!(CARGO, "CARGO");
    assert_eq!(RUSTC_BOOTSTRAP, "RUSTC_BOOTSTRAP");
}

#[test]
fn bool_variable_values() {
    assert_eq!(get_bool_environment_variable(None), Ok(None));
    assert_eq!(get_bool_environment_variable(Some("1")), Ok(Some(true)));
    assert_eq!(get_bool_environment_variable(Some("0")), Ok(Some(false)));
}

#[test]
fn bool_variable_rejects_other_values() {
    for value in ["", "true", "false", "01", "1 ", " 0", "2", "yes", "\u{fffd}"] {
        assert_eq!(get_bool_environment_variable(Some(value)), Err(ConfigError::InvalidBool));
    }
}

#[test]
fn runtime_target_values() {
    assert_eq!(runtime_target(None), Ok(RuntimeTarget::Wasm));
    assert_eq!(runtime_target(Some("wasm")), Ok(RuntimeTarget::Wasm));
    assert_eq!(runtime_target(Some("riscv")), Ok(RuntimeTarget::Riscv));
}

#[test]
fn runtime_target_rejects_other_values() {
    for value in ["", "Wasm", "WASM", "riscv32", "wasm ", "risc", "\u{fffd}"] {
        assert_eq!(runtime_target(Some(value)), Err(ConfigError::InvalidRuntimeTarget));
    }
}

#[test]
fn build_std_defaults_to_the_target() {
    assert_eq!(build_std_required(None, None), Ok(true));
    assert_eq!(build_std_required(Some("wasm"), None), Ok(true));
    assert_eq!(build_std_required(Some("riscv"), None), Ok(false));
}

#[test]
fn build_std_follows_the_switch() {
    assert_eq!(build_std_required(None, Some("0")), Ok(false));
    assert_eq!(build_std_required(Some("wasm"), Some("0")), Ok(false));
    assert_eq!(build_std_required(Some("riscv"), Some("1")), Ok(true));
    assert_eq!(build_std_required(Some("riscv"), Some("0")), Ok(false));
}

#[test]
fn build_std_reports_invalid_values() {
    assert_eq!(build_std_required(None, Some("on")), Err(ConfigError::InvalidBool));
    assert_eq!(
        build_std_required(Some("arm"), Some("1")),
        Err(ConfigError::InvalidRuntimeTarget)
    );
    assert_eq!(
        build_std_required(Some("arm"), Some("on")),
        Err(ConfigError::InvalidRuntimeTarget)
    );
}

#[test]
fn color_output_follows_the_variable() {
    assert!(color_output_enabled(None));
    assert!(!color_output_enabled(Some("1")));
    assert!(!color_output_enabled(Some("")));
}
