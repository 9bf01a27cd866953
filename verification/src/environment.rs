//! What the environment of a build asks for.

use crate::target::RuntimeTarget;
use crate::text::chars_of_option;
use crate::text::same_text;
use vstd::prelude::*;

verus! {

/// The variable that names the toolchain to build the runtime with.
pub const WASM_BUILD_TOOLCHAIN: &'static str = "WASM_BUILD_TOOLCHAIN";

/// The variable that disables colour in the output of the build.
pub const WASM_BUILD_NO_COLOR: &'static str = "WASM_BUILD_NO_COLOR";

/// The variable that says whether the standard library is built too.
pub const WASM_BUILD_STD: &'static str = "WASM_BUILD_STD";

/// The variable that selects the target of the runtime: `wasm` or `riscv`.
pub const RUNTIME_TARGET: &'static str = "SUBSTRATE_RUNTIME_TARGET";

/// The variable in which cargo names itself to a build script.
pub const CARGO: &'static str = "CARGO";

/// The variable that makes a stable compiler accept unstable features.
pub const RUSTC_BOOTSTRAP: &'static str = "RUSTC_BOOTSTRAP";

/// What the environment says of the toolchain to build with, as it stood
/// when the build began.
#[derive(Debug)]
pub struct Environment {
    /// The cargo that runs the build (`CARGO`).
    pub cargo: String,
    /// The toolchain that the user asks for (`WASM_BUILD_TOOLCHAIN`), if any.
    pub toolchain: Option<String>,
    /// Whether `RUSTC_BOOTSTRAP` is set.
    pub rustc_bootstrap: bool,
}

/// An `Environment`, with each text as its characters.
pub ghost struct Settings {
    pub cargo: Seq<char>,
    pub toolchain: Option<Seq<char>>,
    pub rustc_bootstrap: bool,
}

impl View for Environment {
    type V = Settings;

    open spec fn view(&self) -> Settings {
        Settings {
            cargo: self.cargo@,
            toolchain: match self.toolchain {
                Some(t) => Some(t@),
                None => None,
            },
            rustc_bootstrap: self.rustc_bootstrap,
        }
    }
}

/// A variable of the environment holds a value that it cannot have.
#[derive(Clone, Copy, PartialEq, Eq, Structural, Debug)]
pub enum ConfigError {
    /// A variable that switches something on or off is neither `1` nor `0`.
    InvalidBool,
    /// The variable that selects the target is neither `wasm` nor `riscv`.
    InvalidRuntimeTarget,
}

/// What a variable that switches something on or off says: nothing if it is
/// not set, yes if it is `1`, no if it is `0`.
pub open spec fn switch_of(value: Option<Seq<char>>) -> Result<Option<bool>, ConfigError> {
    match value {
        None => Ok(None),
        Some(v) => if v == "1"@ {
            Ok(Some(true))
        } else if v == "0"@ {
            Ok(Some(false))
        } else {
            Err(ConfigError::InvalidBool)
        },
    }
}

/// The target that the variable for it selects: `Wasm` if it is not set.
pub open spec fn target_of(value: Option<Seq<char>>) -> Result<RuntimeTarget, ConfigError> {
    match value {
        None => Ok(RuntimeTarget::Wasm),
        Some(v) => if v == "wasm"@ {
            Ok(RuntimeTarget::Wasm)
        } else if v == "riscv"@ {
            Ok(RuntimeTarget::Riscv)
        } else {
            Err(ConfigError::InvalidRuntimeTarget)
        },
    }
}

/// Whether the standard library is to be built: what the switch for it says,
/// and else whether the target is `Wasm`. An invalid target is reported
/// before an invalid switch.
pub open spec fn build_std_of(
    runtime_target: Option<Seq<char>>,
    build_std: Option<Seq<char>>,
) -> Result<bool, ConfigError> {
    match target_of(runtime_target) {
        Err(e) => Err(e),
        Ok(target) => match switch_of(build_std) {
            Err(e) => Err(e),
            Ok(Some(b)) => Ok(b),
            Ok(None) => Ok(target == RuntimeTarget::Wasm),
        },
    }
}

/// Reads a variable that switches something on or off. `value` is what the
/// variable holds, or `None` if it is not set.
pub fn get_bool_environment_variable(value: Option<&str>) -> (r: Result<Option<bool>, ConfigError>)
    ensures
        r == switch_of(chars_of_option(value)),
{
    match value {
        None => Ok(None),
        Some(v) => if same_text(v, "1") {
            Ok(Some(true))
        } else if same_text(v, "0") {
            Ok(Some(false))
        } else {
            Err(ConfigError::InvalidBool)
        },
    }
}

/// The target that the runtime is to be built for. `value` is what
/// `SUBSTRATE_RUNTIME_TARGET` holds, or `None` if it is not set.
pub fn runtime_target(value: Option<&str>) -> (r: Result<RuntimeTarget, ConfigError>)
    ensures
        r == target_of(chars_of_option(value)),
{
    match value {
        None => Ok(RuntimeTarget::Wasm),
        Some(v) => if same_text(v, "wasm") {
            Ok(RuntimeTarget::Wasm)
        } else if same_text(v, "riscv") {
            Ok(RuntimeTarget::Riscv)
        } else {
            Err(ConfigError::InvalidRuntimeTarget)
        },
    }
}

/// Whether the standard library is to be built along with the runtime.
/// `target` is what `SUBSTRATE_RUNTIME_TARGET` holds and `build_std` what
/// `WASM_BUILD_STD` holds, each `None` if the variable is not set.
pub fn build_std_required(target: Option<&str>, build_std: Option<&str>) -> (r: Result<
    bool,
    ConfigError,
>)
    ensures
        r == build_std_of(chars_of_option(target), chars_of_option(build_std)),
{
    let target = match runtime_target(target) {
        Ok(target) => target,
        Err(e) => {
            return Err(e);
        },
    };
    match get_bool_environment_variable(build_std) {
        Err(e) => Err(e),
        Ok(Some(b)) => Ok(b),
        Ok(None) => Ok(target == RuntimeTarget::Wasm),
    }
}

/// Whether the output of the build may be coloured. `no_color` is what
/// `WASM_BUILD_NO_COLOR` holds, or `None` if it is not set.
pub fn color_output_enabled(no_color: Option<&str>) -> (enabled: bool)
    ensures
        enabled == (no_color is None),
{
    no_color.is_none()
}

} // verus!
