//! The targets that a runtime can be built for.

use vstd::prelude::*;

verus! {

/// The target that the runtime is built for.
#[derive(Copy, Clone, PartialEq, Eq, Structural, Debug)]
pub enum RuntimeTarget {
    Wasm,
    Riscv,
}

impl RuntimeTarget {
    /// The target triple by which `rustc` knows this target.
    pub open spec fn triple(self) -> Seq<char> {
        match self {
            RuntimeTarget::Wasm => "wasm32-unknown-unknown"@,
            RuntimeTarget::Riscv => "riscv32ema-unknown-none-elf"@,
        }
    }

    /// The name of the directory in which this target is built.
    pub open spec fn subdirectory(self) -> Seq<char> {
        match self {
            RuntimeTarget::Wasm => "wbuild"@,
            RuntimeTarget::Riscv => "rbuild"@,
        }
    }

    /// The target triple by which `rustc` knows this target.
    pub fn rustc_target(self) -> (name: &'static str)
        ensures
            name@ == self.triple(),
    {
        match self {
            RuntimeTarget::Wasm => "wasm32-unknown-unknown",
            RuntimeTarget::Riscv => "riscv32ema-unknown-none-elf",
        }
    }

    /// The name of the directory in which this target is built.
    ///
    /// Each target has a directory of its own, so that a build for one target
    /// leaves what was built for the other in place.
    pub fn build_subdirectory(self) -> (name: &'static str)
        ensures
            name@ == self.subdirectory(),
    {
        match self {
            RuntimeTarget::Wasm => "wbuild",
            RuntimeTarget::Riscv => "rbuild",
        }
    }
}

/// Two different targets are built in different directories and have
/// different target triples.
pub proof fn lemma_targets_do_not_collide(a: RuntimeTarget, b: RuntimeTarget)
    requires
        a != b,
    ensures
        a.subdirectory() != b.subdirectory(),
        a.triple() != b.triple(),
{
    reveal_strlit("wbuild");
    reveal_strlit("rbuild");
    reveal_strlit("wasm32-unknown-unknown");
    reveal_strlit("riscv32ema-unknown-none-elf");
    assert("wbuild"@[0] != "rbuild"@[0]);
    assert("wasm32-unknown-unknown"@[0] != "riscv32ema-unknown-none-elf"@[0]);
}

} // verus!
