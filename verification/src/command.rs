//! A way to invoke cargo, with what was learned of the toolchain behind it.

use crate::environment::Environment;
use crate::scan::parse_version;
use crate::target::RuntimeTarget;
use crate::target_list::listed_targets;
use crate::target_list::TargetList;
use crate::text::text_of;
use crate::version::Version;
use vstd::prelude::*;
use vstd::utf8::decode_utf8;
use vstd::utf8::valid_utf8;

verus! {

/// What a process left behind when it ended.
#[derive(Debug)]
pub struct ProcessOutput {
    /// Whether the process ended by itself and reported success.
    pub success: bool,
    /// What it wrote to its standard output.
    pub stdout: Vec<u8>,
}

/// What the two queries that are put to a toolchain gave. A query whose
/// process could not be started gave nothing.
#[derive(Debug)]
pub struct Probe {
    /// What the query for the version gave.
    pub version: Option<ProcessOutput>,
    /// What the query for the list of targets gave.
    pub target_list: Option<ProcessOutput>,
}

/// A process to run: the program, its arguments, and the variables that are
/// taken out of its environment.
#[derive(Debug)]
pub struct Invocation {
    pub program: String,
    pub args: Vec<String>,
    pub env_remove: Vec<String>,
}

/// An `Invocation`, with each text as its characters.
pub ghost struct InvocationView {
    pub program: Seq<char>,
    pub args: Seq<Seq<char>>,
    pub env_remove: Seq<Seq<char>>,
}

impl View for Invocation {
    type V = InvocationView;

    open spec fn view(&self) -> InvocationView {
        InvocationView {
            program: self.program@,
            args: self.args.deep_view(),
            env_remove: self.env_remove.deep_view(),
        }
    }
}

/// The text that a query gave: what the process wrote, if it was started,
/// reported success and wrote valid UTF-8.
pub open spec fn reported_text(output: Option<ProcessOutput>) -> Option<Seq<char>> {
    match output {
        Some(o) => if o.success && valid_utf8(o.stdout@) {
            Some(decode_utf8(o.stdout@))
        } else {
            None
        },
        None => None,
    }
}

/// The version that a query for it gave.
pub open spec fn reported_version(output: Option<ProcessOutput>) -> Option<Version> {
    match reported_text(output) {
        Some(text) => parse_version(text),
        None => None,
    }
}

/// The targets that a query for them gave.
pub open spec fn reported_targets(output: Option<ProcessOutput>) -> Option<Set<Seq<char>>> {
    match reported_text(output) {
        Some(text) => Some(listed_targets(text)),
        None => None,
    }
}

/// The arguments that ask cargo for its version.
pub open spec fn version_flags() -> Seq<Seq<char>> {
    seq!["--version"@]
}

/// The arguments that ask cargo for the targets that its `rustc` knows.
pub open spec fn target_list_flags() -> Seq<Seq<char>> {
    seq!["rustc"@, "-Z"@, "unstable-options"@, "--print"@, "target-list"@]
}

/// The oldest stable release that can build a runtime for `Wasm`.
pub open spec fn minimum_stable() -> Version {
    Version { major: 1, minor: 68, patch: 0, is_nightly: false }
}

/// The oldest stable release that can build a runtime for `Wasm`.
pub fn minimum_stable_version() -> (v: Version)
    ensures
        v == minimum_stable(),
{
    Version { major: 1, minor: 68, patch: 0, is_nightly: false }
}

/// A way to invoke cargo: a program and the arguments that come first, with
/// the version and the targets that the toolchain behind it reported.
#[derive(Debug)]
pub struct CargoCommand {
    program: String,
    args: Vec<String>,
    version: Option<Version>,
    target_list: Option<TargetList>,
}

/// A `CargoCommand`, with each text as its characters.
pub ghost struct CargoCommandView {
    pub program: Seq<char>,
    pub args: Seq<Seq<char>>,
    pub version: Option<Version>,
    pub target_list: Option<Set<Seq<char>>>,
}

impl CargoCommandView {
    /// The command for `program` and `args` whose queries gave `probe`.
    pub open spec fn probed(program: Seq<char>, args: Seq<Seq<char>>, probe: Probe) -> Self {
        CargoCommandView {
            program,
            args,
            version: reported_version(probe.version),
            target_list: reported_targets(probe.target_list),
        }
    }

    /// The toolchain accepts unstable features: it is a nightly, or
    /// `RUSTC_BOOTSTRAP` makes it behave as one.
    pub open spec fn supports_nightly(self, rustc_bootstrap: bool) -> bool {
        rustc_bootstrap || (self.version matches Some(v) && v.is_nightly)
    }

    /// The toolchain can build a runtime for `Wasm`: it accepts unstable
    /// features, or its release is `minimum_stable()` or a later one.
    pub open spec fn supports_wasm(self, rustc_bootstrap: bool) -> bool {
        rustc_bootstrap || (self.version matches Some(v) && (v.at_least(minimum_stable())
            || v.is_nightly))
    }

    /// The toolchain can build a runtime for `Riscv`: it lists that target.
    pub open spec fn supports_riscv(self) -> bool {
        self.target_list matches Some(targets) && targets.contains(RuntimeTarget::Riscv.triple())
    }

    /// The toolchain can build a runtime for `target`.
    pub open spec fn supports(self, target: RuntimeTarget, rustc_bootstrap: bool) -> bool {
        match target {
            RuntimeTarget::Wasm => self.supports_wasm(rustc_bootstrap),
            RuntimeTarget::Riscv => self.supports_riscv(),
        }
    }
}

/// When a toolchain can build a runtime for `Wasm`: always under
/// `RUSTC_BOOTSTRAP`; else never if it reported no version, and if it
/// reported one, exactly if that is a nightly or of release 1.68.0 or later,
/// nightly or not.
pub proof fn lemma_wasm_support(command: CargoCommandView, rustc_bootstrap: bool)
    ensures
        rustc_bootstrap ==> command.supports(RuntimeTarget::Wasm, rustc_bootstrap),
        !rustc_bootstrap && command.version is None ==> !command.supports(
            RuntimeTarget::Wasm,
            rustc_bootstrap,
        ),
        command.version matches Some(v) && (v.major > 1 || (v.major == 1 && v.minor >= 68))
            ==> command.supports(RuntimeTarget::Wasm, rustc_bootstrap),
        command.version matches Some(v) && v.is_nightly ==> command.supports(
            RuntimeTarget::Wasm,
            rustc_bootstrap,
        ),
        !rustc_bootstrap && (command.version matches Some(v) && !v.is_nightly && (v.major == 0 || (
        v.major == 1 && v.minor < 68))) ==> !command.supports(RuntimeTarget::Wasm, rustc_bootstrap),
{
}

/// When a toolchain can build a runtime for `Riscv`: exactly if it listed
/// its targets and the triple of `Riscv` is one of them. Its version and
/// `RUSTC_BOOTSTRAP` have no part in it, and no other target in the list
/// stands in for the triple.
pub proof fn lemma_riscv_support(command: CargoCommandView, rustc_bootstrap: bool)
    ensures
        command.supports(RuntimeTarget::Riscv, rustc_bootstrap) <==> (command.target_list matches Some(
            targets,
        ) && targets.contains(RuntimeTarget::Riscv.triple())),
        command.target_list is None ==> !command.supports(RuntimeTarget::Riscv, rustc_bootstrap),
        forall|other: Seq<char>|
            other != RuntimeTarget::Riscv.triple() && command.target_list == Some(
                Set::<Seq<char>>::empty().insert(other),
            ) ==> !command.supports(RuntimeTarget::Riscv, rustc_bootstrap),
{
}

/// The set of targets of `list`, if there is one.
pub open spec fn targets_of(list: Option<TargetList>) -> Option<Set<Seq<char>>> {
    match list {
        Some(l) => Some(l@),
        None => None,
    }
}

impl View for CargoCommand {
    type V = CargoCommandView;

    closed spec fn view(&self) -> CargoCommandView {
        CargoCommandView {
            program: self.program@,
            args: self.args.deep_view(),
            version: self.version,
            target_list: targets_of(self.target_list),
        }
    }
}

impl Clone for CargoCommand {
    fn clone(&self) -> (copy: CargoCommand)
        ensures
            copy@ == self@,
    {
        let args = self.args.clone();
        assert(args.deep_view() =~= self.args.deep_view());
        let target_list = match &self.target_list {
            Some(list) => Some(list.clone()),
            None => None,
        };
        CargoCommand { program: self.program.clone(), args, version: self.version, target_list }
    }
}

/// The texts of `texts` as owned strings.
fn to_strings(texts: &[&str]) -> (strings: Vec<String>)
    ensures
        strings.deep_view() == texts.deep_view(),
{
    let mut strings: Vec<String> = Vec::new();
    let mut i: usize = 0;
    while i < texts.len()
        invariant
            i <= texts.len(),
            strings.deep_view() == texts.deep_view().take(i as int),
        decreases texts.len() - i,
    {
        let ghost before = strings.deep_view();
        strings.push(texts[i].to_owned());
        assert(strings.deep_view() == before.push(texts[i as int]@));
        assert(texts.deep_view().take(i + 1) == texts.deep_view().take(i as int).push(
            texts[i as int]@,
        ));
        i += 1;
    }
    assert(texts.deep_view().take(i as int) == texts.deep_view());
    strings
}

/// `args`, followed by `flags`.
fn with_flags(args: &Vec<String>, flags: &[&str]) -> (all: Vec<String>)
    ensures
        all.deep_view() == args.deep_view() + flags.deep_view(),
{
    let mut all = args.clone();
    assert(all.deep_view() =~= args.deep_view());
    let mut i: usize = 0;
    while i < flags.len()
        invariant
            i <= flags.len(),
            all.deep_view() == args.deep_view() + flags.deep_view().take(i as int),
        decreases flags.len() - i,
    {
        let ghost before = all.deep_view();
        all.push(flags[i].to_owned());
        assert(all.deep_view() == before.push(flags[i as int]@));
        assert(flags.deep_view().take(i + 1) == flags.deep_view().take(i as int).push(
            flags[i as int]@,
        ));
        i += 1;
    }
    assert(flags.deep_view().take(i as int) == flags.deep_view());
    all
}

impl CargoCommand {
    /// The command that invokes `program` without arguments, with what its
    /// queries gave.
    pub fn new(program: &str, probe: &Probe) -> (command: CargoCommand)
        ensures
            command@ == CargoCommandView::probed(program@, Seq::empty(), *probe),
    {
        let args: Vec<String> = Vec::new();
        assert(args.deep_view() == Seq::<Seq<char>>::empty());
        CargoCommand::from_parts(program.to_owned(), args, probe)
    }

    /// The command that invokes `program` with `args` before anything else,
    /// with what its queries gave.
    pub fn new_with_args(program: &str, args: &[&str], probe: &Probe) -> (command: CargoCommand)
        ensures
            command@ == CargoCommandView::probed(program@, args.deep_view(), *probe),
    {
        CargoCommand::from_parts(program.to_owned(), to_strings(args), probe)
    }

    /// The command of `program` and `args`, with what its queries gave.
    pub(crate) fn from_parts(program: String, args: Vec<String>, probe: &Probe) -> (command:
        CargoCommand)
        ensures
            command@ == CargoCommandView::probed(program@, args.deep_view(), *probe),
    {
        let version = CargoCommand::extract_version(&probe.version);
        let target_list = CargoCommand::extract_target_list(&probe.target_list);
        CargoCommand { program, args, version, target_list }
    }

    /// The process that this command starts when nothing is added to it.
    pub fn command(&self) -> (invocation: Invocation)
        ensures
            invocation@ == (InvocationView {
                program: self@.program,
                args: self@.args,
                env_remove: Seq::empty(),
            }),
    {
        let args = self.args.clone();
        assert(args.deep_view() =~= self.args.deep_view());
        let env_remove: Vec<String> = Vec::new();
        assert(env_remove.deep_view() == Seq::<Seq<char>>::empty());
        Invocation { program: self.program.clone(), args, env_remove }
    }

    /// The process that asks the cargo of `program` and `args` for its
    /// version.
    pub fn version_query(program: &str, args: &Vec<String>) -> (query: Invocation)
        ensures
            query@ == (InvocationView {
                program: program@,
                args: args.deep_view() + version_flags(),
                env_remove: Seq::empty(),
            }),
    {
        let flags: [&str; 1] = ["--version"];
        assert(flags.deep_view() == version_flags());
        let env_remove: Vec<String> = Vec::new();
        assert(env_remove.deep_view() == Seq::<Seq<char>>::empty());
        Invocation { program: program.to_owned(), args: with_flags(args, &flags), env_remove }
    }

    /// The process that asks the cargo of `program` and `args` for the
    /// targets that its `rustc` knows.
    ///
    /// `RUSTC` is taken out of its environment: inside a build script that
    /// variable names the compiler of the host, which would else answer in
    /// place of the toolchain that is asked.
    pub fn target_list_query(program: &str, args: &Vec<String>) -> (query: Invocation)
        ensures
            query@ == (InvocationView {
                program: program@,
                args: args.deep_view() + target_list_flags(),
                env_remove: seq!["RUSTC"@],
            }),
    {
        let flags: [&str; 5] = ["rustc", "-Z", "unstable-options", "--print", "target-list"];
        assert(flags.deep_view() == target_list_flags());
        let removed: [&str; 1] = ["RUSTC"];
        assert(removed.deep_view() == seq!["RUSTC"@]);
        Invocation {
            program: program.to_owned(),
            args: with_flags(args, &flags),
            env_remove: to_strings(&removed),
        }
    }

    /// The version that the query for it gave: the one that the process
    /// printed, if it was started, reported success and printed a text that
    /// holds one.
    pub fn extract_version(output: &Option<ProcessOutput>) -> (version: Option<Version>)
        ensures
            version == reported_version(*output),
    {
        match output {
            Some(o) => {
                if !o.success {
                    return None;
                }
                match text_of(o.stdout.as_slice()) {
                    Some(text) => Version::extract(text),
                    None => None,
                }
            },
            None => None,
        }
    }

    /// The targets that the query for them gave: the lines that the process
    /// printed, if it was started, reported success and printed a text.
    pub fn extract_target_list(output: &Option<ProcessOutput>) -> (list: Option<TargetList>)
        ensures
            targets_of(list) == reported_targets(*output),
    {
        match output {
            Some(o) => {
                if !o.success {
                    return None;
                }
                match text_of(o.stdout.as_slice()) {
                    Some(text) => Some(TargetList::parse(text)),
                    None => None,
                }
            },
            None => None,
        }
    }

    /// The program that this command invokes.
    pub fn program(&self) -> (program: &str)
        ensures
            program@ == self@.program,
    {
        self.program.as_str()
    }

    /// The arguments that come first when this command is invoked.
    pub fn args(&self) -> (args: &Vec<String>)
        ensures
            args.deep_view() == self@.args,
    {
        &self.args
    }

    /// The version of this cargo, or `None` if it did not report one.
    pub fn version(&self) -> (version: Option<Version>)
        ensures
            version == self@.version,
    {
        self.version
    }

    /// The targets that the toolchain lists, or `None` if it did not list
    /// any.
    pub fn target_list(&self) -> (list: Option<&TargetList>)
        ensures
            match list {
                Some(l) => self@.target_list == Some(l@),
                None => self@.target_list is None,
            },
    {
        self.target_list.as_ref()
    }

    /// Whether the toolchain accepts unstable features.
    pub fn supports_nightly_features(&self, env: &Environment) -> (r: bool)
        ensures
            r == self@.supports_nightly(env@.rustc_bootstrap),
    {
        env.rustc_bootstrap || match self.version {
            Some(version) => version.is_nightly,
            None => false,
        }
    }

    /// Whether the toolchain can build a runtime for `target`.
    pub fn supports_substrate_runtime_env(&self, target: RuntimeTarget, env: &Environment) -> (r:
        bool)
        ensures
            r == self@.supports(target, env@.rustc_bootstrap),
    {
        match target {
            RuntimeTarget::Wasm => self.supports_substrate_runtime_env_wasm(env),
            RuntimeTarget::Riscv => self.supports_substrate_runtime_env_riscv(),
        }
    }

    /// Whether the toolchain can build a runtime for `Riscv`.
    ///
    /// No upstream toolchain knows that target. One that lists it was built
    /// for the purpose and has all that is needed, whatever its version.
    pub fn supports_substrate_runtime_env_riscv(&self) -> (r: bool)
        ensures
            r == self@.supports_riscv(),
    {
        match &self.target_list {
            Some(list) => list.contains(RuntimeTarget::Riscv.rustc_target()),
            None => false,
        }
    }

    /// Whether the toolchain can build a runtime for `Wasm`.
    ///
    /// `RUSTC_BOOTSTRAP` makes a stable compiler behave like a nightly, so
    /// with it set any toolchain will do. Else the cargo must be a nightly or
    /// of release `minimum_stable()` at least; cargo and `rustc` are taken to
    /// be of one version.
    pub fn supports_substrate_runtime_env_wasm(&self, env: &Environment) -> (r: bool)
        ensures
            r == self@.supports_wasm(env@.rustc_bootstrap),
    {
        if env.rustc_bootstrap {
            return true;
        }
        match self.version {
            Some(version) => version.is_at_least(&minimum_stable_version()) || version.is_nightly,
            None => false,
        }
    }
}

/// A `CargoCommand` and the version of `rustc` that it uses.
#[derive(Debug)]
pub struct CargoCommandVersioned {
    command: CargoCommand,
    version: String,
}

/// A `CargoCommandVersioned`, with each text as its characters.
pub ghost struct CargoCommandVersionedView {
    pub command: CargoCommandView,
    pub rustc_version: Seq<char>,
}

impl View for CargoCommandVersioned {
    type V = CargoCommandVersionedView;

    closed spec fn view(&self) -> CargoCommandVersionedView {
        CargoCommandVersionedView { command: self.command@, rustc_version: self.version@ }
    }
}

impl Clone for CargoCommandVersioned {
    fn clone(&self) -> (copy: CargoCommandVersioned)
        ensures
            copy@ == self@,
    {
        CargoCommandVersioned { command: self.command.clone(), version: self.version.clone() }
    }
}

impl CargoCommandVersioned {
    /// `command`, together with `version`, which `rustc` reported when
    /// `command` ran it.
    pub fn new(command: CargoCommand, version: String) -> (versioned: CargoCommandVersioned)
        ensures
            versioned@ == (CargoCommandVersionedView {
                command: command@,
                rustc_version: version@,
            }),
    {
        CargoCommandVersioned { command, version }
    }

    /// The version of `rustc`, as it was reported.
    pub fn rustc_version(&self) -> (version: &str)
        ensures
            version@ == self@.rustc_version,
    {
        self.version.as_str()
    }
}

impl core::ops::Deref for CargoCommandVersioned {
    type Target = CargoCommand;

    fn deref(&self) -> (command: &CargoCommand)
        ensures
            command@ == self@.command,
    {
        &self.command
    }
}

} // verus!
