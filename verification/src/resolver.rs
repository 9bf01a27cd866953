//! The search for a cargo that can build the runtime.
//!
//! The search asks toolchains what they are, one after the other, and stops
//! at the first that will do:
//!
//! 1. A toolchain that the user names is taken, whatever it reports.
//! 2. Else the cargo that runs the build is taken, if it can build the
//!    runtime.
//! 3. Else the cargo that is found under its plain name, if it can.
//! 4. Else rustup is asked for the toolchains it has installed, each of them
//!    is queried, and the newest that can build the runtime is taken.
//! 5. Else there is none.
//!
//! The search runs no process itself. A `Resolver` says which process it
//! wants run next (`request`) and is told what came of it (`step`), until a
//! step ends the search.

use crate::command::CargoCommand;
use crate::command::CargoCommandView;
use crate::command::Probe;
use crate::environment::Environment;
use crate::environment::Settings;
use crate::rustup::get_rustup_command;
use crate::rustup::installed_toolchains;
use crate::rustup::newest;
use crate::rustup::parse_toolchain_list;
use crate::rustup::run_cargo_of;
use crate::rustup::rustup_run_args;
use crate::rustup::view_of;
use crate::rustup::views;
use crate::rustup::RUSTUP;
use crate::target::RuntimeTarget;
use vstd::prelude::*;

verus! {

/// The name under which cargo is found when nothing says where it is.
pub const DEFAULT_CARGO: &'static str = "cargo";

/// What a `Resolver` wants done next.
#[derive(Debug)]
pub enum Request {
    /// Put the two queries to the cargo that `program` and `args` invoke.
    Probe { program: String, args: Vec<String> },
    /// Ask rustup for the toolchains it has installed.
    ListToolchains,
}

/// A `Request`, with each text as its characters.
pub ghost enum RequestView {
    Probe { program: Seq<char>, args: Seq<Seq<char>> },
    ListToolchains,
}

impl View for Request {
    type V = RequestView;

    open spec fn view(&self) -> RequestView {
        match self {
            Request::Probe { program, args } => RequestView::Probe {
                program: program@,
                args: args.deep_view(),
            },
            Request::ListToolchains => RequestView::ListToolchains,
        }
    }
}

/// What came of a `Request`.
#[derive(Debug)]
pub enum Reply {
    /// What the two queries gave.
    Probed(Probe),
    /// What rustup printed when asked for its toolchains, or `None` if it
    /// could not be started.
    Listed(Option<Vec<u8>>),
}

/// How far a search has come.
#[derive(Debug)]
enum Search {
    Pinned { toolchain: String },
    EnvCargo,
    DefaultCargo,
    Listing,
    Installed { toolchains: Vec<String>, candidates: Vec<CargoCommand> },
}

/// How far a search has come, with each text as its characters.
pub ghost enum SearchView {
    /// The toolchain that the user named is being queried.
    Pinned { toolchain: Seq<char> },
    /// The cargo that runs the build is being queried.
    EnvCargo,
    /// The cargo of the plain name is being queried.
    DefaultCargo,
    /// rustup is being asked for its toolchains.
    Listing,
    /// The installed `toolchains` are being queried in turn. `candidates`
    /// are those that have answered, and the next in turn is being queried.
    Installed { toolchains: Seq<Seq<char>>, candidates: Seq<CargoCommandView> },
}

impl View for Search {
    type V = SearchView;

    closed spec fn view(&self) -> SearchView {
        match self {
            Search::Pinned { toolchain } => SearchView::Pinned { toolchain: toolchain@ },
            Search::EnvCargo => SearchView::EnvCargo,
            Search::DefaultCargo => SearchView::DefaultCargo,
            Search::Listing => SearchView::Listing,
            Search::Installed { toolchains, candidates } => SearchView::Installed {
                toolchains: toolchains.deep_view(),
                candidates: views(candidates@),
            },
        }
    }
}

/// A search for a cargo that can build a runtime for a target, under way.
#[derive(Debug)]
pub struct Resolver {
    target: RuntimeTarget,
    env: Environment,
    search: Search,
}

/// A `Resolver`, with each text as its characters.
pub ghost struct ResolverView {
    pub target: RuntimeTarget,
    pub env: Settings,
    pub search: SearchView,
}

/// What a step of a search leads to.
#[derive(Debug)]
pub enum Step {
    /// The search goes on.
    Next(Resolver),
    /// The search is over. It has found the cargo to build with, or learned
    /// that no toolchain will do.
    Done(Option<CargoCommand>),
}

/// A `Step`, with each text as its characters.
pub ghost enum StepView {
    Next(ResolverView),
    Done(Option<CargoCommandView>),
}

impl View for Step {
    type V = StepView;

    open spec fn view(&self) -> StepView {
        match self {
            Step::Next(resolver) => StepView::Next(resolver@),
            Step::Done(chosen) => StepView::Done(view_of(*chosen)),
        }
    }
}

impl ResolverView {
    /// The search for `target` under `env`, before anything was asked.
    pub open spec fn start(target: RuntimeTarget, env: Settings) -> ResolverView {
        ResolverView {
            target,
            env,
            search: match env.toolchain {
                Some(toolchain) => SearchView::Pinned { toolchain },
                None => SearchView::EnvCargo,
            },
        }
    }

    /// While toolchains are queried in turn, one is still to answer.
    pub open spec fn wf(self) -> bool {
        self.search matches SearchView::Installed { toolchains, candidates }
            ==> candidates.len() < toolchains.len()
    }

    /// This search, come as far as `search`.
    pub open spec fn go_on(self, search: SearchView) -> StepView {
        StepView::Next(ResolverView { search, ..self })
    }

    /// Whether `command` can build a runtime for the target of the search.
    pub open spec fn accepts(self, command: CargoCommandView) -> bool {
        command.supports(self.target, self.env.rustc_bootstrap)
    }

    /// What the search wants done next.
    pub open spec fn request(self) -> RequestView {
        match self.search {
            SearchView::Pinned { toolchain } => RequestView::Probe {
                program: RUSTUP@,
                args: run_cargo_of(toolchain),
            },
            SearchView::EnvCargo => RequestView::Probe {
                program: self.env.cargo,
                args: Seq::empty(),
            },
            SearchView::DefaultCargo => RequestView::Probe {
                program: DEFAULT_CARGO@,
                args: Seq::empty(),
            },
            SearchView::Listing => RequestView::ListToolchains,
            SearchView::Installed { toolchains, candidates } => RequestView::Probe {
                program: RUSTUP@,
                args: run_cargo_of(toolchains[candidates.len() as int]),
            },
        }
    }

    /// What `reply` leads to when it comes in. A reply of a kind that was
    /// not asked for leaves the search where it is.
    pub open spec fn step(self, reply: Reply) -> StepView {
        match (self.search, reply) {
            (SearchView::Pinned { toolchain }, Reply::Probed(probe)) => StepView::Done(
                Some(CargoCommandView::probed(RUSTUP@, run_cargo_of(toolchain), probe)),
            ),
            (SearchView::EnvCargo, Reply::Probed(probe)) => {
                let command = CargoCommandView::probed(self.env.cargo, Seq::empty(), probe);
                if self.accepts(command) {
                    StepView::Done(Some(command))
                } else {
                    self.go_on(SearchView::DefaultCargo)
                }
            },
            (SearchView::DefaultCargo, Reply::Probed(probe)) => {
                let command = CargoCommandView::probed(DEFAULT_CARGO@, Seq::empty(), probe);
                if self.accepts(command) {
                    StepView::Done(Some(command))
                } else {
                    self.go_on(SearchView::Listing)
                }
            },
            (SearchView::Listing, Reply::Listed(None)) => StepView::Done(None),
            (SearchView::Listing, Reply::Listed(Some(output))) => {
                let toolchains = installed_toolchains(output@);
                if toolchains.len() == 0 {
                    StepView::Done(None)
                } else {
                    self.go_on(SearchView::Installed { toolchains, candidates: Seq::empty() })
                }
            },
            (SearchView::Installed { toolchains, candidates }, Reply::Probed(probe)) => {
                let command = CargoCommandView::probed(
                    RUSTUP@,
                    run_cargo_of(toolchains[candidates.len() as int]),
                    probe,
                );
                let candidates = candidates.push(command);
                if candidates.len() >= toolchains.len() {
                    StepView::Done(newest(candidates, self.target, self.env.rustc_bootstrap))
                } else {
                    self.go_on(SearchView::Installed { toolchains, candidates })
                }
            },
            _ => StepView::Next(self),
        }
    }
}

impl View for Resolver {
    type V = ResolverView;

    closed spec fn view(&self) -> ResolverView {
        ResolverView { target: self.target, env: self.env@, search: self.search@ }
    }
}

impl Resolver {
    #[verifier::type_invariant]
    spec fn well_formed(&self) -> bool {
        self@.wf()
    }

    /// Begins the search for a cargo that can build a runtime for `target`,
    /// under the environment `env`.
    pub fn new(target: RuntimeTarget, env: Environment) -> (resolver: Resolver)
        ensures
            resolver@ == ResolverView::start(target, env@),
    {
        let search = match &env.toolchain {
            Some(toolchain) => Search::Pinned { toolchain: toolchain.clone() },
            None => Search::EnvCargo,
        };
        Resolver { target, env, search }
    }

    /// The target that a cargo is sought for.
    pub fn target(&self) -> (target: RuntimeTarget)
        ensures
            target == self@.target,
    {
        self.target
    }

    /// What the search wants done next.
    pub fn request(&self) -> (request: Request)
        ensures
            request@ == self@.request(),
    {
        proof {
            use_type_invariant(self);
        }
        match &self.search {
            Search::Pinned { toolchain } => Request::Probe {
                program: RUSTUP.to_owned(),
                args: rustup_run_args(toolchain.as_str()),
            },
            Search::EnvCargo => {
                let args: Vec<String> = Vec::new();
                assert(args.deep_view() == Seq::<Seq<char>>::empty());
                Request::Probe { program: self.env.cargo.clone(), args }
            },
            Search::DefaultCargo => {
                let args: Vec<String> = Vec::new();
                assert(args.deep_view() == Seq::<Seq<char>>::empty());
                Request::Probe { program: DEFAULT_CARGO.to_owned(), args }
            },
            Search::Listing => Request::ListToolchains,
            Search::Installed { toolchains, candidates } => {
                assert(toolchains.deep_view()[candidates.len() as int]
                    == toolchains@[candidates.len() as int]@);
                Request::Probe {
                    program: RUSTUP.to_owned(),
                    args: rustup_run_args(toolchains[candidates.len()].as_str()),
                }
            },
        }
    }

    /// Takes in what came of the last request, and moves the search on or
    /// ends it.
    pub fn step(self, reply: Reply) -> (step: Step)
        ensures
            step@ == self@.step(reply),
            step matches Step::Next(next) ==> next@.wf(),
    {
        proof {
            use_type_invariant(&self);
        }
        let Resolver { target, env, search } = self;
        match (search, reply) {
            (Search::Pinned { toolchain }, Reply::Probed(probe)) => {
                let command = CargoCommand::from_parts(
                    RUSTUP.to_owned(),
                    rustup_run_args(toolchain.as_str()),
                    &probe,
                );
                Step::Done(Some(command))
            },
            (Search::EnvCargo, Reply::Probed(probe)) => {
                let command = CargoCommand::new(env.cargo.as_str(), &probe);
                if command.supports_substrate_runtime_env(target, &env) {
                    Step::Done(Some(command))
                } else {
                    Step::Next(Resolver { target, env, search: Search::DefaultCargo })
                }
            },
            (Search::DefaultCargo, Reply::Probed(probe)) => {
                let command = CargoCommand::new(DEFAULT_CARGO, &probe);
                if command.supports_substrate_runtime_env(target, &env) {
                    Step::Done(Some(command))
                } else {
                    Step::Next(Resolver { target, env, search: Search::Listing })
                }
            },
            (Search::Listing, Reply::Listed(None)) => Step::Done(None),
            (Search::Listing, Reply::Listed(Some(output))) => {
                let toolchains = parse_toolchain_list(output.as_slice());
                if toolchains.len() == 0 {
                    Step::Done(None)
                } else {
                    let candidates: Vec<CargoCommand> = Vec::new();
                    assert(views(candidates@) == Seq::<CargoCommandView>::empty());
                    Step::Next(
                        Resolver { target, env, search: Search::Installed { toolchains, candidates } },
                    )
                }
            },
            (Search::Installed { toolchains, candidates }, Reply::Probed(probe)) => {
                let mut candidates = candidates;
                let ghost before = views(candidates@);
                assert(toolchains.deep_view()[candidates.len() as int]
                    == toolchains@[candidates.len() as int]@);
                let command = CargoCommand::from_parts(
                    RUSTUP.to_owned(),
                    rustup_run_args(toolchains[candidates.len()].as_str()),
                    &probe,
                );
                candidates.push(command);
                assert(views(candidates@) == before.push(command@));
                if candidates.len() >= toolchains.len() {
                    Step::Done(get_rustup_command(target, &env, &candidates))
                } else {
                    Step::Next(
                        Resolver { target, env, search: Search::Installed { toolchains, candidates } },
                    )
                }
            },
            (search, _) => Step::Next(Resolver { target, env, search }),
        }
    }
}

/// What the processes that a search may ask for would give: each query of a
/// cargo, and the question to rustup.
pub ghost struct World {
    /// What the two queries give when put to the cargo of a program and its
    /// arguments.
    pub probe: spec_fn(Seq<char>, Seq<Seq<char>>) -> Probe,
    /// What rustup prints when asked for its toolchains, or `None` if it
    /// cannot be started.
    pub toolchain_list: Option<Vec<u8>>,
}

impl World {
    /// What comes of `request` in this world.
    pub open spec fn answer(self, request: RequestView) -> Reply {
        match request {
            RequestView::Probe { program, args } => Reply::Probed((self.probe)(program, args)),
            RequestView::ListToolchains => Reply::Listed(self.toolchain_list),
        }
    }

    /// The command of `program` and `args`, with what its queries give in
    /// this world.
    pub open spec fn command(self, program: Seq<char>, args: Seq<Seq<char>>) -> CargoCommandView {
        CargoCommandView::probed(program, args, (self.probe)(program, args))
    }

    /// The commands that run the cargo of each of `toolchains` through
    /// rustup, in their order.
    pub open spec fn rustup_commands(self, toolchains: Seq<Seq<char>>) -> Seq<CargoCommandView> {
        toolchains.map_values(|toolchain: Seq<char>| self.command(RUSTUP@, run_cargo_of(toolchain)))
    }

    /// The toolchains that rustup has installed in this world.
    pub open spec fn toolchains(self) -> Seq<Seq<char>> {
        match self.toolchain_list {
            Some(output) => installed_toolchains(output@),
            None => Seq::empty(),
        }
    }
}

/// The cargo that builds a runtime for `target` under `env` in `world`:
/// the toolchain that the user names, if one is named; else the cargo that
/// runs the build, if it can build the runtime; else the cargo of the plain
/// name, if it can; else the newest of the installed toolchains that can.
pub open spec fn resolve(target: RuntimeTarget, env: Settings, world: World) -> Option<
    CargoCommandView,
> {
    let env_cargo = world.command(env.cargo, Seq::empty());
    let default_cargo = world.command(DEFAULT_CARGO@, Seq::empty());
    match env.toolchain {
        Some(toolchain) => Some(world.command(RUSTUP@, run_cargo_of(toolchain))),
        None => if env_cargo.supports(target, env.rustc_bootstrap) {
            Some(env_cargo)
        } else if default_cargo.supports(target, env.rustc_bootstrap) {
            Some(default_cargo)
        } else {
            newest(world.rustup_commands(world.toolchains()), target, env.rustc_bootstrap)
        },
    }
}

/// What comes of the search `resolver` when each of its requests is answered
/// as `world` answers it: what the search ends with, or `None` if it is not
/// over after `steps` requests.
pub open spec fn run(resolver: ResolverView, world: World, steps: nat) -> Option<
    Option<CargoCommandView>,
>
    decreases steps,
{
    if steps == 0 {
        None
    } else {
        match resolver.step(world.answer(resolver.request())) {
            StepView::Done(chosen) => Some(chosen),
            StepView::Next(next) => run(next, world, (steps - 1) as nat),
        }
    }
}

/// A search that queries the installed toolchains in turn, and has so far got
/// the answers that `world` gives, ends with the newest of them that can
/// build the runtime, once each of the remaining ones has answered.
proof fn lemma_installed_resolves(resolver: ResolverView, world: World, steps: nat)
    requires
        resolver.search matches SearchView::Installed { toolchains, candidates }
            && candidates.len() < toolchains.len() && candidates == world.rustup_commands(
            toolchains.take(candidates.len() as int),
        ) && steps >= toolchains.len() - candidates.len(),
    ensures
        run(resolver, world, steps) == Some(
            newest(
                world.rustup_commands(resolver.search->Installed_toolchains),
                resolver.target,
                resolver.env.rustc_bootstrap,
            ),
        ),
    decreases steps,
{
    let toolchains = resolver.search->Installed_toolchains;
    let candidates = resolver.search->Installed_candidates;
    let k = candidates.len() as int;
    let more = candidates.push(world.command(RUSTUP@, run_cargo_of(toolchains[k])));
    assert(more == world.rustup_commands(toolchains.take(k + 1))) by {
        assert(toolchains.take(k + 1) == toolchains.take(k).push(toolchains[k]));
    }
    match resolver.step(world.answer(resolver.request())) {
        StepView::Done(chosen) => {
            assert(toolchains.take(k + 1) == toolchains);
        },
        StepView::Next(next) => {
            assert(next.search == SearchView::Installed { toolchains, candidates: more });
            lemma_installed_resolves(next, world, (steps - 1) as nat);
        },
    }
}

/// A search comes to an end, and what comes of it is what `resolve` says:
/// it is over after three requests and one more for each installed
/// toolchain, if not before.
pub proof fn lemma_search_resolves(target: RuntimeTarget, env: Settings, world: World, steps: nat)
    requires
        steps >= 3 + world.toolchains().len(),
    ensures
        run(ResolverView::start(target, env), world, steps) == Some(resolve(target, env, world)),
{
    let start = ResolverView::start(target, env);
    match start.step(world.answer(start.request())) {
        StepView::Done(chosen) => {},
        StepView::Next(second) => {
            assert(second.search is DefaultCargo);
            assert(run(start, world, steps) == run(second, world, (steps - 1) as nat));
            match second.step(world.answer(second.request())) {
                StepView::Done(chosen) => {},
                StepView::Next(third) => {
                    assert(third.search is Listing);
                    assert(run(second, world, (steps - 1) as nat) == run(
                        third,
                        world,
                        (steps - 2) as nat,
                    ));
                    match third.step(world.answer(third.request())) {
                        StepView::Done(chosen) => {
                            assert(world.rustup_commands(world.toolchains()) == Seq::<
                                CargoCommandView,
                            >::empty());
                        },
                        StepView::Next(fourth) => {
                            let toolchains = world.toolchains();
                            assert(toolchains.take(0) == Seq::<Seq<char>>::empty());
                            assert(world.rustup_commands(toolchains.take(0)) == Seq::<
                                CargoCommandView,
                            >::empty());
                            assert(run(third, world, (steps - 2) as nat) == run(
                                fourth,
                                world,
                                (steps - 3) as nat,
                            ));
                            lemma_installed_resolves(fourth, world, (steps - 3) as nat);
                        },
                    }
                },
            }
        },
    }
}

/// More requests than a search needs change nothing: what it has ended with
/// stays.
pub proof fn lemma_run_is_stable(resolver: ResolverView, world: World, steps: nat, more: nat)
    requires
        run(resolver, world, steps) is Some,
    ensures
        run(resolver, world, steps + more) == run(resolver, world, steps),
    decreases steps,
{
    match resolver.step(world.answer(resolver.request())) {
        StepView::Done(chosen) => {},
        StepView::Next(next) => {
            lemma_run_is_stable(next, world, (steps - 1) as nat, more);
        },
    }
}

/// A search that is made again, with the environment unchanged and each
/// process giving what it gave before, ends as it ended before: with the
/// choice that `resolve` names.
pub proof fn lemma_resolution_is_repeatable(
    target: RuntimeTarget,
    env: Settings,
    world: World,
    first: nat,
    second: nat,
)
    requires
        run(ResolverView::start(target, env), world, first) is Some,
        run(ResolverView::start(target, env), world, second) is Some,
    ensures
        run(ResolverView::start(target, env), world, first) == run(
            ResolverView::start(target, env),
            world,
            second,
        ),
        run(ResolverView::start(target, env), world, first) == Some(resolve(target, env, world)),
{
    let start = ResolverView::start(target, env);
    let enough = 3 + world.toolchains().len();
    lemma_run_is_stable(start, world, first, second + enough);
    lemma_run_is_stable(start, world, second, first + enough);
    lemma_search_resolves(target, env, world, first + second + enough);
}

/// A toolchain that the user names is taken whatever it reports: whether it
/// can build the runtime is not asked.
pub proof fn lemma_pinned_toolchain_is_taken(target: RuntimeTarget, env: Settings, world: World)
    requires
        env.toolchain is Some,
    ensures
        resolve(target, env, world) == Some(
            world.command(RUSTUP@, run_cargo_of(env.toolchain->0)),
        ),
        run(ResolverView::start(target, env), world, 1) == Some(resolve(target, env, world)),
{
}

} // verus!
