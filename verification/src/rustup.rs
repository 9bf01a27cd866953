//! The toolchains that rustup has installed, and the choice among them.

use crate::command::CargoCommand;
use crate::command::CargoCommandView;
use crate::command::Invocation;
use crate::command::InvocationView;
use crate::environment::Environment;
use crate::target::RuntimeTarget;
use crate::text::chars_of;
use crate::text::text_of;
use crate::version::lemma_order_is_transitive;
use crate::version::Version;
use vstd::prelude::*;
use vstd::slice::slice_subrange;
use vstd::string::StrSliceExecFns;
use vstd::utf8::decode_utf8;
use vstd::utf8::valid_utf8;

verus! {

/// The program that switches between toolchains.
pub const RUSTUP: &'static str = "rustup";

/// The index of the first line feed of `bytes` at or after `from`, or the
/// length of `bytes`.
pub open spec fn line_end(bytes: Seq<u8>, from: int) -> int
    decreases bytes.len() - from,
{
    if 0 <= from < bytes.len() && bytes[from] != 0x0A {
        line_end(bytes, from + 1)
    } else {
        from
    }
}

/// The line that starts at `from` ends at `from` or later, within `bytes`:
/// at the first line feed, if there is one, and else where `bytes` end.
pub proof fn lemma_line_end(bytes: Seq<u8>, from: int)
    requires
        0 <= from <= bytes.len(),
    ensures
        from <= line_end(bytes, from) <= bytes.len(),
        forall|k: int| from <= k < line_end(bytes, from) ==> bytes[k] != 0x0A,
        line_end(bytes, from) < bytes.len() ==> bytes[line_end(bytes, from)] == 0x0A,
    decreases bytes.len() - from,
{
    if from < bytes.len() && bytes[from] != 0x0A {
        lemma_line_end(bytes, from + 1);
    }
}

/// The line of `bytes` that starts at `from`: the bytes up to the next line
/// feed, without the carriage return that may stand before it, or up to the
/// end of `bytes`.
pub open spec fn line_at(bytes: Seq<u8>, from: int) -> Seq<u8> {
    let end = line_end(bytes, from);
    if from < end < bytes.len() && bytes[end - 1] == 0x0D {
        bytes.subrange(from, end - 1)
    } else {
        bytes.subrange(from, end)
    }
}

/// The index of the first space of `line` at or after `from`, or the length
/// of `line`.
pub open spec fn word_end(line: Seq<char>, from: int) -> int
    decreases line.len() - from,
{
    if 0 <= from < line.len() && line[from] != ' ' {
        word_end(line, from + 1)
    } else {
        from
    }
}

/// The first word of `line` ends within `line`, at its first space if it
/// has one, and holds no space.
pub proof fn lemma_word_end(line: Seq<char>, from: int)
    requires
        0 <= from <= line.len(),
    ensures
        from <= word_end(line, from) <= line.len(),
        forall|k: int| from <= k < word_end(line, from) ==> line[k] != ' ',
        word_end(line, from) < line.len() ==> line[word_end(line, from)] == ' ',
    decreases line.len() - from,
{
    if from < line.len() && line[from] != ' ' {
        lemma_word_end(line, from + 1);
    }
}

/// The toolchain that a line of the list names: the line up to its first
/// space. What follows is a remark, such as `(default)`.
pub open spec fn toolchain_of(line: Seq<char>) -> Seq<char> {
    line.subrange(0, word_end(line, 0))
}

/// The toolchains that the list `bytes` names from index `from` on, which is
/// where a line starts: one for each line that is valid UTF-8, in the order
/// of the lines.
pub open spec fn toolchains_from(bytes: Seq<u8>, from: int) -> Seq<Seq<char>>
    decreases bytes.len() + 1 - from,
{
    if from < 0 || from >= bytes.len() {
        Seq::empty()
    } else {
        proof {
            lemma_line_end(bytes, from);
        }
        let line = line_at(bytes, from);
        let rest = toolchains_from(bytes, line_end(bytes, from) + 1);
        if valid_utf8(line) {
            seq![toolchain_of(decode_utf8(line))] + rest
        } else {
            rest
        }
    }
}

/// The toolchains that `bytes` names, the output of `rustup toolchain list`.
pub open spec fn installed_toolchains(bytes: Seq<u8>) -> Seq<Seq<char>> {
    toolchains_from(bytes, 0)
}

/// Reads the name of a toolchain from a line of the list.
fn toolchain_name(line: &str) -> (name: String)
    ensures
        name@ == toolchain_of(line@),
{
    let chars = chars_of(line);
    let mut end: usize = 0;
    while end < chars.len() && chars[end] != ' '
        invariant
            end <= chars.len(),
            word_end(chars@, 0) == word_end(chars@, end as int),
        decreases chars.len() - end,
    {
        end += 1;
    }
    line.substring_char(0, end).to_owned()
}

/// Reads the names of the installed toolchains from what
/// `rustup toolchain list` printed.
pub fn parse_toolchain_list(output: &[u8]) -> (names: Vec<String>)
    ensures
        names.deep_view() == installed_toolchains(output@),
{
    let mut names: Vec<String> = Vec::new();
    let mut from: usize = 0;
    assert(names.deep_view() == Seq::<Seq<char>>::empty());
    while from < output.len()
        invariant
            from <= output.len(),
            installed_toolchains(output@) == names.deep_view() + toolchains_from(
                output@,
                from as int,
            ),
        decreases output.len() - from,
    {
        let mut end: usize = from;
        while end < output.len() && output[end] != 0x0A
            invariant
                from <= end <= output.len(),
                line_end(output@, from as int) == line_end(output@, end as int),
            decreases output.len() - end,
        {
            end += 1;
        }
        let line = if from < end && end < output.len() && output[end - 1] == 0x0D {
            slice_subrange(output, from, end - 1)
        } else {
            slice_subrange(output, from, end)
        };
        assert(line@ == line_at(output@, from as int));
        let ghost before = names.deep_view();
        match text_of(line) {
            Some(text) => {
                let name = toolchain_name(text);
                names.push(name);
                assert(names.deep_view() == before.push(name@));
                assert(before.push(name@) + toolchains_from(output@, end + 1) == before + (
                seq![name@] + toolchains_from(output@, end + 1)));
            },
            None => {},
        }
        if end == output.len() {
            assert(toolchains_from(output@, end + 1) == Seq::<Seq<char>>::empty());
            from = end;
        } else {
            from = end + 1;
        }
    }
    assert(toolchains_from(output@, from as int) == Seq::<Seq<char>>::empty());
    names
}

/// The arguments that ask rustup for the toolchains it has installed.
pub open spec fn toolchain_list_flags() -> Seq<Seq<char>> {
    seq!["toolchain"@, "list"@]
}

/// The arguments that make rustup run the cargo of `toolchain`.
pub open spec fn run_cargo_of(toolchain: Seq<char>) -> Seq<Seq<char>> {
    seq!["run"@, toolchain, "cargo"@]
}

/// The process that asks rustup for the toolchains it has installed.
pub fn toolchain_list_query() -> (query: Invocation)
    ensures
        query@ == (InvocationView {
            program: RUSTUP@,
            args: toolchain_list_flags(),
            env_remove: Seq::empty(),
        }),
{
    let mut args: Vec<String> = Vec::new();
    args.push("toolchain".to_owned());
    args.push("list".to_owned());
    assert(args.deep_view() == toolchain_list_flags());
    let env_remove: Vec<String> = Vec::new();
    assert(env_remove.deep_view() == Seq::<Seq<char>>::empty());
    Invocation { program: RUSTUP.to_owned(), args, env_remove }
}

/// The arguments that make rustup run the cargo of `toolchain`.
pub fn rustup_run_args(toolchain: &str) -> (args: Vec<String>)
    ensures
        args.deep_view() == run_cargo_of(toolchain@),
{
    let mut args: Vec<String> = Vec::new();
    args.push("run".to_owned());
    args.push(toolchain.to_owned());
    args.push("cargo".to_owned());
    assert(args.deep_view() == run_cargo_of(toolchain@));
    args
}

/// The commands of `candidates`, each with its texts as characters.
pub open spec fn views(candidates: Seq<CargoCommand>) -> Seq<CargoCommandView> {
    candidates.map_values(|c: CargoCommand| c@)
}

/// `command`, with its texts as characters, if there is one.
pub open spec fn view_of(command: Option<CargoCommand>) -> Option<CargoCommandView> {
    match command {
        Some(c) => Some(c@),
        None => None,
    }
}

/// `candidate` can be chosen: it can build a runtime for `target`.
pub open spec fn qualifies(
    candidate: CargoCommandView,
    target: RuntimeTarget,
    rustc_bootstrap: bool,
) -> bool {
    candidate.supports(target, rustc_bootstrap)
}

/// A toolchain that reported `a` is at least as new as one that reported
/// `b`. One that reported no version counts as older than any that reported
/// one.
pub open spec fn ranks_at_least(a: Option<Version>, b: Option<Version>) -> bool {
    match (a, b) {
        (Some(x), Some(y)) => x.at_least(y),
        (None, Some(_)) => false,
        (_, None) => true,
    }
}

/// The choice among `candidates`: of those that qualify, the one of the
/// latest release, and of several of that release the last.
pub open spec fn newest(
    candidates: Seq<CargoCommandView>,
    target: RuntimeTarget,
    rustc_bootstrap: bool,
) -> Option<CargoCommandView>
    decreases candidates.len(),
{
    if candidates.len() == 0 {
        None
    } else {
        let last = candidates.last();
        match newest(candidates.drop_last(), target, rustc_bootstrap) {
            Some(earlier) => if qualifies(last, target, rustc_bootstrap) && ranks_at_least(
                last.version,
                earlier.version,
            ) {
                Some(last)
            } else {
                Some(earlier)
            },
            None => if qualifies(last, target, rustc_bootstrap) {
                Some(last)
            } else {
                None
            },
        }
    }
}

/// `candidates[i]` is the last of the candidates that qualify and are of the
/// latest release among them.
pub open spec fn is_latest(
    candidates: Seq<CargoCommandView>,
    i: int,
    target: RuntimeTarget,
    rustc_bootstrap: bool,
) -> bool {
    &&& 0 <= i < candidates.len()
    &&& qualifies(candidates[i], target, rustc_bootstrap)
    &&& forall|j: int|
        0 <= j < candidates.len() && qualifies(#[trigger] candidates[j], target, rustc_bootstrap)
            ==> ranks_at_least(candidates[i].version, candidates[j].version)
    &&& forall|j: int|
        i < j < candidates.len() && qualifies(#[trigger] candidates[j], target, rustc_bootstrap)
            ==> !ranks_at_least(candidates[j].version, candidates[i].version)
}

/// Ranking goes by the release number alone: whether a version is a nightly
/// neither raises nor lowers it.
pub proof fn lemma_rank_ignores_nightly(a: Version, b: Version, first: bool, second: bool)
    ensures
        ranks_at_least(Some(a), Some(b)) == ranks_at_least(
            Some(Version { is_nightly: first, ..a }),
            Some(Version { is_nightly: second, ..b }),
        ),
{
}

/// Ranking is transitive.
pub proof fn lemma_ranks_transitive(a: Option<Version>, b: Option<Version>, c: Option<Version>)
    requires
        ranks_at_least(a, b),
        ranks_at_least(b, c),
    ensures
        ranks_at_least(a, c),
{
    if a is Some && b is Some && c is Some {
        lemma_order_is_transitive(a->0, b->0, c->0);
    }
}

/// What `newest` chooses is the last of the candidates that qualify and are
/// of the latest release among them; it chooses nothing only if none
/// qualifies.
pub proof fn lemma_newest_is_latest(
    candidates: Seq<CargoCommandView>,
    target: RuntimeTarget,
    rustc_bootstrap: bool,
)
    ensures
        match newest(candidates, target, rustc_bootstrap) {
            Some(chosen) => exists|i: int|
                is_latest(candidates, i, target, rustc_bootstrap) && candidates[i] == chosen,
            None => forall|j: int|
                0 <= j < candidates.len() ==> !qualifies(
                    #[trigger] candidates[j],
                    target,
                    rustc_bootstrap,
                ),
        },
    decreases candidates.len(),
{
    if candidates.len() > 0 {
        let init = candidates.drop_last();
        let last = candidates.last();
        let n = candidates.len() - 1;
        lemma_newest_is_latest(init, target, rustc_bootstrap);
        assert forall|j: int| 0 <= j < n implies init[j] == candidates[j] by {}
        match newest(init, target, rustc_bootstrap) {
            Some(earlier) => {
                let i = choose|i: int|
                    is_latest(init, i, target, rustc_bootstrap) && init[i] == earlier;
                if qualifies(last, target, rustc_bootstrap) && ranks_at_least(
                    last.version,
                    earlier.version,
                ) {
                    assert forall|j: int|
                        0 <= j < candidates.len() && qualifies(
                            #[trigger] candidates[j],
                            target,
                            rustc_bootstrap,
                        ) implies ranks_at_least(last.version, candidates[j].version) by {
                        if j < n {
                            assert(init[j] == candidates[j]);
                            lemma_ranks_transitive(
                                last.version,
                                earlier.version,
                                candidates[j].version,
                            );
                        }
                    }
                    assert(is_latest(candidates, n, target, rustc_bootstrap));
                } else {
                    assert(candidates[i] == earlier);
                    assert forall|j: int|
                        0 <= j < candidates.len() && qualifies(
                            #[trigger] candidates[j],
                            target,
                            rustc_bootstrap,
                        ) implies ranks_at_least(earlier.version, candidates[j].version) by {
                        if j < n {
                            assert(init[j] == candidates[j]);
                        }
                    }
                    assert forall|j: int|
                        i < j < candidates.len() && qualifies(
                            #[trigger] candidates[j],
                            target,
                            rustc_bootstrap,
                        ) implies !ranks_at_least(candidates[j].version, earlier.version) by {
                        if j < n {
                            assert(init[j] == candidates[j]);
                        }
                    }
                    assert(is_latest(candidates, i, target, rustc_bootstrap));
                }
            },
            None => {
                if qualifies(last, target, rustc_bootstrap) {
                    assert forall|j: int|
                        0 <= j < candidates.len() && qualifies(
                            #[trigger] candidates[j],
                            target,
                            rustc_bootstrap,
                        ) implies ranks_at_least(last.version, candidates[j].version) by {
                        if j < n {
                            assert(init[j] == candidates[j]);
                        }
                    }
                    assert(is_latest(candidates, n, target, rustc_bootstrap));
                } else {
                    assert forall|j: int| 0 <= j < candidates.len() implies !qualifies(
                        #[trigger] candidates[j],
                        target,
                        rustc_bootstrap,
                    ) by {
                        if j < n {
                            assert(init[j] == candidates[j]);
                        }
                    }
                }
            },
        }
    }
}

/// Among given candidates, at most one is the last of the latest release.
pub proof fn lemma_latest_is_unique(
    candidates: Seq<CargoCommandView>,
    i: int,
    j: int,
    target: RuntimeTarget,
    rustc_bootstrap: bool,
)
    requires
        is_latest(candidates, i, target, rustc_bootstrap),
        is_latest(candidates, j, target, rustc_bootstrap),
    ensures
        i == j,
{
}

/// Whether a toolchain that reported `a` is at least as new as one that
/// reported `b`.
fn is_ranked_at_least(a: Option<Version>, b: Option<Version>) -> (r: bool)
    ensures
        r == ranks_at_least(a, b),
{
    match (a, b) {
        (Some(x), Some(y)) => x.is_at_least(&y),
        (None, Some(_)) => false,
        (_, None) => true,
    }
}

/// Chooses among the toolchains that rustup has installed, each given as the
/// command that runs its cargo: of those that can build a runtime for
/// `target`, the one of the latest release.
///
/// Only the release number counts: a nightly is neither preferred to a
/// stable toolchain nor passed over for one. A toolchain that reported no
/// version is chosen only if no other can build the runtime. Of several
/// toolchains of the latest release, the one that comes last is chosen.
pub fn get_rustup_command(
    target: RuntimeTarget,
    env: &Environment,
    candidates: &Vec<CargoCommand>,
) -> (chosen: Option<CargoCommand>)
    ensures
        view_of(chosen) == newest(views(candidates@), target, env@.rustc_bootstrap),
{
    let mut best: Option<usize> = None;
    let mut i: usize = 0;
    assert(views(candidates@).take(0) == Seq::<CargoCommandView>::empty());
    while i < candidates.len()
        invariant
            i <= candidates.len(),
            match best {
                Some(b) => b < i && newest(
                    views(candidates@).take(i as int),
                    target,
                    env@.rustc_bootstrap,
                ) == Some(candidates@[b as int]@),
                None => newest(views(candidates@).take(i as int), target, env@.rustc_bootstrap)
                    is None,
            },
        decreases candidates.len() - i,
    {
        assert(views(candidates@).take(i + 1).drop_last() == views(candidates@).take(i as int));
        assert(views(candidates@).take(i + 1).last() == candidates@[i as int]@);
        let candidate = &candidates[i];
        if candidate.supports_substrate_runtime_env(target, env) {
            let newer = match best {
                Some(b) => is_ranked_at_least(candidate.version(), candidates[b].version()),
                None => true,
            };
            if newer {
                best = Some(i);
            }
        }
        i += 1;
    }
    assert(views(candidates@).take(i as int) == views(candidates@));
    match best {
        Some(b) => Some(candidates[b].clone()),
        None => None,
    }
}

} // verus!
