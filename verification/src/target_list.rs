//! The set of targets that a toolchain can compile for.

use crate::text::chars_of;
use crate::text::same_text;
use crate::text::trimmed;
use crate::text::trimmed_range;
use vstd::prelude::*;
use vstd::string::StrSliceExecFns;

verus! {

/// `s` has a line from index `from` up to index `to`: it starts at the start
/// of `s` or behind a line feed, ends at the end of `s` or before a line feed,
/// and holds none.
pub open spec fn is_line(s: Seq<char>, from: int, to: int) -> bool {
    &&& 0 <= from <= to <= s.len()
    &&& (from == 0 || s[from - 1] == '\n')
    &&& (to == s.len() || s[to] == '\n')
    &&& forall|k: int| from <= k < to ==> s[k] != '\n'
}

/// The lines of `s`.
pub open spec fn lines(s: Seq<char>) -> Set<Seq<char>> {
    Set::new(
        |line: Seq<char>|
            exists|from: int, to: int| is_line(s, from, to) && line == s.subrange(from, to),
    )
}

/// The targets that a target list names: the lines of the list, which is
/// taken without the white space around it.
pub open spec fn listed_targets(text: Seq<char>) -> Set<Seq<char>> {
    lines(trimmed(text))
}

/// A set of target triples.
#[derive(Debug)]
pub struct TargetList {
    names: Vec<String>,
}

impl View for TargetList {
    type V = Set<Seq<char>>;

    closed spec fn view(&self) -> Set<Seq<char>> {
        self.names.deep_view().to_set()
    }
}

impl Clone for TargetList {
    fn clone(&self) -> (copy: TargetList)
        ensures
            copy@ == self@,
    {
        proof {
            use_type_invariant(self);
        }
        let names = self.names.clone();
        assert(names.deep_view() =~= self.names.deep_view());
        TargetList { names }
    }
}

impl TargetList {
    /// No target is held twice.
    #[verifier::type_invariant]
    spec fn distinct(&self) -> bool {
        self.names.deep_view().no_duplicates()
    }

    /// The empty set.
    pub fn new() -> (list: TargetList)
        ensures
            list@ == Set::<Seq<char>>::empty(),
    {
        let names: Vec<String> = Vec::new();
        assert(names.deep_view() == Seq::<Seq<char>>::empty());
        TargetList { names }
    }

    /// The number of targets in the set.
    pub fn len(&self) -> (n: usize)
        ensures
            n == self@.len(),
            self@.finite(),
    {
        proof {
            use_type_invariant(self);
            self.names.deep_view().unique_seq_to_set();
        }
        self.names.len()
    }

    /// Whether `target` is in the set.
    pub fn contains(&self, target: &str) -> (found: bool)
        ensures
            found == self@.contains(target@),
    {
        let mut i: usize = 0;
        while i < self.names.len()
            invariant
                i <= self.names.len(),
                forall|k: int| 0 <= k < i ==> self.names.deep_view()[k] != target@,
            decreases self.names.len() - i,
        {
            if same_text(self.names[i].as_str(), target) {
                assert(self.names.deep_view()[i as int] == target@);
                return true;
            }
            i += 1;
        }
        false
    }

    /// Adds `target` to the set. Returns whether it was new to the set.
    pub fn insert(&mut self, target: String) -> (added: bool)
        ensures
            final(self)@ == old(self)@.insert(target@),
            added == !old(self)@.contains(target@),
    {
        if self.contains(target.as_str()) {
            return false;
        }
        proof {
            use_type_invariant(&*self);
        }
        let ghost before = self.names.deep_view();
        let mut names: Vec<String> = Vec::new();
        assert(names.deep_view() == Seq::<Seq<char>>::empty());
        core::mem::swap(&mut self.names, &mut names);
        names.push(target);
        proof {
            assert(names.deep_view() == before.push(target@));
            before.lemma_push_to_set_commute(target@);
        }
        core::mem::swap(&mut self.names, &mut names);
        true
    }

    /// Reads a target list: the text that `rustc --print target-list` prints,
    /// one target on each line.
    pub fn parse(text: &str) -> (list: TargetList)
        ensures
            list@ == listed_targets(text@),
    {
        let chars = chars_of(text);
        let (start, end) = trimmed_range(&chars);
        let ghost body = trimmed(chars@);
        assert(body == chars@.subrange(start as int, end as int));
        let mut list = TargetList::new();
        let mut from: usize = start;
        loop
            invariant_except_break
                start <= from <= end <= chars.len(),
                from == start || chars@[from - 1] == '\n',
                forall|line: Seq<char>|
                    list@.contains(line) <==> exists|f: int, t: int|
                        is_line(body, f, t) && f < from - start && line == body.subrange(f, t),
            invariant
                chars@ == text@,
                start <= end <= chars.len(),
                body == chars@.subrange(start as int, end as int),
            ensures
                list@ == lines(body),
            decreases end - from,
        {
            let mut to: usize = from;
            while to < end && chars[to] != '\n'
                invariant
                    from <= to <= end <= chars.len(),
                    forall|k: int| from <= k < to ==> chars@[k] != '\n',
                decreases end - to,
            {
                to += 1;
            }
            let ghost f0 = from - start;
            let ghost t0 = to - start;
            let ghost before = list@;
            let line = text.substring_char(from, to).to_owned();
            list.insert(line);
            proof {
                assert(is_line(body, f0, t0));
                assert(line@ == body.subrange(f0, t0));
                assert forall|f: int, t: int| is_line(body, f, t) && f0 <= f <= t0 implies f == f0
                    && t == t0 by {
                    if f > f0 {
                        assert(body[f - 1] == '\n');
                    }
                    if t < t0 {
                        assert(body[t] == '\n');
                    }
                    if t > t0 {
                        assert(body[t0] != '\n');
                    }
                }
                assert forall|line: Seq<char>|
                    list@.contains(line) <==> exists|f: int, t: int|
                        is_line(body, f, t) && f < t0 + 1 && line == body.subrange(f, t) by {
                    if list@.contains(line) {
                        if before.contains(line) {
                            let (f, t) = choose|f: int, t: int|
                                is_line(body, f, t) && f < f0 && line == body.subrange(f, t);
                            assert(is_line(body, f, t) && f < t0 + 1 && line == body.subrange(f, t));
                        } else {
                            assert(is_line(body, f0, t0) && f0 < t0 + 1 && line == body.subrange(
                                f0,
                                t0,
                            ));
                        }
                    }
                    if exists|f: int, t: int|
                        is_line(body, f, t) && f < t0 + 1 && line == body.subrange(f, t) {
                        let (f, t) = choose|f: int, t: int|
                            is_line(body, f, t) && f < t0 + 1 && line == body.subrange(f, t);
                        if f < f0 {
                            assert(before.contains(line));
                        }
                    }
                }
            }
            if to == end {
                proof {
                    assert forall|line: Seq<char>| list@.contains(line) <==> lines(body).contains(
                        line,
                    ) by {
                        if lines(body).contains(line) {
                            let (f, t) = choose|f: int, t: int|
                                is_line(body, f, t) && line == body.subrange(f, t);
                            assert(is_line(body, f, t) && f < t0 + 1 && line == body.subrange(f, t));
                        }
                    }
                    assert(list@ =~= lines(body));
                }
                break ;
            }
            from = to + 1;
        }
        list
    }
}

} // verus!
