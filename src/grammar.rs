//! The sentence grammar, stated over the characters of a document.
//!
//! Every token function takes the index where the token would begin and, on a
//! match, gives the index just past it. Choices are ordered and every
//! repetition is greedy.
use vstd::prelude::*;

use crate::ast::{PartView, SentenceView, VerbView, VocativeView};
use crate::position::{
    at_or_before, before, lemma_counts_push, lemma_prefix_len, line_feeds, position_of, utf8_len,
    SourceRange,
};

verus! {

/// The character classes that the grammar scans runs of.
#[derive(Clone, Copy, Debug, PartialEq, Eq, Structural)]
pub enum CharClass {
    /// Separating white space: space, tab, carriage return, line feed.
    Space,
    /// What may follow the first letter of a name: a lowercase letter, a digit, a dash.
    NameTail,
    /// An ASCII letter or digit.
    Alnum,
    /// Anything that is not Unicode white space.
    NonWhite,
    /// Anything but a closing parenthesis.
    NotClose,
}

pub open spec fn is_lower(c: char) -> bool {
    'a' <= c && c <= 'z'
}

pub open spec fn is_digit(c: char) -> bool {
    '0' <= c && c <= '9'
}

pub open spec fn is_alnum(c: char) -> bool {
    is_lower(c) || is_digit(c) || ('A' <= c && c <= 'Z')
}

pub open spec fn is_space(c: char) -> bool {
    c == ' ' || c == '\t' || c == '\r' || c == '\n'
}

/// The Unicode `White_Space` property.
pub open spec fn is_white(c: char) -> bool {
    let u = c as u32;
    (0x09 <= u && u <= 0x0d) || u == 0x20 || u == 0x85 || u == 0xa0 || u == 0x1680 || (0x2000
        <= u && u <= 0x200a) || u == 0x2028 || u == 0x2029 || u == 0x202f || u == 0x205f || u
        == 0x3000
}

pub open spec fn in_class(cls: CharClass, c: char) -> bool {
    match cls {
        CharClass::Space => is_space(c),
        CharClass::NameTail => is_lower(c) || is_digit(c) || c == '-',
        CharClass::Alnum => is_alnum(c),
        CharClass::NonWhite => !is_white(c),
        CharClass::NotClose => c != ')',
    }
}

/// End of the longest run of `cls` characters that starts at `i`.
pub open spec fn run_end(s: Seq<char>, i: int, cls: CharClass) -> int
    decreases s.len() - i,
{
    if 0 <= i < s.len() && in_class(cls, s[i]) {
        run_end(s, i + 1, cls)
    } else {
        i
    }
}

pub proof fn lemma_run_end_bounds(s: Seq<char>, i: int, cls: CharClass)
    requires
        0 <= i <= s.len(),
    ensures
        i <= run_end(s, i, cls) <= s.len(),
        run_end(s, i, cls) < s.len() ==> !in_class(cls, s[run_end(s, i, cls)]),
        forall|k: int| i <= k < run_end(s, i, cls) ==> in_class(cls, #[trigger] s[k]),
    decreases s.len() - i,
{
    if i < s.len() && in_class(cls, s[i]) {
        lemma_run_end_bounds(s, i + 1, cls);
    }
}

/// The range between two indices of the document.
pub open spec fn span(s: Seq<char>, a: int, b: int) -> SourceRange {
    SourceRange { start: position_of(s, a), end: position_of(s, b) }
}

/// A name: a lowercase letter followed by at least one letter, digit or dash.
pub open spec fn name_end(s: Seq<char>, i: int) -> Option<int> {
    if 0 <= i < s.len() && is_lower(s[i]) && run_end(s, i + 1, CharClass::NameTail) > i + 1 {
        Some(run_end(s, i + 1, CharClass::NameTail))
    } else {
        None
    }
}

/// `~name = (value)`, with optional space around `=`; the value ends at the
/// first `)`.
pub open spec fn assignment_verb(s: Seq<char>, i: int) -> Option<(VerbView, int)> {
    if 0 <= i < s.len() && s[i] == '~' && name_end(s, i + 1) is Some {
        let e = name_end(s, i + 1)->0;
        let k = run_end(s, e, CharClass::Space);
        let m = run_end(s, k + 1, CharClass::Space);
        let c = run_end(s, m + 1, CharClass::NotClose);
        if k < s.len() && s[k] == '=' && m < s.len() && s[m] == '(' && c < s.len() {
            Some(
                (
                    VerbView::Assignment {
                        range: span(s, i, c + 1),
                        name: s.subrange(i + 1, e),
                        value: s.subrange(m + 1, c),
                    },
                    c + 1,
                ),
            )
        } else {
            None
        }
    } else {
        None
    }
}

/// An assignment verb, else a simple verb (a bare name).
pub open spec fn verb(s: Seq<char>, i: int) -> Option<(VerbView, int)> {
    if assignment_verb(s, i) is Some {
        assignment_verb(s, i)
    } else if name_end(s, i) is Some {
        let e = name_end(s, i)->0;
        Some((VerbView::Simple { range: span(s, i, e), name: s.subrange(i, e) }, e))
    } else {
        None
    }
}

/// A file path, else a free-form word, else an inline shell snippet.
pub open spec fn part(s: Seq<char>, i: int) -> Option<(PartView, int)> {
    if 0 <= i < s.len() && s[i] == '@' && run_end(s, i + 1, CharClass::NonWhite) > i + 1 {
        let j = run_end(s, i + 1, CharClass::NonWhite);
        Some((PartView::FilePath { range: span(s, i + 1, j), path: s.subrange(i + 1, j) }, j))
    } else if 0 <= i && run_end(s, i, CharClass::Alnum) > i {
        let j = run_end(s, i, CharClass::Alnum);
        Some((PartView::Freeform { range: span(s, i, j), text: s.subrange(i, j) }, j))
    } else if 0 <= i && i + 1 < s.len() && s[i] == '$' && s[i + 1] == '(' && run_end(
        s,
        i + 2,
        CharClass::NotClose,
    ) < s.len() {
        let c = run_end(s, i + 2, CharClass::NotClose);
        Some((PartView::InlineShell { range: span(s, i + 2, c), code: s.subrange(i + 2, c) }, c + 1))
    } else {
        None
    }
}

/// The parts that follow index `i`, each after a run of space; the second
/// component is the index just past the last part read (or `i`). A part
/// always ends past where it starts; the bound on `j` only makes the measure
/// of the recursion evident.
pub open spec fn more_parts(s: Seq<char>, i: int) -> (Seq<PartView>, int)
    decreases s.len() - i,
{
    let k = run_end(s, i, CharClass::Space);
    if 0 <= i && k > i && part(s, k) is Some {
        let (p, j) = part(s, k)->0;
        if i < j <= s.len() {
            let (rest, e) = more_parts(s, j);
            (seq![p] + rest, e)
        } else {
            (Seq::empty(), i)
        }
    } else {
        (Seq::empty(), i)
    }
}

/// The sentence that the whole of `s` reads as, if any: optional space, a
/// vocative name, space, a verb, the parts, optional space, and nothing else.
pub open spec fn sentence(s: Seq<char>) -> Option<SentenceView> {
    let a = run_end(s, 0, CharClass::Space);
    if name_end(s, a) is Some {
        let b = name_end(s, a)->0;
        let c = run_end(s, b, CharClass::Space);
        if c > b && verb(s, c) is Some {
            let (v, d) = verb(s, c)->0;
            let (ps, e) = more_parts(s, d);
            if run_end(s, e, CharClass::Space) == s.len() {
                Some(
                    SentenceView {
                        range: span(s, 0, s.len() as int),
                        vocative: VocativeView { range: span(s, a, b), name: s.subrange(a, b) },
                        verb: v,
                        parts: ps,
                    },
                )
            } else {
                None
            }
        } else {
            None
        }
    } else {
        None
    }
}

/// The ranges of a sentence's nodes in the fixed order: vocative, verb, parts.
pub open spec fn node_ranges(st: SentenceView) -> Seq<SourceRange> {
    seq![st.vocative.range, st.verb.range()] + st.parts.map_values(|p: PartView| p.range())
}

proof fn lemma_counts_grow(s: Seq<char>, i: int, j: int)
    requires
        0 <= i <= j <= s.len(),
    ensures
        utf8_len(s.take(i)) + (j - i) <= utf8_len(s.take(j)),
        line_feeds(s.take(i)) <= line_feeds(s.take(j)),
    decreases j - i,
{
    if i < j {
        lemma_counts_grow(s, i, j - 1);
        assert(s.take(j) =~= s.take(j - 1).push(s[j - 1]));
        lemma_counts_push(s.take(j - 1), s[j - 1]);
    }
}

/// Positions grow with indices: strictly by byte offset, weakly by line.
pub proof fn lemma_position_monotone(s: Seq<char>, i: int, j: int)
    requires
        0 <= i <= j <= s.len(),
        utf8_len(s) <= usize::MAX,
    ensures
        at_or_before(position_of(s, i), position_of(s, j)),
        i < j ==> before(position_of(s, i), position_of(s, j)),
{
    lemma_counts_grow(s, i, j);
    lemma_prefix_len(s, j);
    crate::position::lemma_counts_bounded(s.take(j));
}

proof fn lemma_part_bounds(s: Seq<char>, k: int)
    requires
        0 <= k <= s.len(),
        utf8_len(s) <= usize::MAX,
        part(s, k) is Some,
    ensures
        ({
            let (p, j) = part(s, k)->0;
            &&& k < j <= s.len()
            &&& at_or_before(position_of(s, k), p.range().start)
            &&& at_or_before(p.range().start, p.range().end)
            &&& at_or_before(p.range().end, position_of(s, j))
        }),
{
    lemma_run_end_bounds(s, k, CharClass::Alnum);
    if k < s.len() {
        lemma_run_end_bounds(s, k + 1, CharClass::NonWhite);
    }
    if k + 2 <= s.len() {
        lemma_run_end_bounds(s, k + 2, CharClass::NotClose);
    }
    if 0 <= k < s.len() && s[k] == '@' && run_end(s, k + 1, CharClass::NonWhite) > k + 1 {
        let j = run_end(s, k + 1, CharClass::NonWhite);
        lemma_position_monotone(s, k, k + 1);
        lemma_position_monotone(s, k + 1, j);
    } else if run_end(s, k, CharClass::Alnum) > k {
        let j = run_end(s, k, CharClass::Alnum);
        lemma_position_monotone(s, k, j);
    } else {
        let c = run_end(s, k + 2, CharClass::NotClose);
        lemma_position_monotone(s, k, k + 2);
        lemma_position_monotone(s, k + 2, c);
        lemma_position_monotone(s, c, c + 1);
    }
}

proof fn lemma_more_parts_order(s: Seq<char>, i: int)
    requires
        0 <= i <= s.len(),
        utf8_len(s) <= usize::MAX,
    ensures
        ({
            let (ps, e) = more_parts(s, i);
            &&& i <= e <= s.len()
            &&& forall|k: int|
                0 <= k < ps.len() ==> {
                    &&& before(position_of(s, i), #[trigger] ps[k].range().start)
                    &&& at_or_before(ps[k].range().start, ps[k].range().end)
                    &&& at_or_before(ps[k].range().end, position_of(s, e))
                }
            &&& forall|k: int, l: int|
                0 <= k < l < ps.len() ==> before(#[trigger] ps[k].range().end, #[trigger] ps[l].range().start)
        }),
    decreases s.len() - i,
{
    let k0 = run_end(s, i, CharClass::Space);
    lemma_run_end_bounds(s, i, CharClass::Space);
    if k0 > i && part(s, k0) is Some {
        let (p, j) = part(s, k0)->0;
        lemma_part_bounds(s, k0);
        lemma_position_monotone(s, i, k0);
        lemma_more_parts_order(s, j);
        let (rest, e) = more_parts(s, j);
        let ps = seq![p] + rest;
        assert(more_parts(s, i) == (ps, e));
        lemma_position_monotone(s, j, e);
        assert forall|k: int| 0 <= k < ps.len() implies {
            &&& before(position_of(s, i), #[trigger] ps[k].range().start)
            &&& at_or_before(ps[k].range().start, ps[k].range().end)
            &&& at_or_before(ps[k].range().end, position_of(s, e))
        } by {
            if k > 0 {
                assert(ps[k] == rest[k - 1]);
                lemma_position_monotone(s, i, j);
            }
        }
        assert forall|k: int, l: int| 0 <= k < l < ps.len() implies before(
            #[trigger] ps[k].range().end,
            #[trigger] ps[l].range().start,
        ) by {
            assert(ps[l] == rest[l - 1]);
            if k > 0 {
                assert(ps[k] == rest[k - 1]);
            }
        }
    }
}

/// In a sentence read from a document, the vocative, the verb and the parts
/// occupy ranges that are each well formed, pairwise disjoint, and ordered
/// as the nodes are: every node ends before the next one starts.
pub proof fn lemma_node_ranges_disjoint_ordered(s: Seq<char>)
    requires
        utf8_len(s) <= usize::MAX,
        sentence(s) is Some,
    ensures
        ({
            let rs = node_ranges(sentence(s)->0);
            &&& forall|x: int| 0 <= x < rs.len() ==> at_or_before(#[trigger] rs[x].start, rs[x].end)
            &&& forall|x: int, y: int|
                0 <= x < y < rs.len() ==> before(#[trigger] rs[x].end, #[trigger] rs[y].start)
        }),
{
    let st = sentence(s)->0;
    let a = run_end(s, 0, CharClass::Space);
    lemma_run_end_bounds(s, 0, CharClass::Space);
    let b = name_end(s, a)->0;
    lemma_run_end_bounds(s, a + 1, CharClass::NameTail);
    let c = run_end(s, b, CharClass::Space);
    lemma_run_end_bounds(s, b, CharClass::Space);
    let (v, d) = verb(s, c)->0;
    lemma_verb_bounds(s, c);
    lemma_more_parts_order(s, d);
    lemma_position_monotone(s, a, b);
    lemma_position_monotone(s, b, c);
    lemma_position_monotone(s, c, d);
    let rs = node_ranges(st);
    let prs = st.parts.map_values(|p: PartView| p.range());
    assert forall|x: int| 0 <= x < rs.len() implies at_or_before(#[trigger] rs[x].start, rs[x].end) by {
        if x >= 2 {
            assert(rs[x] == st.parts[x - 2].range());
        }
    }
    assert forall|x: int, y: int| 0 <= x < y < rs.len() implies before(
        #[trigger] rs[x].end,
        #[trigger] rs[y].start,
    ) by {
        if y >= 2 {
            assert(rs[y] == st.parts[y - 2].range());
        }
        if x >= 2 {
            assert(rs[x] == st.parts[x - 2].range());
        }
    }
}

proof fn lemma_verb_bounds(s: Seq<char>, c: int)
    requires
        0 <= c <= s.len(),
        utf8_len(s) <= usize::MAX,
        verb(s, c) is Some,
    ensures
        ({
            let (v, d) = verb(s, c)->0;
            &&& c < d <= s.len()
            &&& at_or_before(position_of(s, c), v.range().start)
            &&& at_or_before(v.range().start, v.range().end)
            &&& at_or_before(v.range().end, position_of(s, d))
        }),
{
    lemma_run_end_bounds(s, c + 1, CharClass::NameTail);
    lemma_run_end_bounds(s, c + 2, CharClass::NameTail);
    if assignment_verb(s, c) is Some {
        let e = name_end(s, c + 1)->0;
        lemma_run_end_bounds(s, e, CharClass::Space);
        let k = run_end(s, e, CharClass::Space);
        lemma_run_end_bounds(s, k + 1, CharClass::Space);
        let m = run_end(s, k + 1, CharClass::Space);
        lemma_run_end_bounds(s, m + 1, CharClass::NotClose);
        let cl = run_end(s, m + 1, CharClass::NotClose);
        lemma_position_monotone(s, c, cl + 1);
    } else {
        let e = name_end(s, c)->0;
        lemma_position_monotone(s, c, e);
    }
}

/// The parts of a sentence appear in the order in which they stand in the
/// document: each part ends before any later part starts.
pub proof fn lemma_parts_in_source_order(s: Seq<char>)
    requires
        utf8_len(s) <= usize::MAX,
        sentence(s) is Some,
    ensures
        forall|k: int, l: int|
            0 <= k < l < sentence(s)->0.parts.len() ==> {
                &&& before(#[trigger] sentence(s)->0.parts[k].range().end, #[trigger] sentence(s)->0.parts[l].range().start)
                &&& before(sentence(s)->0.parts[k].range().start, sentence(s)->0.parts[l].range().start)
            },
{
    let st = sentence(s)->0;
    lemma_node_ranges_disjoint_ordered(s);
    let rs = node_ranges(st);
    assert forall|k: int, l: int| 0 <= k < l < st.parts.len() implies {
        &&& before(#[trigger] st.parts[k].range().end, #[trigger] st.parts[l].range().start)
        &&& before(st.parts[k].range().start, st.parts[l].range().start)
    } by {
        assert(rs[k + 2] == st.parts[k].range());
        assert(rs[l + 2] == st.parts[l].range());
        assert(at_or_before(rs[k + 2].start, rs[k + 2].end));
        assert(before(rs[k + 2].end, rs[l + 2].start));
    }
}

} // verus!
