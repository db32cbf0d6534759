use vstd::prelude::*;

verus! {

/// A place in a document: a zero-based line and the byte offset of the
/// place from the start of the document.
#[derive(Clone, Copy, Debug, PartialEq, Eq, Structural)]
pub struct SourcePosition {
    pub line: usize,
    pub character: usize,
}

/// A half-open span `[start, end)` of a document.
#[derive(Clone, Copy, Debug, PartialEq, Eq, Structural)]
pub struct SourceRange {
    pub start: SourcePosition,
    pub end: SourcePosition,
}

/// Number of bytes that the UTF-8 encoding of `c` takes.
pub open spec fn utf8_width(c: char) -> nat {
    if (c as u32) < 0x80 {
        1
    } else if (c as u32) < 0x800 {
        2
    } else if (c as u32) < 0x10000 {
        3
    } else {
        4
    }
}

/// Number of bytes that the UTF-8 encoding of `s` takes.
pub open spec fn utf8_len(s: Seq<char>) -> nat
    decreases s.len(),
{
    if s.len() == 0 {
        0
    } else {
        utf8_len(s.drop_last()) + utf8_width(s.last())
    }
}

/// One for a line feed, zero for any other character.
pub open spec fn line_feed(c: char) -> nat {
    if c == '\n' {
        1
    } else {
        0
    }
}

/// Number of line feeds in `s`.
pub open spec fn line_feeds(s: Seq<char>) -> nat
    decreases s.len(),
{
    if s.len() == 0 {
        0
    } else {
        line_feeds(s.drop_last()) + line_feed(s.last())
    }
}

/// The position reached from `start` after reading `fragment`.
pub open spec fn position_after(start: SourcePosition, fragment: Seq<char>) -> SourcePosition {
    SourcePosition {
        line: (start.line + line_feeds(fragment)) as usize,
        character: (start.character + utf8_len(fragment)) as usize,
    }
}

/// The position of the character at index `i` of the document `text`.
pub open spec fn position_of(text: Seq<char>, i: int) -> SourcePosition {
    position_after(SourcePosition { line: 0, character: 0 }, text.take(i))
}

/// `a` comes strictly before `b` by line, then by byte offset.
pub open spec fn before(a: SourcePosition, b: SourcePosition) -> bool {
    a.line < b.line || (a.line == b.line && a.character < b.character)
}

/// `a` comes before `b` or is `b`.
pub open spec fn at_or_before(a: SourcePosition, b: SourcePosition) -> bool {
    before(a, b) || a == b
}

/// Half-open containment: the start is inside the range, the end is not.
pub open spec fn spec_contains(r: SourceRange, p: SourcePosition) -> bool {
    at_or_before(r.start, p) && before(p, r.end)
}

/// Number of bytes that the UTF-8 encoding of `c` takes.
pub fn char_width(c: char) -> (r: usize)
    ensures
        r == utf8_width(c),
{
    if (c as u32) < 0x80 {
        1
    } else if (c as u32) < 0x800 {
        2
    } else if (c as u32) < 0x10000 {
        3
    } else {
        4
    }
}

/// The position after reading the single character `c` at `p`.
pub fn advance(p: SourcePosition, c: char) -> (r: SourcePosition)
    requires
        p.line + line_feed(c) <= usize::MAX,
        p.character + utf8_width(c) <= usize::MAX,
    ensures
        r.line == p.line + line_feed(c),
        r.character == p.character + utf8_width(c),
{
    let w = char_width(c);
    if c == '\n' {
        SourcePosition { line: p.line + 1, character: p.character + w }
    } else {
        SourcePosition { line: p.line, character: p.character + w }
    }
}

pub proof fn lemma_counts_push(f: Seq<char>, c: char)
    ensures
        line_feeds(f.push(c)) == line_feeds(f) + line_feed(c),
        utf8_len(f.push(c)) == utf8_len(f) + utf8_width(c),
{
    assert(f.push(c).drop_last() =~= f);
}

pub proof fn lemma_counts_bounded(s: Seq<char>)
    ensures
        line_feeds(s) <= s.len(),
        s.len() <= utf8_len(s),
        line_feeds(s) <= utf8_len(s),
    decreases s.len(),
{
    if s.len() > 0 {
        lemma_counts_bounded(s.drop_last());
    }
}

/// The range that `fragment` covers when it starts at `start`.
pub fn range(start: SourcePosition, fragment: &[char]) -> (r: SourceRange)
    requires
        start.line + line_feeds(fragment@) <= usize::MAX,
        start.character + utf8_len(fragment@) <= usize::MAX,
    ensures
        r.start == start,
        r.end == position_after(start, fragment@),
{
    let mut end = start;
    let mut i: usize = 0;
    while i < fragment.len()
        invariant
            i <= fragment@.len(),
            start.line + line_feeds(fragment@) <= usize::MAX,
            start.character + utf8_len(fragment@) <= usize::MAX,
            end.line == start.line + line_feeds(fragment@.take(i as int)),
            end.character == start.character + utf8_len(fragment@.take(i as int)),
        decreases fragment@.len() - i,
    {
        proof {
            let f = fragment@.take(i as int);
            assert(fragment@.take(i as int + 1) =~= f.push(fragment@[i as int]));
            lemma_counts_push(f, fragment@[i as int]);
            lemma_prefix_len(fragment@, i as int + 1);
        }
        end = advance(end, fragment[i]);
        i = i + 1;
    }
    proof {
        assert(fragment@.take(i as int) =~= fragment@);
    }
    SourceRange { start, end }
}

/// A prefix never takes more bytes than the whole.
pub proof fn lemma_prefix_len(s: Seq<char>, n: int)
    requires
        0 <= n <= s.len(),
    ensures
        utf8_len(s.take(n)) <= utf8_len(s),
        line_feeds(s.take(n)) <= line_feeds(s),
    decreases s.len(),
{
    if n < s.len() {
        assert(s.drop_last().take(n) =~= s.take(n));
        lemma_prefix_len(s.drop_last(), n);
    } else {
        assert(s.take(n) =~= s);
    }
}

impl SourceRange {
    /// Whether `pos` lies in this range; a position equal to the end does not.
    pub fn contains_position(&self, pos: &SourcePosition) -> (r: bool)
        ensures
            r == spec_contains(*self, *pos),
    {
        (self.start.line < pos.line || (self.start.line == pos.line && self.start.character
            <= pos.character)) && (pos.line < self.end.line || (pos.line == self.end.line
            && pos.character < self.end.character))
    }
}

/// A position equal to a range's end is never inside the range.
pub proof fn lemma_end_not_contained(r: SourceRange)
    ensures
        !spec_contains(r, r.end),
{
}

} // verus!
