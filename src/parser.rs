//! Executable parser for the grammar of `crate::grammar`.
use vstd::prelude::*;

use crate::ast::{
    AssignmentVerb, FilePathPart, FreeformPart, InlineShellPart, ParseError, Part, PartView,
    Sentence, SimpleVerb, Verb, Vocative,
};
use crate::grammar::{
    in_class, is_digit, lemma_run_end_bounds, is_lower, is_white, more_parts, name_end, part, run_end, sentence, span,
    verb, CharClass,
};
use crate::text::{chars_of, text_between};
use crate::position::{
    advance, lemma_counts_push, lemma_prefix_len, line_feeds, position_of, utf8_len,
    SourcePosition, SourceRange,
};

verus! {

/// `t` holds the position of every index of `s`, the end included.
pub open spec fn is_position_table(s: Seq<char>, t: Seq<SourcePosition>) -> bool {
    &&& t.len() == s.len() + 1
    &&& forall|i: int| 0 <= i <= s.len() ==> #[trigger] t[i] == position_of(s, i)
}

/// The position of every index of `s`.
pub fn position_table(s: &Vec<char>) -> (t: Vec<SourcePosition>)
    requires
        utf8_len(s@) <= usize::MAX,
    ensures
        is_position_table(s@, t@),
{
    let mut t: Vec<SourcePosition> = Vec::new();
    let mut p = SourcePosition { line: 0, character: 0 };
    t.push(p);
    let mut i: usize = 0;
    proof {
        assert(s@.take(0) =~= Seq::<char>::empty());
        crate::position::lemma_counts_bounded(s@);
    }
    while i < s.len()
        invariant
            i <= s@.len(),
            utf8_len(s@) <= usize::MAX,
            line_feeds(s@) <= utf8_len(s@),
            t@.len() == i + 1,
            p == t@[i as int],
            forall|j: int| 0 <= j <= i ==> #[trigger] t@[j] == position_of(s@, j),
        decreases s@.len() - i,
    {
        proof {
            let f = s@.take(i as int);
            assert(s@.take(i as int + 1) =~= f.push(s@[i as int]));
            lemma_counts_push(f, s@[i as int]);
            lemma_prefix_len(s@, i as int + 1);
        }
        p = advance(p, s[i]);
        t.push(p);
        i = i + 1;
    }
    t
}

pub fn lowercase_char(c: char) -> (r: bool)
    ensures
        r == is_lower(c),
{
    'a' <= c && c <= 'z'
}

pub fn digit(c: char) -> (r: bool)
    ensures
        r == is_digit(c),
{
    '0' <= c && c <= '9'
}

pub fn lowercase_or_digit(c: char) -> (r: bool)
    ensures
        r == (is_lower(c) || is_digit(c)),
{
    lowercase_char(c) || digit(c)
}

pub fn dash(c: char) -> (r: bool)
    ensures
        r == (c == '-'),
{
    c == '-'
}

/// A character that may follow the first letter of a name.
pub fn lowercase_name_char(c: char) -> (r: bool)
    ensures
        r == in_class(CharClass::NameTail, c),
{
    lowercase_or_digit(c) || dash(c)
}

/// Whether `c` has the Unicode `White_Space` property.
pub fn white_space(c: char) -> (r: bool)
    ensures
        r == is_white(c),
{
    let u = c as u32;
    (0x09 <= u && u <= 0x0d) || u == 0x20 || u == 0x85 || u == 0xa0 || u == 0x1680 || (0x2000
        <= u && u <= 0x200a) || u == 0x2028 || u == 0x2029 || u == 0x202f || u == 0x205f || u
        == 0x3000
}

pub fn char_in_class(cls: CharClass, c: char) -> (r: bool)
    ensures
        r == in_class(cls, c),
{
    match cls {
        CharClass::Space => c == ' ' || c == '\t' || c == '\r' || c == '\n',
        CharClass::NameTail => lowercase_name_char(c),
        CharClass::Alnum => lowercase_or_digit(c) || ('A' <= c && c <= 'Z'),
        CharClass::NonWhite => !white_space(c),
        CharClass::NotClose => c != ')',
    }
}

/// End of the longest run of `cls` characters of `s` that starts at `i`.
pub fn scan(s: &Vec<char>, i: usize, cls: CharClass) -> (r: usize)
    requires
        i <= s@.len(),
    ensures
        r == run_end(s@, i as int, cls),
        i <= r <= s@.len(),
{
    let mut j = i;
    while j < s.len() && char_in_class(cls, s[j])
        invariant
            i <= j <= s@.len(),
            run_end(s@, j as int, cls) == run_end(s@, i as int, cls),
        decreases s@.len() - j,
    {
        j = j + 1;
    }
    j
}

/// The tail of a name: one or more name characters from `i`.
pub fn lowercase_name_tail(s: &Vec<char>, i: usize) -> (r: Option<usize>)
    requires
        i <= s@.len(),
    ensures
        r == (if run_end(s@, i as int, CharClass::NameTail) > i {
            Some(run_end(s@, i as int, CharClass::NameTail) as usize)
        } else {
            None::<usize>
        }),
{
    proof {
        lemma_run_end_bounds(s@, i as int, CharClass::NameTail);
    }
    let j = scan(s, i, CharClass::NameTail);
    if j > i {
        Some(j)
    } else {
        None
    }
}

/// A name that starts at `i`: the index just past it.
pub fn lowercase_name(s: &Vec<char>, i: usize) -> (r: Option<usize>)
    requires
        i <= s@.len(),
    ensures
        r is Some ==> name_end(s@, i as int) == Some(r->0 as int) && i < r->0 <= s@.len(),
        r is None ==> name_end(s@, i as int) is None,
{
    proof {
        if i < s@.len() {
            lemma_run_end_bounds(s@, i + 1, CharClass::NameTail);
        }
    }
    if i < s.len() && lowercase_char(s[i]) {
        lowercase_name_tail(s, i + 1)
    } else {
        None
    }
}

fn range_of(t: &Vec<SourcePosition>, a: usize, b: usize) -> (r: SourceRange)
    requires
        a <= b < t@.len(),
    ensures
        r == (SourceRange { start: t@[a as int], end: t@[b as int] }),
{
    SourceRange { start: t[a], end: t[b] }
}

/// The vocative that starts at `i`, and the index just past it.
pub fn vocative(s: &Vec<char>, t: &Vec<SourcePosition>, i: usize) -> (r: Option<(Vocative, usize)>)
    requires
        i <= s@.len(),
        is_position_table(s@, t@),
    ensures
        r is None <==> name_end(s@, i as int) is None,
        r is Some ==> {
            let (v, e) = r->0;
            &&& name_end(s@, i as int) == Some(e as int)
            &&& v@.range == span(s@, i as int, e as int)
            &&& v@.name == s@.subrange(i as int, e as int)
            &&& i < e <= s@.len()
        },
{
    match lowercase_name(s, i) {
        Some(e) => Some((Vocative { range: range_of(t, i, e), name: text_between(s, i, e) }, e)),
        None => None,
    }
}

/// The verb that starts at `i`, and the index just past it.
pub fn verb_at(s: &Vec<char>, t: &Vec<SourcePosition>, i: usize) -> (r: Option<(Verb, usize)>)
    requires
        i <= s@.len(),
        is_position_table(s@, t@),
    ensures
        r is None <==> verb(s@, i as int) is None,
        r is Some ==> verb(s@, i as int) == Some(((r->0).0@, (r->0).1 as int)) && (r->0).1 <= s@.len(),
{
    if i < s.len() && s[i] == '~' {
        if let Some(e) = lowercase_name(s, i + 1) {
            let k = scan(s, e, CharClass::Space);
            if k < s.len() && s[k] == '=' {
                let m = scan(s, k + 1, CharClass::Space);
                if m < s.len() && s[m] == '(' {
                    let c = scan(s, m + 1, CharClass::NotClose);
                    if c < s.len() {
                        let v = AssignmentVerb {
                            range: range_of(t, i, c + 1),
                            name: text_between(s, i + 1, e),
                            value: text_between(s, m + 1, c),
                        };
                        return Some((Verb::Assignment(v), c + 1));
                    }
                }
            }
        }
    }
    match lowercase_name(s, i) {
        Some(e) => Some(
            (Verb::Simple(SimpleVerb { range: range_of(t, i, e), name: text_between(s, i, e) }), e),
        ),
        None => None,
    }
}

/// A file path part after the `@` at `i`.
pub fn filepath_part(s: &Vec<char>, t: &Vec<SourcePosition>, i: usize) -> (r: Option<(FilePathPart, usize)>)
    requires
        i < s@.len(),
        s@[i as int] == '@',
        is_position_table(s@, t@),
    ensures
        r is None <==> run_end(s@, i + 1, CharClass::NonWhite) <= i + 1,
        r is Some ==> {
            let j = run_end(s@, i + 1, CharClass::NonWhite);
            &&& (r->0).1 == j
            &&& (r->0).0.range == span(s@, i + 1, j)
            &&& (r->0).0.path@ == s@.subrange(i + 1, j)
        },
{
    let n = s.len();
    let j = scan(s, i + 1, CharClass::NonWhite);
    if j > i + 1 {
        Some((FilePathPart { range: range_of(t, i + 1, j), path: text_between(s, i + 1, j) }, j))
    } else {
        None
    }
}

/// A free-form word at `i`.
pub fn freeform_part(s: &Vec<char>, t: &Vec<SourcePosition>, i: usize) -> (r: Option<(FreeformPart, usize)>)
    requires
        i <= s@.len(),
        is_position_table(s@, t@),
    ensures
        r is None <==> run_end(s@, i as int, CharClass::Alnum) <= i,
        r is Some ==> {
            let j = run_end(s@, i as int, CharClass::Alnum);
            &&& (r->0).1 == j
            &&& (r->0).0.range == span(s@, i as int, j)
            &&& (r->0).0.text@ == s@.subrange(i as int, j)
        },
{
    let j = scan(s, i, CharClass::Alnum);
    if j > i {
        Some((FreeformPart { range: range_of(t, i, j), text: text_between(s, i, j) }, j))
    } else {
        None
    }
}

/// An inline shell snippet `$(...)` at `i`; the code ends at the first `)`.
pub fn inline_shell_part(s: &Vec<char>, t: &Vec<SourcePosition>, i: usize) -> (r: Option<(InlineShellPart, usize)>)
    requires
        i + 1 < s@.len(),
        s@[i as int] == '$',
        s@[i + 1] == '(',
        is_position_table(s@, t@),
    ensures
        r is None <==> run_end(s@, i + 2, CharClass::NotClose) >= s@.len(),
        r is Some ==> {
            let c = run_end(s@, i + 2, CharClass::NotClose);
            &&& (r->0).1 == c + 1
            &&& (r->0).0.range == span(s@, i + 2, c)
            &&& (r->0).0.code@ == s@.subrange(i + 2, c)
        },
{
    let n = s.len();
    let c = scan(s, i + 2, CharClass::NotClose);
    if c < s.len() {
        Some((InlineShellPart { range: range_of(t, i + 2, c), code: text_between(s, i + 2, c) }, c + 1))
    } else {
        None
    }
}

/// The part that starts at `i`, and the index just past it.
pub fn part_at(s: &Vec<char>, t: &Vec<SourcePosition>, i: usize) -> (r: Option<(Part, usize)>)
    requires
        i <= s@.len(),
        is_position_table(s@, t@),
    ensures
        r is None <==> part(s@, i as int) is None,
        r is Some ==> part(s@, i as int) == Some(((r->0).0@, (r->0).1 as int)) && i < (r->0).1 <= s@.len(),
{
    proof {
        lemma_run_end_bounds(s@, i as int, CharClass::Alnum);
        if i < s@.len() {
            lemma_run_end_bounds(s@, i + 1, CharClass::NonWhite);
        }
        if i + 2 <= s@.len() {
            lemma_run_end_bounds(s@, i + 2, CharClass::NotClose);
        }
    }
    if i < s.len() && s[i] == '@' {
        if let Some((p, j)) = filepath_part(s, t, i) {
            return Some((Part::FilePath(p), j));
        }
    }
    if let Some((p, j)) = freeform_part(s, t, i) {
        return Some((Part::Freeform(p), j));
    }
    if i < s.len() && s[i] == '$' && i + 1 < s.len() && s[i + 1] == '(' {
        if let Some((p, j)) = inline_shell_part(s, t, i) {
            return Some((Part::InlineShell(p), j));
        }
    }
    None
}

/// The parts that follow `i`, each after a run of space, and the index just
/// past the last one read.
pub fn maybe_parts(s: &Vec<char>, t: &Vec<SourcePosition>, i: usize) -> (r: (Vec<Part>, usize))
    requires
        i <= s@.len(),
        is_position_table(s@, t@),
    ensures
        more_parts(s@, i as int) == (r.0@.map_values(|p: Part| p@), r.1 as int),
        i <= r.1 <= s@.len(),
{
    let mut parts: Vec<Part> = Vec::new();
    let mut cur = i;
    loop
        invariant
            i <= cur <= s@.len(),
            is_position_table(s@, t@),
            more_parts(s@, i as int) == (
                parts@.map_values(|p: Part| p@) + more_parts(s@, cur as int).0,
                more_parts(s@, cur as int).1,
            ),
        decreases s@.len() - cur,
    {
        let k = scan(s, cur, CharClass::Space);
        if k == cur {
            proof {
                assert(parts@.map_values(|p: Part| p@) + Seq::<PartView>::empty() =~= parts@.map_values(|p: Part| p@));
            }
            return (parts, cur);
        }
        match part_at(s, t, k) {
            Some((p, j)) => {
                proof {
                    let old_views = parts@.map_values(|q: Part| q@);
                    assert(parts@.push(p).map_values(|q: Part| q@) =~= old_views.push(p@));
                    assert(old_views + (seq![p@] + more_parts(s@, j as int).0) =~= old_views.push(p@) + more_parts(s@, j as int).0);
                }
                parts.push(p);
                cur = j;
            },
            None => {
                proof {
                    assert(parts@.map_values(|p: Part| p@) + Seq::<PartView>::empty() =~= parts@.map_values(|p: Part| p@));
                }
                return (parts, cur);
            },
        }
    }
}

/// The sentence that the whole of `s` reads as, if any.
pub fn sentence_of(s: &Vec<char>, t: &Vec<SourcePosition>) -> (r: Option<Sentence>)
    requires
        is_position_table(s@, t@),
    ensures
        r is None <==> sentence(s@) is None,
        r is Some ==> sentence(s@) == Some(r->0@),
{
    let a = scan(s, 0, CharClass::Space);
    let (voc, b) = match vocative(s, t, a) {
        Some(x) => x,
        None => return None,
    };
    let c = scan(s, b, CharClass::Space);
    if c == b {
        return None;
    }
    let (vb, d) = match verb_at(s, t, c) {
        Some(x) => x,
        None => return None,
    };
    let (parts, e) = maybe_parts(s, t, d);
    if scan(s, e, CharClass::Space) != s.len() {
        return None;
    }
    let st = Sentence { range: range_of(t, 0, s.len()), vocative: voc, verb: vb, parts };
    proof {
        assert(st@.vocative == sentence(s@)->0.vocative);
    }
    Some(st)
}

/// Reads `text` as one sentence; anything left over is an error.
pub fn parse_statement(text: &str) -> (r: Result<Sentence, ParseError>)
    requires
        utf8_len(text@) <= usize::MAX,
    ensures
        r is Err <==> sentence(text@) is None,
        r is Ok ==> sentence(text@) == Some(r->Ok_0@),
{
    let s = chars_of(text);
    let t = position_table(&s);
    match sentence_of(&s, &t) {
        Some(st) => Ok(st),
        None => Err(ParseError {}),
    }
}

/// Reads `text` as one sentence, or gives nothing.
pub fn parse(text: &str) -> (r: Option<Sentence>)
    requires
        utf8_len(text@) <= usize::MAX,
    ensures
        r is None <==> sentence(text@) is None,
        r is Some ==> sentence(text@) == Some(r->0@),
{
    match parse_statement(text) {
        Ok(st) => Some(st),
        Err(_) => None,
    }
}

} // verus!
