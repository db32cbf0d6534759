//! Completion: when to offer suggestions, and which.
use vstd::prelude::*;

use crate::ast::{Part, PartView};
use crate::hir::AnalyzedSentence;
use crate::position::{before, SourcePosition};
use crate::text::{chars_of, push_str, string_of};

verus! {

/// What a completion item stands for.
#[derive(Clone, Copy, Debug, PartialEq, Eq, Structural)]
pub enum CompletionKind {
    /// An inline shell snippet that runs a command.
    Function,
    /// A plain word.
    Text,
}

#[derive(Clone, Debug)]
pub struct CompletionItem {
    pub label: String,
    pub kind: CompletionKind,
    pub detail: Option<String>,
}

#[derive(Clone, Debug)]
pub struct CompletionList {
    pub is_incomplete: bool,
    pub items: Vec<CompletionItem>,
}

/// Strict lexicographic order on character sequences.
pub open spec fn lex_lt(a: Seq<char>, b: Seq<char>) -> bool
    decreases a.len(),
{
    if a.len() == 0 {
        b.len() > 0
    } else if b.len() == 0 {
        false
    } else if a[0] != b[0] {
        a[0] < b[0]
    } else {
        lex_lt(a.drop_first(), b.drop_first())
    }
}

/// Each element is strictly smaller than the next.
pub open spec fn strictly_sorted(s: Seq<Seq<char>>) -> bool {
    forall|i: int| 0 <= i < s.len() - 1 ==> lex_lt(#[trigger] s[i], s[i + 1])
}

pub open spec fn views(v: Seq<String>) -> Seq<Seq<char>> {
    v.map_values(|s: String| s@)
}

pub open spec fn starts_with(s: Seq<char>, prefix: Seq<char>) -> bool {
    prefix.len() <= s.len() && s.take(prefix.len() as int) == prefix
}

pub proof fn lemma_lex_trichotomy(a: Seq<char>, b: Seq<char>)
    ensures
        lex_lt(a, b) || a == b || lex_lt(b, a),
        !(lex_lt(a, b) && lex_lt(b, a)),
    decreases a.len(),
{
    if a.len() > 0 && b.len() > 0 {
        lemma_lex_trichotomy(a.drop_first(), b.drop_first());
        if a[0] == b[0] && a.drop_first() == b.drop_first() {
            assert(a =~= seq![a[0]] + a.drop_first());
            assert(b =~= seq![b[0]] + b.drop_first());
        }
    } else if a.len() == 0 && b.len() == 0 {
        assert(a =~= b);
    }
}

/// Whether `a` comes strictly before `b`.
pub fn less_than(a: &Vec<char>, b: &Vec<char>) -> (r: bool)
    ensures
        r == lex_lt(a@, b@),
{
    let mut i: usize = 0;
    assert(a@.skip(0) =~= a@);
    assert(b@.skip(0) =~= b@);
    while i < a.len() && i < b.len() && a[i] == b[i]
        invariant
            i <= a@.len(),
            i <= b@.len(),
            lex_lt(a@, b@) == lex_lt(a@.skip(i as int), b@.skip(i as int)),
        decreases a@.len() - i,
    {
        assert(a@.skip(i as int).drop_first() =~= a@.skip(i + 1));
        assert(b@.skip(i as int).drop_first() =~= b@.skip(i + 1));
        i = i + 1;
    }
    if i == a.len() {
        i < b.len()
    } else if i == b.len() {
        false
    } else {
        a[i] < b[i]
    }
}

/// Puts `x` into the strictly sorted `out` unless it is there already.
fn insert_unique(out: &mut Vec<String>, x: String)
    requires
        strictly_sorted(views(old(out)@)),
    ensures
        strictly_sorted(views(final(out)@)),
        forall|n: Seq<char>|
            #![trigger views(final(out)@).contains(n)]
            views(final(out)@).contains(n) <==> (views(old(out)@).contains(n) || n == x@),
{
    let xs = chars_of(x.as_str());
    let mut p: usize = 0;
    let mut scanning = true;
    while scanning && p < out.len()
        invariant
            p <= out@.len(),
            forall|i: int| 0 <= i < p ==> lex_lt(#[trigger] views(out@)[i], x@),
            !scanning ==> p < out@.len() && !lex_lt(views(out@)[p as int], x@),
            xs@ == x@,
        decreases out@.len() - p, if scanning { 1int } else { 0int },
    {
        let p_chars = chars_of(out[p].as_str());
        if less_than(&p_chars, &xs) {
            p = p + 1;
        } else {
            scanning = false;
        }
    }
    let ghost old_v = views(out@);
    if p < out.len() && out[p] == x {
        proof {
            assert forall|n: Seq<char>| old_v.contains(n) <==> (old_v.contains(n) || n == x@) by {
                if n == x@ {
                    assert(old_v[p as int] == n);
                }
            }
        }
        return;
    }
    proof {
        if p < out@.len() {
            lemma_lex_trichotomy(old_v[p as int], x@);
        }
    }
    out.insert(p, x);
    proof {
        let new_v = views(out@);
        assert(new_v =~= old_v.insert(p as int, x@));
        assert forall|i: int| 0 <= i < new_v.len() - 1 implies lex_lt(#[trigger] new_v[i], new_v[i + 1]) by {
            if i + 1 < p {
                assert(new_v[i] == old_v[i]);
                assert(new_v[i + 1] == old_v[i + 1]);
            } else if i + 1 == p {
                assert(new_v[i] == old_v[i]);
                assert(new_v[i + 1] == x@);
            } else if i == p {
                assert(new_v[i] == x@);
                assert(new_v[i + 1] == old_v[i]);
            } else {
                assert(new_v[i] == old_v[i - 1]);
                assert(new_v[i + 1] == old_v[i]);
            }
        }
        assert forall|n: Seq<char>| #![trigger new_v.contains(n)]
            new_v.contains(n) <==> (old_v.contains(n) || n == x@) by {
            if new_v.contains(n) {
                let j = choose|j: int| 0 <= j < new_v.len() && new_v[j] == n;
                if j < p {
                    assert(old_v[j] == n);
                } else if j > p {
                    assert(old_v[j - 1] == n);
                }
            }
            if old_v.contains(n) {
                let j = choose|j: int| 0 <= j < old_v.len() && old_v[j] == n;
                if j < p {
                    assert(new_v[j] == n);
                } else {
                    assert(new_v[j + 1] == n);
                }
            }
            if n == x@ {
                assert(new_v[p as int] == n);
            }
        }
    }
}

/// The names, without repeats, in strictly increasing order.
pub fn sorted_unique(names: &Vec<String>) -> (r: Vec<String>)
    ensures
        strictly_sorted(views(r@)),
        forall|n: Seq<char>|
            #![trigger views(r@).contains(n)]
            views(r@).contains(n) <==> views(names@).contains(n),
{
    let mut out: Vec<String> = Vec::new();
    let mut i: usize = 0;
    while i < names.len()
        invariant
            i <= names@.len(),
            strictly_sorted(views(out@)),
            forall|n: Seq<char>|
                #![trigger views(out@).contains(n)]
                views(out@).contains(n) <==> views(names@.take(i as int)).contains(n),
        decreases names@.len() - i,
    {
        insert_unique(&mut out, names[i].clone());
        proof {
            let before_v = views(names@.take(i as int));
            let after_v = views(names@.take(i + 1));
            assert(after_v =~= before_v.push(names@[i as int]@));
            assert forall|n: Seq<char>| after_v.contains(n) <==> (before_v.contains(n) || n == names@[i as int]@) by {
                if after_v.contains(n) {
                    let j = choose|j: int| 0 <= j < after_v.len() && after_v[j] == n;
                    if j < i {
                        assert(before_v[j] == n);
                    }
                }
                if before_v.contains(n) {
                    let j = choose|j: int| 0 <= j < before_v.len() && before_v[j] == n;
                    assert(after_v[j] == n);
                }
                if n == names@[i as int]@ {
                    assert(after_v[i as int] == n);
                }
            }
        }
        i = i + 1;
    }
    assert(names@.take(i as int) =~= names@);
    out
}

/// Whether `s` begins with `prefix`.
pub fn has_prefix(s: &Vec<char>, prefix: &Vec<char>) -> (r: bool)
    ensures
        r == starts_with(s@, prefix@),
{
    if prefix.len() > s.len() {
        return false;
    }
    let mut i: usize = 0;
    while i < prefix.len()
        invariant
            i <= prefix@.len() <= s@.len(),
            forall|k: int| 0 <= k < i ==> s@[k] == prefix@[k],
        decreases prefix@.len() - i,
    {
        if s[i] != prefix[i] {
            assert(s@.take(prefix@.len() as int)[i as int] != prefix@[i as int]);
            return false;
        }
        i = i + 1;
    }
    assert(s@.take(prefix@.len() as int) =~= prefix@);
    true
}

/// The text of the first free-form part that starts on `line`, or nothing.
pub open spec fn line_text(parts: Seq<PartView>, line: usize) -> Seq<char>
    decreases parts.len(),
{
    if parts.len() == 0 {
        Seq::empty()
    } else if parts[0] is Freeform && parts[0].range().start.line == line {
        parts[0]->Freeform_text
    } else {
        line_text(parts.drop_first(), line)
    }
}

/// `text` cut at `column`, or all of it when the column lies beyond its end.
pub open spec fn prefix_at(text: Seq<char>, column: usize) -> Seq<char> {
    if column <= text.len() {
        text.take(column as int)
    } else {
        text
    }
}

pub open spec fn command_label(name: Seq<char>) -> Seq<char> {
    "$("@ + name + ")"@
}

pub open spec fn command_detail(name: Seq<char>) -> Seq<char> {
    "Execute command: "@ + name
}

pub open spec fn word_if(w: Seq<char>, prefix: Seq<char>) -> Seq<Seq<char>> {
    if starts_with(w, prefix) {
        seq![w]
    } else {
        Seq::empty()
    }
}

/// The fixed words, in order, that begin with `prefix`.
pub open spec fn words_matching(prefix: Seq<char>) -> Seq<Seq<char>> {
    word_if("foo"@, prefix) + word_if("bar"@, prefix) + word_if("lorem"@, prefix)
}

pub open spec fn is_command_item(it: CompletionItem, name: Seq<char>) -> bool {
    &&& it.label@ == command_label(name)
    &&& it.kind == CompletionKind::Function
    &&& it.detail is Some
    &&& it.detail->0@ == command_detail(name)
}

pub open spec fn is_word_item(it: CompletionItem, w: Seq<char>) -> bool {
    &&& it.label@ == w
    &&& it.kind == CompletionKind::Text
    &&& it.detail is None
}

/// `items` are the command snippets whose label begins with `prefix`, one per
/// distinct executable name and in increasing order of name, followed by the
/// fixed words that begin with `prefix`.
pub open spec fn completion_items(
    items: Seq<CompletionItem>,
    executables: Seq<Seq<char>>,
    prefix: Seq<char>,
) -> bool {
    exists|names: Seq<Seq<char>>|
        {
            &&& strictly_sorted(names)
            &&& forall|n: Seq<char>|
                #![trigger names.contains(n)]
                names.contains(n) <==> (executables.contains(n) && starts_with(
                    command_label(n),
                    prefix,
                ))
            &&& items.len() == names.len() + words_matching(prefix).len()
            &&& forall|i: int| 0 <= i < names.len() ==> is_command_item(#[trigger] items[i], names[i])
            &&& forall|j: int|
                0 <= j < words_matching(prefix).len() ==> is_word_item(
                    #[trigger] items[names.len() + j],
                    words_matching(prefix)[j],
                )
        }
}

/// Completions are offered only past the end of the verb.
pub open spec fn completion_open(doc: AnalyzedSentence, pos: SourcePosition) -> bool {
    before(doc.verb.node@.range().end, pos)
}

fn line_text_of(parts: &Vec<Part>, line: usize) -> (r: Vec<char>)
    ensures
        r@ == line_text(parts@.map_values(|p: Part| p@), line),
{
    let ghost pv = parts@.map_values(|p: Part| p@);
    let mut i: usize = 0;
    assert(pv.skip(0) =~= pv);
    while i < parts.len()
        invariant
            i <= parts@.len(),
            pv == parts@.map_values(|p: Part| p@),
            line_text(pv, line) == line_text(pv.skip(i as int), line),
        decreases parts@.len() - i,
    {
        assert(pv.skip(i as int).drop_first() =~= pv.skip(i + 1));
        if let Part::Freeform(p) = &parts[i] {
            if p.range.start.line == line {
                return chars_of(p.text.as_str());
            }
        }
        i = i + 1;
    }
    Vec::new()
}

fn word_item(w: &str) -> (r: CompletionItem)
    ensures
        is_word_item(r, w@),
{
    CompletionItem { label: w.to_owned(), kind: CompletionKind::Text, detail: None }
}

fn push_word_if(items: &mut Vec<CompletionItem>, w: &str, prefix: &Vec<char>)
    ensures
        final(items)@.len() == old(items)@.len() + word_if(w@, prefix@).len(),
        forall|i: int| 0 <= i < old(items)@.len() ==> final(items)@[i] == old(items)@[i],
        word_if(w@, prefix@).len() == 1 ==> is_word_item(final(items)@[old(items)@.len() as int], w@),
{
    let wc = chars_of(w);
    if has_prefix(&wc, prefix) {
        items.push(word_item(w));
    }
}

/// The completions at `pos` in `doc`, given the names of the executables
/// found on the search path; nothing at or before the end of the verb.
pub fn get_completions(doc: &AnalyzedSentence, pos: &SourcePosition, executables: &Vec<String>) -> (r: Option<CompletionList>)
    ensures
        r is None <==> !completion_open(*doc, *pos),
        r is Some ==> {
            &&& !(r->0).is_incomplete
            &&& completion_items(
                (r->0).items@,
                views(executables@),
                prefix_at(line_text(doc.node@.parts, pos.line), pos.character),
            )
        },
{
    let vr = doc.verb.node.get_range();
    if !(vr.end.line < pos.line || (vr.end.line == pos.line && vr.end.character < pos.character)) {
        return None;
    }
    let text = line_text_of(&doc.node.parts, pos.line);
    let prefix = if pos.character <= text.len() {
        let mut pv: Vec<char> = Vec::new();
        let mut i: usize = 0;
        while i < pos.character
            invariant
                i <= pos.character <= text@.len(),
                pv@ =~= text@.take(i as int),
            decreases pos.character - i,
        {
            pv.push(text[i]);
            i = i + 1;
        }
        pv
    } else {
        text
    };
    let ghost ex = views(executables@);
    let mut matching: Vec<String> = Vec::new();
    let mut i: usize = 0;
    while i < executables.len()
        invariant
            i <= executables@.len(),
            ex == views(executables@),
            forall|n: Seq<char>|
                #![trigger views(matching@).contains(n)]
                views(matching@).contains(n) <==> (ex.take(i as int).contains(n) && starts_with(command_label(n), prefix@)),
        decreases executables@.len() - i,
    {
        let mut label: Vec<char> = Vec::new();
        push_str(&mut label, "$(");
        push_str(&mut label, executables[i].as_str());
        push_str(&mut label, ")");
        let ghost before_m = views(matching@);
        if has_prefix(&label, &prefix) {
            matching.push(executables[i].clone());
            assert(views(matching@) =~= before_m.push(ex[i as int]));
        } else {
            assert(views(matching@) =~= before_m);
        }
        proof {
            assert(ex.take(i + 1) =~= ex.take(i as int).push(ex[i as int]));
            assert forall|n: Seq<char>| #![trigger views(matching@).contains(n)]
                views(matching@).contains(n) <==> (ex.take(i + 1).contains(n) && starts_with(command_label(n), prefix@)) by {
                let a = ex.take(i as int);
                let b = ex.take(i + 1);
                if b.contains(n) {
                    let j = choose|j: int| 0 <= j < b.len() && b[j] == n;
                    if j < i {
                        assert(a[j] == n);
                    }
                }
                if a.contains(n) {
                    let j = choose|j: int| 0 <= j < a.len() && a[j] == n;
                    assert(b[j] == n);
                }
                if views(matching@).contains(n) && !before_m.contains(n) {
                    let j = choose|j: int| 0 <= j < views(matching@).len() && views(matching@)[j] == n;
                    assert(j == before_m.len());
                    assert(b[i as int] == n);
                }
                if before_m.contains(n) {
                    let j = choose|j: int| 0 <= j < before_m.len() && before_m[j] == n;
                    assert(views(matching@)[j] == n);
                }
                if b.contains(n) && starts_with(command_label(n), prefix@) && !a.contains(n) {
                    assert(n == ex[i as int]);
                    assert(views(matching@)[before_m.len() as int] == n);
                }
            }
        }
        i = i + 1;
    }
    assert(ex.take(i as int) =~= ex);
    let names = sorted_unique(&matching);
    let mut items: Vec<CompletionItem> = Vec::new();
    let mut k: usize = 0;
    while k < names.len()
        invariant
            k <= names@.len(),
            items@.len() == k,
            forall|j: int| 0 <= j < k ==> is_command_item(#[trigger] items@[j], views(names@)[j]),
        decreases names@.len() - k,
    {
        let mut label: Vec<char> = Vec::new();
        push_str(&mut label, "$(");
        push_str(&mut label, names[k].as_str());
        push_str(&mut label, ")");
        let mut detail: Vec<char> = Vec::new();
        push_str(&mut detail, "Execute command: ");
        push_str(&mut detail, names[k].as_str());
        items.push(
            CompletionItem {
                label: string_of(&label),
                kind: CompletionKind::Function,
                detail: Some(string_of(&detail)),
            },
        );
        k = k + 1;
    }
    let ghost n_cmd = items@.len();
    let ghost cmd_items = items@;
    push_word_if(&mut items, "foo", &prefix);
    let ghost after_foo = items@;
    push_word_if(&mut items, "bar", &prefix);
    let ghost after_bar = items@;
    push_word_if(&mut items, "lorem", &prefix);
    proof {
        let wm = words_matching(prefix@);
        let nv = views(names@);
        assert forall|j: int| 0 <= j < wm.len() implies is_word_item(
            #[trigger] items@[nv.len() + j],
            wm[j],
        ) by {
            let f = word_if("foo"@, prefix@);
            let b = word_if("bar"@, prefix@);
            let l = word_if("lorem"@, prefix@);
            if j < f.len() {
                assert(after_foo[n_cmd as int] == items@[n_cmd as int]);
            } else if j < f.len() + b.len() {
                assert(after_bar[(n_cmd + f.len()) as int] == items@[(n_cmd + f.len()) as int]);
            }
        }
        assert forall|i: int| 0 <= i < nv.len() implies is_command_item(#[trigger] items@[i], nv[i]) by {
            assert(items@[i] == cmd_items[i]);
        }
    }
    Some(CompletionList { is_incomplete: false, items })
}

} // verus!
