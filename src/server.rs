//! The language service: the store of analysed documents, and the answers
//! to hover and completion queries against it.
use vstd::prelude::*;

use crate::completion::{
    completion_items, completion_open, get_completions, line_text, prefix_at, views,
    CompletionList,
};
use crate::grammar::sentence;
use crate::hir::{
    is_analysis_of, AnalysisContext, Analyzable, Analyzed, AnalyzedPart, AnalyzedSentence,
};
use crate::parser::parse;
use crate::position::{spec_contains, utf8_len, SourcePosition};
use crate::templates::entries;

verus! {

/// What is kept of an open document: its latest successful analysis.
pub struct DocumentState {
    pub analyzed: AnalyzedSentence,
}

/// The open documents, keyed by their identity (a URI).
pub struct ServerState {
    pub docs: Vec<(String, DocumentState)>,
}

/// The analysis stored for `uri`: that of the first entry under it.
pub open spec fn stored(docs: Seq<(String, DocumentState)>, uri: Seq<char>) -> Option<AnalyzedSentence>
    decreases docs.len(),
{
    if docs.len() == 0 {
        None
    } else if docs[0].0@ == uri {
        Some(docs[0].1.analyzed)
    } else {
        stored(docs.drop_first(), uri)
    }
}

proof fn lemma_stored_push(docs: Seq<(String, DocumentState)>, e: (String, DocumentState), uri: Seq<char>)
    ensures
        stored(docs.push(e), uri) == (if stored(docs, uri) is Some {
            stored(docs, uri)
        } else if e.0@ == uri {
            Some(e.1.analyzed)
        } else {
            None
        }),
    decreases docs.len(),
{
    if docs.len() > 0 {
        assert(docs.push(e).drop_first() =~= docs.drop_first().push(e));
        assert(docs.push(e)[0] == docs[0]);
        lemma_stored_push(docs.drop_first(), e, uri);
    } else {
        assert(docs.push(e).drop_first() =~= Seq::<(String, DocumentState)>::empty());
        assert(docs.push(e)[0] == e);
        assert(stored(Seq::<(String, DocumentState)>::empty(), uri) is None);
    }
}

/// The hover text of the first part whose range holds `pos`.
pub open spec fn parts_hover(parts: Seq<AnalyzedPart>, pos: SourcePosition) -> Option<Seq<char>>
    decreases parts.len(),
{
    if parts.len() == 0 {
        None
    } else if spec_contains(parts[0].node_view().range(), pos) {
        Some(parts[0].hover())
    } else {
        parts_hover(parts.drop_first(), pos)
    }
}

/// The hover text at `pos`: that of the first node, in the order vocative,
/// verb, parts, whose range holds `pos`.
pub open spec fn hover_at(a: AnalyzedSentence, pos: SourcePosition) -> Option<Seq<char>> {
    if spec_contains(a.vocative.node.range, pos) {
        Some(a.vocative.hover_text@)
    } else if spec_contains(a.verb.node@.range(), pos) {
        Some(a.verb.hover_text@)
    } else {
        parts_hover(a.parts@, pos)
    }
}

/// `a` is what a document holding `text` is stored as: the analysis of the
/// sentence that `text` reads as, or nothing when it reads as none.
pub open spec fn stored_for_text(
    a: Option<AnalyzedSentence>,
    text: Seq<char>,
    ctx: AnalysisContext,
) -> bool {
    match sentence(text) {
        Some(st) => a is Some && is_analysis_of(a->0, st, entries(ctx.built_in@), entries(ctx.user@)),
        None => a is None,
    }
}

/// The hover text at `pos` in an analysed sentence.
pub fn find_hover_text(analyzed: &AnalyzedSentence, pos: &SourcePosition) -> (r: Option<String>)
    ensures
        r is None <==> hover_at(*analyzed, *pos) is None,
        r is Some ==> hover_at(*analyzed, *pos) == Some(r->0@),
{
    if analyzed.vocative.node.range.contains_position(pos) {
        return Some(analyzed.vocative.hover_text.clone());
    }
    if analyzed.verb.node.get_range().contains_position(pos) {
        return Some(analyzed.verb.hover_text.clone());
    }
    let ghost ps = analyzed.parts@;
    let mut i: usize = 0;
    assert(ps.skip(0) =~= ps);
    while i < analyzed.parts.len()
        invariant
            i <= ps.len(),
            ps == analyzed.parts@,
            hover_at(*analyzed, *pos) == parts_hover(ps.skip(i as int), *pos),
        decreases ps.len() - i,
    {
        assert(ps.skip(i as int).drop_first() =~= ps.skip(i + 1));
        let part = &analyzed.parts[i];
        if part.get_range().contains_position(pos) {
            let text = match part {
                AnalyzedPart::Freeform(p) => p.hover_text.clone(),
                AnalyzedPart::FilePath(p) => p.hover_text.clone(),
                AnalyzedPart::InlineShell(p) => p.hover_text.clone(),
            };
            return Some(text);
        }
        i = i + 1;
    }
    None
}

impl ServerState {
    /// The analysis stored for `uri`.
    pub open spec fn document(&self, uri: Seq<char>) -> Option<AnalyzedSentence> {
        stored(self.docs@, uri)
    }

    /// A store with no documents.
    pub fn new() -> (r: ServerState)
        ensures
            forall|uri: Seq<char>| #[trigger] r.document(uri) is None,
    {
        ServerState { docs: Vec::new() }
    }

    /// Forgets the document `uri`.
    pub fn on_did_close(&mut self, uri: &String)
        ensures
            final(self).document(uri@) is None,
            forall|other: Seq<char>|
                other != uri@ ==> #[trigger] final(self).document(other) == old(self).document(other),
    {
        let mut kept: Vec<(String, DocumentState)> = Vec::new();
        while self.docs.len() > 0
            invariant
                stored(kept@, uri@) is None,
                forall|other: Seq<char>|
                    other != uri@ ==> #[trigger] old(self).document(other) == (if stored(
                        kept@,
                        other,
                    ) is Some {
                        stored(kept@, other)
                    } else {
                        stored(self.docs@, other)
                    }),
            decreases self.docs@.len(),
        {
            let ghost before_kept = kept@;
            let ghost before_docs = self.docs@;
            let entry = self.docs.remove(0);
            assert(self.docs@ =~= before_docs.drop_first());
            let keep = entry.0 != *uri;
            if keep {
                kept.push(entry);
            }
            proof {
                lemma_stored_push(before_kept, entry, uri@);
                assert forall|other: Seq<char>| other != uri@ implies #[trigger] old(self).document(other) == (if stored(
                    kept@,
                    other,
                ) is Some {
                    stored(kept@, other)
                } else {
                    stored(self.docs@, other)
                }) by {
                    lemma_stored_push(before_kept, entry, other);
                }
            }
        }
        self.docs = kept;
    }

    /// The analysis stored for `uri`.
    pub fn get(&self, uri: &String) -> (r: Option<&AnalyzedSentence>)
        ensures
            r is None <==> self.document(uri@) is None,
            r is Some ==> self.document(uri@) == Some(*r->0),
    {
        let ghost ds = self.docs@;
        let mut i: usize = 0;
        assert(ds.skip(0) =~= ds);
        while i < self.docs.len()
            invariant
                i <= ds.len(),
                ds == self.docs@,
                stored(ds, uri@) == stored(ds.skip(i as int), uri@),
            decreases ds.len() - i,
        {
            assert(ds.skip(i as int).drop_first() =~= ds.skip(i + 1));
            if self.docs[i].0 == *uri {
                return Some(&self.docs[i].1.analyzed);
            }
            i = i + 1;
        }
        None
    }

    /// Stores the analysis of `text` under `uri`, or forgets `uri` when
    /// `text` is not a sentence.
    pub fn update_document(&mut self, uri: String, text: &str, ctx: &AnalysisContext)
        requires
            utf8_len(text@) <= usize::MAX,
        ensures
            stored_for_text(final(self).document(uri@), text@, *ctx),
            forall|other: Seq<char>|
                other != uri@ ==> #[trigger] final(self).document(other) == old(self).document(other),
    {
        self.on_did_close(&uri);
        let ghost mid = self.docs@;
        assert forall|other: Seq<char>| other != uri@ implies #[trigger] stored(mid, other) == old(self).document(other) by {
            assert(self.document(other) == stored(mid, other));
        }
        match parse(text) {
            Some(st) => {
                let analyzed = st.analyze(ctx);
                let ghost before = self.docs@;
                let entry = (uri, DocumentState { analyzed });
                self.docs.push(entry);
                proof {
                    lemma_stored_push(before, entry, entry.0@);
                    assert forall|other: Seq<char>| other != entry.0@ implies #[trigger] self.document(other) == stored(before, other) by {
                        lemma_stored_push(before, entry, other);
                    }
                }
            },
            None => {},
        }
    }

    /// A document was opened with `text`.
    pub fn on_did_open(&mut self, uri: String, text: &str, ctx: &AnalysisContext)
        requires
            utf8_len(text@) <= usize::MAX,
        ensures
            stored_for_text(final(self).document(uri@), text@, *ctx),
            forall|other: Seq<char>|
                other != uri@ ==> #[trigger] final(self).document(other) == old(self).document(other),
    {
        self.update_document(uri, text, ctx);
    }

    /// A document changed; every change carries the whole new text, and
    /// only the last one counts.
    pub fn on_did_change(&mut self, uri: String, changes: Vec<String>, ctx: &AnalysisContext)
        requires
            forall|i: int| 0 <= i < changes@.len() ==> utf8_len(#[trigger] changes@[i]@) <= usize::MAX,
        ensures
            changes@.len() == 0 ==> final(self).document(uri@) == old(self).document(uri@),
            changes@.len() > 0 ==> stored_for_text(final(self).document(uri@), changes@.last()@, *ctx),
            forall|other: Seq<char>|
                other != uri@ ==> #[trigger] final(self).document(other) == old(self).document(other),
    {
        let n = changes.len();
        if n > 0 {
            let text = &changes[n - 1];
            self.update_document(uri, text.as_str(), ctx);
        }
    }

    /// The hover text at `pos` in the document `uri`.
    pub fn hover(&self, uri: &String, pos: &SourcePosition) -> (r: Option<String>)
        ensures
            self.document(uri@) is None ==> r is None,
            self.document(uri@) is Some ==> {
                &&& r is None <==> hover_at(self.document(uri@)->0, *pos) is None
                &&& r is Some ==> hover_at(self.document(uri@)->0, *pos) == Some(r->0@)
            },
    {
        match self.get(uri) {
            Some(a) => find_hover_text(a, pos),
            None => None,
        }
    }

    /// The completions at `pos` in the document `uri`, given the names of
    /// the executables on the search path.
    pub fn completion(&self, uri: &String, pos: &SourcePosition, executables: &Vec<String>) -> (r: Option<CompletionList>)
        ensures
            self.document(uri@) is None ==> r is None,
            self.document(uri@) is Some ==> {
                let doc = self.document(uri@)->0;
                &&& r is None <==> !completion_open(doc, *pos)
                &&& r is Some ==> {
                    &&& !(r->0).is_incomplete
                    &&& completion_items(
                        (r->0).items@,
                        views(executables@),
                        prefix_at(line_text(doc.node@.parts, pos.line), pos.character),
                    )
                }
            },
    {
        match self.get(uri) {
            Some(a) => get_completions(a, pos, executables),
            None => None,
        }
    }
}

} // verus!
