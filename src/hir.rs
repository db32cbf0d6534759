//! The semantic pass: every syntax node gains hover text, and the verb is
//! resolved against the template store.
use vstd::prelude::*;

use crate::ast::{
    AssignmentVerb, FilePathPart, FreeformPart, InlineShellPart, Part, PartView, Sentence,
    SentenceView, SimpleVerb, Verb, VerbView, Vocative,
};
use crate::templates::{
    entries, find_template, lookup, resolve, resolve_template, store_create, user_template_body_of,
    Template,
};
use crate::position::SourceRange;
use crate::text::{push_str, string_of};

verus! {

/// The templates that verbs resolve against.
pub struct AnalysisContext {
    pub built_in: Vec<Template>,
    pub user: Vec<Template>,
}

/// A syntax node that the semantic pass turns into an analysed node.
pub trait Analyzable {
    type AnalyzedNode;

    /// `r` is what analysing this node against the templates of `ctx` gives.
    spec fn is_analyzed_as(&self, r: Self::AnalyzedNode, ctx: AnalysisContext) -> bool;

    fn analyze(&self, ctx: &AnalysisContext) -> (r: Self::AnalyzedNode)
        ensures
            self.is_analyzed_as(r, *ctx),
    ;
}

/// An analysed node, which covers a range of the document.
pub trait Analyzed {
    spec fn node_range(&self) -> SourceRange;

    fn get_range(&self) -> (r: SourceRange)
        ensures
            r == self.node_range(),
    ;
}

pub struct AnalyzedVocative {
    pub node: Vocative,
    pub hover_text: String,
}

pub struct AnalyzedFreeformPart {
    pub node: FreeformPart,
    pub hover_text: String,
}

pub struct AnalyzedFilePathPart {
    pub node: FilePathPart,
    pub hover_text: String,
}

pub struct AnalyzedInlineShellPart {
    pub node: InlineShellPart,
    pub hover_text: String,
}

pub enum AnalyzedPart {
    Freeform(AnalyzedFreeformPart),
    FilePath(AnalyzedFilePathPart),
    InlineShell(AnalyzedInlineShellPart),
}

pub struct AnalyzedVerb {
    pub node: Verb,
    /// The path of the template that the verb names: `verbs/<name>`.
    pub template_name: String,
    pub hover_text: String,
}

pub struct AnalyzedSentence {
    pub node: Sentence,
    pub hover_text: String,
    pub vocative: AnalyzedVocative,
    pub verb: AnalyzedVerb,
    pub parts: Vec<AnalyzedPart>,
}

/// A user template to create unless one already exists at `path`.
pub struct TemplateCreation {
    pub path: String,
    pub value: String,
}

pub open spec fn vocative_hover(name: Seq<char>) -> Seq<char> {
    "Hover text for vocative: "@ + name
}

pub open spec fn part_hover(p: PartView) -> Seq<char> {
    match p {
        PartView::Freeform { .. } => "This is a part"@,
        PartView::FilePath { .. } => "This is a file path part"@,
        PartView::InlineShell { code, .. } => "Will expand to the results of `"@ + code + "`"@,
    }
}

pub open spec fn sentence_hover() -> Seq<char> {
    "This is a part"@
}

/// The path of the template that a verb called `name` stands for.
pub open spec fn template_name_of(name: Seq<char>) -> Seq<char> {
    "verbs/"@ + name
}

/// The template body that a verb shows: the inline value of an assignment,
/// else the resolved template, else a marker.
pub open spec fn verb_source(
    v: VerbView,
    built_in: Seq<(Seq<char>, Seq<char>)>,
    user: Seq<(Seq<char>, Seq<char>)>,
) -> Seq<char> {
    match v {
        VerbView::Assignment { value, .. } => value,
        VerbView::Simple { name, .. } => match resolve(built_in, user, template_name_of(name)) {
            Some(c) => c,
            None => "*N/A*"@,
        },
    }
}

pub open spec fn verb_hover(
    v: VerbView,
    built_in: Seq<(Seq<char>, Seq<char>)>,
    user: Seq<(Seq<char>, Seq<char>)>,
) -> Seq<char> {
    "_Verb_ **"@ + template_name_of(v.name()) + "**\n\n```\n"@ + verb_source(v, built_in, user)
        + "\n```"@
}

impl AnalyzedPart {
    pub open spec fn node_view(&self) -> PartView {
        match self {
            AnalyzedPart::Freeform(p) => Part::Freeform(p.node)@,
            AnalyzedPart::FilePath(p) => Part::FilePath(p.node)@,
            AnalyzedPart::InlineShell(p) => Part::InlineShell(p.node)@,
        }
    }

    pub open spec fn hover(&self) -> Seq<char> {
        match self {
            AnalyzedPart::Freeform(p) => p.hover_text@,
            AnalyzedPart::FilePath(p) => p.hover_text@,
            AnalyzedPart::InlineShell(p) => p.hover_text@,
        }
    }
}

impl Analyzed for AnalyzedPart {
    open spec fn node_range(&self) -> SourceRange {
        self.node_view().range()
    }

    fn get_range(&self) -> (r: SourceRange) {
        match self {
            AnalyzedPart::Freeform(p) => p.node.range,
            AnalyzedPart::FilePath(p) => p.node.range,
            AnalyzedPart::InlineShell(p) => p.node.range,
        }
    }
}

impl Analyzed for AnalyzedVocative {
    open spec fn node_range(&self) -> SourceRange {
        self.node.range
    }

    fn get_range(&self) -> (r: SourceRange) {
        self.node.range
    }
}

impl Analyzed for AnalyzedVerb {
    open spec fn node_range(&self) -> SourceRange {
        self.node@.range()
    }

    fn get_range(&self) -> (r: SourceRange) {
        self.node.get_range()
    }
}

/// `a` is the analysis of the sentence `st` against the given templates.
pub open spec fn is_analysis_of(
    a: AnalyzedSentence,
    st: SentenceView,
    built_in: Seq<(Seq<char>, Seq<char>)>,
    user: Seq<(Seq<char>, Seq<char>)>,
) -> bool {
    &&& a.node@ == st
    &&& a.hover_text@ == sentence_hover()
    &&& a.vocative.node@ == st.vocative
    &&& a.vocative.hover_text@ == vocative_hover(st.vocative.name)
    &&& a.verb.node@ == st.verb
    &&& a.verb.template_name@ == template_name_of(st.verb.name())
    &&& a.verb.hover_text@ == verb_hover(st.verb, built_in, user)
    &&& a.parts@.len() == st.parts.len()
    &&& forall|k: int|
        0 <= k < st.parts.len() ==> {
            &&& (#[trigger] a.parts@[k]).node_view() == st.parts[k]
            &&& a.parts@[k].hover() == part_hover(st.parts[k])
        }
}

fn concat2(a: &str, b: &str) -> (r: String)
    ensures
        r@ == a@ + b@,
{
    let mut v: Vec<char> = Vec::new();
    push_str(&mut v, a);
    push_str(&mut v, b);
    string_of(&v)
}

impl Vocative {
    /// A copy of this node.
    pub fn duplicate(&self) -> (r: Vocative)
        ensures
            r@ == self@,
    {
        Vocative { range: self.range, name: self.name.clone() }
    }
}

impl Analyzable for Vocative {
    type AnalyzedNode = AnalyzedVocative;

    open spec fn is_analyzed_as(&self, r: AnalyzedVocative, ctx: AnalysisContext) -> bool {
        &&& r.node@ == self@
        &&& r.hover_text@ == vocative_hover(self.name@)
    }

    fn analyze(&self, ctx: &AnalysisContext) -> (r: AnalyzedVocative) {
        AnalyzedVocative {
            node: self.duplicate(),
            hover_text: concat2("Hover text for vocative: ", self.name.as_str()),
        }
    }
}

impl Part {
    /// A copy of this node.
    pub fn duplicate(&self) -> (r: Part)
        ensures
            r@ == self@,
    {
        match self {
            Part::Freeform(p) => Part::Freeform(FreeformPart { range: p.range, text: p.text.clone() }),
            Part::FilePath(p) => Part::FilePath(FilePathPart { range: p.range, path: p.path.clone() }),
            Part::InlineShell(p) => Part::InlineShell(
                InlineShellPart { range: p.range, code: p.code.clone() },
            ),
        }
    }
}

impl Analyzable for Part {
    type AnalyzedNode = AnalyzedPart;

    open spec fn is_analyzed_as(&self, r: AnalyzedPart, ctx: AnalysisContext) -> bool {
        &&& r.node_view() == self@
        &&& r.hover() == part_hover(self@)
    }

    fn analyze(&self, ctx: &AnalysisContext) -> (r: AnalyzedPart) {
        match self {
            Part::Freeform(p) => AnalyzedPart::Freeform(
                AnalyzedFreeformPart {
                    node: FreeformPart { range: p.range, text: p.text.clone() },
                    hover_text: "This is a part".to_owned(),
                },
            ),
            Part::FilePath(p) => AnalyzedPart::FilePath(
                AnalyzedFilePathPart {
                    node: FilePathPart { range: p.range, path: p.path.clone() },
                    hover_text: "This is a file path part".to_owned(),
                },
            ),
            Part::InlineShell(p) => {
                let mut v: Vec<char> = Vec::new();
                push_str(&mut v, "Will expand to the results of `");
                push_str(&mut v, p.code.as_str());
                push_str(&mut v, "`");
                AnalyzedPart::InlineShell(
                    AnalyzedInlineShellPart {
                        node: InlineShellPart { range: p.range, code: p.code.clone() },
                        hover_text: string_of(&v),
                    },
                )
            },
        }
    }
}

impl Verb {
    /// A copy of this node.
    pub fn duplicate(&self) -> (r: Verb)
        ensures
            r@ == self@,
    {
        match self {
            Verb::Simple(v) => Verb::Simple(SimpleVerb { range: v.range, name: v.name.clone() }),
            Verb::Assignment(v) => Verb::Assignment(
                AssignmentVerb { range: v.range, name: v.name.clone(), value: v.value.clone() },
            ),
        }
    }

    /// The name of the verb.
    pub fn name(&self) -> (r: &String)
        ensures
            r@ == self@.name(),
    {
        match self {
            Verb::Simple(v) => &v.name,
            Verb::Assignment(v) => &v.name,
        }
    }
}

impl Analyzable for Verb {
    type AnalyzedNode = AnalyzedVerb;

    open spec fn is_analyzed_as(&self, r: AnalyzedVerb, ctx: AnalysisContext) -> bool {
        &&& r.node@ == self@
        &&& r.template_name@ == template_name_of(self@.name())
        &&& r.hover_text@ == verb_hover(self@, entries(ctx.built_in@), entries(ctx.user@))
    }

    fn analyze(&self, ctx: &AnalysisContext) -> (r: AnalyzedVerb) {
        let template_name = concat2("verbs/", self.name().as_str());
        let source = match self {
            Verb::Assignment(v) => v.value.clone(),
            Verb::Simple(_) => match resolve_template(&ctx.built_in, &ctx.user, &template_name) {
                Some(c) => c,
                None => "*N/A*".to_owned(),
            },
        };
        let mut h: Vec<char> = Vec::new();
        push_str(&mut h, "_Verb_ **");
        push_str(&mut h, template_name.as_str());
        push_str(&mut h, "**\n\n```\n");
        push_str(&mut h, source.as_str());
        push_str(&mut h, "\n```");
        AnalyzedVerb { node: self.duplicate(), template_name, hover_text: string_of(&h) }
    }
}

impl Sentence {
    /// A copy of this sentence.
    pub fn duplicate(&self) -> (r: Sentence)
        ensures
            r@ == self@,
    {
        let mut parts: Vec<Part> = Vec::new();
        let mut i: usize = 0;
        while i < self.parts.len()
            invariant
                i <= self.parts@.len(),
                parts@.len() == i,
                forall|k: int| 0 <= k < i ==> (#[trigger] parts@[k])@ == self.parts@[k]@,
            decreases self.parts@.len() - i,
        {
            parts.push(self.parts[i].duplicate());
            i = i + 1;
        }
        let r = Sentence {
            range: self.range,
            vocative: self.vocative.duplicate(),
            verb: self.verb.duplicate(),
            parts,
        };
        assert(r@.parts =~= self@.parts);
        r
    }
}

impl Analyzable for Sentence {
    type AnalyzedNode = AnalyzedSentence;

    open spec fn is_analyzed_as(&self, r: AnalyzedSentence, ctx: AnalysisContext) -> bool {
        is_analysis_of(r, self@, entries(ctx.built_in@), entries(ctx.user@))
    }

    fn analyze(&self, ctx: &AnalysisContext) -> (r: AnalyzedSentence) {
        let mut parts: Vec<AnalyzedPart> = Vec::new();
        let mut i: usize = 0;
        while i < self.parts.len()
            invariant
                i <= self.parts@.len(),
                parts@.len() == i,
                forall|k: int|
                    0 <= k < i ==> {
                        &&& (#[trigger] parts@[k]).node_view() == self.parts@[k]@
                        &&& parts@[k].hover() == part_hover(self.parts@[k]@)
                    },
            decreases self.parts@.len() - i,
        {
            parts.push(self.parts[i].analyze(ctx));
            i = i + 1;
        }
        AnalyzedSentence {
            node: self.duplicate(),
            hover_text: "This is a part".to_owned(),
            vocative: self.vocative.analyze(ctx),
            verb: self.verb.analyze(ctx),
            parts,
        }
    }
}

/// The user template that a verb asks for, as (path, value): an assignment
/// asks for one at its template path unless the user store already has it.
pub open spec fn creation_for(v: VerbView, user: Seq<(Seq<char>, Seq<char>)>) -> Option<
    (Seq<char>, Seq<char>),
> {
    match v {
        VerbView::Assignment { name, value, .. } => if lookup(user, template_name_of(name)) is None {
            Some((template_name_of(name), value))
        } else {
            None
        },
        VerbView::Simple { .. } => None,
    }
}

/// The user store after a creation request, if any, has been carried out.
pub open spec fn applied(
    user: Seq<(Seq<char>, Seq<char>)>,
    c: Option<(Seq<char>, Seq<char>)>,
) -> Seq<(Seq<char>, Seq<char>)> {
    match c {
        Some((path, value)) => store_create(user, path, value),
        None => user,
    }
}

impl AnalyzedVerb {
    /// The user template that this verb asks for, if it is an assignment
    /// whose template does not exist yet.
    pub fn ensure_template(&self, user: &Vec<Template>) -> (r: Option<TemplateCreation>)
        ensures
            r is None <==> creation_for(self.node@, entries(user@)) is None,
            r is Some ==> creation_for(self.node@, entries(user@)) == Some(
                ((r->0).path@, (r->0).value@),
            ),
    {
        match &self.node {
            Verb::Simple(_) => None,
            Verb::Assignment(v) => {
                let path = concat2("verbs/", v.name.as_str());
                match find_template(user, &path) {
                    Some(_) => None,
                    None => Some(TemplateCreation { path, value: v.value.clone() }),
                }
            },
        }
    }
}

proof fn lemma_lookup_push(
    store: Seq<(Seq<char>, Seq<char>)>,
    path: Seq<char>,
    body: Seq<char>,
)
    requires
        lookup(store, path) is None,
    ensures
        lookup(store.push((path, body)), path) == Some(body),
    decreases store.len(),
{
    if store.len() > 0 {
        assert(store.push((path, body)).drop_first() =~= store.drop_first().push((path, body)));
        lemma_lookup_push(store.drop_first(), path, body);
    }
}

/// Defining a verb by assignment twice under one name creates its template
/// once: the second definition leaves the user store as the first one left
/// it, and the template holds the first value (or what was there before).
pub proof fn lemma_assignment_creation_idempotent(
    user: Seq<(Seq<char>, Seq<char>)>,
    first: VerbView,
    second: VerbView,
)
    requires
        first is Assignment,
        second is Assignment,
        first.name() == second.name(),
    ensures
        ({
            let path = template_name_of(first.name());
            let once = applied(user, creation_for(first, user));
            let twice = applied(once, creation_for(second, once));
            &&& twice == once
            &&& lookup(user, path) is None ==> lookup(once, path) == Some(
                user_template_body_of(first->Assignment_value),
            )
            &&& lookup(user, path) is Some ==> once == user
        }),
{
    let path = template_name_of(first.name());
    if lookup(user, path) is None {
        lemma_lookup_push(user, path, user_template_body_of(first->Assignment_value));
    }
}

} // verus!
