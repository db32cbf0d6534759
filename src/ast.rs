use vstd::prelude::*;

use crate::position::SourceRange;

verus! {

/// Names the entity a sentence is addressed to.
#[derive(Clone, Debug)]
pub struct Vocative {
    pub range: SourceRange,
    pub name: String,
}

/// A verb that refers to an existing template by name.
#[derive(Clone, Debug)]
pub struct SimpleVerb {
    pub range: SourceRange,
    pub name: String,
}

/// A verb that defines a template inline: `~name=(value)`.
#[derive(Clone, Debug)]
pub struct AssignmentVerb {
    pub range: SourceRange,
    pub name: String,
    pub value: String,
}

/// The action of a sentence.
#[derive(Clone, Debug)]
pub enum Verb {
    Simple(SimpleVerb),
    Assignment(AssignmentVerb),
}

/// A bare word of free-form text.
#[derive(Clone, Debug)]
pub struct FreeformPart {
    pub range: SourceRange,
    pub text: String,
}

/// An `@`-prefixed file path; the range covers the path without the `@`.
#[derive(Clone, Debug)]
pub struct FilePathPart {
    pub range: SourceRange,
    pub path: String,
}

/// A `$(...)` shell snippet; the range covers the code between the delimiters.
#[derive(Clone, Debug)]
pub struct InlineShellPart {
    pub range: SourceRange,
    pub code: String,
}

/// An argument of a sentence.
#[derive(Clone, Debug)]
pub enum Part {
    Freeform(FreeformPart),
    FilePath(FilePathPart),
    InlineShell(InlineShellPart),
}

/// A whole parsed sentence: the root of the syntax tree.
#[derive(Clone, Debug)]
pub struct Sentence {
    pub range: SourceRange,
    pub vocative: Vocative,
    pub verb: Verb,
    pub parts: Vec<Part>,
}

/// The text could not be read as a sentence.
#[derive(Clone, Copy, Debug, PartialEq, Eq, Structural)]
pub struct ParseError {}

/// Mathematical form of a `Vocative`.
pub struct VocativeView {
    pub range: SourceRange,
    pub name: Seq<char>,
}

/// Mathematical form of a `Verb`.
pub enum VerbView {
    Simple { range: SourceRange, name: Seq<char> },
    Assignment { range: SourceRange, name: Seq<char>, value: Seq<char> },
}

/// Mathematical form of a `Part`.
pub enum PartView {
    Freeform { range: SourceRange, text: Seq<char> },
    FilePath { range: SourceRange, path: Seq<char> },
    InlineShell { range: SourceRange, code: Seq<char> },
}

/// Mathematical form of a `Sentence`.
pub struct SentenceView {
    pub range: SourceRange,
    pub vocative: VocativeView,
    pub verb: VerbView,
    pub parts: Seq<PartView>,
}

impl VerbView {
    pub open spec fn range(self) -> SourceRange {
        match self {
            VerbView::Simple { range, .. } => range,
            VerbView::Assignment { range, .. } => range,
        }
    }

    pub open spec fn name(self) -> Seq<char> {
        match self {
            VerbView::Simple { name, .. } => name,
            VerbView::Assignment { name, .. } => name,
        }
    }
}

impl PartView {
    pub open spec fn range(self) -> SourceRange {
        match self {
            PartView::Freeform { range, .. } => range,
            PartView::FilePath { range, .. } => range,
            PartView::InlineShell { range, .. } => range,
        }
    }
}

impl View for Vocative {
    type V = VocativeView;

    open spec fn view(&self) -> VocativeView {
        VocativeView { range: self.range, name: self.name@ }
    }
}

impl View for Verb {
    type V = VerbView;

    open spec fn view(&self) -> VerbView {
        match self {
            Verb::Simple(v) => VerbView::Simple { range: v.range, name: v.name@ },
            Verb::Assignment(v) => VerbView::Assignment {
                range: v.range,
                name: v.name@,
                value: v.value@,
            },
        }
    }
}

impl View for Part {
    type V = PartView;

    open spec fn view(&self) -> PartView {
        match self {
            Part::Freeform(p) => PartView::Freeform { range: p.range, text: p.text@ },
            Part::FilePath(p) => PartView::FilePath { range: p.range, path: p.path@ },
            Part::InlineShell(p) => PartView::InlineShell { range: p.range, code: p.code@ },
        }
    }
}

impl View for Sentence {
    type V = SentenceView;

    open spec fn view(&self) -> SentenceView {
        SentenceView {
            range: self.range,
            vocative: self.vocative@,
            verb: self.verb@,
            parts: self.parts@.map_values(|p: Part| p@),
        }
    }
}

impl Verb {
    /// The range of the verb token.
    pub fn get_range(&self) -> (r: SourceRange)
        ensures
            r == self@.range(),
    {
        match self {
            Verb::Simple(v) => v.range,
            Verb::Assignment(v) => v.range,
        }
    }
}

impl Part {
    /// The range of the part's content.
    pub fn get_range(&self) -> (r: SourceRange)
        ensures
            r == self@.range(),
    {
        match self {
            Part::Freeform(p) => p.range,
            Part::FilePath(p) => p.range,
            Part::InlineShell(p) => p.range,
        }
    }
}

} // verus!
