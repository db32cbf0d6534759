//! From an analysed sentence to a prompt: attachments, the description that
//! the parts make up, and rendering through the template engine.
use vstd::prelude::*;

use crate::ast::{Part, PartView, Sentence};
use crate::hir::{AnalysisContext, AnalyzedPart, AnalyzedSentence};
use crate::templates::{entries, find_template, lookup, Template};
use crate::text::{push_str, string_of};

verus! {

/// A file that a sentence refers to.
pub struct FileAttachment {
    pub path: String,
}

pub enum Attachment {
    File(FileAttachment),
}

/// Why a prompt could not be built.
#[derive(Clone, Copy, Debug, PartialEq, Eq, Structural)]
pub enum PromptError {
    /// No template has the path that the verb names.
    TemplateMissing,
    /// The template engine refused the templates or failed to render.
    RenderFailed,
}

/// What the template engine makes of the template `name` among
/// `templates` (a later one replaces an earlier one of the same path),
/// rendered with the variables `vars`; nothing when it fails.
pub uninterp spec fn rendered(
    templates: Seq<(Seq<char>, Seq<char>)>,
    name: Seq<char>,
    vars: Seq<(Seq<char>, Seq<char>)>,
) -> Option<Seq<char>>;

pub open spec fn pairs(v: Seq<(String, String)>) -> Seq<(Seq<char>, Seq<char>)> {
    v.map_values(|p: (String, String)| (p.0@, p.1@))
}

/// Relies on minijinja: `Environment::add_template_owned` registers each
/// template in turn (replacing one of the same name; a syntax error fails),
/// `Environment::get_template` looks `name` up and `Template::render` renders
/// it with `vars` as its context. The outcome depends on these values alone.
#[verifier::external_body]
fn render_template(templates: &Vec<Template>, name: &String, vars: &Vec<(String, String)>) -> (r: Option<String>)
    ensures
        r is Some <==> rendered(entries(templates@), name@, pairs(vars@)) is Some,
        r is Some ==> rendered(entries(templates@), name@, pairs(vars@)) == Some(r->0@),
{
    let mut env = minijinja::Environment::new();
    for t in templates.iter() {
        env.add_template_owned(t.path.clone(), t.contents.clone()).ok()?;
    }
    let ctx: std::collections::BTreeMap<&str, &str> =
        vars.iter().map(|(k, v)| (k.as_str(), v.as_str())).collect();
    env.get_template(name).ok()?.render(ctx).ok()
}

/// The paths of the file path parts, in order.
pub open spec fn file_paths(parts: Seq<PartView>) -> Seq<Seq<char>>
    decreases parts.len(),
{
    if parts.len() == 0 {
        Seq::empty()
    } else {
        let rest = file_paths(parts.drop_last());
        match parts.last() {
            PartView::FilePath { path, .. } => rest.push(path),
            _ => rest,
        }
    }
}

/// The code of the inline shell parts, in order.
pub open spec fn shell_codes(parts: Seq<PartView>) -> Seq<Seq<char>>
    decreases parts.len(),
{
    if parts.len() == 0 {
        Seq::empty()
    } else {
        let rest = shell_codes(parts.drop_last());
        match parts.last() {
            PartView::InlineShell { code, .. } => rest.push(code),
            _ => rest,
        }
    }
}

/// The pieces of the description: the text of each free-form part and, for
/// each inline shell part, the next of `results`; file paths give none.
pub open spec fn description_pieces(parts: Seq<PartView>, results: Seq<Seq<char>>) -> Seq<Seq<char>>
    decreases parts.len(),
{
    if parts.len() == 0 {
        Seq::empty()
    } else {
        match parts.last() {
            PartView::Freeform { text, .. } => description_pieces(parts.drop_last(), results).push(text),
            PartView::InlineShell { .. } => description_pieces(parts.drop_last(), results.drop_last()).push(
                results.last(),
            ),
            PartView::FilePath { .. } => description_pieces(parts.drop_last(), results),
        }
    }
}

/// The pieces joined with single spaces.
pub open spec fn join_words(pieces: Seq<Seq<char>>) -> Seq<char>
    decreases pieces.len(),
{
    if pieces.len() == 0 {
        Seq::empty()
    } else if pieces.len() == 1 {
        pieces[0]
    } else {
        join_words(pieces.drop_last()) + " "@ + pieces.last()
    }
}

pub open spec fn analyzed_views(parts: Seq<AnalyzedPart>) -> Seq<PartView> {
    parts.map_values(|p: AnalyzedPart| p.node_view())
}

/// One attachment per file path part, in order.
pub fn extract_attachments(sentence: &Sentence) -> (r: Vec<Attachment>)
    ensures
        r@.len() == file_paths(sentence@.parts).len(),
        forall|i: int|
            0 <= i < r@.len() ==> (#[trigger] r@[i])->File_0.path@ == file_paths(sentence@.parts)[i],
{
    let ghost pv = sentence@.parts;
    let mut r: Vec<Attachment> = Vec::new();
    let mut i: usize = 0;
    assert(pv.take(0) =~= Seq::<PartView>::empty());
    while i < sentence.parts.len()
        invariant
            i <= pv.len(),
            pv == sentence@.parts,
            r@.len() == file_paths(pv.take(i as int)).len(),
            forall|k: int|
                0 <= k < r@.len() ==> (#[trigger] r@[k])->File_0.path@ == file_paths(pv.take(i as int))[k],
        decreases pv.len() - i,
    {
        assert(pv.take(i + 1).drop_last() =~= pv.take(i as int));
        if let Part::FilePath(p) = &sentence.parts[i] {
            r.push(Attachment::File(FileAttachment { path: p.path.clone() }));
        }
        i = i + 1;
    }
    assert(pv.take(i as int) =~= pv);
    r
}

/// The code of each inline shell part, in order: what is to be run.
pub fn inline_shell_codes(sentence: &AnalyzedSentence) -> (r: Vec<String>)
    ensures
        r@.map_values(|s: String| s@) == shell_codes(analyzed_views(sentence.parts@)),
{
    let ghost pv = analyzed_views(sentence.parts@);
    let mut r: Vec<String> = Vec::new();
    let mut i: usize = 0;
    assert(pv.take(0) =~= Seq::<PartView>::empty());
    while i < sentence.parts.len()
        invariant
            i <= pv.len(),
            pv == analyzed_views(sentence.parts@),
            r@.map_values(|s: String| s@) == shell_codes(pv.take(i as int)),
        decreases pv.len() - i,
    {
        assert(pv.take(i + 1).drop_last() =~= pv.take(i as int));
        let ghost before = r@;
        if let AnalyzedPart::InlineShell(p) = &sentence.parts[i] {
            r.push(p.node.code.clone());
            assert(r@.map_values(|s: String| s@) =~= before.map_values(|s: String| s@).push(p.node.code@));
        }
        i = i + 1;
    }
    assert(pv.take(i as int) =~= pv);
    r
}

/// The description that the parts make up, given the rendered result of
/// each inline shell part in order: the pieces joined with spaces.
pub fn extract_description(sentence: &AnalyzedSentence, shell_results: &Vec<String>) -> (r: String)
    requires
        shell_results@.len() == shell_codes(analyzed_views(sentence.parts@)).len(),
    ensures
        r@ == join_words(
            description_pieces(
                analyzed_views(sentence.parts@),
                shell_results@.map_values(|s: String| s@),
            ),
        ),
{
    let ghost pv = analyzed_views(sentence.parts@);
    let ghost rv = shell_results@.map_values(|s: String| s@);
    let mut out: Vec<char> = Vec::new();
    let mut i: usize = 0;
    let mut k: usize = 0;
    let mut any = false;
    let n_res = shell_results.len();
    assert(pv.take(0) =~= Seq::<PartView>::empty());
    assert(rv.take(0) =~= Seq::<Seq<char>>::empty());
    proof {
        lemma_shell_count_prefix(pv, pv.len() as int);
        assert(pv.take(pv.len() as int) =~= pv);
    }
    while i < sentence.parts.len()
        invariant
            i <= pv.len(),
            pv == analyzed_views(sentence.parts@),
            rv == shell_results@.map_values(|s: String| s@),
            rv.len() == shell_codes(pv).len(),
            n_res == rv.len(),
            k == shell_codes(pv.take(i as int)).len(),
            k <= rv.len(),
            out@ == join_words(description_pieces(pv.take(i as int), rv.take(k as int))),
            any == (description_pieces(pv.take(i as int), rv.take(k as int)).len() > 0),
        decreases pv.len() - i,
    {
        let ghost pieces = description_pieces(pv.take(i as int), rv.take(k as int));
        assert(pv.take(i + 1).drop_last() =~= pv.take(i as int));
        proof {
            lemma_shell_count_prefix(pv, i + 1);
        }
        match &sentence.parts[i] {
            AnalyzedPart::Freeform(p) => {
                assert(pv.take(i + 1).last() == pv[i as int]);
                assert(pieces.push(p.node.text@).drop_last() =~= pieces);
                if any {
                    push_str(&mut out, " ");
                }
                push_str(&mut out, p.node.text.as_str());
                any = true;
            },
            AnalyzedPart::InlineShell(_) => {
                assert(pv.take(i + 1).last() == pv[i as int]);
                assert(rv.take(k + 1).drop_last() =~= rv.take(k as int));
                assert(pieces.push(rv[k as int]).drop_last() =~= pieces);
                assert(shell_codes(pv.take(i + 1)).len() == k + 1);
                assert(k < shell_results@.len());
                if any {
                    push_str(&mut out, " ");
                }
                push_str(&mut out, shell_results[k].as_str());
                any = true;
                k = k + 1;
            },
            AnalyzedPart::FilePath(_) => {
                assert(pv.take(i + 1).last() == pv[i as int]);
            },
        }
        i = i + 1;
    }
    assert(pv.take(i as int) =~= pv);
    assert(rv.take(k as int) =~= rv);
    string_of(&out)
}

proof fn lemma_shell_count_prefix(parts: Seq<PartView>, n: int)
    requires
        0 <= n <= parts.len(),
    ensures
        shell_codes(parts.take(n)).len() <= shell_codes(parts).len(),
        n > 0 ==> shell_codes(parts.take(n - 1)).len() <= shell_codes(parts.take(n)).len(),
    decreases parts.len(),
{
    if n > 0 {
        assert(parts.take(n).drop_last() =~= parts.take(n - 1));
    }
    if n < parts.len() {
        assert(parts.drop_last().take(n) =~= parts.take(n));
        lemma_shell_count_prefix(parts.drop_last(), n);
    } else {
        assert(parts.take(n) =~= parts);
    }
}

/// The templates that prompts are rendered with: the built-in ones, then the
/// user's, which replace built-in ones of the same path.
pub fn build_environment(ctx: &AnalysisContext) -> (r: Vec<Template>)
    ensures
        entries(r@) == entries(ctx.built_in@) + entries(ctx.user@),
{
    let mut r: Vec<Template> = Vec::new();
    let mut i: usize = 0;
    while i < ctx.built_in.len()
        invariant
            i <= ctx.built_in@.len(),
            entries(r@) =~= entries(ctx.built_in@.take(i as int)),
        decreases ctx.built_in@.len() - i,
    {
        let ghost before = r@;
        r.push(copy_template(&ctx.built_in[i]));
        assert(ctx.built_in@.take(i + 1) =~= ctx.built_in@.take(i as int).push(ctx.built_in@[i as int]));
        assert(entries(r@) =~= entries(before).push((ctx.built_in@[i as int].path@, ctx.built_in@[i as int].contents@)));
        assert(entries(ctx.built_in@.take(i + 1)) =~= entries(ctx.built_in@.take(i as int)).push((ctx.built_in@[i as int].path@, ctx.built_in@[i as int].contents@)));
        i = i + 1;
    }
    assert(ctx.built_in@.take(i as int) =~= ctx.built_in@);
    let mut j: usize = 0;
    while j < ctx.user.len()
        invariant
            j <= ctx.user@.len(),
            entries(r@) =~= entries(ctx.built_in@) + entries(ctx.user@.take(j as int)),
        decreases ctx.user@.len() - j,
    {
        let ghost before = r@;
        r.push(copy_template(&ctx.user[j]));
        assert(ctx.user@.take(j + 1) =~= ctx.user@.take(j as int).push(ctx.user@[j as int]));
        assert(entries(r@) =~= entries(before).push((ctx.user@[j as int].path@, ctx.user@[j as int].contents@)));
        assert(entries(ctx.user@.take(j + 1)) =~= entries(ctx.user@.take(j as int)).push((ctx.user@[j as int].path@, ctx.user@[j as int].contents@)));
        j = j + 1;
    }
    assert(ctx.user@.take(j as int) =~= ctx.user@);
    r
}

fn copy_template(t: &Template) -> (r: Template)
    ensures
        r.path@ == t.path@,
        r.contents@ == t.contents@,
        r.source == t.source,
        r.template_type == t.template_type,
{
    Template {
        path: t.path.clone(),
        contents: t.contents.clone(),
        source: t.source,
        template_type: t.template_type,
    }
}

/// Renders the output of an inline shell snippet through the `parts/shell`
/// template, which shows the code and what it printed.
pub fn format_cmd_result(code: &String, output: &String, environment: &Vec<Template>) -> (r: Option<String>)
    ensures
        r is Some <==> rendered(
            entries(environment@),
            "parts/shell"@,
            seq![("code"@, code@), ("result"@, output@)],
        ) is Some,
        r is Some ==> rendered(
            entries(environment@),
            "parts/shell"@,
            seq![("code"@, code@), ("result"@, output@)],
        ) == Some(r->0@),
{
    let mut vars: Vec<(String, String)> = Vec::new();
    vars.push(("code".to_owned(), code.clone()));
    vars.push(("result".to_owned(), output.clone()));
    assert(pairs(vars@) =~= seq![("code"@, code@), ("result"@, output@)]);
    render_template(environment, &"parts/shell".to_owned(), &vars)
}

/// Renders the template that the verb names with the given description.
pub fn build_prompt(sentence: &AnalyzedSentence, environment: &Vec<Template>, description: &String) -> (r: Result<String, PromptError>)
    ensures
        lookup(entries(environment@), sentence.verb.template_name@) is None <==> r == Err::<String, PromptError>(PromptError::TemplateMissing),
        lookup(entries(environment@), sentence.verb.template_name@) is Some ==> match rendered(
            entries(environment@),
            sentence.verb.template_name@,
            seq![("description"@, description@)],
        ) {
            Some(text) => r is Ok && r->Ok_0@ == text,
            None => r == Err::<String, PromptError>(PromptError::RenderFailed),
        },
{
    if find_template(environment, &sentence.verb.template_name).is_none() {
        return Err(PromptError::TemplateMissing);
    }
    let mut vars: Vec<(String, String)> = Vec::new();
    vars.push(("description".to_owned(), description.clone()));
    assert(pairs(vars@) =~= seq![("description"@, description@)]);
    match render_template(environment, &sentence.verb.template_name, &vars) {
        Some(text) => Ok(text),
        None => Err(PromptError::RenderFailed),
    }
}

} // verus!
