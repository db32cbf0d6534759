//! Templates: the built-in set, user templates as read from the user's
//! configuration, and how a path resolves against both.
use vstd::prelude::*;

use crate::text::{chars_of, push_str, string_of};

verus! {

/// Where a template comes from.
#[derive(Clone, Copy, Debug, PartialEq, Eq, Structural)]
pub enum TemplateSource {
    BuiltIn,
    User,
}

/// What a template is used for.
#[derive(Clone, Copy, Debug, PartialEq, Eq, Structural)]
pub enum TemplateType {
    Verb,
}

/// A named text-expansion unit.
#[derive(Clone, Debug)]
pub struct Template {
    pub path: String,
    pub contents: String,
    pub source: TemplateSource,
    pub template_type: TemplateType,
}

/// A store of templates as (path, contents) pairs, in order.
pub open spec fn entries(ts: Seq<Template>) -> Seq<(Seq<char>, Seq<char>)> {
    ts.map_values(|t: Template| (t.path@, t.contents@))
}

/// The contents of the first entry of `store` at `path`.
pub open spec fn lookup(store: Seq<(Seq<char>, Seq<char>)>, path: Seq<char>) -> Option<Seq<char>>
    decreases store.len(),
{
    if store.len() == 0 {
        None
    } else if store[0].0 == path {
        Some(store[0].1)
    } else {
        lookup(store.drop_first(), path)
    }
}

/// A path resolves to a user template if there is one, else to a built-in one.
pub open spec fn resolve(
    built_in: Seq<(Seq<char>, Seq<char>)>,
    user: Seq<(Seq<char>, Seq<char>)>,
    path: Seq<char>,
) -> Option<Seq<char>> {
    if lookup(user, path) is Some {
        lookup(user, path)
    } else {
        lookup(built_in, path)
    }
}

/// The templates compiled into the library.
pub open spec fn built_in_entries() -> Seq<(Seq<char>, Seq<char>)> {
    seq![
        ("verbs/base/base"@, "{% block body %}{% endblock %}"@),
        ("verbs/create"@, "create for me a(n) {{description}}"@),
        ("parts/shell"@, "`{{code}}`:\n```\n{{result}}\n```"@),
    ]
}

/// What a user template created from `value` holds: the value, wrapped so
/// that it extends the shared base template and appends the description.
pub open spec fn user_template_body_of(value: Seq<char>) -> Seq<char> {
    "{% extends \"verbs/base/base\" %}{% block body %}"@ + value
        + " {{description}}{% endblock %}"@
}

/// The store after asking for a user template at `path` made from `value`:
/// an existing template at that path is never overwritten.
pub open spec fn store_create(
    store: Seq<(Seq<char>, Seq<char>)>,
    path: Seq<char>,
    value: Seq<char>,
) -> Seq<(Seq<char>, Seq<char>)> {
    if lookup(store, path) is Some {
        store
    } else {
        store.push((path, user_template_body_of(value)))
    }
}

fn built_in(path: &str, contents: &str) -> (r: Template)
    ensures
        r.path@ == path@,
        r.contents@ == contents@,
        r.source == TemplateSource::BuiltIn,
        r.template_type == TemplateType::Verb,
{
    Template {
        path: path.to_owned(),
        contents: contents.to_owned(),
        source: TemplateSource::BuiltIn,
        template_type: TemplateType::Verb,
    }
}

/// The templates compiled into the library.
pub fn get_built_in_templates() -> (r: Vec<Template>)
    ensures
        entries(r@) == built_in_entries(),
        forall|i: int| 0 <= i < r@.len() ==> (#[trigger] r@[i]).source == TemplateSource::BuiltIn,
{
    let mut r: Vec<Template> = Vec::new();
    r.push(built_in("verbs/base/base", "{% block body %}{% endblock %}"));
    r.push(built_in("verbs/create", "create for me a(n) {{description}}"));
    r.push(built_in("parts/shell", "`{{code}}`:\n```\n{{result}}\n```"));
    assert(entries(r@) =~= built_in_entries());
    r
}

/// `path` with every backslash turned into a forward slash.
pub open spec fn normalized_path(path: Seq<char>) -> Seq<char> {
    path.map_values(|c: char| if c == '\\' { '/' } else { c })
}

fn normalize_path(path: &str) -> (r: String)
    ensures
        r@ == normalized_path(path@),
{
    let cs = chars_of(path);
    let mut out: Vec<char> = Vec::new();
    let mut i: usize = 0;
    while i < cs.len()
        invariant
            i <= cs@.len(),
            cs@ == path@,
            out@ =~= normalized_path(cs@.take(i as int)),
        decreases cs@.len() - i,
    {
        let c = cs[i];
        if c == '\\' {
            out.push('/');
        } else {
            out.push(c);
        }
        assert(cs@.take(i + 1) =~= cs@.take(i as int).push(c));
        i = i + 1;
    }
    assert(cs@.take(i as int) =~= cs@);
    string_of(&out)
}

/// User templates from the files of the user's template directory, each
/// given as its path relative to that directory and its contents.
pub fn get_user_templates(files: Vec<(String, String)>) -> (r: Vec<Template>)
    ensures
        r@.len() == files@.len(),
        forall|i: int|
            0 <= i < r@.len() ==> {
                &&& (#[trigger] r@[i]).path@ == normalized_path(files@[i].0@)
                &&& r@[i].contents@ == files@[i].1@
                &&& r@[i].source == TemplateSource::User
                &&& r@[i].template_type == TemplateType::Verb
            },
{
    let mut r: Vec<Template> = Vec::new();
    let mut i: usize = 0;
    while i < files.len()
        invariant
            i <= files@.len(),
            r@.len() == i,
            forall|k: int|
                0 <= k < i ==> {
                    &&& (#[trigger] r@[k]).path@ == normalized_path(files@[k].0@)
                    &&& r@[k].contents@ == files@[k].1@
                    &&& r@[k].source == TemplateSource::User
                    &&& r@[k].template_type == TemplateType::Verb
                },
        decreases files@.len() - i,
    {
        let path = normalize_path(files[i].0.as_str());
        let contents = files[i].1.clone();
        r.push(Template { path, contents, source: TemplateSource::User, template_type: TemplateType::Verb });
        i = i + 1;
    }
    r
}

/// The contents of the first template of `ts` at `path`.
pub fn find_template(ts: &Vec<Template>, path: &String) -> (r: Option<String>)
    ensures
        r is None <==> lookup(entries(ts@), path@) is None,
        r is Some ==> lookup(entries(ts@), path@) == Some(r->0@),
{
    let mut i: usize = 0;
    assert(entries(ts@).subrange(0, ts@.len() as int) =~= entries(ts@));
    while i < ts.len()
        invariant
            i <= ts@.len(),
            lookup(entries(ts@), path@) == lookup(entries(ts@).subrange(i as int, ts@.len() as int), path@),
        decreases ts@.len() - i,
    {
        let ghost rest = entries(ts@).subrange(i as int, ts@.len() as int);
        assert(rest.drop_first() =~= entries(ts@).subrange(i + 1, ts@.len() as int));
        if ts[i].path == *path {
            return Some(ts[i].contents.clone());
        }
        i = i + 1;
    }
    None
}

/// The contents that `path` resolves to: a user template wins over a
/// built-in one at the same path.
pub fn resolve_template(built_in: &Vec<Template>, user: &Vec<Template>, path: &String) -> (r: Option<String>)
    ensures
        r is None <==> resolve(entries(built_in@), entries(user@), path@) is None,
        r is Some ==> resolve(entries(built_in@), entries(user@), path@) == Some(r->0@),
{
    match find_template(user, path) {
        Some(c) => Some(c),
        None => find_template(built_in, path),
    }
}

/// What a user template made from `value` holds.
pub fn user_template_body(value: &str) -> (r: String)
    ensures
        r@ == user_template_body_of(value@),
{
    let mut v: Vec<char> = Vec::new();
    push_str(&mut v, "{% extends \"verbs/base/base\" %}{% block body %}");
    push_str(&mut v, value);
    push_str(&mut v, " {{description}}{% endblock %}");
    string_of(&v)
}

proof fn lemma_lookup_some(store: Seq<(Seq<char>, Seq<char>)>, path: Seq<char>, k: int)
    requires
        0 <= k < store.len(),
        store[k].0 == path,
    ensures
        lookup(store, path) is Some,
    decreases store.len(),
{
    if store[0].0 != path {
        lemma_lookup_some(store.drop_first(), path, k - 1);
    }
}

/// A user template at a path hides a built-in template at the same path:
/// the path resolves to the user template.
pub proof fn lemma_user_template_wins(
    built_in: Seq<(Seq<char>, Seq<char>)>,
    user: Seq<(Seq<char>, Seq<char>)>,
    path: Seq<char>,
    k: int,
)
    requires
        0 <= k < user.len(),
        user[k].0 == path,
    ensures
        resolve(built_in, user, path) is Some,
        resolve(built_in, user, path) == lookup(user, path),
{
    lemma_lookup_some(user, path, k);
}

} // verus!
