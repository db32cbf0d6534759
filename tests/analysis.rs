use lakonik::ast::Part;
use lakonik::engine::{
    build_environment, build_prompt, extract_attachments, extract_description, format_cmd_result,
    inline_shell_codes, Attachment, PromptError,
};
use lakonik::hir::{AnalysisContext, Analyzable, AnalyzedPart};
use lakonik::parser::parse_statement;
use lakonik::templates::{
    find_template, get_built_in_templates, get_user_templates, resolve_template,
    user_template_body, TemplateSource,
};

fn context_with(user: Vec<(String, String)>) -> AnalysisContext {
    AnalysisContext { built_in: get_built_in_templates(), user: get_user_templates(user) }
}

#[test]
fn analysis_keeps_nodes_and_names_the_template() {
    let s = parse_statement("john run foo @a.txt").unwrap();
    let a = s.analyze(&context_with(Vec::new()));
    assert_eq!(a.vocative.node.name, "john");
    assert_eq!(a.vocative.hover_text, "Hover text for vocative: john");
    assert_eq!(a.verb.template_name, "verbs/run");
    assert_eq!(a.hover_text, "This is a part");
    assert_eq!(a.parts.len(), 2);
    assert_eq!(a.node.parts.len(), 2);
    match &a.parts[0] {
        AnalyzedPart::Freeform(p) => {
            assert_eq!(p.node.text, "foo");
            assert_eq!(p.hover_text, "This is a part");
        }
        _ => panic!("expected a free-form part"),
    }
}

#[test]
fn user_template_wins_over_built_in() {
    let ctx = context_with(vec![(
        "verbs/create".to_string(),
        "my own create".to_string(),
    )]);
    let path = "verbs/create".to_string();
    assert_eq!(resolve_template(&ctx.built_in, &ctx.user, &path).unwrap(), "my own create");
    let s = parse_statement("bot create x").unwrap();
    let a = s.analyze(&ctx);
    assert_eq!(a.verb.hover_text, "_Verb_ **verbs/create**\n\n```\nmy own create\n```");
    let none = context_with(Vec::new());
    assert_eq!(
        resolve_template(&none.built_in, &none.user, &path).unwrap(),
        "create for me a(n) {{description}}"
    );
    assert!(resolve_template(&none.built_in, &none.user, &"verbs/nothing".to_string()).is_none());
}

#[test]
fn user_templates_from_files() {
    let ts = get_user_templates(vec![("verbs\\x".to_string(), "body".to_string())]);
    assert_eq!(ts.len(), 1);
    assert_eq!(ts[0].path, "verbs/x");
    assert_eq!(ts[0].contents, "body");
    assert_eq!(ts[0].source, TemplateSource::User);
    let built = get_built_in_templates();
    assert!(built.iter().all(|t| t.source == TemplateSource::BuiltIn));
    assert_eq!(built.len(), 3);
}

#[test]
fn assignment_creates_its_template_once() {
    let first = parse_statement("robot ~foo=(bar)").unwrap().analyze(&context_with(Vec::new()));
    let creation = first.verb.ensure_template(&Vec::new()).expect("template should be asked for");
    assert_eq!(creation.path, "verbs/foo");
    assert_eq!(creation.value, "bar");
    let body = user_template_body(&creation.value);
    assert_eq!(
        body,
        "{% extends \"verbs/base/base\" %}{% block body %}bar {{description}}{% endblock %}"
    );
    let store = get_user_templates(vec![(creation.path.clone(), body.clone())]);
    let second = parse_statement("robot ~foo=(baz)").unwrap().analyze(&context_with(Vec::new()));
    assert!(second.verb.ensure_template(&store).is_none());
    assert_eq!(find_template(&store, &"verbs/foo".to_string()).unwrap(), body);
    let simple = parse_statement("robot foo").unwrap().analyze(&context_with(Vec::new()));
    assert!(simple.verb.ensure_template(&Vec::new()).is_none());
}

#[test]
fn attachment_extraction() {
    let s = parse_statement("qwen3 create @hello.txt").unwrap();
    let attachments = extract_attachments(&s);
    assert_eq!(attachments.len(), 1);
    match &attachments[0] {
        Attachment::File(f) => assert_eq!(f.path, "hello.txt"),
    }
    let s = parse_statement("qwen3 edit foo @a bar @b").unwrap();
    let paths: Vec<String> = extract_attachments(&s)
        .into_iter()
        .map(|a| match a {
            Attachment::File(f) => f.path,
        })
        .collect();
    assert_eq!(paths, vec!["a", "b"]);
}

#[test]
fn description_joins_words_and_shell_results() {
    let ctx = context_with(Vec::new());
    let a = parse_statement("qwen3 create bar @x $(expr 2 + 3) baz").unwrap().analyze(&ctx);
    assert_eq!(inline_shell_codes(&a), vec!["expr 2 + 3"]);
    let d = extract_description(&a, &vec!["FIVE".to_string()]);
    assert_eq!(d, "bar FIVE baz");
    let b = parse_statement("qwen3 create @x").unwrap().analyze(&ctx);
    assert_eq!(extract_description(&b, &Vec::new()), "");
}

#[test]
fn inline_shell_rendering_embeds_code_and_output() {
    let ctx = context_with(Vec::new());
    let a = parse_statement("qwen3 create $(echo hi)").unwrap().analyze(&ctx);
    match &a.node.parts[0] {
        Part::InlineShell(p) => assert_eq!(p.code, "echo hi"),
        _ => panic!("expected an inline shell part"),
    }
    let env = build_environment(&ctx);
    let shown = format_cmd_result(&"echo hi".to_string(), &"hi\n".to_string(), &env).unwrap();
    assert_eq!(shown, "`echo hi`:\n```\nhi\n\n```");
    let d = extract_description(&a, &vec![shown.clone()]);
    let prompt = build_prompt(&a, &env, &d).unwrap();
    assert_eq!(prompt, format!("create for me a(n) {shown}"));
}

#[test]
fn prompt_errors() {
    let ctx = context_with(Vec::new());
    let env = build_environment(&ctx);
    let a = parse_statement("john run").unwrap().analyze(&ctx);
    assert_eq!(build_prompt(&a, &env, &String::new()).err(), Some(PromptError::TemplateMissing));
    let broken = context_with(vec![("verbs/run".to_string(), "{% block %}".to_string())]);
    let env = build_environment(&broken);
    assert_eq!(build_prompt(&a, &env, &String::new()).err(), Some(PromptError::RenderFailed));
}

#[test]
fn user_template_extends_base() {
    let body = user_template_body("hello");
    let ctx = context_with(vec![("verbs/greet".to_string(), body)]);
    let env = build_environment(&ctx);
    let a = parse_statement("robot greet world").unwrap().analyze(&ctx);
    let d = extract_description(&a, &Vec::new());
    assert_eq!(build_prompt(&a, &env, &d).unwrap(), "hello world");
}
