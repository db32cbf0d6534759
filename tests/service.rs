use lakonik::completion::{sorted_unique, CompletionKind};
use lakonik::hir::AnalysisContext;
use lakonik::position::SourcePosition;
use lakonik::server::ServerState;
use lakonik::templates::get_built_in_templates;

fn context() -> AnalysisContext {
    AnalysisContext { built_in: get_built_in_templates(), user: Vec::new() }
}

fn pos(line: usize, character: usize) -> SourcePosition {
    SourcePosition { line, character }
}

fn executables() -> Vec<String> {
    ["ls", "find", "xargs", "bash", "ls", "foo-tool"].iter().map(|s| s.to_string()).collect()
}

fn hover_text(source: &str) -> Option<String> {
    let idx = source.find("***").expect("No hover marker (***) found in source!");
    let clean = format!("{}{}", &source[..idx], &source[idx + 3..]);
    let mut server = ServerState::new();
    let uri = "file:///testfile".to_string();
    server.on_did_open(uri.clone(), &clean, &context());
    server.hover(&uri, &pos(0, idx))
}

fn completion_labels(source: &str, at: SourcePosition) -> Option<Vec<String>> {
    let mut server = ServerState::new();
    let uri = "file:///testfile".to_string();
    server.on_did_open(uri.clone(), source, &context());
    server
        .completion(&uri, &at, &executables())
        .map(|list| list.items.into_iter().map(|item| item.label).collect())
}

#[test]
fn hover_cases() {
    let text = hover_text("qw***en3 create foobar").expect("expected some hover text, got `None`");
    assert!(text.ends_with("vocative: qwen3"), "{text}");
    let text = hover_text("hell***o create foobar").expect("expected some hover text, got `None`");
    assert!(text.ends_with("vocative: hello"), "{text}");
    let actual = hover_text("foobar *** create lorem");
    assert!(actual.is_none(), "expected no hover text, but got `{actual:?}`");
    let text = hover_text("test c***reate foobar").unwrap();
    assert!(text.starts_with("_Verb_"), "{text}");
    let at = text.find("create").unwrap();
    assert!(text[at + 6..].contains("create for me a"), "{text}");
    let text = hover_text("test ~f***oo=(lorem ipsum) foobar").unwrap();
    assert!(text.starts_with("_Verb_"), "{text}");
    let at = text.find("foo").unwrap();
    assert!(text[at..].contains("lorem ipsum"), "{text}");
    let text = hover_text("test ***create foobar").unwrap();
    assert!(text.starts_with("_Verb_") && text.contains("create"), "{text}");
    let text = hover_text("test create foo***bar").unwrap();
    assert!(text.starts_with("This is a part"), "{text}");
    let text = hover_text("test create test module in $(tre***e .)").unwrap();
    assert!(text.contains("expand to the results of `tree .`"), "{text}");
}

#[test]
fn hover_over_every_character_of_the_vocative() {
    for idx in 0..5 {
        let source = format!("{}***{}", &"qwen3 create foobar"[..idx], &"qwen3 create foobar"[idx..]);
        assert_eq!(hover_text(&source).unwrap(), "Hover text for vocative: qwen3");
    }
    assert_ne!(
        hover_text("qwen3*** create foobar"),
        Some("Hover text for vocative: qwen3".to_string())
    );
}

#[test]
fn hover_texts_are_exact() {
    assert_eq!(
        hover_text("test c***reate foobar").unwrap(),
        "_Verb_ **verbs/create**\n\n```\ncreate for me a(n) {{description}}\n```"
    );
    assert_eq!(
        hover_text("test ru***n foobar").unwrap(),
        "_Verb_ **verbs/run**\n\n```\n*N/A*\n```"
    );
    assert_eq!(hover_text("test run @a***b.txt").unwrap(), "This is a file path part");
    assert_eq!(
        hover_text("test run $(ec***ho hi)").unwrap(),
        "Will expand to the results of `echo hi`"
    );
}

#[test]
fn completion_cases() {
    let some = |words: &[&str]| Some(words.iter().map(|w| w.to_string()).collect::<Vec<_>>());
    assert_eq!(completion_labels("qwen3 create f", pos(0, 15)), some(&["foo"]));
    assert_eq!(completion_labels("qwen3 create b", pos(0, 15)), some(&["bar"]));
    assert_eq!(completion_labels("qwen3 create l", pos(0, 15)), some(&["lorem"]));
    assert_eq!(completion_labels("qwen3 create x", pos(0, 15)), some(&[]));
    assert_eq!(completion_labels("qwen3 create fo", pos(0, 16)), some(&["foo"]));
    assert_eq!(completion_labels("qwen3 create ba", pos(0, 16)), some(&["bar"]));
    assert_eq!(completion_labels("qwen3 create lo", pos(0, 16)), some(&["lorem"]));
    assert_eq!(completion_labels("qwen3 create", pos(0, 10)), None);
    assert_eq!(completion_labels("qwen3 cre", pos(0, 8)), None);
    assert_eq!(completion_labels("qwen", pos(0, 4)), None);
    assert_eq!(completion_labels("invalid document", pos(0, 10)), None);
}

#[test]
fn completion_gating_at_the_verb_end() {
    assert_eq!(completion_labels("qwen3 create  ", pos(0, 12)), None);
    let all = completion_labels("qwen3 create  ", pos(0, 13)).unwrap();
    assert_eq!(
        all,
        vec!["$(bash)", "$(find)", "$(foo-tool)", "$(ls)", "$(xargs)", "foo", "bar", "lorem"]
    );
}

#[test]
fn completion_items_carry_kind_and_detail() {
    let mut server = ServerState::new();
    let uri = "doc".to_string();
    server.on_did_open(uri.clone(), "qwen3 create  ", &context());
    let list = server.completion(&uri, &pos(0, 14), &executables()).unwrap();
    assert!(!list.is_incomplete);
    assert_eq!(list.items[0].kind, CompletionKind::Function);
    assert_eq!(list.items[0].detail.as_deref(), Some("Execute command: bash"));
    let last = list.items.last().unwrap();
    assert_eq!(last.kind, CompletionKind::Text);
    assert_eq!(last.detail, None);
}

#[test]
fn sorted_unique_orders_and_dedups() {
    let names: Vec<String> = ["b", "a", "ab", "b", "", "a"].iter().map(|s| s.to_string()).collect();
    assert_eq!(sorted_unique(&names), vec!["", "a", "ab", "b"]);
    assert_eq!(sorted_unique(&Vec::new()), Vec::<String>::new());
}

#[test]
fn document_lifecycle() {
    let ctx = context();
    let mut server = ServerState::new();
    let uri = "file:///a".to_string();
    let other = "file:///b".to_string();
    server.on_did_open(uri.clone(), "john run", &ctx);
    server.on_did_open(other.clone(), "mary sing", &ctx);
    assert!(server.get(&uri).is_some());
    assert_eq!(server.hover(&uri, &pos(0, 1)).unwrap(), "Hover text for vocative: john");
    server.on_did_change(uri.clone(), vec!["bad!".to_string(), "anna run".to_string()], &ctx);
    assert_eq!(server.hover(&uri, &pos(0, 1)).unwrap(), "Hover text for vocative: anna");
    server.on_did_change(uri.clone(), Vec::new(), &ctx);
    assert_eq!(server.hover(&uri, &pos(0, 1)).unwrap(), "Hover text for vocative: anna");
    server.on_did_change(uri.clone(), vec!["bad!".to_string()], &ctx);
    assert!(server.get(&uri).is_none());
    assert!(server.hover(&uri, &pos(0, 1)).is_none());
    assert_eq!(server.hover(&other, &pos(0, 1)).unwrap(), "Hover text for vocative: mary");
    server.on_did_close(&other);
    assert!(server.get(&other).is_none());
    assert_eq!(server.docs.len(), 0);
}
