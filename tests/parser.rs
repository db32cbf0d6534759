use lakonik::ast::{Part, Verb};
use lakonik::parser::{parse, parse_statement};
use lakonik::position::{range, SourcePosition, SourceRange};

fn pos(line: usize, character: usize) -> SourcePosition {
    SourcePosition { line, character }
}

#[test]
fn parses_vocative_and_simple_verb() {
    let s = parse_statement("john run").expect("parser should succeed");
    assert_eq!(s.vocative.name, "john");
    assert_eq!(s.vocative.range, SourceRange { start: pos(0, 0), end: pos(0, 4) });
    match &s.verb {
        Verb::Simple(v) => {
            assert_eq!(v.name, "run");
            assert_eq!(v.range, SourceRange { start: pos(0, 5), end: pos(0, 8) });
        }
        Verb::Assignment(_) => panic!("expected a simple verb"),
    }
    assert_eq!(s.parts.len(), 0);
    assert_eq!(s.range, SourceRange { start: pos(0, 0), end: pos(0, 8) });
}

#[test]
fn parses_valid_sentences() {
    for input in [
        "john run",
        "alice42 jump",
        "my-name jump-fast",
        "bob123 fly",
        "john-doe123 run-fast",
        "john- run",
        "qwen3 create @hello.txt",
        "qwen3 edit @hello.txt foo",
        "qwen3 edit foo @hello.txt bar",
        "qwen3 delete bar @hello.txt",
        "qwen3 delete @hello.txt",
        "qwen3 create $(  tree .)",
        "qwen3 edit $(ls) foo",
        "qwen3 edit foo $(find . | grep hello | grep py) bar",
        "qwen3 delete bar $(git diff)",
        "qwen3 summarize $(curl https://google.com)",
        "   whitespace allow",
        "   whitespace magic   ",
        "want some whitespace   ",
    ] {
        assert!(parse_statement(input).is_ok(), "{input} should parse");
    }
}

#[test]
fn test_parse_statement_failure() {
    for input in ["42run", "john run!", " run", "", "alice! jump"] {
        assert!(parse_statement(input).is_err(), "{input} should not parse");
        assert!(parse(input).is_none());
    }
}

#[test]
fn file_path_part_scenario() {
    let s = parse_statement("qwen3 create @hello.txt").unwrap();
    assert_eq!(s.parts.len(), 1);
    match &s.parts[0] {
        Part::FilePath(p) => {
            assert_eq!(p.path, "hello.txt");
            assert_eq!(p.range, SourceRange { start: pos(0, 14), end: pos(0, 23) });
        }
        _ => panic!("expected a file path part"),
    }
}

#[test]
fn inline_shell_part_scenario() {
    let s = parse_statement("qwen3 create $(echo hi)").unwrap();
    assert_eq!(s.parts.len(), 1);
    match &s.parts[0] {
        Part::InlineShell(p) => {
            assert_eq!(p.code, "echo hi");
            assert_eq!(p.range, SourceRange { start: pos(0, 15), end: pos(0, 22) });
        }
        _ => panic!("expected an inline shell part"),
    }
}

#[test]
fn inline_shell_stops_at_first_close_paren() {
    let s = parse_statement("qwen3 create $(echo (hi)").unwrap();
    match &s.parts[0] {
        Part::InlineShell(p) => assert_eq!(p.code, "echo (hi"),
        _ => panic!("expected an inline shell part"),
    }
    assert!(parse_statement("qwen3 create $(echo (hi))").is_err());
}

#[test]
fn parts_keep_source_order() {
    let s = parse_statement("qwen3 edit foo $(find . | grep py) bar @x.rs").unwrap();
    assert_eq!(s.parts.len(), 4);
    match (&s.parts[0], &s.parts[1], &s.parts[2], &s.parts[3]) {
        (Part::Freeform(a), Part::InlineShell(b), Part::Freeform(c), Part::FilePath(d)) => {
            assert_eq!(a.text, "foo");
            assert_eq!(b.code, "find . | grep py");
            assert_eq!(c.text, "bar");
            assert_eq!(d.path, "x.rs");
            assert!(a.range.end.character < b.range.start.character);
            assert!(b.range.end.character < c.range.start.character);
            assert!(c.range.end.character < d.range.start.character);
        }
        _ => panic!("unexpected part kinds"),
    }
    let verb_end = s.verb.get_range().end.character;
    assert!(s.vocative.range.end.character < s.verb.get_range().start.character);
    assert!(verb_end < s.parts[0].get_range().start.character);
}

#[test]
fn assignment_verb_forms() {
    let s = parse_statement("robot ~testverbdeleteme2 = (hello)").unwrap();
    match &s.verb {
        Verb::Assignment(v) => {
            assert_eq!(v.name, "testverbdeleteme2");
            assert_eq!(v.value, "hello");
            assert_eq!(v.range, SourceRange { start: pos(0, 6), end: pos(0, 34) });
        }
        Verb::Simple(_) => panic!("expected an assignment"),
    }
    let s = parse_statement("robot ~testverbdeleteme1=(test template delete me: ) $(expr 5 - 3)").unwrap();
    match &s.verb {
        Verb::Assignment(v) => {
            assert_eq!(v.name, "testverbdeleteme1");
            assert_eq!(v.value, "test template delete me: ");
        }
        Verb::Simple(_) => panic!("expected an assignment"),
    }
    assert_eq!(s.parts.len(), 1);
    assert!(parse_statement("robot ~foo=(bar").is_err());
}

#[test]
fn lines_are_zero_based_and_offsets_count_bytes() {
    let s = parse_statement("john\nrun @é.txt").unwrap();
    assert_eq!(s.verb.get_range(), SourceRange { start: pos(1, 5), end: pos(1, 8) });
    match &s.parts[0] {
        Part::FilePath(p) => {
            assert_eq!(p.path, "é.txt");
            assert_eq!(p.range, SourceRange { start: pos(1, 10), end: pos(1, 16) });
        }
        _ => panic!("expected a file path part"),
    }
    assert_eq!(s.range.end, pos(1, 16));
}

#[test]
fn range_walks_the_fragment() {
    let chars: Vec<char> = "ab\ncé".chars().collect();
    let r = range(pos(2, 10), &chars);
    assert_eq!(r, SourceRange { start: pos(2, 10), end: pos(3, 16) });
    let empty: Vec<char> = Vec::new();
    assert_eq!(range(pos(0, 3), &empty), SourceRange { start: pos(0, 3), end: pos(0, 3) });
}

#[test]
fn containment_excludes_the_end() {
    let r = SourceRange { start: pos(0, 5), end: pos(0, 8) };
    assert!(r.contains_position(&pos(0, 5)));
    assert!(r.contains_position(&pos(0, 7)));
    assert!(!r.contains_position(&pos(0, 8)));
    assert!(!r.contains_position(&pos(0, 4)));
    let multi = SourceRange { start: pos(0, 5), end: pos(2, 1) };
    assert!(multi.contains_position(&pos(1, 0)));
    assert!(!multi.contains_position(&pos(2, 1)));
}

#[test]
fn rejects_uppercase_and_stray_characters() {
    assert!(parse_statement("John run").is_err());
    assert!(parse_statement("j run").is_err());
    assert!(parse_statement("john").is_err());
    assert!(parse_statement("john run foo!").is_err());
    assert!(parse_statement("john run @").is_err());
    assert!(parse_statement("john run\u{a0}").is_err());
}
