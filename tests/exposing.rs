use exposed_tests::comments::strip_comments;
use exposed_tests::exposure::{filter_exposing, read_exposing, Exposure, Problem};
use exposed_tests::header::{parse_line, HeaderScanner, ScanState};
use std::path::PathBuf;

fn strings(items: &[&str]) -> Vec<String> {
    items.iter().map(|s| s.to_string()).collect()
}

fn sorted(mut v: Vec<String>) -> Vec<String> {
    v.sort();
    v
}

fn exposed(lines: &[&str]) -> Exposure {
    read_exposing(PathBuf::from("Foo.elm"), &strings(lines)).expect("header should parse")
}

#[test]
fn unexposed_candidate_is_reported() {
    let r = filter_exposing(
        PathBuf::from("tests/Foo.elm"),
        &strings(&["module Foo exposing (testA, testB)"]),
        &strings(&["testA", "testB", "testC"]),
        "Foo",
    );
    match r {
        Err(Problem::UnexposedTests(name, missing)) => {
            assert_eq!(name, "Foo");
            assert_eq!(missing, strings(&["testC"]));
        }
        other => panic!("unexpected result {:?}", other),
    }
}

#[test]
fn wildcard_accepts_candidate() {
    let r = filter_exposing(
        PathBuf::from("tests/Foo.elm"),
        &strings(&["module Foo exposing (..)"]),
        &strings(&["testA"]),
        "Foo",
    );
    match r {
        Ok((name, accepted)) => {
            assert_eq!(name, "Foo");
            assert_eq!(accepted, strings(&["testA"]));
        }
        other => panic!("unexpected result {:?}", other),
    }
}

#[test]
fn content_before_header_is_missing_module() {
    let r = filter_exposing(
        PathBuf::from("tests/Bar.elm"),
        &strings(&["", "   ", "x = 1", "module Bar exposing (x)"]),
        &strings(&["x"]),
        "Bar",
    );
    match r {
        Err(Problem::MissingModuleDeclaration(path)) => {
            assert_eq!(path, PathBuf::from("tests/Bar.elm"))
        }
        other => panic!("unexpected result {:?}", other),
    }
}

#[test]
fn line_marker_inside_block_comment_does_not_truncate() {
    let r = filter_exposing(
        PathBuf::from("tests/Foo.elm"),
        &strings(&["{- comment -- not a line comment -}", "module Foo exposing (a)"]),
        &strings(&["a"]),
        "Foo",
    );
    match r {
        Ok((name, accepted)) => {
            assert_eq!(name, "Foo");
            assert_eq!(accepted, strings(&["a"]));
        }
        other => panic!("unexpected result {:?}", other),
    }
}

#[test]
fn unclosed_clause_is_parse_error() {
    let r = filter_exposing(
        PathBuf::from("tests/Foo.elm"),
        &strings(&["module Foo exposing (a,", "  b"]),
        &strings(&["a"]),
        "Foo",
    );
    match r {
        Err(Problem::ParseError(path)) => assert_eq!(path, PathBuf::from("tests/Foo.elm")),
        other => panic!("unexpected result {:?}", other),
    }
}

#[test]
fn empty_source_is_parse_error() {
    let r = filter_exposing(PathBuf::from("Empty.elm"), &Vec::new(), &strings(&["a"]), "Empty");
    assert!(matches!(r, Err(Problem::ParseError(_))));
}

#[test]
fn header_without_exposing_is_parse_error() {
    let r = filter_exposing(PathBuf::from("Foo.elm"), &strings(&["module Foo"]), &Vec::new(), "Foo");
    assert!(matches!(r, Err(Problem::ParseError(_))));
}

#[test]
fn wildcard_keeps_every_candidate_in_order() {
    let tests = strings(&["zeta", "Alpha", "beta", "beta"]);
    let r = filter_exposing(
        PathBuf::from("Foo.elm"),
        &strings(&["module Foo.Bar exposing", "    ( ..", "    )"]),
        &tests,
        "Foo.Bar",
    );
    match r {
        Ok((name, accepted)) => {
            assert_eq!(name, "Foo.Bar");
            assert_eq!(accepted, tests);
        }
        other => panic!("unexpected result {:?}", other),
    }
}

#[test]
fn wildcard_with_no_candidates_is_ok() {
    let r = filter_exposing(PathBuf::from("Foo.elm"), &strings(&["module Foo exposing (..)"]), &Vec::new(), "Foo");
    match r {
        Ok((_, accepted)) => assert!(accepted.is_empty()),
        other => panic!("unexpected result {:?}", other),
    }
}

#[test]
fn listed_exports_accept_the_intersection() {
    let r = filter_exposing(
        PathBuf::from("Foo.elm"),
        &strings(&["module Foo exposing (a, Maybe(..), b, Thing, c)"]),
        &strings(&["b", "a"]),
        "Foo",
    );
    match r {
        Ok((name, accepted)) => {
            assert_eq!(name, "Foo");
            assert_eq!(accepted, strings(&["b", "a"]));
        }
        other => panic!("unexpected result {:?}", other),
    }
}

#[test]
fn every_left_out_candidate_is_named() {
    let r = filter_exposing(
        PathBuf::from("Foo.elm"),
        &strings(&["module Foo exposing (a, c)"]),
        &strings(&["a", "b", "c", "d"]),
        "Foo",
    );
    match r {
        Err(Problem::UnexposedTests(name, missing)) => {
            assert_eq!(name, "Foo");
            assert_eq!(missing, strings(&["b", "d"]));
        }
        other => panic!("unexpected result {:?}", other),
    }
}

#[test]
fn no_candidates_with_listed_exports_is_ok() {
    let r = filter_exposing(PathBuf::from("Foo.elm"), &strings(&["module Foo exposing (a)"]), &Vec::new(), "Foo");
    match r {
        Ok((_, accepted)) => assert!(accepted.is_empty()),
        other => panic!("unexpected result {:?}", other),
    }
}

#[test]
fn upper_case_names_are_not_values() {
    let r = filter_exposing(
        PathBuf::from("Foo.elm"),
        &strings(&["module Foo exposing (Alpha, Ärger, beta)"]),
        &strings(&["Alpha", "Ärger", "beta"]),
        "Foo",
    );
    match r {
        Err(Problem::UnexposedTests(_, missing)) => assert_eq!(missing, strings(&["Alpha", "Ärger"])),
        other => panic!("unexpected result {:?}", other),
    }
}

#[test]
fn listed_names_are_trimmed_and_held_once() {
    match exposed(&["module Foo exposing (\ta ,  b\u{00A0}, a,, )"]) {
        Exposure::Enumerated(names) => assert_eq!(sorted(names), strings(&["a", "b"])),
        Exposure::Wildcard => panic!("not a wildcard"),
    }
}

#[test]
fn wildcard_among_white_space_is_wildcard() {
    assert!(matches!(exposed(&["module Foo exposing ( \t.. )"]), Exposure::Wildcard));
}

#[test]
fn wildcard_beside_names_is_not_wildcard() {
    match exposed(&["module Foo exposing (.., a)"]) {
        Exposure::Enumerated(names) => assert_eq!(sorted(names), strings(&["..", "a"])),
        Exposure::Wildcard => panic!("not a wildcard"),
    }
}

#[test]
fn nested_parentheses_stay_in_the_clause() {
    match exposed(&["module Foo exposing (a, Foo(A, B), (<|), b) where"]) {
        Exposure::Enumerated(names) => {
            assert_eq!(sorted(names), strings(&["(<|)", "a", "b"]))
        }
        Exposure::Wildcard => panic!("not a wildcard"),
    }
}

#[test]
fn port_and_effect_modules_are_headers() {
    for header in ["port module Ports exposing (send)", "effect module Fx where { command = C } exposing (send)"] {
        match exposed(&[header]) {
            Exposure::Enumerated(names) => assert_eq!(names, strings(&["send"])),
            Exposure::Wildcard => panic!("not a wildcard"),
        }
    }
}

#[test]
fn header_spread_over_lines_with_comments() {
    let lines = [
        "-- a leading comment",
        "{- a block",
        "   module Wrong exposing (wrong)",
        "-}",
        "module Foo {- inline -} exposing",
        "    ( alpha -- first",
        "    , {- skipped, -} beta",
        "    , gamma",
        "    )",
        "x = 1",
    ];
    match exposed(&lines) {
        Exposure::Enumerated(names) => {
            assert_eq!(sorted(names), strings(&["alpha", "beta", "gamma"]))
        }
        Exposure::Wildcard => panic!("not a wildcard"),
    }
}

#[test]
fn strip_without_markers_is_identity() {
    assert_eq!(strip_comments("x = a - b + {c}", false), ("x = a - b + {c}".to_string(), false));
    assert_eq!(strip_comments("", false), (String::new(), false));
}

#[test]
fn strip_line_comment_truncates() {
    assert_eq!(strip_comments("x = 1 -- one", false), ("x = 1 ".to_string(), false));
}

#[test]
fn strip_line_marker_inside_open_block_does_nothing() {
    assert_eq!(strip_comments("still -- comment -} y = 2", true), (" y = 2".to_string(), false));
    assert_eq!(strip_comments("still -- comment", true), (String::new(), true));
}

#[test]
fn strip_block_across_lines() {
    let (first, open) = strip_comments("a = 1 {- start", false);
    assert_eq!((first.as_str(), open), ("a = 1 ", true));
    let (middle, open) = strip_comments("module X exposing (y)", open);
    assert_eq!((middle.as_str(), open), ("", true));
    let (last, open) = strip_comments("end -} b = 2", open);
    assert_eq!((last.as_str(), open), (" b = 2", false));
}

#[test]
fn strip_several_blocks_on_one_line() {
    assert_eq!(strip_comments("a {- x -} b {- y -} c", false), ("a  b  c".to_string(), false));
}

#[test]
fn strip_block_comments_do_not_nest() {
    assert_eq!(strip_comments("a {- {- x -} b -} c", false), ("a  b -} c".to_string(), false));
}

#[test]
fn strip_close_without_open_outside_comment_is_kept() {
    assert_eq!(strip_comments("a -} b", false), ("a -} b".to_string(), false));
}

#[test]
fn strip_keeps_non_ascii_text() {
    assert_eq!(strip_comments("é = \"ü\" {- ö -}", false), ("é = \"ü\" ".to_string(), false));
}

#[test]
fn parse_line_steps_through_the_header() {
    let mut scanner = HeaderScanner::new();
    scanner = parse_line(scanner, "module Foo");
    assert!(matches!(scanner.state(), ScanState::ReadingModuleName));
    scanner = parse_line(scanner, "  exposing");
    assert!(matches!(scanner.state(), ScanState::AwaitingOpenBracket));
    scanner = parse_line(scanner, "  ( a {- open");
    assert!(scanner.in_comment());
    assert!(matches!(scanner.state(), ScanState::AccumulatingExposedNames { open: 0, .. }));
    scanner = parse_line(scanner, "  -} , b )");
    assert!(!scanner.in_comment());
    assert!(scanner.is_finished());
    match scanner.into_state() {
        ScanState::Done { text } => assert_eq!(text.into_iter().collect::<String>(), " a, b "),
        _ => panic!("scan should be done"),
    }
}

#[test]
fn parse_line_after_done_changes_nothing() {
    let mut scanner = parse_line(HeaderScanner::new(), "module Foo exposing (a)");
    assert!(scanner.is_finished());
    scanner = parse_line(scanner, "{- open");
    assert!(!scanner.in_comment());
    assert!(matches!(scanner.state(), ScanState::Done { .. }));
}

#[test]
fn parse_line_missing_module_is_final() {
    let scanner = parse_line(HeaderScanner::new(), "import Html");
    assert!(scanner.is_finished());
    assert!(matches!(scanner.state(), ScanState::MissingModuleDeclaration));
}

#[test]
fn strip_close_inside_comment_keeps_rest_verbatim() {
    assert_eq!(strip_comments("x -} y -- z", true), (" y -- z".to_string(), false));
    assert_eq!(strip_comments("-}a--", true), ("a--".to_string(), false));
}

#[test]
fn strip_close_inside_comment_then_new_block() {
    assert_eq!(strip_comments("x -} y {- z -} w -- v", true), (" y  w ".to_string(), false));
    assert_eq!(strip_comments("x -} y {- z", true), (" y ".to_string(), true));
}

#[test]
fn distinct_candidates_are_reported_once() {
    let r = filter_exposing(
        PathBuf::from("Foo.elm"),
        &strings(&["module Foo exposing (a, b, a)"]),
        &strings(&["b", "c", "a", "d"]),
        "Foo",
    );
    match r {
        Err(Problem::UnexposedTests(_, missing)) => assert_eq!(missing, strings(&["c", "d"])),
        other => panic!("unexpected result {:?}", other),
    }
}

#[test]
fn names_starting_with_digits_or_underscore_are_values() {
    match exposed(&["module Foo exposing (_a, b1, Z9)"]) {
        Exposure::Enumerated(names) => assert_eq!(sorted(names), strings(&["_a", "b1"])),
        Exposure::Wildcard => panic!("not a wildcard"),
    }
}
