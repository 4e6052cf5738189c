use ast_graph::dump::{append_search_dirs, output_file_name, OutFileKey};
use ast_graph::entity::{Entity, EntityGraph, SourceLocation};
use ast_graph::get_name::{return_empty_if_null, Name};
use ast_graph::graph::{Array, Edge, Key, Serialize};
use ast_graph::index::collect_entities;
use ast_graph::json::{Bracket, JSONSerializer, Prefix};
use ast_graph::kind::{get_kind_label, EntityKind};
use ast_graph::text::{check_slash, contains_text, is_code_file, replace, to_decimal};

#[test]
fn decimal_rendering() {
    assert_eq!(to_decimal(0), "0");
    assert_eq!(to_decimal(7), "7");
    assert_eq!(to_decimal(10), "10");
    assert_eq!(to_decimal(1234567890), "1234567890");
    assert_eq!(to_decimal(u64::MAX), "18446744073709551615");
}

#[test]
fn replace_escapes_quotes() {
    assert_eq!(replace("a\"b\"", '"', "\\\""), "a\\\"b\\\"");
    assert_eq!(replace("plain", '"', "\\\""), "plain");
    assert_eq!(replace("", '"', "\\\""), "");
}

#[test]
fn substring_search() {
    assert!(contains_text("/usr/include/stdio.h", "include"));
    assert!(contains_text("abc", ""));
    assert!(contains_text("abc", "abc"));
    assert!(!contains_text("ab", "abc"));
    assert!(!contains_text("/usr/inc/x", "include"));
    assert!(contains_text("héllo wörld", "wö"));
}

#[test]
fn slash_is_added_and_backslashes_turned() {
    let mut a = "out".to_string();
    check_slash(&mut a);
    assert_eq!(a, "out/");
    let mut b = "out/".to_string();
    check_slash(&mut b);
    assert_eq!(b, "out/");
    let mut c = "C:\\dir\\sub".to_string();
    check_slash(&mut c);
    assert_eq!(c, "C:/dir/sub/");
    let mut d = String::new();
    check_slash(&mut d);
    assert_eq!(d, "/");
}

#[test]
fn code_file_names() {
    assert!(is_code_file("main.cpp"));
    assert!(is_code_file("util.c"));
    assert!(is_code_file("x.cc"));
    assert!(!is_code_file("README.md"));
}

#[test]
fn missing_text_is_empty() {
    assert_eq!(return_empty_if_null(None), "");
    assert_eq!(return_empty_if_null(Some("x".to_string())), "x");
    let none: Option<String> = None;
    assert_eq!(none.get_name(), "");
    let loc = SourceLocation { file: "a.c".to_string(), line: 12, column: 3 };
    assert_eq!(loc.get_name(), "a.c:12:3");
    assert_eq!(Some(loc).get_name(), "a.c:12:3");
}

#[test]
fn kind_labels() {
    assert_eq!(get_kind_label(EntityKind::CallExpr), "CallExpr");
    assert_eq!(get_kind_label(EntityKind::FunctionDecl), "FunctionDecl");
    assert_eq!(get_kind_label(EntityKind::LambdaExpr), "LambdaExpr");
    assert_eq!(Key::DisplayName.get_key(), "displayName");
    assert_eq!(Key::CallGraph.get_key(), "call graph");
}

#[test]
fn prefix_grows_and_shrinks_by_one_unit() {
    let mut p = Prefix::new();
    assert_eq!(p.as_str(), "");
    p.expand();
    assert_eq!(p.as_str(), "  ");
    p.expand();
    assert_eq!(p.as_str(), "    ");
    assert_eq!(p.width_exec(), 4);
    p.shrink();
    assert_eq!(p.as_str(), "  ");
    p.shrink();
    assert_eq!(p.as_str(), "");
}

#[test]
fn writer_fragments() {
    let mut j = JSONSerializer::new();
    j.render_line("k", "v\"q");
    assert_eq!(j.out, "\n\"k\": \"v\\\"q\",");
    j.prefix.expand();
    j.render_line_without_value("key");
    assert_eq!(j.out, "\n\"k\": \"v\\\"q\",\n  \"key\":");
    j.render_comma();
    j.render_bracket(Bracket::LBrace);
    j.render_line_with_bracket("arr", Bracket::RCurly);
    assert_eq!(j.out, "\n\"k\": \"v\\\"q\",\n  \"key\":,\n  [\n  \"arr\": }");
}

#[test]
fn empty_edge_array() {
    let edges: Array<Edge> = Array::new(Key::Edges, Vec::new());
    let j = edges.serialize(JSONSerializer::new());
    assert_eq!(j.out, "\n\"edges\": [\n]");
}

fn plain(usr: Option<&str>, children: Vec<usize>) -> Entity {
    Entity {
        kind: EntityKind::VarDecl,
        name: None,
        display_name: None,
        type_display: None,
        usr: usr.map(|u| u.to_string()),
        location: None,
        children,
        reference: None,
        definition: None,
        in_system_header: false,
        hash: 0,
    }
}

#[test]
fn collected_usrs_are_distinct() {
    let graph = EntityGraph {
        entities: vec![
            plain(Some("c:@a"), vec![1, 2]),
            plain(None, vec![3]),
            plain(Some("c:@a"), vec![]),
            plain(Some("c:@b"), vec![0]),
            plain(Some("c:@z"), vec![]),
        ],
    };
    let mut got = collect_entities(&graph, 0);
    got.sort();
    assert_eq!(got, vec!["".to_string(), "c:@a".to_string(), "c:@b".to_string()]);
}

#[test]
fn output_names_and_search_options() {
    assert_eq!(output_file_name("out/", "main", OutFileKey::Ast), "out/main_ast.json");
    assert_eq!(output_file_name("out/", "main", OutFileKey::CallGraph), "out/main_call_graph.json");
    let r = append_search_dirs(vec!["-std=c++17".to_string()], vec!["a\\b".to_string(), "c/".to_string()]);
    assert_eq!(r, vec!["-std=c++17".to_string(), "-Ia/b/".to_string(), "-Ic/".to_string()]);
}

#[test]
fn malformed_graph_is_detected() {
    let graph = EntityGraph { entities: vec![plain(None, vec![5])] };
    assert!(!graph.is_well_formed());
    let mut e = plain(None, vec![]);
    e.reference = Some(3);
    assert!(!EntityGraph { entities: vec![e] }.is_well_formed());
}
