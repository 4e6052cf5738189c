use ast_graph::dump::{build_call_graph, dump_ast, dump_call_graph};
use ast_graph::entity::{Entity, EntityGraph, SourceLocation};
use ast_graph::graph::{CallGraph, Node, Serialize, AST};
use ast_graph::json::JSONSerializer;
use ast_graph::kind::EntityKind;

fn loc(file: &str, line: u32, column: u32) -> Option<SourceLocation> {
    Some(SourceLocation { file: file.to_string(), line, column })
}

fn entity(kind: EntityKind, name: &str, children: Vec<usize>, hash: u64) -> Entity {
    Entity {
        kind,
        name: Some(name.to_string()),
        display_name: Some(name.to_string()),
        type_display: None,
        usr: None,
        location: loc("main.cpp", 1, 1),
        children,
        reference: None,
        definition: None,
        in_system_header: false,
        hash,
    }
}

/// Root 0 with `foo()` (1) calling `bar()` (4) through a call expression (3) in its body (2).
fn foo_bar_graph() -> EntityGraph {
    let root = entity(EntityKind::TranslationUnit, "main.cpp", vec![1, 4], 100);
    let mut foo = entity(EntityKind::FunctionDecl, "foo", vec![2], 11);
    foo.display_name = Some("foo()".to_string());
    foo.usr = Some("c:@F@foo#".to_string());
    foo.location = loc("main.cpp", 1, 6);
    foo.type_display = Some("void ()".to_string());
    let body = entity(EntityKind::CompoundStmt, "", vec![3], 22);
    let mut call = entity(EntityKind::CallExpr, "bar", vec![], 33);
    call.reference = Some(4);
    let mut bar = entity(EntityKind::FunctionDecl, "bar", vec![], 44);
    bar.display_name = Some("bar()".to_string());
    bar.usr = Some("c:@F@bar#".to_string());
    bar.location = loc("main.cpp", 2, 6);
    EntityGraph { entities: vec![root, foo, body, call, bar] }
}

fn count(s: &str, chars: &[char]) -> usize {
    s.chars().filter(|c| chars.contains(c)).count()
}

/// Each line is indented one unit per open bracket, and the brackets close in the end.
fn check_indentation(text: &str) {
    let mut depth: i64 = 0;
    for line in text.split('\n').skip(1) {
        let trimmed = line.trim_start_matches(' ');
        let spaces = (line.len() - trimmed.len()) as i64;
        if trimmed.starts_with('}') || trimmed.starts_with(']') {
            depth -= 1;
        }
        assert_eq!(spaces, 2 * depth, "line {:?}", line);
        if trimmed.ends_with('{') || trimmed.ends_with('[') {
            depth += 1;
        }
    }
    assert_eq!(depth, 0);
}

#[test]
fn traversal_of_cycle_meets_each_entity_once() {
    let a = entity(EntityKind::StructDecl, "A", vec![1], 1);
    let b = entity(EntityKind::StructDecl, "B", vec![0, 1, 2], 2);
    let c = entity(EntityKind::FieldDecl, "c", vec![], 3);
    let unreachable = entity(EntityKind::FieldDecl, "d", vec![0], 4);
    let graph = EntityGraph { entities: vec![a, b, c, unreachable] };
    assert!(graph.is_well_formed());
    let ast = AST::new(&graph, 0);
    assert_eq!(ast.visited_nodes(), vec![0, 1, 2]);
    assert!(ast.contains(0) && ast.contains(1) && ast.contains(2));
    assert!(!ast.contains(3));
    assert_eq!(ast.held_nodes(), vec![0, 1, 2]);
}

#[test]
fn traversal_is_depth_first_in_child_order() {
    let graph = foo_bar_graph();
    let ast = AST::new(&graph, 0);
    assert_eq!(ast.visited_nodes(), vec![0, 1, 2, 3, 4]);
}

#[test]
fn filtered_traversal_holds_but_does_not_expand() {
    let graph = foo_bar_graph();
    let keep = vec![true, false, true, true, true];
    let ast = AST::new_filtered(&graph, 0, &keep);
    assert_eq!(ast.visited_nodes(), vec![0, 1, 4]);
}

#[test]
fn take_removes_once() {
    let graph = foo_bar_graph();
    let mut ast = AST::new(&graph, 0);
    assert_eq!(ast.take(2), Some(2));
    assert_eq!(ast.take(2), None);
    assert!(!ast.contains(2));
    assert_eq!(ast.held_nodes(), vec![0, 1, 3, 4]);
}

#[test]
fn shared_child_becomes_one_node() {
    // 0 has children 1 and 2, both of which have child 3; 3 points back at 0.
    let graph = EntityGraph {
        entities: vec![
            entity(EntityKind::Namespace, "n", vec![1, 2], 1),
            entity(EntityKind::StructDecl, "a", vec![3], 2),
            entity(EntityKind::StructDecl, "b", vec![3], 3),
            entity(EntityKind::TypeRef, "t", vec![0], 4),
        ],
    };
    let mut ast = AST::new(&graph, 0);
    let tree = Node::new(&graph, 0, &mut ast, true, &vec![], false);
    assert!(ast.held_nodes().is_empty());
    assert_eq!(tree.children.len(), 2);
    assert_eq!(tree.children[0].entity, 1);
    assert_eq!(tree.children[0].children.len(), 1);
    assert_eq!(tree.children[0].children[0].entity, 3);
    assert!(tree.children[0].children[0].children.is_empty());
    assert_eq!(tree.children[1].entity, 2);
    assert!(tree.children[1].children.is_empty());
}

#[test]
fn node_fields_come_from_entity() {
    let graph = foo_bar_graph();
    let mut ast = AST::new(&graph, 0);
    let tree = Node::new(&graph, 0, &mut ast, true, &vec![], false);
    let foo = &tree.children[0];
    assert_eq!(foo.entity, 1);
    assert_eq!(foo.hash, 11);
    assert_eq!(foo.kind, "FunctionDecl");
    assert_eq!(foo.name, "foo");
    assert_eq!(foo.display_name, "foo()");
    assert_eq!(foo.type_text, "void ()");
    assert_eq!(foo.usr, "c:@F@foo#");
    assert_eq!(foo.location, "main.cpp:1:6");
    assert!(foo.serialize);
    let body = &foo.children[0];
    assert_eq!(body.type_text, "");
    assert_eq!(body.usr, "");
}

#[test]
fn excluded_directory_hides_node_only() {
    let mut graph = foo_bar_graph();
    graph.entities[1].location = loc("/opt/vendor/foo.cpp", 1, 6);
    let mut ast = AST::new(&graph, 0);
    let excluded = vec!["vendor".to_string()];
    let tree = Node::new(&graph, 0, &mut ast, true, &excluded, false);
    assert!(!tree.children[0].serialize);
    assert!(tree.children[0].children[0].serialize);
    assert!(tree.children[1].serialize);
    let text = dump_ast(&tree).unwrap();
    assert!(!text.contains("foo()"));
    assert!(!text.contains("\"22\""));
    assert!(text.contains("bar()"));
}

#[test]
fn header_directory_word_excludes() {
    let mut graph = foo_bar_graph();
    graph.entities[4].location = loc("/usr/local/include/bar.h", 2, 6);
    let mut ast = AST::new(&graph, 0);
    let tree = Node::new(&graph, 0, &mut ast, true, &vec![], false);
    assert!(!tree.children[1].serialize);
    assert!(tree.children[0].serialize);
    assert!(AST::should_be_excluded("a/include/b.h", &vec![]));
    assert!(AST::should_be_excluded("/home/me/libfoo/x.c", &vec!["foo".to_string()]));
    assert!(!AST::should_be_excluded("/home/me/src/x.c", &vec!["lib".to_string()]));
}

#[test]
fn system_headers_need_asking() {
    let mut graph = foo_bar_graph();
    graph.entities[4].in_system_header = true;
    let mut ast = AST::new(&graph, 0);
    let tree = Node::new(&graph, 0, &mut ast, true, &vec![], false);
    assert!(!tree.children[1].serialize);
    let mut ast = AST::new(&graph, 0);
    let tree = Node::new(&graph, 0, &mut ast, true, &vec![], true);
    assert!(tree.children[1].serialize);
}

#[test]
fn direct_call_prefers_definition() {
    let mut graph = foo_bar_graph();
    assert_eq!(CallGraph::get_callee(&graph, 3), 4);
    // A declaration 5 of baz with definition 6.
    graph.entities.push(entity(EntityKind::FunctionDecl, "baz", vec![], 55));
    graph.entities.push(entity(EntityKind::FunctionDecl, "baz", vec![], 66));
    graph.entities[5].definition = Some(6);
    graph.entities[3].reference = Some(5);
    assert_eq!(CallGraph::get_callee(&graph, 3), 6);
}

#[test]
fn call_without_reference_uses_nested_call() {
    let mut graph = foo_bar_graph();
    // 3 becomes an outer call with no reference around a nested call 5 to bar.
    graph.entities[3].reference = None;
    graph.entities[3].children = vec![5];
    let mut inner = entity(EntityKind::CallExpr, "bar", vec![], 77);
    inner.reference = Some(4);
    graph.entities.push(inner);
    assert_eq!(CallGraph::get_callee(&graph, 3), 4);
}

#[test]
fn call_without_any_reference_is_its_own_callee() {
    let mut graph = foo_bar_graph();
    graph.entities[3].reference = None;
    assert_eq!(CallGraph::get_callee(&graph, 3), 3);
    let cg = build_call_graph("main.cpp".to_string(), graph, 0);
    assert_eq!(cg.edges.members.len(), 1);
    assert_eq!(cg.edges.members[0].source, 1);
    assert_eq!(cg.edges.members[0].target, 3);
}

#[test]
fn repeated_calls_give_repeated_edges() {
    let mut graph = foo_bar_graph();
    let mut second = entity(EntityKind::CallExpr, "bar", vec![], 88);
    second.reference = Some(4);
    graph.entities.push(second);
    graph.entities[2].children = vec![3, 5];
    let cg = build_call_graph("main.cpp".to_string(), graph, 0);
    assert_eq!(cg.edges.members.len(), 2);
    assert!(cg.edges.members.iter().all(|e| e.source == 1 && e.target == 4));
}

#[test]
fn end_to_end_foo_calls_bar() {
    let graph = foo_bar_graph();
    assert!(graph.is_well_formed());
    let mut ast = AST::new(&graph, 0);
    let tree = Node::new(&graph, 0, &mut ast, true, &vec![], false);
    assert_eq!(tree.children.len(), 2);
    assert_eq!(tree.children[0].entity, 1);
    assert_eq!(tree.children[1].entity, 4);
    assert!(tree.children[1].children.is_empty());
    let text = dump_ast(&tree).unwrap();
    assert!(text.contains("\"label\": \"foo()\","));
    assert!(text.contains("\"label\": \"bar()\","));
    assert!(text.contains("\n            \"children\": [\n            ]"));

    let cg = build_call_graph("main.cpp".to_string(), graph, 0);
    assert_eq!(cg.nodes, vec![1, 4]);
    assert_eq!(cg.edges.members.len(), 1);
    assert_eq!(cg.edges.members[0].source_hash, 11);
    assert_eq!(cg.edges.members[0].target_hash, 44);
    let expected = [
        "\n{",
        "\n  \"graph\": {",
        "\n    \"label\": \"main.cpp\",",
        "\n    \"type\": \"call graph\",",
        "\n    \"nodes\": {",
        "\n      \"11\": {",
        "\n        \"label\": \"foo()\",",
        "\n        \"metadata\": {",
        "\n          \"usr\": \"c:@F@foo#\",",
        "\n          \"kind\": \"FunctionDecl\",",
        "\n          \"location\": \"main.cpp:1:6\",",
        "\n        }",
        "\n      }",
        ",",
        "\n      \"44\": {",
        "\n        \"label\": \"bar()\",",
        "\n        \"metadata\": {",
        "\n          \"usr\": \"c:@F@bar#\",",
        "\n          \"kind\": \"FunctionDecl\",",
        "\n          \"location\": \"main.cpp:2:6\",",
        "\n        }",
        "\n      }",
        "\n    }",
        ",",
        "\n    \"edges\": [",
        "\n      {",
        "\n        \"source\": \"11\",",
        "\n        \"target\": \"44\",",
        "\n      }",
        "\n    ]",
        "\n  }",
        "\n}",
    ]
    .concat();
    assert_eq!(dump_call_graph(&cg), expected);
}

#[test]
fn ast_document_exact_text_for_leaf() {
    let graph = EntityGraph { entities: vec![entity(EntityKind::VarDecl, "x", vec![], 5)] };
    let mut ast = AST::new(&graph, 0);
    let tree = Node::new(&graph, 0, &mut ast, true, &vec![], false);
    let expected = [
        "\n{",
        "\n  \"5\": {",
        "\n    \"label\": \"x\",",
        "\n    \"metadata\": {",
        "\n      \"kind\": \"VarDecl\",",
        "\n      \"name\": \"x\",",
        "\n      \"displayName\": \"x\",",
        "\n      \"type\": \"\",",
        "\n      \"usr\": \"\",",
        "\n      \"location\": \"main.cpp:1:1\",",
        "\n      \"children\": [",
        "\n      ]",
        "\n    }",
        "\n  }",
        "\n}",
    ]
    .concat();
    assert_eq!(dump_ast(&tree).unwrap(), expected);
}

#[test]
fn documents_are_balanced_and_indented() {
    let graph = foo_bar_graph();
    let mut ast = AST::new(&graph, 0);
    let tree = Node::new(&graph, 0, &mut ast, true, &vec![], false);
    let text = dump_ast(&tree).unwrap();
    assert_eq!(count(&text, &['{']), count(&text, &['}']));
    assert_eq!(count(&text, &['[']), count(&text, &[']']));
    check_indentation(&text);
    let cg = build_call_graph("main.cpp".to_string(), foo_bar_graph(), 0);
    let text = dump_call_graph(&cg);
    assert_eq!(count(&text, &['{']), count(&text, &['}']));
    assert_eq!(count(&text, &['[']), count(&text, &[']']));
    check_indentation(&text);
}

#[test]
fn serializing_twice_gives_identical_text() {
    let graph = foo_bar_graph();
    let mut ast = AST::new(&graph, 0);
    let tree = Node::new(&graph, 0, &mut ast, true, &vec![], false);
    let a = tree.serialize(JSONSerializer::new());
    let b = tree.serialize(JSONSerializer::new());
    assert_eq!(a.out, b.out);
    assert_eq!(dump_ast(&tree), dump_ast(&tree));
    let cg = build_call_graph("main.cpp".to_string(), foo_bar_graph(), 0);
    assert_eq!(dump_call_graph(&cg), dump_call_graph(&cg));
}

#[test]
fn children_left_out_when_not_asked() {
    let graph = foo_bar_graph();
    let mut ast = AST::new(&graph, 0);
    let tree = Node::new(&graph, 0, &mut ast, false, &vec![], false);
    let text = dump_ast(&tree).unwrap();
    assert!(!text.contains("children"));
    assert!(!text.contains("foo()"));
}

#[test]
fn first_nested_call_in_preorder_wins() {
    let mut graph = foo_bar_graph();
    // Outer call 3 without reference; below it call 5 (to foo) comes before call 6 (to bar).
    graph.entities[3].reference = None;
    graph.entities[3].children = vec![5, 6];
    let mut first = entity(EntityKind::CallExpr, "foo", vec![], 55);
    first.reference = Some(1);
    let mut second = entity(EntityKind::CallExpr, "bar", vec![], 66);
    second.reference = Some(4);
    graph.entities.push(first);
    graph.entities.push(second);
    assert_eq!(CallGraph::get_callee(&graph, 3), 1);
    let cg = build_call_graph("main.cpp".to_string(), graph, 0);
    let targets: Vec<usize> = cg.edges.members.iter().map(|e| e.target).collect();
    assert_eq!(targets, vec![1, 1, 4]);
}
