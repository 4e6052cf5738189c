use vstd::prelude::*;
use crate::entity::EntityGraph;
use crate::graph::{
    call_graph_text, is_callable, lemma_filter_no_duplicates, node_edges, node_text, preorder, tree_height,
    CallGraph, Edge, Node, Serialize, AST,
};
use crate::json::{bracket_text, Bracket, JSONSerializer};
use crate::text::{check_slash, replaced, with_slash};

verus! {

/// The AST document: the root node inside an outer object.
pub open spec fn ast_document(node: Node) -> Seq<char> {
    bracket_text(0, Bracket::LCurly) + node_text(node, 2) + bracket_text(0, Bracket::RCurly)
}

/// The deepest tree [`dump_ast`] writes: its indentation must stay within `usize`.
pub open spec fn fits_document(node: Node) -> bool {
    2 + 6 * tree_height(node) <= usize::MAX
}

/// The AST document of `node`, or `None` when the tree is too deep to indent.
pub fn dump_ast(node: &Node) -> (r: Option<String>)
    ensures
        r is Some <==> fits_document(*node),
        r matches Some(s) ==> s@ == ast_document(*node),
{
    let limit: usize = (usize::MAX - 2) / 6;
    let fits = node.height_at_most(limit);
    assert(fits <==> fits_document(*node)) by (nonlinear_arith)
        requires
            fits == (tree_height(*node) <= limit),
            limit == (usize::MAX - 2) / 6,
    ;
    if !fits {
        return None;
    }
    let mut json = JSONSerializer::new();
    json.render_bracket(Bracket::LCurly);
    json.prefix.expand();
    json = node.serialize(json);
    json.prefix.shrink();
    json.render_bracket(Bracket::RCurly);
    assert(json.out@ =~= ast_document(*node));
    Some(json.out)
}

/// The call-graph document of `call_graph`.
pub fn dump_call_graph(call_graph: &CallGraph) -> (r: String)
    requires
        call_graph.wf(),
    ensures
        r@ == call_graph_text(*call_graph, 0),
{
    let json = JSONSerializer::new();
    let json = call_graph.serialize(json);
    assert(json.out@ =~= call_graph_text(*call_graph, 0));
    json.out
}

/// The edges of the nodes `s`, node after node.
pub open spec fn all_edges(g: &EntityGraph, s: Seq<usize>) -> Seq<Edge>
    decreases s.len(),
{
    if s.len() == 0 {
        Seq::empty()
    } else {
        all_edges(g, s.drop_last()) + node_edges(g, s.last())
    }
}

/// The call graph of the translation unit rooted at `root`: a node for each callable
/// entity reachable from it, in pre-order, and for each node in turn an edge for each
/// call expression below it.
pub fn build_call_graph(label: String, graph: EntityGraph, root: usize) -> (r: CallGraph)
    requires
        graph.wf(),
        root < graph.len(),
    ensures
        r.wf(),
        r.label@ == label@,
        r.source == graph,
        r.nodes@ == preorder(&graph, graph.keep_all(), root).filter(|x: usize| is_callable(graph.kind_of(x as int))),
        r.nodes@.no_duplicates(),
        forall|x: usize| #[trigger] r.nodes@.contains(x) <==> (graph.reaches(graph.keep_all(), root as int, x as int)
            && is_callable(graph.kind_of(x as int))),
        r.edges.members@ == all_edges(&graph, r.nodes@),
{
    let ast = AST::new(&graph, root);
    let ghost g = graph;
    let mut result = CallGraph::new(label, graph);
    result.take_callable_from_ast(ast);
    proof {
        let held = ast.held_among(ast.visited());
        assert(held =~= ast.visited()) by {
            assert forall|k: int| 0 <= k < ast.visited().len() implies ast.holds(#[trigger] ast.visited()[k] as int) by {
                assert(ast.visited().contains(ast.visited()[k]));
            }
            lemma_filter_all(ast.visited(), |x: usize| ast.holds(x as int));
        }
        let pred = |x: usize| is_callable(g.kind_of(x as int));
        lemma_filter_no_duplicates(ast.visited(), pred);
        assert forall|x: usize| #[trigger] result.nodes@.contains(x) <==> (g.reaches(g.keep_all(), root as int, x as int)
            && is_callable(g.kind_of(x as int))) by {
            if result.nodes@.contains(x) {
                ast.visited().lemma_filter_contains_rev(pred, x);
                let j = choose|j: int| 0 <= j < ast.visited().len() && ast.visited()[j] == x;
                assert(x < g.len());
            }
            if g.reaches(g.keep_all(), root as int, x as int) && is_callable(g.kind_of(x as int)) {
                let w = choose|w: Seq<int>| #[trigger] g.is_walk(g.keep_all(), w) && w[0] == root as int && w.last() == x as int;
                assert(g.valid(w[w.len() - 1]));
                assert(ast.holds(x as int));
                assert(ast.visited().contains(x));
                let j = choose|j: int| 0 <= j < ast.visited().len() && ast.visited()[j] == x;
                ast.visited().lemma_filter_contains(pred, j);
            }
        }
    }
    let ghost nodes = result.nodes@;
    let mut i: usize = 0;
    while i < result.nodes.len()
        invariant
            result.wf(),
            result.label@ == label@,
            result.source == g,
            result.nodes@ == nodes,
            i <= nodes.len(),
            result.edges.members@ == all_edges(&g, nodes.take(i as int)),
        decreases nodes.len() - i,
    {
        let node = result.nodes[i];
        result.add_callees(node);
        proof {
            let t = nodes.take(i as int + 1);
            assert(t.drop_last() =~= nodes.take(i as int));
            assert(t.last() == node);
        }
        i = i + 1;
    }
    assert(nodes.take(i as int) =~= nodes);
    result
}

proof fn lemma_filter_all<A>(s: Seq<A>, pred: spec_fn(A) -> bool)
    requires
        forall|k: int| 0 <= k < s.len() ==> pred(#[trigger] s[k]),
    ensures
        s.filter(pred) == s,
    decreases s.len(),
{
    reveal(Seq::filter);
    if s.len() > 0 {
        let init = s.drop_last();
        assert forall|k: int| 0 <= k < init.len() implies pred(#[trigger] init[k]) by {
            assert(init[k] == s[k]);
        }
        lemma_filter_all(init, pred);
        assert(pred(s[s.len() - 1]));
        assert(s.filter(pred) =~= s);
    }
}

} // verus!

verus! {

/// Which of the two documents of a source file an output file holds.
#[derive(Clone, Copy, Debug, PartialEq, Eq, Structural)]
pub enum OutFileKey {
    Ast,
    CallGraph,
}

pub open spec fn out_file_suffix(key: OutFileKey) -> Seq<char> {
    match key {
        OutFileKey::Ast => "_ast"@,
        OutFileKey::CallGraph => "_call_graph"@,
    }
}

impl OutFileKey {
    pub fn get_key(&self) -> (r: &'static str)
        ensures
            r@ == out_file_suffix(*self),
    {
        match self {
            OutFileKey::Ast => "_ast",
            OutFileKey::CallGraph => "_call_graph",
        }
    }
}

/// `<output_dir><stem><suffix>.json`.
pub fn output_file_name(output_dir: &str, stem: &str, key: OutFileKey) -> (r: String)
    ensures
        r@ == output_dir@ + stem@ + out_file_suffix(key) + ".json"@,
{
    let mut r = String::from_str(output_dir);
    r.append(stem);
    r.append(key.get_key());
    r.append(".json");
    r
}

/// The front-end option that adds `dir` to the header search path.
pub open spec fn search_option(dir: Seq<char>) -> Seq<char> {
    "-I"@ + replaced(with_slash(dir), '\\', seq!['/'])
}

/// `parse_options` followed by one search-path option per directory of `dirs`, in order,
/// each directory ending in a slash and written with forward slashes.
pub fn append_search_dirs(parse_options: Vec<String>, dirs: Vec<String>) -> (r: Vec<String>)
    ensures
        r@.len() == parse_options@.len() + dirs@.len(),
        forall|i: int| 0 <= i < parse_options@.len() ==> #[trigger] r@[i] == parse_options@[i],
        forall|i: int| 0 <= i < dirs@.len() ==> (#[trigger] r@[parse_options@.len() + i])@ == search_option(dirs@[i]@),
{
    let mut r = parse_options;
    let ghost base = r@;
    let mut i: usize = 0;
    while i < dirs.len()
        invariant
            base == parse_options@,
            i <= dirs@.len(),
            r@.len() == base.len() + i,
            forall|j: int| 0 <= j < base.len() ==> #[trigger] r@[j] == base[j],
            forall|j: int| 0 <= j < i ==> (#[trigger] r@[base.len() + j])@ == search_option(dirs@[j]@),
        decreases dirs@.len() - i,
    {
        let mut path = dirs[i].clone();
        check_slash(&mut path);
        let mut option = String::from_str("-I");
        option.append(path.as_str());
        r.push(option);
        i = i + 1;
    }
    r
}

} // verus!
