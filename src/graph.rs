use vstd::prelude::*;
use vstd::set_lib::{lemma_int_range, lemma_len_subset, set_int_range};
use crate::entity::EntityGraph;
use crate::kind::EntityKind;
use crate::get_name::Name;
use crate::json::{
    balanced, bracket_text, key_bracket_text, lemma_balanced_concat, lemma_balanced_wrap, line_text, Bracket,
    JSONSerializer,
};
use crate::kind::{get_kind_label, kind_name};
use crate::text::{contains_text, decimal, occurs_in, push_char, to_decimal};

verus! {

/// A duplicate-free sequence of indices below `n` that misses one of them is shorter than `n`.
proof fn lemma_unique_below(s: Seq<usize>, n: nat, missing: usize)
    requires
        s.no_duplicates(),
        forall|i: int| 0 <= i < s.len() ==> (#[trigger] s[i]) < n,
        missing < n,
        !s.contains(missing),
    ensures
        s.len() < n,
{
    let t = s.map_values(|x: usize| x as int);
    assert forall|i: int, j: int| 0 <= i < t.len() && 0 <= j < t.len() && i != j implies t[i] != t[j] by {
        assert(s[i] != s[j]);
    }
    assert(t.no_duplicates());
    t.unique_seq_to_set();
    let range = set_int_range(0, n as int).remove(missing as int);
    lemma_int_range(0, n as int);
    assert forall|x: int| t.to_set().contains(x) implies range.contains(x) by {
        let i = choose|i: int| 0 <= i < t.len() && t[i] == x;
        assert(s[i] < n);
        if x == missing as int {
            assert(s[i] == missing);
        }
    }
    lemma_len_subset(t.to_set(), range);
}

/// A walk that expands every entity but its last one may be extended by a child of that last one.
proof fn lemma_reaches_child(g: &EntityGraph, keep: Seq<bool>, from: int, p: int, c: int)
    requires
        g.reaches(keep, from, p),
        keep[p],
        g.is_child(p, c),
        g.valid(c),
    ensures
        g.reaches(keep, from, c),
{
    let w = choose|w: Seq<int>| #[trigger] g.is_walk(keep, w) && w[0] == from && w.last() == p;
    let w2 = w.push(c);
    assert forall|k: int| 0 <= k < w2.len() - 1 implies keep[#[trigger] w2[k]] && g.is_child(w2[k], w2[k + 1]) by {
        if k < w.len() - 1 {
            assert(w2[k] == w[k] && w2[k + 1] == w[k + 1]);
        }
    }
    assert(g.is_walk(keep, w2));
}

/// Depth-first traversal in pre-order from `e`, appended to the entities already `seen`:
/// `e` itself, then, when `keep` marks it, each child in stored order that is not seen
/// yet, with everything below it. `fuel` bounds the depth; any amount above the number
/// of entities not yet seen gives the same result.
pub open spec fn dfs(g: &EntityGraph, keep: Seq<bool>, e: usize, seen: Seq<usize>, fuel: nat) -> Seq<usize>
    decreases fuel, 0int, 0int,
{
    if fuel == 0 {
        seen
    } else if keep[e as int] {
        dfs_children(g, keep, e, 0, seen.push(e), (fuel - 1) as nat)
    } else {
        seen.push(e)
    }
}

/// The traversal of the children of `e` from the `i`-th on.
pub open spec fn dfs_children(g: &EntityGraph, keep: Seq<bool>, e: usize, i: nat, seen: Seq<usize>, fuel: nat) -> Seq<usize>
    decreases fuel, 1int, g.children_of(e as int).len() - i,
{
    if i >= g.children_of(e as int).len() {
        seen
    } else {
        let c = g.children_of(e as int)[i as int];
        let next = if seen.contains(c) { seen } else { dfs(g, keep, c, seen, fuel) };
        dfs_children(g, keep, e, i + 1, next, fuel)
    }
}

/// The entities met by a depth-first traversal from `root`, in the order met.
pub open spec fn preorder(g: &EntityGraph, keep: Seq<bool>, root: usize) -> Seq<usize> {
    dfs(g, keep, root, Seq::empty(), g.len() as nat)
}

/// The entities met by a depth-first traversal of an [`EntityGraph`].
///
/// Each entity is met at most once, so cycles among entities end the traversal
/// rather than repeat it. An entity is held from the moment it is met until it is
/// taken out with [`AST::take`].
pub struct AST {
    root: usize,
    held: Vec<bool>,
    order: Vec<usize>,
}

impl AST {
    /// Whether `e` is held.
    pub closed spec fn holds(&self, e: int) -> bool {
        0 <= e < self.held@.len() && self.held@[e]
    }

    /// The entities held.
    pub closed spec fn nodes(&self) -> Set<int> {
        Set::new(|e: int| self.holds(e))
    }

    /// Every entity the traversal met, in the order it met them.
    pub closed spec fn visited(&self) -> Seq<usize> {
        self.order@
    }

    /// The entity the traversal started from.
    pub closed spec fn start(&self) -> int {
        self.root as int
    }

    /// The number of entities of the graph it was made for.
    pub closed spec fn span(&self) -> nat {
        self.held@.len()
    }

    pub closed spec fn wf(&self) -> bool {
        &&& self.held@.len() <= usize::MAX
        &&& self.order@.no_duplicates()
        &&& forall|i: int| 0 <= i < self.order@.len() ==> (#[trigger] self.order@[i]) < self.held@.len()
        &&& forall|e: int| #[trigger] self.holds(e) ==> self.order@.contains(e as usize)
    }

    /// While the traversal runs, the entities held are exactly those met.
    closed spec fn building(&self) -> bool {
        forall|e: int| 0 <= e < self.held@.len() ==> (#[trigger] self.held@[e] <==> self.order@.contains(e as usize))
    }

    /// Each held entity marked in `keep` has all its children held, unless it is in `open`.
    closed spec fn closed_except(&self, g: &EntityGraph, keep: Seq<bool>, open: Set<int>) -> bool {
        forall|m: int, j: int|
            #![trigger self.held@[m], g.children_of(m)[j]]
            0 <= m < self.held@.len() && self.held@[m] && keep[m] && !open.contains(m)
                && 0 <= j < g.children_of(m).len() ==> self.held@[g.children_of(m)[j] as int]
    }

    /// Meets `e` and, if `keep` marks it, everything below it that is not met yet.
    fn visit(
        g: &EntityGraph,
        keep: &Vec<bool>,
        e: usize,
        ast: &mut AST,
        Ghost(root): Ghost<int>,
        Ghost(open): Ghost<Set<int>>,
    )
        requires
            g.wf(),
            keep@.len() == g.len(),
            old(ast).held@.len() == g.len(),
            old(ast).wf(),
            old(ast).building(),
            e < g.len(),
            !old(ast).held@[e as int],
            g.reaches(keep@, root, e as int),
            forall|m: int| #[trigger] old(ast).holds(m) ==> g.reaches(keep@, root, m),
            old(ast).closed_except(g, keep@, open),
            forall|m: int| #[trigger] open.contains(m) ==> old(ast).holds(m),
        ensures
            final(ast).held@.len() == g.len(),
            final(ast).wf(),
            final(ast).building(),
            final(ast).root == old(ast).root,
            final(ast).held@[e as int],
            forall|m: int| #[trigger] old(ast).holds(m) ==> final(ast).holds(m),
            forall|m: int| #[trigger] final(ast).holds(m) ==> g.reaches(keep@, root, m),
            final(ast).closed_except(g, keep@, open),
            final(ast).order@.len() > old(ast).order@.len(),
            final(ast).order@.take(old(ast).order@.len() as int) == old(ast).order@,
            final(ast).order@[old(ast).order@.len() as int] == e,
            forall|f: nat| f >= g.len() - old(ast).order@.len() ==> final(ast).order@ == #[trigger] dfs(g, keep@, e, old(ast).order@, f),
        decreases g.len() - old(ast).order@.len(),
    {
        let ghost old_order = ast.order@;
        proof {
            lemma_unique_below(ast.order@, g.len() as nat, e);
        }
        ast.held.set(e, true);
        ast.order.push(e);
        proof {
            assert forall|i: int| 0 <= i < ast.order@.len() implies (#[trigger] ast.order@[i]) < ast.held@.len() by {
                if i < old_order.len() {
                    assert(old_order[i] == ast.order@[i]);
                }
            }
            assert(ast.order@.no_duplicates()) by {
                assert forall|i: int, j: int| 0 <= i < j < ast.order@.len() implies ast.order@[i] != ast.order@[j] by {
                    if j == old_order.len() {
                        assert(old_order.contains(old_order[i]));
                    } else {
                        assert(old_order[i] == ast.order@[i] && old_order[j] == ast.order@[j]);
                    }
                }
            }
            assert forall|m: int| 0 <= m < ast.held@.len() implies (#[trigger] ast.held@[m] <==> ast.order@.contains(m as usize)) by {
                if m != e as int {
                    assert(ast.held@[m] == old(ast).held@[m]);
                    if old(ast).held@[m] {
                        assert(old_order.contains(m as usize));
                        let i = choose|i: int| 0 <= i < old_order.len() && old_order[i] == m as usize;
                        assert(ast.order@[i] == m as usize);
                        assert(ast.order@.contains(m as usize));
                    } else {
                        assert(!old_order.contains(m as usize));
                        if ast.order@.contains(m as usize) {
                            let i = choose|i: int| 0 <= i < ast.order@.len() && ast.order@[i] == m as usize;
                            if i < old_order.len() {
                                assert(old_order[i] == m as usize);
                                assert(old_order.contains(m as usize));
                            } else {
                                assert(i == old_order.len());
                                assert(ast.order@[i] == e);
                                assert(m == e as int);
                            }
                        }
                        assert(!ast.order@.contains(m as usize));
                    }
                } else {
                    assert(ast.held@[m]);
                    assert(ast.order@[old_order.len() as int] == e);
                    assert(ast.order@.contains(m as usize));
                }
            }
            assert forall|m: int| #[trigger] ast.holds(m) implies g.reaches(keep@, root, m) by {
                if m != e {
                    assert(old(ast).holds(m));
                }
            }
            assert(ast.order@.take(old_order.len() as int) =~= old_order);
        }
        let ghost open2 = open.insert(e as int);
        assert(ast.order@ =~= old_order.push(e));
        if keep[e] {
            let n_children = g.entities[e].children.len();
            let mut i: usize = 0;
            while i < n_children
                invariant
                    g.wf(),
                    keep@.len() == g.len(),
                    e < g.len(),
                    keep@[e as int],
                    n_children == g.children_of(e as int).len(),
                    i <= n_children,
                    ast.held@.len() == g.len(),
                    ast.wf(),
                    ast.building(),
                    ast.root == old(ast).root,
                    ast.held@[e as int],
                    forall|m: int| #[trigger] old(ast).holds(m) ==> ast.holds(m),
                    forall|m: int| #[trigger] ast.holds(m) ==> g.reaches(keep@, root, m),
                    g.reaches(keep@, root, e as int),
                    ast.closed_except(g, keep@, open2),
                    forall|m: int| #[trigger] open2.contains(m) ==> ast.holds(m),
                    forall|j: int| 0 <= j < i ==> ast.held@[#[trigger] g.children_of(e as int)[j] as int],
                    ast.order@.len() > old_order.len(),
                    ast.order@.take(old_order.len() as int) == old_order,
                    ast.order@[old_order.len() as int] == e,
                    old_order == old(ast).order@,
                    old_order.len() < g.len(),
                    forall|f: nat| f >= g.len() - old_order.len() - 1 ==>
                        #[trigger] dfs_children(g, keep@, e, 0, old_order.push(e), f) == dfs_children(g, keep@, e, i as nat, ast.order@, f),
                decreases n_children - i,
            {
                let c = g.entities[e].children[i];
                proof {
                    assert(g.children_of(e as int)[i as int] == c);
                    assert(c < g.len());
                }
                let ghost cur = ast.order@;
                let ghost was_held = ast.held@[c as int];
                if !ast.held[c] {
                    proof {
                        assert(g.is_child(e as int, c as int));
                        lemma_reaches_child(g, keep@, root, e as int, c as int);
                    }
                    let ghost before = ast.order@;
                    proof {
                        assert(!ast.order@.contains(c));
                        lemma_unique_below(ast.order@, g.len() as nat, c);
                        assert(g.len() - ast.order@.len() < g.len() - old(ast).order@.len());
                        assert(g.len() - ast.order@.len() >= 0);
                    }
                    AST::visit(g, keep, c, ast, Ghost(root), Ghost(open2));
                    proof {
                        assert(ast.order@.take(old_order.len() as int) =~= old_order) by {
                            assert(ast.order@.take(before.len() as int).take(old_order.len() as int) =~= ast.order@.take(old_order.len() as int));
                            assert(before.take(old_order.len() as int) == old_order);
                        }
                        assert(ast.order@[old_order.len() as int] == e) by {
                            assert(ast.order@.take(before.len() as int)[old_order.len() as int] == before[old_order.len() as int]);
                        }
                        assert forall|j: int| 0 <= j < i implies ast.held@[#[trigger] g.children_of(e as int)[j] as int] by {
                            let cj = g.children_of(e as int)[j];
                            assert(cj < g.len());
                            assert(ast.holds(cj as int));
                        }
                    }
                }
                proof {
                    assert(cur.contains(c) == was_held);
                    assert forall|f: nat| f >= g.len() - old_order.len() - 1 implies
                        #[trigger] dfs_children(g, keep@, e, 0, old_order.push(e), f) == dfs_children(g, keep@, e, (i + 1) as nat, ast.order@, f) by {
                        assert(dfs_children(g, keep@, e, 0, old_order.push(e), f) == dfs_children(g, keep@, e, i as nat, cur, f));
                        if !was_held {
                            assert(f >= g.len() - cur.len());
                            assert(ast.order@ == dfs(g, keep@, c, cur, f));
                        }
                        assert(dfs_children(g, keep@, e, i as nat, cur, f) == dfs_children(g, keep@, e, (i + 1) as nat, ast.order@, f));
                    }
                }
                i = i + 1;
            }
        }
        proof {
            assert forall|f: nat| f >= g.len() - old_order.len() implies ast.order@ == #[trigger] dfs(g, keep@, e, old_order, f) by {
                if keep@[e as int] {
                    let f1 = (f - 1) as nat;
                    assert(dfs(g, keep@, e, old_order, f) == dfs_children(g, keep@, e, 0, old_order.push(e), f1));
                    assert(dfs_children(g, keep@, e, 0, old_order.push(e), f1)
                        == dfs_children(g, keep@, e, g.children_of(e as int).len() as nat, ast.order@, f1));
                }
            }
            assert forall|m: int, j: int|
                #![trigger ast.held@[m], g.children_of(m)[j]]
                0 <= m < ast.held@.len() && ast.held@[m] && keep@[m] && !open.contains(m)
                    && 0 <= j < g.children_of(m).len() implies ast.held@[g.children_of(m)[j] as int] by {
            }
        }
    }
}

/// A set of held entities that contains `from` and is closed under expanding kept
/// entities holds everything reached from `from`.
proof fn lemma_closed_holds_reached(g: &EntityGraph, keep: Seq<bool>, ast: &AST, from: int, w: Seq<int>, k: int)
    requires
        ast.wf(),
        ast.held@.len() == g.len(),
        ast.closed_except(g, keep, Set::empty()),
        g.is_walk(keep, w),
        w[0] == from,
        ast.holds(from),
        0 <= k < w.len(),
    ensures
        ast.holds(w[k]),
    decreases k,
{
    if k > 0 {
        lemma_closed_holds_reached(g, keep, ast, from, w, k - 1);
        let p = w[k - 1];
        assert(keep[p] && g.is_child(p, w[k]));
        assert(g.valid(p) && g.valid(w[k]));
        let j = choose|j: int| 0 <= j < g.children_of(p).len() && g.children_of(p)[j] == w[k] as usize;
        assert(ast.held@[p]);
        assert(ast.held@[g.children_of(p)[j] as int]);
        assert(g.children_of(p)[j] as int == w[k]);
    }
}

impl AST {
    /// Traverses the graph depth first from `root`, children in their stored order.
    /// An entity is held the first time it is met; its children are expanded only
    /// when `keep` marks it.
    ///
    /// The traversal ends on every graph, cycles included, and meets each entity
    /// reachable from `root` exactly once.
    pub fn new_filtered(graph: &EntityGraph, root: usize, keep: &Vec<bool>) -> (r: AST)
        requires
            graph.wf(),
            root < graph.len(),
            keep@.len() == graph.len(),
        ensures
            r.wf(),
            r.span() == graph.len(),
            r.start() == root,
            r.visited().len() > 0,
            r.visited()[0] == root,
            r.visited() == preorder(graph, keep@, root),
            r.visited().no_duplicates(),
            forall|k: int| 0 <= k < r.visited().len() ==> (#[trigger] r.visited()[k]) < graph.len(),
            forall|e: int| 0 <= e < graph.len() ==> (r.holds(e) <==> graph.reaches(keep@, root as int, e)),
            forall|e: int| 0 <= e < graph.len() ==> (r.holds(e) <==> r.visited().contains(e as usize)),
    {
        let n = graph.size();
        let mut held: Vec<bool> = Vec::new();
        let mut i: usize = 0;
        while i < n
            invariant
                i <= n,
                held@.len() == i,
                forall|j: int| 0 <= j < i ==> !(#[trigger] held@[j]),
            decreases n - i,
        {
            held.push(false);
            i = i + 1;
        }
        let mut ast = AST { root, held, order: Vec::new() };
        proof {
            let w = seq![root as int];
            assert(graph.is_walk(keep@, w));
            assert forall|m: int, j: int|
                #![trigger ast.held@[m], graph.children_of(m)[j]]
                0 <= m < ast.held@.len() && ast.held@[m] && keep@[m] && !Set::<int>::empty().contains(m)
                    && 0 <= j < graph.children_of(m).len() implies ast.held@[graph.children_of(m)[j] as int] by {
            }
        }
        AST::visit(graph, keep, root, &mut ast, Ghost(root as int), Ghost(Set::empty()));
        proof {
            assert forall|e: int| 0 <= e < graph.len() implies (ast.holds(e) <==> graph.reaches(keep@, root as int, e)) by {
                if graph.reaches(keep@, root as int, e) {
                    let w = choose|w: Seq<int>| #[trigger] graph.is_walk(keep@, w) && w[0] == root as int && w.last() == e;
                    lemma_closed_holds_reached(graph, keep@, &ast, root as int, w, w.len() - 1);
                }
            }
            assert(ast.order@.take(0) =~= Seq::<usize>::empty());
            assert(ast.order@ == dfs(graph, keep@, root, Seq::empty(), graph.len() as nat));
        }
        ast
    }

    /// [`AST::new_filtered`] expanding every entity: it holds exactly the entities
    /// reachable from `root` through children.
    pub fn new(graph: &EntityGraph, root: usize) -> (r: AST)
        requires
            graph.wf(),
            root < graph.len(),
        ensures
            r.wf(),
            r.span() == graph.len(),
            r.start() == root,
            r.visited().len() > 0,
            r.visited()[0] == root,
            r.visited() == preorder(graph, graph.keep_all(), root),
            r.visited().no_duplicates(),
            forall|k: int| 0 <= k < r.visited().len() ==> (#[trigger] r.visited()[k]) < graph.len(),
            forall|e: int| 0 <= e < graph.len() ==> (r.holds(e) <==> graph.reaches(graph.keep_all(), root as int, e)),
            forall|e: int| 0 <= e < graph.len() ==> (r.holds(e) <==> r.visited().contains(e as usize)),
    {
        let n = graph.size();
        let mut keep: Vec<bool> = Vec::new();
        let mut i: usize = 0;
        while i < n
            invariant
                i <= n,
                keep@.len() == i,
                forall|j: int| 0 <= j < i ==> #[trigger] keep@[j],
            decreases n - i,
        {
            keep.push(true);
            i = i + 1;
        }
        assert(keep@ =~= graph.keep_all());
        AST::new_filtered(graph, root, &keep)
    }

    /// Whether `e` is held.
    pub fn contains(&self, e: usize) -> (r: bool)
        requires
            self.wf(),
        ensures
            r == self.holds(e as int),
    {
        e < self.held.len() && self.held[e]
    }

    /// Takes `e` out of the set: `Some(e)` when it was held, `None` when it was not.
    pub fn take(&mut self, e: usize) -> (r: Option<usize>)
        requires
            old(self).wf(),
        ensures
            final(self).wf(),
            r == (if old(self).holds(e as int) { Some(e) } else { None::<usize> }),
            final(self).nodes() == old(self).nodes().remove(e as int),
            forall|x: int| #[trigger] final(self).holds(x) <==> (old(self).holds(x) && x != e as int),
            final(self).visited() == old(self).visited(),
            final(self).span() == old(self).span(),
            final(self).start() == old(self).start(),
    {
        if self.contains(e) {
            self.held.set(e, false);
            proof {
                assert forall|x: int| #[trigger] self.holds(x) implies self.order@.contains(x as usize) by {
                    assert(old(self).holds(x));
                }
            }
            assert(self.nodes() =~= old(self).nodes().remove(e as int));
            Some(e)
        } else {
            assert(self.nodes() =~= old(self).nodes().remove(e as int));
            None
        }
    }

    /// The entities of `s` that are held, in the order of `s`.
    pub open spec fn held_among(&self, s: Seq<usize>) -> Seq<usize> {
        s.filter(|x: usize| self.holds(x as int))
    }

    /// Every entity the traversal met, in the order it met them.
    pub fn visited_nodes(&self) -> (r: Vec<usize>)
        ensures
            r@ == self.visited(),
    {
        let mut r: Vec<usize> = Vec::new();
        let mut i: usize = 0;
        while i < self.order.len()
            invariant
                i <= self.order@.len(),
                r@ == self.order@.take(i as int),
            decreases self.order@.len() - i,
        {
            r.push(self.order[i]);
            i = i + 1;
            assert(r@ =~= self.order@.take(i as int));
        }
        assert(self.order@.take(i as int) =~= self.order@);
        r
    }

    /// The held entities, in the order the traversal met them.
    pub fn held_nodes(&self) -> (r: Vec<usize>)
        requires
            self.wf(),
        ensures
            r@ == self.held_among(self.visited()),
    {
        let mut r: Vec<usize> = Vec::new();
        let mut i: usize = 0;
        while i < self.order.len()
            invariant
                self.wf(),
                i <= self.order@.len(),
                r@ == self.held_among(self.order@.take(i as int)),
            decreases self.order@.len() - i,
        {
            let e = self.order[i];
            proof {
                assert(self.order@.take(i as int + 1).drop_last() =~= self.order@.take(i as int));
            }
            if self.contains(e) {
                r.push(e);
            }
            proof {
                reveal(Seq::filter);
                let s1 = self.order@.take(i as int + 1);
                assert(s1.last() == e);
                assert(s1.len() > 0);
                assert(self.held_among(s1) == (if self.holds(e as int) {
                    self.held_among(s1.drop_last()).push(e)
                } else {
                    self.held_among(s1.drop_last())
                }));
            }
            i = i + 1;
        }
        assert(self.order@.take(i as int) =~= self.order@);
        r
    }
}

/// The keys written in the output documents.
#[derive(Clone, Copy, Debug, PartialEq, Eq, Structural)]
pub enum Key {
    Label,
    Kind,
    Name,
    DisplayName,
    Type,
    Usr,
    Location,
    Children,
    Metadata,
    Source,
    Target,
    Edges,
    Nodes,
    Graph,
    CallGraph,
}

pub open spec fn key_name(k: Key) -> Seq<char> {
    match k {
        Key::Label => "label"@,
        Key::Kind => "kind"@,
        Key::Name => "name"@,
        Key::DisplayName => "displayName"@,
        Key::Type => "type"@,
        Key::Usr => "usr"@,
        Key::Location => "location"@,
        Key::Children => "children"@,
        Key::Metadata => "metadata"@,
        Key::Source => "source"@,
        Key::Target => "target"@,
        Key::Edges => "edges"@,
        Key::Nodes => "nodes"@,
        Key::Graph => "graph"@,
        Key::CallGraph => "call graph"@,
    }
}

impl Key {
    pub fn get_key(&self) -> (r: &'static str)
        ensures
            r@ == key_name(*self),
    {
        match self {
            Key::Label => "label",
            Key::Kind => "kind",
            Key::Name => "name",
            Key::DisplayName => "displayName",
            Key::Type => "type",
            Key::Usr => "usr",
            Key::Location => "location",
            Key::Children => "children",
            Key::Metadata => "metadata",
            Key::Source => "source",
            Key::Target => "target",
            Key::Edges => "edges",
            Key::Nodes => "nodes",
            Key::Graph => "graph",
            Key::CallGraph => "call graph",
        }
    }
}

/// A named JSON array.
pub struct Array<T> {
    pub name: Key,
    pub members: Vec<T>,
}

impl<T> Array<T> {
    pub fn new(name: Key, members: Vec<T>) -> (r: Array<T>)
        ensures
            r.name == name,
            r.members@ == members@,
    {
        Array { name, members }
    }

    pub fn push(&mut self, new_member: T)
        ensures
            final(self).name == old(self).name,
            final(self).members@ == old(self).members@.push(new_member),
    {
        self.members.push(new_member);
    }
}

/// A value written as JSON at the writer's current indentation.
pub trait Serialize {
    /// The text written when the writer is at indentation `p`.
    spec fn text(&self, p: nat) -> Seq<char>;

    /// The brackets written, with their indentations, when the writer is at indentation `p`.
    spec fn shape(&self, p: nat) -> Seq<(Bracket, nat)>;

    /// How much deeper than its starting point the indentation goes while writing.
    spec fn depth(&self) -> nat;

    /// What the value must satisfy to be written.
    spec fn serializable(&self) -> bool;

    fn serialize(&self, json: JSONSerializer) -> (r: JSONSerializer)
        requires
            self.serializable(),
            json.wf(),
            json.level() + self.depth() <= usize::MAX,
        ensures
            r.wf(),
            r.level() == json.level(),
            r.out@ == json.out@ + self.text(json.level()),
            r.trace@ == json.trace@ + self.shape(json.level()),
    ;
}

/// The characters of the directory name that conventionally holds headers.
pub open spec fn header_dir_word() -> Seq<char> {
    seq!['i', 'n', 'c', 'l', 'u', 'd', 'e']
}

fn header_dir() -> (r: String)
    ensures
        r@ == header_dir_word(),
{
    let mut r = String::new();
    push_char(&mut r, 'i');
    push_char(&mut r, 'n');
    push_char(&mut r, 'c');
    push_char(&mut r, 'l');
    push_char(&mut r, 'u');
    push_char(&mut r, 'd');
    push_char(&mut r, 'e');
    assert(r@ =~= header_dir_word());
    r
}

/// A location is excluded when one of `dirs` or the header directory word occurs in it.
pub open spec fn excluded(location: Seq<char>, dirs: Seq<String>) -> bool {
    ||| exists|i: int| 0 <= i < dirs.len() && occurs_in(#[trigger] dirs[i]@, location)
    ||| occurs_in(header_dir_word(), location)
}

/// Whether an entity at `location` is written: not excluded, and not from a system
/// header unless those were asked for.
pub open spec fn emitted(location: Seq<char>, dirs: Seq<String>, in_system_header: bool, system_headers: bool) -> bool {
    !excluded(location, dirs) && (!in_system_header || system_headers)
}

impl AST {
    /// Whether `location` contains one of `exclude_dirs`, or the header directory word,
    /// as a plain substring.
    pub fn should_be_excluded(location: &str, exclude_dirs: &Vec<String>) -> (r: bool)
        ensures
            r == excluded(location@, exclude_dirs@),
    {
        let mut i: usize = 0;
        while i < exclude_dirs.len()
            invariant
                i <= exclude_dirs@.len(),
                forall|j: int| 0 <= j < i ==> !occurs_in(#[trigger] exclude_dirs@[j]@, location@),
            decreases exclude_dirs@.len() - i,
        {
            if contains_text(location, exclude_dirs[i].as_str()) {
                return true;
            }
            i = i + 1;
        }
        let word = header_dir();
        contains_text(location, word.as_str())
    }
}

/// One entity of the dump, owning the nodes made for its children.
pub struct Node {
    pub entity: usize,
    pub hash: u64,
    pub kind: String,
    pub name: String,
    pub display_name: String,
    pub type_text: String,
    pub usr: String,
    pub location: String,
    pub children: Vec<Node>,
    pub serialize: bool,
    pub serialize_children: bool,
}

/// The entities of a tree of nodes, root first, then each child's tree in order.
pub open spec fn tree_entities(n: Node) -> Seq<usize>
    decreases n, 1int,
{
    seq![n.entity] + forest_entities(n.children@)
}

/// The entities of a sequence of trees, one tree after another.
pub open spec fn forest_entities(s: Seq<Node>) -> Seq<usize>
    decreases s, 0int,
{
    if s.len() == 0 {
        Seq::empty()
    } else {
        forest_entities(s.subrange(0, s.len() - 1)) + tree_entities(s[s.len() - 1])
    }
}

/// The fields of `n` are those of its entity in `g`, and its children are children of
/// that entity.
pub open spec fn node_matches(g: &EntityGraph, n: Node, dirs: Seq<String>, system_headers: bool, serialize_children: bool) -> bool {
    let e = g.entity(n.entity as int);
    &&& g.valid(n.entity as int)
    &&& n.hash == e.hash
    &&& n.kind@ == kind_name(e.kind)
    &&& n.name@ == e.name.name_text()
    &&& n.display_name@ == e.display_name.name_text()
    &&& n.type_text@ == e.type_display.name_text()
    &&& n.usr@ == e.usr.name_text()
    &&& n.location@ == e.location.name_text()
    &&& n.serialize == emitted(n.location@, dirs, e.in_system_header, system_headers)
    &&& n.serialize_children == serialize_children
    &&& children_in_order(g, n.entity, n.children@)
}

/// The entities of `kids` are children of `e`, in the order `e` lists them: `pos` gives
/// the position of each among the children of `e`.
pub open spec fn placed_in_order(g: &EntityGraph, e: usize, kids: Seq<Node>, pos: Seq<int>) -> bool {
    &&& pos.len() == kids.len()
    &&& forall|k: int| 0 <= k < kids.len() ==> 0 <= #[trigger] pos[k] < g.children_of(e as int).len()
        && g.children_of(e as int)[pos[k]] == kids[k].entity
    &&& forall|k1: int, k2: int| 0 <= k1 < k2 < kids.len() ==> #[trigger] pos[k1] < #[trigger] pos[k2]
}

/// The entities of `kids` are children of `e`, in the order `e` lists them.
pub open spec fn children_in_order(g: &EntityGraph, e: usize, kids: Seq<Node>) -> bool {
    exists|pos: Seq<int>| placed_in_order(g, e, kids, pos)
}

/// Every node of the tree matches its entity.
pub open spec fn tree_ok(g: &EntityGraph, n: Node, dirs: Seq<String>, system_headers: bool, serialize_children: bool) -> bool
    decreases n, 1int,
{
    node_matches(g, n, dirs, system_headers, serialize_children)
        && forest_ok(g, n.children@, dirs, system_headers, serialize_children)
}

/// Every node of every tree matches its entity.
pub open spec fn forest_ok(g: &EntityGraph, s: Seq<Node>, dirs: Seq<String>, system_headers: bool, serialize_children: bool) -> bool
    decreases s, 0int,
{
    s.len() == 0 || (forest_ok(g, s.subrange(0, s.len() - 1), dirs, system_headers, serialize_children)
        && tree_ok(g, s[s.len() - 1], dirs, system_headers, serialize_children))
}

/// The entities of `t` are exactly `first` and those that `before` held and `after` no
/// longer holds, each once; and no child of any of them is still held.
pub open spec fn tree_taken(g: &EntityGraph, t: Seq<usize>, first: usize, before: AST, after: AST) -> bool {
    &&& t.no_duplicates()
    &&& forall|x: usize| #[trigger] t.contains(x) <==> ((x == first || before.holds(x as int)) && !after.holds(x as int))
    &&& forall|x: usize, j: int|
        #![trigger t.contains(x), g.children_of(x as int)[j]]
        t.contains(x) && 0 <= j < g.children_of(x as int).len() ==> !after.holds(g.children_of(x as int)[j] as int)
}

proof fn lemma_concat_contains<A>(a: Seq<A>, b: Seq<A>)
    ensures
        forall|x: A| #[trigger] (a + b).contains(x) <==> a.contains(x) || b.contains(x),
{
    assert forall|x: A| #[trigger] (a + b).contains(x) implies a.contains(x) || b.contains(x) by {
        let i = choose|i: int| 0 <= i < (a + b).len() && (a + b)[i] == x;
        if i >= a.len() {
            assert(b[i - a.len()] == x);
        }
    }
    assert forall|x: A| a.contains(x) || b.contains(x) implies #[trigger] (a + b).contains(x) by {
        if a.contains(x) {
            let i = choose|i: int| 0 <= i < a.len() && a[i] == x;
            assert((a + b)[i] == x);
        } else {
            let i = choose|i: int| 0 <= i < b.len() && b[i] == x;
            assert((a + b)[i + a.len()] == x);
        }
    }
}

proof fn lemma_concat_no_duplicates<A>(a: Seq<A>, b: Seq<A>)
    requires
        a.no_duplicates(),
        b.no_duplicates(),
        forall|x: A| a.contains(x) ==> !b.contains(x),
    ensures
        (a + b).no_duplicates(),
{
    assert forall|i: int, j: int| 0 <= i < (a + b).len() && 0 <= j < (a + b).len() && i != j implies (a + b)[i] != (a + b)[j] by {
        if i < a.len() && j >= a.len() {
            assert(a.contains(a[i]));
            assert(b[j - a.len()] == (a + b)[j]);
        } else if i >= a.len() && j < a.len() {
            assert(a.contains(a[j]));
            assert(b[i - a.len()] == (a + b)[i]);
        }
    }
}

/// The held entities are finite, no more than the graph has.
proof fn lemma_nodes_finite(ast: &AST)
    ensures
        ast.nodes().finite(),
        ast.nodes().len() <= ast.span(),
{
    lemma_int_range(0, ast.span() as int);
    assert(ast.nodes().subset_of(set_int_range(0, ast.span() as int)));
    lemma_len_subset(ast.nodes(), set_int_range(0, ast.span() as int));
}

impl Node {
    /// Makes the node of `node`, taking it out of `ast`, and below it, in child order,
    /// the node of each child that `ast` still holds, taking each out the same way.
    /// A child that an earlier branch already took is left out, so each entity
    /// becomes at most one node.
    pub fn new(
        graph: &EntityGraph,
        node: usize,
        ast: &mut AST,
        serialize_children: bool,
        exclude_dirs: &Vec<String>,
        system_headers: bool,
    ) -> (r: Node)
        requires
            graph.wf(),
            node < graph.len(),
            old(ast).wf(),
            old(ast).span() == graph.len(),
        ensures
            final(ast).wf(),
            final(ast).span() == old(ast).span(),
            final(ast).start() == old(ast).start(),
            final(ast).visited() == old(ast).visited(),
            final(ast).nodes().subset_of(old(ast).nodes()),
            forall|x: int| #[trigger] final(ast).holds(x) ==> old(ast).holds(x),
            r.entity == node,
            tree_ok(graph, r, exclude_dirs@, system_headers, serialize_children),
            tree_taken(graph, tree_entities(r), node, *old(ast), *final(ast)),
    {
        let _ = ast.take(node);
        let ghost mid = *ast;
        let r = Node::build(graph, node, ast, serialize_children, exclude_dirs, system_headers);
        proof {
            assert forall|x: usize| #[trigger] tree_entities(r).contains(x) <==> (x == node || (old(ast).holds(x as int) && !ast.holds(x as int))) by {
                if x != node && old(ast).holds(x as int) && !ast.holds(x as int) {
                    assert(mid.holds(x as int));
                }
            }
        }
        r
    }

    fn build(
        graph: &EntityGraph,
        node: usize,
        ast: &mut AST,
        serialize_children: bool,
        exclude_dirs: &Vec<String>,
        system_headers: bool,
    ) -> (r: Node)
        requires
            graph.wf(),
            node < graph.len(),
            old(ast).wf(),
            old(ast).span() == graph.len(),
            !old(ast).holds(node as int),
        ensures
            final(ast).wf(),
            final(ast).span() == old(ast).span(),
            final(ast).start() == old(ast).start(),
            final(ast).visited() == old(ast).visited(),
            final(ast).nodes().subset_of(old(ast).nodes()),
            forall|x: int| #[trigger] final(ast).holds(x) ==> old(ast).holds(x),
            r.entity == node,
            tree_ok(graph, r, exclude_dirs@, system_headers, serialize_children),
            tree_taken(graph, tree_entities(r), node, *old(ast), *final(ast)),
        decreases old(ast).nodes().len(),
    {
        let e = &graph.entities[node];
        let n_children = e.children.len();
        let mut kids: Vec<Node> = Vec::new();
        let ghost mut pos: Seq<int> = Seq::empty();
        let mut i: usize = 0;
        while i < n_children
            invariant
                graph.wf(),
                node < graph.len(),
                *e == graph.entity(node as int),
                n_children == graph.children_of(node as int).len(),
                i <= n_children,
                ast.wf(),
                ast.span() == old(ast).span(),
                ast.start() == old(ast).start(),
                ast.visited() == old(ast).visited(),
                ast.nodes().subset_of(old(ast).nodes()),
                forall|x: int| #[trigger] ast.holds(x) ==> old(ast).holds(x),
                old(ast).span() == graph.len(),
                !ast.holds(node as int),
                forest_ok(graph, kids@, exclude_dirs@, system_headers, serialize_children),
                placed_in_order(graph, node, kids@, pos),
                forall|k: int| 0 <= k < pos.len() ==> #[trigger] pos[k] < i,
                forest_entities(kids@).no_duplicates(),
                forall|x: usize| #[trigger] forest_entities(kids@).contains(x) <==> (old(ast).holds(x as int) && !ast.holds(x as int)),
                forall|x: usize, j: int|
                    #![trigger forest_entities(kids@).contains(x), graph.children_of(x as int)[j]]
                    forest_entities(kids@).contains(x) && 0 <= j < graph.children_of(x as int).len()
                        ==> !ast.holds(graph.children_of(x as int)[j] as int),
                forall|j: int| 0 <= j < i ==> !ast.holds(#[trigger] graph.children_of(node as int)[j] as int),
            decreases n_children - i,
        {
            let c = e.children[i];
            proof {
                assert(graph.children_of(node as int)[i as int] == c);
            }
            let ghost before = *ast;
            match ast.take(c) {
                Some(c) => {
                    proof {
                        lemma_nodes_finite(&before);
                        lemma_nodes_finite(old(ast));
                        lemma_len_subset(before.nodes(), old(ast).nodes());
                        assert(before.nodes().contains(c as int));
                    }
                    let ghost mid = *ast;
                    let child = Node::build(graph, c, ast, serialize_children, exclude_dirs, system_headers);
                    let ghost kids_before = kids@;
                    kids.push(child);
                    proof {
                        let old_pos = pos;
                        pos = pos.push(i as int);
                        assert forall|k1: int, k2: int| 0 <= k1 < k2 < kids@.len() implies #[trigger] pos[k1] < #[trigger] pos[k2] by {
                            if k2 < kids@.len() - 1 {
                                assert(pos[k1] == old_pos[k1] && pos[k2] == old_pos[k2]);
                            } else {
                                assert(pos[k1] == old_pos[k1]);
                            }
                        }
                        assert forall|k: int| 0 <= k < kids@.len() implies 0 <= #[trigger] pos[k] < graph.children_of(node as int).len()
                            && graph.children_of(node as int)[pos[k]] == kids@[k].entity by {
                            if k < kids@.len() - 1 {
                                assert(pos[k] == old_pos[k] && kids@[k] == kids_before[k]);
                            }
                        }
                        assert(kids@.subrange(0, kids@.len() - 1) =~= kids_before);
                        assert(kids@[kids@.len() - 1] == child);
                        assert(forest_entities(kids@) == forest_entities(kids_before) + tree_entities(child));
                        lemma_concat_contains(forest_entities(kids_before), tree_entities(child));
                        assert forall|x: usize| forest_entities(kids_before).contains(x) implies !tree_entities(child).contains(x) by {
                            assert(!before.holds(x as int));
                            if x == c {
                                assert(before.holds(c as int));
                            }
                        }
                        lemma_concat_no_duplicates(forest_entities(kids_before), tree_entities(child));
                        assert forall|x: usize| #[trigger] forest_entities(kids@).contains(x) <==> (old(ast).holds(x as int) && !ast.holds(x as int)) by {
                            if tree_entities(child).contains(x) {
                                if x != c {
                                    assert(mid.holds(x as int));
                                }
                            }
                            if old(ast).holds(x as int) && !ast.holds(x as int) && !forest_entities(kids_before).contains(x) {
                                assert(before.holds(x as int));
                                if x != c {
                                    assert(mid.holds(x as int));
                                }
                            }
                        }
                        assert forall|x: usize, j: int|
                            #![trigger forest_entities(kids@).contains(x), graph.children_of(x as int)[j]]
                            forest_entities(kids@).contains(x) && 0 <= j < graph.children_of(x as int).len()
                                implies !ast.holds(graph.children_of(x as int)[j] as int) by {
                            if forest_entities(kids_before).contains(x) {
                                assert(!before.holds(graph.children_of(x as int)[j] as int));
                            } else {
                                assert(tree_entities(child).contains(x));
                            }
                        }
                        assert forall|j: int| 0 <= j <= i implies !ast.holds(#[trigger] graph.children_of(node as int)[j] as int) by {
                            if j < i {
                                assert(!before.holds(graph.children_of(node as int)[j] as int));
                            }
                        }
                    }
                }
                None => {
                    proof {
                        assert forall|j: int| 0 <= j <= i implies !ast.holds(#[trigger] graph.children_of(node as int)[j] as int) by {
                            if j < i {
                                assert(!before.holds(graph.children_of(node as int)[j] as int));
                            }
                        }
                    }
                }
            }
            i = i + 1;
        }
        let location = e.location.get_name();
        let serialize = !AST::should_be_excluded(location.as_str(), exclude_dirs) && (!e.in_system_header || system_headers);
        let r = Node {
            entity: node,
            hash: e.hash,
            kind: String::from_str(get_kind_label(e.kind)),
            name: e.name.get_name(),
            display_name: e.display_name.get_name(),
            type_text: e.type_display.get_name(),
            usr: e.usr.get_name(),
            location,
            children: kids,
            serialize,
            serialize_children,
        };
        proof {
            lemma_concat_contains(seq![node], forest_entities(r.children@));
            assert(seq![node][0] == node);
            assert(seq![node].contains(node));
            lemma_concat_no_duplicates(seq![node], forest_entities(r.children@));
            assert forall|x: usize, j: int|
                #![trigger tree_entities(r).contains(x), graph.children_of(x as int)[j]]
                tree_entities(r).contains(x) && 0 <= j < graph.children_of(x as int).len()
                    implies !ast.holds(graph.children_of(x as int)[j] as int) by {
                if x == node {
                    assert(!ast.holds(graph.children_of(node as int)[j] as int));
                } else {
                    assert(forest_entities(r.children@).contains(x));
                }
            }
        }
        r
    }
}

/// A tree built with [`Node::new`] from the root of a fresh traversal takes every entity
/// that traversal holds exactly once: its entities are the traversal's, none repeated,
/// and nothing is left held.
pub proof fn lemma_tree_takes_each_entity_once(g: &EntityGraph, root: usize, before: AST, after: AST, tree: Node)
    requires
        g.wf(),
        root < g.len(),
        before.wf(),
        before.span() == g.len(),
        forall|e: int| 0 <= e < g.len() ==> (before.holds(e) <==> g.reaches(g.keep_all(), root as int, e)),
        after.span() == g.len(),
        forall|x: int| #[trigger] after.holds(x) ==> before.holds(x),
        tree.entity == root,
        tree_taken(g, tree_entities(tree), root, before, after),
    ensures
        forall|x: usize| #[trigger] tree_entities(tree).contains(x) <==> before.holds(x as int),
        tree_entities(tree).no_duplicates(),
        after.nodes() == Set::<int>::empty(),
{
    let t = tree_entities(tree);
    assert(t[0] == root);
    assert(t.contains(root));
    assert(g.is_walk(g.keep_all(), seq![root as int]));
    assert(before.holds(root as int));
    assert forall|x: usize| before.holds(x as int) implies #[trigger] t.contains(x) && !after.holds(x as int) by {
        let w = choose|w: Seq<int>| #[trigger] g.is_walk(g.keep_all(), w) && w[0] == root as int && w.last() == x as int;
        lemma_walk_in_tree(g, root, before, after, t, w, w.len() - 1);
    }
    assert(after.nodes() =~= Set::<int>::empty()) by {
        assert forall|x: int| !after.nodes().contains(x) by {
            if after.holds(x) {
                assert(before.holds(x));
                assert(before.holds(x as usize as int));
                assert(t.contains(x as usize));
                assert(!after.holds(x as usize as int));
            }
        }
    }
}

proof fn lemma_walk_in_tree(g: &EntityGraph, root: usize, before: AST, after: AST, t: Seq<usize>, w: Seq<int>, k: int)
    requires
        g.wf(),
        before.wf(),
        before.span() == g.len(),
        forall|e: int| 0 <= e < g.len() ==> (before.holds(e) <==> g.reaches(g.keep_all(), root as int, e)),
        tree_taken(g, t, root, before, after),
        t.contains(root),
        g.is_walk(g.keep_all(), w),
        w[0] == root as int,
        0 <= k < w.len(),
    ensures
        t.contains(w[k] as usize),
        !after.holds(w[k]),
    decreases k,
{
    if k == 0 {
        assert(t.contains(root));
        assert(w[0] as usize == root);
    } else {
        lemma_walk_in_tree(g, root, before, after, t, w, k - 1);
        let p = w[k - 1];
        assert(g.keep_all()[p] && g.is_child(p, w[k]));
        assert(g.valid(p) && g.valid(w[k]));
        let j = choose|j: int| 0 <= j < g.children_of(p).len() && g.children_of(p)[j] == w[k] as usize;
        assert(t.contains(p as usize) && 0 <= j < g.children_of(p as usize as int).len());
        assert(!after.holds(g.children_of(p as usize as int)[j] as int));
        let wk = w.subrange(0, k + 1);
        assert(g.is_walk(g.keep_all(), wk));
        assert(before.holds(w[k]));
    }
}

/// How many levels of nodes the tree has.
pub open spec fn tree_height(n: Node) -> nat
    decreases n, 1int,
{
    1 + forest_height(n.children@)
}

/// The height of the tallest tree.
pub open spec fn forest_height(s: Seq<Node>) -> nat
    decreases s, 0int,
{
    if s.len() == 0 {
        0
    } else {
        let a = forest_height(s.subrange(0, s.len() - 1));
        let b = tree_height(s[s.len() - 1]);
        if a >= b { a } else { b }
    }
}

proof fn lemma_forest_height_bounds(s: Seq<Node>, i: int)
    requires
        0 <= i < s.len(),
    ensures
        tree_height(s[i]) <= forest_height(s),
    decreases s.len(),
{
    if i < s.len() - 1 {
        lemma_forest_height_bounds(s.subrange(0, s.len() - 1), i);
        assert(s.subrange(0, s.len() - 1)[i] == s[i]);
    }
}

/// The six metadata lines of a node.
pub open spec fn metadata_text(n: Node, p: nat) -> Seq<char> {
    line_text(p, key_name(Key::Kind), n.kind@) + line_text(p, key_name(Key::Name), n.name@)
        + line_text(p, key_name(Key::DisplayName), n.display_name@) + line_text(p, key_name(Key::Type), n.type_text@)
        + line_text(p, key_name(Key::Usr), n.usr@) + line_text(p, key_name(Key::Location), n.location@)
}

/// The opening of a node's object: its key, its label and the opening of its metadata.
pub open spec fn node_head(n: Node, p: nat) -> Seq<char> {
    key_bracket_text(p, decimal(n.hash as nat), Bracket::LCurly)
        + line_text(p + 2, key_name(Key::Label), n.display_name@)
        + key_bracket_text(p + 2, key_name(Key::Metadata), Bracket::LCurly)
}

/// The closing of the metadata object and of the object around it.
pub open spec fn object_tail(p: nat) -> Seq<char> {
    bracket_text(p + 2, Bracket::RCurly) + bracket_text(p, Bracket::RCurly)
}

/// A node written at indentation `p`: nothing when it is not emitted; otherwise an
/// object keyed by its hash with its label, its metadata and, when asked for, its children.
pub open spec fn node_text(n: Node, p: nat) -> Seq<char>
    decreases n, 2int,
{
    if !n.serialize {
        Seq::empty()
    } else {
        node_head(n, p) + metadata_text(n, p + 4)
            + (if n.serialize_children { children_text(n.children@, p + 4) } else { Seq::empty() })
            + object_tail(p)
    }
}

/// Closes a metadata object and the object around it, four columns out.
fn write_tail(json: &mut JSONSerializer)
    requires
        old(json).wf(),
        old(json).level() >= 4,
    ensures
        final(json).wf(),
        final(json).level() == old(json).level() - 4,
        final(json).out@ == old(json).out@ + object_tail((old(json).level() - 4) as nat),
        final(json).trace@ == old(json).trace@ + object_tail_shape((old(json).level() - 4) as nat),
{
    json.prefix.shrink();
    json.render_bracket(Bracket::RCurly);
    json.prefix.shrink();
    json.render_bracket(Bracket::RCurly);
    assert(json.out@ =~= old(json).out@ + object_tail((old(json).level() - 4) as nat));
    assert(json.trace@ =~= old(json).trace@ + object_tail_shape((old(json).level() - 4) as nat));
}

/// The `children` array at indentation `p`.
pub open spec fn children_text(s: Seq<Node>, p: nat) -> Seq<char>
    decreases s, 1int,
{
    key_bracket_text(p, key_name(Key::Children), Bracket::LBrace) + members_text(s, p + 2)
        + bracket_text(p, Bracket::RBrace)
}

/// The nodes one after another, a comma between each two.
pub open spec fn members_text(s: Seq<Node>, p: nat) -> Seq<char>
    decreases s, 0int,
{
    if s.len() == 0 {
        Seq::empty()
    } else {
        let head = members_text(s.subrange(0, s.len() - 1), p);
        (if s.len() > 1 { head.push(',') } else { head }) + node_text(s[s.len() - 1], p)
    }
}

/// The brackets of a node written at indentation `p`.
pub open spec fn node_shape(n: Node, p: nat) -> Seq<(Bracket, nat)>
    decreases n, 2int,
{
    if !n.serialize {
        Seq::empty()
    } else {
        seq![(Bracket::LCurly, p), (Bracket::LCurly, p + 2)]
            + (if n.serialize_children { children_shape(n.children@, p + 4) } else { Seq::empty() })
            + object_tail_shape(p)
    }
}

/// The brackets that close a metadata object and the object around it.
pub open spec fn object_tail_shape(p: nat) -> Seq<(Bracket, nat)> {
    seq![(Bracket::RCurly, p + 2), (Bracket::RCurly, p)]
}

/// The brackets of a `children` array at indentation `p`.
pub open spec fn children_shape(s: Seq<Node>, p: nat) -> Seq<(Bracket, nat)>
    decreases s, 1int,
{
    seq![(Bracket::LBrace, p)] + members_shape(s, p + 2) + seq![(Bracket::RBrace, p)]
}

/// The brackets of the nodes one after another.
pub open spec fn members_shape(s: Seq<Node>, p: nat) -> Seq<(Bracket, nat)>
    decreases s, 0int,
{
    if s.len() == 0 {
        Seq::empty()
    } else {
        members_shape(s.subrange(0, s.len() - 1), p) + node_shape(s[s.len() - 1], p)
    }
}

impl Node {
    fn write(&self, json: &mut JSONSerializer)
        requires
            old(json).wf(),
            old(json).level() + 6 * tree_height(*self) <= usize::MAX,
        ensures
            final(json).wf(),
            final(json).level() == old(json).level(),
            final(json).out@ == old(json).out@ + node_text(*self, old(json).level()),
            final(json).trace@ == old(json).trace@ + node_shape(*self, old(json).level()),
        decreases *self, 2int,
    {
        if self.serialize {
            let p = json.level_exec();
            self.write_head(json);
            let ghost o1 = json.out@;
            self.write_metadata(json);
            let ghost o2 = json.out@;
            if self.serialize_children {
                Node::write_children(&self.children, json);
            }
            let ghost o3 = json.out@;
            let ghost t3 = json.trace@;
            write_tail(json);
            proof {
                let q: nat = p as nat;
                let c = if self.serialize_children { children_text(self.children@, q + 4) } else { Seq::empty() };
                assert(o3 =~= o2 + c);
                assert(json.out@ =~= old(json).out@ + node_text(*self, q));
                let cs = if self.serialize_children { children_shape(self.children@, q + 4) } else { Seq::empty() };
                assert(json.trace@ =~= old(json).trace@ + node_shape(*self, q));
            }
        }
    }

    fn write_head(&self, json: &mut JSONSerializer)
        requires
            old(json).wf(),
            old(json).level() + 4 <= usize::MAX,
        ensures
            final(json).wf(),
            final(json).level() == old(json).level() + 4,
            final(json).out@ == old(json).out@ + node_head(*self, old(json).level()),
            final(json).trace@ == old(json).trace@ + seq![(Bracket::LCurly, old(json).level()), (Bracket::LCurly, old(json).level() + 2)],
    {
        let key = to_decimal(self.hash);
        json.render_line_with_bracket(key.as_str(), Bracket::LCurly);
        json.prefix.expand();
        json.render_line(Key::Label.get_key(), self.display_name.as_str());
        json.render_line_with_bracket(Key::Metadata.get_key(), Bracket::LCurly);
        json.prefix.expand();
        assert(json.out@ =~= old(json).out@ + node_head(*self, old(json).level()));
        assert(json.trace@ =~= old(json).trace@ + seq![(Bracket::LCurly, old(json).level()), (Bracket::LCurly, old(json).level() + 2)]);
    }

    fn write_metadata(&self, json: &mut JSONSerializer)
        requires
            old(json).wf(),
        ensures
            final(json).wf(),
            final(json).level() == old(json).level(),
            final(json).out@ == old(json).out@ + metadata_text(*self, old(json).level()),
            final(json).trace == old(json).trace,
    {
        json.render_line(Key::Kind.get_key(), self.kind.as_str());
        json.render_line(Key::Name.get_key(), self.name.as_str());
        json.render_line(Key::DisplayName.get_key(), self.display_name.as_str());
        json.render_line(Key::Type.get_key(), self.type_text.as_str());
        json.render_line(Key::Usr.get_key(), self.usr.as_str());
        json.render_line(Key::Location.get_key(), self.location.as_str());
        assert(json.out@ =~= old(json).out@ + metadata_text(*self, old(json).level()));
    }

    fn write_children(kids: &Vec<Node>, json: &mut JSONSerializer)
        requires
            old(json).wf(),
            old(json).level() + 2 + 6 * forest_height(kids@) <= usize::MAX,
        ensures
            final(json).wf(),
            final(json).level() == old(json).level(),
            final(json).out@ == old(json).out@ + children_text(kids@, old(json).level()),
            final(json).trace@ == old(json).trace@ + children_shape(kids@, old(json).level()),
        decreases kids@, 1int,
    {
        let p = json.level_exec();
        json.render_line_with_bracket(Key::Children.get_key(), Bracket::LBrace);
        json.prefix.expand();
        let ghost start = json.out@;
        let ghost tstart = json.trace@;
        let mut i: usize = 0;
        while i < kids.len()
            invariant
                json.trace@ == tstart + members_shape(kids@.take(i as int), (p + 2) as nat),
                json.wf(),
                json.level() == p + 2,
                p + 2 + 6 * forest_height(kids@) <= usize::MAX,
                i <= kids@.len(),
                json.out@ == start + members_text(kids@.take(i as int), (p + 2) as nat),
            decreases kids@.len() - i,
        {
            let ghost before = json.out@;
            if i > 0 {
                json.render_comma();
            }
            proof {
                lemma_forest_height_bounds(kids@, i as int);
            }
            kids[i].write(json);
            proof {
                let s1 = kids@.take(i as int + 1);
                assert(s1.subrange(0, s1.len() - 1) =~= kids@.take(i as int));
                assert(s1[s1.len() - 1] == kids@[i as int]);
            }
            i = i + 1;
            proof {
                assert(json.out@ =~= start + members_text(kids@.take(i as int), (p + 2) as nat));
                assert(json.trace@ =~= tstart + members_shape(kids@.take(i as int), (p + 2) as nat));
            }
        }
        assert(kids@.take(i as int) =~= kids@);
        json.prefix.shrink();
        json.render_bracket(Bracket::RBrace);
        assert(json.out@ =~= old(json).out@ + children_text(kids@, p as nat));
        assert(json.trace@ =~= old(json).trace@ + children_shape(kids@, p as nat));
    }
}

impl Serialize for Node {
    open spec fn text(&self, p: nat) -> Seq<char> {
        node_text(*self, p)
    }

    open spec fn shape(&self, p: nat) -> Seq<(Bracket, nat)> {
        node_shape(*self, p)
    }

    open spec fn depth(&self) -> nat {
        6 * tree_height(*self)
    }

    open spec fn serializable(&self) -> bool {
        true
    }

    fn serialize(&self, json: JSONSerializer) -> (r: JSONSerializer) {
        let mut json = json;
        self.write(&mut json);
        json
    }
}

/// The kinds that make a call-graph node: methods, constructors, destructors, free
/// functions and lambdas.
pub open spec fn is_callable(k: EntityKind) -> bool {
    ||| k == EntityKind::Method
    ||| k == EntityKind::Constructor
    ||| k == EntityKind::Destructor
    ||| k == EntityKind::FunctionDecl
    ||| k == EntityKind::LambdaExpr
}

pub fn callable(k: EntityKind) -> (r: bool)
    ensures
        r == is_callable(k),
{
    k == EntityKind::Method || k == EntityKind::Constructor || k == EntityKind::Destructor
        || k == EntityKind::FunctionDecl || k == EntityKind::LambdaExpr
}

/// The definition of `x` when the graph records one, else `x` itself.
pub open spec fn prefer_definition(g: &EntityGraph, x: int) -> int {
    match g.entity(x).definition {
        Some(d) => d as int,
        None => x,
    }
}

/// What the first call expression of `s` that refers to something refers to.
pub open spec fn first_reference(g: &EntityGraph, s: Seq<usize>) -> Option<usize>
    decreases s.len(),
{
    if s.len() == 0 {
        None
    } else if g.kind_of(s[0] as int) == EntityKind::CallExpr && g.entity(s[0] as int).reference is Some {
        g.entity(s[0] as int).reference
    } else {
        first_reference(g, s.drop_first())
    }
}

/// What the call expression `c` calls: what it refers to; failing that, what the first
/// call expression met below it in pre-order that refers to something refers to;
/// failing that, `c` itself. In each case the definition is taken when there is one.
pub open spec fn callee_of(g: &EntityGraph, c: usize) -> int {
    let raw: int = match g.entity(c as int).reference {
        Some(t) => t as int,
        None => match first_reference(g, preorder(g, g.keep_all(), c)) {
            Some(t) => t as int,
            None => c as int,
        },
    };
    prefer_definition(g, raw)
}

/// A call from `source` to `target`, with the identity hashes written for both.
pub struct Edge {
    pub source: usize,
    pub target: usize,
    pub source_hash: u64,
    pub target_hash: u64,
}

impl Edge {
    pub fn new(graph: &EntityGraph, source: usize, target: usize) -> (r: Edge)
        requires
            source < graph.len(),
            target < graph.len(),
        ensures
            r.source == source,
            r.target == target,
            r.source_hash == graph.entity(source as int).hash,
            r.target_hash == graph.entity(target as int).hash,
    {
        Edge {
            source,
            target,
            source_hash: graph.entities[source].hash,
            target_hash: graph.entities[target].hash,
        }
    }
}

/// The edge for the call expression `c` inside `caller`.
pub open spec fn make_edge(g: &EntityGraph, caller: usize, c: usize) -> Edge {
    let t = callee_of(g, c);
    Edge { source: caller, target: t as usize, source_hash: g.entity(caller as int).hash, target_hash: g.entity(t).hash }
}

/// The call expressions strictly below `node`, in pre-order.
pub open spec fn calls_below(g: &EntityGraph, node: usize) -> Seq<usize> {
    preorder(g, g.keep_all(), node).drop_first().filter(|x: usize| g.kind_of(x as int) == EntityKind::CallExpr)
}

/// The edges of `node`: one per call expression below it, in pre-order.
pub open spec fn node_edges(g: &EntityGraph, node: usize) -> Seq<Edge> {
    calls_below(g, node).map_values(|c: usize| make_edge(g, node, c))
}

/// The callables among the held entities of `ast`, in the order they were met.
pub open spec fn callables_of(g: &EntityGraph, ast: AST) -> Seq<usize> {
    ast.held_among(ast.visited()).filter(|x: usize| is_callable(g.kind_of(x as int)))
}

/// The callable entities of a translation unit and the calls between them.
pub struct CallGraph {
    pub label: String,
    pub nodes: Vec<usize>,
    pub edges: Array<Edge>,
    pub source: EntityGraph,
}

impl CallGraph {
    pub open spec fn wf(&self) -> bool {
        &&& self.source.wf()
        &&& forall|i: int| 0 <= i < self.nodes@.len() ==> self.source.valid(#[trigger] self.nodes@[i] as int)
        &&& forall|i: int| 0 <= i < self.edges.members@.len() ==> self.source.valid(#[trigger] self.edges.members@[i].source as int)
    }

    /// An empty call graph over `graph`.
    pub fn new(label: String, graph: EntityGraph) -> (r: CallGraph)
        requires
            graph.wf(),
        ensures
            r.wf(),
            r.label@ == label@,
            r.nodes@ == Seq::<usize>::empty(),
            r.edges.members@ == Seq::<Edge>::empty(),
            r.edges.name == Key::Edges,
            r.source == graph,
    {
        CallGraph { label, nodes: Vec::new(), edges: Array::new(Key::Edges, Vec::new()), source: graph }
    }

    /// Makes the nodes the callable entities that `ast` holds, in traversal order.
    pub fn take_callable_from_ast(&mut self, ast: AST)
        requires
            old(self).wf(),
            ast.wf(),
            ast.span() == old(self).source.len(),
        ensures
            final(self).wf(),
            final(self).nodes@ == callables_of(&old(self).source, ast),
            final(self).label == old(self).label,
            final(self).edges == old(self).edges,
            final(self).source == old(self).source,
    {
        let held = ast.held_nodes();
        let mut result: Vec<usize> = Vec::new();
        let mut i: usize = 0;
        let ghost pred = |x: usize| is_callable(self.source.kind_of(x as int));
        while i < held.len()
            invariant
                self.wf(),
                ast.wf(),
                ast.span() == self.source.len(),
                held@ == ast.held_among(ast.visited()),
                i <= held@.len(),
                pred == (|x: usize| is_callable(self.source.kind_of(x as int))),
                result@ == held@.take(i as int).filter(pred),
                forall|j: int| 0 <= j < result@.len() ==> self.source.valid(#[trigger] result@[j] as int),
            decreases held@.len() - i,
        {
            let e = held[i];
            proof {
                reveal(Seq::filter);
                assert(held@[i as int] == e);
                assert(held@.contains(e));
                ast.visited().lemma_filter_contains_rev(|x: usize| ast.holds(x as int), e);
                assert(ast.holds(e as int));
                assert(held@.take(i as int + 1).drop_last() =~= held@.take(i as int));
            }
            if callable(self.source.entities[e].kind) {
                result.push(e);
            }
            i = i + 1;
        }
        assert(held@.take(i as int) =~= held@);
        self.nodes = result;
    }
}

impl CallGraph {
    /// The entity the call expression `call_expr` calls (see [`callee_of`]).
    pub fn get_callee(graph: &EntityGraph, call_expr: usize) -> (r: usize)
        requires
            graph.wf(),
            call_expr < graph.len(),
            graph.kind_of(call_expr as int) == EntityKind::CallExpr,
        ensures
            r < graph.len(),
            r as int == callee_of(graph, call_expr),
    {
        let raw: usize = match graph.entities[call_expr].reference {
            Some(callee) => callee,
            None => {
                // A call that names no callee itself, as a rethrown call inside `throw` does.
                let walk = AST::new(graph, call_expr);
                let ghost order = walk.visited();
                let mut found: Option<usize> = None;
                let mut i: usize = 0;
                assert(order.skip(0) =~= order);
                while i < walk.order.len() && found.is_none()
                    invariant
                        graph.wf(),
                        walk.wf(),
                        order == walk.order@,
                        order == preorder(graph, graph.keep_all(), call_expr),
                        forall|k: int| 0 <= k < order.len() ==> (#[trigger] order[k]) < graph.len(),
                        i <= order.len(),
                        found is None ==> first_reference(graph, order) == first_reference(graph, order.skip(i as int)),
                        found matches Some(t) ==> first_reference(graph, order) == Some(t) && t < graph.len(),
                    decreases order.len() - i,
                {
                    let n = walk.order[i];
                    proof {
                        assert(n < graph.len());
                        assert(graph.entities@[n as int] == graph.entity(n as int));
                        assert(order.skip(i as int)[0] == n);
                        assert(order.skip(i as int).drop_first() =~= order.skip(i as int + 1));
                    }
                    if graph.entities[n].kind == EntityKind::CallExpr {
                        if let Some(t) = graph.entities[n].reference {
                            found = Some(t);
                        }
                    }
                    i = i + 1;
                }
                match found {
                    Some(t) => t,
                    None => {
                        assert(order.skip(i as int).len() == 0);
                        call_expr
                    },
                }
            },
        };
        match graph.entities[raw].definition {
            Some(callee_definition) => callee_definition,
            None => raw,
        }
    }

    /// Adds an edge from `node` for each call expression below it, in pre-order.
    pub fn add_callees(&mut self, node: usize)
        requires
            old(self).wf(),
            node < old(self).source.len(),
        ensures
            final(self).wf(),
            final(self).label == old(self).label,
            final(self).nodes == old(self).nodes,
            final(self).source == old(self).source,
            final(self).edges.name == old(self).edges.name,
            final(self).edges.members@ == old(self).edges.members@ + node_edges(&old(self).source, node),
    {
        let walk = AST::new(&self.source, node);
        let ghost base = self.edges.members@;
        let ghost g = self.source;
        let ghost pred = |x: usize| g.kind_of(x as int) == EntityKind::CallExpr;
        let ghost edge = |c: usize| make_edge(&g, node, c);
        let mut i: usize = 1;
        while i < walk.order.len()
            invariant
                self.wf(),
                self.label == old(self).label,
                self.nodes == old(self).nodes,
                self.source == old(self).source,
                self.edges.name == old(self).edges.name,
                g == self.source,
                base == old(self).edges.members@,
                node < g.len(),
                walk.wf(),
                walk.visited() == preorder(&g, g.keep_all(), node),
                walk.visited().len() > 0,
                forall|k: int| 0 <= k < walk.visited().len() ==> (#[trigger] walk.visited()[k]) < g.len(),
                1 <= i <= walk.order@.len(),
                pred == (|x: usize| g.kind_of(x as int) == EntityKind::CallExpr),
                edge == (|c: usize| make_edge(&g, node, c)),
                self.edges.members@ == base + walk.order@.subrange(1, i as int).filter(pred).map_values(edge),
            decreases walk.order@.len() - i,
        {
            let x = walk.order[i];
            let ghost before = walk.order@.subrange(1, i as int).filter(pred);
            proof {
                reveal(Seq::filter);
                assert(walk.order@.subrange(1, i as int + 1).drop_last() =~= walk.order@.subrange(1, i as int));
                assert(walk.order@.subrange(1, i as int + 1).last() == x);
            }
            if self.source.entities[x].kind == EntityKind::CallExpr {
                let callee = CallGraph::get_callee(&self.source, x);
                let e = Edge::new(&self.source, node, callee);
                self.edges.push(e);
                proof {
                    assert(e == make_edge(&g, node, x));
                    assert(before.push(x).map_values(edge) =~= before.map_values(edge).push(e));
                }
            }
            i = i + 1;
            proof {
                assert(self.edges.members@ =~= base + walk.order@.subrange(1, i as int).filter(pred).map_values(edge));
            }
        }
        assert(walk.order@.subrange(1, i as int) =~= walk.visited().drop_first());
    }
}

pub(crate) proof fn lemma_filter_no_duplicates<A>(s: Seq<A>, pred: spec_fn(A) -> bool)
    requires
        s.no_duplicates(),
    ensures
        s.filter(pred).no_duplicates(),
    decreases s.len(),
{
    reveal(Seq::filter);
    if s.len() > 0 {
        let init = s.drop_last();
        assert(init.no_duplicates()) by {
            assert forall|a: int, b: int| 0 <= a < b < init.len() implies init[a] != init[b] by {
                assert(init[a] == s[a] && init[b] == s[b]);
            }
        }
        lemma_filter_no_duplicates(init, pred);
        if pred(s.last()) {
            assert(!init.contains(s.last())) by {
                if init.contains(s.last()) {
                    let j = choose|j: int| 0 <= j < init.len() && init[j] == s.last();
                    assert(s[j] == s[s.len() - 1]);
                }
            }
            assert forall|a: int, b: int| 0 <= a < b < s.filter(pred).len() implies s.filter(pred)[a] != s.filter(pred)[b] by {
                assert(s.filter(pred) == init.filter(pred).push(s.last()));
                if b == s.filter(pred).len() - 1 {
                    assert(s.filter(pred)[a] == init.filter(pred)[a]);
                    assert(init.filter(pred).contains(s.filter(pred)[a]));
                    init.lemma_filter_contains_rev(pred, s.filter(pred)[a]);
                } else {
                    assert(s.filter(pred)[a] == init.filter(pred)[a]);
                    assert(s.filter(pred)[b] == init.filter(pred)[b]);
                }
            }
        }
    }
}

/// The parts one after another, a comma between each two.
pub open spec fn comma_joined(parts: Seq<Seq<char>>) -> Seq<char>
    decreases parts.len(),
{
    if parts.len() == 0 {
        Seq::empty()
    } else {
        let head = comma_joined(parts.drop_last());
        (if parts.len() > 1 { head.push(',') } else { head }) + parts.last()
    }
}

/// An edge as an object of its two hashes.
pub open spec fn edge_text(e: Edge, p: nat) -> Seq<char> {
    bracket_text(p, Bracket::LCurly) + line_text(p + 2, key_name(Key::Source), decimal(e.source_hash as nat))
        + line_text(p + 2, key_name(Key::Target), decimal(e.target_hash as nat)) + bracket_text(p, Bracket::RCurly)
}

/// The first `n` edges of `s`, each as text at indentation `p`.
pub open spec fn edge_parts(s: Seq<Edge>, n: int, p: nat) -> Seq<Seq<char>> {
    Seq::new(n as nat, |i: int| edge_text(s[i], p))
}

/// A named array of edges.
pub open spec fn edges_text(name: Key, s: Seq<Edge>, p: nat) -> Seq<char> {
    key_bracket_text(p, key_name(name), Bracket::LBrace) + comma_joined(edge_parts(s, s.len() as int, p + 2))
        + bracket_text(p, Bracket::RBrace)
}

/// `n` copies of the brackets `b` one after another.
pub open spec fn repeated(b: Seq<(Bracket, nat)>, n: nat) -> Seq<(Bracket, nat)>
    decreases n,
{
    if n == 0 {
        Seq::empty()
    } else {
        repeated(b, (n - 1) as nat) + b
    }
}

/// The brackets of an edge.
pub open spec fn edge_shape(p: nat) -> Seq<(Bracket, nat)> {
    seq![(Bracket::LCurly, p), (Bracket::RCurly, p)]
}

/// The brackets of an array of `n` edges.
pub open spec fn edges_shape(n: nat, p: nat) -> Seq<(Bracket, nat)> {
    seq![(Bracket::LBrace, p)] + repeated(edge_shape(p + 2), n) + seq![(Bracket::RBrace, p)]
}

/// The brackets of a call-graph node.
pub open spec fn call_node_shape(p: nat) -> Seq<(Bracket, nat)> {
    seq![(Bracket::LCurly, p), (Bracket::LCurly, p + 2), (Bracket::RCurly, p + 2), (Bracket::RCurly, p)]
}

/// The brackets of the `nodes` object of `n` nodes.
pub open spec fn call_nodes_shape(n: nat, p: nat) -> Seq<(Bracket, nat)> {
    seq![(Bracket::LCurly, p)] + repeated(call_node_shape(p + 2), n) + seq![(Bracket::RCurly, p)]
}

/// The brackets of a call-graph document.
pub open spec fn call_graph_shape(c: CallGraph, p: nat) -> Seq<(Bracket, nat)> {
    seq![(Bracket::LCurly, p), (Bracket::LCurly, p + 2)] + call_nodes_shape(c.nodes@.len(), p + 4)
        + edges_shape(c.edges.members@.len(), p + 4) + seq![(Bracket::RCurly, p + 2), (Bracket::RCurly, p)]
}

impl Serialize for Edge {
    open spec fn text(&self, p: nat) -> Seq<char> {
        edge_text(*self, p)
    }

    open spec fn shape(&self, p: nat) -> Seq<(Bracket, nat)> {
        edge_shape(p)
    }

    open spec fn depth(&self) -> nat {
        2
    }

    open spec fn serializable(&self) -> bool {
        true
    }

    fn serialize(&self, json: JSONSerializer) -> (r: JSONSerializer) {
        let ghost o0 = json.out@;
        let ghost t0 = json.trace@;
        let mut json = json;
        let p = json.level_exec();
        json.render_bracket(Bracket::LCurly);
        json.prefix.expand();
        let source = to_decimal(self.source_hash);
        json.render_line(Key::Source.get_key(), source.as_str());
        let target = to_decimal(self.target_hash);
        json.render_line(Key::Target.get_key(), target.as_str());
        json.prefix.shrink();
        json.render_bracket(Bracket::RCurly);
        assert(json.out@ =~= o0 + edge_text(*self, p as nat));
        assert(json.trace@ =~= t0 + edge_shape(p as nat));
        json
    }
}

impl Serialize for Array<Edge> {
    open spec fn text(&self, p: nat) -> Seq<char> {
        edges_text(self.name, self.members@, p)
    }

    open spec fn shape(&self, p: nat) -> Seq<(Bracket, nat)> {
        edges_shape(self.members@.len(), p)
    }

    open spec fn depth(&self) -> nat {
        4
    }

    open spec fn serializable(&self) -> bool {
        true
    }

    fn serialize(&self, json: JSONSerializer) -> (r: JSONSerializer) {
        let ghost o0 = json.out@;
        let ghost t0 = json.trace@;
        let mut json = json;
        let p = json.level_exec();
        json.render_line_with_bracket(self.name.get_key(), Bracket::LBrace);
        json.prefix.expand();
        let ghost start = json.out@;
        let ghost tstart = json.trace@;
        let mut i: usize = 0;
        while i < self.members.len()
            invariant
                json.wf(),
                json.level() == p + 2,
                p + 4 <= usize::MAX,
                i <= self.members@.len(),
                json.out@ == start + comma_joined(edge_parts(self.members@, i as int, (p + 2) as nat)),
                json.trace@ == tstart + repeated(edge_shape((p + 2) as nat), i as nat),
            decreases self.members@.len() - i,
        {
            if i > 0 {
                json.render_comma();
            }
            json = self.members[i].serialize(json);
            proof {
                let q: nat = (p + 2) as nat;
                assert(edge_parts(self.members@, i + 1, q).drop_last() =~= edge_parts(self.members@, i as int, q));
            }
            i = i + 1;
            proof {
                assert(json.out@ =~= start + comma_joined(edge_parts(self.members@, i as int, (p + 2) as nat)));
                assert(json.trace@ =~= tstart + repeated(edge_shape((p + 2) as nat), i as nat));
            }
        }
        json.prefix.shrink();
        json.render_bracket(Bracket::RBrace);
        assert(json.out@ =~= o0 + edges_text(self.name, self.members@, p as nat));
        assert(json.trace@ =~= t0 + edges_shape(self.members@.len(), p as nat));
        json
    }
}

/// A call-graph node: the entity's label, and its usr, kind and location as metadata.
pub open spec fn call_node_text(g: &EntityGraph, e: int, p: nat) -> Seq<char> {
    let x = g.entity(e);
    key_bracket_text(p, decimal(x.hash as nat), Bracket::LCurly)
        + line_text(p + 2, key_name(Key::Label), x.display_name.name_text())
        + key_bracket_text(p + 2, key_name(Key::Metadata), Bracket::LCurly)
        + line_text(p + 4, key_name(Key::Usr), x.usr.name_text())
        + line_text(p + 4, key_name(Key::Kind), kind_name(x.kind))
        + line_text(p + 4, key_name(Key::Location), x.location.name_text())
        + bracket_text(p + 2, Bracket::RCurly) + bracket_text(p, Bracket::RCurly)
}

/// The first `n` nodes of `s`, each as text at indentation `p`.
pub open spec fn call_node_parts(g: &EntityGraph, s: Seq<usize>, n: int, p: nat) -> Seq<Seq<char>> {
    Seq::new(n as nat, |i: int| call_node_text(g, s[i] as int, p))
}

/// The `nodes` object at indentation `p`, followed by a separator.
pub open spec fn call_nodes_text(g: &EntityGraph, s: Seq<usize>, p: nat) -> Seq<char> {
    key_bracket_text(p, key_name(Key::Nodes), Bracket::LCurly) + comma_joined(call_node_parts(g, s, s.len() as int, p + 2))
        + bracket_text(p, Bracket::RCurly) + seq![',']
}

/// The call-graph document at indentation `p`.
pub open spec fn call_graph_text(c: CallGraph, p: nat) -> Seq<char> {
    graph_head(c, p) + call_nodes_text(&c.source, c.nodes@, p + 4) + edges_text(c.edges.name, c.edges.members@, p + 4)
        + object_tail(p)
}

/// The opening of the call-graph document: the outer object, the `graph` object, its
/// label and its type.
pub open spec fn graph_head(c: CallGraph, p: nat) -> Seq<char> {
    bracket_text(p, Bracket::LCurly) + key_bracket_text(p + 2, key_name(Key::Graph), Bracket::LCurly)
        + line_text(p + 4, key_name(Key::Label), c.label@)
        + line_text(p + 4, key_name(Key::Type), key_name(Key::CallGraph))
}

impl CallGraph {
    fn serialize_node(&self, node: usize, json: &mut JSONSerializer)
        requires
            self.wf(),
            node < self.source.len(),
            old(json).wf(),
            old(json).level() + 4 <= usize::MAX,
        ensures
            final(json).wf(),
            final(json).level() == old(json).level(),
            final(json).out@ == old(json).out@ + call_node_text(&self.source, node as int, old(json).level()),
            final(json).trace@ == old(json).trace@ + call_node_shape(old(json).level()),
    {
        let p = json.level_exec();
        let e = &self.source.entities[node];
        let key = to_decimal(e.hash);
        json.render_line_with_bracket(key.as_str(), Bracket::LCurly);
        json.prefix.expand();
        let label = e.display_name.get_name();
        json.render_line(Key::Label.get_key(), label.as_str());
        json.render_line_with_bracket(Key::Metadata.get_key(), Bracket::LCurly);
        json.prefix.expand();
        let usr = e.usr.get_name();
        json.render_line(Key::Usr.get_key(), usr.as_str());
        json.render_line(Key::Kind.get_key(), get_kind_label(e.kind));
        let location = e.location.get_name();
        json.render_line(Key::Location.get_key(), location.as_str());
        json.prefix.shrink();
        json.render_bracket(Bracket::RCurly);
        json.prefix.shrink();
        json.render_bracket(Bracket::RCurly);
        assert(json.out@ =~= old(json).out@ + call_node_text(&self.source, node as int, p as nat));
        assert(json.trace@ =~= old(json).trace@ + call_node_shape(p as nat));
    }

    fn serialize_nodes(&self, json: &mut JSONSerializer)
        requires
            self.wf(),
            old(json).wf(),
            old(json).level() + 6 <= usize::MAX,
        ensures
            final(json).wf(),
            final(json).level() == old(json).level(),
            final(json).out@ == old(json).out@ + call_nodes_text(&self.source, self.nodes@, old(json).level()),
            final(json).trace@ == old(json).trace@ + call_nodes_shape(self.nodes@.len(), old(json).level()),
    {
        let p = json.level_exec();
        json.render_line_with_bracket(Key::Nodes.get_key(), Bracket::LCurly);
        json.prefix.expand();
        let ghost start = json.out@;
        let ghost tstart = json.trace@;
        let mut i: usize = 0;
        while i < self.nodes.len()
            invariant
                self.wf(),
                json.wf(),
                json.level() == p + 2,
                p + 6 <= usize::MAX,
                i <= self.nodes@.len(),
                json.out@ == start + comma_joined(call_node_parts(&self.source, self.nodes@, i as int, (p + 2) as nat)),
                json.trace@ == tstart + repeated(call_node_shape((p + 2) as nat), i as nat),
            decreases self.nodes@.len() - i,
        {
            if i > 0 {
                json.render_comma();
            }
            self.serialize_node(self.nodes[i], json);
            proof {
                let q: nat = (p + 2) as nat;
                assert(call_node_parts(&self.source, self.nodes@, i + 1, q).drop_last()
                    =~= call_node_parts(&self.source, self.nodes@, i as int, q));
            }
            i = i + 1;
            proof {
                assert(json.out@ =~= start + comma_joined(call_node_parts(&self.source, self.nodes@, i as int, (p + 2) as nat)));
                assert(json.trace@ =~= tstart + repeated(call_node_shape((p + 2) as nat), i as nat));
            }
        }
        json.prefix.shrink();
        json.render_bracket(Bracket::RCurly);
        json.render_comma();
        assert(json.out@ =~= old(json).out@ + call_nodes_text(&self.source, self.nodes@, p as nat));
        assert(json.trace@ =~= old(json).trace@ + call_nodes_shape(self.nodes@.len(), p as nat));
    }
}

impl Serialize for CallGraph {
    open spec fn text(&self, p: nat) -> Seq<char> {
        call_graph_text(*self, p)
    }

    open spec fn shape(&self, p: nat) -> Seq<(Bracket, nat)> {
        call_graph_shape(*self, p)
    }

    open spec fn depth(&self) -> nat {
        10
    }

    /// A call graph made by [`CallGraph::new`] and grown by its methods is well formed.
    open spec fn serializable(&self) -> bool {
        self.wf()
    }

    fn serialize(&self, json: JSONSerializer) -> (r: JSONSerializer) {
        let ghost o0 = json.out@;
        let ghost t0 = json.trace@;
        let mut json = json;
        let p = json.level_exec();
        self.write_head(&mut json);
        let ghost o1 = json.out@;
        let ghost t1 = json.trace@;
        self.serialize_nodes(&mut json);
        json = self.edges.serialize(json);
        let ghost o3 = json.out@;
        let ghost t3 = json.trace@;
        write_tail(&mut json);
        proof {
            let q: nat = p as nat;
            assert(json.out@ =~= o0 + call_graph_text(*self, q));
            assert(json.trace@ =~= t0 + call_graph_shape(*self, q));
        }
        json
    }
}

impl CallGraph {
    fn write_head(&self, json: &mut JSONSerializer)
        requires
            old(json).wf(),
            old(json).level() + 4 <= usize::MAX,
        ensures
            final(json).wf(),
            final(json).level() == old(json).level() + 4,
            final(json).out@ == old(json).out@ + graph_head(*self, old(json).level()),
            final(json).trace@ == old(json).trace@ + seq![(Bracket::LCurly, old(json).level()), (Bracket::LCurly, old(json).level() + 2)],
    {
        json.render_bracket(Bracket::LCurly);
        json.prefix.expand();
        json.render_line_with_bracket(Key::Graph.get_key(), Bracket::LCurly);
        json.prefix.expand();
        json.render_line(Key::Label.get_key(), self.label.as_str());
        json.render_line(Key::Type.get_key(), Key::CallGraph.get_key());
        assert(json.out@ =~= old(json).out@ + graph_head(*self, old(json).level()));
        assert(json.trace@ =~= old(json).trace@ + seq![(Bracket::LCurly, old(json).level()), (Bracket::LCurly, old(json).level() + 2)]);
    }
}

proof fn lemma_forest_height_at_most(s: Seq<Node>, m: nat)
    requires
        forall|i: int| 0 <= i < s.len() ==> tree_height(#[trigger] s[i]) <= m,
    ensures
        forest_height(s) <= m,
    decreases s.len(),
{
    if s.len() > 0 {
        let init = s.subrange(0, s.len() - 1);
        assert forall|i: int| 0 <= i < init.len() implies tree_height(#[trigger] init[i]) <= m by {
            assert(init[i] == s[i]);
        }
        lemma_forest_height_at_most(init, m);
    }
}

impl Node {
    /// Whether the tree has at most `limit` levels.
    pub fn height_at_most(&self, limit: usize) -> (r: bool)
        ensures
            r == (tree_height(*self) <= limit),
        decreases *self, 1int,
    {
        if limit == 0 {
            return false;
        }
        Node::forest_height_at_most(&self.children, limit - 1)
    }

    fn forest_height_at_most(kids: &Vec<Node>, limit: usize) -> (r: bool)
        ensures
            r == (forest_height(kids@) <= limit),
        decreases kids@, 0int,
    {
        let mut i: usize = 0;
        while i < kids.len()
            invariant
                i <= kids@.len(),
                forall|j: int| 0 <= j < i ==> tree_height(#[trigger] kids@[j]) <= limit,
            decreases kids@.len() - i,
        {
            if !kids[i].height_at_most(limit) {
                proof {
                    lemma_forest_height_bounds(kids@, i as int);
                }
                return false;
            }
            i = i + 1;
        }
        proof {
            lemma_forest_height_at_most(kids@, limit as nat);
        }
        true
    }
}

/// A direct call resolves to the definition of what it refers to when the graph
/// records one, and otherwise to what it refers to.
pub proof fn lemma_direct_call_resolution(g: &EntityGraph, c: usize, f: usize)
    requires
        g.entity(c as int).reference == Some(f),
    ensures
        g.entity(f as int).definition matches Some(d) ==> callee_of(g, c) == d,
        g.entity(f as int).definition is None ==> callee_of(g, c) == f,
{
}

/// A call that refers to nothing resolves to what the first call expression below it
/// that refers to something refers to (its definition when there is one), not to itself.
pub proof fn lemma_nested_call_resolution(g: &EntityGraph, c: usize, t: usize)
    requires
        g.entity(c as int).reference is None,
        first_reference(g, preorder(g, g.keep_all(), c)) == Some(t),
    ensures
        callee_of(g, c) == prefer_definition(g, t as int),
{
}

/// A call with no reference, neither its own nor one below it, resolves to itself
/// (to its definition, should the graph record one).
pub proof fn lemma_unresolved_call_is_own_callee(g: &EntityGraph, c: usize)
    requires
        g.entity(c as int).reference is None,
        first_reference(g, preorder(g, g.keep_all(), c)) is None,
    ensures
        callee_of(g, c) == prefer_definition(g, c as int),
        g.entity(c as int).definition is None ==> callee_of(g, c) == c,
{
}

/// A node whose location is excluded writes nothing, and so nothing below it either.
pub proof fn lemma_excluded_node_is_not_written(g: &EntityGraph, n: Node, dirs: Seq<String>, system_headers: bool, serialize_children: bool, p: nat)
    requires
        node_matches(g, n, dirs, system_headers, serialize_children),
        excluded(n.location@, dirs),
    ensures
        node_text(n, p) == Seq::<char>::empty(),
{
}

proof fn lemma_occurs_left(sub: Seq<char>, a: Seq<char>, b: Seq<char>)
    requires
        occurs_in(sub, a),
    ensures
        occurs_in(sub, a + b),
{
    let i = choose|i: int| 0 <= i && i + sub.len() <= a.len() && #[trigger] a.subrange(i, i + sub.len()) == sub;
    assert((a + b).subrange(i, i + sub.len()) =~= a.subrange(i, i + sub.len()));
}

proof fn lemma_occurs_right(sub: Seq<char>, a: Seq<char>, b: Seq<char>)
    requires
        occurs_in(sub, b),
    ensures
        occurs_in(sub, a + b),
{
    let i = choose|i: int| 0 <= i && i + sub.len() <= b.len() && #[trigger] b.subrange(i, i + sub.len()) == sub;
    assert((a + b).subrange(a.len() + i, a.len() + i + sub.len()) =~= b.subrange(i, i + sub.len()));
}

proof fn lemma_occurs_self(s: Seq<char>)
    ensures
        occurs_in(s, s),
{
    assert(s.subrange(0int, 0int + s.len()) =~= s);
}

proof fn lemma_member_written(s: Seq<Node>, i: int, p: nat)
    requires
        0 <= i < s.len(),
    ensures
        occurs_in(node_text(s[i], p), members_text(s, p)),
    decreases s.len(),
{
    let init = s.subrange(0, s.len() - 1);
    let head = members_text(init, p);
    let head2 = if s.len() > 1 { head.push(',') } else { head };
    assert(members_text(s, p) == head2 + node_text(s[s.len() - 1], p));
    if i == s.len() - 1 {
        lemma_occurs_self(node_text(s[i], p));
        lemma_occurs_right(node_text(s[i], p), head2, node_text(s[i], p));
    } else {
        lemma_member_written(init, i, p);
        assert(init[i] == s[i]);
        assert(head.push(',') =~= head + seq![',']);
        lemma_occurs_left(node_text(s[i], p), head, seq![',']);
        lemma_occurs_left(node_text(s[i], p), head2, node_text(s[s.len() - 1], p));
    }
}

/// A written node that writes its children contains the text of each child, which is
/// itself written unless excluded: exclusion of one node hides nothing written elsewhere.
pub proof fn lemma_child_text_within_parent(n: Node, i: int, p: nat)
    requires
        n.serialize,
        n.serialize_children,
        0 <= i < n.children@.len(),
    ensures
        occurs_in(node_text(n.children@[i], p + 6), node_text(n, p)),
{
    let sub = node_text(n.children@[i], p + 6);
    lemma_member_written(n.children@, i, p + 6);
    let kb = key_bracket_text(p + 4, key_name(Key::Children), Bracket::LBrace);
    let m = members_text(n.children@, p + 6);
    let rb = bracket_text(p + 4, Bracket::RBrace);
    lemma_occurs_right(sub, kb, m);
    lemma_occurs_left(sub, kb + m, rb);
    assert(children_text(n.children@, p + 4) == kb + m + rb);
    let pre = node_head(n, p) + metadata_text(n, p + 4);
    lemma_occurs_right(sub, pre, children_text(n.children@, p + 4));
    lemma_occurs_left(sub, pre + children_text(n.children@, p + 4), object_tail(p));
}

/// The text a value writes depends on the value and the starting indentation alone:
/// two writers that start alike end alike.
pub proof fn lemma_serialize_deterministic<T: Serialize>(v: &T, a: JSONSerializer, b: JSONSerializer, ra: JSONSerializer, rb: JSONSerializer)
    requires
        a.out@ == b.out@,
        a.level() == b.level(),
        ra.out@ == a.out@ + v.text(a.level()),
        rb.out@ == b.out@ + v.text(b.level()),
    ensures
        ra.out@ == rb.out@,
{
}

proof fn lemma_empty_balanced(p: nat)
    ensures
        balanced(Seq::empty(), p),
{
}

proof fn lemma_repeated_balanced(b: Seq<(Bracket, nat)>, n: nat, p: nat)
    requires
        balanced(b, p),
    ensures
        balanced(repeated(b, n), p),
    decreases n,
{
    if n > 0 {
        lemma_repeated_balanced(b, (n - 1) as nat, p);
        lemma_balanced_concat(repeated(b, (n - 1) as nat), b, p);
    }
}

proof fn lemma_pair_balanced(open: Bracket, close: Bracket, p: nat)
    requires
        open == Bracket::LCurly && close == Bracket::RCurly,
    ensures
        balanced(seq![(open, p), (close, p)], p),
{
    lemma_balanced_wrap(open, close, Seq::empty(), p);
    assert(seq![(open, p)] + Seq::<(Bracket, nat)>::empty() + seq![(close, p)] =~= seq![(open, p), (close, p)]);
}

proof fn lemma_node_balanced(n: Node, p: nat)
    ensures
        balanced(node_shape(n, p), p),
    decreases n, 2int,
{
    if n.serialize {
        let c = if n.serialize_children { children_shape(n.children@, p + 4) } else { Seq::empty() };
        if n.serialize_children {
            lemma_children_balanced(n.children@, p + 4);
        }
        lemma_balanced_wrap(Bracket::LCurly, Bracket::RCurly, c, p + 2);
        let inner = seq![(Bracket::LCurly, p + 2)] + c + seq![(Bracket::RCurly, p + 2)];
        lemma_balanced_wrap(Bracket::LCurly, Bracket::RCurly, inner, p);
        assert(node_shape(n, p) =~= seq![(Bracket::LCurly, p)] + inner + seq![(Bracket::RCurly, p)]);
    }
}

proof fn lemma_children_balanced(s: Seq<Node>, p: nat)
    ensures
        balanced(children_shape(s, p), p),
    decreases s, 1int,
{
    lemma_members_balanced(s, p + 2);
    lemma_balanced_wrap(Bracket::LBrace, Bracket::RBrace, members_shape(s, p + 2), p);
}

proof fn lemma_members_balanced(s: Seq<Node>, p: nat)
    ensures
        balanced(members_shape(s, p), p),
    decreases s, 0int,
{
    if s.len() > 0 {
        lemma_members_balanced(s.subrange(0, s.len() - 1), p);
        lemma_node_balanced(s[s.len() - 1], p);
        lemma_balanced_concat(members_shape(s.subrange(0, s.len() - 1), p), node_shape(s[s.len() - 1], p), p);
    }
}

/// The brackets a node writes pair up: each opening bracket is closed by its match at
/// the same indentation, with one more unit of indentation per level of nesting; with
/// the writer's indentation restored afterwards, this holds for every tree.
pub proof fn lemma_node_brackets_balanced(n: Node, p: nat)
    ensures
        balanced(node_shape(n, p), p),
{
    lemma_node_balanced(n, p);
}

/// The brackets a call-graph document writes pair up in the same way.
pub proof fn lemma_call_graph_brackets_balanced(c: CallGraph, p: nat)
    ensures
        balanced(call_graph_shape(c, p), p),
{
    lemma_pair_balanced(Bracket::LCurly, Bracket::RCurly, p + 8);
    assert(call_node_shape(p + 6) =~= seq![(Bracket::LCurly, p + 6)] + seq![(Bracket::LCurly, p + 8), (Bracket::RCurly, p + 8)]
        + seq![(Bracket::RCurly, p + 6)]);
    lemma_balanced_wrap(Bracket::LCurly, Bracket::RCurly, seq![(Bracket::LCurly, p + 8), (Bracket::RCurly, p + 8)], p + 6);
    lemma_repeated_balanced(call_node_shape(p + 6), c.nodes@.len(), p + 6);
    lemma_balanced_wrap(Bracket::LCurly, Bracket::RCurly, repeated(call_node_shape(p + 6), c.nodes@.len()), p + 4);
    lemma_pair_balanced(Bracket::LCurly, Bracket::RCurly, p + 6);
    assert(edge_shape(p + 6) =~= seq![(Bracket::LCurly, p + 6), (Bracket::RCurly, p + 6)]);
    lemma_repeated_balanced(edge_shape(p + 6), c.edges.members@.len(), p + 6);
    lemma_balanced_wrap(Bracket::LBrace, Bracket::RBrace, repeated(edge_shape(p + 6), c.edges.members@.len()), p + 4);
    let nodes = call_nodes_shape(c.nodes@.len(), p + 4);
    let edges = edges_shape(c.edges.members@.len(), p + 4);
    lemma_balanced_concat(nodes, edges, p + 4);
    lemma_balanced_wrap(Bracket::LCurly, Bracket::RCurly, nodes + edges, p + 2);
    let inner = seq![(Bracket::LCurly, p + 2)] + (nodes + edges) + seq![(Bracket::RCurly, p + 2)];
    lemma_balanced_wrap(Bracket::LCurly, Bracket::RCurly, inner, p);
    assert(call_graph_shape(c, p) =~= seq![(Bracket::LCurly, p)] + inner + seq![(Bracket::RCurly, p)]);
}

} // verus!
