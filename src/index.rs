use vstd::prelude::*;
use crate::entity::EntityGraph;
use crate::get_name::Name;
use crate::graph::AST;

verus! {

/// The texts of the strings of `v`.
pub open spec fn texts(v: Seq<String>) -> Seq<Seq<char>> {
    v.map_values(|s: String| s@)
}

/// Adds `item` to `set` unless an equal text is already there.
fn insert_unique(set: &mut Vec<String>, item: String)
    ensures
        texts(final(set)@).to_set() == texts(old(set)@).to_set().insert(item@),
        texts(old(set)@).no_duplicates() ==> texts(final(set)@).no_duplicates(),
{
    let ghost before = texts(set@);
    let mut i: usize = 0;
    while i < set.len()
        invariant
            texts(set@) == before,
            i <= set@.len(),
            forall|j: int| 0 <= j < i ==> set@[j]@ != item@,
        decreases set@.len() - i,
    {
        if set[i] == item {
            assert(before[i as int] == item@);
            assert(before.to_set() =~= before.to_set().insert(item@));
            return;
        }
        i = i + 1;
    }
    set.push(item);
    assert(texts(set@) =~= before.push(item@));
    proof {
        assert forall|j: int| 0 <= j < before.len() implies before[j] != item@ by {
            assert(set@[j]@ != item@);
        }
        assert(before.push(item@).to_set() =~= before.to_set().insert(item@)) by {
            assert forall|x: Seq<char>| before.push(item@).to_set().contains(x) <==> before.to_set().insert(item@).contains(x) by {
                if before.push(item@).contains(x) {
                    let j = choose|j: int| 0 <= j < before.len() + 1 && before.push(item@)[j] == x;
                    if j < before.len() {
                        assert(before[j] == x);
                    }
                }
                if before.contains(x) {
                    let j = choose|j: int| 0 <= j < before.len() && before[j] == x;
                    assert(before.push(item@)[j] == x);
                }
                if x == item@ {
                    assert(before.push(item@)[before.len() as int] == x);
                }
            }
        }
        if before.no_duplicates() {
            assert forall|a: int, b: int| 0 <= a < b < before.len() + 1 implies before.push(item@)[a] != before.push(item@)[b] by {
                if b < before.len() {
                    assert(before.push(item@)[a] == before[a] && before.push(item@)[b] == before[b]);
                }
            }
        }
    }
}

/// The USR texts of the entities reachable from `parent`, `parent` included, each once;
/// an entity without a USR gives the empty text.
pub fn collect_entities(graph: &EntityGraph, parent: usize) -> (r: Vec<String>)
    requires
        graph.wf(),
        parent < graph.len(),
    ensures
        texts(r@).no_duplicates(),
        forall|t: Seq<char>| #[trigger] texts(r@).contains(t) <==> exists|e: int|
            0 <= e < graph.len() && graph.reaches(graph.keep_all(), parent as int, e)
                && #[trigger] graph.entity(e).usr.name_text() == t,
{
    let walk = AST::new(graph, parent);
    let order = walk.visited_nodes();
    let mut entities: Vec<String> = Vec::new();
    let mut i: usize = 0;
    while i < order.len()
        invariant
            graph.wf(),
            order@ == walk.visited(),
            forall|k: int| 0 <= k < order@.len() ==> (#[trigger] order@[k]) < graph.len(),
            i <= order@.len(),
            texts(entities@).no_duplicates(),
            forall|t: Seq<char>| #[trigger] texts(entities@).to_set().contains(t) <==> exists|j: int|
                0 <= j < i && #[trigger] graph.entity(order@[j] as int).usr.name_text() == t,
        decreases order@.len() - i,
    {
        let e = order[i];
        let usr = graph.entities[e].usr.get_name();
        let ghost before = texts(entities@).to_set();
        insert_unique(&mut entities, usr);
        proof {
            assert forall|t: Seq<char>| #[trigger] texts(entities@).to_set().contains(t) <==> exists|j: int|
                0 <= j < i + 1 && #[trigger] graph.entity(order@[j] as int).usr.name_text() == t by {
                if t == usr@ {
                    assert(graph.entity(order@[i as int] as int).usr.name_text() == t);
                }
                if exists|j: int| 0 <= j < i + 1 && #[trigger] graph.entity(order@[j] as int).usr.name_text() == t {
                    let j = choose|j: int| 0 <= j < i + 1 && #[trigger] graph.entity(order@[j] as int).usr.name_text() == t;
                    if j < i {
                        assert(before.contains(t));
                    }
                }
            }
        }
        i = i + 1;
    }
    proof {
        let v = texts(entities@);
        assert forall|t: Seq<char>| #[trigger] v.contains(t) <==> exists|e: int|
            0 <= e < graph.len() && graph.reaches(graph.keep_all(), parent as int, e)
                && #[trigger] graph.entity(e).usr.name_text() == t by {
            assert(v.contains(t) == v.to_set().contains(t));
            if v.contains(t) {
                let j = choose|j: int| 0 <= j < i && #[trigger] graph.entity(order@[j] as int).usr.name_text() == t;
                let e = order@[j] as int;
                assert(walk.visited().contains(order@[j]));
                assert(walk.holds(e));
                assert(graph.reaches(graph.keep_all(), parent as int, e));
            }
            if exists|e: int| 0 <= e < graph.len() && graph.reaches(graph.keep_all(), parent as int, e)
                && #[trigger] graph.entity(e).usr.name_text() == t {
                let e = choose|e: int| 0 <= e < graph.len() && graph.reaches(graph.keep_all(), parent as int, e)
                    && #[trigger] graph.entity(e).usr.name_text() == t;
                assert(walk.holds(e));
                assert(walk.visited().contains(e as usize));
                let j = choose|j: int| 0 <= j < order@.len() && order@[j] == e as usize;
                assert(graph.entity(order@[j] as int).usr.name_text() == t);
            }
        }
    }
    entities
}

} // verus!
