use vstd::prelude::*;
use crate::kind::EntityKind;

verus! {

/// Where an entity was written: the presumed file, line and column.
pub struct SourceLocation {
    pub file: String,
    pub line: u32,
    pub column: u32,
}

/// One entity of a translation unit, as the front end describes it.
///
/// Other entities are named by their index in the owning [`EntityGraph`]; that
/// index is the entity's identity. `hash` is the front end's identity hash, used
/// only as the key written to the output.
pub struct Entity {
    pub kind: EntityKind,
    pub name: Option<String>,
    pub display_name: Option<String>,
    pub type_display: Option<String>,
    pub usr: Option<String>,
    pub location: Option<SourceLocation>,
    pub children: Vec<usize>,
    pub reference: Option<usize>,
    pub definition: Option<usize>,
    pub in_system_header: bool,
    pub hash: u64,
}

/// All entities of one translation unit, addressed by index.
pub struct EntityGraph {
    pub entities: Vec<Entity>,
}

impl EntityGraph {
    pub open spec fn len(&self) -> int {
        self.entities@.len() as int
    }

    pub open spec fn valid(&self, e: int) -> bool {
        0 <= e < self.len()
    }

    pub open spec fn entity(&self, e: int) -> Entity {
        self.entities@[e]
    }

    pub open spec fn kind_of(&self, e: int) -> EntityKind {
        self.entities@[e].kind
    }

    pub open spec fn children_of(&self, e: int) -> Seq<usize> {
        self.entities@[e].children@
    }

    /// `c` is one of the children of `p`.
    pub open spec fn is_child(&self, p: int, c: int) -> bool {
        self.children_of(p).contains(c as usize)
    }

    /// Every index stored in an entity names an entity of the graph.
    pub open spec fn wf(&self) -> bool {
        &&& self.len() <= usize::MAX
        &&& forall|e: int|
            #![trigger self.entities@[e]]
            0 <= e < self.len() ==> {
                &&& forall|j: int|
                    0 <= j < self.children_of(e).len() ==> (#[trigger] self.children_of(e)[j]) < self.len()
                &&& (self.entities@[e].reference matches Some(r) ==> r < self.len())
                &&& (self.entities@[e].definition matches Some(d) ==> d < self.len())
            }
    }

    /// `w` is a walk along the children relation that only leaves entities marked in `keep`.
    pub open spec fn is_walk(&self, keep: Seq<bool>, w: Seq<int>) -> bool {
        &&& w.len() > 0
        &&& forall|k: int| 0 <= k < w.len() ==> self.valid(#[trigger] w[k])
        &&& forall|k: int|
            0 <= k < w.len() - 1 ==> keep[#[trigger] w[k]] && self.is_child(w[k], w[k + 1])
    }

    /// `to` is reached from `from` by a walk that expands only entities marked in `keep`.
    pub open spec fn reaches(&self, keep: Seq<bool>, from: int, to: int) -> bool {
        exists|w: Seq<int>| #[trigger] self.is_walk(keep, w) && w[0] == from && w.last() == to
    }

    /// Every entity is expanded.
    pub open spec fn keep_all(&self) -> Seq<bool> {
        Seq::new(self.len() as nat, |i: int| true)
    }

    /// Whether every stored index names an entity of the graph.
    pub fn is_well_formed(&self) -> (r: bool)
        ensures
            r == self.wf(),
    {
        let n = self.entities.len();
        assert(self.len() <= usize::MAX);
        let mut e: usize = 0;
        while e < n
            invariant
                n == self.len(),
                e <= n,
                forall|x: int|
                    #![trigger self.entities@[x]]
                    0 <= x < e ==> {
                        &&& forall|j: int|
                            0 <= j < self.children_of(x).len() ==> (#[trigger] self.children_of(x)[j]) < self.len()
                        &&& (self.entities@[x].reference matches Some(r) ==> r < self.len())
                        &&& (self.entities@[x].definition matches Some(d) ==> d < self.len())
                    },
            decreases n - e,
        {
            let ent = &self.entities[e];
            let mut j: usize = 0;
            while j < ent.children.len()
                invariant
                    n == self.len(),
                    e < n,
                    *ent == self.entities@[e as int],
                    j <= ent.children@.len(),
                    forall|k: int| 0 <= k < j ==> (#[trigger] self.children_of(e as int)[k]) < self.len(),
                decreases ent.children@.len() - j,
            {
                if ent.children[j] >= n {
                    assert(!self.wf()) by {
                        assert(self.entities@[e as int] == *ent);
                        assert(self.children_of(e as int)[j as int] >= self.len());
                    }
                    return false;
                }
                j = j + 1;
            }
            match ent.reference {
                Some(r) => {
                    if r >= n {
                        assert(self.entities@[e as int] == *ent);
                        return false;
                    }
                },
                None => {},
            }
            match ent.definition {
                Some(d) => {
                    if d >= n {
                        assert(self.entities@[e as int] == *ent);
                        return false;
                    }
                },
                None => {},
            }
            assert(self.entities@[e as int] == *ent);
            e = e + 1;
        }
        true
    }

    pub fn size(&self) -> (r: usize)
        ensures
            r == self.len(),
    {
        self.entities.len()
    }
}

} // verus!
