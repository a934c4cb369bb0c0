//! A canonical index that durably retains every inserted axiom.
//!
//! A composite needs at least one such index, or inserted axioms become
//! unrecoverable: the composite itself keeps no side copy.

use std::rc::Rc;

use vstd::prelude::*;

use crate::model::{AnnotatedAxiom, AxiomV};
use crate::ontology::indexed::{
    insert_would_change, remove_would_change, ForIndex, OntologyIndex,
};

verus! {

/// An index holding every axiom handle ever inserted into it, each at most
/// once, in insertion order.
#[derive(Clone, Debug, PartialEq, Eq)]
pub struct SetIndex<AA: ForIndex> {
    elems: Vec<AA>,
}

impl<AA: ForIndex> SetIndex<AA> {
    /// The axioms of the stored handles, in storage order.
    pub closed spec fn views(&self) -> Seq<AxiomV> {
        self.elems@.map_values(|h: AA| h.axiom_view())
    }

    /// An empty index.
    pub fn new() -> (r: Self)
        ensures
            r.wf(),
            r.contents() == seq![Set::<AxiomV>::empty()],
            forall|s: int, a: AxiomV| #[trigger] r.tracks()(s, a),
    {
        let r = SetIndex { elems: Vec::new() };
        proof {
            assert(r.views() =~= Seq::<AxiomV>::empty());
            assert(r.views().to_set() =~= Set::<AxiomV>::empty());
            assert(r.contents() =~= seq![Set::<AxiomV>::empty()]);
        }
        r
    }

    /// A `SetIndex` has exactly one content slot, whatever it holds: used as
    /// a slot of a composite, it contributes exactly one entry to the
    /// composite's concatenated contents, so the concatenation can be split
    /// back between the composite's parts.
    pub proof fn lemma_single_slot(&self)
        ensures
            self.contents().len() == 1,
    {
    }

    /// How many distinct axioms the index holds.
    pub fn len(&self) -> (r: usize)
        requires
            self.wf(),
        ensures
            r == self.contents()[0].len(),
    {
        proof {
            self.views().unique_seq_to_set();
        }
        self.elems.len()
    }

    /// Whether the index holds the given axiom.
    pub fn contains(&self, ax: &AnnotatedAxiom) -> (r: bool)
        ensures
            r == self.contents()[0].contains(ax@),
    {
        match self.position_of(ax) {
            Some(p) => {
                proof {
                    assert(self.views().contains(ax@)) by {
                        assert(self.views()[p as int] == ax@);
                    }
                }
                true
            },
            None => {
                proof {
                    assert(!self.views().contains(ax@));
                }
                false
            },
        }
    }

    /// The storage position of the handle standing for the given axiom.
    fn position_of(&self, ax: &AnnotatedAxiom) -> (r: Option<usize>)
        ensures
            match r {
                Some(p) => p < self.views().len() && self.views()[p as int] == ax@,
                None => forall|q: int| 0 <= q < self.views().len() ==> self.views()[q] != ax@,
            },
    {
        let mut p: usize = 0;
        while p < self.elems.len()
            invariant
                p <= self.elems@.len(),
                forall|q: int| 0 <= q < p ==> self.views()[q] != ax@,
            decreases self.elems@.len() - p,
        {
            if self.elems[p].eq_axiom(ax) {
                return Some(p);
            }
            p += 1;
        }
        None
    }
}

impl SetIndex<Rc<AnnotatedAxiom>> {
    /// An empty index over `Rc`-shared handles, for use within one thread.
    pub fn new_rc() -> (r: Self)
        ensures
            r.wf(),
            r.contents() == seq![Set::<AxiomV>::empty()],
            forall|s: int, a: AxiomV| #[trigger] r.tracks()(s, a),
    {
        Self::new()
    }
}

impl<AA: ForIndex> OntologyIndex<AA> for SetIndex<AA> {
    /// One slot: the set of axioms of the stored handles.
    closed spec fn contents(&self) -> Seq<Set<AxiomV>> {
        seq![self.views().to_set()]
    }

    /// A durable, complete index: it retains every axiom handed to it.
    closed spec fn tracks(&self) -> spec_fn(int, AxiomV) -> bool {
        |s: int, a: AxiomV| true
    }

    /// No two stored handles stand for the same axiom.
    closed spec fn wf(&self) -> bool {
        self.views().no_duplicates()
    }

    fn index_insert(&mut self, ax: AA) -> (r: bool) {
        let ghost axv = ax.axiom_view();
        let a = ax.unwrap();
        match self.position_of(&a) {
            Some(p) => {
                proof {
                    assert(self.contents()[0].contains(axv)) by {
                        assert(self.views()[p as int] == axv);
                        assert(self.views().contains(axv));
                    }
                    assert(self.contents()[0].insert(axv) =~= self.contents()[0]);
                    assert(!(exists|s: int|
                        insert_would_change(self.contents(), self.tracks(), s, axv)));
                }
                false
            },
            None => {
                self.elems.push(ax);
                proof {
                    let pre = *old(self);
                    let post = *self;
                    assert(post.views() =~= pre.views().push(axv));
                    assert forall|i: int, j: int|
                        0 <= i < post.views().len() && 0 <= j < post.views().len() && i != j
                        implies post.views()[i] != post.views()[j] by {
                        if i < pre.views().len() && j < pre.views().len() {
                            assert(pre.views()[i] != pre.views()[j]);
                        }
                    };
                    assert(post.views().to_set() =~= pre.views().to_set().insert(axv)) by {
                        assert forall|b: AxiomV| post.views().contains(b) implies pre.views(
                        ).to_set().insert(axv).contains(b) by {
                            let q = choose|q: int|
                                0 <= q < post.views().len() && post.views()[q] == b;
                            if q < pre.views().len() {
                                assert(pre.views().contains(b));
                            }
                        };
                        assert forall|b: AxiomV|
                            pre.views().to_set().insert(axv).contains(b) implies post.views(
                        ).contains(b) by {
                            if b == axv {
                                assert(post.views()[pre.views().len() as int] == b);
                            } else {
                                let q = choose|q: int|
                                    0 <= q < pre.views().len() && pre.views()[q] == b;
                                assert(post.views()[q] == b);
                            }
                        };
                    }
                    assert(!pre.views().contains(axv));
                    assert(!pre.contents()[0].contains(axv));
                    assert(insert_would_change(pre.contents(), pre.tracks(), 0, axv));
                }
                true
            },
        }
    }

    fn index_remove(&mut self, ax: &AnnotatedAxiom) -> (r: bool) {
        let ghost axv = ax@;
        match self.position_of(ax) {
            Some(p) => {
                self.elems.remove(p);
                proof {
                    let pre = *old(self);
                    let post = *self;
                    let pi = p as int;
                    assert(post.views() =~= pre.views().remove(pi));
                    assert forall|i: int, j: int|
                        0 <= i < post.views().len() && 0 <= j < post.views().len() && i != j
                        implies post.views()[i] != post.views()[j] by {
                        let oi: int = if i < pi { i } else { i + 1 };
                        let oj: int = if j < pi { j } else { j + 1 };
                        assert(pre.views()[oi] != pre.views()[oj]);
                    };
                    assert(post.views().to_set() =~= pre.views().to_set().remove(axv)) by {
                        assert forall|b: AxiomV| post.views().contains(b) implies pre.views(
                        ).to_set().remove(axv).contains(b) by {
                            let q = choose|q: int|
                                0 <= q < post.views().len() && post.views()[q] == b;
                            let oq: int = if q < pi { q } else { q + 1 };
                            assert(pre.views()[oq] == b);
                            assert(pre.views().contains(b));
                            assert(oq != pi);
                            assert(b != axv) by {
                                assert(pre.views()[pi] == axv);
                                assert(pre.views()[oq] != pre.views()[pi]);
                            }
                        };
                        assert forall|b: AxiomV|
                            pre.views().to_set().remove(axv).contains(b) implies post.views(
                        ).contains(b) by {
                            let q = choose|q: int|
                                0 <= q < pre.views().len() && pre.views()[q] == b;
                            assert(q != pi);
                            if q < pi {
                                assert(post.views()[q] == b);
                            } else {
                                assert(post.views()[q - 1] == b);
                            }
                        };
                    }
                    assert(pre.views().contains(axv)) by {
                        assert(pre.views()[pi] == axv);
                    }
                    assert(remove_would_change(pre.contents(), 0, axv));
                }
                true
            },
            None => {
                proof {
                    assert(!self.views().contains(axv));
                    assert(self.contents()[0].remove(axv) =~= self.contents()[0]);
                    assert(!(exists|s: int| remove_would_change(self.contents(), s, axv)));
                }
                false
            },
        }
    }
}

} // verus!
