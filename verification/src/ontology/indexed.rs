//! The index contract and the composite containers.
//!
//! An indexed ontology stores its annotated axioms in one or more
//! [`OntologyIndex`] structures.  The axiom values are shared between the
//! indexes through a handle type satisfying [`ForIndex`], so that every index
//! sees the same allocation rather than an independent copy.  The composite
//! containers (`OneIndexedOntology` up to `FourIndexedOntology`) forward every
//! insertion and removal to all of their slots, in slot order and without
//! short-circuiting, and report whether any slot changed.

use std::marker::PhantomData;
use std::rc::Rc;
use std::sync::Arc;

use vstd::prelude::*;

use crate::model::{AnnotatedAxiom, AxiomV, IRI, OntologyID};

verus! {

/// The capability contract of an axiom handle: a cheap-to-copy value that is
/// interchangeable with the annotated axiom it stands for.
pub trait ForIndex: Clone + core::fmt::Debug + Eq + core::hash::Hash + Ord + Sized {
    /// The logical axiom this handle stands for.
    spec fn axiom_view(&self) -> AxiomV;

    /// Lossless conversion from the canonical axiom value.
    fn from_axiom(ax: AnnotatedAxiom) -> (r: Self)
        ensures
            r.axiom_view() == ax@,
    ;

    /// A copy of the handle, sharing the same underlying axiom.
    fn dup(&self) -> (r: Self)
        ensures
            r.axiom_view() == self.axiom_view(),
    ;

    /// A read-only projection back to the canonical axiom value.
    fn unwrap(&self) -> (r: AnnotatedAxiom)
        ensures
            r@ == self.axiom_view(),
    ;

    /// Whether this handle stands for the given axiom.
    fn eq_axiom(&self, ax: &AnnotatedAxiom) -> (r: bool)
        ensures
            r == (self.axiom_view() == ax@),
    ;
}

/// Relies on `Rc::clone`: the returned handle points to the same allocation,
/// so it carries the same value as the argument.
#[verifier::external_body]
fn rc_dup(h: &Rc<AnnotatedAxiom>) -> (r: Rc<AnnotatedAxiom>)
    ensures
        r == *h,
{
    Rc::clone(h)
}

/// Relies on `Arc::clone`: the returned handle points to the same allocation,
/// so it carries the same value as the argument.
#[verifier::external_body]
fn arc_dup(h: &Arc<AnnotatedAxiom>) -> (r: Arc<AnnotatedAxiom>)
    ensures
        r == *h,
{
    Arc::clone(h)
}

impl ForIndex for Rc<AnnotatedAxiom> {
    open spec fn axiom_view(&self) -> AxiomV {
        (**self)@
    }

    fn from_axiom(ax: AnnotatedAxiom) -> (r: Self) {
        Rc::new(ax)
    }

    fn dup(&self) -> (r: Self) {
        rc_dup(self)
    }

    fn unwrap(&self) -> (r: AnnotatedAxiom) {
        (**self).clone()
    }

    fn eq_axiom(&self, ax: &AnnotatedAxiom) -> (r: bool) {
        **self == *ax
    }
}

impl ForIndex for Arc<AnnotatedAxiom> {
    open spec fn axiom_view(&self) -> AxiomV {
        (**self)@
    }

    fn from_axiom(ax: AnnotatedAxiom) -> (r: Self) {
        Arc::new(ax)
    }

    fn dup(&self) -> (r: Self) {
        arc_dup(self)
    }

    fn unwrap(&self) -> (r: AnnotatedAxiom) {
        (**self).clone()
    }

    fn eq_axiom(&self, ax: &AnnotatedAxiom) -> (r: bool) {
        **self == *ax
    }
}

/// Slot `s` of the contents `pre` would change if the axiom `ax` were
/// inserted: the slot retains axioms handed to it (`tracks`) and does not
/// hold this one yet.
pub open spec fn insert_would_change(
    pre: Seq<Set<AxiomV>>,
    tracks: spec_fn(int, AxiomV) -> bool,
    s: int,
    ax: AxiomV,
) -> bool {
    &&& 0 <= s < pre.len()
    &&& tracks(s, ax)
    &&& !pre[s].contains(ax)
}

/// Slot `s` of the contents `pre` would change if the axiom `ax` were
/// removed: the slot currently holds it.
pub open spec fn remove_would_change(pre: Seq<Set<AxiomV>>, s: int, ax: AxiomV) -> bool {
    &&& 0 <= s < pre.len()
    &&& pre[s].contains(ax)
}

/// How one insertion steps the slot contents of an index from `pre` to
/// `post`, where `tracks` says which slots retain which axioms: every slot
/// that tracks the axiom now holds it, no other slot changes, no slot is
/// skipped, and the result reports whether at least one slot changed.
pub open spec fn insert_step(
    pre: Seq<Set<AxiomV>>,
    tracks: spec_fn(int, AxiomV) -> bool,
    post: Seq<Set<AxiomV>>,
    ax: AxiomV,
    r: bool,
) -> bool {
    &&& post.len() == pre.len()
    &&& (forall|s: int|
        0 <= s < pre.len() ==> post[s] == (if tracks(s, ax) {
            pre[s].insert(ax)
        } else {
            pre[s]
        }))
    &&& r == (exists|s: int| insert_would_change(pre, tracks, s, ax))
}

/// How one removal steps the slot contents of an index from `pre` to `post`:
/// the axiom leaves every slot, and the result reports whether at least one
/// slot held it.
pub open spec fn remove_step(
    pre: Seq<Set<AxiomV>>,
    post: Seq<Set<AxiomV>>,
    ax: AxiomV,
    r: bool,
) -> bool {
    &&& post.len() == pre.len()
    &&& (forall|s: int| 0 <= s < pre.len() ==> post[s] == pre[s].remove(ax))
    &&& r == (exists|s: int| remove_would_change(pre, s, ax))
}

/// An `OntologyIndex` stores the axiom handles of an indexed ontology as they
/// are added to it or removed from it.  An index is free to retain only the
/// axioms it is responsible for; `tracks` says which those are, and
/// `contents` gives the logical content of each of its slots (a plain index
/// has one slot; a composite used as an index contributes the slots of all of
/// its parts, in order).
pub trait OntologyIndex<AA: ForIndex>: Sized {
    /// The logical content of each slot, in slot order.
    spec fn contents(&self) -> Seq<Set<AxiomV>>;

    /// Which axioms each slot retains when told of them: a predicate over a
    /// slot position and an axiom.
    spec fn tracks(&self) -> spec_fn(int, AxiomV) -> bool;

    /// Well-formedness of the index's own representation.
    spec fn wf(&self) -> bool;

    /// Incorporate an axiom handle.  Returns true iff at least one slot did
    /// not already hold the axiom and retains it now.
    fn index_insert(&mut self, ax: AA) -> (r: bool)
        requires
            old(self).wf(),
        ensures
            final(self).wf(),
            insert_step(
                old(self).contents(),
                old(self).tracks(),
                final(self).contents(),
                ax.axiom_view(),
                r,
            ),
            forall|s: int, a: AxiomV|
                #[trigger] final(self).tracks()(s, a) == old(self).tracks()(s, a),
    ;

    /// Untrack an axiom.  Returns true iff at least one slot held it.
    fn index_remove(&mut self, ax: &AnnotatedAxiom) -> (r: bool)
        requires
            old(self).wf(),
        ensures
            final(self).wf(),
            remove_step(old(self).contents(), final(self).contents(), ax@, r),
            forall|s: int, a: AxiomV|
                #[trigger] final(self).tracks()(s, a) == old(self).tracks()(s, a),
    ;

    /// Untrack an axiom and, when something was removed, hand back its value.
    fn index_take(&mut self, ax: &AnnotatedAxiom) -> (r: Option<AnnotatedAxiom>)
        requires
            old(self).wf(),
        ensures
            final(self).wf(),
            remove_step(old(self).contents(), final(self).contents(), ax@, r is Some),
            forall|s: int, a: AxiomV|
                #[trigger] final(self).tracks()(s, a) == old(self).tracks()(s, a),
            r matches Some(a) ==> a@ == ax@,
    {
        if self.index_remove(ax) {
            Some(ax.clone())
        } else {
            None
        }
    }
}

/// An index that does nothing: it has one slot which tracks no axiom, so
/// every operation leaves it unchanged and reports false.
pub struct NullIndex();

impl Default for NullIndex {
    fn default() -> (r: Self) {
        NullIndex()
    }
}

impl<AA: ForIndex> OntologyIndex<AA> for NullIndex {
    open spec fn contents(&self) -> Seq<Set<AxiomV>> {
        seq![Set::empty()]
    }

    open spec fn tracks(&self) -> spec_fn(int, AxiomV) -> bool {
        |s: int, a: AxiomV| false
    }

    open spec fn wf(&self) -> bool {
        true
    }

    /// Insert an item, always returns false.
    fn index_insert(&mut self, _ax: AA) -> (r: bool) {
        false
    }

    /// Remove an item, always returns false.
    fn index_remove(&mut self, _ax: &AnnotatedAxiom) -> (r: bool) {
        proof {
            assert(Set::<AxiomV>::empty().remove(_ax@) =~= Set::<AxiomV>::empty());
        }
        false
    }
}

/// An index that retains nothing but counts how often each mutation is
/// forwarded to it: a test double showing that a composite invokes every
/// slot exactly once per operation, whatever its siblings report.
pub struct CountingIndex<AA: ForIndex> {
    /// How many insertions this index has been told of.
    pub inserts: u64,
    /// How many removals this index has been told of.
    pub removes: u64,
    /// The handle type this index is composed with.
    pub handles: PhantomData<AA>,
}

impl<AA: ForIndex> Default for CountingIndex<AA> {
    /// A counting index that has seen nothing yet.
    fn default() -> (r: Self)
        ensures
            r.inserts == 0,
            r.removes == 0,
    {
        CountingIndex { inserts: 0, removes: 0, handles: PhantomData }
    }
}

impl<AA: ForIndex> OntologyIndex<AA> for CountingIndex<AA> {
    open spec fn contents(&self) -> Seq<Set<AxiomV>> {
        seq![Set::empty()]
    }

    open spec fn tracks(&self) -> spec_fn(int, AxiomV) -> bool {
        |s: int, a: AxiomV| false
    }

    open spec fn wf(&self) -> bool {
        true
    }

    /// Count the call and return false, like the null index.
    fn index_insert(&mut self, _ax: AA) -> (r: bool)
        ensures
            final(self).inserts == old(self).inserts.wrapping_add(1),
            final(self).removes == old(self).removes,
    {
        self.inserts = self.inserts.wrapping_add(1);
        false
    }

    /// Count the call and return false, like the null index.
    fn index_remove(&mut self, _ax: &AnnotatedAxiom) -> (r: bool)
        ensures
            final(self).removes == old(self).removes.wrapping_add(1),
            final(self).inserts == old(self).inserts,
    {
        proof {
            assert(Set::<AxiomV>::empty().remove(_ax@) =~= Set::<AxiomV>::empty());
        }
        self.removes = self.removes.wrapping_add(1);
        false
    }
}

/// A `OneIndexedOntology` operates as a simple adaptor between any
/// `OntologyIndex` and an ontology: one slot group, plus the ontology's
/// identity record and optional source-document IRI.
pub struct OneIndexedOntology<AA: ForIndex, I: OntologyIndex<AA>>(
    pub I,
    pub OntologyID,
    pub Option<IRI>,
    pub PhantomData<AA>,
);

impl<AA: ForIndex, I: OntologyIndex<AA> + Clone> Clone for OneIndexedOntology<AA, I> {
    fn clone(&self) -> (r: Self)
        ensures
            vstd::pervasive::cloned::<I>(self.0, r.0),
            r.1 == self.1,
            r.2 == self.2,
    {
        OneIndexedOntology(
            self.0.clone(),
            self.1.clone(),
            match &self.2 {
                Some(i) => Some(i.clone()),
                None => None,
            },
            PhantomData,
        )
    }
}

impl<AA: ForIndex, I: OntologyIndex<AA>> OneIndexedOntology<AA, I> {
    /// A fresh ontology over the given index, with a default identity.
    pub fn new(i: I) -> (r: Self)
        ensures
            r.0 == i,
            r.1.iri is None,
            r.1.viri is None,
            r.2 is None,
    {
        OneIndexedOntology(i, OntologyID::default(), None, PhantomData)
    }

    /// The index, by reference.
    pub fn i(&self) -> (r: &I)
        ensures
            *r == self.0,
    {
        &self.0
    }

    /// Decompose the ontology, handing its index back.
    pub fn index(self) -> (r: I)
        ensures
            r == self.0,
    {
        let OneIndexedOntology(i, _, _, _) = self;
        i
    }

    /// The ontology's identity record.
    pub fn id(&self) -> (r: &OntologyID)
        ensures
            *r == self.1,
    {
        &self.1
    }

    /// The identity record, for mutation.
    pub fn mut_id(&mut self) -> (r: &mut OntologyID)
        ensures
            *r == old(self).1,
            final(self).0 == old(self).0,
            final(self).1 == *final(r),
            final(self).2 == old(self).2,
    {
        &mut self.1
    }

    /// The IRI of the source document this ontology was read from, if any.
    pub fn doc_iri(&self) -> (r: &Option<IRI>)
        ensures
            *r == self.2,
    {
        &self.2
    }

    /// The source-document IRI, for mutation.
    pub fn mut_doc_iri(&mut self) -> (r: &mut Option<IRI>)
        ensures
            *r == old(self).2,
            final(self).0 == old(self).0,
            final(self).1 == old(self).1,
            final(self).2 == *final(r),
    {
        &mut self.2
    }

    /// Insert an axiom: convert it into a shared handle and hand that to the
    /// index.  Returns true iff the index changed.
    pub fn insert(&mut self, ax: AnnotatedAxiom) -> (r: bool)
        requires
            old(self).0.wf(),
        ensures
            final(self).0.wf(),
            insert_step(
                old(self).0.contents(),
                old(self).0.tracks(),
                final(self).0.contents(),
                ax@,
                r,
            ),
            forall|s: int, a: AxiomV|
                #[trigger] final(self).0.tracks()(s, a) == old(self).0.tracks()(s, a),
            final(self).1 == old(self).1,
            final(self).2 == old(self).2,
    {
        self.0.index_insert(AA::from_axiom(ax))
    }

    /// Remove an axiom and, when something was removed, hand back its value.
    pub fn take(&mut self, ax: &AnnotatedAxiom) -> (r: Option<AnnotatedAxiom>)
        requires
            old(self).0.wf(),
        ensures
            final(self).0.wf(),
            remove_step(old(self).0.contents(), final(self).0.contents(), ax@, r is Some),
            forall|s: int, a: AxiomV|
                #[trigger] final(self).0.tracks()(s, a) == old(self).0.tracks()(s, a),
            r matches Some(a) ==> a@ == ax@,
            final(self).1 == old(self).1,
            final(self).2 == old(self).2,
    {
        self.0.index_take(ax)
    }

    /// Remove an axiom.  Returns true iff the index held it.
    pub fn remove(&mut self, ax: &AnnotatedAxiom) -> (r: bool)
        requires
            old(self).0.wf(),
        ensures
            final(self).0.wf(),
            remove_step(old(self).0.contents(), final(self).0.contents(), ax@, r),
            forall|s: int, a: AxiomV|
                #[trigger] final(self).0.tracks()(s, a) == old(self).0.tracks()(s, a),
            final(self).1 == old(self).1,
            final(self).2 == old(self).2,
    {
        self.take(ax).is_some()
    }
}

/// A `ThreeIndexedOntology` supports three indexes, built by right-nesting:
/// a pair whose second slot is itself a pair.
pub struct ThreeIndexedOntology<
    AA: ForIndex,
    I: OntologyIndex<AA>,
    J: OntologyIndex<AA>,
    K: OntologyIndex<AA>,
>(pub TwoIndexedOntology<AA, I, TwoIndexedOntology<AA, J, K>>);

impl<
    AA: ForIndex,
    I: OntologyIndex<AA>,
    J: OntologyIndex<AA>,
    K: OntologyIndex<AA>,
> ThreeIndexedOntology<AA, I, J, K> {
    /// An ontology over the three given indexes, with the given identity.
    /// The nested pair's own identity fields are unused placeholders and
    /// stay default.
    pub fn new(i: I, j: J, k: K, id: OntologyID) -> (r: Self)
        ensures
            r.0.0 == i,
            r.0.1.0 == j,
            r.0.1.1 == k,
            r.0.2 == id,
            r.0.3 is None,
            r.0.1.2.iri is None,
            r.0.1.2.viri is None,
            r.0.1.3 is None,
    {
        ThreeIndexedOntology(
            TwoIndexedOntology::new(i, TwoIndexedOntology::new(j, k, OntologyID::default()), id),
        )
    }

    /// The first index, by reference.
    pub fn i(&self) -> (r: &I)
        ensures
            *r == self.0.0,
    {
        self.0.i()
    }

    /// The second index, by reference.
    pub fn j(&self) -> (r: &J)
        ensures
            *r == self.0.1.0,
    {
        self.0.j().i()
    }

    /// The third index, by reference.
    pub fn k(&self) -> (r: &K)
        ensures
            *r == self.0.1.1,
    {
        self.0.j().j()
    }

    /// Decompose the ontology, handing its indexes back in slot order.
    pub fn index(self) -> (r: (I, J, K))
        ensures
            r.0 == self.0.0,
            r.1 == self.0.1.0,
            r.2 == self.0.1.1,
    {
        let ThreeIndexedOntology(two) = self;
        let (i, jk) = two.index();
        let (j, k) = jk.index();
        (i, j, k)
    }

    /// The ontology's identity record.
    pub fn id(&self) -> (r: &OntologyID)
        ensures
            *r == self.0.2,
    {
        self.0.id()
    }

    /// The identity record, for mutation.
    pub fn mut_id(&mut self) -> (r: &mut OntologyID)
        ensures
            *r == old(self).0.2,
            final(self).0.0 == old(self).0.0,
            final(self).0.1 == old(self).0.1,
            final(self).0.2 == *final(r),
            final(self).0.3 == old(self).0.3,
    {
        self.0.mut_id()
    }

    /// The IRI of the source document this ontology was read from, if any.
    pub fn doc_iri(&self) -> (r: &Option<IRI>)
        ensures
            *r == self.0.3,
    {
        self.0.doc_iri()
    }

    /// The source-document IRI, for mutation.
    pub fn mut_doc_iri(&mut self) -> (r: &mut Option<IRI>)
        ensures
            *r == old(self).0.3,
            final(self).0.0 == old(self).0.0,
            final(self).0.1 == old(self).0.1,
            final(self).0.2 == old(self).0.2,
            final(self).0.3 == *final(r),
    {
        self.0.mut_doc_iri()
    }

    /// Insert an axiom: convert it into a shared handle and hand that to all
    /// three indexes.  Returns true iff at least one of them changed.
    pub fn insert(&mut self, ax: AnnotatedAxiom) -> (r: bool)
        requires
            old(self).0.wf(),
        ensures
            final(self).0.wf(),
            insert_step(
                old(self).0.contents(),
                old(self).0.tracks(),
                final(self).0.contents(),
                ax@,
                r,
            ),
            forall|s: int, a: AxiomV|
                #[trigger] final(self).0.tracks()(s, a) == old(self).0.tracks()(s, a),
            final(self).0.0.contents().len() == old(self).0.0.contents().len(),
            final(self).0.1.contents().len() == old(self).0.1.contents().len(),
            final(self).0.2 == old(self).0.2,
            final(self).0.3 == old(self).0.3,
    {
        self.0.insert(ax)
    }

    /// Remove an axiom and, when something was removed, hand back its value.
    pub fn take(&mut self, ax: &AnnotatedAxiom) -> (r: Option<AnnotatedAxiom>)
        requires
            old(self).0.wf(),
        ensures
            final(self).0.wf(),
            remove_step(old(self).0.contents(), final(self).0.contents(), ax@, r is Some),
            forall|s: int, a: AxiomV|
                #[trigger] final(self).0.tracks()(s, a) == old(self).0.tracks()(s, a),
            r matches Some(a) ==> a@ == ax@,
            final(self).0.0.contents().len() == old(self).0.0.contents().len(),
            final(self).0.1.contents().len() == old(self).0.1.contents().len(),
            final(self).0.2 == old(self).0.2,
            final(self).0.3 == old(self).0.3,
    {
        self.0.take(ax)
    }

    /// Remove an axiom.  Returns true iff at least one index held it.
    pub fn remove(&mut self, ax: &AnnotatedAxiom) -> (r: bool)
        requires
            old(self).0.wf(),
        ensures
            final(self).0.wf(),
            remove_step(old(self).0.contents(), final(self).0.contents(), ax@, r),
            forall|s: int, a: AxiomV|
                #[trigger] final(self).0.tracks()(s, a) == old(self).0.tracks()(s, a),
            final(self).0.0.contents().len() == old(self).0.0.contents().len(),
            final(self).0.1.contents().len() == old(self).0.1.contents().len(),
            final(self).0.2 == old(self).0.2,
            final(self).0.3 == old(self).0.3,
    {
        self.0.remove(ax)
    }
}

impl<
    AA: ForIndex,
    I: OntologyIndex<AA>,
    J: OntologyIndex<AA>,
    K: OntologyIndex<AA>,
> OntologyIndex<AA> for ThreeIndexedOntology<AA, I, J, K> {
    open spec fn contents(&self) -> Seq<Set<AxiomV>> {
        self.0.contents()
    }

    open spec fn tracks(&self) -> spec_fn(int, AxiomV) -> bool {
        self.0.tracks()
    }

    open spec fn wf(&self) -> bool {
        self.0.wf()
    }

    fn index_insert(&mut self, ax: AA) -> (r: bool) {
        self.0.slot_insert(ax)
    }

    fn index_remove(&mut self, ax: &AnnotatedAxiom) -> (r: bool) {
        self.0.slot_remove(ax)
    }
}

/// A `FourIndexedOntology` supports four indexes: a pair whose second slot
/// is a three-index composite.
pub struct FourIndexedOntology<
    AA: ForIndex,
    I: OntologyIndex<AA>,
    J: OntologyIndex<AA>,
    K: OntologyIndex<AA>,
    L: OntologyIndex<AA>,
>(pub TwoIndexedOntology<AA, I, ThreeIndexedOntology<AA, J, K, L>>);

impl<
    AA: ForIndex,
    I: OntologyIndex<AA>,
    J: OntologyIndex<AA>,
    K: OntologyIndex<AA>,
    L: OntologyIndex<AA>,
> FourIndexedOntology<AA, I, J, K, L> {
    /// An ontology over the four given indexes, with the given identity.
    /// The nested composites' own identity fields are unused placeholders
    /// and stay default.
    pub fn new(i: I, j: J, k: K, l: L, id: OntologyID) -> (r: Self)
        ensures
            r.0.0 == i,
            r.0.1.0.0 == j,
            r.0.1.0.1.0 == k,
            r.0.1.0.1.1 == l,
            r.0.2 == id,
            r.0.3 is None,
            r.0.1.0.2.iri is None,
            r.0.1.0.2.viri is None,
            r.0.1.0.3 is None,
            r.0.1.0.1.2.iri is None,
            r.0.1.0.1.2.viri is None,
            r.0.1.0.1.3 is None,
    {
        FourIndexedOntology(
            TwoIndexedOntology::new(
                i,
                ThreeIndexedOntology::new(j, k, l, OntologyID::default()),
                id,
            ),
        )
    }

    /// The first index, by reference.
    pub fn i(&self) -> (r: &I)
        ensures
            *r == self.0.0,
    {
        self.0.i()
    }

    /// The second index, by reference.
    pub fn j(&self) -> (r: &J)
        ensures
            *r == self.0.1.0.0,
    {
        self.0.j().i()
    }

    /// The third index, by reference.
    pub fn k(&self) -> (r: &K)
        ensures
            *r == self.0.1.0.1.0,
    {
        self.0.j().j()
    }

    /// The fourth index, by reference.
    pub fn l(&self) -> (r: &L)
        ensures
            *r == self.0.1.0.1.1,
    {
        self.0.j().k()
    }

    /// Decompose the ontology, handing its indexes back in slot order.
    pub fn index(self) -> (r: (I, J, K, L))
        ensures
            r.0 == self.0.0,
            r.1 == self.0.1.0.0,
            r.2 == self.0.1.0.1.0,
            r.3 == self.0.1.0.1.1,
    {
        let FourIndexedOntology(two) = self;
        let (i, three) = two.index();
        let (j, k, l) = three.index();
        (i, j, k, l)
    }

    /// The ontology's identity record.
    pub fn id(&self) -> (r: &OntologyID)
        ensures
            *r == self.0.2,
    {
        self.0.id()
    }

    /// The identity record, for mutation.
    pub fn mut_id(&mut self) -> (r: &mut OntologyID)
        ensures
            *r == old(self).0.2,
            final(self).0.0 == old(self).0.0,
            final(self).0.1 == old(self).0.1,
            final(self).0.2 == *final(r),
            final(self).0.3 == old(self).0.3,
    {
        self.0.mut_id()
    }

    /// The IRI of the source document this ontology was read from, if any.
    pub fn doc_iri(&self) -> (r: &Option<IRI>)
        ensures
            *r == self.0.3,
    {
        self.0.doc_iri()
    }

    /// The source-document IRI, for mutation.
    pub fn mut_doc_iri(&mut self) -> (r: &mut Option<IRI>)
        ensures
            *r == old(self).0.3,
            final(self).0.0 == old(self).0.0,
            final(self).0.1 == old(self).0.1,
            final(self).0.2 == old(self).0.2,
            final(self).0.3 == *final(r),
    {
        self.0.mut_doc_iri()
    }

    /// Insert an axiom: convert it into a shared handle and hand that to all
    /// four indexes.  Returns true iff at least one of them changed.
    pub fn insert(&mut self, ax: AnnotatedAxiom) -> (r: bool)
        requires
            old(self).0.wf(),
        ensures
            final(self).0.wf(),
            insert_step(
                old(self).0.contents(),
                old(self).0.tracks(),
                final(self).0.contents(),
                ax@,
                r,
            ),
            forall|s: int, a: AxiomV|
                #[trigger] final(self).0.tracks()(s, a) == old(self).0.tracks()(s, a),
            final(self).0.0.contents().len() == old(self).0.0.contents().len(),
            final(self).0.1.contents().len() == old(self).0.1.contents().len(),
            final(self).0.2 == old(self).0.2,
            final(self).0.3 == old(self).0.3,
    {
        self.0.insert(ax)
    }

    /// Remove an axiom and, when something was removed, hand back its value.
    pub fn take(&mut self, ax: &AnnotatedAxiom) -> (r: Option<AnnotatedAxiom>)
        requires
            old(self).0.wf(),
        ensures
            final(self).0.wf(),
            remove_step(old(self).0.contents(), final(self).0.contents(), ax@, r is Some),
            forall|s: int, a: AxiomV|
                #[trigger] final(self).0.tracks()(s, a) == old(self).0.tracks()(s, a),
            r matches Some(a) ==> a@ == ax@,
            final(self).0.0.contents().len() == old(self).0.0.contents().len(),
            final(self).0.1.contents().len() == old(self).0.1.contents().len(),
            final(self).0.2 == old(self).0.2,
            final(self).0.3 == old(self).0.3,
    {
        self.0.take(ax)
    }

    /// Remove an axiom.  Returns true iff at least one index held it.
    pub fn remove(&mut self, ax: &AnnotatedAxiom) -> (r: bool)
        requires
            old(self).0.wf(),
        ensures
            final(self).0.wf(),
            remove_step(old(self).0.contents(), final(self).0.contents(), ax@, r),
            forall|s: int, a: AxiomV|
                #[trigger] final(self).0.tracks()(s, a) == old(self).0.tracks()(s, a),
            final(self).0.0.contents().len() == old(self).0.0.contents().len(),
            final(self).0.1.contents().len() == old(self).0.1.contents().len(),
            final(self).0.2 == old(self).0.2,
            final(self).0.3 == old(self).0.3,
    {
        self.0.remove(ax)
    }
}

impl<I: OntologyIndex<Rc<AnnotatedAxiom>>> OneIndexedOntology<Rc<AnnotatedAxiom>, I> {
    /// A fresh ontology whose axioms are shared through `Rc` handles,
    /// for use within a single thread.
    pub fn new_rc(i: I) -> (r: Self)
        ensures
            r.0 == i,
            r.1.iri is None,
            r.1.viri is None,
            r.2 is None,
    {
        Self::new(i)
    }
}

/// A `TwoIndexedOntology` implements an ontology over two indexes.  It
/// itself satisfies `OntologyIndex`, so that it can be composed into the
/// higher-arity containers.
pub struct TwoIndexedOntology<AA: ForIndex, I: OntologyIndex<AA>, J: OntologyIndex<AA>>(
    pub I,
    pub J,
    pub OntologyID,
    pub Option<IRI>,
    pub PhantomData<AA>,
);

impl<AA: ForIndex, I: OntologyIndex<AA>, J: OntologyIndex<AA>> TwoIndexedOntology<AA, I, J> {
    /// An ontology over the two given indexes, with the given identity.
    pub fn new(i: I, j: J, id: OntologyID) -> (r: Self)
        ensures
            r.0 == i,
            r.1 == j,
            r.2 == id,
            r.3 is None,
    {
        TwoIndexedOntology(i, j, id, None, PhantomData)
    }

    /// The first index, by reference.
    pub fn i(&self) -> (r: &I)
        ensures
            *r == self.0,
    {
        &self.0
    }

    /// The second index, by reference.
    pub fn j(&self) -> (r: &J)
        ensures
            *r == self.1,
    {
        &self.1
    }

    /// Decompose the ontology, handing its indexes back in slot order.
    pub fn index(self) -> (r: (I, J))
        ensures
            r.0 == self.0,
            r.1 == self.1,
    {
        let TwoIndexedOntology(i, j, _, _, _) = self;
        (i, j)
    }

    /// The ontology's identity record.
    pub fn id(&self) -> (r: &OntologyID)
        ensures
            *r == self.2,
    {
        &self.2
    }

    /// The identity record, for mutation.
    pub fn mut_id(&mut self) -> (r: &mut OntologyID)
        ensures
            *r == old(self).2,
            final(self).0 == old(self).0,
            final(self).1 == old(self).1,
            final(self).2 == *final(r),
            final(self).3 == old(self).3,
    {
        &mut self.2
    }

    /// The IRI of the source document this ontology was read from, if any.
    pub fn doc_iri(&self) -> (r: &Option<IRI>)
        ensures
            *r == self.3,
    {
        &self.3
    }

    /// The source-document IRI, for mutation.
    pub fn mut_doc_iri(&mut self) -> (r: &mut Option<IRI>)
        ensures
            *r == old(self).3,
            final(self).0 == old(self).0,
            final(self).1 == old(self).1,
            final(self).2 == old(self).2,
            final(self).3 == *final(r),
    {
        &mut self.3
    }

    /// Insert an axiom: convert it into a shared handle and hand that to
    /// both indexes.  Returns true iff at least one of them changed.
    pub fn insert(&mut self, ax: AnnotatedAxiom) -> (r: bool)
        requires
            old(self).wf(),
        ensures
            final(self).wf(),
            insert_step(
                old(self).contents(),
                old(self).tracks(),
                final(self).contents(),
                ax@,
                r,
            ),
            forall|s: int, a: AxiomV|
                #[trigger] final(self).tracks()(s, a) == old(self).tracks()(s, a),
            final(self).0.contents().len() == old(self).0.contents().len(),
            final(self).1.contents().len() == old(self).1.contents().len(),
            final(self).2 == old(self).2,
            final(self).3 == old(self).3,
    {
        self.slot_insert(AA::from_axiom(ax))
    }

    /// Remove an axiom and, when something was removed, hand back its value.
    pub fn take(&mut self, ax: &AnnotatedAxiom) -> (r: Option<AnnotatedAxiom>)
        requires
            old(self).wf(),
        ensures
            final(self).wf(),
            remove_step(old(self).contents(), final(self).contents(), ax@, r is Some),
            forall|s: int, a: AxiomV|
                #[trigger] final(self).tracks()(s, a) == old(self).tracks()(s, a),
            r matches Some(a) ==> a@ == ax@,
            final(self).0.contents().len() == old(self).0.contents().len(),
            final(self).1.contents().len() == old(self).1.contents().len(),
            final(self).2 == old(self).2,
            final(self).3 == old(self).3,
    {
        if self.slot_remove(ax) {
            Some(ax.clone())
        } else {
            None
        }
    }

    /// Remove an axiom.  Returns true iff at least one index held it.
    pub fn remove(&mut self, ax: &AnnotatedAxiom) -> (r: bool)
        requires
            old(self).wf(),
        ensures
            final(self).wf(),
            remove_step(old(self).contents(), final(self).contents(), ax@, r),
            forall|s: int, a: AxiomV|
                #[trigger] final(self).tracks()(s, a) == old(self).tracks()(s, a),
            final(self).0.contents().len() == old(self).0.contents().len(),
            final(self).1.contents().len() == old(self).1.contents().len(),
            final(self).2 == old(self).2,
            final(self).3 == old(self).3,
    {
        self.take(ax).is_some()
    }

    /// Hand the axiom handle to both indexes, in slot order and without
    /// short-circuiting, and report whether at least one of them changed.
    fn slot_insert(&mut self, ax: AA) -> (r: bool)
        requires
            old(self).wf(),
        ensures
            final(self).wf(),
            insert_step(
                old(self).contents(),
                old(self).tracks(),
                final(self).contents(),
                ax.axiom_view(),
                r,
            ),
            forall|s: int, a: AxiomV|
                #[trigger] final(self).tracks()(s, a) == old(self).tracks()(s, a),
            final(self).0.contents().len() == old(self).0.contents().len(),
            final(self).1.contents().len() == old(self).1.contents().len(),
            final(self).2 == old(self).2,
            final(self).3 == old(self).3,
    {
        let ghost axv = ax.axiom_view();
        let ghost n0: int = old(self).0.contents().len() as int;
        let rtn = self.0.index_insert(ax.dup());
        // Don't short circuit: the second index must always see the handle.
        let rtn2 = self.1.index_insert(ax);
        proof {
            let pre = *old(self);
            let post = *self;
            assert forall|s: int| 0 <= s < pre.contents().len() implies post.contents()[s] == (
            if pre.tracks()(s, axv) {
                pre.contents()[s].insert(axv)
            } else {
                pre.contents()[s]
            }) by {
                if s < n0 {
                    assert(pre.contents()[s] == pre.0.contents()[s]);
                    assert(post.contents()[s] == post.0.contents()[s]);
                } else {
                    assert(pre.contents()[s] == pre.1.contents()[s - n0]);
                    assert(post.contents()[s] == post.1.contents()[s - n0]);
                }
            };
            if rtn {
                let s0 = choose|s: int|
                    insert_would_change(pre.0.contents(), pre.0.tracks(), s, axv);
                assert(insert_would_change(pre.contents(), pre.tracks(), s0, axv));
            } else if rtn2 {
                let s1 = choose|s: int|
                    insert_would_change(pre.1.contents(), pre.1.tracks(), s, axv);
                assert(insert_would_change(pre.contents(), pre.tracks(), s1 + n0, axv));
            } else {
                assert forall|s: int| !insert_would_change(pre.contents(), pre.tracks(), s, axv) by {
                    if 0 <= s < n0 {
                        assert(!insert_would_change(pre.0.contents(), pre.0.tracks(), s, axv));
                    } else if n0 <= s < pre.contents().len() {
                        assert(!insert_would_change(pre.1.contents(), pre.1.tracks(), s - n0, axv));
                    }
                };
            }
            assert forall|s: int, a: AxiomV|
                #[trigger] post.tracks()(s, a) == pre.tracks()(s, a) by {
                if s < n0 {
                    assert(post.0.tracks()(s, a) == pre.0.tracks()(s, a));
                } else {
                    assert(post.1.tracks()(s - n0, a) == pre.1.tracks()(s - n0, a));
                }
            };
        }
        rtn2 || rtn
    }

    /// Tell both indexes to untrack the axiom, in slot order and without
    /// short-circuiting, and report whether at least one of them held it.
    fn slot_remove(&mut self, ax: &AnnotatedAxiom) -> (r: bool)
        requires
            old(self).wf(),
        ensures
            final(self).wf(),
            remove_step(old(self).contents(), final(self).contents(), ax@, r),
            forall|s: int, a: AxiomV|
                #[trigger] final(self).tracks()(s, a) == old(self).tracks()(s, a),
            final(self).0.contents().len() == old(self).0.contents().len(),
            final(self).1.contents().len() == old(self).1.contents().len(),
            final(self).2 == old(self).2,
            final(self).3 == old(self).3,
    {
        let ghost axv = ax@;
        let ghost n0: int = old(self).0.contents().len() as int;
        let rtn = self.0.index_remove(ax);
        // Don't short circuit: the second index must always be told.
        let rtn2 = self.1.index_remove(ax);
        proof {
            let pre = *old(self);
            let post = *self;
            assert forall|s: int| 0 <= s < pre.contents().len() implies post.contents()[s]
                == pre.contents()[s].remove(axv) by {
                if s < n0 {
                    assert(pre.contents()[s] == pre.0.contents()[s]);
                    assert(post.contents()[s] == post.0.contents()[s]);
                } else {
                    assert(pre.contents()[s] == pre.1.contents()[s - n0]);
                    assert(post.contents()[s] == post.1.contents()[s - n0]);
                }
            };
            if rtn {
                let s0 = choose|s: int| remove_would_change(pre.0.contents(), s, axv);
                assert(remove_would_change(pre.contents(), s0, axv));
            } else if rtn2 {
                let s1 = choose|s: int| remove_would_change(pre.1.contents(), s, axv);
                assert(remove_would_change(pre.contents(), s1 + n0, axv));
            } else {
                assert forall|s: int| !remove_would_change(pre.contents(), s, axv) by {
                    if 0 <= s < n0 {
                        assert(!remove_would_change(pre.0.contents(), s, axv));
                    } else if n0 <= s < pre.contents().len() {
                        assert(!remove_would_change(pre.1.contents(), s - n0, axv));
                    }
                };
            }
            assert forall|s: int, a: AxiomV|
                #[trigger] post.tracks()(s, a) == pre.tracks()(s, a) by {
                if s < n0 {
                    assert(post.0.tracks()(s, a) == pre.0.tracks()(s, a));
                } else {
                    assert(post.1.tracks()(s - n0, a) == pre.1.tracks()(s - n0, a));
                }
            };
        }
        rtn2 || rtn
    }
}

impl<AA: ForIndex, I: OntologyIndex<AA>, J: OntologyIndex<AA>> OntologyIndex<
    AA,
> for TwoIndexedOntology<AA, I, J> {
    open spec fn contents(&self) -> Seq<Set<AxiomV>> {
        self.0.contents() + self.1.contents()
    }

    open spec fn tracks(&self) -> spec_fn(int, AxiomV) -> bool {
        |s: int, a: AxiomV|
            if s < self.0.contents().len() {
                self.0.tracks()(s, a)
            } else {
                self.1.tracks()(s - self.0.contents().len(), a)
            }
    }

    open spec fn wf(&self) -> bool {
        self.0.wf() && self.1.wf()
    }

    fn index_insert(&mut self, ax: AA) -> (r: bool) {
        self.slot_insert(ax)
    }

    fn index_remove(&mut self, ax: &AnnotatedAxiom) -> (r: bool) {
        self.slot_remove(ax)
    }
}

impl<I: OntologyIndex<Arc<AnnotatedAxiom>>> OneIndexedOntology<Arc<AnnotatedAxiom>, I> {
    /// A fresh ontology whose axioms are shared through `Arc` handles,
    /// for ontologies crossing thread boundaries.
    pub fn new_arc(i: I) -> (r: Self)
        ensures
            r.0 == i,
            r.1.iri is None,
            r.1.viri is None,
            r.2 is None,
    {
        Self::new(i)
    }
}

/// No slot of the contents `c` holds the axiom `ax`.
pub open spec fn absent(c: Seq<Set<AxiomV>>, ax: AxiomV) -> bool {
    forall|s: int| 0 <= s < c.len() ==> !c[s].contains(ax)
}

/// Every one of the `n` slots retains every axiom handed to it: the index is
/// durable and complete.
pub open spec fn all_tracking(n: int, tracks: spec_fn(int, AxiomV) -> bool) -> bool {
    forall|s: int, a: AxiomV| 0 <= s < n ==> #[trigger] tracks(s, a)
}

/// Any two slots of the contents `c` hold equal logical content.
pub open spec fn slots_agree(c: Seq<Set<AxiomV>>) -> bool {
    forall|s1: int, s2: int|
        0 <= s1 < c.len() && 0 <= s2 < c.len() ==> #[trigger] c[s1] == #[trigger] c[s2]
}

/// Idempotence of insertion.  Two consecutive insertions of the same logical
/// axiom into any index: the second one never reports a change, and when at
/// least one slot tracks the axiom and no slot held it at first, the first
/// one does.
pub proof fn lemma_insert_idempotent(
    c0: Seq<Set<AxiomV>>,
    t: spec_fn(int, AxiomV) -> bool,
    c1: Seq<Set<AxiomV>>,
    c2: Seq<Set<AxiomV>>,
    ax: AxiomV,
    r1: bool,
    r2: bool,
)
    requires
        insert_step(c0, t, c1, ax, r1),
        insert_step(c1, t, c2, ax, r2),
    ensures
        !r2,
        absent(c0, ax) && (exists|s: int| 0 <= s < c0.len() && #[trigger] t(s, ax)) ==> r1,
{
    assert forall|s: int| !insert_would_change(c1, t, s, ax) by {
        if 0 <= s < c0.len() && t(s, ax) {
            assert(c1[s] == c0[s].insert(ax));
            assert(c1[s].contains(ax));
        }
    };
    if absent(c0, ax) && (exists|s: int| 0 <= s < c0.len() && #[trigger] t(s, ax)) {
        let s = choose|s: int| 0 <= s < c0.len() && #[trigger] t(s, ax);
        assert(insert_would_change(c0, t, s, ax));
    }
}

/// Removing an axiom that no slot holds always reports false.
pub proof fn lemma_remove_absent(
    c0: Seq<Set<AxiomV>>,
    c1: Seq<Set<AxiomV>>,
    ax: AxiomV,
    r: bool,
)
    requires
        remove_step(c0, c1, ax, r),
        absent(c0, ax),
    ensures
        !r,
{
    assert forall|s: int| !remove_would_change(c0, s, ax) by {};
}

/// No slot is skipped by an insertion: whatever the other slots reported, a
/// slot that tracks the axiom holds it afterwards.
pub proof fn lemma_insert_reaches_every_slot(
    c0: Seq<Set<AxiomV>>,
    t: spec_fn(int, AxiomV) -> bool,
    c1: Seq<Set<AxiomV>>,
    ax: AxiomV,
    r: bool,
    s: int,
)
    requires
        insert_step(c0, t, c1, ax, r),
        0 <= s < c0.len(),
        t(s, ax),
    ensures
        c1[s].contains(ax),
{
}

/// No slot is skipped by a removal: whatever the other slots reported, no
/// slot holds the axiom afterwards.
pub proof fn lemma_remove_reaches_every_slot(
    c0: Seq<Set<AxiomV>>,
    c1: Seq<Set<AxiomV>>,
    ax: AxiomV,
    r: bool,
    s: int,
)
    requires
        remove_step(c0, c1, ax, r),
        0 <= s < c0.len(),
    ensures
        !c1[s].contains(ax),
{
}

/// Cross-slot consistency under insertion: when every slot is durable and
/// complete and all slots hold equal content, they still hold equal content
/// after an insertion.  Chained over a run of operations, all slots of such
/// an index always agree.
pub proof fn lemma_insert_preserves_agreement(
    c0: Seq<Set<AxiomV>>,
    t: spec_fn(int, AxiomV) -> bool,
    c1: Seq<Set<AxiomV>>,
    ax: AxiomV,
    r: bool,
)
    requires
        insert_step(c0, t, c1, ax, r),
        all_tracking(c0.len() as int, t),
        slots_agree(c0),
    ensures
        slots_agree(c1),
{
    assert forall|s1: int, s2: int|
        0 <= s1 < c1.len() && 0 <= s2 < c1.len() implies #[trigger] c1[s1] == #[trigger] c1[s2] by {
        assert(c1[s1] == c0[s1].insert(ax));
        assert(c1[s2] == c0[s2].insert(ax));
        assert(c0[s1] == c0[s2]);
    };
}

/// Cross-slot consistency under removal: slots holding equal content still
/// hold equal content after a removal, whatever each slot tracks.
pub proof fn lemma_remove_preserves_agreement(
    c0: Seq<Set<AxiomV>>,
    c1: Seq<Set<AxiomV>>,
    ax: AxiomV,
    r: bool,
)
    requires
        remove_step(c0, c1, ax, r),
        slots_agree(c0),
    ensures
        slots_agree(c1),
{
    assert forall|s1: int, s2: int|
        0 <= s1 < c1.len() && 0 <= s2 < c1.len() implies #[trigger] c1[s1] == #[trigger] c1[s2] by {
        assert(c1[s1] == c0[s1].remove(ax));
        assert(c1[s2] == c0[s2].remove(ax));
        assert(c0[s1] == c0[s2]);
    };
}

/// One mutation of an indexed ontology, as a mathematical value.
pub enum OpV {
    Insert(AxiomV),
    Remove(AxiomV),
}

/// The slot contents after one operation: an insertion reaches every slot
/// that tracks the axiom, a removal reaches every slot.
pub open spec fn apply_op(
    c: Seq<Set<AxiomV>>,
    tracks: spec_fn(int, AxiomV) -> bool,
    op: OpV,
) -> Seq<Set<AxiomV>> {
    match op {
        OpV::Insert(ax) => Seq::new(
            c.len(),
            |s: int|
                if tracks(s, ax) {
                    c[s].insert(ax)
                } else {
                    c[s]
                },
        ),
        OpV::Remove(ax) => Seq::new(c.len(), |s: int| c[s].remove(ax)),
    }
}

/// The slot contents after a run of operations, applied left to right.
pub open spec fn apply_ops(
    c: Seq<Set<AxiomV>>,
    tracks: spec_fn(int, AxiomV) -> bool,
    ops: Seq<OpV>,
) -> Seq<Set<AxiomV>>
    decreases ops.len(),
{
    if ops.len() == 0 {
        c
    } else {
        apply_ops(apply_op(c, tracks, ops[0]), tracks, ops.drop_first())
    }
}

/// An insertion steps the contents to exactly `apply_op` of an insert, and a
/// removal to exactly `apply_op` of a remove: the step relations pin the new
/// contents down.
pub proof fn lemma_step_is_apply_op(
    c0: Seq<Set<AxiomV>>,
    t: spec_fn(int, AxiomV) -> bool,
    c1: Seq<Set<AxiomV>>,
    op: OpV,
    r: bool,
)
    requires
        match op {
            OpV::Insert(ax) => insert_step(c0, t, c1, ax, r),
            OpV::Remove(ax) => remove_step(c0, c1, ax, r),
        },
    ensures
        c1 == apply_op(c0, t, op),
{
    assert(c1 =~= apply_op(c0, t, op));
}

/// Cross-slot consistency, over a whole run: for an index every one of whose
/// slots is durable and complete, starting from slots that agree, any
/// sequence of insertions and removals leaves any two slots with equal
/// logical content.
pub proof fn lemma_ops_preserve_agreement(
    c0: Seq<Set<AxiomV>>,
    t: spec_fn(int, AxiomV) -> bool,
    ops: Seq<OpV>,
)
    requires
        all_tracking(c0.len() as int, t),
        slots_agree(c0),
    ensures
        slots_agree(apply_ops(c0, t, ops)),
    decreases ops.len(),
{
    if ops.len() > 0 {
        let c1 = apply_op(c0, t, ops[0]);
        assert(c1.len() == c0.len());
        match ops[0] {
            OpV::Insert(ax) => {
                assert forall|s1: int, s2: int|
                    0 <= s1 < c1.len() && 0 <= s2 < c1.len() implies #[trigger] c1[s1]
                    == #[trigger] c1[s2] by {
                    assert(t(s1, ax) && t(s2, ax));
                    assert(c0[s1] == c0[s2]);
                };
            },
            OpV::Remove(ax) => {
                assert forall|s1: int, s2: int|
                    0 <= s1 < c1.len() && 0 <= s2 < c1.len() implies #[trigger] c1[s1]
                    == #[trigger] c1[s2] by {
                    assert(c0[s1] == c0[s2]);
                };
            },
        }
        lemma_ops_preserve_agreement(c1, t, ops.drop_first());
    }
}

} // verus!
