use std::rc::Rc;
use std::sync::Arc;

use horned_owl::model::{AnnotatedAxiom, Build, NamedEntity, OntologyID, IRI};
use horned_owl::ontology::indexed::{
    CountingIndex, FourIndexedOntology, NullIndex, OneIndexedOntology, ThreeIndexedOntology,
    TwoIndexedOntology,
};
use horned_owl::ontology::set::SetIndex;

fn stuff() -> (AnnotatedAxiom, AnnotatedAxiom, AnnotatedAxiom) {
    let b = Build::new();
    let c: NamedEntity = b.class("http://www.example.com/c");
    let o: NamedEntity = b.object_property("http://www.example.com/p");
    let d: NamedEntity = b.data_property("http://www.example.com/d");

    (c.into(), o.into(), d.into())
}

#[test]
fn one_cons() {
    let _o = OneIndexedOntology::new_rc(SetIndex::new());
    assert!(true);
}

#[test]
fn one_insert() {
    let mut o = OneIndexedOntology::new_rc(SetIndex::new());
    let e = stuff();
    o.insert(e.0);
    o.insert(e.1);
    o.insert(e.2);

    assert_eq!(o.i().len(), 3);
}

#[test]
fn one_remove() {
    let mut o = OneIndexedOntology::new_rc(SetIndex::new());
    let e = stuff();
    o.insert(e.0.clone());
    o.insert(e.1.clone());
    o.insert(e.2.clone());

    assert_eq!(o.i().len(), 3);
    assert!(o.remove(&e.0));
    assert!(o.remove(&e.1));
    assert!(o.remove(&e.2));

    assert_eq!(o.i().len(), 0);
    assert!(!o.remove(&e.0));
    assert!(!o.remove(&e.1));
    assert!(!o.remove(&e.2));
}

#[test]
fn two_cons() {
    let _o = TwoIndexedOntology::new(SetIndex::new_rc(), SetIndex::new(), Default::default());
    assert!(true);

    let _o = TwoIndexedOntology::new(SetIndex::new_rc(), NullIndex::default(), Default::default());
    assert!(true);
}

#[test]
fn two_insert() {
    let mut o = TwoIndexedOntology::new(SetIndex::new_rc(), SetIndex::new(), Default::default());
    let e = stuff();
    o.insert(e.0);
    o.insert(e.1);
    o.insert(e.2);

    assert_eq!(o.i().len(), 3);
    assert_eq!(o.j().len(), 3);
    assert_eq!(o.i(), o.j());
}

#[test]
fn two_remove() {
    let mut o = TwoIndexedOntology::new(SetIndex::new_rc(), SetIndex::new(), Default::default());

    let e = stuff();
    o.insert(e.0.clone());
    o.insert(e.1.clone());
    o.insert(e.2.clone());

    assert_eq!(o.i().len(), 3);
    assert!(o.remove(&e.0));
    assert!(o.remove(&e.1));
    assert!(o.remove(&e.2));

    assert_eq!(o.i().len(), 0);
    assert!(!o.remove(&e.0));
    assert!(!o.remove(&e.1));
    assert!(!o.remove(&e.2));
    assert_eq!(o.i(), o.j());
}

#[test]
fn three_remove() {
    let mut o = ThreeIndexedOntology::new(
        SetIndex::new_rc(),
        SetIndex::new(),
        SetIndex::new(),
        Default::default(),
    );

    let e = stuff();
    o.insert(e.0.clone());
    o.insert(e.1.clone());
    o.insert(e.2.clone());

    assert_eq!(o.i().len(), 3);
    assert!(o.remove(&e.0));
    assert!(o.remove(&e.1));
    assert!(o.remove(&e.2));

    assert_eq!(o.i().len(), 0);
    assert!(!o.remove(&e.0));
    assert!(!o.remove(&e.1));
    assert!(!o.remove(&e.2));

    assert_eq!(o.i(), o.j());
    assert_eq!(o.i(), o.k());
}

#[test]
fn four_remove() {
    let mut o = FourIndexedOntology::new(
        SetIndex::new_rc(),
        SetIndex::new(),
        SetIndex::new(),
        SetIndex::new(),
        Default::default(),
    );

    let e = stuff();
    o.insert(e.0.clone());
    o.insert(e.1.clone());
    o.insert(e.2.clone());

    assert_eq!(o.i().len(), 3);
    assert!(o.remove(&e.0));
    assert!(o.remove(&e.1));
    assert!(o.remove(&e.2));

    assert_eq!(o.i().len(), 0);
    assert!(!o.remove(&e.0));
    assert!(!o.remove(&e.1));
    assert!(!o.remove(&e.2));

    assert_eq!(o.i(), o.j());
    assert_eq!(o.i(), o.k());
    assert_eq!(o.i(), o.l());
}

#[test]
fn four_insert_all_slots_agree() {
    let mut o = FourIndexedOntology::new(
        SetIndex::new_rc(),
        SetIndex::new(),
        SetIndex::new(),
        SetIndex::new(),
        Default::default(),
    );

    let e = stuff();
    assert!(o.insert(e.0));
    assert!(o.insert(e.1));
    assert!(o.insert(e.2));

    assert_eq!(o.i().len(), 3);
    assert_eq!(o.j().len(), 3);
    assert_eq!(o.k().len(), 3);
    assert_eq!(o.l().len(), 3);
    assert_eq!(o.i(), o.j());
    assert_eq!(o.i(), o.k());
    assert_eq!(o.i(), o.l());
    assert_eq!(o.j(), o.k());
    assert_eq!(o.j(), o.l());
    assert_eq!(o.k(), o.l());
}

#[test]
fn one_cons_arc() {
    let mut o = OneIndexedOntology::new_arc(SetIndex::new());
    let e = stuff();
    o.insert(e.0);
    assert_eq!(o.i().len(), 1);
}

#[test]
fn arc_shared_handles() {
    let e = stuff();
    let mut o: TwoIndexedOntology<Arc<AnnotatedAxiom>, SetIndex<_>, SetIndex<_>> =
        TwoIndexedOntology::new(SetIndex::new(), SetIndex::new(), Default::default());
    assert!(o.insert(e.0.clone()));
    assert!(!o.insert(e.0.clone()));
    assert_eq!(o.i().len(), 1);
    assert_eq!(o.i(), o.j());
    assert!(o.remove(&e.0));
    assert_eq!(o.j().len(), 0);
}

#[test]
fn insert_twice_reports_false() {
    let mut o = OneIndexedOntology::new_rc(SetIndex::new());
    let e = stuff();
    assert!(o.insert(e.0.clone()));
    assert!(!o.insert(e.0));
    assert_eq!(o.i().len(), 1);
}

#[test]
fn null_index_reports_false() {
    let mut o = OneIndexedOntology::new_rc(NullIndex::default());
    let e = stuff();
    assert!(!o.insert(e.0.clone()));
    assert!(!o.remove(&e.0));
    assert!(o.take(&e.0).is_none());
}

#[test]
fn null_slot_does_not_mask_the_other() {
    let mut o = TwoIndexedOntology::new(SetIndex::new_rc(), NullIndex::default(), Default::default());
    let e = stuff();
    assert!(o.insert(e.0.clone()));
    assert_eq!(o.i().len(), 1);
    assert!(o.remove(&e.0));
    assert_eq!(o.i().len(), 0);
}

#[test]
fn take_returns_the_axiom() {
    let mut o = OneIndexedOntology::new_rc(SetIndex::new());
    let e = stuff();
    o.insert(e.0.clone());

    assert_eq!(o.take(&e.0), Some(e.0.clone()));
    assert_eq!(o.take(&e.0), None);
}

#[test]
fn decompose_matches_accessors() {
    let mut o = ThreeIndexedOntology::new(
        SetIndex::new_rc(),
        SetIndex::new(),
        SetIndex::new(),
        Default::default(),
    );
    let e = stuff();
    o.insert(e.0);
    o.insert(e.1);

    let ci = o.i().clone();
    let cj = o.j().clone();
    let ck = o.k().clone();
    let (i, j, k) = o.index();
    assert_eq!(i, ci);
    assert_eq!(j, cj);
    assert_eq!(k, ck);
}

#[test]
fn identity_accessors() {
    let mut o = OneIndexedOntology::new_rc(SetIndex::new());
    assert_eq!(o.id().iri, None);
    assert_eq!(o.doc_iri(), &None);

    *o.mut_id() = OntologyID {
        iri: Some(IRI::new("http://www.example.com/o")),
        viri: None,
    };
    *o.mut_doc_iri() = Some(IRI::new("http://www.example.com/o.owl"));

    assert_eq!(o.id().iri, Some(IRI::new("http://www.example.com/o")));
    assert_eq!(o.id().viri, None);
    assert_eq!(o.doc_iri(), &Some(IRI::new("http://www.example.com/o.owl")));
}

type RcCounting = CountingIndex<Rc<AnnotatedAxiom>>;

#[test]
fn every_slot_sees_every_operation() {
    let e = stuff();

    let mut o1 = OneIndexedOntology::new_rc(CountingIndex::default());
    o1.insert(e.0.clone());
    o1.insert(e.0.clone());
    o1.insert(e.1.clone());
    o1.remove(&e.0);
    o1.remove(&e.2);
    let c = o1.index();
    assert_eq!(c.inserts, 3);
    assert_eq!(c.removes, 2);

    let mut o2: TwoIndexedOntology<Rc<AnnotatedAxiom>, RcCounting, RcCounting> =
        TwoIndexedOntology::new(
            CountingIndex::default(),
            CountingIndex::default(),
            Default::default(),
        );
    o2.insert(e.0.clone());
    o2.insert(e.0.clone());
    o2.insert(e.1.clone());
    o2.remove(&e.0);
    o2.remove(&e.2);
    let (c1, c2) = o2.index();
    for c in [&c1, &c2] {
        assert_eq!(c.inserts, 3);
        assert_eq!(c.removes, 2);
    }

    let mut o3: ThreeIndexedOntology<Rc<AnnotatedAxiom>, RcCounting, RcCounting, RcCounting> =
        ThreeIndexedOntology::new(
            CountingIndex::default(),
            CountingIndex::default(),
            CountingIndex::default(),
            Default::default(),
        );
    o3.insert(e.0.clone());
    o3.insert(e.0.clone());
    o3.insert(e.1.clone());
    o3.remove(&e.0);
    o3.remove(&e.2);
    let (c1, c2, c3) = o3.index();
    for c in [&c1, &c2, &c3] {
        assert_eq!(c.inserts, 3);
        assert_eq!(c.removes, 2);
    }

    let mut o4: FourIndexedOntology<Rc<AnnotatedAxiom>, RcCounting, RcCounting, RcCounting, RcCounting> =
        FourIndexedOntology::new(
        CountingIndex::default(),
        CountingIndex::default(),
        CountingIndex::default(),
        CountingIndex::default(),
        Default::default(),
    );
    o4.insert(e.0.clone());
    o4.insert(e.0.clone());
    o4.insert(e.1.clone());
    o4.remove(&e.0);
    o4.remove(&e.2);
    let (c1, c2, c3, c4) = o4.index();
    for c in [&c1, &c2, &c3, &c4] {
        assert_eq!(c.inserts, 3);
        assert_eq!(c.removes, 2);
    }
}
