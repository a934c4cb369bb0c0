//! The axiom value types shared by every index: IRIs, named entities,
//! annotated axioms, and the identity record of an ontology.

use vstd::prelude::*;

verus! {

/// An internationalized resource identifier, held as its text.
#[derive(Debug, PartialEq, Eq, PartialOrd, Ord, Hash)]
pub struct IRI {
    s: String,
}

impl View for IRI {
    type V = Seq<char>;

    closed spec fn view(&self) -> Seq<char> {
        self.s@
    }
}

impl IRI {
    /// Builds an IRI from its text.
    pub fn new(s: &str) -> (r: IRI)
        ensures
            r@ == s@,
    {
        IRI { s: s.to_owned() }
    }

    /// The text of the IRI.
    pub fn as_string(&self) -> (r: String)
        ensures
            r@ == self@,
    {
        self.s.clone()
    }
}

impl Clone for IRI {
    fn clone(&self) -> (r: Self)
        ensures
            r == *self,
    {
        IRI { s: self.s.clone() }
    }
}

/// The kinds of named entity that an ontology can declare.
#[derive(Clone, Copy, Debug, Hash, PartialEq, Eq, PartialOrd, Ord, Structural)]
pub enum EntityKind {
    Class,
    ObjectProperty,
    DataProperty,
    AnnotationProperty,
    NamedIndividual,
    Datatype,
}

/// The mathematical value of a named entity: its kind and the text of its IRI.
pub struct EntityV {
    pub kind: EntityKind,
    pub iri: Seq<char>,
}

/// A named entity: an entity kind together with the IRI that names it.
#[derive(Debug, PartialEq, Eq, PartialOrd, Ord, Hash)]
pub struct NamedEntity {
    pub kind: EntityKind,
    pub iri: IRI,
}

impl View for NamedEntity {
    type V = EntityV;

    open spec fn view(&self) -> EntityV {
        EntityV { kind: self.kind, iri: self.iri@ }
    }
}

impl NamedEntity {
    /// The kind of the entity.
    pub fn entity_kind(&self) -> (r: EntityKind)
        ensures
            r == self@.kind,
    {
        self.kind
    }
}

impl Clone for NamedEntity {
    fn clone(&self) -> (r: Self)
        ensures
            r == *self,
    {
        NamedEntity { kind: self.kind, iri: self.iri.clone() }
    }
}

/// The mathematical value of an annotated axiom.
pub struct AxiomV {
    pub entity: EntityV,
}

/// An annotated logical statement: here, the declaration of a named entity.
///
/// The indexes treat this type as an opaque, fully comparable value.
#[derive(Debug, Eq, PartialOrd, Ord, Hash)]
pub struct AnnotatedAxiom {
    pub entity: NamedEntity,
}

impl View for AnnotatedAxiom {
    type V = AxiomV;

    open spec fn view(&self) -> AxiomV {
        AxiomV { entity: self.entity@ }
    }
}

impl Clone for AnnotatedAxiom {
    fn clone(&self) -> (r: Self)
        ensures
            r == *self,
    {
        AnnotatedAxiom { entity: self.entity.clone() }
    }
}

impl PartialEq for AnnotatedAxiom {
    fn eq(&self, other: &Self) -> (r: bool) {
        self.entity.kind == other.entity.kind && self.entity.iri.as_string()
            == other.entity.iri.as_string()
    }
}

impl vstd::std_specs::cmp::PartialEqSpecImpl for AnnotatedAxiom {
    open spec fn obeys_eq_spec() -> bool {
        true
    }

    open spec fn eq_spec(&self, other: &Self) -> bool {
        self@ == other@
    }
}

impl From<NamedEntity> for AnnotatedAxiom {
    fn from(entity: NamedEntity) -> (r: Self) {
        AnnotatedAxiom { entity }
    }
}

impl vstd::std_specs::convert::FromSpecImpl<NamedEntity> for AnnotatedAxiom {
    open spec fn obeys_from_spec() -> bool {
        true
    }

    open spec fn from_spec(entity: NamedEntity) -> Self {
        AnnotatedAxiom { entity }
    }
}

/// The identity record of an ontology: its identifier IRI and, when present,
/// its version IRI.
pub struct OntologyID {
    pub iri: Option<IRI>,
    pub viri: Option<IRI>,
}

impl Default for OntologyID {
    /// An identity record with neither identifier nor version IRI.
    fn default() -> (r: Self)
        ensures
            r.iri is None,
            r.viri is None,
    {
        OntologyID { iri: None, viri: None }
    }
}

impl Clone for OntologyID {
    fn clone(&self) -> (r: Self)
        ensures
            r == *self,
    {
        OntologyID {
            iri: match &self.iri {
                Some(i) => Some(i.clone()),
                None => None,
            },
            viri: match &self.viri {
                Some(i) => Some(i.clone()),
                None => None,
            },
        }
    }
}

/// A constraining facet of a datatype restriction.
#[derive(Clone, Copy, Debug, Hash, PartialEq, Eq, Structural)]
pub enum Facet {
    Length,
    MinLength,
    MaxLength,
    Pattern,
    MinInclusive,
    MinExclusive,
    MaxInclusive,
    MaxExclusive,
    TotalDigits,
    FractionDigits,
    LangRange,
}

/// A factory for named entities.
pub struct Build {}

impl Build {
    pub fn new() -> (r: Build) {
        Build {  }
    }

    /// A class entity with the given IRI.
    pub fn class(&self, iri: &str) -> (r: NamedEntity)
        ensures
            r@ == (EntityV { kind: EntityKind::Class, iri: iri@ }),
    {
        NamedEntity { kind: EntityKind::Class, iri: IRI::new(iri) }
    }

    /// An object property entity with the given IRI.
    pub fn object_property(&self, iri: &str) -> (r: NamedEntity)
        ensures
            r@ == (EntityV { kind: EntityKind::ObjectProperty, iri: iri@ }),
    {
        NamedEntity { kind: EntityKind::ObjectProperty, iri: IRI::new(iri) }
    }

    /// A data property entity with the given IRI.
    pub fn data_property(&self, iri: &str) -> (r: NamedEntity)
        ensures
            r@ == (EntityV { kind: EntityKind::DataProperty, iri: iri@ }),
    {
        NamedEntity { kind: EntityKind::DataProperty, iri: IRI::new(iri) }
    }

    /// An annotation property entity with the given IRI.
    pub fn annotation_property(&self, iri: &str) -> (r: NamedEntity)
        ensures
            r@ == (EntityV { kind: EntityKind::AnnotationProperty, iri: iri@ }),
    {
        NamedEntity { kind: EntityKind::AnnotationProperty, iri: IRI::new(iri) }
    }

    /// A named individual entity with the given IRI.
    pub fn named_individual(&self, iri: &str) -> (r: NamedEntity)
        ensures
            r@ == (EntityV { kind: EntityKind::NamedIndividual, iri: iri@ }),
    {
        NamedEntity { kind: EntityKind::NamedIndividual, iri: IRI::new(iri) }
    }

    /// A datatype entity with the given IRI.
    pub fn datatype(&self, iri: &str) -> (r: NamedEntity)
        ensures
            r@ == (EntityV { kind: EntityKind::Datatype, iri: iri@ }),
    {
        NamedEntity { kind: EntityKind::Datatype, iri: IRI::new(iri) }
    }
}

} // verus!
