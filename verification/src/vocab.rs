//! The constant vocabulary tables: the namespaces and terms of the ontology
//! languages this library speaks, and the type-resolution lookup that turns a
//! type IRI and an entity IRI into a named entity.

use vstd::prelude::*;

use vstd::string::StrSliceExecFns;
use vstd::utf8::encode_utf8;

use crate::model::{Build, EntityKind, Facet, NamedEntity};

verus! {

/// Whether two strings hold the same text.
fn str_eq(a: &str, b: &str) -> (r: bool)
    ensures
        r == (a@ == b@),
{
    a.to_owned() == b.to_owned()
}

/// One IRI of the vocabulary tables, held as its text.
pub struct IRIString(pub String);

/// The capability of a vocabulary table: every variant names a constant IRI,
/// and a variant can be looked up from its IRI text or its IRI bytes.
pub trait WithIRI: Sized {
    /// The IRI text of this variant.
    spec fn spec_iri(&self) -> Seq<char>;

    /// All variants, in declaration order.
    spec fn spec_all() -> Seq<Self>;

    /// All variants, in declaration order.
    fn all() -> (r: Vec<Self>)
        ensures
            r@ == Self::spec_all(),
    ;

    /// Return a string representation of the IRI associated with this
    /// entity.
    fn iri_s(&self) -> (r: String)
        ensures
            r@ == self.spec_iri(),
    ;

    /// The IRI associated with this entity, as a string slice's text.
    fn iri_str(&self) -> (r: String)
        ensures
            r@ == self.spec_iri(),
    {
        self.iri_s()
    }

    /// The IRI associated with this entity, as its bytes.
    fn iri_b(&self) -> (r: Vec<u8>)
        ensures
            r@ == encode_utf8(self.spec_iri()),
    {
        let s = self.iri_s();
        s.as_str().as_bytes_vec()
    }

    /// The variant whose IRI text equals `tag`, if any.
    fn var_s(tag: &str) -> (r: Option<Self>)
        ensures
            match r {
                Some(v) => Self::spec_all().contains(v) && v.spec_iri() == tag@,
                None => forall|q: int|
                    0 <= q < Self::spec_all().len() ==> Self::spec_all()[q].spec_iri() != tag@,
            },
    {
        let mut all = Self::all();
        let mut p: usize = 0;
        while p < all.len()
            invariant
                p <= all@.len(),
                all@ == Self::spec_all(),
                forall|q: int| 0 <= q < p ==> Self::spec_all()[q].spec_iri() != tag@,
            decreases all@.len() - p,
        {
            if str_eq(all[p].iri_s().as_str(), tag) {
                let v = all.remove(p);
                proof {
                    assert(Self::spec_all().contains(v));
                }
                return Some(v);
            }
            p += 1;
        }
        None
    }

    /// The variant whose IRI bytes equal `tag`, if any.
    fn var_b(tag: &[u8]) -> (r: Option<Self>)
        ensures
            match r {
                Some(v) => Self::spec_all().contains(v) && encode_utf8(v.spec_iri()) == tag@,
                None => forall|q: int|
                    0 <= q < Self::spec_all().len() ==> encode_utf8(
                        Self::spec_all()[q].spec_iri(),
                    ) != tag@,
            },
    {
        let mut all = Self::all();
        let mut p: usize = 0;
        while p < all.len()
            invariant
                p <= all@.len(),
                all@ == Self::spec_all(),
                forall|q: int|
                    0 <= q < p ==> encode_utf8(Self::spec_all()[q].spec_iri()) != tag@,
            decreases all@.len() - p,
        {
            let b = all[p].iri_b();
            if bytes_eq(b.as_slice(), tag) {
                let v = all.remove(p);
                proof {
                    assert(Self::spec_all().contains(v));
                }
                return Some(v);
            }
            p += 1;
        }
        None
    }
}

/// Whether two byte slices hold the same bytes.
fn bytes_eq(a: &[u8], b: &[u8]) -> (r: bool)
    ensures
        r == (a@ == b@),
{
    if a.len() != b.len() {
        return false;
    }
    let mut p: usize = 0;
    while p < a.len()
        invariant
            p <= a@.len(),
            a@.len() == b@.len(),
            forall|q: int| 0 <= q < p ==> a@[q] == b@[q],
        decreases a@.len() - p,
    {
        if a[p] != b[p] {
            return false;
        }
        p += 1;
    }
    proof {
        assert(a@ =~= b@);
    }
    true
}

/// The namespaces of the vocabulary.
#[derive(Debug, Eq, PartialEq)]
pub enum Namespace {
    OWL,
    RDF,
    RDFS,
    XSD,
}

impl WithIRI for Namespace {
    open spec fn spec_iri(&self) -> Seq<char> {
        match self {
            Namespace::OWL => "http://www.w3.org/2002/07/owl#"@,
            Namespace::RDF => "http://www.w3.org/1999/02/22-rdf-syntax-ns#"@,
            Namespace::RDFS => "http://www.w3.org/2000/01/rdf-schema#"@,
            Namespace::XSD => "http://www.w3.org/2001/XMLSchema#"@,
        }
    }

    open spec fn spec_all() -> Seq<Self> {
        seq![Namespace::OWL, Namespace::RDF, Namespace::RDFS, Namespace::XSD]
    }

    fn all() -> (r: Vec<Self>) {
        let mut v = Vec::new();
        v.push(Namespace::OWL);
        v.push(Namespace::RDF);
        v.push(Namespace::RDFS);
        v.push(Namespace::XSD);
        proof {
            assert(v@ =~= Self::spec_all());
        }
        v
    }

    fn iri_s(&self) -> (r: String) {
        match self {
            Namespace::OWL => "http://www.w3.org/2002/07/owl#".to_owned(),
            Namespace::RDF => "http://www.w3.org/1999/02/22-rdf-syntax-ns#".to_owned(),
            Namespace::RDFS => "http://www.w3.org/2000/01/rdf-schema#".to_owned(),
            Namespace::XSD => "http://www.w3.org/2001/XMLSchema#".to_owned(),
        }
    }
}

/// The terms this library uses from the RDF vocabulary.
#[derive(Debug, Eq, PartialEq)]
pub enum RDF {
    First,
    Nil,
    Rest,
    Type,
}

impl WithIRI for RDF {
    open spec fn spec_iri(&self) -> Seq<char> {
        match self {
            RDF::First => "http://www.w3.org/1999/02/22-rdf-syntax-ns#first"@,
            RDF::Nil => "http://www.w3.org/1999/02/22-rdf-syntax-ns#nil"@,
            RDF::Rest => "http://www.w3.org/1999/02/22-rdf-syntax-ns#rest"@,
            RDF::Type => "http://www.w3.org/1999/02/22-rdf-syntax-ns#type"@,
        }
    }

    open spec fn spec_all() -> Seq<Self> {
        seq![RDF::First, RDF::Nil, RDF::Rest, RDF::Type]
    }

    fn all() -> (r: Vec<Self>) {
        let mut v = Vec::new();
        v.push(RDF::First);
        v.push(RDF::Nil);
        v.push(RDF::Rest);
        v.push(RDF::Type);
        proof {
            assert(v@ =~= Self::spec_all());
        }
        v
    }

    fn iri_s(&self) -> (r: String) {
        match self {
            RDF::First => "http://www.w3.org/1999/02/22-rdf-syntax-ns#first".to_owned(),
            RDF::Nil => "http://www.w3.org/1999/02/22-rdf-syntax-ns#nil".to_owned(),
            RDF::Rest => "http://www.w3.org/1999/02/22-rdf-syntax-ns#rest".to_owned(),
            RDF::Type => "http://www.w3.org/1999/02/22-rdf-syntax-ns#type".to_owned(),
        }
    }
}

/// The terms this library uses from the RDF Schema vocabulary.
#[derive(Debug, Eq, PartialEq)]
pub enum RDFS {
    SubClassOf,
}

impl WithIRI for RDFS {
    open spec fn spec_iri(&self) -> Seq<char> {
        match self {
            RDFS::SubClassOf => "http://www.w3.org/2000/01/rdf-schema#subClassOf"@,
        }
    }

    open spec fn spec_all() -> Seq<Self> {
        seq![RDFS::SubClassOf]
    }

    fn all() -> (r: Vec<Self>) {
        let mut v = Vec::new();
        v.push(RDFS::SubClassOf);
        proof {
            assert(v@ =~= Self::spec_all());
        }
        v
    }

    fn iri_s(&self) -> (r: String) {
        match self {
            RDFS::SubClassOf => "http://www.w3.org/2000/01/rdf-schema#subClassOf".to_owned(),
        }
    }
}

/// The terms this library uses from the OWL vocabulary.
#[derive(Debug, Eq, PartialEq)]
pub enum OWL {
    // Lower case
    AllValuesFrom,
    AnnotatedSource,
    AnnotatedProperty,
    AnnotatedTarget,
    IntersectionOf,
    OnProperty,
    SomeValuesFrom,
    // Upper Case
    Axiom,
    Class,
    Datatype,
    DatatypeProperty,
    Nothing,
    ObjectProperty,
    Ontology,
    Restriction,
    Thing,
    VersionIRI,
}

impl WithIRI for OWL {
    open spec fn spec_iri(&self) -> Seq<char> {
        match self {
            OWL::AllValuesFrom => "http://www.w3.org/2002/07/owl#allValuesFrom"@,
            OWL::AnnotatedSource => "http://www.w3.org/2002/07/owl#annotatedSource"@,
            OWL::AnnotatedProperty => "http://www.w3.org/2002/07/owl#annotatedProperty"@,
            OWL::AnnotatedTarget => "http://www.w3.org/2002/07/owl#annotatedTarget"@,
            OWL::IntersectionOf => "http://www.w3.org/2002/07/owl#intersectionOf"@,
            OWL::OnProperty => "http://www.w3.org/2002/07/owl#onProperty"@,
            OWL::SomeValuesFrom => "http://www.w3.org/2002/07/owl#someValuesFrom"@,
            OWL::Axiom => "http://www.w3.org/2002/07/owl#Axiom"@,
            OWL::Class => "http://www.w3.org/2002/07/owl#Class"@,
            OWL::Datatype => "http://www.w3.org/2002/07/owl#Datatype"@,
            OWL::DatatypeProperty => "http://www.w3.org/2002/07/owl#DatatypeProperty"@,
            OWL::Nothing => "http://www.w3.org/2002/07/owl#Nothing"@,
            OWL::ObjectProperty => "http://www.w3.org/2002/07/owl#ObjectProperty"@,
            OWL::Ontology => "http://www.w3.org/2002/07/owl#Ontology"@,
            OWL::Restriction => "http://www.w3.org/2002/07/owl#Restriction"@,
            OWL::Thing => "http://www.w3.org/2002/07/owl#Thing"@,
            OWL::VersionIRI => "http://www.w3.org/2002/07/owl#versionIRI"@,
        }
    }

    open spec fn spec_all() -> Seq<Self> {
        seq![
            OWL::AllValuesFrom,
            OWL::AnnotatedSource,
            OWL::AnnotatedProperty,
            OWL::AnnotatedTarget,
            OWL::IntersectionOf,
            OWL::OnProperty,
            OWL::SomeValuesFrom,
            OWL::Axiom,
            OWL::Class,
            OWL::Datatype,
            OWL::DatatypeProperty,
            OWL::Nothing,
            OWL::ObjectProperty,
            OWL::Ontology,
            OWL::Restriction,
            OWL::Thing,
            OWL::VersionIRI,
        ]
    }

    fn all() -> (r: Vec<Self>) {
        let mut v = Vec::new();
        v.push(OWL::AllValuesFrom);
        v.push(OWL::AnnotatedSource);
        v.push(OWL::AnnotatedProperty);
        v.push(OWL::AnnotatedTarget);
        v.push(OWL::IntersectionOf);
        v.push(OWL::OnProperty);
        v.push(OWL::SomeValuesFrom);
        v.push(OWL::Axiom);
        v.push(OWL::Class);
        v.push(OWL::Datatype);
        v.push(OWL::DatatypeProperty);
        v.push(OWL::Nothing);
        v.push(OWL::ObjectProperty);
        v.push(OWL::Ontology);
        v.push(OWL::Restriction);
        v.push(OWL::Thing);
        v.push(OWL::VersionIRI);
        proof {
            assert(v@ =~= Self::spec_all());
        }
        v
    }

    fn iri_s(&self) -> (r: String) {
        match self {
            OWL::AllValuesFrom => "http://www.w3.org/2002/07/owl#allValuesFrom".to_owned(),
            OWL::AnnotatedSource => "http://www.w3.org/2002/07/owl#annotatedSource".to_owned(),
            OWL::AnnotatedProperty => "http://www.w3.org/2002/07/owl#annotatedProperty".to_owned(),
            OWL::AnnotatedTarget => "http://www.w3.org/2002/07/owl#annotatedTarget".to_owned(),
            OWL::IntersectionOf => "http://www.w3.org/2002/07/owl#intersectionOf".to_owned(),
            OWL::OnProperty => "http://www.w3.org/2002/07/owl#onProperty".to_owned(),
            OWL::SomeValuesFrom => "http://www.w3.org/2002/07/owl#someValuesFrom".to_owned(),
            OWL::Axiom => "http://www.w3.org/2002/07/owl#Axiom".to_owned(),
            OWL::Class => "http://www.w3.org/2002/07/owl#Class".to_owned(),
            OWL::Datatype => "http://www.w3.org/2002/07/owl#Datatype".to_owned(),
            OWL::DatatypeProperty => "http://www.w3.org/2002/07/owl#DatatypeProperty".to_owned(),
            OWL::Nothing => "http://www.w3.org/2002/07/owl#Nothing".to_owned(),
            OWL::ObjectProperty => "http://www.w3.org/2002/07/owl#ObjectProperty".to_owned(),
            OWL::Ontology => "http://www.w3.org/2002/07/owl#Ontology".to_owned(),
            OWL::Restriction => "http://www.w3.org/2002/07/owl#Restriction".to_owned(),
            OWL::Thing => "http://www.w3.org/2002/07/owl#Thing".to_owned(),
            OWL::VersionIRI => "http://www.w3.org/2002/07/owl#versionIRI".to_owned(),
        }
    }
}

/// The datatypes of the OWL 2 vocabulary this library names.
#[derive(Debug, Eq, PartialEq)]
pub enum OWL2Datatype {
    RDFSLiteral,
}

impl WithIRI for OWL2Datatype {
    open spec fn spec_iri(&self) -> Seq<char> {
        match self {
            OWL2Datatype::RDFSLiteral => "http://www.w3.org/2000/01/rdf-schema#Literal"@,
        }
    }

    open spec fn spec_all() -> Seq<Self> {
        seq![OWL2Datatype::RDFSLiteral]
    }

    fn all() -> (r: Vec<Self>) {
        let mut v = Vec::new();
        v.push(OWL2Datatype::RDFSLiteral);
        proof {
            assert(v@ =~= Self::spec_all());
        }
        v
    }

    fn iri_s(&self) -> (r: String) {
        match self {
            OWL2Datatype::RDFSLiteral => "http://www.w3.org/2000/01/rdf-schema#Literal".to_owned(),
        }
    }
}

/// The annotation properties built into the ontology language.
#[derive(Debug, Eq, PartialEq)]
pub enum AnnotationBuiltIn {
    LABEL,
    COMMENT,
    SEEALSO,
    ISDEFINEDBY,
    DEPRECATED,
    VERSIOINFO,
    PRIORVERSION,
    BACKWARDCOMPATIBLEWITH,
    INCOMPATIBLEWITH,
}

impl WithIRI for AnnotationBuiltIn {
    open spec fn spec_iri(&self) -> Seq<char> {
        match self {
            AnnotationBuiltIn::LABEL => "http://www.w3.org/2000/01/rdf-schema#label"@,
            AnnotationBuiltIn::COMMENT => "http://www.w3.org/2000/01/rdf-schema#comment"@,
            AnnotationBuiltIn::SEEALSO => "http://www.w3.org/2000/01/rdf-schema#seeAlso"@,
            AnnotationBuiltIn::ISDEFINEDBY => "http://www.w3.org/2000/01/rdf-schema#isDefinedBy"@,
            AnnotationBuiltIn::DEPRECATED => "http://www.w3.org/2002/07/owl#deprecated"@,
            AnnotationBuiltIn::VERSIOINFO => "http://www.w3.org/2002/07/owl#versionInfo"@,
            AnnotationBuiltIn::PRIORVERSION => "http://www.w3.org/2002/07/owl#priorVersion"@,
            AnnotationBuiltIn::BACKWARDCOMPATIBLEWITH
                => "http://www.w3.org/2002/07/owl#backwardCompatibleWith"@,
            AnnotationBuiltIn::INCOMPATIBLEWITH
                => "http://www.w3.org/2002/07/owl#incompatibleWith"@,
        }
    }

    open spec fn spec_all() -> Seq<Self> {
        seq![
            AnnotationBuiltIn::LABEL,
            AnnotationBuiltIn::COMMENT,
            AnnotationBuiltIn::SEEALSO,
            AnnotationBuiltIn::ISDEFINEDBY,
            AnnotationBuiltIn::DEPRECATED,
            AnnotationBuiltIn::VERSIOINFO,
            AnnotationBuiltIn::PRIORVERSION,
            AnnotationBuiltIn::BACKWARDCOMPATIBLEWITH,
            AnnotationBuiltIn::INCOMPATIBLEWITH,
        ]
    }

    fn all() -> (r: Vec<Self>) {
        let mut v = Vec::new();
        v.push(AnnotationBuiltIn::LABEL);
        v.push(AnnotationBuiltIn::COMMENT);
        v.push(AnnotationBuiltIn::SEEALSO);
        v.push(AnnotationBuiltIn::ISDEFINEDBY);
        v.push(AnnotationBuiltIn::DEPRECATED);
        v.push(AnnotationBuiltIn::VERSIOINFO);
        v.push(AnnotationBuiltIn::PRIORVERSION);
        v.push(AnnotationBuiltIn::BACKWARDCOMPATIBLEWITH);
        v.push(AnnotationBuiltIn::INCOMPATIBLEWITH);
        proof {
            assert(v@ =~= Self::spec_all());
        }
        v
    }

    fn iri_s(&self) -> (r: String) {
        match self {
            AnnotationBuiltIn::LABEL => "http://www.w3.org/2000/01/rdf-schema#label".to_owned(),
            AnnotationBuiltIn::COMMENT => "http://www.w3.org/2000/01/rdf-schema#comment".to_owned(),
            AnnotationBuiltIn::SEEALSO => "http://www.w3.org/2000/01/rdf-schema#seeAlso".to_owned(),
            AnnotationBuiltIn::ISDEFINEDBY
                => "http://www.w3.org/2000/01/rdf-schema#isDefinedBy".to_owned(),
            AnnotationBuiltIn::DEPRECATED => "http://www.w3.org/2002/07/owl#deprecated".to_owned(),
            AnnotationBuiltIn::VERSIOINFO => "http://www.w3.org/2002/07/owl#versionInfo".to_owned(),
            AnnotationBuiltIn::PRIORVERSION
                => "http://www.w3.org/2002/07/owl#priorVersion".to_owned(),
            AnnotationBuiltIn::BACKWARDCOMPATIBLEWITH
                => "http://www.w3.org/2002/07/owl#backwardCompatibleWith".to_owned(),
            AnnotationBuiltIn::INCOMPATIBLEWITH
                => "http://www.w3.org/2002/07/owl#incompatibleWith".to_owned(),
        }
    }
}

impl WithIRI for Facet {
    open spec fn spec_iri(&self) -> Seq<char> {
        match self {
            Facet::Length => "http://www.w3.org/2001/XMLSchema#length"@,
            Facet::MinLength => "http://www.w3.org/2001/XMLSchema#minLength"@,
            Facet::MaxLength => "http://www.w3.org/2001/XMLSchema#maxLength"@,
            Facet::Pattern => "http://www.w3.org/2001/XMLSchema#pattern"@,
            Facet::MinInclusive => "http://www.w3.org/2001/XMLSchema#minInclusive"@,
            Facet::MinExclusive => "http://www.w3.org/2001/XMLSchema#minExclusive"@,
            Facet::MaxInclusive => "http://www.w3.org/2001/XMLSchema#maxInclusive"@,
            Facet::MaxExclusive => "http://www.w3.org/2001/XMLSchema#maxExclusive"@,
            Facet::TotalDigits => "http://www.w3.org/2001/XMLSchema#totalDigits"@,
            Facet::FractionDigits => "http://www.w3.org/2001/XMLSchema#fractionDigits"@,
            Facet::LangRange => "http://www.w3.org/1999/02/22-rdf-syntax-ns#langRange"@,
        }
    }

    open spec fn spec_all() -> Seq<Self> {
        seq![
            Facet::Length,
            Facet::MinLength,
            Facet::MaxLength,
            Facet::Pattern,
            Facet::MinInclusive,
            Facet::MinExclusive,
            Facet::MaxInclusive,
            Facet::MaxExclusive,
            Facet::TotalDigits,
            Facet::FractionDigits,
            Facet::LangRange,
        ]
    }

    fn all() -> (r: Vec<Self>) {
        let mut v = Vec::new();
        v.push(Facet::Length);
        v.push(Facet::MinLength);
        v.push(Facet::MaxLength);
        v.push(Facet::Pattern);
        v.push(Facet::MinInclusive);
        v.push(Facet::MinExclusive);
        v.push(Facet::MaxInclusive);
        v.push(Facet::MaxExclusive);
        v.push(Facet::TotalDigits);
        v.push(Facet::FractionDigits);
        v.push(Facet::LangRange);
        proof {
            assert(v@ =~= Self::spec_all());
        }
        v
    }

    fn iri_s(&self) -> (r: String) {
        match self {
            Facet::Length => "http://www.w3.org/2001/XMLSchema#length".to_owned(),
            Facet::MinLength => "http://www.w3.org/2001/XMLSchema#minLength".to_owned(),
            Facet::MaxLength => "http://www.w3.org/2001/XMLSchema#maxLength".to_owned(),
            Facet::Pattern => "http://www.w3.org/2001/XMLSchema#pattern".to_owned(),
            Facet::MinInclusive => "http://www.w3.org/2001/XMLSchema#minInclusive".to_owned(),
            Facet::MinExclusive => "http://www.w3.org/2001/XMLSchema#minExclusive".to_owned(),
            Facet::MaxInclusive => "http://www.w3.org/2001/XMLSchema#maxInclusive".to_owned(),
            Facet::MaxExclusive => "http://www.w3.org/2001/XMLSchema#maxExclusive".to_owned(),
            Facet::TotalDigits => "http://www.w3.org/2001/XMLSchema#totalDigits".to_owned(),
            Facet::FractionDigits => "http://www.w3.org/2001/XMLSchema#fractionDigits".to_owned(),
            Facet::LangRange => "http://www.w3.org/1999/02/22-rdf-syntax-ns#langRange".to_owned(),
        }
    }
}

/// Whether the IRI is one of the built-in annotation properties.
pub open spec fn spec_is_annotation_builtin(iri: Seq<char>) -> bool {
    exists|q: int|
        0 <= q < AnnotationBuiltIn::spec_all().len() && AnnotationBuiltIn::spec_all()[q].spec_iri()
            == iri
}

/// Whether the IRI names one of the built-in annotation properties.
pub fn is_annotation_builtin(iri: &String) -> (r: bool)
    ensures
        r == spec_is_annotation_builtin(iri@),
{
    match AnnotationBuiltIn::var_s(iri.as_str()) {
        Some(v) => {
            proof {
                let q = choose|q: int|
                    0 <= q < AnnotationBuiltIn::spec_all().len()
                        && AnnotationBuiltIn::spec_all()[q] == v;
                assert(AnnotationBuiltIn::spec_all()[q].spec_iri() == iri@);
            }
            true
        },
        None => false,
    }
}

/// The failure of the type-resolution lookup: the type IRI does not name a
/// recognized kind of entity.
#[derive(Clone, Copy, Debug, PartialEq, Eq, Structural)]
pub enum EntityTypeError {
    /// The type IRI is too short to hold a recognized suffix.
    TooShort,
    /// The type IRI's suffix names no recognized kind of entity.
    Unrecognized,
}

/// The kind of entity a type IRI resolves to, if any: the datatype IRI is
/// recognized whole, every other type IRI by the text that follows its first
/// thirty characters, the length of the OWL namespace prefix.
pub open spec fn spec_entity_kind(t: Seq<char>) -> Option<EntityKind> {
    if t == "http://www.w3.org/2000/01/rdf-schema#Datatype"@ {
        Some(EntityKind::Datatype)
    } else if t.len() < 30 {
        None
    } else {
        let suffix = t.subrange(30, t.len() as int);
        if suffix == "Class"@ {
            Some(EntityKind::Class)
        } else if suffix == "ObjectProperty"@ {
            Some(EntityKind::ObjectProperty)
        } else if suffix == "DatatypeProperty"@ {
            Some(EntityKind::DataProperty)
        } else if suffix == "AnnotationProperty"@ {
            Some(EntityKind::AnnotationProperty)
        } else if suffix == "NamedIndividual"@ {
            Some(EntityKind::NamedIndividual)
        } else {
            None
        }
    }
}

/// Resolve a type IRI and an entity IRI to a named entity.  Succeeds exactly
/// when the type IRI names a recognized kind of entity, and then yields the
/// entity of that kind named by the entity IRI; fails otherwise, telling a
/// too-short type IRI apart from an unrecognized suffix.
pub fn entity_for_iri(type_iri: &str, entity_iri: &str, b: &Build) -> (r: Result<
    NamedEntity,
    EntityTypeError,
>)
    ensures
        match r {
            Ok(e) => spec_entity_kind(type_iri@) == Some(e@.kind) && e@.iri == entity_iri@,
            Err(err) => spec_entity_kind(type_iri@) is None && (err == EntityTypeError::TooShort
                <==> type_iri@.len() < 30),
        },
{
    // Datatypes are handled here because they are not a "type" but an "RDF
    // schema" element.
    if str_eq(type_iri, "http://www.w3.org/2000/01/rdf-schema#Datatype") {
        return Ok(b.datatype(entity_iri));
    }
    let n = type_iri.unicode_len();
    if n < 30 {
        return Err(EntityTypeError::TooShort);
    }
    let suffix = type_iri.substring_char(30, n);
    if str_eq(suffix, "Class") {
        Ok(b.class(entity_iri))
    } else if str_eq(suffix, "ObjectProperty") {
        Ok(b.object_property(entity_iri))
    } else if str_eq(suffix, "DatatypeProperty") {
        Ok(b.data_property(entity_iri))
    } else if str_eq(suffix, "AnnotationProperty") {
        Ok(b.annotation_property(entity_iri))
    } else if str_eq(suffix, "NamedIndividual") {
        Ok(b.named_individual(entity_iri))
    } else {
        Err(EntityTypeError::Unrecognized)
    }
}

} // verus!
