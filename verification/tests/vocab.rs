use horned_owl::model::{Build, EntityKind, Facet};
use horned_owl::vocab::{
    entity_for_iri, is_annotation_builtin, AnnotationBuiltIn, EntityTypeError, Namespace,
    OWL2Datatype, WithIRI, OWL, RDF, RDFS,
};

#[test]
fn meta_testing() {
    assert_eq!("http://www.w3.org/2002/07/owl#", Namespace::OWL.iri_s());
    assert_eq!(
        b"http://www.w3.org/2002/07/owl#".to_vec(),
        Namespace::OWL.iri_b()
    );

    assert_eq!(
        Namespace::var_s("http://www.w3.org/2002/07/owl#").unwrap(),
        Namespace::OWL
    );

    assert_eq!(
        Namespace::var_b(b"http://www.w3.org/2002/07/owl#").unwrap(),
        Namespace::OWL
    );
}

#[test]
fn test_entity_for_iri() {
    let b = Build::new();

    assert!(entity_for_iri(
        "http://www.w3.org/2002/07/owl#Class",
        "http://www.example.com",
        &b
    )
    .is_ok());
    assert!(entity_for_iri(
        "http://www.w3.org/2002/07/owl#Fred",
        "http://www.example.com",
        &b
    )
    .is_err());
}

#[test]
fn annotation_builtin() {
    assert!(is_annotation_builtin(
        &"http://www.w3.org/2002/07/owl#deprecated".to_string()
    ));
    assert!(is_annotation_builtin(
        &"http://www.w3.org/2000/01/rdf-schema#comment".to_string()
    ));
    assert!(!is_annotation_builtin(
        &"http://www.w3.org/2002/07/owl#fred".to_string()
    ));
}

#[test]
fn facet_meta() {
    assert_eq!(
        Facet::MinLength.iri_s(),
        "http://www.w3.org/2001/XMLSchema#minLength"
    );

    assert_eq!(
        Facet::Pattern.iri_s(),
        "http://www.w3.org/2001/XMLSchema#pattern"
    );

    assert_eq!(
        Facet::var_s(&"http://www.w3.org/2001/XMLSchema#pattern".to_string()).unwrap(),
        Facet::Pattern
    );

    assert_eq!(
        Facet::var_b(b"http://www.w3.org/2001/XMLSchema#minExclusive").unwrap(),
        Facet::MinExclusive
    );
}

#[test]
fn term_iris() {
    assert_eq!(OWL::Class.iri_s(), "http://www.w3.org/2002/07/owl#Class");
    assert_eq!(
        OWL::var_s("http://www.w3.org/2002/07/owl#versionIRI").unwrap(),
        OWL::VersionIRI
    );
    assert_eq!(
        RDF::Type.iri_s(),
        "http://www.w3.org/1999/02/22-rdf-syntax-ns#type"
    );
    assert_eq!(
        RDFS::SubClassOf.iri_s(),
        "http://www.w3.org/2000/01/rdf-schema#subClassOf"
    );
    assert_eq!(
        OWL2Datatype::RDFSLiteral.iri_s(),
        "http://www.w3.org/2000/01/rdf-schema#Literal"
    );
    assert_eq!(
        AnnotationBuiltIn::LABEL.iri_str(),
        "http://www.w3.org/2000/01/rdf-schema#label"
    );
}

#[test]
fn entity_for_iri_kinds() {
    let b = Build::new();

    let e = entity_for_iri(
        "http://www.w3.org/2002/07/owl#Class",
        "http://www.example.com/c",
        &b,
    )
    .unwrap();
    assert_eq!(e.entity_kind(), EntityKind::Class);

    let e = entity_for_iri(
        "http://www.w3.org/2002/07/owl#ObjectProperty",
        "http://www.example.com/p",
        &b,
    )
    .unwrap();
    assert_eq!(e.entity_kind(), EntityKind::ObjectProperty);

    let e = entity_for_iri(
        "http://www.w3.org/2000/01/rdf-schema#Datatype",
        "http://www.example.com/d",
        &b,
    )
    .unwrap();
    assert_eq!(e.entity_kind(), EntityKind::Datatype);
}

#[test]
fn entity_for_iri_errors() {
    let b = Build::new();

    assert_eq!(
        entity_for_iri("http://short", "http://www.example.com", &b),
        Err(EntityTypeError::TooShort)
    );
    assert_eq!(
        entity_for_iri(
            "http://www.w3.org/2002/07/owl#Fred",
            "http://www.example.com",
            &b
        ),
        Err(EntityTypeError::Unrecognized)
    );
}

#[test]
fn var_lookup_misses() {
    assert!(Namespace::var_s("http://www.example.com/ns#").is_none());
    assert!(AnnotationBuiltIn::var_b(b"http://www.example.com/ns#label").is_none());
}
