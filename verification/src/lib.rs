//! An in-memory, multi-index store for the annotated axioms of an ontology.
//!
//! A single logical collection of axioms can be observed through one to four
//! independent index structures at once.  Every insertion and removal is
//! forwarded to all of the indexes, in a fixed left-to-right order and without
//! short-circuiting, so that no index silently diverges from its siblings.
//!
//! The `model` module holds the axiom value types, the `ontology` module the
//! index contract and the composite containers, and the `vocab` module the
//! constant vocabulary tables together with the type-resolution lookup.

pub mod model;
pub mod ontology;
pub mod vocab;
