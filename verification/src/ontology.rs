//! Index structures over the axioms of an ontology, and the composite
//! containers that keep one to four of them consistent under mutation.

pub mod indexed;
pub mod set;
