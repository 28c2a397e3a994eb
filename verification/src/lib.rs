//! Conversion of RDF triples into a JSON-LD document.
//!
//! A finite sequence of RDF triples (subject, predicate, object) is turned
//! into an ordered collection of per-subject JSON-LD node objects.  Each node
//! carries the subject key under `@id`, the values of `rdf:type` triples under
//! `@type` (a bare value when there is exactly one, an array otherwise), and
//! every other predicate as an array of object values, in input order.

pub mod convert;
pub mod document;
pub mod laws;
pub mod terms;
