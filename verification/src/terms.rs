//! The input side of the conversion: RDF terms, triples, and the term
//! classifier that maps a term to its subject key or JSON-LD object value.

use vstd::prelude::*;
use crate::document::{ObjectValue, ObjectValueView, TypeEntry, TypeEntryView};

verus! {

/// An RDF subject: a named node (an IRI) or a blank node (a document-local
/// identifier, without the `_:` prefix).
#[derive(Debug, Clone, PartialEq, Eq)]
pub enum Subject {
    NamedNode(String),
    BlankNode(String),
}

/// An RDF literal: a lexical value with a datatype IRI and an optional
/// language tag.
#[derive(Debug, Clone, PartialEq, Eq)]
pub struct Literal {
    pub value: String,
    pub datatype: String,
    pub language: Option<String>,
}

/// An RDF object term.  Named nodes, blank nodes and literals are the
/// supported kinds; `Unsupported` stands for every other term kind (such as a
/// quoted triple), whose triples the conversion drops entirely.
#[derive(Debug, Clone, PartialEq, Eq)]
pub enum Term {
    NamedNode(String),
    BlankNode(String),
    Literal(Literal),
    Unsupported,
}

/// One RDF statement: subject, predicate (an IRI), object.
#[derive(Debug, Clone, PartialEq, Eq)]
pub struct Triple {
    pub subject: Subject,
    pub predicate: String,
    pub object: Term,
}

/// The failure reported when the triple source cannot produce its next
/// element.  It aborts the whole conversion.
#[derive(Debug, Clone, PartialEq, Eq)]
pub struct SourceError {
    pub message: String,
}

/// The IRI of the `rdf:type` predicate, whose values are collected under the
/// JSON-LD `@type` key.
pub open spec fn rdf_type_iri() -> Seq<char> {
    "http://www.w3.org/1999/02/22-rdf-syntax-ns#type"@
}

/// The subject key: the IRI itself for a named node, `"_:" + local-id` for a
/// blank node.
pub open spec fn subject_key(s: Subject) -> Seq<char> {
    match s {
        Subject::NamedNode(iri) => iri@,
        Subject::BlankNode(local) => "_:"@ + local@,
    }
}

/// Whether an object term is one of the three supported kinds.  A triple
/// whose object is of any other kind is dropped by the conversion.
pub open spec fn supported_object(t: Term) -> bool {
    !(t is Unsupported)
}

/// The JSON-LD object value of a supported object term:
/// named node `{"@id": iri}`, blank node `{"@id": "_:" + local-id}`,
/// literal with language `{"@value": v, "@language": tag}`,
/// literal without language `{"@value": v, "@type": datatype}`.
pub open spec fn object_value(t: Term) -> ObjectValueView
    recommends
        supported_object(t),
{
    match t {
        Term::NamedNode(iri) => ObjectValueView::Id(iri@),
        Term::BlankNode(local) => ObjectValueView::Id("_:"@ + local@),
        Term::Literal(l) => match l.language {
            Some(tag) => ObjectValueView::LangLiteral { value: l.value@, language: tag@ },
            None => ObjectValueView::TypedLiteral { value: l.value@, datatype: l.datatype@ },
        },
        Term::Unsupported => arbitrary(),
    }
}

/// The `@type` entry of an `rdf:type` triple: the `@id` extracted from the
/// object value.  A literal object of `rdf:type` has no `@id`; the absent
/// value is kept as `Missing` (rendered as JSON null), not an error.
pub open spec fn type_entry(t: Term) -> TypeEntryView
    recommends
        supported_object(t),
{
    match object_value(t) {
        ObjectValueView::Id(id) => TypeEntryView::Iri(id),
        _ => TypeEntryView::Missing,
    }
}

/// The `rdf:type` IRI as an executable string slice.
pub fn rdf_type_iri_str() -> (r: &'static str)
    ensures
        r@ == rdf_type_iri(),
{
    "http://www.w3.org/1999/02/22-rdf-syntax-ns#type"
}

/// Prefix a blank-node local identifier with `_:`.
fn blank_node_key(local: &str) -> (r: String)
    ensures
        r@ == "_:"@ + local@,
{
    let prefix = String::from_str("_:");
    prefix.concat(local)
}

/// Whether an object term is of one of the three supported kinds.
pub fn is_supported_object(t: &Term) -> (b: bool)
    ensures
        b == supported_object(*t),
{
    match t {
        Term::Unsupported => false,
        _ => true,
    }
}

/// Term Classifier, subject side: compute the Subject Key string.
pub fn subject_key_of(s: &Subject) -> (r: String)
    ensures
        r@ == subject_key(*s),
{
    match s {
        Subject::NamedNode(iri) => iri.clone(),
        Subject::BlankNode(local) => blank_node_key(local.as_str()),
    }
}

/// Term Classifier, object side: compute the Object Value of a supported
/// object term.
pub fn object_value_of(t: Term) -> (r: ObjectValue)
    requires
        supported_object(t),
    ensures
        r.deep_view() == object_value(t),
{
    match t {
        Term::NamedNode(iri) => ObjectValue::Id(iri),
        Term::BlankNode(local) => ObjectValue::Id(blank_node_key(local.as_str())),
        Term::Literal(l) => match l.language {
            Some(tag) => ObjectValue::LangLiteral { value: l.value, language: tag },
            None => ObjectValue::TypedLiteral { value: l.value, datatype: l.datatype },
        },
        Term::Unsupported => vstd::pervasive::unreached(),
    }
}

/// Term Classifier for objects of `rdf:type` triples: extract the `@id`,
/// or `Missing` when the object is a literal.
pub fn type_entry_of(t: Term) -> (r: TypeEntry)
    requires
        supported_object(t),
    ensures
        r.deep_view() == type_entry(t),
{
    match t {
        Term::NamedNode(iri) => TypeEntry::Iri(iri),
        Term::BlankNode(local) => TypeEntry::Iri(blank_node_key(local.as_str())),
        Term::Literal(_) => TypeEntry::Missing,
        Term::Unsupported => vstd::pervasive::unreached(),
    }
}

} // verus!
