//! The output side of the conversion: the JSON-LD document model.
//!
//! The document is a sequence of node objects.  Instead of a dynamically
//! typed JSON tree, each node carries an explicit ordered field list, so the
//! single-value-vs-array rule for `@type` is visible in the types themselves.
//! Every constructor below corresponds to one JSON shape, given in its doc
//! comment.

use vstd::prelude::*;

verus! {

/// The JSON fragment produced for one object term:
/// `Id(x)` is `{"@id": x}`;
/// `LangLiteral` is `{"@value": value, "@language": language}`;
/// `TypedLiteral` is `{"@value": value, "@type": datatype}`.
#[derive(Debug, Clone, PartialEq, Eq)]
pub enum ObjectValue {
    Id(String),
    LangLiteral { value: String, language: String },
    TypedLiteral { value: String, datatype: String },
}

/// Mathematical model of an `ObjectValue`.
pub enum ObjectValueView {
    Id(Seq<char>),
    LangLiteral { value: Seq<char>, language: Seq<char> },
    TypedLiteral { value: Seq<char>, datatype: Seq<char> },
}

/// One entry of a node's `@type` list: the `@id` string of the object of an
/// `rdf:type` triple, or `Missing` (JSON null) when that object was a
/// literal and so had no `@id`.
#[derive(Debug, Clone, PartialEq, Eq)]
pub enum TypeEntry {
    Iri(String),
    Missing,
}

/// Mathematical model of a `TypeEntry`.
pub enum TypeEntryView {
    Iri(Seq<char>),
    Missing,
}

/// The value of one field of a node object:
/// `OneType(e)` is a bare `@type` value (exactly one `rdf:type` triple);
/// `Types(es)` is a JSON array of `@type` values (zero or two or more);
/// `Objects(vs)` is a JSON array of object values (any other predicate,
/// always an array, even with a single element).
#[derive(Debug, Clone, PartialEq, Eq)]
pub enum FieldValue {
    OneType(TypeEntry),
    Types(Vec<TypeEntry>),
    Objects(Vec<ObjectValue>),
}

/// Mathematical model of a `FieldValue`.
pub enum FieldValueView {
    OneType(TypeEntryView),
    Types(Seq<TypeEntryView>),
    Objects(Seq<ObjectValueView>),
}

/// One JSON-LD node object: `{"@id": id, key: value, ...}` with the fields
/// in the order they are listed.
#[derive(Debug, Clone, PartialEq, Eq)]
pub struct NodeObject {
    pub id: String,
    pub fields: Vec<(String, FieldValue)>,
}

/// Mathematical model of a `NodeObject`.
pub struct NodeObjectView {
    pub id: Seq<char>,
    pub fields: Seq<(Seq<char>, FieldValueView)>,
}

impl View for ObjectValue {
    type V = ObjectValueView;

    open spec fn view(&self) -> ObjectValueView {
        match self {
            ObjectValue::Id(id) => ObjectValueView::Id(id@),
            ObjectValue::LangLiteral { value, language } => ObjectValueView::LangLiteral {
                value: value@,
                language: language@,
            },
            ObjectValue::TypedLiteral { value, datatype } => ObjectValueView::TypedLiteral {
                value: value@,
                datatype: datatype@,
            },
        }
    }
}

impl DeepView for ObjectValue {
    type V = ObjectValueView;

    open spec fn deep_view(&self) -> ObjectValueView {
        self.view()
    }
}

impl View for TypeEntry {
    type V = TypeEntryView;

    open spec fn view(&self) -> TypeEntryView {
        match self {
            TypeEntry::Iri(id) => TypeEntryView::Iri(id@),
            TypeEntry::Missing => TypeEntryView::Missing,
        }
    }
}

impl DeepView for TypeEntry {
    type V = TypeEntryView;

    open spec fn deep_view(&self) -> TypeEntryView {
        self.view()
    }
}

impl DeepView for FieldValue {
    type V = FieldValueView;

    open spec fn deep_view(&self) -> FieldValueView {
        match self {
            FieldValue::OneType(e) => FieldValueView::OneType(e.deep_view()),
            FieldValue::Types(es) => FieldValueView::Types(es.deep_view()),
            FieldValue::Objects(vs) => FieldValueView::Objects(vs.deep_view()),
        }
    }
}

impl DeepView for NodeObject {
    type V = NodeObjectView;

    open spec fn deep_view(&self) -> NodeObjectView {
        NodeObjectView { id: self.id@, fields: self.fields.deep_view() }
    }
}

} // verus!
