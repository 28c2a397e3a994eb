use rdf_jsonld::convert::rdf_to_jsonld;
use rdf_jsonld::document::{FieldValue, NodeObject, ObjectValue, TypeEntry};
use rdf_jsonld::terms::{rdf_type_iri_str, Literal, SourceError, Subject, Term, Triple};

fn named(subject: &str, predicate: &str, object: &str) -> Triple {
    Triple {
        subject: Subject::NamedNode(subject.to_string()),
        predicate: predicate.to_string(),
        object: Term::NamedNode(object.to_string()),
    }
}

fn type_triple(subject: &str, class: &str) -> Triple {
    named(subject, rdf_type_iri_str(), class)
}

fn lang_literal(value: &str, language: &str) -> Term {
    Term::Literal(Literal {
        value: value.to_string(),
        datatype: "http://www.w3.org/1999/02/22-rdf-syntax-ns#langString".to_string(),
        language: Some(language.to_string()),
    })
}

fn plain_literal(value: &str, datatype: &str) -> Term {
    Term::Literal(Literal {
        value: value.to_string(),
        datatype: datatype.to_string(),
        language: None,
    })
}

fn convert(triples: Vec<Triple>) -> Vec<NodeObject> {
    rdf_to_jsonld(triples.into_iter().map(Ok).collect()).expect("conversion should succeed")
}

#[test]
fn empty_input_gives_empty_document() {
    assert_eq!(convert(vec![]), vec![]);
}

#[test]
fn named_node_object_becomes_id_fragment() {
    let doc = convert(vec![named("ex:s", "ex:p", "ex:o")]);
    assert_eq!(
        doc,
        vec![NodeObject {
            id: "ex:s".to_string(),
            fields: vec![(
                "ex:p".to_string(),
                FieldValue::Objects(vec![ObjectValue::Id("ex:o".to_string())]),
            )],
        }]
    );
}

#[test]
fn blank_node_object_gets_underscore_colon_prefix() {
    let doc = convert(vec![Triple {
        subject: Subject::NamedNode("ex:s".to_string()),
        predicate: "ex:p".to_string(),
        object: Term::BlankNode("b1".to_string()),
    }]);
    assert_eq!(
        doc[0].fields[0].1,
        FieldValue::Objects(vec![ObjectValue::Id("_:b1".to_string())])
    );
}

#[test]
fn literal_with_language_keeps_value_and_language() {
    let doc = convert(vec![Triple {
        subject: Subject::NamedNode("ex:s".to_string()),
        predicate: "ex:p".to_string(),
        object: lang_literal("hello", "en"),
    }]);
    assert_eq!(
        doc[0].fields[0].1,
        FieldValue::Objects(vec![ObjectValue::LangLiteral {
            value: "hello".to_string(),
            language: "en".to_string(),
        }])
    );
}

#[test]
fn literal_without_language_keeps_value_and_datatype() {
    let doc = convert(vec![Triple {
        subject: Subject::NamedNode("ex:s".to_string()),
        predicate: "ex:p".to_string(),
        object: plain_literal("42", "http://www.w3.org/2001/XMLSchema#integer"),
    }]);
    assert_eq!(
        doc[0].fields[0].1,
        FieldValue::Objects(vec![ObjectValue::TypedLiteral {
            value: "42".to_string(),
            datatype: "http://www.w3.org/2001/XMLSchema#integer".to_string(),
        }])
    );
}

#[test]
fn single_type_is_bare_value_not_array() {
    let doc = convert(vec![type_triple("ex:s", "ex:Person")]);
    assert_eq!(
        doc[0].fields,
        vec![(
            "@type".to_string(),
            FieldValue::OneType(TypeEntry::Iri("ex:Person".to_string())),
        )]
    );
}

#[test]
fn two_types_render_as_array_in_input_order() {
    let doc = convert(vec![
        type_triple("ex:Bob", "ex:Person"),
        type_triple("ex:Bob", "ex:Employee"),
    ]);
    assert_eq!(
        doc,
        vec![NodeObject {
            id: "ex:Bob".to_string(),
            fields: vec![(
                "@type".to_string(),
                FieldValue::Types(vec![
                    TypeEntry::Iri("ex:Person".to_string()),
                    TypeEntry::Iri("ex:Employee".to_string()),
                ]),
            )],
        }]
    );
}

#[test]
fn ordinary_predicate_is_array_even_for_one_value() {
    let doc = convert(vec![named("ex:s", "ex:p", "ex:o")]);
    match &doc[0].fields[0].1 {
        FieldValue::Objects(vs) => assert_eq!(vs.len(), 1),
        other => panic!("expected an object array, got {:?}", other),
    }
}

#[test]
fn repeated_predicate_values_keep_input_order() {
    let doc = convert(vec![
        named("ex:s", "ex:p", "ex:first"),
        named("ex:s", "ex:p", "ex:second"),
    ]);
    assert_eq!(
        doc[0].fields,
        vec![(
            "ex:p".to_string(),
            FieldValue::Objects(vec![
                ObjectValue::Id("ex:first".to_string()),
                ObjectValue::Id("ex:second".to_string()),
            ]),
        )]
    );
}

#[test]
fn alice_node_carries_type_and_language_tagged_name() {
    let doc = convert(vec![
        type_triple("ex:Alice", "ex:Person"),
        Triple {
            subject: Subject::NamedNode("ex:Alice".to_string()),
            predicate: "ex:name".to_string(),
            object: lang_literal("Alice", "en"),
        },
    ]);
    assert_eq!(
        doc,
        vec![NodeObject {
            id: "ex:Alice".to_string(),
            fields: vec![
                (
                    "@type".to_string(),
                    FieldValue::OneType(TypeEntry::Iri("ex:Person".to_string())),
                ),
                (
                    "ex:name".to_string(),
                    FieldValue::Objects(vec![ObjectValue::LangLiteral {
                        value: "Alice".to_string(),
                        language: "en".to_string(),
                    }]),
                ),
            ],
        }]
    );
}

#[test]
fn blank_subject_node_uses_prefixed_id() {
    let doc = convert(vec![Triple {
        subject: Subject::BlankNode("b0".to_string()),
        predicate: "ex:knows".to_string(),
        object: Term::NamedNode("ex:Carol".to_string()),
    }]);
    assert_eq!(
        doc,
        vec![NodeObject {
            id: "_:b0".to_string(),
            fields: vec![(
                "ex:knows".to_string(),
                FieldValue::Objects(vec![ObjectValue::Id("ex:Carol".to_string())]),
            )],
        }]
    );
}

#[test]
fn error_on_third_element_fails_whole_conversion() {
    let source: Vec<Result<Triple, SourceError>> = vec![
        Ok(named("ex:a", "ex:p", "ex:b")),
        Ok(named("ex:c", "ex:p", "ex:d")),
        Err(SourceError { message: "broken element".to_string() }),
    ];
    let result = rdf_to_jsonld(source);
    assert_eq!(result, Err(SourceError { message: "broken element".to_string() }));
}

#[test]
fn unsupported_object_triple_contributes_nothing() {
    let with_unsupported = convert(vec![
        named("ex:s", "ex:p", "ex:o"),
        Triple {
            subject: Subject::NamedNode("ex:s".to_string()),
            predicate: "ex:q".to_string(),
            object: Term::Unsupported,
        },
        named("ex:t", "ex:p", "ex:u"),
    ]);
    let without = convert(vec![
        named("ex:s", "ex:p", "ex:o"),
        named("ex:t", "ex:p", "ex:u"),
    ]);
    assert_eq!(with_unsupported, without);
}

#[test]
fn rerunning_on_same_input_gives_same_document() {
    let triples = vec![
        type_triple("ex:Alice", "ex:Person"),
        named("ex:Alice", "ex:knows", "ex:Bob"),
        named("ex:Bob", "ex:knows", "ex:Alice"),
    ];
    let first = convert(triples.clone());
    let second = convert(triples);
    assert_eq!(first, second);
}

#[test]
fn subjects_appear_in_first_seen_order() {
    let doc = convert(vec![
        named("ex:b", "ex:p", "ex:x"),
        named("ex:a", "ex:p", "ex:y"),
        named("ex:b", "ex:q", "ex:z"),
    ]);
    assert_eq!(doc.len(), 2);
    assert_eq!(doc[0].id, "ex:b");
    assert_eq!(doc[1].id, "ex:a");
    assert_eq!(doc[0].fields.len(), 2);
}

#[test]
fn same_subject_key_merges_named_and_blank_spellings() {
    let doc = convert(vec![
        named("_:b0", "ex:p", "ex:x"),
        Triple {
            subject: Subject::BlankNode("b0".to_string()),
            predicate: "ex:q".to_string(),
            object: Term::NamedNode("ex:y".to_string()),
        },
    ]);
    assert_eq!(doc.len(), 1);
    assert_eq!(doc[0].id, "_:b0");
    assert_eq!(doc[0].fields.len(), 2);
}

#[test]
fn literal_object_of_rdf_type_is_kept_as_missing_id() {
    let doc = convert(vec![Triple {
        subject: Subject::NamedNode("ex:s".to_string()),
        predicate: rdf_type_iri_str().to_string(),
        object: plain_literal("odd", "http://www.w3.org/2001/XMLSchema#string"),
    }]);
    assert_eq!(
        doc[0].fields,
        vec![("@type".to_string(), FieldValue::OneType(TypeEntry::Missing))]
    );
}

#[test]
fn error_before_any_triple_returns_that_error() {
    let source: Vec<Result<Triple, SourceError>> =
        vec![Err(SourceError { message: "no data".to_string() })];
    assert_eq!(
        rdf_to_jsonld(source),
        Err(SourceError { message: "no data".to_string() })
    );
}
