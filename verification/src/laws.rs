//! The stated properties of the conversion, proved against the document
//! model: what each object term becomes, how the `@type` field collapses,
//! that ordinary predicates always render as arrays, that re-running the
//! conversion changes nothing, and that dropped triples leave no trace.

use vstd::prelude::*;
use crate::convert::{
    accumulate, acc_add, field_of_prop, fields_of, jsonld_document, new_prop, nodes_of, node_of,
    prop_append, prop_matches, props_add, triple_update, PropUpdateView, PropView, SubjectAccView,
};
use crate::document::{FieldValueView, NodeObjectView, ObjectValueView, TypeEntryView};
use crate::terms::{
    object_value, rdf_type_iri, subject_key, supported_object, type_entry, Literal, Term, Triple,
};

verus! {

/// For every triple with a named-node object, the resulting object value is
/// exactly `{"@id": iri}`.
pub proof fn lemma_named_node_object_value(t: Term)
    requires
        t is NamedNode,
    ensures
        object_value(t) == ObjectValueView::Id(t->NamedNode_0@),
{
}

/// For every triple with a blank-node object, the resulting object value's
/// `@id` is exactly `"_:"` followed by the local identifier.
pub proof fn lemma_blank_node_object_value(t: Term)
    requires
        t is BlankNode,
    ensures
        object_value(t) == ObjectValueView::Id("_:"@ + t->BlankNode_0@),
{
}

/// A literal object with a language tag becomes `{"@value", "@language"}`;
/// one without becomes `{"@value", "@type"}`.  The two shapes are mutually
/// exclusive and exhaustive over literals.
pub proof fn lemma_literal_object_value(l: Literal)
    ensures
        l.language is Some ==> object_value(Term::Literal(l)) == (ObjectValueView::LangLiteral {
            value: l.value@,
            language: l.language.unwrap()@,
        }),
        l.language is None ==> object_value(Term::Literal(l)) == (ObjectValueView::TypedLiteral {
            value: l.value@,
            datatype: l.datatype@,
        }),
        object_value(Term::Literal(l)) is LangLiteral <==> l.language is Some,
        object_value(Term::Literal(l)) is TypedLiteral <==> l.language is None,
{
}

/// Re-running the conversion on the same finite triple sequence yields the
/// same document, and so in particular the same multiset of node objects.
pub proof fn lemma_rerun_same_nodes(
    ts: Seq<Triple>,
    d1: Seq<NodeObjectView>,
    d2: Seq<NodeObjectView>,
)
    requires
        d1 == jsonld_document(ts),
        d2 == jsonld_document(ts),
    ensures
        d1 == d2,
        d1.to_multiset() == d2.to_multiset(),
{
}

proof fn lemma_accumulate_remove_unsupported(ts: Seq<Triple>, i: int)
    requires
        0 <= i < ts.len(),
        !supported_object(ts[i].object),
    ensures
        accumulate(ts.remove(i)) == accumulate(ts),
    decreases ts.len(),
{
    if i == ts.len() - 1 {
        assert(ts.remove(i) =~= ts.drop_last());
    } else {
        let s = ts.remove(i);
        assert(s.drop_last() =~= ts.drop_last().remove(i));
        assert(s.last() == ts.last());
        lemma_accumulate_remove_unsupported(ts.drop_last(), i);
    }
}

/// A triple whose object is of an unsupported kind contributes nothing: the
/// document of the sequence equals the document of the sequence with that
/// triple taken out.
pub proof fn lemma_unsupported_triple_dropped(ts: Seq<Triple>, i: int)
    requires
        0 <= i < ts.len(),
        !supported_object(ts[i].object),
    ensures
        jsonld_document(ts) == jsonld_document(ts.remove(i)),
{
    lemma_accumulate_remove_unsupported(ts, i);
}

/// The `@type` entries a triple sequence yields for one subject key: the
/// extracted `@id` of every supported `rdf:type` triple of that subject, in
/// input order.
pub open spec fn collected_types(ts: Seq<Triple>, key: Seq<char>) -> Seq<TypeEntryView>
    decreases ts.len(),
{
    if ts.len() == 0 {
        Seq::empty()
    } else {
        let prev = collected_types(ts.drop_last(), key);
        let t = ts.last();
        if supported_object(t.object) && subject_key(t.subject) == key && t.predicate@
            == rdf_type_iri() {
            prev.push(type_entry(t.object))
        } else {
            prev
        }
    }
}

/// The object values a triple sequence yields for one subject key under one
/// ordinary predicate, in input order.
pub open spec fn collected_objects(ts: Seq<Triple>, key: Seq<char>, pred: Seq<char>) -> Seq<
    ObjectValueView,
>
    decreases ts.len(),
{
    if ts.len() == 0 {
        Seq::empty()
    } else {
        let prev = collected_objects(ts.drop_last(), key, pred);
        let t = ts.last();
        if supported_object(t.object) && subject_key(t.subject) == key && t.predicate@ == pred {
            prev.push(object_value(t.object))
        } else {
            prev
        }
    }
}

/// The `@type` list of a property list: the entries of its first `Types`
/// property, which is the one every `rdf:type` triple appends to.
pub open spec fn first_types(props: Seq<PropView>) -> Option<Seq<TypeEntryView>>
    decreases props.len(),
{
    if props.len() == 0 {
        None
    } else {
        match props[0] {
            PropView::Types(es) => Some(es),
            PropView::Objects(_, _) => first_types(props.drop_first()),
        }
    }
}

/// The value list of the first `Objects` property with the given key, which
/// is the one every triple of that predicate appends to.
pub open spec fn first_objects(props: Seq<PropView>, key: Seq<char>) -> Option<
    Seq<ObjectValueView>,
>
    decreases props.len(),
{
    if props.len() == 0 {
        None
    } else {
        match props[0] {
            PropView::Objects(k, vs) => if k == key {
                Some(vs)
            } else {
                first_objects(props.drop_first(), key)
            },
            PropView::Types(_) => first_objects(props.drop_first(), key),
        }
    }
}

/// The first accumulator entry with the given subject key.
pub open spec fn acc_find(acc: Seq<SubjectAccView>, key: Seq<char>) -> Option<SubjectAccView>
    decreases acc.len(),
{
    if acc.len() == 0 {
        None
    } else if acc[0].key == key {
        Some(acc[0])
    } else {
        acc_find(acc.drop_first(), key)
    }
}

/// The first node object of a document with the given `@id`.
pub open spec fn doc_node(doc: Seq<NodeObjectView>, id: Seq<char>) -> Option<NodeObjectView>
    decreases doc.len(),
{
    if doc.len() == 0 {
        None
    } else if doc[0].id == id {
        Some(doc[0])
    } else {
        doc_node(doc.drop_first(), id)
    }
}

/// Whether a field value renders the `@type` key: a bare type value or a
/// type array.
pub open spec fn is_type_field(f: FieldValueView) -> bool {
    f is OneType || f is Types
}

/// The node's `@type` field: the value of its first type-shaped field.
pub open spec fn node_type_field(fields: Seq<(Seq<char>, FieldValueView)>) -> Option<
    FieldValueView,
>
    decreases fields.len(),
{
    if fields.len() == 0 {
        None
    } else if is_type_field(fields[0].1) {
        Some(fields[0].1)
    } else {
        node_type_field(fields.drop_first())
    }
}

/// The node's field for an ordinary predicate: the value of its first
/// object-array field with that key.
pub open spec fn node_object_field(fields: Seq<(Seq<char>, FieldValueView)>, key: Seq<char>) -> Option<
    FieldValueView,
>
    decreases fields.len(),
{
    if fields.len() == 0 {
        None
    } else if fields[0].0 == key && fields[0].1 is Objects {
        Some(fields[0].1)
    } else {
        node_object_field(fields.drop_first(), key)
    }
}

proof fn lemma_props_add_first_types(props: Seq<PropView>, u: PropUpdateView)
    ensures
        first_types(props_add(props, u)) == match u {
            PropUpdateView::TypeEntry(e) => Some(
                match first_types(props) {
                    Some(es) => es.push(e),
                    None => seq![e],
                },
            ),
            PropUpdateView::Object(_, _) => first_types(props),
        },
    decreases props.len(),
{
    if props.len() == 0 {
        let r = props_add(props, u);
        assert(r == seq![new_prop(u)]);
        assert(r.drop_first() =~= Seq::<PropView>::empty());
        assert(first_types(props) is None);
        match u {
            PropUpdateView::TypeEntry(e) => {
                assert(r[0] == PropView::Types(seq![e]));
                assert(first_types(r) == Some(seq![e]));
            },
            PropUpdateView::Object(k, v) => {
                assert(r[0] == PropView::Objects(k, seq![v]));
                assert(first_types(r) == first_types(r.drop_first()));
                assert(first_types(r) is None);
            },
        }
    } else if prop_matches(props[0], u) {
        let r = props_add(props, u);
        assert(r == seq![prop_append(props[0], u)] + props.drop_first());
        assert(r[0] == prop_append(props[0], u));
        assert(r.drop_first() =~= props.drop_first());
    } else {
        let r = props_add(props, u);
        assert(r == seq![props[0]] + props_add(props.drop_first(), u));
        assert(r[0] == props[0]);
        assert(r.drop_first() =~= props_add(props.drop_first(), u));
        lemma_props_add_first_types(props.drop_first(), u);
    }
}

proof fn lemma_props_add_first_objects(props: Seq<PropView>, u: PropUpdateView, key: Seq<char>)
    ensures
        first_objects(props_add(props, u), key) == match u {
            PropUpdateView::Object(ukey, v) => if ukey == key {
                Some(
                    match first_objects(props, key) {
                        Some(vs) => vs.push(v),
                        None => seq![v],
                    },
                )
            } else {
                first_objects(props, key)
            },
            PropUpdateView::TypeEntry(_) => first_objects(props, key),
        },
    decreases props.len(),
{
    if props.len() == 0 {
        let r = props_add(props, u);
        assert(r == seq![new_prop(u)]);
        assert(r.drop_first() =~= Seq::<PropView>::empty());
        assert(first_objects(props, key) is None);
        match u {
            PropUpdateView::TypeEntry(e) => {
                assert(r[0] == PropView::Types(seq![e]));
                assert(first_objects(r, key) == first_objects(r.drop_first(), key));
            },
            PropUpdateView::Object(ukey, v) => {
                assert(r[0] == PropView::Objects(ukey, seq![v]));
                if ukey == key {
                    assert(first_objects(r, key) == Some(seq![v]));
                } else {
                    assert(first_objects(r, key) == first_objects(r.drop_first(), key));
                }
            },
        }
    } else if prop_matches(props[0], u) {
        let r = props_add(props, u);
        assert(r == seq![prop_append(props[0], u)] + props.drop_first());
        assert(r[0] == prop_append(props[0], u));
        assert(r.drop_first() =~= props.drop_first());
        match u {
            PropUpdateView::TypeEntry(e) => {
                assert(props[0] is Types);
                assert(first_objects(r, key) == first_objects(props.drop_first(), key));
                assert(first_objects(props, key) == first_objects(props.drop_first(), key));
            },
            PropUpdateView::Object(ukey, v) => {
                let vs = props[0]->Objects_1;
                assert(props[0] == PropView::Objects(ukey, vs));
                assert(r[0] == PropView::Objects(ukey, vs.push(v)));
                if ukey == key {
                    assert(first_objects(r, key) == Some(vs.push(v)));
                    assert(first_objects(props, key) == Some(vs));
                } else {
                    assert(first_objects(r, key) == first_objects(props.drop_first(), key));
                    assert(first_objects(props, key) == first_objects(props.drop_first(), key));
                }
            },
        }
    } else {
        let r = props_add(props, u);
        assert(r == seq![props[0]] + props_add(props.drop_first(), u));
        assert(r[0] == props[0]);
        assert(r.drop_first() =~= props_add(props.drop_first(), u));
        lemma_props_add_first_objects(props.drop_first(), u, key);
        match props[0] {
            PropView::Types(_) => {
                assert(first_objects(r, key) == first_objects(r.drop_first(), key));
                assert(first_objects(props, key) == first_objects(props.drop_first(), key));
            },
            PropView::Objects(pk, vs) => {
                if pk == key {
                    assert(first_objects(r, key) == Some(vs));
                    assert(first_objects(props, key) == Some(vs));
                    assert(match u {
                        PropUpdateView::Object(ukey, _) => ukey != key,
                        PropUpdateView::TypeEntry(_) => true,
                    });
                } else {
                    assert(first_objects(r, key) == first_objects(r.drop_first(), key));
                    assert(first_objects(props, key) == first_objects(props.drop_first(), key));
                }
            },
        }
    }
}

proof fn lemma_acc_add_find(acc: Seq<SubjectAccView>, k: Seq<char>, u: PropUpdateView, key: Seq<char>)
    ensures
        acc_find(acc_add(acc, k, u), key) == (if key == k {
            Some(
                SubjectAccView {
                    key: k,
                    props: props_add(
                        match acc_find(acc, k) {
                            Some(s) => s.props,
                            None => Seq::empty(),
                        },
                        u,
                    ),
                },
            )
        } else {
            acc_find(acc, key)
        }),
    decreases acc.len(),
{
    if acc.len() == 0 {
        let r = acc_add(acc, k, u);
        assert(r == seq![SubjectAccView { key: k, props: props_add(Seq::empty(), u) }]);
        assert(r.drop_first() =~= Seq::<SubjectAccView>::empty());
        assert(acc_find(acc, key) is None);
        if key == k {
            assert(acc_find(r, key) == Some(r[0]));
        } else {
            assert(acc_find(r, key) == acc_find(r.drop_first(), key));
        }
    } else if acc[0].key == k {
        let r = acc_add(acc, k, u);
        assert(r == seq![SubjectAccView { key: acc[0].key, props: props_add(acc[0].props, u) }]
            + acc.drop_first());
        assert(r[0] == SubjectAccView { key: acc[0].key, props: props_add(acc[0].props, u) });
        assert(r.drop_first() =~= acc.drop_first());
        if key == k {
            assert(acc_find(r, key) == Some(r[0]));
            assert(acc_find(acc, k) == Some(acc[0]));
        } else {
            assert(acc_find(r, key) == acc_find(acc.drop_first(), key));
            assert(acc_find(acc, key) == acc_find(acc.drop_first(), key));
        }
    } else {
        let r = acc_add(acc, k, u);
        assert(r == seq![acc[0]] + acc_add(acc.drop_first(), k, u));
        assert(r[0] == acc[0]);
        assert(r.drop_first() =~= acc_add(acc.drop_first(), k, u));
        lemma_acc_add_find(acc.drop_first(), k, u, key);
        if acc[0].key == key {
            assert(key != k);
            assert(acc_find(r, key) == Some(acc[0]));
            assert(acc_find(acc, key) == Some(acc[0]));
        } else {
            assert(acc_find(r, key) == acc_find(r.drop_first(), key));
            assert(acc_find(acc, key) == acc_find(acc.drop_first(), key));
        }
    }
}

proof fn lemma_accumulate_find_types(ts: Seq<Triple>, key: Seq<char>)
    ensures
        match acc_find(accumulate(ts), key) {
            Some(s) => s.key == key && first_types(s.props) == (if collected_types(ts, key).len()
                > 0 {
                Some(collected_types(ts, key))
            } else {
                None::<Seq<TypeEntryView>>
            }),
            None => collected_types(ts, key).len() == 0,
        },
    decreases ts.len(),
{
    if ts.len() == 0 {
    } else {
        let prev = accumulate(ts.drop_last());
        let t = ts.last();
        lemma_accumulate_find_types(ts.drop_last(), key);
        if supported_object(t.object) {
            let sk = subject_key(t.subject);
            let u = triple_update(t);
            lemma_acc_add_find(prev, sk, u, key);
            if key == sk {
                let prev_props = match acc_find(prev, sk) {
                    Some(s) => s.props,
                    None => Seq::<PropView>::empty(),
                };
                lemma_props_add_first_types(prev_props, u);
            }
        }
    }
}

proof fn lemma_accumulate_find_objects(ts: Seq<Triple>, key: Seq<char>, pred: Seq<char>)
    requires
        pred != rdf_type_iri(),
    ensures
        match acc_find(accumulate(ts), key) {
            Some(s) => s.key == key && first_objects(s.props, pred) == (if collected_objects(
                ts,
                key,
                pred,
            ).len() > 0 {
                Some(collected_objects(ts, key, pred))
            } else {
                None::<Seq<ObjectValueView>>
            }),
            None => collected_objects(ts, key, pred).len() == 0,
        },
    decreases ts.len(),
{
    if ts.len() == 0 {
    } else {
        let prev = accumulate(ts.drop_last());
        let t = ts.last();
        lemma_accumulate_find_objects(ts.drop_last(), key, pred);
        if supported_object(t.object) {
            let sk = subject_key(t.subject);
            let u = triple_update(t);
            lemma_acc_add_find(prev, sk, u, key);
            if key == sk {
                let prev_props = match acc_find(prev, sk) {
                    Some(s) => s.props,
                    None => Seq::<PropView>::empty(),
                };
                lemma_props_add_first_objects(prev_props, u, pred);
            }
        }
    }
}

proof fn lemma_doc_node_of_acc(acc: Seq<SubjectAccView>, key: Seq<char>)
    ensures
        doc_node(nodes_of(acc), key) == match acc_find(acc, key) {
            Some(s) => Some(node_of(s)),
            None => None::<NodeObjectView>,
        },
    decreases acc.len(),
{
    if acc.len() == 0 {
    } else {
        assert(nodes_of(acc)[0] == node_of(acc[0]));
        assert(nodes_of(acc).drop_first() =~= nodes_of(acc.drop_first()));
        lemma_doc_node_of_acc(acc.drop_first(), key);
    }
}

proof fn lemma_fields_type_field(props: Seq<PropView>)
    ensures
        node_type_field(fields_of(props)) == match first_types(props) {
            Some(es) => Some(
                if es.len() == 1 {
                    FieldValueView::OneType(es[0])
                } else {
                    FieldValueView::Types(es)
                },
            ),
            None => None::<FieldValueView>,
        },
    decreases props.len(),
{
    if props.len() == 0 {
    } else {
        assert(fields_of(props)[0] == field_of_prop(props[0]));
        assert(fields_of(props).drop_first() =~= fields_of(props.drop_first()));
        lemma_fields_type_field(props.drop_first());
    }
}

proof fn lemma_fields_object_field(props: Seq<PropView>, key: Seq<char>)
    ensures
        node_object_field(fields_of(props), key) == match first_objects(props, key) {
            Some(vs) => Some(FieldValueView::Objects(vs)),
            None => None::<FieldValueView>,
        },
    decreases props.len(),
{
    if props.len() == 0 {
    } else {
        assert(fields_of(props)[0] == field_of_prop(props[0]));
        assert(fields_of(props).drop_first() =~= fields_of(props.drop_first()));
        lemma_fields_object_field(props.drop_first(), key);
    }
}

/// The subject keys of the accumulator entries, in order.
pub open spec fn keys_of(acc: Seq<SubjectAccView>) -> Seq<Seq<char>> {
    acc.map_values(|s: SubjectAccView| s.key)
}

/// Whether the accumulator holds at most one entry per subject key.
pub open spec fn distinct_keys(acc: Seq<SubjectAccView>) -> bool {
    forall|i: int, j: int| 0 <= i < j < acc.len() ==> acc[i].key != acc[j].key
}

proof fn lemma_acc_find_none_no_key(acc: Seq<SubjectAccView>, key: Seq<char>)
    requires
        acc_find(acc, key) is None,
    ensures
        forall|n: int| 0 <= n < acc.len() ==> acc[n].key != key,
    decreases acc.len(),
{
    if acc.len() == 0 {
    } else {
        lemma_acc_find_none_no_key(acc.drop_first(), key);
        assert forall|n: int| 0 <= n < acc.len() implies acc[n].key != key by {
            if n > 0 {
                assert(acc.drop_first()[n - 1] == acc[n]);
            }
        }
    }
}

proof fn lemma_acc_add_keys(acc: Seq<SubjectAccView>, k: Seq<char>, u: PropUpdateView)
    ensures
        keys_of(acc_add(acc, k, u)) == (if acc_find(acc, k) is Some {
            keys_of(acc)
        } else {
            keys_of(acc).push(k)
        }),
    decreases acc.len(),
{
    if acc.len() == 0 {
        assert(keys_of(acc_add(acc, k, u)) =~= keys_of(acc).push(k));
    } else if acc[0].key == k {
        assert(keys_of(acc_add(acc, k, u)) =~= keys_of(acc));
    } else {
        let r = acc_add(acc, k, u);
        let tail = acc_add(acc.drop_first(), k, u);
        assert(r == seq![acc[0]] + tail);
        lemma_acc_add_keys(acc.drop_first(), k, u);
        assert(acc_find(acc, k) == acc_find(acc.drop_first(), k));
        assert forall|n: int| 0 < n < r.len() implies #[trigger] r[n].key == keys_of(tail)[n - 1] by {
            assert(r[n] == tail[n - 1]);
            assert(keys_of(tail)[n - 1] == tail[n - 1].key);
        }
        assert forall|n: int| 0 < n < acc.len() implies #[trigger] acc[n].key == keys_of(
            acc.drop_first(),
        )[n - 1] by {
            assert(acc.drop_first()[n - 1] == acc[n]);
            assert(keys_of(acc.drop_first())[n - 1] == acc.drop_first()[n - 1].key);
        }
        if acc_find(acc, k) is Some {
            assert(keys_of(tail) == keys_of(acc.drop_first()));
            assert forall|n: int| 0 <= n < keys_of(r).len() implies keys_of(r)[n] == keys_of(
                acc,
            )[n] by {
                assert(keys_of(r)[n] == r[n].key);
                assert(keys_of(acc)[n] == acc[n].key);
                if n > 0 {
                    assert(r[n].key == keys_of(tail)[n - 1]);
                    assert(acc[n].key == keys_of(acc.drop_first())[n - 1]);
                }
            }
            assert(keys_of(r) =~= keys_of(acc));
        } else {
            assert(keys_of(tail) == keys_of(acc.drop_first()).push(k));
            assert forall|n: int| 0 <= n < keys_of(r).len() implies keys_of(r)[n] == keys_of(
                acc,
            ).push(k)[n] by {
                assert(keys_of(r)[n] == r[n].key);
                if n == 0 {
                    assert(keys_of(acc).push(k)[0] == acc[0].key);
                } else if n < acc.len() {
                    assert(r[n].key == keys_of(tail)[n - 1]);
                    assert(keys_of(tail)[n - 1] == keys_of(acc.drop_first())[n - 1]);
                    assert(acc[n].key == keys_of(acc.drop_first())[n - 1]);
                    assert(keys_of(acc).push(k)[n] == acc[n].key);
                } else {
                    assert(n == acc.len());
                    assert(r[n].key == keys_of(tail)[n - 1]);
                    assert(keys_of(tail)[n - 1] == k);
                    assert(keys_of(acc).push(k)[n] == k);
                }
            }
            assert(keys_of(r) =~= keys_of(acc).push(k));
        }
    }
}

proof fn lemma_acc_add_distinct(acc: Seq<SubjectAccView>, k: Seq<char>, u: PropUpdateView)
    requires
        distinct_keys(acc),
    ensures
        distinct_keys(acc_add(acc, k, u)),
{
    lemma_acc_add_keys(acc, k, u);
    let r = acc_add(acc, k, u);
    assert(keys_of(r).len() == r.len());
    assert(keys_of(acc).len() == acc.len());
    if acc_find(acc, k) is Some {
        assert(r.len() == acc.len());
        assert forall|i: int, j: int| 0 <= i < j < r.len() implies r[i].key != r[j].key by {
            assert(keys_of(r)[i] == r[i].key);
            assert(keys_of(r)[j] == r[j].key);
            assert(keys_of(acc)[i] == acc[i].key);
            assert(keys_of(acc)[j] == acc[j].key);
        }
    } else {
        lemma_acc_find_none_no_key(acc, k);
        assert(r.len() == acc.len() + 1);
        assert forall|i: int, j: int| 0 <= i < j < r.len() implies r[i].key != r[j].key by {
            assert(keys_of(r)[i] == r[i].key);
            assert(keys_of(r)[j] == r[j].key);
            if j < acc.len() {
                assert(keys_of(acc)[i] == acc[i].key);
                assert(keys_of(acc)[j] == acc[j].key);
            } else {
                assert(r[j].key == k);
                assert(keys_of(acc)[i] == acc[i].key);
            }
        }
    }
}

proof fn lemma_accumulate_distinct(ts: Seq<Triple>)
    ensures
        distinct_keys(accumulate(ts)),
    decreases ts.len(),
{
    if ts.len() == 0 {
    } else {
        lemma_accumulate_distinct(ts.drop_last());
        let t = ts.last();
        if supported_object(t.object) {
            lemma_acc_add_distinct(accumulate(ts.drop_last()), subject_key(t.subject), triple_update(t));
        }
    }
}

/// No two node objects of a document share a subject: the `@id` keys of any
/// two distinct nodes differ.
pub proof fn lemma_one_node_per_subject(ts: Seq<Triple>, i: int, j: int)
    requires
        0 <= i < j < jsonld_document(ts).len(),
    ensures
        jsonld_document(ts)[i].id != jsonld_document(ts)[j].id,
{
    lemma_accumulate_distinct(ts);
    let acc = accumulate(ts);
    assert(jsonld_document(ts)[i] == node_of(acc[i]));
    assert(jsonld_document(ts)[j] == node_of(acc[j]));
}

/// For every subject with exactly one `rdf:type` triple, the node's `@type`
/// field is the bare extracted value, never an array of length one.
pub proof fn lemma_single_type_is_bare(ts: Seq<Triple>, key: Seq<char>)
    requires
        collected_types(ts, key).len() == 1,
    ensures
        doc_node(jsonld_document(ts), key) is Some,
        node_type_field(doc_node(jsonld_document(ts), key).unwrap().fields) == Some(
            FieldValueView::OneType(collected_types(ts, key)[0]),
        ),
{
    lemma_accumulate_find_types(ts, key);
    lemma_doc_node_of_acc(accumulate(ts), key);
    let s = acc_find(accumulate(ts), key).unwrap();
    lemma_fields_type_field(s.props);
}

/// For every subject with two or more `rdf:type` triples, the node's `@type`
/// field is the array of all their extracted values, in input order.
pub proof fn lemma_many_types_is_array(ts: Seq<Triple>, key: Seq<char>)
    requires
        collected_types(ts, key).len() >= 2,
    ensures
        doc_node(jsonld_document(ts), key) is Some,
        node_type_field(doc_node(jsonld_document(ts), key).unwrap().fields) == Some(
            FieldValueView::Types(collected_types(ts, key)),
        ),
{
    lemma_accumulate_find_types(ts, key);
    lemma_doc_node_of_acc(accumulate(ts), key);
    let s = acc_find(accumulate(ts), key).unwrap();
    lemma_fields_type_field(s.props);
}

/// For every predicate other than `rdf:type`, the node's field is always a
/// JSON array of all the collected object values in input order, even when
/// exactly one value was collected.
pub proof fn lemma_ordinary_predicate_is_array(ts: Seq<Triple>, key: Seq<char>, pred: Seq<char>)
    requires
        pred != rdf_type_iri(),
        collected_objects(ts, key, pred).len() > 0,
    ensures
        doc_node(jsonld_document(ts), key) is Some,
        node_object_field(doc_node(jsonld_document(ts), key).unwrap().fields, pred) == Some(
            FieldValueView::Objects(collected_objects(ts, key, pred)),
        ),
{
    lemma_accumulate_find_objects(ts, key, pred);
    lemma_doc_node_of_acc(accumulate(ts), key);
    let s = acc_find(accumulate(ts), key).unwrap();
    lemma_fields_object_field(s.props, pred);
}

} // verus!
