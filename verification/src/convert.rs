//! Graph Accumulator and Node Serializer: grouping the triples by subject and
//! predicate, then rendering the groups as JSON-LD node objects.
//!
//! The accumulator is an insertion-ordered association list, so the output is
//! deterministic: subjects appear in first-seen order, and so do the fields
//! of each node; the values of one (subject, predicate) pair keep input
//! order.

use vstd::prelude::*;
use crate::document::{
    FieldValue, FieldValueView, NodeObject, NodeObjectView, ObjectValue, ObjectValueView,
    TypeEntry, TypeEntryView,
};
use crate::terms::{
    is_supported_object, object_value, rdf_type_iri, rdf_type_iri_str, subject_key,
    subject_key_of, supported_object, type_entry, object_value_of, type_entry_of, SourceError,
    Triple,
};

verus! {

/// One accumulated property of a subject: either the list of `@type`
/// entries collected from its `rdf:type` triples, or an ordinary predicate
/// key with the list of object values collected for it.
#[derive(Debug, Clone, PartialEq, Eq)]
pub enum Prop {
    Types(Vec<TypeEntry>),
    Objects(String, Vec<ObjectValue>),
}

/// Mathematical model of a `Prop`.
pub enum PropView {
    Types(Seq<TypeEntryView>),
    Objects(Seq<char>, Seq<ObjectValueView>),
}

/// The accumulated entry of one subject: its key and its properties in
/// first-seen order.
#[derive(Debug, Clone, PartialEq, Eq)]
pub struct SubjectAcc {
    pub key: String,
    pub props: Vec<Prop>,
}

/// Mathematical model of a `SubjectAcc`.
pub struct SubjectAccView {
    pub key: Seq<char>,
    pub props: Seq<PropView>,
}

/// What one triple contributes to its subject's properties: a `@type` entry
/// (for an `rdf:type` triple) or an object value under a predicate key.
#[derive(Debug, Clone, PartialEq, Eq)]
pub enum PropUpdate {
    TypeEntry(TypeEntry),
    Object(String, ObjectValue),
}

/// Mathematical model of a `PropUpdate`.
pub enum PropUpdateView {
    TypeEntry(TypeEntryView),
    Object(Seq<char>, ObjectValueView),
}

impl DeepView for Prop {
    type V = PropView;

    open spec fn deep_view(&self) -> PropView {
        match self {
            Prop::Types(es) => PropView::Types(es.deep_view()),
            Prop::Objects(key, vs) => PropView::Objects(key@, vs.deep_view()),
        }
    }
}

impl DeepView for SubjectAcc {
    type V = SubjectAccView;

    open spec fn deep_view(&self) -> SubjectAccView {
        SubjectAccView { key: self.key@, props: self.props.deep_view() }
    }
}

impl DeepView for PropUpdate {
    type V = PropUpdateView;

    open spec fn deep_view(&self) -> PropUpdateView {
        match self {
            PropUpdate::TypeEntry(e) => PropUpdateView::TypeEntry(e.deep_view()),
            PropUpdate::Object(key, v) => PropUpdateView::Object(key@, v.deep_view()),
        }
    }
}

/// The property list started by an update that found no matching property.
pub open spec fn new_prop(u: PropUpdateView) -> PropView {
    match u {
        PropUpdateView::TypeEntry(e) => PropView::Types(seq![e]),
        PropUpdateView::Object(key, v) => PropView::Objects(key, seq![v]),
    }
}

/// Whether an update belongs to an existing property: a `@type` entry to the
/// `Types` property, an object value to the `Objects` property of its key.
pub open spec fn prop_matches(p: PropView, u: PropUpdateView) -> bool {
    match (p, u) {
        (PropView::Types(_), PropUpdateView::TypeEntry(_)) => true,
        (PropView::Objects(key, _), PropUpdateView::Object(ukey, _)) => key == ukey,
        _ => false,
    }
}

/// The property after appending a matching update's value to its list.
pub open spec fn prop_append(p: PropView, u: PropUpdateView) -> PropView
    recommends
        prop_matches(p, u),
{
    match (p, u) {
        (PropView::Types(es), PropUpdateView::TypeEntry(e)) => PropView::Types(es.push(e)),
        (PropView::Objects(key, vs), PropUpdateView::Object(_, v)) => PropView::Objects(
            key,
            vs.push(v),
        ),
        _ => p,
    }
}

/// Apply one update to a property list: append to the first matching
/// property, or start a new property at the end when none matches.
pub open spec fn props_add(props: Seq<PropView>, u: PropUpdateView) -> Seq<PropView>
    decreases props.len(),
{
    if props.len() == 0 {
        seq![new_prop(u)]
    } else if prop_matches(props[0], u) {
        seq![prop_append(props[0], u)] + props.drop_first()
    } else {
        seq![props[0]] + props_add(props.drop_first(), u)
    }
}

/// Apply one update to the accumulator under a subject key: update the first
/// entry with that key, or append a new subject entry at the end.
pub open spec fn acc_add(acc: Seq<SubjectAccView>, key: Seq<char>, u: PropUpdateView) -> Seq<
    SubjectAccView,
>
    decreases acc.len(),
{
    if acc.len() == 0 {
        seq![SubjectAccView { key: key, props: props_add(Seq::empty(), u) }]
    } else if acc[0].key == key {
        seq![SubjectAccView { key: acc[0].key, props: props_add(acc[0].props, u) }]
            + acc.drop_first()
    } else {
        seq![acc[0]] + acc_add(acc.drop_first(), key, u)
    }
}

/// The update contributed by one triple: for the `rdf:type` predicate, the
/// `@id` extracted from the object value under the reserved `@type` key; for
/// any other predicate, the full object value under the predicate key.
pub open spec fn triple_update(t: Triple) -> PropUpdateView
    recommends
        supported_object(t.object),
{
    if t.predicate@ == rdf_type_iri() {
        PropUpdateView::TypeEntry(type_entry(t.object))
    } else {
        PropUpdateView::Object(t.predicate@, object_value(t.object))
    }
}

/// The accumulator after consuming a sequence of triples in order.  A triple
/// whose object is of an unsupported kind is dropped and contributes
/// nothing.
pub open spec fn accumulate(ts: Seq<Triple>) -> Seq<SubjectAccView>
    decreases ts.len(),
{
    if ts.len() == 0 {
        Seq::empty()
    } else {
        let prev = accumulate(ts.drop_last());
        let t = ts.last();
        if supported_object(t.object) {
            acc_add(prev, subject_key(t.subject), triple_update(t))
        } else {
            prev
        }
    }
}

/// Render one accumulated property as a node field.  The `@type` list
/// collapses to a bare value exactly when it has one element; every other
/// field is a JSON array, even with a single element.
pub open spec fn field_of_prop(p: PropView) -> (Seq<char>, FieldValueView) {
    match p {
        PropView::Types(es) => (
            "@type"@,
            if es.len() == 1 {
                FieldValueView::OneType(es[0])
            } else {
                FieldValueView::Types(es)
            },
        ),
        PropView::Objects(key, vs) => (key, FieldValueView::Objects(vs)),
    }
}

/// Render a property list as an ordered node field list.
pub open spec fn fields_of(props: Seq<PropView>) -> Seq<(Seq<char>, FieldValueView)> {
    props.map_values(|p: PropView| field_of_prop(p))
}

/// Render one subject entry as a node object.
pub open spec fn node_of(s: SubjectAccView) -> NodeObjectView {
    NodeObjectView { id: s.key, fields: fields_of(s.props) }
}

/// Render the whole accumulator as the output document.
pub open spec fn nodes_of(acc: Seq<SubjectAccView>) -> Seq<NodeObjectView> {
    acc.map_values(|s: SubjectAccView| node_of(s))
}

/// The JSON-LD document of a triple sequence: accumulate, then render.
pub open spec fn jsonld_document(ts: Seq<Triple>) -> Seq<NodeObjectView> {
    nodes_of(accumulate(ts))
}

/// Whether every element of the triple source was produced without error.
pub open spec fn all_ok(ts: Seq<Result<Triple, SourceError>>) -> bool {
    forall|i: int| 0 <= i < ts.len() ==> ts[i] is Ok
}

/// The index of the first source error, or the length when there is none.
pub open spec fn first_err(ts: Seq<Result<Triple, SourceError>>) -> int
    decreases ts.len(),
{
    if ts.len() == 0 {
        0
    } else if ts[0] is Err {
        0
    } else {
        1 + first_err(ts.drop_first())
    }
}

/// The triples of an error-free source.
pub open spec fn ok_triples(ts: Seq<Result<Triple, SourceError>>) -> Seq<Triple> {
    ts.map_values(|r: Result<Triple, SourceError>| r->Ok_0)
}

proof fn lemma_deep_view_drop_first<T: DeepView>(pre: Vec<T>, post: Vec<T>)
    requires
        pre@.len() > 0,
        post@ == pre@.remove(0),
    ensures
        post.deep_view() == pre.deep_view().drop_first(),
{
    assert(post@ =~= pre@.drop_first());
    assert forall|i: int| 0 <= i < post.deep_view().len() implies post.deep_view()[i]
        == pre.deep_view().drop_first()[i] by {
        assert(post@[i] == pre@[i + 1]);
    }
    assert(post.deep_view() =~= pre.deep_view().drop_first());
}

proof fn lemma_deep_view_insert_first<T: DeepView>(pre: Vec<T>, post: Vec<T>, x: T)
    requires
        post@ == pre@.insert(0, x),
    ensures
        post.deep_view() == seq![x.deep_view()] + pre.deep_view(),
{
    assert forall|i: int| 0 <= i < post.deep_view().len() implies post.deep_view()[i] == (seq![
        x.deep_view(),
    ] + pre.deep_view())[i] by {
        if i == 0 {
            assert(post@[0] == x);
        } else {
            assert(post@[i] == pre@[i - 1]);
        }
    }
    assert(post.deep_view() =~= seq![x.deep_view()] + pre.deep_view());
}

proof fn lemma_deep_view_push<T: DeepView>(pre: Vec<T>, post: Vec<T>, x: T)
    requires
        post@ == pre@.push(x),
    ensures
        post.deep_view() == pre.deep_view().push(x.deep_view()),
{
    assert forall|i: int| 0 <= i < post.deep_view().len() implies post.deep_view()[i]
        == pre.deep_view().push(x.deep_view())[i] by {
        if i < pre@.len() {
            assert(post@[i] == pre@[i]);
        } else {
            assert(post@[i] == x);
        }
    }
    assert(post.deep_view() =~= pre.deep_view().push(x.deep_view()));
}

/// Start the property list of an update that found no matching property.
fn new_prop_exec(u: PropUpdate) -> (r: Prop)
    ensures
        r.deep_view() == new_prop(u.deep_view()),
{
    match u {
        PropUpdate::TypeEntry(e) => {
            let mut es: Vec<TypeEntry> = Vec::new();
            es.push(e);
            proof {
                assert(es.deep_view() =~= seq![e.deep_view()]);
            }
            Prop::Types(es)
        },
        PropUpdate::Object(key, v) => {
            let mut vs: Vec<ObjectValue> = Vec::new();
            vs.push(v);
            proof {
                assert(vs.deep_view() =~= seq![v.deep_view()]);
            }
            Prop::Objects(key, vs)
        },
    }
}

/// Apply one update to a property list, as `props_add` describes.
fn props_add_exec(props: Vec<Prop>, u: PropUpdate) -> (r: Vec<Prop>)
    ensures
        r.deep_view() == props_add(props.deep_view(), u.deep_view()),
    decreases props@.len(),
{
    if props.len() == 0 {
        proof {
            assert(props.deep_view() =~= Seq::<PropView>::empty());
        }
        let mut r: Vec<Prop> = Vec::new();
        let p = new_prop_exec(u);
        let ghost r0 = r;
        r.push(p);
        proof {
            lemma_deep_view_push(r0, r, p);
            assert(r.deep_view() =~= seq![new_prop(u.deep_view())]);
        }
        r
    } else {
        let mut props = props;
        let ghost pre = props;
        let head = props.remove(0);
        proof {
            lemma_deep_view_drop_first(pre, props);
            assert(head.deep_view() == pre.deep_view()[0]);
        }
        match (head, u) {
            (Prop::Types(es), PropUpdate::TypeEntry(e)) => {
                let mut es = es;
                let ghost es0 = es;
                let ghost e0 = e;
                es.push(e);
                proof {
                    lemma_deep_view_push(es0, es, e0);
                }
                let ghost mid = props;
                props.insert(0, Prop::Types(es));
                proof {
                    lemma_deep_view_insert_first(mid, props, Prop::Types(es));
                }
                props
            },
            (Prop::Objects(key, vs), PropUpdate::Object(ukey, v)) => {
                if key == ukey {
                    let mut vs = vs;
                    let ghost vs0 = vs;
                    let ghost v0 = v;
                    vs.push(v);
                    proof {
                        lemma_deep_view_push(vs0, vs, v0);
                    }
                    let ghost mid = props;
                    props.insert(0, Prop::Objects(key, vs));
                    proof {
                        lemma_deep_view_insert_first(mid, props, Prop::Objects(key, vs));
                    }
                    props
                } else {
                    let mut r = props_add_exec(props, PropUpdate::Object(ukey, v));
                    let ghost mid = r;
                    let back = Prop::Objects(key, vs);
                    r.insert(0, back);
                    proof {
                        lemma_deep_view_insert_first(mid, r, back);
                    }
                    r
                }
            },
            (other, u2) => {
                proof {
                    assert(!prop_matches(other.deep_view(), u2.deep_view()));
                }
                let mut r = props_add_exec(props, u2);
                let ghost mid = r;
                r.insert(0, other);
                proof {
                    lemma_deep_view_insert_first(mid, r, other);
                }
                r
            },
        }
    }
}

/// Apply one update to the accumulator under a subject key, as `acc_add`
/// describes.
fn acc_add_exec(acc: Vec<SubjectAcc>, skey: String, u: PropUpdate) -> (r: Vec<SubjectAcc>)
    ensures
        r.deep_view() == acc_add(acc.deep_view(), skey@, u.deep_view()),
    decreases acc@.len(),
{
    if acc.len() == 0 {
        proof {
            assert(acc.deep_view() =~= Seq::<SubjectAccView>::empty());
        }
        let empty: Vec<Prop> = Vec::new();
        proof {
            assert(empty.deep_view() =~= Seq::<PropView>::empty());
        }
        let props = props_add_exec(empty, u);
        let mut r: Vec<SubjectAcc> = Vec::new();
        let entry = SubjectAcc { key: skey, props };
        let ghost r0 = r;
        r.push(entry);
        proof {
            lemma_deep_view_push(r0, r, entry);
            assert(r.deep_view() =~= seq![entry.deep_view()]);
        }
        r
    } else {
        let mut acc = acc;
        let ghost pre = acc;
        let head = acc.remove(0);
        proof {
            lemma_deep_view_drop_first(pre, acc);
            assert(head.deep_view() == pre.deep_view()[0]);
        }
        let SubjectAcc { key: hkey, props: hprops } = head;
        if hkey == skey {
            let props = props_add_exec(hprops, u);
            let entry = SubjectAcc { key: hkey, props };
            let ghost mid = acc;
            acc.insert(0, entry);
            proof {
                lemma_deep_view_insert_first(mid, acc, entry);
            }
            acc
        } else {
            let mut r = acc_add_exec(acc, skey, u);
            let back = SubjectAcc { key: hkey, props: hprops };
            let ghost mid = r;
            r.insert(0, back);
            proof {
                lemma_deep_view_insert_first(mid, r, back);
            }
            r
        }
    }
}

/// Render one accumulated property as a node field, as `field_of_prop`
/// describes.
fn field_of_prop_exec(p: Prop) -> (r: (String, FieldValue))
    ensures
        r.deep_view() == field_of_prop(p.deep_view()),
{
    match p {
        Prop::Types(es) => {
            if es.len() == 1 {
                let mut es = es;
                let ghost es0 = es;
                match es.pop() {
                    Some(e) => {
                        proof {
                            assert(e.deep_view() == es0.deep_view()[0]);
                        }
                        (String::from_str("@type"), FieldValue::OneType(e))
                    },
                    None => vstd::pervasive::unreached(),
                }
            } else {
                (String::from_str("@type"), FieldValue::Types(es))
            }
        },
        Prop::Objects(key, vs) => (key, FieldValue::Objects(vs)),
    }
}

/// Render one subject entry as a node object, as `node_of` describes.
fn node_of_exec(s: SubjectAcc) -> (r: NodeObject)
    ensures
        r.deep_view() == node_of(s.deep_view()),
{
    let SubjectAcc { key, props } = s;
    let ghost props0 = props;
    let mut props = props;
    let mut fields: Vec<(String, FieldValue)> = Vec::new();
    let ghost k: int = 0;
    proof {
        assert(fields.deep_view() =~= fields_of(props0.deep_view().take(0)));
    }
    while props.len() > 0
        invariant
            0 <= k <= props0.deep_view().len(),
            props.deep_view() == props0.deep_view().skip(k),
            fields.deep_view() == fields_of(props0.deep_view().take(k)),
        decreases props@.len(),
    {
        let ghost pre = props;
        let p = props.remove(0);
        proof {
            lemma_deep_view_drop_first(pre, props);
            assert(p.deep_view() == pre.deep_view()[0]);
            assert(pre.deep_view()[0] == props0.deep_view()[k]);
            assert(pre.deep_view().drop_first() =~= props0.deep_view().skip(k + 1));
        }
        let f = field_of_prop_exec(p);
        let ghost fields0 = fields;
        fields.push(f);
        proof {
            lemma_deep_view_push(fields0, fields, f);
            assert(fields.deep_view() =~= fields_of(props0.deep_view().take(k + 1)));
            k = k + 1;
        }
    }
    proof {
        assert(props0.deep_view().take(k) =~= props0.deep_view());
    }
    NodeObject { id: key, fields }
}

/// Render the whole accumulator as the output document, as `nodes_of`
/// describes.
fn nodes_of_exec(acc: Vec<SubjectAcc>) -> (r: Vec<NodeObject>)
    ensures
        r.deep_view() == nodes_of(acc.deep_view()),
{
    let ghost acc0 = acc;
    let mut acc = acc;
    let mut out: Vec<NodeObject> = Vec::new();
    let ghost k: int = 0;
    proof {
        assert(out.deep_view() =~= acc0.deep_view().take(0).map_values(
            |s: SubjectAccView| node_of(s),
        ));
    }
    while acc.len() > 0
        invariant
            0 <= k <= acc0.deep_view().len(),
            acc.deep_view() == acc0.deep_view().skip(k),
            out.deep_view() == acc0.deep_view().take(k).map_values(|s: SubjectAccView| node_of(s)),
        decreases acc@.len(),
    {
        let ghost pre = acc;
        let s = acc.remove(0);
        proof {
            lemma_deep_view_drop_first(pre, acc);
            assert(s.deep_view() == pre.deep_view()[0]);
            assert(pre.deep_view()[0] == acc0.deep_view()[k]);
            assert(pre.deep_view().drop_first() =~= acc0.deep_view().skip(k + 1));
        }
        let n = node_of_exec(s);
        let ghost out0 = out;
        out.push(n);
        proof {
            lemma_deep_view_push(out0, out, n);
            assert(out.deep_view() =~= acc0.deep_view().take(k + 1).map_values(
                |s: SubjectAccView| node_of(s),
            ));
            k = k + 1;
        }
    }
    proof {
        assert(acc0.deep_view().take(k) =~= acc0.deep_view());
    }
    out
}

proof fn lemma_first_err_at(ts: Seq<Result<Triple, SourceError>>, k: int)
    requires
        0 <= k < ts.len(),
        forall|j: int| 0 <= j < k ==> ts[j] is Ok,
        ts[k] is Err,
    ensures
        first_err(ts) == k,
        !all_ok(ts),
    decreases k,
{
    if k == 0 {
        assert(first_err(ts) == 0);
    } else {
        assert(ts[0] is Ok);
        assert forall|j: int| 0 <= j < k - 1 implies ts.drop_first()[j] is Ok by {
            assert(ts.drop_first()[j] == ts[j + 1]);
        }
        assert(ts.drop_first()[k - 1] == ts[k]);
        lemma_first_err_at(ts.drop_first(), k - 1);
    }
}

/// Convert a finite triple source into a JSON-LD document: one node object
/// per subject, in first-seen order.
///
/// When every element of the source is `Ok`, the result is `Ok` with exactly
/// the document `jsonld_document` describes.  When retrieving some element
/// failed, the conversion fails with the first such error, and no partial
/// document is returned, however many valid triples preceded it.
pub fn rdf_to_jsonld(triples: Vec<Result<Triple, SourceError>>) -> (r: Result<
    Vec<NodeObject>,
    SourceError,
>)
    ensures
        match r {
            Result::Ok(doc) => all_ok(triples@) && doc.deep_view() == jsonld_document(
                ok_triples(triples@),
            ),
            Result::Err(e) => !all_ok(triples@) && e == triples@[first_err(triples@)]->Err_0,
        },
{
    let ghost ts = triples@;
    let mut rest = triples;
    let mut acc: Vec<SubjectAcc> = Vec::new();
    let ghost k: int = 0;
    proof {
        assert(acc.deep_view() =~= Seq::<SubjectAccView>::empty());
        assert(ok_triples(ts.take(0)) =~= Seq::<Triple>::empty());
    }
    while rest.len() > 0
        invariant
            triples@ == ts,
            0 <= k <= ts.len(),
            rest@ == ts.skip(k),
            forall|j: int| 0 <= j < k ==> ts[j] is Ok,
            acc.deep_view() == accumulate(ok_triples(ts.take(k))),
        decreases rest@.len(),
    {
        let ghost pre = rest@;
        let item = rest.remove(0);
        proof {
            assert(item == ts[k]);
            assert(rest@ =~= ts.skip(k + 1));
        }
        match item {
            Result::Err(e) => {
                proof {
                    lemma_first_err_at(ts, k);
                }
                return Result::Err(e);
            },
            Result::Ok(t) => {
                let ghost tg = t;
                proof {
                    assert(ok_triples(ts.take(k + 1)) =~= ok_triples(ts.take(k)).push(tg));
                    assert(ok_triples(ts.take(k)).push(tg).drop_last() =~= ok_triples(ts.take(k)));
                }
                if is_supported_object(&t.object) {
                    let Triple { subject, predicate, object } = t;
                    let skey = subject_key_of(&subject);
                    let rt = String::from_str(rdf_type_iri_str());
                    let upd = if predicate == rt {
                        PropUpdate::TypeEntry(type_entry_of(object))
                    } else {
                        PropUpdate::Object(predicate, object_value_of(object))
                    };
                    proof {
                        assert(upd.deep_view() == triple_update(tg));
                        assert(skey@ == subject_key(tg.subject));
                    }
                    acc = acc_add_exec(acc, skey, upd);
                    proof {
                        assert(acc.deep_view() == accumulate(ok_triples(ts.take(k + 1))));
                    }
                } else {
                    proof {
                        assert(accumulate(ok_triples(ts.take(k + 1))) == accumulate(
                            ok_triples(ts.take(k)),
                        ));
                    }
                }
                proof {
                    k = k + 1;
                }
            },
        }
    }
    proof {
        assert(ts.skip(k).len() == 0);
        assert(k == ts.len());
        assert(ts.take(k) =~= ts);
        assert(all_ok(ts));
    }
    let doc = nodes_of_exec(acc);
    Result::Ok(doc)
}

} // verus!
