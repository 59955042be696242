//! The write engine: turns a populated record plus its descriptor into the
//! deterministic, ordered event sequence of the document model.
//!
//! For a `Start`-kind record the body keeps the fixed category order
//! open, text, children, flatten-text, flatten-empty, flatten-empty-attr,
//! close, whatever the interleaving of roles in the declaration; an
//! `Empty`-kind record is one self-closing element carrying its attributes.

use crate::bytes::copy_bytes;
use crate::codec::{encode_scalar, spec_encode, ScalarModel};
use crate::events::{
    attrs_model, events_model, lemma_attrs_model_concat, lemma_events_model_concat, Attribute,
    AttributeModel, Event, EventModel,
};
use crate::schema::{
    lemma_field_kind_models, Descriptor, DescriptorModel, EventKind, FieldKind, FieldKindModel,
    Occurs,
};
use crate::value::{
    field_conforms, lemma_field_value_models, lemma_record_models, record_conforms, record_models,
    FieldModel, FieldValue, RecordModel, RecordValue,
};
use vstd::prelude::*;

verus! {

/// The write-order categories of a Start-kind element's body.
#[derive(Clone, Copy, Debug, PartialEq, Eq, Structural)]
pub enum BodyCategory {
    TextRole,
    ChildRole,
    FlattenTextRole,
    FlattenEmptyRole,
    FlattenEmptyAttrRole,
}

/// The attribute one scalar field value contributes.
pub open spec fn attr_model_of(key: Seq<u8>, s: ScalarModel) -> AttributeModel {
    AttributeModel { key: key, value: spec_encode(s) }
}

/// Attributes contributed by one declared field.
pub open spec fn spec_field_attrs(f: FieldKindModel, v: FieldModel) -> Seq<AttributeModel> {
    match (f, v) {
        (FieldKindModel::Attribute { key, optional: false, .. }, FieldModel::Scalar(s)) => seq![
            attr_model_of(key, s),
        ],
        (
            FieldKindModel::Attribute { key, optional: true, .. },
            FieldModel::OptScalar(Some(s)),
        ) => seq![attr_model_of(key, s)],
        _ => Seq::empty(),
    }
}

/// Attributes of the declared fields from `i` on, in declared order.
pub open spec fn spec_attrs_from(d: DescriptorModel, r: RecordModel, i: int) -> Seq<
    AttributeModel,
>
    decreases d.fields.len() - i,
{
    if i < 0 || i >= d.fields.len() || d.fields.len() != r.fields.len() {
        Seq::empty()
    } else {
        spec_field_attrs(d.fields[i], r.fields[i]) + spec_attrs_from(d, r, i + 1)
    }
}

/// The element's full attribute list: declared fields in order, then the
/// record's extension attributes when the descriptor declares the hook.
pub open spec fn spec_attrs(d: DescriptorModel, r: RecordModel) -> Seq<AttributeModel> {
    spec_attrs_from(d, r, 0) + (if d.extends_attributes {
        r.extra_attributes
    } else {
        Seq::empty()
    })
}

/// The wrapper-element triple a flatten-text value becomes.
pub open spec fn spec_flatten_text_events(tag: Seq<u8>, s: ScalarModel) -> Seq<EventModel> {
    seq![
        EventModel::Open { tag: tag, attributes: Seq::empty() },
        EventModel::Text { content: spec_encode(s) },
        EventModel::Close { tag: tag },
    ]
}

/// The events one declared field contributes to one body category.
pub open spec fn spec_field_events(cat: BodyCategory, f: FieldKindModel, v: FieldModel) -> Seq<
    EventModel,
>
    decreases v, 2int, 0int,
{
    match cat {
        BodyCategory::TextRole => match (f, v) {
            (FieldKindModel::Text { optional: false, .. }, FieldModel::Scalar(s)) => seq![
                EventModel::Text { content: spec_encode(s) },
            ],
            (FieldKindModel::Text { optional: true, .. }, FieldModel::OptScalar(Some(s))) => seq![
                EventModel::Text { content: spec_encode(s) },
            ],
            _ => Seq::empty(),
        },
        BodyCategory::ChildRole => match (f, v) {
            (
                FieldKindModel::Child { occurs: Occurs::Required, descriptor },
                FieldModel::Child(c),
            ) => spec_write(*descriptor, *c),
            (
                FieldKindModel::Child { occurs: Occurs::Optional, descriptor },
                FieldModel::OptChild(Some(c)),
            ) => spec_write(*descriptor, *c),
            (
                FieldKindModel::Child { occurs: Occurs::Repeated, descriptor },
                FieldModel::Children(s),
            ) => spec_children_events(*descriptor, s, 0),
            _ => Seq::empty(),
        },
        BodyCategory::FlattenTextRole => match (f, v) {
            (FieldKindModel::FlattenText { tag, optional: false, .. }, FieldModel::Scalar(s)) => {
                spec_flatten_text_events(tag, s)
            },
            (
                FieldKindModel::FlattenText { tag, optional: true, .. },
                FieldModel::OptScalar(Some(s)),
            ) => spec_flatten_text_events(tag, s),
            _ => Seq::empty(),
        },
        BodyCategory::FlattenEmptyRole => match (f, v) {
            (FieldKindModel::FlattenEmpty { tag }, FieldModel::Flag(true)) => seq![
                EventModel::SelfClosed { tag: tag, attributes: Seq::empty() },
            ],
            _ => Seq::empty(),
        },
        BodyCategory::FlattenEmptyAttrRole => match (f, v) {
            (
                FieldKindModel::FlattenEmptyAttr { tag, key, optional: false, .. },
                FieldModel::Scalar(s),
            ) => seq![
                EventModel::SelfClosed { tag: tag, attributes: seq![attr_model_of(key, s)] },
            ],
            (
                FieldKindModel::FlattenEmptyAttr { tag, key, optional: true, .. },
                FieldModel::OptScalar(Some(s)),
            ) => seq![
                EventModel::SelfClosed { tag: tag, attributes: seq![attr_model_of(key, s)] },
            ],
            _ => Seq::empty(),
        },
    }
}

/// The events one body category collects over the declared fields from `i`
/// on, in declared order.
pub open spec fn spec_category_events(
    cat: BodyCategory,
    d: DescriptorModel,
    r: RecordModel,
    i: int,
) -> Seq<EventModel>
    decreases r, 1int, d.fields.len() - i,
{
    if i < 0 || i >= d.fields.len() || d.fields.len() != r.fields.len() {
        Seq::empty()
    } else {
        spec_field_events(cat, d.fields[i], r.fields[i]) + spec_category_events(cat, d, r, i + 1)
    }
}

/// The events of a child sequence from `j` on, preserving sequence order.
pub open spec fn spec_children_events(d: DescriptorModel, s: Seq<RecordModel>, j: int) -> Seq<
    EventModel,
>
    decreases s, 3int, s.len() - j,
{
    if j < 0 || j >= s.len() {
        Seq::empty()
    } else {
        spec_write(d, s[j]) + spec_children_events(d, s, j + 1)
    }
}

/// The full event sequence the write engine emits for a record.
pub open spec fn spec_write(d: DescriptorModel, r: RecordModel) -> Seq<EventModel>
    decreases r, 2int, 0int,
{
    if d.kind == EventKind::Empty {
        seq![EventModel::SelfClosed { tag: d.tag, attributes: spec_attrs(d, r) }]
    } else {
        seq![EventModel::Open { tag: d.tag, attributes: spec_attrs(d, r) }]
            + spec_category_events(BodyCategory::TextRole, d, r, 0) + spec_category_events(
            BodyCategory::ChildRole,
            d,
            r,
            0,
        ) + spec_category_events(BodyCategory::FlattenTextRole, d, r, 0) + spec_category_events(
            BodyCategory::FlattenEmptyRole,
            d,
            r,
            0,
        ) + spec_category_events(BodyCategory::FlattenEmptyAttrRole, d, r, 0) + seq![
            EventModel::Close { tag: d.tag },
        ]
    }
}

/// The attribute list one field contributes, as executable output.
fn write_field_attr(f: &FieldKind, v: &FieldValue) -> (out: Vec<Attribute>)
    ensures
        attrs_model(out@) == spec_field_attrs(f@, v@),
{
    let mut out: Vec<Attribute> = Vec::new();
    match (f, v) {
        (FieldKind::Attribute { key, optional, .. }, FieldValue::Scalar(s)) => {
            if !*optional {
                out.push(Attribute { key: copy_bytes(key), value: encode_scalar(s) });
            }
        },
        (FieldKind::Attribute { key, optional, .. }, FieldValue::OptScalar(o)) => {
            if *optional {
                if let Some(s) = o {
                    out.push(Attribute { key: copy_bytes(key), value: encode_scalar(s) });
                }
            }
        },
        _ => {},
    }
    proof {
        assert(attrs_model(out@) =~= spec_field_attrs(f@, v@));
    }
    out
}

/// The attribute lists of the declared fields from `i` on.
fn write_attrs_from(d: &Descriptor, r: &RecordValue, i: usize) -> (out: Vec<Attribute>)
    requires
        d@.fields.len() == r@.fields.len(),
        i <= d.fields@.len(),
    ensures
        attrs_model(out@) == spec_attrs_from(d@, r@, i as int),
    decreases d.fields@.len() - i,
{
    proof {
        lemma_field_kind_models(d.fields@);
        lemma_field_value_models(r.fields@);
    }
    if i >= d.fields.len() {
        let out: Vec<Attribute> = Vec::new();
        proof {
            assert(attrs_model(out@) =~= spec_attrs_from(d@, r@, i as int));
        }
        return out;
    }
    let mut out = write_field_attr(&d.fields[i], &r.fields[i]);
    let mut tail = write_attrs_from(d, r, i + 1);
    let ghost out0 = out@;
    let ghost tail0 = tail@;
    out.append(&mut tail);
    proof {
        lemma_attrs_model_concat(out0, tail0);
        assert(attrs_model(out@) == spec_field_attrs(d@.fields[i as int], r@.fields[i as int])
            + spec_attrs_from(d@, r@, i as int + 1));
    }
    out
}

/// A fresh copy of an attribute list, model for model.
fn copy_attrs(v: &Vec<Attribute>) -> (out: Vec<Attribute>)
    ensures
        attrs_model(out@) == attrs_model(v@),
{
    let mut out: Vec<Attribute> = Vec::new();
    let mut i: usize = 0;
    while i < v.len()
        invariant
            0 <= i <= v.len(),
            out@.len() == i,
            forall|k: int| 0 <= k < i ==> out@[k]@ == v@[k]@,
        decreases v.len() - i,
    {
        let a = &v[i];
        out.push(Attribute { key: copy_bytes(&a.key), value: copy_bytes(&a.value) });
        i = i + 1;
    }
    proof {
        assert(attrs_model(out@) =~= attrs_model(v@));
    }
    out
}

/// The element's full attribute list for a record.
fn write_attrs(d: &Descriptor, r: &RecordValue) -> (out: Vec<Attribute>)
    requires
        d@.fields.len() == r@.fields.len(),
    ensures
        attrs_model(out@) == spec_attrs(d@, r@),
{
    let mut out = write_attrs_from(d, r, 0);
    let ghost out0 = out@;
    if d.extends_attributes {
        let mut extra = copy_attrs(&r.extra_attributes);
        let ghost extra0 = extra@;
        out.append(&mut extra);
        proof {
            lemma_attrs_model_concat(out0, extra0);
        }
    } else {
        proof {
            assert(attrs_model(out@) =~= attrs_model(out@) + Seq::<AttributeModel>::empty());
        }
    }
    out
}

/// The events one declared field contributes to one body category, as
/// executable output.
fn write_field_events(cat: BodyCategory, f: &FieldKind, v: &FieldValue) -> (out: Vec<Event>)
    requires
        field_conforms(f@, v@),
    ensures
        events_model(out@) == spec_field_events(cat, f@, v@),
    decreases v@, 2int, 0int,
{
    let mut out: Vec<Event> = Vec::new();
    match cat {
        BodyCategory::TextRole => {
            match (f, v) {
                (FieldKind::Text { optional, .. }, FieldValue::Scalar(s)) => {
                    if !*optional {
                        out.push(Event::Text { content: encode_scalar(s) });
                    }
                },
                (FieldKind::Text { optional, .. }, FieldValue::OptScalar(o)) => {
                    if *optional {
                        if let Some(s) = o {
                            out.push(Event::Text { content: encode_scalar(s) });
                        }
                    }
                },
                _ => {},
            }
            proof {
                assert(events_model(out@) =~= spec_field_events(cat, f@, v@));
            }
        },
        BodyCategory::ChildRole => {
            match (f, v) {
                (FieldKind::Child { occurs, descriptor }, FieldValue::Child(c)) => {
                    match occurs {
                        Occurs::Required => {
                            out = write_record(&**descriptor, &**c);
                        },
                        _ => {},
                    }
                },
                (FieldKind::Child { occurs, descriptor }, FieldValue::OptChild(o)) => {
                    match occurs {
                        Occurs::Optional => {
                            if let Some(c) = o {
                                out = write_record(&**descriptor, &**c);
                            }
                        },
                        _ => {},
                    }
                },
                (FieldKind::Child { occurs, descriptor }, FieldValue::Children(vs)) => {
                    match occurs {
                        Occurs::Repeated => {
                            out = write_children_from(&**descriptor, vs, 0);
                        },
                        _ => {},
                    }
                },
                _ => {},
            }
            proof {
                assert(events_model(out@) =~= spec_field_events(cat, f@, v@));
            }
        },
        BodyCategory::FlattenTextRole => {
            match (f, v) {
                (FieldKind::FlattenText { tag, optional, .. }, FieldValue::Scalar(s)) => {
                    if !*optional {
                        out.push(Event::Open { tag: copy_bytes(tag), attributes: Vec::new() });
                        out.push(Event::Text { content: encode_scalar(s) });
                        out.push(Event::Close { tag: copy_bytes(tag) });
                    }
                },
                (FieldKind::FlattenText { tag, optional, .. }, FieldValue::OptScalar(o)) => {
                    if *optional {
                        if let Some(s) = o {
                            out.push(Event::Open { tag: copy_bytes(tag), attributes: Vec::new() });
                            out.push(Event::Text { content: encode_scalar(s) });
                            out.push(Event::Close { tag: copy_bytes(tag) });
                        }
                    }
                },
                _ => {},
            }
            proof {
                assert(events_model(out@) =~~= spec_field_events(cat, f@, v@));
            }
        },
        BodyCategory::FlattenEmptyRole => {
            match (f, v) {
                (FieldKind::FlattenEmpty { tag }, FieldValue::Flag(b)) => {
                    if *b {
                        out.push(
                            Event::SelfClosed { tag: copy_bytes(tag), attributes: Vec::new() },
                        );
                    }
                },
                _ => {},
            }
            proof {
                assert(events_model(out@) =~~= spec_field_events(cat, f@, v@));
            }
        },
        BodyCategory::FlattenEmptyAttrRole => {
            match (f, v) {
                (
                    FieldKind::FlattenEmptyAttr { tag, key, optional, .. },
                    FieldValue::Scalar(s),
                ) => {
                    if !*optional {
                        let mut attrs: Vec<Attribute> = Vec::new();
                        attrs.push(Attribute { key: copy_bytes(key), value: encode_scalar(s) });
                        out.push(Event::SelfClosed { tag: copy_bytes(tag), attributes: attrs });
                    }
                },
                (
                    FieldKind::FlattenEmptyAttr { tag, key, optional, .. },
                    FieldValue::OptScalar(o),
                ) => {
                    if *optional {
                        if let Some(s) = o {
                            let mut attrs: Vec<Attribute> = Vec::new();
                            attrs.push(
                                Attribute { key: copy_bytes(key), value: encode_scalar(s) },
                            );
                            out.push(
                                Event::SelfClosed { tag: copy_bytes(tag), attributes: attrs },
                            );
                        }
                    }
                },
                _ => {},
            }
            proof {
                assert(events_model(out@) =~~= spec_field_events(cat, f@, v@));
            }
        },
    }
    out
}

/// The events one body category collects over the declared fields from `i`
/// on.
fn write_category_from(cat: BodyCategory, d: &Descriptor, r: &RecordValue, i: usize) -> (out: Vec<
    Event,
>)
    requires
        record_conforms(d@, r@),
        i <= d.fields@.len(),
    ensures
        events_model(out@) == spec_category_events(cat, d@, r@, i as int),
    decreases r@, 1int, d@.fields.len() - i,
{
    proof {
        lemma_field_kind_models(d.fields@);
        lemma_field_value_models(r.fields@);
    }
    if i >= d.fields.len() {
        let out: Vec<Event> = Vec::new();
        proof {
            assert(events_model(out@) =~= spec_category_events(cat, d@, r@, i as int));
        }
        return out;
    }
    proof {
        assert(field_conforms(d@.fields[i as int], r@.fields[i as int]));
        assert(r.fields@[i as int]@ == r@.fields[i as int]);
    }
    let mut out = write_field_events(cat, &d.fields[i], &r.fields[i]);
    let mut tail = write_category_from(cat, d, r, i + 1);
    let ghost out0 = out@;
    let ghost tail0 = tail@;
    out.append(&mut tail);
    proof {
        lemma_events_model_concat(out0, tail0);
        assert(events_model(out@) == spec_field_events(
            cat,
            d@.fields[i as int],
            r@.fields[i as int],
        ) + spec_category_events(cat, d@, r@, i as int + 1));
    }
    out
}

/// The events of a child sequence from `j` on, preserving sequence order.
fn write_children_from(d: &Descriptor, s: &Vec<RecordValue>, j: usize) -> (out: Vec<Event>)
    requires
        forall|k: int|
            0 <= k < record_models(s@).len() ==> record_conforms(
                d@,
                #[trigger] record_models(s@)[k],
            ),
        j <= s@.len(),
    ensures
        events_model(out@) == spec_children_events(d@, record_models(s@), j as int),
    decreases record_models(s@), 3int, s@.len() - j,
{
    proof {
        lemma_record_models(s@);
    }
    if j >= s.len() {
        let out: Vec<Event> = Vec::new();
        proof {
            assert(events_model(out@) =~= spec_children_events(d@, record_models(s@), j as int));
        }
        return out;
    }
    proof {
        assert(record_models(s@)[j as int] == s@[j as int]@);
        assert(record_conforms(d@, s@[j as int]@));
    }
    let mut out = write_record(d, &s[j]);
    let mut tail = write_children_from(d, s, j + 1);
    let ghost out0 = out@;
    let ghost tail0 = tail@;
    out.append(&mut tail);
    proof {
        lemma_events_model_concat(out0, tail0);
        assert(events_model(out@) == spec_write(d@, record_models(s@)[j as int])
            + spec_children_events(d@, record_models(s@), j as int + 1));
    }
    out
}

/// Writes a populated record against its descriptor: the returned event
/// sequence is exactly `spec_write` of the two models, so the output is a
/// function of the models alone.
pub fn write_record(d: &Descriptor, r: &RecordValue) -> (out: Vec<Event>)
    requires
        record_conforms(d@, r@),
    ensures
        events_model(out@) == spec_write(d@, r@),
    decreases r@, 2int, 0int,
{
    let attrs = write_attrs(d, r);
    let mut out: Vec<Event> = Vec::new();
    match d.kind {
        EventKind::Empty => {
            out.push(Event::SelfClosed { tag: copy_bytes(&d.tag), attributes: attrs });
            proof {
                assert(events_model(out@) =~= spec_write(d@, r@));
            }
        },
        EventKind::Start => {
            out.push(Event::Open { tag: copy_bytes(&d.tag), attributes: attrs });
            let ghost g0 = out@;
            let mut p1 = write_category_from(BodyCategory::TextRole, d, r, 0);
            let ghost p1v = p1@;
            out.append(&mut p1);
            proof {
                lemma_events_model_concat(g0, p1v);
            }
            let ghost g1 = out@;
            let mut p2 = write_category_from(BodyCategory::ChildRole, d, r, 0);
            let ghost p2v = p2@;
            out.append(&mut p2);
            proof {
                lemma_events_model_concat(g1, p2v);
            }
            let ghost g2 = out@;
            let mut p3 = write_category_from(BodyCategory::FlattenTextRole, d, r, 0);
            let ghost p3v = p3@;
            out.append(&mut p3);
            proof {
                lemma_events_model_concat(g2, p3v);
            }
            let ghost g3 = out@;
            let mut p4 = write_category_from(BodyCategory::FlattenEmptyRole, d, r, 0);
            let ghost p4v = p4@;
            out.append(&mut p4);
            proof {
                lemma_events_model_concat(g3, p4v);
            }
            let ghost g4 = out@;
            let mut p5 = write_category_from(BodyCategory::FlattenEmptyAttrRole, d, r, 0);
            let ghost p5v = p5@;
            out.append(&mut p5);
            proof {
                lemma_events_model_concat(g4, p5v);
            }
            out.push(Event::Close { tag: copy_bytes(&d.tag) });
            proof {
                assert(events_model(out@) =~= spec_write(d@, r@));
            }
        },
    }
    out
}

/// Law: writing is deterministic.  The emitted event sequence is a function
/// of the descriptor and record models alone, so two calls to the write
/// engine on equal input produce identical event sequences.
pub proof fn lemma_write_deterministic(
    d1: DescriptorModel,
    r1: RecordModel,
    d2: DescriptorModel,
    r2: RecordModel,
)
    requires
        d1 == d2,
        r1 == r2,
    ensures
        spec_write(d1, r1) == spec_write(d2, r2),
{
}

/// Law: category ordering.  For a Start-kind record the emitted sequence
/// always groups as open, text, children, flatten-text, flatten-empty,
/// flatten-empty-attr, close — each group in declared field order — whatever
/// the interleaving of roles across the declaration.
pub proof fn lemma_category_order(d: DescriptorModel, r: RecordModel)
    requires
        d.kind == EventKind::Start,
    ensures
        spec_write(d, r) == seq![EventModel::Open { tag: d.tag, attributes: spec_attrs(d, r) }]
            + spec_category_events(BodyCategory::TextRole, d, r, 0) + spec_category_events(
            BodyCategory::ChildRole,
            d,
            r,
            0,
        ) + spec_category_events(BodyCategory::FlattenTextRole, d, r, 0) + spec_category_events(
            BodyCategory::FlattenEmptyRole,
            d,
            r,
            0,
        ) + spec_category_events(BodyCategory::FlattenEmptyAttrRole, d, r, 0) + seq![
            EventModel::Close { tag: d.tag },
        ],
{
}

} // verus!
