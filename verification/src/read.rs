//! The read engine: consumes an event sequence against a descriptor and
//! reconstructs a populated record, or reports the first failure.
//!
//! The caller hands the position of the triggering event (open or
//! self-closing) whose tag identified the descriptor.  Attribute lookup is by
//! key and order-independent; body events are dispatched by tag, so children
//! and flattened fields may arrive in any order; a sequence field accumulates
//! occurrences in encounter order.  Tagged unions dispatch on the upcoming
//! tag through the variant descriptor.

use crate::bytes::{bytes_eq, copy_bytes};
use crate::codec::{decode_scalar, spec_decode, Scalar, ScalarKind};
use crate::events::{attrs_model, events_model, Attribute, AttributeModel, Event, EventModel};
use crate::schema::{
    body_tag_of, lemma_field_kind_models, Descriptor, DescriptorModel, EventKind, FieldKind,
    FieldKindModel, Occurs, VariantDescriptor,
};
use crate::value::{
    field_value_model, field_value_models, lemma_field_value_models, lemma_record_models,
    FieldModel, FieldValue, RecordModel, RecordValue,
};
use vstd::prelude::*;

verus! {

/// The failures a read can report; each is terminal for the current call.
#[derive(Clone, Copy, Debug, PartialEq, Eq, Structural)]
pub enum ReadError {
    /// An event of a kind not valid in the current state.
    UnexpectedEvent,
    /// An encountered tag matches no declared child or flatten role.
    UnexpectedTag,
    /// The event sequence ended before the record's terminal state.
    UnexpectedEof,
    /// A non-sequence child role occurred more than once.
    DuplicateChild,
    /// A scalar value failed its strict parse.
    DecodeError,
    /// No tagged-union alternative matches the encountered tag.
    InvalidEnumVariant,
}

/// One parsed variant of a tagged union: which alternative matched, and its
/// record.
#[derive(Debug, PartialEq)]
pub struct VariantValue {
    pub index: usize,
    pub record: RecordValue,
}

/// Last-wins lookup of a key among the first `n` attributes.
pub open spec fn spec_lookup_attr_upto(attrs: Seq<AttributeModel>, key: Seq<u8>, n: int) -> Option<
    Seq<u8>,
>
    decreases n,
{
    if n <= 0 || n > attrs.len() {
        None
    } else if attrs[n - 1].key == key {
        Some(attrs[n - 1].value)
    } else {
        spec_lookup_attr_upto(attrs, key, n - 1)
    }
}

/// Last-wins lookup of a key in an attribute list.
pub open spec fn spec_lookup_attr(attrs: Seq<AttributeModel>, key: Seq<u8>) -> Option<Seq<u8>> {
    spec_lookup_attr_upto(attrs, key, attrs.len() as int)
}

/// Pairwise-distinct attribute keys.
pub open spec fn distinct_attr_keys(attrs: Seq<AttributeModel>) -> bool {
    forall|i: int, j: int|
        0 <= i < j < attrs.len() ==> (#[trigger] attrs[i]).key != (#[trigger] attrs[j]).key
}

/// What a lookup among the first `n` attributes says about the entries.
proof fn lemma_lookup_upto_found(attrs: Seq<AttributeModel>, key: Seq<u8>, n: int)
    requires
        0 <= n <= attrs.len(),
    ensures
        match spec_lookup_attr_upto(attrs, key, n) {
            Some(v) => exists|j: int|
                0 <= j < n && (#[trigger] attrs[j]).key == key && attrs[j].value == v,
            None => forall|j: int| 0 <= j < n ==> (#[trigger] attrs[j]).key != key,
        },
    decreases n,
{
    if n > 0 {
        lemma_lookup_upto_found(attrs, key, n - 1);
    }
}

/// With pairwise-distinct keys, a lookup is fixed by the set of attribute
/// pairs alone: it finds the one entry carrying the key, however the list
/// is ordered.
pub proof fn lemma_lookup_order_independent(
    a1: Seq<AttributeModel>,
    a2: Seq<AttributeModel>,
    key: Seq<u8>,
)
    requires
        distinct_attr_keys(a1),
        distinct_attr_keys(a2),
        forall|x: AttributeModel| a1.contains(x) <==> a2.contains(x),
    ensures
        spec_lookup_attr(a1, key) == spec_lookup_attr(a2, key),
{
    lemma_lookup_upto_found(a1, key, a1.len() as int);
    lemma_lookup_upto_found(a2, key, a2.len() as int);
    match spec_lookup_attr(a1, key) {
        Some(v) => {
            let j = choose|j: int|
                0 <= j < a1.len() && (#[trigger] a1[j]).key == key && a1[j].value == v;
            assert(a1.contains(a1[j]));
            assert(a2.contains(a1[j]));
            match spec_lookup_attr(a2, key) {
                Some(w) => {
                    let m = choose|m: int|
                        0 <= m < a2.len() && (#[trigger] a2[m]).key == key && a2[m].value == w;
                    let x = choose|x: int| 0 <= x < a2.len() && a2[x] == a1[j];
                    assert(a2[m] == a2[x]);
                },
                None => {
                    let x = choose|x: int| 0 <= x < a2.len() && a2[x] == a1[j];
                    assert(false);
                },
            }
        },
        None => {
            match spec_lookup_attr(a2, key) {
                Some(w) => {
                    let m = choose|m: int|
                        0 <= m < a2.len() && (#[trigger] a2[m]).key == key && a2[m].value == w;
                    assert(a1.contains(a2[m]));
                    let x = choose|x: int| 0 <= x < a1.len() && a1[x] == a2[m];
                    assert(false);
                },
                None => {},
            }
        },
    }
}

/// Law: attribute order-independence on read.  Populating the
/// attribute-role fields goes by key lookup alone, so two attribute lists
/// with pairwise-distinct keys carrying the same pairs — the same list in
/// any order — populate every record identically, whichever order the
/// source presented them in.
pub proof fn lemma_read_attrs_order_independent(
    d: DescriptorModel,
    a1: Seq<AttributeModel>,
    a2: Seq<AttributeModel>,
    i: int,
)
    requires
        distinct_attr_keys(a1),
        distinct_attr_keys(a2),
        forall|x: AttributeModel| a1.contains(x) <==> a2.contains(x),
    ensures
        spec_read_attrs(d, a1, i) == spec_read_attrs(d, a2, i),
    decreases d.fields.len() - i,
{
    if 0 <= i < d.fields.len() {
        match d.fields[i] {
            FieldKindModel::Attribute { key, .. } => {
                lemma_lookup_order_independent(a1, a2, key);
            },
            _ => {},
        }
        lemma_read_attrs_order_independent(d, a1, a2, i + 1);
    }
}

/// Models of a partial-state list, in order.
pub open spec fn state_models(s: Seq<Option<FieldValue>>) -> Seq<Option<FieldModel>>
    decreases s,
{
    if s.len() == 0 {
        Seq::empty()
    } else {
        state_models(s.drop_last()).push(
            match s.last() {
                Some(v) => Some(field_value_model(v)),
                None => None,
            },
        )
    }
}

/// The model list is the list of the models, index for index.
pub proof fn lemma_state_models(s: Seq<Option<FieldValue>>)
    ensures
        state_models(s).len() == s.len(),
        forall|i: int|
            0 <= i < s.len() ==> state_models(s)[i] == (match s[i] {
                Some(v) => Some(field_value_model(v)),
                None => None,
            }),
    decreases s,
{
    if s.len() > 0 {
        lemma_state_models(s.drop_last());
    }
}

/// The scalar a never-encountered field defaults to: the class's
/// zero-equivalent value.
pub open spec fn spec_default_scalar(k: ScalarKind) -> crate::codec::ScalarModel {
    match k {
        ScalarKind::Bytes => crate::codec::ScalarModel::Bytes(Seq::empty()),
        ScalarKind::Boolean => crate::codec::ScalarModel::Boolean(false),
        ScalarKind::Unsigned => crate::codec::ScalarModel::Unsigned(0),
    }
}

/// The value a never-encountered field defaults to: false, absent, the empty
/// sequence, or a record of defaults.
pub open spec fn spec_default_field(f: FieldKindModel) -> FieldModel
    decreases f, 0int,
{
    match f {
        FieldKindModel::Attribute { kind, optional, .. } => if optional {
            FieldModel::OptScalar(None)
        } else {
            FieldModel::Scalar(spec_default_scalar(kind))
        },
        FieldKindModel::Text { kind, optional } => if optional {
            FieldModel::OptScalar(None)
        } else {
            FieldModel::Scalar(spec_default_scalar(kind))
        },
        FieldKindModel::FlattenText { kind, optional, .. } => if optional {
            FieldModel::OptScalar(None)
        } else {
            FieldModel::Scalar(spec_default_scalar(kind))
        },
        FieldKindModel::FlattenEmpty { .. } => FieldModel::Flag(false),
        FieldKindModel::FlattenEmptyAttr { kind, optional, .. } => if optional {
            FieldModel::OptScalar(None)
        } else {
            FieldModel::Scalar(spec_default_scalar(kind))
        },
        FieldKindModel::Child { occurs, descriptor } => match occurs {
            Occurs::Required => FieldModel::Child(Box::new(spec_default_record(*descriptor))),
            Occurs::Optional => FieldModel::OptChild(None),
            Occurs::Repeated => FieldModel::Children(Seq::empty()),
        },
    }
}

/// Default field values of the declarations from `i` on.
pub open spec fn spec_default_fields(fields: Seq<FieldKindModel>, i: int) -> Seq<FieldModel>
    decreases fields, 1int, fields.len() - i,
{
    if i < 0 || i >= fields.len() {
        Seq::empty()
    } else {
        seq![spec_default_field(fields[i])] + spec_default_fields(fields, i + 1)
    }
}

/// The record a descriptor defaults to when nothing is encountered.
pub open spec fn spec_default_record(d: DescriptorModel) -> RecordModel
    decreases d, 2int,
{
    RecordModel { fields: spec_default_fields(d.fields, 0), extra_attributes: Seq::empty() }
}

/// The final fields: each encountered value, or the field's default.
pub open spec fn spec_finish_fields(
    fields: Seq<FieldKindModel>,
    st: Seq<Option<FieldModel>>,
    i: int,
) -> Seq<FieldModel>
    decreases fields.len() - i,
{
    if i < 0 || i >= fields.len() {
        Seq::empty()
    } else {
        seq![
            match st[i] {
                Some(v) => v,
                None => spec_default_field(fields[i]),
            },
        ] + spec_finish_fields(fields, st, i + 1)
    }
}

/// The record the terminal state constructs.
pub open spec fn spec_finish(d: DescriptorModel, st: Seq<Option<FieldModel>>) -> RecordModel {
    RecordModel { fields: spec_finish_fields(d.fields, st, 0), extra_attributes: Seq::empty() }
}

/// Populates the attribute-role fields from `i` on by key lookup; unmatched
/// keys stay unset, unmatched attributes are ignored.
pub open spec fn spec_read_attrs(
    d: DescriptorModel,
    attrs: Seq<AttributeModel>,
    i: int,
) -> Result<Seq<Option<FieldModel>>, ReadError>
    decreases d.fields.len() - i,
{
    if i < 0 || i >= d.fields.len() {
        Ok(Seq::empty())
    } else {
        let head = match d.fields[i] {
            FieldKindModel::Attribute { key, kind, optional } => match spec_lookup_attr(
                attrs,
                key,
            ) {
                Some(val) => match spec_decode(kind, val) {
                    Some(s) => Ok(
                        Some(
                            if optional {
                                FieldModel::OptScalar(Some(s))
                            } else {
                                FieldModel::Scalar(s)
                            },
                        ),
                    ),
                    None => Err(ReadError::DecodeError),
                },
                None => Ok(None),
            },
            _ => Ok(None),
        };
        match head {
            Ok(h) => match spec_read_attrs(d, attrs, i + 1) {
                Ok(t) => Ok(seq![h] + t),
                Err(e) => Err(e),
            },
            Err(e) => Err(e),
        }
    }
}

/// The first declared field of a body role answering to `tag`, from `i` on.
pub open spec fn spec_find_body_field(fields: Seq<FieldKindModel>, tag: Seq<u8>, i: int) -> Option<
    int,
>
    decreases fields.len() - i,
{
    if i < 0 || i >= fields.len() {
        None
    } else if body_tag_of(fields[i]) == Some(tag) {
        Some(i)
    } else {
        spec_find_body_field(fields, tag, i + 1)
    }
}

/// The declared text-role field, from `i` on.
pub open spec fn spec_find_text_field(fields: Seq<FieldKindModel>, i: int) -> Option<int>
    decreases fields.len() - i,
{
    if i < 0 || i >= fields.len() {
        None
    } else if fields[i] is Text {
        Some(i)
    } else {
        spec_find_text_field(fields, i + 1)
    }
}

/// Reads one record starting at `pos`, which must hold the triggering open
/// or self-closing event for `d.tag`.
pub open spec fn spec_read(d: DescriptorModel, evs: Seq<EventModel>, pos: int) -> Result<
    (RecordModel, int),
    ReadError,
>
    decreases evs.len() - pos, d, 2int,
{
    if pos < 0 || pos >= evs.len() {
        Err(ReadError::UnexpectedEof)
    } else {
        match evs[pos] {
            EventModel::SelfClosed { tag, attributes } => {
                if tag == d.tag && d.kind == EventKind::Empty {
                    match spec_read_attrs(d, attributes, 0) {
                        Ok(st) => Ok((spec_finish(d, st), pos + 1)),
                        Err(e) => Err(e),
                    }
                } else {
                    Err(ReadError::UnexpectedEvent)
                }
            },
            EventModel::Open { tag, attributes } => {
                if tag == d.tag && d.kind == EventKind::Start {
                    match spec_read_attrs(d, attributes, 0) {
                        Ok(st) => spec_read_body(d, evs, pos + 1, st),
                        Err(e) => Err(e),
                    }
                } else {
                    Err(ReadError::UnexpectedEvent)
                }
            },
            _ => Err(ReadError::UnexpectedEvent),
        }
    }
}

/// The body state machine: dispatches each event by kind and tag until the
/// matching close event.
pub open spec fn spec_read_body(
    d: DescriptorModel,
    evs: Seq<EventModel>,
    pos: int,
    st: Seq<Option<FieldModel>>,
) -> Result<(RecordModel, int), ReadError>
    decreases evs.len() - pos, d, 1int,
{
    if pos < 0 || pos >= evs.len() {
        Err(ReadError::UnexpectedEof)
    } else {
        match evs[pos] {
            EventModel::Close { tag } => {
                if tag == d.tag {
                    Ok((spec_finish(d, st), pos + 1))
                } else {
                    Err(ReadError::UnexpectedEvent)
                }
            },
            EventModel::Text { content } => {
                match spec_find_text_field(d.fields, 0) {
                    Some(t) => match d.fields[t] {
                        FieldKindModel::Text { kind, optional } => match spec_decode(
                            kind,
                            content,
                        ) {
                            Some(s) => spec_read_body(
                                d,
                                evs,
                                pos + 1,
                                st.update(
                                    t,
                                    Some(
                                        if optional {
                                            FieldModel::OptScalar(Some(s))
                                        } else {
                                            FieldModel::Scalar(s)
                                        },
                                    ),
                                ),
                            ),
                            None => Err(ReadError::DecodeError),
                        },
                        _ => Err(ReadError::UnexpectedEvent),
                    },
                    None => Err(ReadError::UnexpectedEvent),
                }
            },
            EventModel::Open { tag: ctag, .. } => {
                match spec_find_body_field(d.fields, ctag, 0) {
                    Some(fi) => match d.fields[fi] {
                        FieldKindModel::Child { .. } => spec_read_child(d, evs, pos, st, fi),
                        FieldKindModel::FlattenText { kind, optional, .. } => {
                            spec_read_flatten_text(d, evs, pos, st, fi, kind, optional, ctag)
                        },
                        _ => Err(ReadError::UnexpectedEvent),
                    },
                    None => Err(ReadError::UnexpectedTag),
                }
            },
            EventModel::SelfClosed { tag: ctag, attributes: cattrs } => {
                match spec_find_body_field(d.fields, ctag, 0) {
                    Some(fi) => match d.fields[fi] {
                        FieldKindModel::Child { .. } => spec_read_child(d, evs, pos, st, fi),
                        FieldKindModel::FlattenEmpty { .. } => spec_read_body(
                            d,
                            evs,
                            pos + 1,
                            st.update(fi, Some(FieldModel::Flag(true))),
                        ),
                        FieldKindModel::FlattenEmptyAttr { key, kind, optional, .. } => {
                            match spec_lookup_attr(cattrs, key) {
                                Some(val) => match spec_decode(kind, val) {
                                    Some(s) => spec_read_body(
                                        d,
                                        evs,
                                        pos + 1,
                                        st.update(
                                            fi,
                                            Some(
                                                if optional {
                                                    FieldModel::OptScalar(Some(s))
                                                } else {
                                                    FieldModel::Scalar(s)
                                                },
                                            ),
                                        ),
                                    ),
                                    None => Err(ReadError::DecodeError),
                                },
                                None => Err(ReadError::UnexpectedEvent),
                            }
                        },
                        FieldKindModel::FlattenText { kind, optional, .. } => {
                            match spec_decode(kind, Seq::empty()) {
                                Some(s) => spec_read_body(
                                    d,
                                    evs,
                                    pos + 1,
                                    st.update(
                                        fi,
                                        Some(
                                            if optional {
                                                FieldModel::OptScalar(Some(s))
                                            } else {
                                                FieldModel::Scalar(s)
                                            },
                                        ),
                                    ),
                                ),
                                None => Err(ReadError::DecodeError),
                            }
                        },
                        _ => Err(ReadError::UnexpectedEvent),
                    },
                    None => Err(ReadError::UnexpectedTag),
                }
            },
        }
    }
}

/// Reads one child occurrence at `pos` into field `fi`, then continues the
/// body: a second occurrence of a non-sequence child is a duplicate; a
/// sequence appends in encounter order.
pub open spec fn spec_read_child(
    d: DescriptorModel,
    evs: Seq<EventModel>,
    pos: int,
    st: Seq<Option<FieldModel>>,
    fi: int,
) -> Result<(RecordModel, int), ReadError>
    decreases evs.len() - pos, d, 0int,
{
    if fi < 0 || fi >= d.fields.len() || !(d.fields[fi] is Child) {
        Err(ReadError::UnexpectedEvent)
    } else {
        let occurs = d.fields[fi]->Child_occurs;
        let cd = *d.fields[fi]->Child_descriptor;
        match spec_read(cd, evs, pos) {
        Ok((crec, pos2)) => {
            if pos2 <= pos || pos2 > evs.len() {
                Err(ReadError::UnexpectedEof)
            } else {
                match occurs {
                    Occurs::Required => {
                        if st[fi] is Some {
                            Err(ReadError::DuplicateChild)
                        } else {
                            spec_read_body(
                                d,
                                evs,
                                pos2,
                                st.update(fi, Some(FieldModel::Child(Box::new(crec)))),
                            )
                        }
                    },
                    Occurs::Optional => {
                        if st[fi] is Some {
                            Err(ReadError::DuplicateChild)
                        } else {
                            spec_read_body(
                                d,
                                evs,
                                pos2,
                                st.update(fi, Some(FieldModel::OptChild(Some(Box::new(crec))))),
                            )
                        }
                    },
                    Occurs::Repeated => {
                        let cur = match st[fi] {
                            Some(FieldModel::Children(s)) => s,
                            _ => Seq::empty(),
                        };
                        spec_read_body(
                            d,
                            evs,
                            pos2,
                            st.update(fi, Some(FieldModel::Children(cur.push(crec)))),
                        )
                    },
                }
            }
        },
        Err(e) => Err(e),
    }
    }
}

/// Reads the wrapper triple of a flatten-text field whose open event stands
/// at `pos`; an immediately following close yields the empty value.
pub open spec fn spec_read_flatten_text(
    d: DescriptorModel,
    evs: Seq<EventModel>,
    pos: int,
    st: Seq<Option<FieldModel>>,
    fi: int,
    kind: ScalarKind,
    optional: bool,
    ctag: Seq<u8>,
) -> Result<(RecordModel, int), ReadError>
    decreases evs.len() - pos, d, 0int,
{
    if pos + 1 >= evs.len() {
        Err(ReadError::UnexpectedEof)
    } else {
        match evs[pos + 1] {
            EventModel::Text { content } => {
                if pos + 2 >= evs.len() {
                    Err(ReadError::UnexpectedEof)
                } else {
                    match evs[pos + 2] {
                        EventModel::Close { tag } => {
                            if tag == ctag {
                                match spec_decode(kind, content) {
                                    Some(s) => spec_read_body(
                                        d,
                                        evs,
                                        pos + 3,
                                        st.update(
                                            fi,
                                            Some(
                                                if optional {
                                                    FieldModel::OptScalar(Some(s))
                                                } else {
                                                    FieldModel::Scalar(s)
                                                },
                                            ),
                                        ),
                                    ),
                                    None => Err(ReadError::DecodeError),
                                }
                            } else {
                                Err(ReadError::UnexpectedEvent)
                            }
                        },
                        _ => Err(ReadError::UnexpectedEvent),
                    }
                }
            },
            EventModel::Close { tag } => {
                if tag == ctag {
                    match spec_decode(kind, Seq::empty()) {
                        Some(s) => spec_read_body(
                            d,
                            evs,
                            pos + 2,
                            st.update(
                                fi,
                                Some(
                                    if optional {
                                        FieldModel::OptScalar(Some(s))
                                    } else {
                                        FieldModel::Scalar(s)
                                    },
                                ),
                            ),
                        ),
                        None => Err(ReadError::DecodeError),
                    }
                } else {
                    Err(ReadError::UnexpectedEvent)
                }
            },
            _ => Err(ReadError::UnexpectedEvent),
        }
    }
}

/// Last-wins lookup among the first `n` attributes, as executable code.
fn lookup_attr_upto(attrs: &Vec<Attribute>, key: &Vec<u8>, n: usize) -> (r: Option<Vec<u8>>)
    requires
        n <= attrs@.len(),
    ensures
        match r {
            Some(v) => spec_lookup_attr_upto(attrs_model(attrs@), key@, n as int) == Some(v@),
            None => spec_lookup_attr_upto(attrs_model(attrs@), key@, n as int) is None,
        },
    decreases n,
{
    if n == 0 {
        None
    } else {
        proof {
            assert(attrs_model(attrs@)[n - 1] == attrs@[n - 1]@);
        }
        let a = &attrs[n - 1];
        if bytes_eq(&a.key, key) {
            Some(copy_bytes(&a.value))
        } else {
            lookup_attr_upto(attrs, key, n - 1)
        }
    }
}

/// Last-wins lookup of a key in an attribute list.
fn lookup_attr(attrs: &Vec<Attribute>, key: &Vec<u8>) -> (r: Option<Vec<u8>>)
    ensures
        match r {
            Some(v) => spec_lookup_attr(attrs_model(attrs@), key@) == Some(v@),
            None => spec_lookup_attr(attrs_model(attrs@), key@) is None,
        },
{
    lookup_attr_upto(attrs, key, attrs.len())
}

/// Populates the attribute-role fields from `i` on by key lookup.
fn read_attrs_from(d: &Descriptor, attrs: &Vec<Attribute>, i: usize) -> (r: Result<
    Vec<Option<FieldValue>>,
    ReadError,
>)
    requires
        i <= d.fields@.len(),
    ensures
        match r {
            Ok(st) => spec_read_attrs(d@, attrs_model(attrs@), i as int) == Ok::<_, ReadError>(
                state_models(st@),
            ) && st@.len() == d.fields@.len() - i,
            Err(e) => spec_read_attrs(d@, attrs_model(attrs@), i as int) == Err::<
                Seq<Option<FieldModel>>,
                _,
            >(e),
        },
    decreases d.fields@.len() - i,
{
    proof {
        lemma_field_kind_models(d.fields@);
    }
    if i >= d.fields.len() {
        let st: Vec<Option<FieldValue>> = Vec::new();
        proof {
            assert(state_models(st@) =~= Seq::<Option<FieldModel>>::empty());
        }
        return Ok(st);
    }
    let head: Option<FieldValue> = match &d.fields[i] {
        FieldKind::Attribute { key, kind, optional } => {
            match lookup_attr(attrs, key) {
                Some(val) => match decode_scalar(*kind, &val) {
                    Some(s) => {
                        if *optional {
                            Some(FieldValue::OptScalar(Some(s)))
                        } else {
                            Some(FieldValue::Scalar(s))
                        }
                    },
                    None => {
                        return Err(ReadError::DecodeError);
                    },
                },
                None => None,
            }
        },
        _ => None,
    };
    match read_attrs_from(d, attrs, i + 1) {
        Ok(tail) => {
            let ghost tail0 = tail@;
            let ghost head0 = head;
            let mut st = tail;
            st.insert(0, head);
            proof {
                lemma_state_models(st@);
                lemma_state_models(tail0);
                assert(state_models(st@) =~= seq![
                    match head0 {
                        Some(v) => Some(field_value_model(v)),
                        None => None,
                    },
                ] + state_models(tail0));
            }
            Ok(st)
        },
        Err(e) => Err(e),
    }
}

/// The zero-equivalent scalar of a class.
fn default_scalar_value(k: ScalarKind) -> (out: Scalar)
    ensures
        out@ == spec_default_scalar(k),
{
    match k {
        ScalarKind::Bytes => Scalar::Bytes(Vec::new()),
        ScalarKind::Boolean => Scalar::Boolean(false),
        ScalarKind::Unsigned => Scalar::Unsigned(0),
    }
}

/// The default value of a never-encountered field.
fn default_field_value(f: &FieldKind) -> (out: FieldValue)
    ensures
        out@ == spec_default_field(f@),
    decreases f@, 0int,
{
    match f {
        FieldKind::Attribute { kind, optional, .. } => {
            if *optional {
                FieldValue::OptScalar(None)
            } else {
                FieldValue::Scalar(default_scalar_value(*kind))
            }
        },
        FieldKind::Text { kind, optional } => {
            if *optional {
                FieldValue::OptScalar(None)
            } else {
                FieldValue::Scalar(default_scalar_value(*kind))
            }
        },
        FieldKind::FlattenText { kind, optional, .. } => {
            if *optional {
                FieldValue::OptScalar(None)
            } else {
                FieldValue::Scalar(default_scalar_value(*kind))
            }
        },
        FieldKind::FlattenEmpty { .. } => FieldValue::Flag(false),
        FieldKind::FlattenEmptyAttr { kind, optional, .. } => {
            if *optional {
                FieldValue::OptScalar(None)
            } else {
                FieldValue::Scalar(default_scalar_value(*kind))
            }
        },
        FieldKind::Child { occurs, descriptor } => {
            match occurs {
                Occurs::Required => FieldValue::Child(Box::new(default_record(&**descriptor))),
                Occurs::Optional => FieldValue::OptChild(None),
                Occurs::Repeated => FieldValue::Children(Vec::new()),
            }
        },
    }
}

/// The record of defaults a descriptor yields when nothing is encountered.
fn default_record(d: &Descriptor) -> (out: RecordValue)
    ensures
        out@ == spec_default_record(d@),
    decreases d@, 1int,
{
    proof {
        lemma_field_kind_models(d.fields@);
    }
    let mut fields: Vec<FieldValue> = Vec::new();
    let mut i: usize = 0;
    proof {
        assert(field_value_models(fields@) =~= Seq::<FieldModel>::empty());
    }
    while i < d.fields.len()
        invariant
            0 <= i <= d.fields@.len(),
            d@.fields.len() == d.fields@.len(),
            forall|k: int| 0 <= k < d.fields@.len() ==> d@.fields[k] == d.fields@[k]@,
            field_value_models(fields@) + spec_default_fields(d@.fields, i as int)
                == spec_default_fields(d@.fields, 0),
        decreases d.fields@.len() - i,
    {
        let ghost f0 = fields@;
        let x = default_field_value(&d.fields[i]);
        fields.push(x);
        proof {
            assert(fields@.drop_last() =~= f0);
            assert(field_value_models(fields@) == field_value_models(f0).push(
                spec_default_field(d@.fields[i as int]),
            ));
            assert(field_value_models(f0).push(spec_default_field(d@.fields[i as int]))
                + spec_default_fields(d@.fields, i as int + 1) =~= field_value_models(f0) + (seq![
                spec_default_field(d@.fields[i as int]),
            ] + spec_default_fields(d@.fields, i as int + 1)));
        }
        i = i + 1;
    }
    proof {
        assert(field_value_models(fields@) + Seq::<FieldModel>::empty() =~= field_value_models(
            fields@,
        ));
        assert(attrs_model(Seq::<Attribute>::empty()) =~= Seq::<AttributeModel>::empty());
    }
    RecordValue { fields, extra_attributes: Vec::new() }
}

/// Constructs the final record from the body state, applying defaults to
/// the fields never encountered.
fn finish_record(d: &Descriptor, st: Vec<Option<FieldValue>>) -> (out: RecordValue)
    requires
        st@.len() == d.fields@.len(),
    ensures
        out@ == spec_finish(d@, state_models(st@)),
{
    proof {
        lemma_field_kind_models(d.fields@);
        lemma_state_models(st@);
    }
    let ghost st0 = state_models(st@);
    let mut rest = st;
    let mut fields: Vec<FieldValue> = Vec::new();
    let mut i: usize = 0;
    proof {
        assert(field_value_models(fields@) =~= Seq::<FieldModel>::empty());
        assert(state_models(rest@) =~= st0.subrange(0, st0.len() as int));
    }
    while i < d.fields.len()
        invariant
            0 <= i <= d.fields@.len(),
            d@.fields.len() == d.fields@.len(),
            st0.len() == d.fields@.len(),
            forall|k: int| 0 <= k < d.fields@.len() ==> d@.fields[k] == d.fields@[k]@,
            state_models(rest@) == st0.subrange(i as int, st0.len() as int),
            rest@.len() == st0.len() - i,
            field_value_models(fields@) + spec_finish_fields(d@.fields, st0, i as int)
                == spec_finish_fields(d@.fields, st0, 0),
        decreases d.fields@.len() - i,
    {
        proof {
            lemma_state_models(rest@);
            assert(state_models(rest@)[0] == st0[i as int]);
        }
        let ghost r0 = rest@;
        let fv = rest.remove(0);
        proof {
            lemma_state_models(rest@);
            lemma_state_models(r0);
            assert(rest@ =~= r0.subrange(1, r0.len() as int));
            assert forall|k: int| 0 <= k < rest@.len() implies state_models(rest@)[k]
                == st0.subrange(i as int + 1, st0.len() as int)[k] by {
                assert(rest@[k] == r0[k + 1]);
                assert(state_models(rest@)[k] == state_models(r0)[k + 1]);
                assert(state_models(r0)[k + 1] == st0.subrange(i as int, st0.len() as int)[k + 1]);
            }
            assert(state_models(rest@) =~= st0.subrange(i as int + 1, st0.len() as int));
        }
        let ghost f0 = fields@;
        let x = match fv {
            Some(v) => v,
            None => default_field_value(&d.fields[i]),
        };
        fields.push(x);
        proof {
            assert(fields@.drop_last() =~= f0);
            assert(field_value_models(fields@) == field_value_models(f0).push(
                match st0[i as int] {
                    Some(v) => v,
                    None => spec_default_field(d@.fields[i as int]),
                },
            ));
            assert(field_value_models(f0).push(
                match st0[i as int] {
                    Some(v) => v,
                    None => spec_default_field(d@.fields[i as int]),
                },
            ) + spec_finish_fields(d@.fields, st0, i as int + 1) =~= field_value_models(f0)
                + spec_finish_fields(d@.fields, st0, i as int));
        }
        i = i + 1;
    }
    proof {
        assert(field_value_models(fields@) + Seq::<FieldModel>::empty() =~= field_value_models(
            fields@,
        ));
        assert(attrs_model(Seq::<Attribute>::empty()) =~= Seq::<AttributeModel>::empty());
    }
    RecordValue { fields, extra_attributes: Vec::new() }
}

/// Whether a field of a body role answers to `tag`.
fn body_tag_matches(f: &FieldKind, tag: &Vec<u8>) -> (r: bool)
    ensures
        r == (body_tag_of(f@) == Some(tag@)),
{
    match f {
        FieldKind::Child { descriptor, .. } => bytes_eq(&descriptor.tag, tag),
        FieldKind::FlattenText { tag: t, .. } => bytes_eq(t, tag),
        FieldKind::FlattenEmpty { tag: t } => bytes_eq(t, tag),
        FieldKind::FlattenEmptyAttr { tag: t, .. } => bytes_eq(t, tag),
        FieldKind::Attribute { .. } => false,
        FieldKind::Text { .. } => false,
    }
}

/// The first declared body-role field answering to `tag`, from `i` on.
fn find_body_field_from(d: &Descriptor, tag: &Vec<u8>, i: usize) -> (r: Option<usize>)
    requires
        i <= d.fields@.len(),
    ensures
        match r {
            Some(fi) => spec_find_body_field(d@.fields, tag@, i as int) == Some(fi as int) && fi
                < d.fields@.len(),
            None => spec_find_body_field(d@.fields, tag@, i as int) is None,
        },
    decreases d.fields@.len() - i,
{
    proof {
        lemma_field_kind_models(d.fields@);
    }
    if i >= d.fields.len() {
        None
    } else if body_tag_matches(&d.fields[i], tag) {
        Some(i)
    } else {
        find_body_field_from(d, tag, i + 1)
    }
}

/// The declared text-role field, from `i` on.
fn find_text_field_from(d: &Descriptor, i: usize) -> (r: Option<usize>)
    requires
        i <= d.fields@.len(),
    ensures
        match r {
            Some(t) => spec_find_text_field(d@.fields, i as int) == Some(t as int) && t
                < d.fields@.len(),
            None => spec_find_text_field(d@.fields, i as int) is None,
        },
    decreases d.fields@.len() - i,
{
    proof {
        lemma_field_kind_models(d.fields@);
    }
    if i >= d.fields.len() {
        None
    } else {
        let is_text = match &d.fields[i] {
            FieldKind::Text { .. } => true,
            _ => false,
        };
        if is_text {
            Some(i)
        } else {
            find_text_field_from(d, i + 1)
        }
    }
}

/// Replaces the state entry at `i`.
fn state_update(st: &mut Vec<Option<FieldValue>>, i: usize, v: Option<FieldValue>)
    requires
        i < old(st)@.len(),
    ensures
        final(st)@ == old(st)@.update(i as int, v),
{
    st.remove(i);
    st.insert(i, v);
    proof {
        assert(st@ =~= old(st)@.update(i as int, v));
    }
}

/// Taking models commutes with a state update.
proof fn lemma_state_models_update(s: Seq<Option<FieldValue>>, i: int, v: Option<FieldValue>)
    requires
        0 <= i < s.len(),
    ensures
        state_models(s.update(i, v)) == state_models(s).update(
            i,
            match v {
                Some(x) => Some(field_value_model(x)),
                None => None,
            },
        ),
{
    lemma_state_models(s);
    lemma_state_models(s.update(i, v));
    assert(state_models(s.update(i, v)) =~= state_models(s).update(
        i,
        match v {
            Some(x) => Some(field_value_model(x)),
            None => None,
        },
    ));
}

/// Reads one record from the event sequence; `pos` holds the triggering
/// open or self-closing event whose tag identified this descriptor.  The
/// result is exactly what the specification state machine yields: the
/// reconstructed record and the position after its last event, or the first
/// failure.
#[verifier::rlimit(100)]
pub fn read_record(d: &Descriptor, evs: &Vec<Event>, pos: usize) -> (r: Result<
    (RecordValue, usize),
    ReadError,
>)
    ensures
        match r {
            Ok(p) => spec_read(d@, events_model(evs@), pos as int) == Ok::<_, ReadError>(
                (p.0@, p.1 as int),
            ) && pos < p.1 <= evs@.len(),
            Err(e) => spec_read(d@, events_model(evs@), pos as int) == Err::<
                (RecordModel, int),
                _,
            >(e),
        },
    decreases evs@.len() - pos, d@,
{
    let ghost em = events_model(evs@);
    proof {
        lemma_field_kind_models(d.fields@);
    }
    if pos >= evs.len() {
        return Err(ReadError::UnexpectedEof);
    }
    proof {
        assert(em[pos as int] == evs@[pos as int]@);
    }
    match &evs[pos] {
        Event::SelfClosed { tag, attributes } => {
            let tag_hit = bytes_eq(tag, &d.tag);
            let empty_kind = match d.kind {
                EventKind::Empty => true,
                _ => false,
            };
            if tag_hit && empty_kind {
                match read_attrs_from(d, attributes, 0) {
                    Ok(st) => {
                        let rec = finish_record(d, st);
                        Ok((rec, pos + 1))
                    },
                    Err(e) => Err(e),
                }
            } else {
                Err(ReadError::UnexpectedEvent)
            }
        },
        Event::Open { tag, attributes } => {
            let tag_hit = bytes_eq(tag, &d.tag);
            let start_kind = match d.kind {
                EventKind::Start => true,
                _ => false,
            };
            if !(tag_hit && start_kind) {
                return Err(ReadError::UnexpectedEvent);
            }
            let mut st = match read_attrs_from(d, attributes, 0) {
                Ok(st) => st,
                Err(e) => {
                    return Err(e);
                },
            };
            let mut cur: usize = pos + 1;
            proof {
                assert(spec_read(d@, em, pos as int) == spec_read_body(
                    d@,
                    em,
                    pos as int + 1,
                    state_models(st@),
                ));
            }
            loop
                invariant
                    pos < cur <= evs@.len(),
                    st@.len() == d.fields@.len(),
                    d@.fields.len() == d.fields@.len(),
                    em == events_model(evs@),
                    spec_read(d@, em, pos as int) == spec_read_body(
                        d@,
                        em,
                        cur as int,
                        state_models(st@),
                    ),
                decreases evs@.len() - cur,
            {
                proof {
                    lemma_field_kind_models(d.fields@);
                    lemma_state_models(st@);
                }
                if cur >= evs.len() {
                    return Err(ReadError::UnexpectedEof);
                }
                proof {
                    assert(em[cur as int] == evs@[cur as int]@);
                }
                let ghost stm0 = state_models(st@);
                let ghost cur0 = cur as int;
                match &evs[cur] {
                    Event::Close { tag: t2 } => {
                        if bytes_eq(t2, &d.tag) {
                            let rec = finish_record(d, st);
                            return Ok((rec, cur + 1));
                        } else {
                            return Err(ReadError::UnexpectedEvent);
                        }
                    },
                    Event::Text { content } => {
                        let t = match find_text_field_from(d, 0) {
                            Some(t) => t,
                            None => {
                                return Err(ReadError::UnexpectedEvent);
                            },
                        };
                        match &d.fields[t] {
                            FieldKind::Text { kind, optional } => {
                                match decode_scalar(*kind, content) {
                                    Some(s) => {
                                        let nv: Option<FieldValue> = if *optional {
                                            Some(FieldValue::OptScalar(Some(s)))
                                        } else {
                                            Some(FieldValue::Scalar(s))
                                        };
                                        let ghost s0 = st@;
                                        let ghost nvg = nv;
                                        state_update(&mut st, t, nv);
                                        cur = cur + 1;
                                        proof {
                                            lemma_state_models_update(s0, t as int, nvg);
                                            assert(spec_read_body(d@, em, cur0, stm0)
                                                == spec_read_body(
                                                d@,
                                                em,
                                                cur as int,
                                                state_models(st@),
                                            ));
                                        }
                                    },
                                    None => {
                                        return Err(ReadError::DecodeError);
                                    },
                                }
                            },
                            _ => {
                                return Err(ReadError::UnexpectedEvent);
                            },
                        }
                    },
                    Event::Open { tag: ctag, .. } => {
                        let fi = match find_body_field_from(d, ctag, 0) {
                            Some(fi) => fi,
                            None => {
                                return Err(ReadError::UnexpectedTag);
                            },
                        };
                        match &d.fields[fi] {
                            FieldKind::Child { occurs, descriptor } => {
                                let cp = match read_record(&**descriptor, evs, cur) {
                                    Ok(cp) => cp,
                                    Err(e) => {
                                        proof {
                                            assert(spec_read_body(d@, em, cur0, stm0)
                                                == spec_read_child(
                                                d@,
                                                em,
                                                cur0,
                                                stm0,
                                                fi as int,
                                            ));
                                            assert(spec_read_child(d@, em, cur0, stm0, fi as int)
                                                == Err::<(RecordModel, int), ReadError>(e));
                                        }
                                        return Err(e);
                                    },
                                };
                                let crec = cp.0;
                                let p2 = cp.1;
                                if p2 <= cur || p2 > evs.len() {
                                    return Err(ReadError::UnexpectedEof);
                                }
                                let ghost crecg = crec;
                                match occurs {
                                    Occurs::Required => {
                                        if st[fi].is_some() {
                                            return Err(ReadError::DuplicateChild);
                                        }
                                        let nv = Some(FieldValue::Child(Box::new(crec)));
                                        let ghost s0 = st@;
                                        let ghost nvg = nv;
                                        state_update(&mut st, fi, nv);
                                        cur = p2;
                                        proof {
                                            lemma_state_models_update(s0, fi as int, nvg);
                                            assert(spec_read_body(d@, em, cur0, stm0)
                                                == spec_read_body(
                                                d@,
                                                em,
                                                cur as int,
                                                state_models(st@),
                                            ));
                                        }
                                    },
                                    Occurs::Optional => {
                                        if st[fi].is_some() {
                                            return Err(ReadError::DuplicateChild);
                                        }
                                        let nv = Some(
                                            FieldValue::OptChild(Some(Box::new(crec))),
                                        );
                                        let ghost s0 = st@;
                                        let ghost nvg = nv;
                                        state_update(&mut st, fi, nv);
                                        cur = p2;
                                        proof {
                                            lemma_state_models_update(s0, fi as int, nvg);
                                            assert(spec_read_body(d@, em, cur0, stm0)
                                                == spec_read_body(
                                                d@,
                                                em,
                                                cur as int,
                                                state_models(st@),
                                            ));
                                        }
                                    },
                                    Occurs::Repeated => {
                                        let ghost s0 = st@;
                                        let prev = st.remove(fi);
                                        let mut children: Vec<RecordValue> = match prev {
                                            Some(FieldValue::Children(v)) => v,
                                            _ => Vec::new(),
                                        };
                                        let ghost ch0 = children@;
                                        children.push(crec);
                                        proof {
                                            assert(children@.drop_last() =~= ch0);
                                        }
                                        let ghost childg = children;
                                        st.insert(fi, Some(FieldValue::Children(children)));
                                        cur = p2;
                                        proof {
                                            lemma_state_models(s0);
                                            assert(st@ =~= s0.update(
                                                fi as int,
                                                Some(FieldValue::Children(childg)),
                                            ));
                                            lemma_state_models_update(
                                                s0,
                                                fi as int,
                                                Some(FieldValue::Children(childg)),
                                            );
                                            assert(spec_read_body(d@, em, cur0, stm0)
                                                == spec_read_body(
                                                d@,
                                                em,
                                                cur as int,
                                                state_models(st@),
                                            ));
                                        }
                                    },
                                }
                            },
                            FieldKind::FlattenText { kind, optional, .. } => {
                                if cur + 1 >= evs.len() {
                                    return Err(ReadError::UnexpectedEof);
                                }
                                proof {
                                    assert(em[cur as int + 1] == evs@[cur as int + 1]@);
                                }
                                match &evs[cur + 1] {
                                    Event::Text { content } => {
                                        if cur + 2 >= evs.len() {
                                            return Err(ReadError::UnexpectedEof);
                                        }
                                        proof {
                                            assert(em[cur as int + 2] == evs@[cur as int + 2]@);
                                        }
                                        match &evs[cur + 2] {
                                            Event::Close { tag: t3 } => {
                                                if bytes_eq(t3, ctag) {
                                                    match decode_scalar(*kind, content) {
                                                        Some(s) => {
                                                            let nv: Option<FieldValue> = if *optional {
                                                                Some(
                                                                    FieldValue::OptScalar(
                                                                        Some(s),
                                                                    ),
                                                                )
                                                            } else {
                                                                Some(FieldValue::Scalar(s))
                                                            };
                                                            let ghost s0 = st@;
                                                            let ghost nvg = nv;
                                                            state_update(&mut st, fi, nv);
                                                            cur = cur + 3;
                                                            proof {
                                                                lemma_state_models_update(
                                                                    s0,
                                                                    fi as int,
                                                                    nvg,
                                                                );
                                                                assert(spec_read_body(
                                                                    d@,
                                                                    em,
                                                                    cur0,
                                                                    stm0,
                                                                ) == spec_read_flatten_text(
                                                                    d@,
                                                                    em,
                                                                    cur0,
                                                                    stm0,
                                                                    fi as int,
                                                                    *kind,
                                                                    *optional,
                                                                    ctag@,
                                                                ));
                                                                assert(spec_read_flatten_text(
                                                                    d@,
                                                                    em,
                                                                    cur0,
                                                                    stm0,
                                                                    fi as int,
                                                                    *kind,
                                                                    *optional,
                                                                    ctag@,
                                                                ) == spec_read_body(
                                                                    d@,
                                                                    em,
                                                                    cur as int,
                                                                    state_models(st@),
                                                                ));
                                                            }
                                                        },
                                                        None => {
                                                            return Err(ReadError::DecodeError);
                                                        },
                                                    }
                                                } else {
                                                    return Err(ReadError::UnexpectedEvent);
                                                }
                                            },
                                            _ => {
                                                return Err(ReadError::UnexpectedEvent);
                                            },
                                        }
                                    },
                                    Event::Close { tag: t3 } => {
                                        if bytes_eq(t3, ctag) {
                                            let empty_bytes: Vec<u8> = Vec::new();
                                            match decode_scalar(*kind, &empty_bytes) {
                                                Some(s) => {
                                                    let nv: Option<FieldValue> = if *optional {
                                                        Some(FieldValue::OptScalar(Some(s)))
                                                    } else {
                                                        Some(FieldValue::Scalar(s))
                                                    };
                                                    let ghost s0 = st@;
                                                    let ghost nvg = nv;
                                                    state_update(&mut st, fi, nv);
                                                    cur = cur + 2;
                                                    proof {
                                                        lemma_state_models_update(
                                                            s0,
                                                            fi as int,
                                                            nvg,
                                                        );
                                                        assert(spec_read_body(d@, em, cur0, stm0)
                                                            == spec_read_flatten_text(
                                                            d@,
                                                            em,
                                                            cur0,
                                                            stm0,
                                                            fi as int,
                                                            *kind,
                                                            *optional,
                                                            ctag@,
                                                        ));
                                                        assert(spec_read_flatten_text(
                                                            d@,
                                                            em,
                                                            cur0,
                                                            stm0,
                                                            fi as int,
                                                            *kind,
                                                            *optional,
                                                            ctag@,
                                                        ) == spec_read_body(
                                                            d@,
                                                            em,
                                                            cur as int,
                                                            state_models(st@),
                                                        ));
                                                    }
                                                },
                                                None => {
                                                    return Err(ReadError::DecodeError);
                                                },
                                            }
                                        } else {
                                            return Err(ReadError::UnexpectedEvent);
                                        }
                                    },
                                    _ => {
                                        return Err(ReadError::UnexpectedEvent);
                                    },
                                }
                            },
                            _ => {
                                return Err(ReadError::UnexpectedEvent);
                            },
                        }
                    },
                    Event::SelfClosed { tag: ctag, attributes: cattrs } => {
                        let fi = match find_body_field_from(d, ctag, 0) {
                            Some(fi) => fi,
                            None => {
                                return Err(ReadError::UnexpectedTag);
                            },
                        };
                        match &d.fields[fi] {
                            FieldKind::Child { occurs, descriptor } => {
                                let cp = match read_record(&**descriptor, evs, cur) {
                                    Ok(cp) => cp,
                                    Err(e) => {
                                        proof {
                                            assert(spec_read_body(d@, em, cur0, stm0)
                                                == spec_read_child(
                                                d@,
                                                em,
                                                cur0,
                                                stm0,
                                                fi as int,
                                            ));
                                            assert(spec_read_child(d@, em, cur0, stm0, fi as int)
                                                == Err::<(RecordModel, int), ReadError>(e));
                                        }
                                        return Err(e);
                                    },
                                };
                                let crec = cp.0;
                                let p2 = cp.1;
                                if p2 <= cur || p2 > evs.len() {
                                    return Err(ReadError::UnexpectedEof);
                                }
                                match occurs {
                                    Occurs::Required => {
                                        if st[fi].is_some() {
                                            return Err(ReadError::DuplicateChild);
                                        }
                                        let nv = Some(FieldValue::Child(Box::new(crec)));
                                        let ghost s0 = st@;
                                        let ghost nvg = nv;
                                        state_update(&mut st, fi, nv);
                                        cur = p2;
                                        proof {
                                            lemma_state_models_update(s0, fi as int, nvg);
                                            assert(spec_read_body(d@, em, cur0, stm0)
                                                == spec_read_body(
                                                d@,
                                                em,
                                                cur as int,
                                                state_models(st@),
                                            ));
                                        }
                                    },
                                    Occurs::Optional => {
                                        if st[fi].is_some() {
                                            return Err(ReadError::DuplicateChild);
                                        }
                                        let nv = Some(
                                            FieldValue::OptChild(Some(Box::new(crec))),
                                        );
                                        let ghost s0 = st@;
                                        let ghost nvg = nv;
                                        state_update(&mut st, fi, nv);
                                        cur = p2;
                                        proof {
                                            lemma_state_models_update(s0, fi as int, nvg);
                                            assert(spec_read_body(d@, em, cur0, stm0)
                                                == spec_read_body(
                                                d@,
                                                em,
                                                cur as int,
                                                state_models(st@),
                                            ));
                                        }
                                    },
                                    Occurs::Repeated => {
                                        let ghost s0 = st@;
                                        let prev = st.remove(fi);
                                        let mut children: Vec<RecordValue> = match prev {
                                            Some(FieldValue::Children(v)) => v,
                                            _ => Vec::new(),
                                        };
                                        let ghost ch0 = children@;
                                        children.push(crec);
                                        proof {
                                            assert(children@.drop_last() =~= ch0);
                                        }
                                        let ghost childg = children;
                                        st.insert(fi, Some(FieldValue::Children(children)));
                                        cur = p2;
                                        proof {
                                            lemma_state_models(s0);
                                            assert(st@ =~= s0.update(
                                                fi as int,
                                                Some(FieldValue::Children(childg)),
                                            ));
                                            lemma_state_models_update(
                                                s0,
                                                fi as int,
                                                Some(FieldValue::Children(childg)),
                                            );
                                            assert(spec_read_body(d@, em, cur0, stm0)
                                                == spec_read_body(
                                                d@,
                                                em,
                                                cur as int,
                                                state_models(st@),
                                            ));
                                        }
                                    },
                                }
                            },
                            FieldKind::FlattenEmpty { .. } => {
                                let ghost s0 = st@;
                                state_update(&mut st, fi, Some(FieldValue::Flag(true)));
                                cur = cur + 1;
                                proof {
                                    lemma_state_models_update(
                                        s0,
                                        fi as int,
                                        Some(FieldValue::Flag(true)),
                                    );
                                    assert(spec_read_body(d@, em, cur0, stm0) == spec_read_body(
                                        d@,
                                        em,
                                        cur as int,
                                        state_models(st@),
                                    ));
                                }
                            },
                            FieldKind::FlattenEmptyAttr { key, kind, optional, .. } => {
                                match lookup_attr(cattrs, key) {
                                    Some(val) => {
                                        match decode_scalar(*kind, &val) {
                                            Some(s) => {
                                                let nv: Option<FieldValue> = if *optional {
                                                    Some(FieldValue::OptScalar(Some(s)))
                                                } else {
                                                    Some(FieldValue::Scalar(s))
                                                };
                                                let ghost s0 = st@;
                                                let ghost nvg = nv;
                                                state_update(&mut st, fi, nv);
                                                cur = cur + 1;
                                                proof {
                                                    lemma_state_models_update(
                                                        s0,
                                                        fi as int,
                                                        nvg,
                                                    );
                                                    assert(spec_read_body(d@, em, cur0, stm0)
                                                        == spec_read_body(
                                                        d@,
                                                        em,
                                                        cur as int,
                                                        state_models(st@),
                                                    ));
                                                }
                                            },
                                            None => {
                                                return Err(ReadError::DecodeError);
                                            },
                                        }
                                    },
                                    None => {
                                        return Err(ReadError::UnexpectedEvent);
                                    },
                                }
                            },
                            FieldKind::FlattenText { kind, optional, .. } => {
                                let empty_bytes: Vec<u8> = Vec::new();
                                match decode_scalar(*kind, &empty_bytes) {
                                    Some(s) => {
                                        let nv: Option<FieldValue> = if *optional {
                                            Some(FieldValue::OptScalar(Some(s)))
                                        } else {
                                            Some(FieldValue::Scalar(s))
                                        };
                                        let ghost s0 = st@;
                                        let ghost nvg = nv;
                                        state_update(&mut st, fi, nv);
                                        cur = cur + 1;
                                        proof {
                                            lemma_state_models_update(s0, fi as int, nvg);
                                            assert(spec_read_body(d@, em, cur0, stm0)
                                                == spec_read_body(
                                                d@,
                                                em,
                                                cur as int,
                                                state_models(st@),
                                            ));
                                        }
                                    },
                                    None => {
                                        return Err(ReadError::DecodeError);
                                    },
                                }
                            },
                            _ => {
                                return Err(ReadError::UnexpectedEvent);
                            },
                        }
                    },
                }
            }
        },
        _ => Err(ReadError::UnexpectedEvent),
    }
}

} // verus!
