//! Record values: the transient, dynamically shaped values the engines
//! consume and produce, and their conformance to a descriptor.

use crate::codec::{scalar_kind_of, Scalar, ScalarModel};
use crate::events::{attrs_model, Attribute, AttributeModel};
use crate::schema::{DescriptorModel, FieldKindModel, Occurs};
use vstd::prelude::*;

verus! {

/// One populated field of a record, shaped after its declaration.
#[derive(Debug, PartialEq)]
pub enum FieldValue {
    /// A required scalar (attribute, text, flatten-text or flatten-empty-attr
    /// role).
    Scalar(Scalar),
    /// An optional scalar of the same roles; `None` contributes nothing.
    OptScalar(Option<Scalar>),
    /// A flatten-empty presence flag.
    Flag(bool),
    /// A required child record.
    Child(Box<RecordValue>),
    /// An optional child record.
    OptChild(Option<Box<RecordValue>>),
    /// An ordered sequence of child records.
    Children(Vec<RecordValue>),
}

/// A populated record: one value per declared field, in declaration order,
/// plus the extra attributes contributed when the descriptor declares an
/// attribute extension.
#[derive(Debug, PartialEq)]
pub struct RecordValue {
    pub fields: Vec<FieldValue>,
    pub extra_attributes: Vec<Attribute>,
}

/// The mathematical model of a field value.
#[verifier::ext_equal]
pub enum FieldModel {
    Scalar(ScalarModel),
    OptScalar(Option<ScalarModel>),
    Flag(bool),
    Child(Box<RecordModel>),
    OptChild(Option<Box<RecordModel>>),
    Children(Seq<RecordModel>),
}

/// The mathematical model of a record value.
#[verifier::ext_equal]
pub struct RecordModel {
    pub fields: Seq<FieldModel>,
    pub extra_attributes: Seq<AttributeModel>,
}

/// The mathematical model of a field value.
pub open spec fn field_value_model(f: FieldValue) -> FieldModel
    decreases f,
{
    match f {
        FieldValue::Scalar(s) => FieldModel::Scalar(s@),
        FieldValue::OptScalar(o) => FieldModel::OptScalar(
            match o {
                Some(s) => Some(s@),
                None => None,
            },
        ),
        FieldValue::Flag(b) => FieldModel::Flag(b),
        FieldValue::Child(r) => FieldModel::Child(Box::new(record_model(*r))),
        FieldValue::OptChild(o) => FieldModel::OptChild(
            match o {
                Some(r) => Some(Box::new(record_model(*r))),
                None => None,
            },
        ),
        FieldValue::Children(v) => FieldModel::Children(record_models(v@)),
    }
}

impl View for FieldValue {
    type V = FieldModel;

    open spec fn view(&self) -> FieldModel {
        field_value_model(*self)
    }
}

/// Models of a field-value list, in order.
pub open spec fn field_value_models(s: Seq<FieldValue>) -> Seq<FieldModel>
    decreases s,
{
    if s.len() == 0 {
        Seq::empty()
    } else {
        field_value_models(s.drop_last()).push(field_value_model(s.last()))
    }
}

/// Models of a record list, in order.
pub open spec fn record_models(s: Seq<RecordValue>) -> Seq<RecordModel>
    decreases s,
{
    if s.len() == 0 {
        Seq::empty()
    } else {
        record_models(s.drop_last()).push(record_model(s.last()))
    }
}

/// The mathematical model of a record value.
pub open spec fn record_model(r: RecordValue) -> RecordModel
    decreases r,
{
    RecordModel {
        fields: field_value_models(r.fields@),
        extra_attributes: attrs_model(r.extra_attributes@),
    }
}

impl View for RecordValue {
    type V = RecordModel;

    open spec fn view(&self) -> RecordModel {
        record_model(*self)
    }
}

/// The model list is the list of the models, index for index.
pub proof fn lemma_field_value_models(s: Seq<FieldValue>)
    ensures
        field_value_models(s).len() == s.len(),
        forall|i: int| 0 <= i < s.len() ==> field_value_models(s)[i] == s[i]@,
    decreases s,
{
    if s.len() > 0 {
        lemma_field_value_models(s.drop_last());
    }
}

/// The model list is the list of the models, index for index.
pub proof fn lemma_record_models(s: Seq<RecordValue>)
    ensures
        record_models(s).len() == s.len(),
        forall|i: int| 0 <= i < s.len() ==> record_models(s)[i] == s[i]@,
    decreases s,
{
    if s.len() > 0 {
        lemma_record_models(s.drop_last());
    }
}

/// Whether a field value fits its declaration: matching shape, matching
/// scalar class, and children conforming to the child descriptor in turn.
pub open spec fn field_conforms(f: FieldKindModel, v: FieldModel) -> bool
    decreases v,
{
    match (f, v) {
        (FieldKindModel::Attribute { kind, optional: false, .. }, FieldModel::Scalar(s)) => {
            scalar_kind_of(s) == kind
        },
        (FieldKindModel::Attribute { kind, optional: true, .. }, FieldModel::OptScalar(o)) => {
            match o {
                Some(s) => scalar_kind_of(s) == kind,
                None => true,
            }
        },
        (FieldKindModel::Text { kind, optional: false }, FieldModel::Scalar(s)) => {
            scalar_kind_of(s) == kind
        },
        (FieldKindModel::Text { kind, optional: true }, FieldModel::OptScalar(o)) => {
            match o {
                Some(s) => scalar_kind_of(s) == kind,
                None => true,
            }
        },
        (FieldKindModel::FlattenText { kind, optional: false, .. }, FieldModel::Scalar(s)) => {
            scalar_kind_of(s) == kind
        },
        (FieldKindModel::FlattenText { kind, optional: true, .. }, FieldModel::OptScalar(o)) => {
            match o {
                Some(s) => scalar_kind_of(s) == kind,
                None => true,
            }
        },
        (FieldKindModel::FlattenEmpty { .. }, FieldModel::Flag(_)) => true,
        (
            FieldKindModel::FlattenEmptyAttr { kind, optional: false, .. },
            FieldModel::Scalar(s),
        ) => scalar_kind_of(s) == kind,
        (
            FieldKindModel::FlattenEmptyAttr { kind, optional: true, .. },
            FieldModel::OptScalar(o),
        ) => match o {
            Some(s) => scalar_kind_of(s) == kind,
            None => true,
        },
        (
            FieldKindModel::Child { occurs: Occurs::Required, descriptor },
            FieldModel::Child(r),
        ) => record_conforms(*descriptor, *r),
        (
            FieldKindModel::Child { occurs: Occurs::Optional, descriptor },
            FieldModel::OptChild(o),
        ) => match o {
            Some(r) => record_conforms(*descriptor, *r),
            None => true,
        },
        (
            FieldKindModel::Child { occurs: Occurs::Repeated, descriptor },
            FieldModel::Children(s),
        ) => forall|i: int| 0 <= i < s.len() ==> record_conforms(*descriptor, #[trigger] s[i]),
        _ => false,
    }
}

/// Whether a record value fits a descriptor: one field value per declared
/// field, each conforming.
pub open spec fn record_conforms(d: DescriptorModel, r: RecordModel) -> bool
    decreases r,
{
    &&& r.fields.len() == d.fields.len()
    &&& forall|i: int|
        0 <= i < d.fields.len() ==> field_conforms(d.fields[i], #[trigger] r.fields[i])
}

} // verus!
