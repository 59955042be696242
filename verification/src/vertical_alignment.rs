//! The vertical-alignment formatting record: a worked use of the binding
//! engine on a concrete schema — an `Empty`-kind element `w:vertAlign`
//! carrying one optional `w:val` attribute whose value is one of two tokens.

use crate::codec::{Scalar, ScalarKind};
use crate::schema::{Descriptor, EventKind, FieldKind, FieldKindModel};
use crate::value::{FieldModel, FieldValue, RecordValue};
use vstd::prelude::*;

verus! {

/// The two alignment alternatives.
#[derive(Clone, Copy, Debug, PartialEq, Eq, Structural)]
pub enum VerticalAlignmentType {
    Superscript,
    Subscript,
}

/// A vertical-alignment record; an absent value leaves the attribute out.
#[derive(Debug, PartialEq)]
pub struct VerticalAlignment {
    pub val: Option<VerticalAlignmentType>,
}

/// The bytes of the token `superscript`.
pub open spec fn spec_superscript_bytes() -> Seq<u8> {
    seq![115u8, 117u8, 112u8, 101u8, 114u8, 115u8, 99u8, 114u8, 105u8, 112u8, 116u8]
}

/// The bytes of the token `subscript`.
pub open spec fn spec_subscript_bytes() -> Seq<u8> {
    seq![115u8, 117u8, 98u8, 115u8, 99u8, 114u8, 105u8, 112u8, 116u8]
}

/// The token an alignment alternative writes.
pub open spec fn spec_alignment_bytes(t: VerticalAlignmentType) -> Seq<u8> {
    match t {
        VerticalAlignmentType::Superscript => spec_superscript_bytes(),
        VerticalAlignmentType::Subscript => spec_subscript_bytes(),
    }
}

/// The bytes of the element tag `w:vertAlign`.
pub open spec fn spec_vert_align_tag() -> Seq<u8> {
    seq![119u8, 58u8, 118u8, 101u8, 114u8, 116u8, 65u8, 108u8, 105u8, 103u8, 110u8]
}

/// The bytes of the attribute key `w:val`.
pub open spec fn spec_vert_align_key() -> Seq<u8> {
    seq![119u8, 58u8, 118u8, 97u8, 108u8]
}

impl VerticalAlignmentType {
    /// The token this alternative carries as the attribute value.
    pub fn value_bytes(&self) -> (r: Vec<u8>)
        ensures
            r@ == spec_alignment_bytes(*self),
    {
        let mut v: Vec<u8> = Vec::new();
        match self {
            VerticalAlignmentType::Superscript => {
                v.push(115);
                v.push(117);
                v.push(112);
                v.push(101);
                v.push(114);
                v.push(115);
                v.push(99);
                v.push(114);
                v.push(105);
                v.push(112);
                v.push(116);
                proof {
                    assert(v@ =~= spec_superscript_bytes());
                }
            },
            VerticalAlignmentType::Subscript => {
                v.push(115);
                v.push(117);
                v.push(98);
                v.push(115);
                v.push(99);
                v.push(114);
                v.push(105);
                v.push(112);
                v.push(116);
                proof {
                    assert(v@ =~= spec_subscript_bytes());
                }
            },
        }
        v
    }
}

impl VerticalAlignment {
    /// A superscript alignment.
    pub fn superscript() -> (r: Self)
        ensures
            r.val == Some(VerticalAlignmentType::Superscript),
    {
        Self { val: Some(VerticalAlignmentType::Superscript) }
    }

    /// A subscript alignment.
    pub fn subscript() -> (r: Self)
        ensures
            r.val == Some(VerticalAlignmentType::Subscript),
    {
        Self { val: Some(VerticalAlignmentType::Subscript) }
    }

    /// The schema of the element: `Empty` kind, tag `w:vertAlign`, one
    /// optional byte-string attribute `w:val`.
    pub fn descriptor() -> (d: Descriptor)
        ensures
            d@.tag == spec_vert_align_tag(),
            d@.kind == EventKind::Empty,
            d@.extends_attributes == false,
            d@.fields.len() == 1,
            d@.fields[0] == (FieldKindModel::Attribute {
                key: spec_vert_align_key(),
                kind: ScalarKind::Bytes,
                optional: true,
            }),
    {
        let mut tag: Vec<u8> = Vec::new();
        tag.push(119);
        tag.push(58);
        tag.push(118);
        tag.push(101);
        tag.push(114);
        tag.push(116);
        tag.push(65);
        tag.push(108);
        tag.push(105);
        tag.push(103);
        tag.push(110);
        let mut key: Vec<u8> = Vec::new();
        key.push(119);
        key.push(58);
        key.push(118);
        key.push(97);
        key.push(108);
        let mut fields: Vec<FieldKind> = Vec::new();
        fields.push(FieldKind::Attribute { key, kind: ScalarKind::Bytes, optional: true });
        let d = Descriptor { tag, kind: EventKind::Empty, fields, extends_attributes: false };
        proof {
            crate::schema::lemma_field_kind_models(d.fields@);
            assert(d@.tag =~= spec_vert_align_tag());
            assert(d@.fields[0]->Attribute_key =~= spec_vert_align_key());
            assert(d@.fields[0] =~= (FieldKindModel::Attribute {
                key: spec_vert_align_key(),
                kind: ScalarKind::Bytes,
                optional: true,
            }));
        }
        d
    }

    /// The record value this alignment populates against [`Self::descriptor`].
    pub fn to_record(&self) -> (r: RecordValue)
        ensures
            r@.extra_attributes.len() == 0,
            r@.fields.len() == 1,
            r@.fields[0] == (match self.val {
                Some(t) => FieldModel::OptScalar(
                    Some(crate::codec::ScalarModel::Bytes(spec_alignment_bytes(t))),
                ),
                None => FieldModel::OptScalar(None),
            }),
    {
        let fv: FieldValue = match &self.val {
            Some(t) => FieldValue::OptScalar(Some(Scalar::Bytes(t.value_bytes()))),
            None => FieldValue::OptScalar(None),
        };
        let mut fields: Vec<FieldValue> = Vec::new();
        fields.push(fv);
        let r = RecordValue { fields, extra_attributes: Vec::new() };
        proof {
            crate::value::lemma_field_value_models(r.fields@);
            assert(crate::events::attrs_model(Seq::<crate::events::Attribute>::empty())
                =~= Seq::<crate::events::AttributeModel>::empty());
        }
        r
    }
}

impl Default for VerticalAlignment {
    /// An alignment with no value set.
    fn default() -> (r: Self)
        ensures
            r.val is None,
    {
        Self { val: None }
    }
}

} // verus!
