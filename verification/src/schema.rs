//! The schema model: immutable descriptors stating how a record's fields map
//! onto XML constructs, and the variant descriptor for tagged unions.

use crate::bytes::bytes_eq;
use crate::codec::ScalarKind;
use vstd::prelude::*;

verus! {

/// How a record is framed: `Start` needs an open and a close event and may
/// carry text and children; `Empty` is one self-closing element carrying
/// attributes only.
#[derive(Clone, Copy, Debug, PartialEq, Eq, Structural)]
pub enum EventKind {
    Start,
    Empty,
}

/// Cardinality of a child field.
#[derive(Clone, Copy, Debug, PartialEq, Eq, Structural)]
pub enum Occurs {
    Required,
    Optional,
    Repeated,
}

/// The role and shape of one declared field.
#[derive(Debug)]
pub enum FieldKind {
    /// A `key="value"` pair on the owning element.
    Attribute { key: Vec<u8>, kind: ScalarKind, optional: bool },
    /// The owning element's direct text content; at most one per record.
    Text { kind: ScalarKind, optional: bool },
    /// A nested element written through the child's own descriptor.
    Child { occurs: Occurs, descriptor: Box<Descriptor> },
    /// A scalar in its own wrapper element `<tag>value</tag>`.
    FlattenText { tag: Vec<u8>, kind: ScalarKind, optional: bool },
    /// A boolean presence flag rendered as a bare `<tag/>` iff true.
    FlattenEmpty { tag: Vec<u8> },
    /// A self-closing `<tag key="value"/>` carrying exactly one attribute.
    FlattenEmptyAttr { tag: Vec<u8>, key: Vec<u8>, kind: ScalarKind, optional: bool },
}

/// The immutable schema of one record shape.
#[derive(Debug)]
pub struct Descriptor {
    pub tag: Vec<u8>,
    pub kind: EventKind,
    pub fields: Vec<FieldKind>,
    /// Whether the record contributes further attributes of its own
    /// (`extra_attributes` on the record value), appended after the declared
    /// attribute fields and never removing or reordering them.
    pub extends_attributes: bool,
}

/// The mathematical model of a field declaration.
#[verifier::ext_equal]
pub enum FieldKindModel {
    Attribute { key: Seq<u8>, kind: ScalarKind, optional: bool },
    Text { kind: ScalarKind, optional: bool },
    Child { occurs: Occurs, descriptor: Box<DescriptorModel> },
    FlattenText { tag: Seq<u8>, kind: ScalarKind, optional: bool },
    FlattenEmpty { tag: Seq<u8> },
    FlattenEmptyAttr { tag: Seq<u8>, key: Seq<u8>, kind: ScalarKind, optional: bool },
}

/// The mathematical model of a descriptor.
#[verifier::ext_equal]
pub struct DescriptorModel {
    pub tag: Seq<u8>,
    pub kind: EventKind,
    pub fields: Seq<FieldKindModel>,
    pub extends_attributes: bool,
}

/// The mathematical model of a field declaration.
pub open spec fn field_kind_model(f: FieldKind) -> FieldKindModel
    decreases f,
{
    match f {
            FieldKind::Attribute { key, kind, optional } => FieldKindModel::Attribute {
                key: key@,
                kind: kind,
                optional: optional,
            },
            FieldKind::Text { kind, optional } => FieldKindModel::Text {
                kind: kind,
                optional: optional,
            },
            FieldKind::Child { occurs, descriptor } => FieldKindModel::Child {
                occurs: occurs,
                descriptor: Box::new(descriptor_model(*descriptor)),
            },
            FieldKind::FlattenText { tag, kind, optional } => FieldKindModel::FlattenText {
                tag: tag@,
                kind: kind,
                optional: optional,
            },
            FieldKind::FlattenEmpty { tag } => FieldKindModel::FlattenEmpty { tag: tag@ },
            FieldKind::FlattenEmptyAttr { tag, key, kind, optional } => {
                FieldKindModel::FlattenEmptyAttr {
                    tag: tag@,
                    key: key@,
                    kind: kind,
                    optional: optional,
                }
            },
    }
}

impl View for FieldKind {
    type V = FieldKindModel;

    open spec fn view(&self) -> FieldKindModel {
        field_kind_model(*self)
    }
}

/// Models of a field-declaration list, in order.
pub open spec fn field_kind_models(s: Seq<FieldKind>) -> Seq<FieldKindModel>
    decreases s,
{
    if s.len() == 0 {
        Seq::empty()
    } else {
        field_kind_models(s.drop_last()).push(field_kind_model(s.last()))
    }
}

/// The mathematical model of a descriptor.
pub open spec fn descriptor_model(d: Descriptor) -> DescriptorModel
    decreases d,
{
    DescriptorModel {
        tag: d.tag@,
        kind: d.kind,
        fields: field_kind_models(d.fields@),
        extends_attributes: d.extends_attributes,
    }
}

impl View for Descriptor {
    type V = DescriptorModel;

    open spec fn view(&self) -> DescriptorModel {
        descriptor_model(*self)
    }
}

/// The model list is the list of the models, index for index.
pub proof fn lemma_field_kind_models(s: Seq<FieldKind>)
    ensures
        field_kind_models(s).len() == s.len(),
        forall|i: int| 0 <= i < s.len() ==> field_kind_models(s)[i] == s[i]@,
    decreases s,
{
    if s.len() > 0 {
        lemma_field_kind_models(s.drop_last());
    }
}

/// The attribute key a field declares, if its role is Attribute.
pub open spec fn attr_key_of(f: FieldKindModel) -> Option<Seq<u8>> {
    match f {
        FieldKindModel::Attribute { key, .. } => Some(key),
        _ => None,
    }
}

/// The element tag a field of a body role answers to, if any.
pub open spec fn body_tag_of(f: FieldKindModel) -> Option<Seq<u8>> {
    match f {
        FieldKindModel::Child { descriptor, .. } => Some(descriptor.tag),
        FieldKindModel::FlattenText { tag, .. } => Some(tag),
        FieldKindModel::FlattenEmpty { tag } => Some(tag),
        FieldKindModel::FlattenEmptyAttr { tag, .. } => Some(tag),
        _ => None,
    }
}

pub open spec fn is_text_field(f: FieldKindModel) -> bool {
    f is Text
}

/// Well-formedness of a descriptor: attribute keys unique, body tags unique,
/// at most one text field, an `Empty`-kind record carries attributes only,
/// and every child descriptor is well-formed in turn.
pub open spec fn descriptor_wf(d: DescriptorModel) -> bool
    decreases d,
{
    &&& (forall|i: int, j: int|
        0 <= i < j < d.fields.len() && attr_key_of(#[trigger] d.fields[i]) is Some && attr_key_of(
            #[trigger] d.fields[j],
        ) is Some ==> attr_key_of(d.fields[i]) != attr_key_of(d.fields[j]))
    &&& (forall|i: int, j: int|
        0 <= i < j < d.fields.len() && body_tag_of(#[trigger] d.fields[i]) is Some && body_tag_of(
            #[trigger] d.fields[j],
        ) is Some ==> body_tag_of(d.fields[i]) != body_tag_of(d.fields[j]))
    &&& (forall|i: int, j: int|
        0 <= i < j < d.fields.len() ==> !(is_text_field(#[trigger] d.fields[i]) && is_text_field(
            #[trigger] d.fields[j],
        )))
    &&& (d.kind == EventKind::Empty ==> forall|i: int|
        0 <= i < d.fields.len() ==> (#[trigger] d.fields[i]) is Attribute)
    &&& (forall|i: int|
        0 <= i < d.fields.len() ==> match #[trigger] d.fields[i] {
            FieldKindModel::Child { descriptor, .. } => descriptor_wf(*descriptor),
            _ => true,
        })
}

/// A tagged union: an ordered list of alternative descriptors, with tags
/// unique in the list, the basis of read-side dispatch.
#[derive(Debug)]
pub struct VariantDescriptor {
    pub(crate) descs: Vec<Descriptor>,
}

/// Models of a descriptor list, in order.
pub open spec fn descs_model(v: Seq<Descriptor>) -> Seq<DescriptorModel> {
    v.map(|i: int, d: Descriptor| d@)
}

impl View for VariantDescriptor {
    type V = Seq<DescriptorModel>;

    closed spec fn view(&self) -> Seq<DescriptorModel> {
        descs_model(self.descs@)
    }
}

/// Tags pairwise distinct in a variant list.
pub open spec fn variant_tags_unique(s: Seq<DescriptorModel>) -> bool {
    forall|i: int, j: int| 0 <= i < j < s.len() ==> (#[trigger] s[i].tag) != (#[trigger] s[j].tag)
}

/// A fault detected while building a schema object.
#[derive(Clone, Copy, Debug, PartialEq, Eq, Structural)]
pub enum SchemaError {
    /// Two variant alternatives share an element tag.
    DuplicateVariantTag,
}

impl VariantDescriptor {
    /// Builds a variant descriptor, refusing a list in which two alternatives
    /// share a tag: ambiguity is a schema construction error, caught here and
    /// never at read time.
    pub fn new(descs: Vec<Descriptor>) -> (r: Result<VariantDescriptor, SchemaError>)
        ensures
            match r {
                Ok(vd) => vd@ == descs_model(descs@) && variant_tags_unique(vd@),
                Err(e) => e == SchemaError::DuplicateVariantTag && !variant_tags_unique(
                    descs_model(descs@),
                ),
            },
    {
        let mut i: usize = 0;
        while i < descs.len()
            invariant
                0 <= i <= descs.len(),
                forall|p: int, q: int|
                    0 <= p < q < descs@.len() && p < i ==> (#[trigger] descs_model(
                        descs@,
                    )[p]).tag != (#[trigger] descs_model(descs@)[q]).tag,
            decreases descs.len() - i,
        {
            let mut j: usize = i + 1;
            while j < descs.len()
                invariant
                    0 <= i < j <= descs.len(),
                    forall|q: int|
                        i < q < j ==> (#[trigger] descs_model(descs@)[q]).tag != descs_model(
                            descs@,
                        )[i as int].tag,
                decreases descs.len() - j,
            {
                if bytes_eq(&descs[i].tag, &descs[j].tag) {
                    proof {
                        assert(descs_model(descs@)[i as int] == descs@[i as int]@);
                        assert(descs_model(descs@)[j as int] == descs@[j as int]@);
                        assert(descs_model(descs@)[i as int].tag == descs_model(
                            descs@,
                        )[j as int].tag);
                        assert(!variant_tags_unique(descs_model(descs@)));
                    }
                    return Err(SchemaError::DuplicateVariantTag);
                }
                j = j + 1;
            }
            i = i + 1;
        }
        Ok(VariantDescriptor { descs })
    }

    /// The alternatives, in declared order.
    pub fn descriptors(&self) -> (r: &Vec<Descriptor>)
        ensures
            descs_model(r@) == self@,
    {
        &self.descs
    }
}

} // verus!
