//! The event model: the four atomic units of the streaming document model,
//! with their mathematical models.

use vstd::prelude::*;

verus! {

/// One `key="value"` pair on an element.
#[derive(Clone, Debug, PartialEq)]
pub struct Attribute {
    pub key: Vec<u8>,
    pub value: Vec<u8>,
}

/// The mathematical model of an attribute.
#[verifier::ext_equal]
pub struct AttributeModel {
    pub key: Seq<u8>,
    pub value: Seq<u8>,
}

impl View for Attribute {
    type V = AttributeModel;

    open spec fn view(&self) -> AttributeModel {
        AttributeModel { key: self.key@, value: self.value@ }
    }
}

/// One atomic unit of the document stream: element-open, element-close,
/// self-closing element, or text content.
#[derive(Clone, Debug, PartialEq)]
pub enum Event {
    Open { tag: Vec<u8>, attributes: Vec<Attribute> },
    Close { tag: Vec<u8> },
    SelfClosed { tag: Vec<u8>, attributes: Vec<Attribute> },
    Text { content: Vec<u8> },
}

/// The mathematical model of an event.
#[verifier::ext_equal]
pub enum EventModel {
    Open { tag: Seq<u8>, attributes: Seq<AttributeModel> },
    Close { tag: Seq<u8> },
    SelfClosed { tag: Seq<u8>, attributes: Seq<AttributeModel> },
    Text { content: Seq<u8> },
}

/// The models of a list of attributes, in order.
pub open spec fn attrs_model(v: Seq<Attribute>) -> Seq<AttributeModel> {
    v.map(|i: int, a: Attribute| a@)
}

impl View for Event {
    type V = EventModel;

    open spec fn view(&self) -> EventModel {
        match self {
            Event::Open { tag, attributes } => EventModel::Open {
                tag: tag@,
                attributes: attrs_model(attributes@),
            },
            Event::Close { tag } => EventModel::Close { tag: tag@ },
            Event::SelfClosed { tag, attributes } => EventModel::SelfClosed {
                tag: tag@,
                attributes: attrs_model(attributes@),
            },
            Event::Text { content } => EventModel::Text { content: content@ },
        }
    }
}

/// The models of an event sequence, in order.
pub open spec fn events_model(v: Seq<Event>) -> Seq<EventModel> {
    v.map(|i: int, e: Event| e@)
}

/// Taking models distributes over concatenation of attribute lists.
pub proof fn lemma_attrs_model_concat(a: Seq<Attribute>, b: Seq<Attribute>)
    ensures
        attrs_model(a + b) == attrs_model(a) + attrs_model(b),
{
    assert(attrs_model(a + b) =~= attrs_model(a) + attrs_model(b));
}

/// Taking models distributes over concatenation of event lists.
pub proof fn lemma_events_model_concat(a: Seq<Event>, b: Seq<Event>)
    ensures
        events_model(a + b) == events_model(a) + events_model(b),
{
    assert(events_model(a + b) =~= events_model(a) + events_model(b));
}

/// Taking models commutes with appending one event.
pub proof fn lemma_events_model_push(a: Seq<Event>, e: Event)
    ensures
        events_model(a.push(e)) == events_model(a).push(e@),
{
    assert(events_model(a.push(e)) =~= events_model(a).push(e@));
}

/// Taking models commutes with appending one attribute.
pub proof fn lemma_attrs_model_push(a: Seq<Attribute>, x: Attribute)
    ensures
        attrs_model(a.push(x)) == attrs_model(a).push(x@),
{
    assert(attrs_model(a.push(x)) =~= attrs_model(a).push(x@));
}

} // verus!
