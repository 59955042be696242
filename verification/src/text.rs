//! The text layer around the event model: rendering an event sequence to
//! document bytes, and a strict tokenizer turning such bytes back into
//! events.
//!
//! The engine itself never touches this layer; it is the boundary the
//! surrounding stream collaborator would otherwise own.  Escaping and
//! whitespace policy stay outside: the tokenizer accepts exactly the
//! canonical form the renderer emits, and everything it accepts renders
//! back to the input byte for byte.

use crate::bytes::append_bytes;
use crate::events::{attrs_model, events_model, Attribute, AttributeModel, Event, EventModel};
use vstd::assert_seqs_equal;
use vstd::prelude::*;

verus! {

/// The bytes of one rendered attribute: ` key="value"`.
pub open spec fn render_attr(a: AttributeModel) -> Seq<u8> {
    seq![32u8] + a.key + seq![61u8, 34u8] + a.value + seq![34u8]
}

/// The bytes of the attributes from `i` on.
pub open spec fn render_attrs_from(attrs: Seq<AttributeModel>, i: int) -> Seq<u8>
    decreases attrs.len() - i,
{
    if i < 0 || i >= attrs.len() {
        Seq::empty()
    } else {
        render_attr(attrs[i]) + render_attrs_from(attrs, i + 1)
    }
}

/// The bytes of one rendered event.
pub open spec fn render_event(e: EventModel) -> Seq<u8> {
    match e {
        EventModel::Open { tag, attributes } => seq![60u8] + tag + render_attrs_from(attributes, 0)
            + seq![62u8],
        EventModel::Close { tag } => seq![60u8, 47u8] + tag + seq![62u8],
        EventModel::SelfClosed { tag, attributes } => seq![60u8] + tag + render_attrs_from(
            attributes,
            0,
        ) + seq![47u8, 62u8],
        EventModel::Text { content } => content,
    }
}

/// The bytes of the events from `i` on.
pub open spec fn render_events_from(evs: Seq<EventModel>, i: int) -> Seq<u8>
    decreases evs.len() - i,
{
    if i < 0 || i >= evs.len() {
        Seq::empty()
    } else {
        render_event(evs[i]) + render_events_from(evs, i + 1)
    }
}

/// The document text of an event sequence.
pub open spec fn spec_render(evs: Seq<EventModel>) -> Seq<u8> {
    render_events_from(evs, 0)
}

/// Appending one attribute appends its rendering.
pub proof fn lemma_render_attrs_push(attrs: Seq<AttributeModel>, a: AttributeModel, i: int)
    requires
        0 <= i <= attrs.len(),
    ensures
        render_attrs_from(attrs.push(a), i) == render_attrs_from(attrs, i) + render_attr(a),
    decreases attrs.len() - i,
{
    if i < attrs.len() {
        lemma_render_attrs_push(attrs, a, i + 1);
        assert(attrs.push(a)[i] == attrs[i]);
        assert(render_attr(attrs[i]) + (render_attrs_from(attrs, i + 1) + render_attr(a)) =~= (
        render_attr(attrs[i]) + render_attrs_from(attrs, i + 1)) + render_attr(a));
    } else {
        assert(render_attrs_from(attrs.push(a), i + 1) =~= Seq::<u8>::empty());
        assert(render_attr(a) + Seq::<u8>::empty() =~= render_attr(a));
        assert(Seq::<u8>::empty() + render_attr(a) =~= render_attr(a));
    }
}

/// Appending one event appends its rendering.
pub proof fn lemma_render_events_push(evs: Seq<EventModel>, e: EventModel, i: int)
    requires
        0 <= i <= evs.len(),
    ensures
        render_events_from(evs.push(e), i) == render_events_from(evs, i) + render_event(e),
    decreases evs.len() - i,
{
    if i < evs.len() {
        lemma_render_events_push(evs, e, i + 1);
        assert(evs.push(e)[i] == evs[i]);
        assert(render_event(evs[i]) + (render_events_from(evs, i + 1) + render_event(e)) =~= (
        render_event(evs[i]) + render_events_from(evs, i + 1)) + render_event(e));
    } else {
        assert(render_events_from(evs.push(e), i + 1) =~= Seq::<u8>::empty());
        assert(render_event(e) + Seq::<u8>::empty() =~= render_event(e));
        assert(Seq::<u8>::empty() + render_event(e) =~= render_event(e));
    }
}

/// Renders the attribute list into `out`.
fn render_attrs_into(out: &mut Vec<u8>, attrs: &Vec<Attribute>)
    ensures
        final(out)@ == old(out)@ + render_attrs_from(attrs_model(attrs@), 0),
{
    let mut i: usize = 0;
    while i < attrs.len()
        invariant
            0 <= i <= attrs@.len(),
            out@ + render_attrs_from(attrs_model(attrs@), i as int) == old(out)@
                + render_attrs_from(attrs_model(attrs@), 0),
        decreases attrs@.len() - i,
    {
        proof {
            assert(attrs_model(attrs@)[i as int] == attrs@[i as int]@);
        }
        let ghost o0 = out@;
        let a = &attrs[i];
        out.push(32);
        append_bytes(out, &a.key);
        out.push(61);
        out.push(34);
        append_bytes(out, &a.value);
        out.push(34);
        proof {
            assert(out@ =~= o0 + render_attr(attrs_model(attrs@)[i as int]));
            assert(o0 + (render_attr(attrs_model(attrs@)[i as int]) + render_attrs_from(
                attrs_model(attrs@),
                i as int + 1,
            )) =~= (o0 + render_attr(attrs_model(attrs@)[i as int])) + render_attrs_from(
                attrs_model(attrs@),
                i as int + 1,
            ));
        }
        i = i + 1;
    }
    proof {
        assert(out@ + Seq::<u8>::empty() =~= out@);
    }
}

/// Renders an event sequence to document text, exactly `spec_render` of the
/// event models.
pub fn render(evs: &Vec<Event>) -> (out: Vec<u8>)
    ensures
        out@ == spec_render(events_model(evs@)),
{
    let mut out: Vec<u8> = Vec::new();
    let mut i: usize = 0;
    while i < evs.len()
        invariant
            0 <= i <= evs@.len(),
            out@ + render_events_from(events_model(evs@), i as int) == render_events_from(
                events_model(evs@),
                0,
            ),
        decreases evs@.len() - i,
    {
        proof {
            assert(events_model(evs@)[i as int] == evs@[i as int]@);
        }
        let ghost o0 = out@;
        match &evs[i] {
            Event::Open { tag, attributes } => {
                out.push(60);
                append_bytes(&mut out, tag);
                render_attrs_into(&mut out, attributes);
                out.push(62);
                proof {
                    assert(out@ =~= o0 + render_event(events_model(evs@)[i as int]));
                }
            },
            Event::Close { tag } => {
                out.push(60);
                out.push(47);
                append_bytes(&mut out, tag);
                out.push(62);
                proof {
                    assert(out@ =~= o0 + render_event(events_model(evs@)[i as int]));
                }
            },
            Event::SelfClosed { tag, attributes } => {
                out.push(60);
                append_bytes(&mut out, tag);
                render_attrs_into(&mut out, attributes);
                out.push(47);
                out.push(62);
                proof {
                    assert(out@ =~= o0 + render_event(events_model(evs@)[i as int]));
                }
            },
            Event::Text { content } => {
                append_bytes(&mut out, content);
                proof {
                    assert(out@ =~= o0 + render_event(events_model(evs@)[i as int]));
                }
            },
        }
        proof {
            assert(o0 + (render_event(events_model(evs@)[i as int]) + render_events_from(
                events_model(evs@),
                i as int + 1,
            )) =~= (o0 + render_event(events_model(evs@)[i as int])) + render_events_from(
                events_model(evs@),
                i as int + 1,
            ));
        }
        i = i + 1;
    }
    proof {
        assert(out@ + Seq::<u8>::empty() =~= out@);
    }
    out
}

/// Tokenizes canonical document text into events.  Sound by construction:
/// whatever it accepts renders back to the input byte for byte, so the
/// engine downstream sees exactly the events of the text.  Text outside the
/// canonical form the renderer emits is refused with `None`.
#[verifier::loop_isolation(false)]
#[verifier::rlimit(100)]
pub fn tokenize(input: &Vec<u8>) -> (r: Option<Vec<Event>>)
    ensures
        match r {
            Some(evs) => spec_render(events_model(evs@)) == input@,
            None => true,
        },
{
    let mut out: Vec<Event> = Vec::new();
    let mut pos: usize = 0;
    proof {
        assert(spec_render(events_model(out@)) =~= input@.take(0));
    }
    while pos < input.len()
        invariant
            0 <= pos <= input@.len(),
            spec_render(events_model(out@)) == input@.take(pos as int),
        decreases input@.len() - pos,
    {
        let ghost pos0 = pos as int;
        let ghost out0 = out@;
        if input[pos] == 60 {
            if pos + 1 < input.len() && input[pos + 1] == 47 {
                // a close event: `</tag>`
                let mut p = pos + 2;
                let mut tag: Vec<u8> = Vec::new();
                while p < input.len() && input[p] != 62
                    invariant
                        pos as int + 2 <= p as int <= input@.len(),
                        tag@ == input@.subrange(pos as int + 2, p as int),
                        forall|k: int| pos + 2 <= k < p ==> input@[k] != 62,
                    decreases input@.len() - p,
                {
                    let b = input[p];
                    tag.push(b);
                    proof {
                        assert(tag@ =~= input@.subrange(pos as int + 2, p as int + 1));
                    }
                    p = p + 1;
                }
                if p >= input.len() {
                    return None;
                }
                let e = Event::Close { tag };
                let ghost em = e@;
                out.push(e);
                pos = p + 1;
                proof {
                    crate::events::lemma_events_model_push(out0, out@.last());
                    lemma_render_events_push(events_model(out0), em, 0);
                    assert(render_event(em) =~= input@.subrange(pos0, pos as int));
                    assert(input@.take(pos0) + input@.subrange(pos0, pos as int) =~= input@.take(
                        pos as int,
                    ));
                }
            } else {
                // an open or self-closing element
                let mut p = pos + 1;
                let mut tag: Vec<u8> = Vec::new();
                while p < input.len() && input[p] != 62 && input[p] != 47 && input[p] != 32
                    invariant
                        pos as int + 1 <= p as int <= input@.len(),
                        tag@ == input@.subrange(pos as int + 1, p as int),
                    decreases input@.len() - p,
                {
                    let b = input[p];
                    tag.push(b);
                    proof {
                        assert(tag@ =~= input@.subrange(pos as int + 1, p as int + 1));
                    }
                    p = p + 1;
                }
                if p >= input.len() {
                    return None;
                }
                let mut attrs: Vec<Attribute> = Vec::new();
                let ghost astart = p as int;
                while p < input.len() && input[p] == 32
                    invariant
                        astart <= p as int <= input@.len(),
                        tag@ == input@.subrange(pos as int + 1, astart),
                        render_attrs_from(attrs_model(attrs@), 0) == input@.subrange(
                            astart,
                            p as int,
                        ),
                    decreases input@.len() - p,
                {
                    let ghost ap = p as int;
                    let ghost attrs0 = attrs_model(attrs@);
                    let mut key: Vec<u8> = Vec::new();
                    let mut q = p + 1;
                    while q < input.len() && input[q] != 61
                        invariant
                            p as int + 1 <= q as int <= input@.len(),
                            key@ == input@.subrange(p as int + 1, q as int),
                        decreases input@.len() - q,
                    {
                        let b = input[q];
                        key.push(b);
                        proof {
                            assert(key@ =~= input@.subrange(p as int + 1, q as int + 1));
                        }
                        q = q + 1;
                    }
                    if q >= input.len() || q == input.len() - 1 || input[q + 1] != 34 {
                        return None;
                    }
                    let mut value: Vec<u8> = Vec::new();
                    let mut v = q + 2;
                    while v < input.len() && input[v] != 34
                        invariant
                            q as int + 2 <= v as int <= input@.len(),
                            value@ == input@.subrange(q as int + 2, v as int),
                        decreases input@.len() - v,
                    {
                        let b = input[v];
                        value.push(b);
                        proof {
                            assert(value@ =~= input@.subrange(q as int + 2, v as int + 1));
                        }
                        v = v + 1;
                    }
                    if v >= input.len() {
                        return None;
                    }
                    let a = Attribute { key, value };
                    let ghost am = a@;
                    let ghost av0 = attrs@;
                    attrs.push(a);
                    p = v + 1;
                    proof {
                        crate::events::lemma_attrs_model_push(av0, attrs@.last());
                        lemma_render_attrs_push(attrs0, am, 0);
                        assert(astart <= ap < p as int <= input@.len());
                        assert(render_attr(am) =~= input@.subrange(ap, p as int));
                        assert(input@.subrange(astart, ap) + input@.subrange(ap, p as int)
                            =~= input@.subrange(astart, p as int));
                    }
                }
                if p >= input.len() {
                    return None;
                }
                if input[p] == 62 {
                    let e = Event::Open { tag, attributes: attrs };
                    let ghost em = e@;
                    out.push(e);
                    pos = p + 1;
                    proof {
                        crate::events::lemma_events_model_push(out0, out@.last());
                        lemma_render_events_push(events_model(out0), em, 0);
                        assert(render_event(em) =~= input@.subrange(pos0, pos as int));
                        assert(input@.take(pos0) + input@.subrange(pos0, pos as int)
                            =~= input@.take(pos as int));
                    }
                } else if input[p] == 47 {
                    if p + 1 >= input.len() || input[p + 1] != 62 {
                        return None;
                    }
                    let e = Event::SelfClosed { tag, attributes: attrs };
                    let ghost em = e@;
                    out.push(e);
                    pos = p + 2;
                    proof {
                        crate::events::lemma_events_model_push(out0, out@.last());
                        lemma_render_events_push(events_model(out0), em, 0);
                        assert(render_event(em) =~= input@.subrange(pos0, pos as int));
                        assert(input@.take(pos0) + input@.subrange(pos0, pos as int)
                            =~= input@.take(pos as int));
                    }
                } else {
                    return None;
                }
            }
        } else {
            // text content up to the next element
            let mut p = pos;
            let mut content: Vec<u8> = Vec::new();
            while p < input.len() && input[p] != 60
                invariant
                    pos as int <= p as int <= input@.len(),
                    content@ == input@.subrange(pos as int, p as int),
                decreases input@.len() - p,
            {
                let b = input[p];
                content.push(b);
                proof {
                    assert(content@ =~= input@.subrange(pos as int, p as int + 1));
                }
                p = p + 1;
            }
            let e = Event::Text { content };
            let ghost em = e@;
            out.push(e);
            pos = p;
            proof {
                crate::events::lemma_events_model_push(out0, out@.last());
                lemma_render_events_push(events_model(out0), em, 0);
                assert(render_event(em) =~= input@.subrange(pos0, pos as int));
                assert(input@.take(pos0) + input@.subrange(pos0, pos as int) =~= input@.take(
                    pos as int,
                ));
            }
        }
    }
    proof {
        assert(input@.take(input@.len() as int) =~= input@);
    }
    Some(out)
}

} // verus!
