//! The variant dispatcher: routes a tagged union to one of several record
//! descriptors, by element tag, in both directions.
//!
//! Writing delegates unconditionally to the chosen alternative and emits
//! nothing of its own.  Reading peeks the upcoming tag and scans the
//! alternatives in declared order for the first match; tags are unique in a
//! built [`VariantDescriptor`], so the first match is the only one.

use crate::bytes::bytes_eq;
use crate::events::{events_model, Event, EventModel};
use crate::read::{read_record, spec_read, ReadError, VariantValue};
use crate::schema::{descs_model, Descriptor, DescriptorModel, VariantDescriptor};
use crate::value::{record_conforms, RecordModel, RecordValue};
use crate::write::{spec_write, write_record};
use vstd::prelude::*;

verus! {

/// The first alternative whose tag matches, from `k` on.
pub open spec fn spec_variant_index(vds: Seq<DescriptorModel>, tag: Seq<u8>, k: int) -> Option<
    int,
>
    decreases vds.len() - k,
{
    if k < 0 || k >= vds.len() {
        None
    } else if vds[k].tag == tag {
        Some(k)
    } else {
        spec_variant_index(vds, tag, k + 1)
    }
}

/// Dispatch on a peeked tag: the first matching alternative reads the
/// record; no match is an invalid-variant error.
pub open spec fn spec_dispatch(
    vds: Seq<DescriptorModel>,
    evs: Seq<EventModel>,
    pos: int,
    tag: Seq<u8>,
) -> Result<((int, RecordModel), int), ReadError> {
    match spec_variant_index(vds, tag, 0) {
        Some(k) => match spec_read(vds[k], evs, pos) {
            Ok((rec, p)) => Ok(((k, rec), p)),
            Err(e) => Err(e),
        },
        None => Err(ReadError::InvalidEnumVariant),
    }
}

/// Reads a tagged union: peeks the upcoming event's tag and dispatches.
pub open spec fn spec_read_variant(
    vds: Seq<DescriptorModel>,
    evs: Seq<EventModel>,
    pos: int,
) -> Result<((int, RecordModel), int), ReadError> {
    if pos < 0 || pos >= evs.len() {
        Err(ReadError::UnexpectedEof)
    } else {
        match evs[pos] {
            EventModel::Open { tag, .. } => spec_dispatch(vds, evs, pos, tag),
            EventModel::SelfClosed { tag, .. } => spec_dispatch(vds, evs, pos, tag),
            _ => Err(ReadError::UnexpectedEvent),
        }
    }
}

/// The first alternative whose tag matches, as executable code.
fn variant_find(ds: &Vec<Descriptor>, tag: &Vec<u8>, k: usize) -> (r: Option<usize>)
    requires
        k <= ds@.len(),
    ensures
        match r {
            Some(i) => spec_variant_index(descs_model(ds@), tag@, k as int) == Some(i as int) && i
                < ds@.len(),
            None => spec_variant_index(descs_model(ds@), tag@, k as int) is None,
        },
    decreases ds@.len() - k,
{
    if k >= ds.len() {
        None
    } else {
        proof {
            assert(descs_model(ds@)[k as int] == ds@[k as int]@);
        }
        if bytes_eq(&ds[k].tag, tag) {
            Some(k)
        } else {
            variant_find(ds, tag, k + 1)
        }
    }
}

/// Reads a tagged union from the event sequence: the upcoming tag picks the
/// alternative, which reads the record through its own descriptor.
pub fn read_variant(vd: &VariantDescriptor, evs: &Vec<Event>, pos: usize) -> (r: Result<
    (VariantValue, usize),
    ReadError,
>)
    ensures
        match r {
            Ok(p) => spec_read_variant(vd@, events_model(evs@), pos as int) == Ok::<_, ReadError>(
                ((p.0.index as int, p.0.record@), p.1 as int),
            ) && p.0.index < vd@.len(),
            Err(e) => spec_read_variant(vd@, events_model(evs@), pos as int) == Err::<
                ((int, RecordModel), int),
                _,
            >(e),
        },
{
    let ds = vd.descriptors();
    if pos >= evs.len() {
        return Err(ReadError::UnexpectedEof);
    }
    proof {
        assert(events_model(evs@)[pos as int] == evs@[pos as int]@);
    }
    let tag: &Vec<u8> = match &evs[pos] {
        Event::Open { tag, .. } => tag,
        Event::SelfClosed { tag, .. } => tag,
        _ => {
            return Err(ReadError::UnexpectedEvent);
        },
    };
    match variant_find(ds, tag, 0) {
        Some(k) => {
            proof {
                assert(descs_model(ds@)[k as int] == ds@[k as int]@);
            }
            match read_record(&ds[k], evs, pos) {
                Ok(p) => Ok((VariantValue { index: k, record: p.0 }, p.1)),
                Err(e) => Err(e),
            }
        },
        None => Err(ReadError::InvalidEnumVariant),
    }
}

/// Writes the chosen alternative of a tagged union: pure delegation, the
/// dispatcher emits nothing of its own.
pub fn write_variant(vd: &VariantDescriptor, index: usize, r: &RecordValue) -> (out: Vec<Event>)
    requires
        index < vd@.len(),
        record_conforms(vd@[index as int], r@),
    ensures
        events_model(out@) == spec_write(vd@[index as int], r@),
{
    let ds = vd.descriptors();
    proof {
        assert(descs_model(ds@)[index as int] == ds@[index as int]@);
    }
    write_record(&ds[index], r)
}

} // verus!
