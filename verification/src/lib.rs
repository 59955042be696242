//! A declarative binding layer between typed record values and a restricted,
//! event-based XML document model.
//!
//! A [`schema::Descriptor`] states, once per record shape, how each field maps
//! onto XML constructs: attributes, text content, nested child elements, and
//! the flattened wrapper-element forms.  One generic write engine turns a
//! populated record into a deterministic event sequence, and one generic read
//! engine folds an event sequence back into a record.  Tagged unions are
//! handled by a variant dispatcher that routes by element tag.

pub mod bytes;
pub mod codec;
pub mod events;
pub mod schema;
pub mod text;
pub mod variant;
pub mod read;
pub mod value;
pub mod vertical_alignment;
pub mod write;
