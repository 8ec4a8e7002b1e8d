//! What the queue asks of a codec: an encoder that writes a task as bytes,
//! and a decoder that reads bytes as a task.

use vstd::prelude::*;

verus! {

/// Writes tasks as bytes.
pub trait Encoder {
    /// The type of the tasks.
    type Item;

    /// Appends the bytes of `item` to `buffer`, or fails with a reason.
    fn encode(&mut self, item: &Self::Item, buffer: &mut Vec<u8>) -> Result<(), String>;
}

/// Reads bytes as tasks.
pub trait Decoder {
    /// The type of the tasks.
    type Item;

    /// Reads a task from `buffer`. Gives nothing where the bytes are not a
    /// whole task, and fails with a reason where it cannot read at all.
    fn decode(&mut self, buffer: &mut Vec<u8>) -> Result<Option<Self::Item>, String>;
}

} // verus!
