//! Messages exchanged with a remote executor.

use vstd::prelude::*;

verus! {

/// A framed message: its payload bytes and a tag naming the payload's kind.
#[derive(Clone, Debug, PartialEq, Eq)]
pub struct NetworkMessage {
    pub message: Vec<u8>,
    pub message_type: String,
}

/// The message that carries nothing.
#[derive(Clone, Copy, Debug, PartialEq, Eq)]
pub struct Empty {}

impl Default for NetworkMessage {
    /// The message with an empty payload and an empty kind.
    fn default() -> (m: Self)
        ensures
            m.message@ == Seq::<u8>::empty(),
            m.message_type@ == Seq::<char>::empty(),
    {
        NetworkMessage { message: Vec::new(), message_type: String::new() }
    }
}

} // verus!
