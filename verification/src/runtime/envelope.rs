use vstd::prelude::*;

verus! {

/// A message as it crosses an edge: its source and a sequence number.
#[derive(Debug, PartialEq, Eq)]
pub struct MessageEnvelope {
    pub source_node_id: u128,
    pub source_port: String,
    pub sequence: u64,
    pub payload: String,
}

impl Clone for MessageEnvelope {
    fn clone(&self) -> (c: Self)
        ensures
            c == *self,
    {
        MessageEnvelope {
            source_node_id: self.source_node_id,
            source_port: self.source_port.clone(),
            sequence: self.sequence,
            payload: self.payload.clone(),
        }
    }
}

impl MessageEnvelope {
    /// A single-shot message: sequence number 1.
    pub fn single_shot(source_node_id: u128, source_port: String, payload: String) -> (m: Self)
        ensures
            m == (MessageEnvelope { source_node_id, source_port, sequence: 1, payload }),
    {
        Self { source_node_id, source_port, sequence: 1, payload }
    }
}

} // verus!
