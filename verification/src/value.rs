//! Cached payloads, tagged with the type that the call site asked for.
use std::sync::Arc;
use vstd::prelude::*;

verus! {

/// A payload together with the witness of its type. The payload is shared by
/// reference: every copy handed out points to the one value that was computed.
#[derive(Debug)]
pub struct Value<V> {
    pub type_id: u64,
    pub payload: Arc<V>,
}

impl<V> Value<V> {
    /// The value that a computation at a call site of type `type_id` yields
    /// when it returns `payload`.
    pub open spec fn tagged(type_id: u64, payload: V) -> Self {
        Value { type_id, payload: Arc::new(payload) }
    }

    /// Tags `payload` with `type_id`.
    pub fn new(type_id: u64, payload: V) -> (r: Self)
        ensures
            r == Self::tagged(type_id, payload),
    {
        Value { type_id, payload: Arc::new(payload) }
    }

    /// Another reference to the same payload, under the same tag.
    pub fn share(&self) -> (r: Self)
        ensures
            r == *self,
    {
        Value { type_id: self.type_id, payload: Arc::clone(&self.payload) }
    }

    /// The witness of the payload's type.
    pub fn type_id(&self) -> (r: u64)
        ensures
            r == self.type_id,
    {
        self.type_id
    }

    /// The payload itself.
    pub fn payload(&self) -> (r: &V)
        ensures
            *r == *self.payload,
    {
        &*self.payload
    }

    /// Whether a caller that expects `type_id` may read this value.
    pub fn has_type(&self, type_id: u64) -> (r: bool)
        ensures
            r == (self.type_id == type_id),
    {
        self.type_id == type_id
    }
}

} // verus!
