//! The identity allocator: one persistent counter that hands out the
//! identities of users and recipes alike.

use crate::error::{Error, Rule};
use crate::stable::{
    counter_get, counter_init, counter_new, counter_partition, counter_set, counter_value,
    partition_number, Partition, StableCounter,
};
use vstd::prelude::*;

verus! {

/// The allocator. Its view is the identity that it hands out next.
pub struct IdAllocator {
    counter: StableCounter,
}

impl View for IdAllocator {
    type V = u64;

    closed spec fn view(&self) -> u64 {
        counter_value(self.counter)
    }
}

impl IdAllocator {
    /// The number of the partition that the counter was opened in.
    pub closed spec fn partition(&self) -> u8 {
        counter_partition(self.counter)
    }

    /// Starts a counter at zero in the partition, over whatever it held.
    pub(crate) fn new(partition: Partition) -> (ids: Self)
        ensures
            ids@ == 0,
            ids.partition() == partition_number(partition),
    {
        IdAllocator { counter: counter_new(partition, 0) }
    }

    /// Opens a counter in the partition: the one that the partition holds, or
    /// one at zero if it holds none. Where it stands is for the memory to say.
    pub(crate) fn init(partition: Partition) -> (ids: Self)
        ensures
            ids.partition() == partition_number(partition),
    {
        IdAllocator { counter: counter_init(partition, 0) }
    }

    /// The identity that would be handed out next.
    pub fn peek(&self) -> (id: u64)
        ensures
            id == self@,
    {
        counter_get(&self.counter)
    }

    /// Hands out an identity and moves the counter past it. The last value of
    /// the counter is never handed out: the counter could not move past it.
    pub fn next_identity(&mut self) -> (id: Result<u64, Error>)
        ensures
            match id {
                Ok(id) => id == old(self)@ && id < u64::MAX && final(self)@ == id + 1,
                Err(e) => old(self)@ == u64::MAX && e == (Error::InvalidPayload {
                    rule: Rule::IdentitiesExhausted,
                }) && *final(self) == *old(self),
            },
    {
        let current = counter_get(&self.counter);
        if current == u64::MAX {
            return Err(Error::InvalidPayload { rule: Rule::IdentitiesExhausted });
        }
        let _ = counter_set(&mut self.counter, current + 1);
        Ok(current)
    }
}

} // verus!
