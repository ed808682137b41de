//! A large buffer of random bytes, the payload that a heap allocator is
//! exercised with.
use vstd::prelude::*;

verus! {

/// How many bytes a [`BigData`] holds.
pub const DATA_SIZE: usize = 100 * 1024 * 1024;

/// Relies on rand::random: a byte drawn from the thread-local generator; any
/// value may come back.
#[verifier::external_body]
fn random_byte() -> (r: u8) {
    rand::random::<u8>()
}

pub struct BigData {
    data: Vec<u8>,
}

impl View for BigData {
    type V = Seq<u8>;

    closed spec fn view(&self) -> Seq<u8> {
        self.data@
    }
}

impl BigData {
    /// A buffer of exactly [`DATA_SIZE`] random bytes.
    pub fn construct() -> (r: BigData)
        ensures
            r@.len() == DATA_SIZE,
    {
        let mut data: Vec<u8> = Vec::with_capacity(DATA_SIZE);
        let mut i: usize = 0;
        while i < DATA_SIZE
            invariant
                i <= DATA_SIZE,
                data@.len() == i,
            decreases DATA_SIZE - i,
        {
            data.push(random_byte());
            i = i + 1;
        }
        BigData { data }
    }

    /// The bytes held.
    pub fn data(&self) -> (r: &Vec<u8>)
        ensures
            r@ == self@,
    {
        &self.data
    }
}

} // verus!
