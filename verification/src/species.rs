use vstd::prelude::*;

use crate::json::{Jv, JsonValue};
use crate::serialization::{Serializable, SerializationCtx};

verus! {

/// Statistics of a species; none are kept yet.
pub struct SpeciesStats {}

impl Serializable for SpeciesStats {
    /// The statistics are written out as null.
    fn serialize(&self, ctx: &mut SerializationCtx) -> (r: JsonValue)
        ensures
            r@ == Jv::Null,
            *final(ctx) == *old(ctx),
    {
        JsonValue::Null
    }
}

/// The seed of a species' random numbers, from the hash of its name and the
/// name's length: the hash's high and low words, the length, and a constant.
pub open spec fn seed_words(name_hash: u64, name_len: usize) -> [u32; 4] {
    [(name_hash / 0x1_0000_0000) as u32, (name_hash % 0x1_0000_0000) as u32, name_len as u32, 3151u32]
}

pub fn random_seed(name_hash: u64, name_len: usize) -> (r: [u32; 4])
    ensures
        r == seed_words(name_hash, name_len),
{
    let high: u64 = (name_hash >> 32u64) & 0xFFFF_FFFFu64;
    let low: u64 = name_hash & 0xFFFF_FFFFu64;
    assert(high == name_hash / 0x1_0000_0000 && low == name_hash % 0x1_0000_0000) by (bit_vector)
        requires
            high == (name_hash >> 32u64) & 0xFFFF_FFFFu64,
            low == name_hash & 0xFFFF_FFFFu64;
    [high as u32, low as u32, name_len as u32, 3151u32]
}

} // verus!
