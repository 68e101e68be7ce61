use vstd::prelude::*;

verus! {

/// The id has the layout of a version-4 UUID: version nibble 4, variant bits `10`.
pub open spec fn v4_id(id: u128) -> bool {
    id & 0x0000_0000_0000_F000_C000_0000_0000_0000u128 == 0x0000_0000_0000_4000_8000_0000_0000_0000u128
}

/// A fresh random identifier for a node or an edge: the 128-bit value of a
/// version-4 UUID from `uuid::Uuid::new_v4`.
///
/// The value is random; what `new_v4` guarantees of every outcome is that the
/// version nibble is 4 and the variant bits are `10`, which is all this states.
#[verifier::external_body]
pub fn new_random_id() -> (id: u128)
    ensures
        v4_id(id),
{
    uuid::Uuid::new_v4().as_u128()
}

} // verus!
