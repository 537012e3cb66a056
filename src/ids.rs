use vstd::prelude::*;

verus! {

/// The identity of one dock entry: opaque, unique and never reused.
#[derive(Clone, Copy, Debug, PartialEq, Eq, Hash, Structural)]
pub struct ItemId(pub u128);

} // verus!
