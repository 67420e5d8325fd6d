//! Opaque identifiers, tile coordinates, and the 128-bit state hash value.

use vstd::prelude::*;

verus! {

/// Opaque player identifier; equality only, no arithmetic semantics.
#[derive(Debug, Clone, Copy, PartialEq, Eq, Hash, Structural)]
pub struct PlayerId(pub u64);

/// Opaque city identifier.
#[derive(Debug, Clone, Copy, PartialEq, Eq, Hash, Structural)]
pub struct CityId(pub u64);

/// Opaque unit identifier.
#[derive(Debug, Clone, Copy, PartialEq, Eq, Hash, Structural)]
pub struct UnitId(pub u64);

/// Signed coordinate pair identifying a map cell. The type itself carries no
/// bounds; boundedness is an invariant of `State`.
#[derive(Debug, Clone, Copy, PartialEq, Eq, Hash, Structural)]
pub struct TileCoord {
    pub x: i32,
    pub y: i32,
}

/// A 128-bit value that is a pure function of state content.
#[derive(Debug, Clone, Copy, PartialEq, Eq, Structural)]
pub struct Hash128(pub u128);

} // verus!
