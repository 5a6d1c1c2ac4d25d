use std::collections::HashMap;
use vstd::prelude::*;

verus! {

broadcast use vstd::std_specs::hash::group_hash_axioms;

/// Bit pattern of the IEEE-754 single-precision number one.
pub const UNITY_BITS: u32 = 0x3F80_0000;

/// A volume or speed multiplier, held as the bit pattern of an IEEE-754
/// single-precision number.
///
/// The mixer selects levels and hands them on; it never does arithmetic on
/// them, so a level passes through unclamped and unrounded. Two levels are
/// equal when their bit patterns are.
#[derive(Clone, Copy, Debug, PartialEq, Eq, Structural)]
pub struct Level {
    pub bits: u32,
}

impl Level {
    /// The multiplier one: unity gain, recorded speed.
    pub open spec fn spec_unity() -> Level {
        Level { bits: UNITY_BITS }
    }

    #[verifier::when_used_as_spec(spec_unity)]
    pub fn unity() -> (r: Level)
        ensures
            r == Level::spec_unity(),
    {
        Level { bits: UNITY_BITS }
    }

    /// The level with the given bit pattern.
    pub fn from_bits(bits: u32) -> (r: Level)
        ensures
            r.bits == bits,
    {
        Level { bits }
    }

    /// The bit pattern of this level.
    pub fn to_bits(self) -> (r: u32)
        ensures
            r == self.bits,
    {
        self.bits
    }
}

/// Per-asset volume table: a multiplier for some asset keys.
pub type AudioVolumes = HashMap<u64, Level>;

/// A resolved volume: the three multipliers whose product, taken in this
/// order, is the volume a sink or a one-shot plays at.
#[derive(Clone, Copy, Debug, PartialEq, Eq, Structural)]
pub struct Gain {
    /// The asset's own multiplier, unity where the table has none for it.
    pub asset: Level,
    /// The multiplier of the whole category: of all sounds, or of all tracks.
    pub category: Level,
    /// The multiplier carried by the sound or track itself.
    pub instance: Level,
}

/// The multiplier that `volumes` gives the asset `key`: its entry, or unity
/// when the table has no entry for it.
pub open spec fn asset_level(volumes: Map<u64, Level>, key: u64) -> Level {
    if volumes.contains_key(key) {
        volumes[key]
    } else {
        Level::unity()
    }
}

/// The factors of the volume of an instance of asset `key`.
pub open spec fn resolved(volumes: Map<u64, Level>, key: u64, category: Level, instance: Level) -> Gain {
    Gain { asset: asset_level(volumes, key), category, instance }
}

/// Resolves the volume of one sound or track: the asset's multiplier from
/// `volumes` (unity when absent), the category's and the instance's, none of
/// them altered.
pub fn resolve_volume(volumes: &AudioVolumes, key: u64, category: Level, instance: Level) -> (gain: Gain)
    ensures
        gain == resolved(volumes@, key, category, instance),
{
    let asset = match volumes.get(&key) {
        Some(level) => *level,
        None => Level::unity(),
    };
    Gain { asset, category, instance }
}

} // verus!
