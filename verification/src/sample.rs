//! Noise samples, and the rule that turns a sample into a voxel.
//!
//! The noise source is a function from a point of space to a number. Both
//! are exchanged as integers. A point is given by the numerators of its
//! three coordinates over `SAMPLE_DIVISOR`, which is exact for every point
//! that generation asks for. A sample is the bit pattern of a binary64
//! floating point number, and is compared as such a number is.
use vstd::prelude::*;
use crate::traversal::VolumeIdx;
use crate::traversal::in_bounds;
use crate::vector::IVec3;
use crate::chunk::CHUNK_SIZE;

verus! {

/// A point of the space that the noise source is sampled in. The point has
/// the coordinates `x / SAMPLE_DIVISOR`, `y / SAMPLE_DIVISOR` and
/// `z / SAMPLE_DIVISOR`.
#[derive(Copy, Clone, Debug, PartialEq, Eq, Structural)]
pub struct SamplePoint {
    pub x: i64,
    pub y: i64,
    pub z: i64,
}

/// Number of sample point units in one unit of noise space: a chunk spans
/// half a unit of noise space along each axis.
pub const SAMPLE_DIVISOR: i64 = 64;

/// Bit pattern of 0.33, the least sample for which a voxel is active.
pub const PERLIN_THRESHOLD: u64 = 0x3FD5_1EB8_51EB_851F;

/// The sign bit of a sample.
pub const SIGN_BIT: u64 = 0x8000_0000_0000_0000;

/// Bit pattern of positive infinity. A greater magnitude is not a number.
pub const INFINITY: u64 = 0x7FF0_0000_0000_0000;

/// The sample without its sign.
pub open spec fn magnitude(sample: u64) -> int {
    if sample >= SIGN_BIT {
        sample - SIGN_BIT
    } else {
        sample as int
    }
}

/// Whether the sample is not a number.
pub open spec fn is_nan(sample: u64) -> bool {
    magnitude(sample) > INFINITY
}

/// An integer that orders the samples that are numbers as their values are
/// ordered: magnitudes grow with the bit pattern, negative samples lie
/// mirrored below zero, and the two zeros coincide.
pub open spec fn order_key(sample: u64) -> int {
    if sample >= SIGN_BIT {
        -magnitude(sample)
    } else {
        magnitude(sample)
    }
}

/// Whether sample `a` is less than sample `b`. A sample that is not a
/// number is not less than anything, and nothing is less than it.
pub open spec fn less_than(a: u64, b: u64) -> bool {
    !is_nan(a) && !is_nan(b) && order_key(a) < order_key(b)
}

/// Whether the sample falls below the threshold.
pub open spec fn below_threshold(sample: u64) -> bool {
    less_than(sample, PERLIN_THRESHOLD)
}

/// The point at which the noise source is sampled for the voxel `idx` of
/// the chunk at `position`: the place of the voxel in chunk space, halved.
pub open spec fn sample_point_of(position: IVec3, idx: VolumeIdx) -> SamplePoint {
    SamplePoint {
        x: (idx.0 + CHUNK_SIZE * position.x) as i64,
        y: (idx.1 + CHUNK_SIZE * position.y) as i64,
        z: (idx.2 + CHUNK_SIZE * position.z) as i64,
    }
}

/// Whether the sample falls below the threshold.
pub fn is_below_threshold(sample: u64) -> (below: bool)
    ensures
        below == below_threshold(sample),
{
    let negative = sample >= SIGN_BIT;
    let magnitude = if negative {
        sample - SIGN_BIT
    } else {
        sample
    };
    if magnitude > INFINITY {
        false
    } else if negative {
        true
    } else {
        magnitude < PERLIN_THRESHOLD
    }
}

/// The point at which the noise source is sampled for the voxel `idx` of
/// the chunk at `position`.
pub fn sample_point(position: IVec3, idx: VolumeIdx) -> (point: SamplePoint)
    requires
        in_bounds(CHUNK_SIZE, idx),
    ensures
        point == sample_point_of(position, idx),
{
    SamplePoint {
        x: idx.0 as i64 + (CHUNK_SIZE as i64) * (position.x as i64),
        y: idx.1 as i64 + (CHUNK_SIZE as i64) * (position.y as i64),
        z: idx.2 as i64 + (CHUNK_SIZE as i64) * (position.z as i64),
    }
}

} // verus!
