//! Decides whether a frame is loud enough to analyse.
use vstd::prelude::*;

verus! {

/// The level of a frame: the floor of its level in decibels, or negative infinity
/// for a frame whose root mean square is zero.
#[derive(Clone, Copy, Debug, PartialEq, Eq, Structural)]
pub enum Loudness {
    NegativeInfinity,
    Db(i32),
}

pub open spec fn gate_passes(loudness: Loudness, threshold_db: i32) -> bool {
    match loudness {
        Loudness::NegativeInfinity => false,
        Loudness::Db(d) => d > threshold_db,
    }
}

/// Whether a frame of the given level passes a gate at `threshold_db`.
pub fn gate(loudness: Loudness, threshold_db: i32) -> (r: bool)
    ensures
        r == gate_passes(loudness, threshold_db),
{
    match loudness {
        Loudness::NegativeInfinity => false,
        Loudness::Db(d) => d > threshold_db,
    }
}

/// The loudness threshold for a control value on a 0 to 100 scale:
/// `(value / 100 - 1) * 80` decibels, truncated toward zero.
pub fn threshold_db_from_ui(value: i32) -> (r: i32)
    requires
        0 <= value <= 100,
    ensures
        r == -(((100 - value) * 80) / 100),
        -80 <= r <= 0,
{
    let below: i32 = 100 - value;
    -((below * 80) / 100)
}

/// A silent frame is never loud enough, whatever the threshold.
pub proof fn lemma_silence_never_passes(threshold_db: i32)
    ensures
        !gate_passes(Loudness::NegativeInfinity, threshold_db),
{
}

} // verus!
