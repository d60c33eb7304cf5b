//! Per-frame force parameters: push (pairwise repulsion) and pull
//! (attraction along enabled edges). Owned and mutated by the host's
//! configuration UI; each simulation step reads them as an immutable
//! snapshot.

use vstd::prelude::*;
use crate::geometry::clamp_spec;

verus! {

/// Largest value a force-configuration parameter may take; constructors
/// clamp into this range so that every force product fits the integer
/// arithmetic of the simulation.
pub const CFG_LIMIT: i64 = 1_000_000_000;

/// Repulsion parameters: magnitude `force`, effective range `distance`.
#[derive(Clone, Copy, PartialEq, Eq, Structural, Debug)]
pub struct PushForceConfig {
    pub force: i64,
    pub distance: i64,
}

impl PushForceConfig {
    pub open spec fn wf(self) -> bool {
        0 <= self.force <= CFG_LIMIT && 1 <= self.distance <= CFG_LIMIT
    }

    pub fn new(force: i64, distance: i64) -> (r: PushForceConfig)
        ensures
            r.force as int == clamp_spec(force as int, 0, CFG_LIMIT as int),
            r.distance as int == clamp_spec(distance as int, 1, CFG_LIMIT as int),
            r.wf(),
    {
        PushForceConfig {
            force: if force < 0 {
                0
            } else if force > CFG_LIMIT {
                CFG_LIMIT
            } else {
                force
            },
            distance: if distance < 1 {
                1
            } else if distance > CFG_LIMIT {
                CFG_LIMIT
            } else {
                distance
            },
        }
    }

    pub fn force(&self) -> (r: i64)
        ensures
            r == self.force,
    {
        self.force
    }

    pub fn distance(&self) -> (r: i64)
        ensures
            r == self.distance,
    {
        self.distance
    }
}

/// Attraction parameters: no pull below `min_distance`; the magnitude grows
/// linearly and equals `force_at_twice_distance` at twice that distance.
#[derive(Clone, Copy, PartialEq, Eq, Structural, Debug)]
pub struct PullForceConfig {
    pub min_distance: i64,
    pub force_at_twice_distance: i64,
}

impl PullForceConfig {
    pub open spec fn wf(self) -> bool {
        1 <= self.min_distance <= CFG_LIMIT && 0 <= self.force_at_twice_distance <= CFG_LIMIT
    }

    pub fn new(min_distance: i64, force_at_twice_distance: i64) -> (r: PullForceConfig)
        ensures
            r.min_distance as int == clamp_spec(min_distance as int, 1, CFG_LIMIT as int),
            r.force_at_twice_distance as int == clamp_spec(
                force_at_twice_distance as int,
                0,
                CFG_LIMIT as int,
            ),
            r.wf(),
    {
        PullForceConfig {
            min_distance: if min_distance < 1 {
                1
            } else if min_distance > CFG_LIMIT {
                CFG_LIMIT
            } else {
                min_distance
            },
            force_at_twice_distance: if force_at_twice_distance < 0 {
                0
            } else if force_at_twice_distance > CFG_LIMIT {
                CFG_LIMIT
            } else {
                force_at_twice_distance
            },
        }
    }

    pub fn min_distance(&self) -> (r: i64)
        ensures
            r == self.min_distance,
    {
        self.min_distance
    }

    pub fn force_at_twice_distance(&self) -> (r: i64)
        ensures
            r == self.force_at_twice_distance,
    {
        self.force_at_twice_distance
    }
}

} // verus!
