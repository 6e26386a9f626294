use vstd::prelude::*;

verus! {

/// Bit pattern of negative zero: only the sign bit is set.
pub const NEGATIVE_ZERO_BITS: u64 = 0x8000_0000_0000_0000;

/// Bit pattern of negative infinity, the largest pattern that is still a
/// number with the sign bit set; every pattern above it is a NaN.
pub const NEGATIVE_INFINITY_BITS: u64 = 0xFFF0_0000_0000_0000;

/// Whether the double with this bit pattern compares below zero.
///
/// That is the case for the negative numbers down to negative infinity, and
/// for nothing else: not for either zero, and not for a NaN of either sign.
pub open spec fn below_zero(bits: u64) -> bool {
    NEGATIVE_ZERO_BITS < bits <= NEGATIVE_INFINITY_BITS
}

/// Sense of rotation around the pivot.
#[derive(Clone, Copy, Debug, PartialEq, Eq, Structural)]
pub enum Orbit {
    /// The angle grows from tick to tick.
    Increasing,
    /// The angle shrinks from tick to tick.
    Decreasing,
}

impl Orbit {
    /// The factor that the angular step is multiplied by: `1` or `-1`.
    pub open spec fn spec_sign(self) -> i8 {
        match self {
            Orbit::Increasing => 1i8,
            Orbit::Decreasing => -1i8,
        }
    }

    /// The factor that the angular step is multiplied by: `1` or `-1`.
    #[verifier::when_used_as_spec(spec_sign)]
    pub fn sign(self) -> (s: i8)
        ensures
            s == self.spec_sign(),
    {
        match self {
            Orbit::Increasing => 1i8,
            Orbit::Decreasing => -1i8,
        }
    }
}

/// Elliptical flight path of one enemy.
///
/// Each field holds the bit pattern of an IEEE 754 double, so that a path
/// is copied from the generator onto an enemy without any rounding. All
/// members of a batch start from equal copies; afterwards every enemy owns
/// its copy, and only `angle` changes.
#[derive(Clone, Copy, Debug, PartialEq, Eq)]
pub struct Formation {
    /// Spawn coordinate `(x, y)`; the sign of `x` fixes the sense of rotation.
    pub start: (u64, u64),
    /// Semi-axes `(rx, ry)` of the ellipse.
    pub radius: (u64, u64),
    /// Centre `(x, y)` of the ellipse.
    pub pivot: (u64, u64),
    /// Distance covered per second.
    pub speed: u64,
    /// Angular position on the ellipse, in radians.
    pub angle: u64,
}

impl Formation {
    /// The sense of rotation: enemies that spawn left of the origin orbit
    /// with a growing angle, all others with a shrinking one.
    pub open spec fn spec_orbit(&self) -> Orbit {
        if below_zero(self.start.0) {
            Orbit::Increasing
        } else {
            Orbit::Decreasing
        }
    }

    /// The sense of rotation, read off the sign of `start.x`.
    #[verifier::when_used_as_spec(spec_orbit)]
    pub fn orbit(&self) -> (o: Orbit)
        ensures
            o == self.spec_orbit(),
    {
        if NEGATIVE_ZERO_BITS < self.start.0 && self.start.0 <= NEGATIVE_INFINITY_BITS {
            Orbit::Increasing
        } else {
            Orbit::Decreasing
        }
    }

    /// The path with `angle` replaced and every other field kept.
    pub open spec fn with_angle(self, angle: u64) -> Formation {
        Formation { angle, ..self }
    }

    /// The path after one tick that computed the angle `advanced`: the new
    /// angle is kept only if the enemy was within reach of its previous
    /// target; otherwise the path is as before, so that the target does not
    /// run ahead of the enemy.
    pub open spec fn settled(self, advanced: u64, within_reach: bool) -> Formation {
        if within_reach {
            self.with_angle(advanced)
        } else {
            self
        }
    }

    /// The path after a run of ticks, each given by the angle it computed
    /// and by whether the enemy was within reach.
    pub open spec fn after_ticks(self, ticks: Seq<(u64, bool)>) -> Formation
        decreases ticks.len(),
    {
        if ticks.len() == 0 {
            self
        } else {
            self.after_ticks(ticks.drop_last()).settled(ticks.last().0, ticks.last().1)
        }
    }

    /// Ends one tick: stores the advanced angle if the enemy was within
    /// reach, and changes nothing otherwise.
    pub fn settle(&mut self, advanced: u64, within_reach: bool)
        ensures
            *final(self) == old(self).settled(advanced, within_reach),
    {
        if within_reach {
            self.angle = advanced;
        }
    }

    /// Over any run of ticks a path changes in its angle only, so the
    /// ellipse and the sense of rotation stay what they were at the spawn.
    /// The angle is the one computed by the last tick that found the enemy
    /// within reach; a run without such a tick leaves the path untouched.
    pub proof fn lemma_ticks_move_only_the_angle(self, ticks: Seq<(u64, bool)>)
        ensures
            self.after_ticks(ticks).with_angle(self.angle) == self,
            self.after_ticks(ticks).spec_orbit() == self.spec_orbit(),
            (forall|i: int| 0 <= i < ticks.len() ==> !(#[trigger] ticks[i]).1) ==> self.after_ticks(
                ticks,
            ) == self,
            forall|i: int|
                0 <= i < ticks.len() && (#[trigger] ticks[i]).1 && (forall|j: int|
                    i < j < ticks.len() ==> !(#[trigger] ticks[j]).1) ==> self.after_ticks(
                    ticks,
                ).angle == ticks[i].0,
        decreases ticks.len(),
    {
        if ticks.len() > 0 {
            let before = ticks.drop_last();
            self.lemma_ticks_move_only_the_angle(before);
            assert forall|i: int|
                0 <= i < ticks.len() && (#[trigger] ticks[i]).1 && (forall|j: int|
                    i < j < ticks.len() ==> !(#[trigger] ticks[j]).1) implies self.after_ticks(
                ticks,
            ).angle == ticks[i].0 by {
                if i < ticks.len() - 1 {
                    assert(!ticks[ticks.len() - 1].1);
                    assert(before[i] == ticks[i]);
                    assert forall|j: int| i < j < before.len() implies !(#[trigger] before[j]).1 by {
                        assert(before[j] == ticks[j]);
                    }
                }
            }
            if forall|i: int| 0 <= i < ticks.len() ==> !(#[trigger] ticks[i]).1 {
                assert(!ticks[ticks.len() - 1].1);
                assert forall|i: int| 0 <= i < before.len() implies !(#[trigger] before[i]).1 by {
                    assert(before[i] == ticks[i]);
                }
            }
        }
    }
}

} // verus!
