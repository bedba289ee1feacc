//! How lively the animations are: named profiles, and the settings of the user
//! on top of them.
//!
//! Factors are held in whole millionths.

use vstd::prelude::*;

verus! {

/// How strongly the animations answer to what the hardware does.
#[derive(Clone, Copy, Debug, PartialEq, Eq, Structural)]
pub enum AnimationProfile {
    /// Only extreme spikes show.
    AnomaliesOnly,
    /// Light work appears nearly still.
    Relaxed,
    /// The balanced default.
    Normal,
    /// Moderate work produces vigorous animation.
    Hyper,
    /// Every fluctuation shows.
    Paranoid,
}

impl Default for AnimationProfile {
    fn default() -> (p: Self)
        ensures
            p == AnimationProfile::Normal,
    {
        AnimationProfile::Normal
    }
}

/// The factors that the animations go by, in millionths.
#[derive(Clone, Copy, Debug, PartialEq, Eq, Structural)]
pub struct AnimConfig {
    /// The factor on every change of power.
    pub sensitivity: i64,
    /// The factor on the number of particles.
    pub max_particles_scale: i64,
}

/// What the user has set. What is absent is left as the profile has it.
#[derive(Clone, Copy, Debug, PartialEq, Eq)]
pub struct AnimConfigOverrides {
    pub sensitivity: Option<i64>,
    pub max_particles_scale: Option<i64>,
}

/// The factors of a profile.
pub open spec fn profile_config(profile: AnimationProfile) -> AnimConfig {
    match profile {
        AnimationProfile::AnomaliesOnly => AnimConfig {
            sensitivity: 200_000,
            max_particles_scale: 500_000,
        },
        AnimationProfile::Relaxed => AnimConfig {
            sensitivity: 500_000,
            max_particles_scale: 750_000,
        },
        AnimationProfile::Normal => AnimConfig {
            sensitivity: 1_000_000,
            max_particles_scale: 1_000_000,
        },
        AnimationProfile::Hyper => AnimConfig {
            sensitivity: 2_000_000,
            max_particles_scale: 2_000_000,
        },
        AnimationProfile::Paranoid => AnimConfig {
            sensitivity: 5_000_000,
            max_particles_scale: 3_000_000,
        },
    }
}

/// A number of particles: the base by the factor, without the fraction, and no
/// less than the floor.
pub open spec fn particles(base: nat, scale: int, floor: nat) -> nat {
    let n: int = if scale <= 0 { 0 } else { base * scale / 1_000_000 };
    if n > usize::MAX {
        usize::MAX as nat
    } else if n < floor {
        floor
    } else {
        n as nat
    }
}

fn scaled(base: u64, scale: i64, floor: usize) -> (n: usize)
    requires
        base <= 1000,
        floor <= 1000,
    ensures
        n == particles(base as nat, scale as int, floor as nat),
{
    if scale <= 0 {
        return floor;
    }
    assert(base * scale <= 1000 * 0xffff_ffff_ffff_ffff) by (nonlinear_arith)
        requires
            0 <= base <= 1000,
            0 <= scale <= 0xffff_ffff_ffff_ffff,
    ;
    let n: u128 = base as u128 * scale as u128 / 1_000_000;
    if n > usize::MAX as u128 {
        usize::MAX
    } else if n < floor as u128 {
        floor
    } else {
        n as usize
    }
}

impl AnimConfig {
    /// The factors of a profile.
    pub fn from_profile(profile: AnimationProfile) -> (c: Self)
        ensures
            c == profile_config(profile),
    {
        match profile {
            AnimationProfile::AnomaliesOnly => AnimConfig {
                sensitivity: 200_000,
                max_particles_scale: 500_000,
            },
            AnimationProfile::Relaxed => AnimConfig {
                sensitivity: 500_000,
                max_particles_scale: 750_000,
            },
            AnimationProfile::Normal => AnimConfig {
                sensitivity: 1_000_000,
                max_particles_scale: 1_000_000,
            },
            AnimationProfile::Hyper => AnimConfig {
                sensitivity: 2_000_000,
                max_particles_scale: 2_000_000,
            },
            AnimationProfile::Paranoid => AnimConfig {
                sensitivity: 5_000_000,
                max_particles_scale: 3_000_000,
            },
        }
    }

    /// How many particles the Memory Castle shows.
    pub fn castle_max_particles(&self) -> (n: usize)
        ensures
            n == particles(600, self.max_particles_scale as int, 20),
    {
        scaled(600, self.max_particles_scale, 20)
    }

    /// How many particles the Memory Flow shows.
    pub fn flow_max_particles(&self) -> (n: usize)
        ensures
            n == particles(200, self.max_particles_scale as int, 10),
    {
        scaled(200, self.max_particles_scale, 10)
    }

    /// How many particles the portrait of a device shows.
    pub fn portrait_max_particles(&self) -> (n: usize)
        ensures
            n == particles(32, self.max_particles_scale as int, 4),
    {
        scaled(32, self.max_particles_scale, 4)
    }

    /// The factors with what the user has set.
    pub fn merge(self, overrides: AnimConfigOverrides) -> (c: Self)
        ensures
            c.sensitivity == match overrides.sensitivity {
                Some(v) => v,
                None => self.sensitivity,
            },
            c.max_particles_scale == match overrides.max_particles_scale {
                Some(v) => v,
                None => self.max_particles_scale,
            },
    {
        AnimConfig {
            sensitivity: match overrides.sensitivity {
                Some(v) => v,
                None => self.sensitivity,
            },
            max_particles_scale: match overrides.max_particles_scale {
                Some(v) => v,
                None => self.max_particles_scale,
            },
        }
    }
}

/// The numbers of particles grow with the factor and never fall below their
/// floor.
pub proof fn law_particles_grow(base: nat, less: int, more: int, floor: nat)
    requires
        less <= more,
        floor <= usize::MAX,
    ensures
        floor <= particles(base, less, floor) <= particles(base, more, floor) <= usize::MAX,
{
    if less > 0 {
        assert(base * less <= base * more) by (nonlinear_arith)
            requires
                less <= more,
                base >= 0,
        ;
        assert(base * less / 1_000_000 <= base * more / 1_000_000);
    } else if more > 0 {
        assert(base * more >= 0) by (nonlinear_arith)
            requires
                more > 0,
                base >= 0,
        ;
    }
}

/// The number of particles is the base by the factor, which is in millionths, rounded
/// down; a factor of one leaves the base as it is, and one that is not above zero
/// leaves the floor.
pub proof fn law_particles_are_the_base_by_the_factor(base: nat, scale: int, floor: nat)
    requires
        floor <= base <= u32::MAX,
    ensures
        particles(base, 1_000_000, floor) == base,
        scale <= 0 ==> particles(base, scale, floor) == floor,
        ({
            let n = particles(base, scale, floor);
            floor < n < usize::MAX ==> n * 1_000_000 <= base * scale < (n + 1) * 1_000_000
        }),
{
    assert(base * 1_000_000 / 1_000_000 == base);
}

/// The factors of the profiles: a fifth, a half, one, two and five on the changes of
/// power, and a half, three quarters, one, two and three on the particles, so that a
/// livelier profile never answers less.
pub proof fn law_profiles_have_their_factors()
    ensures
        profile_config(AnimationProfile::AnomaliesOnly).sensitivity * 5 == 1_000_000,
        profile_config(AnimationProfile::AnomaliesOnly).max_particles_scale * 2 == 1_000_000,
        profile_config(AnimationProfile::Relaxed).sensitivity * 2 == 1_000_000,
        profile_config(AnimationProfile::Relaxed).max_particles_scale * 4 == 3_000_000,
        profile_config(AnimationProfile::Normal).sensitivity == 1_000_000,
        profile_config(AnimationProfile::Normal).max_particles_scale == 1_000_000,
        profile_config(AnimationProfile::Hyper).sensitivity == 2 * 1_000_000,
        profile_config(AnimationProfile::Hyper).max_particles_scale == 2 * 1_000_000,
        profile_config(AnimationProfile::Paranoid).sensitivity == 5 * 1_000_000,
        profile_config(AnimationProfile::Paranoid).max_particles_scale == 3 * 1_000_000,
{
}

} // verus!
