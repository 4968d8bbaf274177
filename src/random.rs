//! The random draws of a generation run, made from an explicit seed.
use vstd::prelude::*;
use rand::rngs::StdRng;
use rand::{Rng, SeedableRng};
use crate::config::WorldGenConfig;

verus! {

/// rand's seedable standard generator, carried through as an opaque value.
#[verifier::external_type_specification]
#[verifier::external_body]
pub struct ExStdRng(rand::rngs::StdRng);

/// Relies on rand's `SeedableRng::seed_from_u64` for `StdRng`: a generator
/// whose stream is fixed by the seed.
#[verifier::external_body]
fn seeded_rng(seed: u64) -> StdRng {
    StdRng::seed_from_u64(seed)
}

/// Relies on rand's `Rng::random_range` over an inclusive `i64` range: the
/// value lies in `lo..=hi` (it panics only on an empty range).
#[verifier::external_body]
fn draw_between(rng: &mut StdRng, lo: i64, hi: i64) -> (r: i64)
    requires
        lo <= hi,
    ensures
        lo <= r <= hi,
{
    rng.random_range(lo..=hi)
}

/// Largest jitter, in cells, applied to each axis of a continent seed.
pub const SEED_JITTER: i64 = 10;

/// Radius of the ring on which archipelago zones are centred.
pub open spec fn zone_ring_radius(radius: int) -> int {
    radius * 7 / 10
}

/// Number of cells on a ring of radius `rho` (the centre alone for radius 0).
pub open spec fn ring_len(rho: int) -> int {
    if rho == 0 {
        1
    } else {
        6 * rho
    }
}

/// The random inputs of one run: seed jitter, archipelago positions on their
/// ring, and the shift of the sea level.
#[derive(Debug)]
pub struct RandomDraws {
    pub center_jitter: Vec<(i64, i64)>,
    pub zone_positions: Vec<i64>,
    pub sea_level_shift: i64,
}

impl RandomDraws {
    /// The draws have the count and ranges that a run with this configuration uses.
    pub open spec fn fits(&self, config: WorldGenConfig, radius: int) -> bool {
        &&& self.center_jitter@.len() == config.continent_count
        &&& forall|i: int|
            0 <= i < self.center_jitter@.len() ==> -SEED_JITTER <= (#[trigger] self.center_jitter@[i]).0
                <= SEED_JITTER && -SEED_JITTER <= self.center_jitter@[i].1 <= SEED_JITTER
        &&& self.zone_positions@.len() == config.archipelago_zones
        &&& forall|i: int|
            0 <= i < self.zone_positions@.len() ==> 0 <= #[trigger] self.zone_positions@[i]
                < ring_len(zone_ring_radius(radius))
        &&& -config.sea_level_variance <= self.sea_level_shift <= config.sea_level_variance
    }

    /// Whether the draws fit a run with this configuration and radius.
    pub fn check(&self, config: &WorldGenConfig, radius: i32) -> (ok: bool)
        requires
            0 <= radius <= 1000,
        ensures
            ok == self.fits(*config, radius as int),
    {
        if self.center_jitter.len() != config.continent_count {
            return false;
        }
        let mut i: usize = 0;
        while i < self.center_jitter.len()
            invariant
                i <= self.center_jitter@.len(),
                forall|k: int|
                    0 <= k < i ==> -SEED_JITTER <= (#[trigger] self.center_jitter@[k]).0 <= SEED_JITTER
                        && -SEED_JITTER <= self.center_jitter@[k].1 <= SEED_JITTER,
            decreases self.center_jitter@.len() - i,
        {
            let (a, b) = self.center_jitter[i];
            if a < -SEED_JITTER || a > SEED_JITTER || b < -SEED_JITTER || b > SEED_JITTER {
                return false;
            }
            i = i + 1;
        }
        if self.zone_positions.len() != config.archipelago_zones {
            return false;
        }
        let rho: i64 = radius as i64 * 7 / 10;
        let len: i64 = if rho == 0 {
            1
        } else {
            6 * rho
        };
        let mut z: usize = 0;
        while z < self.zone_positions.len()
            invariant
                z <= self.zone_positions@.len(),
                len == ring_len(zone_ring_radius(radius as int)),
                forall|k: int| 0 <= k < z ==> 0 <= #[trigger] self.zone_positions@[k] < len,
            decreases self.zone_positions@.len() - z,
        {
            let t = self.zone_positions[z];
            if t < 0 || t >= len {
                return false;
            }
            z = z + 1;
        }
        config.sea_level_variance >= 0 && -config.sea_level_variance <= self.sea_level_shift
            && self.sea_level_shift <= config.sea_level_variance
    }

    /// Makes every draw of a run from `seed`.
    pub fn from_seed(config: &WorldGenConfig, radius: i32, seed: u64) -> (d: RandomDraws)
        requires
            config.valid(),
            0 <= radius <= 1000,
        ensures
            d.fits(*config, radius as int),
            config.sea_level_variance > 0 ==> d.sea_level_shift < config.sea_level_variance,
            config.sea_level_variance == 0 ==> d.sea_level_shift == 0,
    {
        let mut rng = seeded_rng(seed);
        let mut center_jitter: Vec<(i64, i64)> = Vec::new();
        let mut i: usize = 0;
        while i < config.continent_count
            invariant
                i <= config.continent_count,
                center_jitter@.len() == i,
                forall|k: int|
                    0 <= k < center_jitter@.len() ==> -SEED_JITTER <= (#[trigger] center_jitter@[k]).0
                        <= SEED_JITTER && -SEED_JITTER <= center_jitter@[k].1 <= SEED_JITTER,
            decreases config.continent_count - i,
        {
            let dq = draw_between(&mut rng, -SEED_JITTER, SEED_JITTER);
            let dr = draw_between(&mut rng, -SEED_JITTER, SEED_JITTER);
            center_jitter.push((dq, dr));
            i = i + 1;
        }
        let rho: i64 = radius as i64 * 7 / 10;
        let len: i64 = if rho == 0 {
            1
        } else {
            6 * rho
        };
        let mut zone_positions: Vec<i64> = Vec::new();
        let mut z: usize = 0;
        while z < config.archipelago_zones
            invariant
                z <= config.archipelago_zones,
                len == ring_len(zone_ring_radius(radius as int)),
                len >= 1,
                zone_positions@.len() == z,
                forall|k: int| 0 <= k < zone_positions@.len() ==> 0 <= #[trigger] zone_positions@[k] < len,
            decreases config.archipelago_zones - z,
        {
            let t = draw_between(&mut rng, 0, len - 1);
            zone_positions.push(t);
            z = z + 1;
        }
        let sea_level_shift: i64 = if config.sea_level_variance > 0 {
            draw_between(&mut rng, -config.sea_level_variance, config.sea_level_variance - 1)
        } else {
            0
        };
        RandomDraws { center_jitter, zone_positions, sea_level_shift }
    }
}

} // verus!
