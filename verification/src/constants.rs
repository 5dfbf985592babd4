use vstd::prelude::*;

verus! {

// All resource quantities, hunger values, contamination levels and
// probabilities are fixed-point numbers carrying four decimal places:
// a stored value of `AMOUNT_SCALE` means 1.0 whole units.
pub const AMOUNT_SCALE: i64 = 10000;

/// One whole unit of a resource (what a generic meal consumes).
pub const ONE_UNIT: i64 = 10000;

// Entity lifecycle.
pub const DEFAULT_MAX_AGE: u64 = 7200;
pub const DEFAULT_HUNGER: i64 = 1000000;
pub const DEFAULT_HUNGER_RATE: i64 = 1000;
pub const HUNGER_THRESHOLD_EAT: i64 = 500000;
pub const HUNGER_GAIN_FROM_EATING: i64 = 300000;
pub const MAX_HUNGER: i64 = 1000000;

// Queen spawning.
pub const SPAWN_INTERVAL_TICKS: u64 = 1800;
pub const SPAWN_COST_NUTRIENTS: i64 = 100000;
pub const SPAWN_COST_FUNGUS: i64 = 100000;
pub const MIN_RESOURCES_TO_SPAWN: i64 = 150000;

// Undertakers and blight.
pub const CORPSE_PROCESSING_TICKS: u64 = 120;
pub const CORPSE_NUTRIENT_BOOST: i64 = 1000;
pub const CORPSE_BOOST_DURATION: u64 = 600;
pub const CONTAMINATION_PER_CORPSE: i64 = 100;
pub const MAX_CONTAMINATION: i64 = 10000;
pub const BLIGHT_DURATION: u64 = 300;

// Receiver and summoning.
pub const SUMMON_COST: i64 = 20000;
pub const SUMMON_COOLDOWN: u64 = 600;
pub const SUMMON_CHANCE: i64 = 3000;
pub const LISTENING_DRAIN: i64 = 5;
pub const MAINTENANCE_INTERVAL: u64 = 3600;
pub const MAINTENANCE_COST_STRANGE_MATTER: i64 = 10000;

// Hungry visitors.
pub const HUNGRY_INFLUENCE_CONSUME: i64 = 1000;
pub const HUNGRY_STRANGE_MATTER_PRODUCE: i64 = 500;
pub const HUNGRY_HUNGER_GAIN: i64 = 200000;

// Boredom.
pub const BOREDOM_THRESHOLD: u64 = 60;

// Offline progress.
pub const MAX_OFFLINE_TICKS: u64 = 3600;
pub const MIN_OFFLINE_TICKS: u64 = 10;
pub const MICROS_PER_SECOND: i64 = 1000000;

// Colony metadata.
pub const DEFAULT_SANITY: i64 = 1000000;

/// The ascending resource thresholds whose upward crossings are reported.
pub open spec fn spec_thresholds() -> Seq<i64> {
    seq![100000i64, 250000i64, 500000i64, 1000000i64, 2500000i64, 5000000i64, 10000000i64]
}

/// The same thresholds as runtime data.
pub fn thresholds_vec() -> (v: Vec<i64>)
    ensures
        v.deep_view() == spec_thresholds(),
{
    let mut v: Vec<i64> = Vec::new();
    v.push(100000);
    v.push(250000);
    v.push(500000);
    v.push(1000000);
    v.push(2500000);
    v.push(5000000);
    v.push(10000000);
    proof {
        assert(v.deep_view() =~= spec_thresholds());
    }
    v
}

/// Saturating fixed-point addition: resource and hunger arithmetic clamps at
/// the representable extremes instead of wrapping or panicking.
pub open spec fn spec_amount_add(a: i64, b: i64) -> i64 {
    if a + b > i64::MAX {
        i64::MAX
    } else if a + b < i64::MIN {
        i64::MIN
    } else {
        (a + b) as i64
    }
}

pub fn amount_add(a: i64, b: i64) -> (r: i64)
    ensures
        r == spec_amount_add(a, b),
{
    if b >= 0 {
        if a > i64::MAX - b {
            i64::MAX
        } else {
            a + b
        }
    } else {
        if a < i64::MIN - b {
            i64::MIN
        } else {
            a + b
        }
    }
}

} // verus!
