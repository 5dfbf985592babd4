use vstd::prelude::*;

use crate::constants::{amount_add, spec_amount_add};
use crate::resource::{res_can_consume_all, Resources};

verus! {

/// What a production system does.
#[derive(Clone, Copy, PartialEq, Eq, Structural, Debug)]
pub enum SystemType {
    Generator,
    Converter,
    Spawner,
    Crafting,
    Antenna,
}

/// A time-boxed output bonus created by undertaker corpse processing.
#[derive(Clone, Copy, PartialEq, Eq, Structural, Debug)]
pub struct CorpseBoost {
    /// First tick at which the boost no longer counts.
    pub expires_at_tick: u64,
    /// Fixed-point bonus output per tick while active.
    pub bonus: i64,
}

impl DeepView for CorpseBoost {
    type V = CorpseBoost;

    open spec fn deep_view(&self) -> CorpseBoost {
        *self
    }
}

/// A system is either running with its live rate tables, or disabled with
/// the original tables saved for verbatim restoration.
#[derive(Clone, Debug)]
pub enum SystemRates {
    Enabled { consumes: Option<Resources>, generates: Option<Resources> },
    Disabled { saved_consumes: Option<Resources>, saved_generates: Option<Resources> },
}

/// Mathematical image of `SystemRates`.
pub enum SystemRatesM {
    Enabled {
        consumes: Option<Seq<(Seq<char>, i64)>>,
        generates: Option<Seq<(Seq<char>, i64)>>,
    },
    Disabled {
        saved_consumes: Option<Seq<(Seq<char>, i64)>>,
        saved_generates: Option<Seq<(Seq<char>, i64)>>,
    },
}

impl DeepView for SystemRates {
    type V = SystemRatesM;

    open spec fn deep_view(&self) -> SystemRatesM {
        match self {
            SystemRates::Enabled { consumes, generates } => SystemRatesM::Enabled {
                consumes: consumes.deep_view(),
                generates: generates.deep_view(),
            },
            SystemRates::Disabled { saved_consumes, saved_generates } => SystemRatesM::Disabled {
                saved_consumes: saved_consumes.deep_view(),
                saved_generates: saved_generates.deep_view(),
            },
        }
    }
}

/// One passive resource converter of the colony.
#[derive(Clone, Debug)]
pub struct System {
    pub name: String,
    pub system_type: SystemType,
    pub description: Option<String>,
    /// Active corpse boosts; expired ones are pruned every tick.
    pub corpse_boosts: Vec<CorpseBoost>,
    pub rates: SystemRates,
}

/// Mathematical image of `System`.
pub struct SystemM {
    pub name: Seq<char>,
    pub system_type: SystemType,
    pub description: Option<Seq<char>>,
    pub corpse_boosts: Seq<CorpseBoost>,
    pub rates: SystemRatesM,
}

impl DeepView for System {
    type V = SystemM;

    open spec fn deep_view(&self) -> SystemM {
        SystemM {
            name: self.name@,
            system_type: self.system_type,
            description: self.description.deep_view(),
            corpse_boosts: self.corpse_boosts.deep_view(),
            rates: self.rates.deep_view(),
        }
    }
}

impl SystemM {
    /// A system is disabled exactly while its original tables are saved.
    pub open spec fn is_disabled(self) -> bool {
        self.rates is Disabled
    }

    /// The consumption table that currently applies.
    pub open spec fn live_consumes(self) -> Option<Seq<(Seq<char>, i64)>> {
        match self.rates {
            SystemRatesM::Enabled { consumes, .. } => consumes,
            SystemRatesM::Disabled { .. } => None,
        }
    }

    /// The generation table that currently applies.
    pub open spec fn live_generates(self) -> Option<Seq<(Seq<char>, i64)>> {
        match self.rates {
            SystemRatesM::Enabled { generates, .. } => generates,
            SystemRatesM::Disabled { .. } => None,
        }
    }

    /// A system can run when its consumption requirements are covered.
    pub open spec fn can_run(self, res: Seq<(Seq<char>, i64)>) -> bool {
        match self.live_consumes() {
            Some(c) => res_can_consume_all(res, c),
            None => true,
        }
    }
}

/// Left fold of the unexpired bonuses onto `acc`, saturating.
pub open spec fn spec_total_bonus_from(boosts: Seq<CorpseBoost>, tick: u64, acc: i64) -> i64
    decreases boosts.len(),
{
    if boosts.len() == 0 {
        acc
    } else {
        let next = if boosts[0].expires_at_tick > tick {
            spec_amount_add(acc, boosts[0].bonus)
        } else {
            acc
        };
        spec_total_bonus_from(boosts.drop_first(), tick, next)
    }
}

/// The summed bonus of all boosts that have not expired at `tick`.
pub open spec fn spec_total_bonus(boosts: Seq<CorpseBoost>, tick: u64) -> i64 {
    spec_total_bonus_from(boosts, tick, 0)
}

/// The boosts that survive pruning at `tick`.
pub open spec fn spec_unexpired(boosts: Seq<CorpseBoost>, tick: u64) -> Seq<CorpseBoost>
    decreases boosts.len(),
{
    if boosts.len() == 0 {
        Seq::empty()
    } else {
        let head: Seq<CorpseBoost> = if boosts[0].expires_at_tick > tick {
            seq![boosts[0]]
        } else {
            Seq::empty()
        };
        head + spec_unexpired(boosts.drop_first(), tick)
    }
}

/// The system after disabling: live tables move into the saved slot.
/// Disabling a disabled system changes nothing.
pub open spec fn spec_disable(s: SystemM) -> SystemM {
    match s.rates {
        SystemRatesM::Enabled { consumes, generates } => SystemM {
            rates: SystemRatesM::Disabled { saved_consumes: consumes, saved_generates: generates },
            ..s
        },
        SystemRatesM::Disabled { .. } => s,
    }
}

/// The system after re-enabling: the saved tables are restored verbatim.
/// Enabling an enabled system changes nothing.
pub open spec fn spec_enable(s: SystemM) -> SystemM {
    match s.rates {
        SystemRatesM::Enabled { .. } => s,
        SystemRatesM::Disabled { saved_consumes, saved_generates } => SystemM {
            rates: SystemRatesM::Enabled { consumes: saved_consumes, generates: saved_generates },
            ..s
        },
    }
}

impl System {
    /// Create an enabled generator with only a generation table.
    pub fn new_generator(name: String, generates: Resources) -> (s: System)
        ensures
            s.deep_view() == (SystemM {
                name: name@,
                system_type: SystemType::Generator,
                description: None,
                corpse_boosts: Seq::empty(),
                rates: SystemRatesM::Enabled {
                    consumes: None,
                    generates: Some(generates.deep_view()),
                },
            }),
    {
        let s = System {
            name,
            system_type: SystemType::Generator,
            description: None,
            corpse_boosts: Vec::new(),
            rates: SystemRates::Enabled { consumes: None, generates: Some(generates) },
        };
        proof {
            assert(s.deep_view().corpse_boosts =~= Seq::<CorpseBoost>::empty());
        }
        s
    }

    /// Create an enabled converter with both rate tables.
    pub fn new_converter(name: String, consumes: Resources, generates: Resources) -> (s: System)
        ensures
            s.deep_view() == (SystemM {
                name: name@,
                system_type: SystemType::Converter,
                description: None,
                corpse_boosts: Seq::empty(),
                rates: SystemRatesM::Enabled {
                    consumes: Some(consumes.deep_view()),
                    generates: Some(generates.deep_view()),
                },
            }),
    {
        let s = System {
            name,
            system_type: SystemType::Converter,
            description: None,
            corpse_boosts: Vec::new(),
            rates: SystemRates::Enabled { consumes: Some(consumes), generates: Some(generates) },
        };
        proof {
            assert(s.deep_view().corpse_boosts =~= Seq::<CorpseBoost>::empty());
        }
        s
    }

    /// Whether the system's consumption requirements are covered.
    pub fn can_run(&self, resources: &Resources) -> (r: bool)
        ensures
            r == self.deep_view().can_run(resources.deep_view()),
    {
        match &self.rates {
            SystemRates::Enabled { consumes: Some(c), .. } => resources.can_consume_all(c),
            _ => true,
        }
    }

    /// The summed bonus of all boosts that have not expired.
    pub fn total_corpse_bonus(&self, current_tick: u64) -> (r: i64)
        ensures
            r == spec_total_bonus(self.deep_view().corpse_boosts, current_tick),
    {
        let ghost bs = self.deep_view().corpse_boosts;
        proof {
            assert(bs.skip(0) =~= bs);
        }
        let mut acc: i64 = 0;
        let mut i: usize = 0;
        while i < self.corpse_boosts.len()
            invariant
                i <= self.corpse_boosts.len(),
                bs == self.deep_view().corpse_boosts,
                spec_total_bonus(bs, current_tick) == spec_total_bonus_from(
                    bs.skip(i as int),
                    current_tick,
                    acc,
                ),
            decreases self.corpse_boosts.len() - i,
        {
            proof {
                assert(bs.skip(i as int).drop_first() =~= bs.skip(i + 1));
                assert(bs.skip(i as int)[0] == bs[i as int]);
            }
            let b = self.corpse_boosts[i];
            if b.expires_at_tick > current_tick {
                acc = amount_add(acc, b.bonus);
            }
            i += 1;
        }
        proof {
            assert(bs.skip(self.corpse_boosts.len() as int) =~= Seq::<CorpseBoost>::empty());
        }
        acc
    }

    /// Drop every boost that has expired at `current_tick`.
    pub fn expire_corpse_boosts(&mut self, current_tick: u64)
        ensures
            final(self).deep_view() == (SystemM {
                corpse_boosts: spec_unexpired(
                    old(self).deep_view().corpse_boosts,
                    current_tick,
                ),
                ..old(self).deep_view()
            }),
    {
        let ghost bs = self.deep_view().corpse_boosts;
        proof {
            assert(bs.skip(0) =~= bs);
        }
        let mut kept: Vec<CorpseBoost> = Vec::new();
        let mut i: usize = 0;
        while i < self.corpse_boosts.len()
            invariant
                i <= self.corpse_boosts.len(),
                bs == self.deep_view().corpse_boosts,
                spec_unexpired(bs, current_tick) == kept.deep_view() + spec_unexpired(
                    bs.skip(i as int),
                    current_tick,
                ),
            decreases self.corpse_boosts.len() - i,
        {
            let ghost pre = kept.deep_view();
            proof {
                assert(bs.skip(i as int).drop_first() =~= bs.skip(i + 1));
                assert(bs.skip(i as int)[0] == bs[i as int]);
            }
            let b = self.corpse_boosts[i];
            if b.expires_at_tick > current_tick {
                kept.push(b);
                proof {
                    assert(kept.deep_view() =~= pre.push(bs[i as int]));
                    assert(kept.deep_view() + spec_unexpired(bs.skip(i + 1), current_tick) =~= pre
                        + spec_unexpired(bs.skip(i as int), current_tick));
                }
            } else {
                proof {
                    assert(kept.deep_view() + spec_unexpired(bs.skip(i + 1), current_tick) =~= pre
                        + spec_unexpired(bs.skip(i as int), current_tick));
                }
            }
            i += 1;
        }
        proof {
            assert(bs.skip(self.corpse_boosts.len() as int) =~= Seq::<CorpseBoost>::empty());
            assert(kept.deep_view() + spec_unexpired(
                bs.skip(self.corpse_boosts.len() as int),
                current_tick,
            ) =~= kept.deep_view());
        }
        self.corpse_boosts = kept;
    }

    /// Disable the system, saving its live rate tables for restoration.
    pub fn disable(&mut self)
        ensures
            final(self).deep_view() == spec_disable(old(self).deep_view()),
    {
        let mut tmp = SystemRates::Enabled { consumes: None, generates: None };
        core::mem::swap(&mut tmp, &mut self.rates);
        match tmp {
            SystemRates::Enabled { consumes, generates } => {
                self.rates = SystemRates::Disabled {
                    saved_consumes: consumes,
                    saved_generates: generates,
                };
            },
            SystemRates::Disabled { saved_consumes, saved_generates } => {
                self.rates = SystemRates::Disabled { saved_consumes, saved_generates };
            },
        }
    }

    /// Restore the saved rate tables verbatim.
    pub fn enable(&mut self)
        ensures
            final(self).deep_view() == spec_enable(old(self).deep_view()),
    {
        let mut tmp = SystemRates::Enabled { consumes: None, generates: None };
        core::mem::swap(&mut tmp, &mut self.rates);
        match tmp {
            SystemRates::Enabled { consumes, generates } => {
                self.rates = SystemRates::Enabled { consumes, generates };
            },
            SystemRates::Disabled { saved_consumes, saved_generates } => {
                self.rates = SystemRates::Enabled {
                    consumes: saved_consumes,
                    generates: saved_generates,
                };
            },
        }
    }

    /// Whether the system is currently disabled.
    pub fn is_disabled(&self) -> (r: bool)
        ensures
            r == self.deep_view().is_disabled(),
    {
        match &self.rates {
            SystemRates::Enabled { .. } => false,
            SystemRates::Disabled { .. } => true,
        }
    }
}

} // verus!
