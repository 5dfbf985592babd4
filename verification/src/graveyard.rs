use vstd::prelude::*;

use crate::entity::DeathCause;

verus! {

/// A dead ant awaiting processing by an undertaker.
#[derive(Clone, Debug)]
pub struct Corpse {
    pub entity_id: String,
    /// Lower-case label of the entity table the dead entity came from.
    pub entity_type: String,
    /// Tick at which death occurred.
    pub death_tick: u64,
    pub cause: DeathCause,
    /// Tile where death occurred.
    pub tile: String,
}

/// Mathematical image of `Corpse`.
pub struct CorpseM {
    pub entity_id: Seq<char>,
    pub entity_type: Seq<char>,
    pub death_tick: u64,
    pub cause: DeathCause,
    pub tile: Seq<char>,
}

impl DeepView for Corpse {
    type V = CorpseM;

    open spec fn deep_view(&self) -> CorpseM {
        CorpseM {
            entity_id: self.entity_id@,
            entity_type: self.entity_type@,
            death_tick: self.death_tick,
            cause: self.cause,
            tile: self.tile@,
        }
    }
}

/// Mathematical image of `Graveyard`.
pub struct GraveyardM {
    pub corpses: Seq<CorpseM>,
    pub total_processed: u64,
}

/// The queue of unprocessed corpses, oldest first, together with a lifetime
/// counter of corpses already processed.
#[derive(Clone, Debug)]
pub struct Graveyard {
    pub corpses: Vec<Corpse>,
    pub total_processed: u64,
}

impl DeepView for Graveyard {
    type V = GraveyardM;

    open spec fn deep_view(&self) -> GraveyardM {
        GraveyardM { corpses: self.corpses.deep_view(), total_processed: self.total_processed }
    }
}

impl Graveyard {
    /// Create an empty graveyard.
    pub fn new() -> (g: Graveyard)
        ensures
            g.deep_view().corpses == Seq::<CorpseM>::empty(),
            g.deep_view().total_processed == 0,
    {
        let g = Graveyard { corpses: Vec::new(), total_processed: 0 };
        proof {
            assert(g.deep_view().corpses =~= Seq::<CorpseM>::empty());
        }
        g
    }

    /// Append a corpse at the back of the queue.
    pub fn add_corpse(&mut self, corpse: Corpse)
        ensures
            final(self).deep_view().corpses == old(self).deep_view().corpses.push(
                corpse.deep_view(),
            ),
            final(self).total_processed == old(self).total_processed,
    {
        self.corpses.push(corpse);
        proof {
            assert(self.deep_view().corpses =~= old(self).deep_view().corpses.push(
                corpse.deep_view(),
            ));
        }
    }

    /// Take the oldest corpse for processing, if any.
    pub fn take_corpse(&mut self) -> (r: Option<Corpse>)
        ensures
            old(self).corpses@.len() == 0 ==> r is None && *final(self) == *old(self),
            old(self).corpses@.len() > 0 ==> (r matches Some(c) && c.deep_view() == old(
                self,
            ).deep_view().corpses[0] && final(self).deep_view().corpses == old(
                self,
            ).deep_view().corpses.drop_first()),
            final(self).total_processed == old(self).total_processed,
    {
        if self.corpses.is_empty() {
            None
        } else {
            let c = self.corpses.remove(0);
            proof {
                assert(self.deep_view().corpses =~= old(self).deep_view().corpses.drop_first());
            }
            Some(c)
        }
    }

    /// Look at the oldest corpse without removing it.
    pub fn peek_corpse(&self) -> (r: Option<&Corpse>)
        ensures
            self.corpses@.len() == 0 ==> r is None,
            self.corpses@.len() > 0 ==> (r matches Some(c) && c.deep_view()
                == self.deep_view().corpses[0]),
    {
        if self.corpses.is_empty() {
            None
        } else {
            Some(&self.corpses[0])
        }
    }

    /// Count one more corpse as processed; the lifetime counter clamps at
    /// its maximum instead of wrapping.
    pub fn mark_processed(&mut self)
        ensures
            final(self).total_processed == old(self).total_processed.saturating_add(1),
            final(self).corpses == old(self).corpses,
    {
        self.total_processed = self.total_processed.saturating_add(1);
    }

    /// Whether any corpse awaits processing.
    pub fn has_corpses(&self) -> (r: bool)
        ensures
            r == (self.deep_view().corpses.len() > 0),
    {
        !self.corpses.is_empty()
    }
}

} // verus!
