use vstd::prelude::*;

use crate::resource::Resources;

verus! {

/// Resource changes applied when an action completes.
#[derive(Clone, Debug)]
pub struct ActionEffects {
    pub resources: Option<Resources>,
}

/// Mathematical image of `ActionEffects`.
pub struct ActionEffectsM {
    pub resources: Option<Seq<(Seq<char>, i64)>>,
}

impl DeepView for ActionEffects {
    type V = ActionEffectsM;

    open spec fn deep_view(&self) -> ActionEffectsM {
        ActionEffectsM { resources: self.resources.deep_view() }
    }
}

/// A queued action that completes after a number of ticks.
#[derive(Clone, Debug)]
pub struct Action {
    pub id: String,
    pub action_type: String,
    /// Ticks left until completion; the action completes on the tick that
    /// sees this at one or less.
    pub ticks_remaining: u64,
    pub effects: Option<ActionEffects>,
}

/// Mathematical image of `Action`.
pub struct ActionM {
    pub id: Seq<char>,
    pub action_type: Seq<char>,
    pub ticks_remaining: u64,
    pub effects: Option<ActionEffectsM>,
}

impl DeepView for Action {
    type V = ActionM;

    open spec fn deep_view(&self) -> ActionM {
        ActionM {
            id: self.id@,
            action_type: self.action_type@,
            ticks_remaining: self.ticks_remaining,
            effects: self.effects.deep_view(),
        }
    }
}

impl Action {
    /// An exact copy, up to the model: same identifier, type, countdown and
    /// effects.
    pub fn duplicate(&self) -> (r: Action)
        ensures
            r.deep_view() == self.deep_view(),
    {
        let effects = match &self.effects {
            Some(eff) => Some(
                ActionEffects {
                    resources: match &eff.resources {
                        Some(r) => Some(r.snapshot()),
                        None => None,
                    },
                },
            ),
            None => None,
        };
        Action {
            id: self.id.clone(),
            action_type: self.action_type.clone(),
            ticks_remaining: self.ticks_remaining,
            effects,
        }
    }
}

/// The pending-action queue plus the opaque pending-event list owned by the
/// calling layer; the engine only ever reads the event list's emptiness.
#[derive(Clone, Debug)]
pub struct Queues {
    pub actions: Vec<Action>,
    pub events: Vec<serde_json::Value>,
}

/// Mathematical image of `Queues`: the actions, and of the opaque event list
/// only its length.
pub struct QueuesM {
    pub actions: Seq<ActionM>,
    pub events_len: nat,
}

impl Queues {
    /// The model of this queue pair.
    pub open spec fn m(&self) -> QueuesM {
        QueuesM { actions: self.actions.deep_view(), events_len: self.events@.len() }
    }

    /// Create empty queues.
    pub fn new() -> (q: Queues)
        ensures
            q.m().actions == Seq::<ActionM>::empty(),
            q.m().events_len == 0,
            q.events@ == Seq::<serde_json::Value>::empty(),
    {
        let q = Queues { actions: Vec::new(), events: Vec::new() };
        proof {
            assert(q.m().actions =~= Seq::<ActionM>::empty());
            assert(q.events@ =~= Seq::<serde_json::Value>::empty());
        }
        q
    }

    /// Append an action at the back of the queue.
    pub fn enqueue_action(&mut self, action: Action)
        ensures
            final(self).m().actions == old(self).m().actions.push(action.deep_view()),
            final(self).events == old(self).events,
    {
        self.actions.push(action);
        proof {
            assert(self.m().actions =~= old(self).m().actions.push(action.deep_view()));
        }
    }

    /// Whether any action is pending.
    pub fn has_actions(&self) -> (r: bool)
        ensures
            r == (self.m().actions.len() > 0),
    {
        !self.actions.is_empty()
    }
}

} // verus!
