//! The config store: the current binding table behind a reader–writer lock.
//!
//! Lookups run in the hook context; replacement runs in the watcher context.
//! A lookup borrows one consistent generation for its whole duration, and a
//! replacement swaps the table wholesale, so no lookup ever sees a mixture
//! of an old and a new generation.

use vstd::prelude::*;
use vstd::rwlock::RwLock;

use crate::action::{Action, ActionView};
use crate::bind::{Bind, BindView};
use crate::config::{lookup_matches, Config};
use crate::interceptor::{decide_event, intercept, outcome_matches, track_event, InputEvent,
    Outcome};
use crate::keys::KeyboardKey;
use crate::modifiers::{HeldModifiers, ModifierSet};

verus! {

/// The invariant every installed generation satisfies: it is a well-formed
/// binding table.
pub open spec fn config_pred() -> spec_fn(Config) -> bool {
    |c: Config| c.wf()
}

/// Holds the current binding table and hands it out for per-event lookups
/// while a background reload may replace it wholesale.
pub struct ConfigManager {
    config: RwLock<Config, spec_fn(Config) -> bool>,
}

impl ConfigManager {
    /// Whether the store's lock carries the well-formedness invariant.
    pub closed spec fn wf(&self) -> bool {
        self.config.pred() == config_pred()
    }

    /// A store holding the given initial generation.
    pub fn new(initial: Config) -> (r: ConfigManager)
        requires
            initial.wf(),
        ensures
            r.wf(),
    {
        proof {
            assert(config_pred()(initial));
        }
        ConfigManager { config: RwLock::new(initial, Ghost(config_pred())) }
    }

    /// Atomically install a new generation.  A lookup in flight finishes
    /// against the generation it started with; one started after this call
    /// returns sees the new table.
    pub fn replace(&self, new_config: Config)
        requires
            self.wf(),
            new_config.wf(),
    {
        let (old_config, write_handle) = self.config.acquire_write();
        proof {
            assert(config_pred()(new_config));
        }
        write_handle.release_write(new_config);
    }

    /// Look up the action bound to the held modifiers plus `key`.  Whatever
    /// comes back is explained by exactly one well-formed generation — never
    /// by a mixture of two tables.
    pub fn exec(&self, modifiers: &ModifierSet, key: &KeyboardKey) -> (r: Option<Action>)
        requires
            self.wf(),
        ensures
            exists|t: Map<BindView, ActionView>|
                #[trigger] lookup_matches(t, BindView { modifiers: modifiers@, key: *key }, r),
    {
        let read_handle = self.config.acquire_read();
        let config = read_handle.borrow();
        let bind = Bind { modifiers: *modifiers, key: *key };
        let r = match config.lookup(&bind) {
            Some(action) => Some(action.duplicate()),
            None => None,
        };
        proof {
            assert(lookup_matches(config@, BindView { modifiers: modifiers@, key: *key }, r));
        }
        read_handle.release_read();
        r
    }

    /// Handle one event in the hook context: update the tracker as the event
    /// says, and decide pass or block against the current generation.  The
    /// verdict and dispatch are those of exactly one well-formed generation.
    pub fn handle_event(&self, held: &mut HeldModifiers, event: InputEvent) -> (r: Outcome)
        requires
            self.wf(),
        ensures
            final (held)@ == track_event(old(held)@, event),
            exists|t: Map<BindView, ActionView>|
                outcome_matches(r, #[trigger] decide_event(t, old(held)@, event)),
            r.dispatch is Some <==> r.verdict is Block,
    {
        let read_handle = self.config.acquire_read();
        let config = read_handle.borrow();
        let r = intercept(held, config, event);
        proof {
            assert(outcome_matches(r, decide_event(config@, old(held)@, event)));
        }
        read_handle.release_read();
        r
    }
}

} // verus!
