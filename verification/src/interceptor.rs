//! The event interceptor: the synchronous decision the OS hook waits for.
//!
//! Per event: a modifier press or release updates the held-modifier tracker
//! and always passes through; a keyboard press is looked up under the live
//! modifier snapshot and either blocks with one dispatched action or passes;
//! everything else passes untouched.  Blocking a modifier key would let the
//! OS's own modifier state drift from the tracked one, so modifiers are
//! never blockable and never trigger keys.

use vstd::prelude::*;

use crate::action::{Action, ActionView};
use crate::bind::{Bind, BindView};
use crate::config::Config;
use crate::keys::{Key, ModifierKey};
use crate::modifiers::HeldModifiers;

verus! {

/// One raw input event, as the OS hook delivers it.
#[derive(Clone, Copy, Debug, PartialEq, Eq, Structural)]
pub enum InputEvent {
    KeyPress(Key),
    KeyRelease(Key),
    /// Pointer motion, scrolling, buttons: outside matching scope.
    Other,
}

/// The decision handed back to the OS hook: deliver the event downstream, or
/// swallow it.
#[derive(Clone, Copy, Debug, PartialEq, Eq, Structural)]
pub enum Verdict {
    Pass,
    Block,
}

/// What one event comes to: the verdict for the OS, and the action to hand
/// to the dispatcher, if the event matched a bind.
#[derive(Debug)]
pub struct Outcome {
    pub verdict: Verdict,
    pub dispatch: Option<Action>,
}

/// How one event changes the held-modifier set.
pub open spec fn track_event(held: Set<ModifierKey>, ev: InputEvent) -> Set<ModifierKey> {
    match ev {
        InputEvent::KeyPress(Key::Modifier(m)) => held.insert(m),
        InputEvent::KeyRelease(Key::Modifier(m)) => held.remove(m),
        _ => held,
    }
}

/// The verdict and dispatch for one event against one table generation:
/// only a keyboard press whose live modifier snapshot plus key matches an
/// entry blocks, dispatching that entry's action; everything else passes
/// and dispatches nothing.
pub open spec fn decide_event(
    table: Map<BindView, ActionView>,
    held: Set<ModifierKey>,
    ev: InputEvent,
) -> (Verdict, Option<ActionView>) {
    match ev {
        InputEvent::KeyPress(Key::Keyboard(k)) => {
            let bv = BindView { modifiers: held, key: k };
            if table.contains_key(bv) {
                (Verdict::Block, Some(table[bv]))
            } else {
                (Verdict::Pass, None)
            }
        },
        _ => (Verdict::Pass, None),
    }
}

/// Whether an executable outcome denotes the specified verdict and dispatch.
pub open spec fn outcome_matches(r: Outcome, d: (Verdict, Option<ActionView>)) -> bool {
    &&& r.verdict == d.0
    &&& match (r.dispatch, d.1) {
        (Some(a), Some(av)) => a@ == av,
        (None, None) => true,
        _ => false,
    }
}

/// Handle one event against one table generation: update the tracker as the
/// event says and return the verdict, with exactly one dispatched action on
/// a hit and none otherwise.
pub fn intercept(held: &mut HeldModifiers, config: &Config, event: InputEvent) -> (r: Outcome)
    requires
        config.wf(),
    ensures
        final (held)@ == track_event(old(held)@, event),
        outcome_matches(r, decide_event(config@, old(held)@, event)),
        r.dispatch is Some <==> r.verdict is Block,
{
    match event {
        InputEvent::KeyPress(key) => match key {
            Key::Modifier(m) => {
                held.on_press(m);
                Outcome { verdict: Verdict::Pass, dispatch: None }
            },
            Key::Keyboard(k) => {
                let bind = Bind { modifiers: held.snapshot(), key: k };
                match config.lookup(&bind) {
                    Some(action) => Outcome {
                        verdict: Verdict::Block,
                        dispatch: Some(action.duplicate()),
                    },
                    None => Outcome { verdict: Verdict::Pass, dispatch: None },
                }
            },
        },
        InputEvent::KeyRelease(key) => match key {
            Key::Modifier(m) => {
                held.on_release(m);
                Outcome { verdict: Verdict::Pass, dispatch: None }
            },
            Key::Keyboard(_) => Outcome { verdict: Verdict::Pass, dispatch: None },
        },
        InputEvent::Other => Outcome { verdict: Verdict::Pass, dispatch: None },
    }
}

/// Whether an event presses or releases a modifier key.
pub open spec fn is_modifier_event(ev: InputEvent) -> bool {
    ||| ev matches InputEvent::KeyPress(Key::Modifier(_))
    ||| ev matches InputEvent::KeyRelease(Key::Modifier(_))
}

/// The held set after replaying a sequence of events over `held`.
pub open spec fn replay(held: Set<ModifierKey>, events: Seq<InputEvent>) -> Set<ModifierKey>
    decreases events.len(),
{
    if events.len() == 0 {
        held
    } else {
        track_event(replay(held, events.drop_last()), events.last())
    }
}

/// Whether, going by the events alone, modifier `m` is down after `events`,
/// over a state where it was down iff `was_down`: its last press or release
/// decides, and with no such event the prior state stands.
pub open spec fn down_after(was_down: bool, events: Seq<InputEvent>, m: ModifierKey) -> bool
    decreases events.len(),
{
    if events.len() == 0 {
        was_down
    } else if events.last() == InputEvent::KeyPress(Key::Modifier(m)) {
        true
    } else if events.last() == InputEvent::KeyRelease(Key::Modifier(m)) {
        false
    } else {
        down_after(was_down, events.drop_last(), m)
    }
}

/// Replaying any event sequence holds exactly the modifiers whose last
/// press or release was a press: repeated presses are idempotent, so the
/// tracker ends at the reduced set of currently-down modifiers.
pub proof fn lemma_replay_membership(
    held: Set<ModifierKey>,
    events: Seq<InputEvent>,
    m: ModifierKey,
)
    ensures
        replay(held, events).contains(m) == down_after(held.contains(m), events, m),
    decreases events.len(),
{
    if events.len() > 0 {
        lemma_replay_membership(held, events.drop_last(), m);
    }
}

/// Every modifier press or release passes through, dispatching nothing,
/// whatever the table holds.
pub proof fn lemma_modifier_events_pass(
    table: Map<BindView, ActionView>,
    held: Set<ModifierKey>,
    ev: InputEvent,
)
    requires
        is_modifier_event(ev),
    ensures
        decide_event(table, held, ev) == (Verdict::Pass, None::<ActionView>),
{
}

/// With no binds configured, every event — every keyboard press included —
/// passes through and dispatches nothing.
pub proof fn lemma_empty_table_passes(held: Set<ModifierKey>, ev: InputEvent)
    ensures
        decide_event(Map::empty(), held, ev) == (Verdict::Pass, None::<ActionView>),
{
}

} // verus!
