//! Actions: what a matched bind triggers.
//!
//! The only action in the core is a shell command line.  In the configuration
//! file an action is a table with a `type` discriminator (`"cmd"`) and a
//! `command` string; reading such a table is specified here over a plain
//! model of its two fields.

use vstd::prelude::*;

use crate::keys::str_eq;

verus! {

/// What a matched bind triggers.  Immutable once constructed; running it is
/// the dispatcher's business, not the table's.
#[derive(Debug, PartialEq, Eq)]
pub enum Action {
    /// A shell command line, run through a shell when the bind fires.
    Cmd { command: String },
}

/// The mathematical value of an [`Action`].
pub enum ActionView {
    Cmd { command: Seq<char> },
}

impl View for Action {
    type V = ActionView;

    open spec fn view(&self) -> ActionView {
        match self {
            Action::Cmd { command } => ActionView::Cmd { command: command@ },
        }
    }
}

impl Action {
    /// An owned copy of this action, equal to it.
    pub fn duplicate(&self) -> (r: Action)
        ensures
            r == *self,
    {
        match self {
            Action::Cmd { command } => Action::Cmd { command: command.clone() },
        }
    }
}

/// A configuration value as the action reader sees it: a string, or a value
/// of any other shape.
#[derive(Debug, PartialEq, Eq)]
pub enum RawValue {
    Text(String),
    Other,
}

/// The two fields the action reader takes from a bind's value table: what
/// stands under `type` and what stands under `command`, each possibly absent.
#[derive(Debug, PartialEq, Eq)]
pub struct RawAction {
    pub kind: Option<RawValue>,
    pub command: Option<RawValue>,
}

/// The action a bind's value table describes, if any: `type` must hold the
/// string `"cmd"` and `command` must hold a string.
pub open spec fn action_of_raw(raw: RawAction) -> Option<ActionView> {
    if raw.kind matches Some(RawValue::Text(t)) && t@ == "cmd"@ {
        match raw.command {
            Some(RawValue::Text(c)) => Some(ActionView::Cmd { command: c@ }),
            _ => None,
        }
    } else {
        None
    }
}

impl Action {
    /// Read an action from the fields of a bind's value table.  Yields the
    /// action exactly when the table describes one; a missing or non-string
    /// `type`, a `type` other than `"cmd"`, or a missing or non-string
    /// `command` yield nothing.
    pub fn new_from_config_map(config_map: &RawAction) -> (r: Option<Action>)
        ensures
            match (r, action_of_raw(*config_map)) {
                (Some(a), Some(av)) => a@ == av,
                (None, None) => true,
                _ => false,
            },
    {
        let kind = match &config_map.kind {
            Some(RawValue::Text(t)) => t,
            _ => {
                return None;
            },
        };
        if !str_eq(kind.as_str(), "cmd") {
            return None;
        }
        match &config_map.command {
            Some(RawValue::Text(c)) => Some(Action::Cmd { command: c.clone() }),
            _ => None,
        }
    }
}

} // verus!
