//! The binding table: one configuration generation.
//!
//! A table maps binds to actions, with no two entries for the same bind.  It
//! is built wholesale from the entries of a configuration load and never
//! mutated in place; a reload builds a brand-new table.

use vstd::prelude::*;

use crate::action::{action_of_raw, Action, ActionView, RawAction};
use crate::bind::{
    lemma_bind_view_injective, parse_bind, parse_bind_spec, Bind, BindError,
    BindView,
};

verus! {

broadcast use vstd::set::group_set_axioms;

/// Why one configuration generation was rejected.  A rejected generation
/// leaves the previously installed table in effect.
#[derive(Clone, Copy, Debug, PartialEq, Eq)]
pub enum ConfigError {
    /// The text is not a well-formed document.
    Syntax,
    /// `binds` exists but is not a table.
    BindsNotTable,
    /// A combination string is malformed.
    Bind(BindError),
    /// A bind's value is not a table.
    ActionNotTable,
    /// A bind's value table does not describe an action.
    InvalidAction,
    /// Two combination strings denote the same bind.
    DuplicateBind,
}

/// One configuration generation: an immutable mapping from binds to actions.
#[derive(Debug)]
pub struct Config {
    macros: Vec<(Bind, Action)>,
}

/// The mapping a sequence of entries denotes, a later entry shadowing an
/// earlier one with the same bind (well-formed tables have no such pair).
pub open spec fn table_of(entries: Seq<(Bind, Action)>) -> Map<BindView, ActionView>
    decreases entries.len(),
{
    if entries.len() == 0 {
        Map::empty()
    } else {
        table_of(entries.drop_last()).insert(entries.last().0@, entries.last().1@)
    }
}

/// Whether no two entries share a bind.
pub open spec fn entries_distinct(entries: Seq<(Bind, Action)>) -> bool {
    forall|i: int, j: int|
        0 <= i < j < entries.len() ==> (#[trigger] entries[i]).0@ != (#[trigger] entries[j]).0@
}

/// A well-formed table lists each bind at most once, so the mapping it
/// denotes has exactly one entry per listed bind.
proof fn lemma_table_of_entries(entries: Seq<(Bind, Action)>)
    requires
        entries_distinct(entries),
    ensures
        table_of(entries).dom().finite(),
        table_of(entries).dom().len() == entries.len(),
        forall|b: BindView|
            #[trigger] table_of(entries).contains_key(b) <==> exists|i: int|
                0 <= i < entries.len() && (#[trigger] entries[i]).0@ == b,
        forall|i: int|
            0 <= i < entries.len() ==> table_of(entries).contains_key(
                (#[trigger] entries[i]).0@,
            ) && table_of(entries)[entries[i].0@] == entries[i].1@,
    decreases entries.len(),
{
    if entries.len() > 0 {
        let prefix = entries.drop_last();
        let last = entries.last();
        assert(entries_distinct(prefix)) by {
            assert(forall|i: int|
                0 <= i < prefix.len() ==> (#[trigger] prefix[i]) == entries[i]);
        }
        lemma_table_of_entries(prefix);
        assert(!table_of(prefix).contains_key(last.0@)) by {
            if table_of(prefix).contains_key(last.0@) {
                let i = choose|i: int|
                    0 <= i < prefix.len() && (#[trigger] prefix[i]).0@ == last.0@;
                assert(entries[i].0@ != entries[entries.len() - 1].0@);
            }
        }
        assert(table_of(entries).dom() =~= table_of(prefix).dom().insert(last.0@));
        assert forall|b: BindView| #[trigger]
            table_of(entries).contains_key(b) <==> exists|i: int|
                0 <= i < entries.len() && (#[trigger] entries[i]).0@ == b by {
            if table_of(entries).contains_key(b) {
                if b == last.0@ {
                    assert(entries[entries.len() - 1].0@ == b);
                } else {
                    let i = choose|i: int|
                        0 <= i < prefix.len() && (#[trigger] prefix[i]).0@ == b;
                    assert(entries[i].0@ == b);
                }
            }
            if exists|i: int| 0 <= i < entries.len() && (#[trigger] entries[i]).0@ == b {
                let i = choose|i: int| 0 <= i < entries.len() && (#[trigger] entries[i]).0@ == b;
                if i < entries.len() - 1 {
                    assert(prefix[i].0@ == b);
                }
            }
        }
        assert forall|i: int| 0 <= i < entries.len() implies table_of(entries).contains_key(
            (#[trigger] entries[i]).0@,
        ) && table_of(entries)[entries[i].0@] == entries[i].1@ by {
            if i < entries.len() - 1 {
                assert(prefix[i] == entries[i]);
                assert(entries[i].0@ != last.0@);
            }
        }
    }
}

/// The position of the entry for `bind`, if one exists.
fn position_of(entries: &Vec<(Bind, Action)>, bind: &Bind) -> (r: Option<usize>)
    ensures
        match r {
            Some(j) => j < entries@.len() && entries@[j as int].0@ == bind@,
            None => forall|j: int| 0 <= j < entries@.len() ==> (#[trigger] entries@[j]).0@ != bind@,
        },
{
    let n = entries.len();
    let mut i: usize = 0;
    while i < n
        invariant
            n == entries@.len(),
            i <= n,
            forall|j: int| 0 <= j < i ==> (#[trigger] entries@[j]).0@ != bind@,
        decreases n - i,
    {
        let hit = entries[i].0 == *bind;
        proof {
            lemma_bind_view_injective(entries@[i as int].0, *bind);
        }
        if hit {
            return Some(i);
        }
        i += 1;
    }
    None
}

/// What building a table from configuration entries yields: the mapping, or
/// the first reason an entry is rejected.  Each entry is a combination
/// string and, where the bind's value was a table, the plain fields of that
/// table.
pub open spec fn build_table(
    entries: Seq<(String, Option<RawAction>)>,
    acc: Map<BindView, ActionView>,
) -> Result<Map<BindView, ActionView>, ConfigError>
    decreases entries.len(),
{
    if entries.len() == 0 {
        Ok(acc)
    } else {
        match parse_bind_spec(entries[0].0@) {
            Err(be) => Err(ConfigError::Bind(be)),
            Ok(bv) => match entries[0].1 {
                None => Err(ConfigError::ActionNotTable),
                Some(raw) => match action_of_raw(raw) {
                    None => Err(ConfigError::InvalidAction),
                    Some(av) => if acc.contains_key(bv) {
                        Err(ConfigError::DuplicateBind)
                    } else {
                        build_table(entries.drop_first(), acc.insert(bv, av))
                    },
                },
            },
        }
    }
}

/// Whether the outcome of a configuration load denotes the specified one.
pub open spec fn from_entries_post(
    entries: Seq<(String, Option<RawAction>)>,
    r: Result<Config, ConfigError>,
) -> bool {
    match (r, build_table(entries, Map::empty())) {
        (Ok(c), Ok(t)) => c.wf() && c@ == t && c@.dom().finite() && c@.dom().len()
            == entries.len(),
        (Err(e1), Err(e2)) => e1 == e2,
        _ => false,
    }
}

/// Whether a lookup outcome is the one table `t` gives for `bv`.
pub open spec fn lookup_matches(t: Map<BindView, ActionView>, bv: BindView, r: Option<Action>) -> bool {
    match r {
        Some(a) => t.contains_key(bv) && a@ == t[bv],
        None => !t.contains_key(bv),
    }
}

impl View for Config {
    type V = Map<BindView, ActionView>;

    closed spec fn view(&self) -> Map<BindView, ActionView> {
        table_of(self.macros@)
    }
}

impl Config {
    /// A well-formed table lists each bind at most once.
    pub closed spec fn wf(&self) -> bool {
        entries_distinct(self.macros@)
    }

    /// The empty table: no bind matches anything.
    pub fn new() -> (r: Config)
        ensures
            r.wf(),
            r@ == Map::<BindView, ActionView>::empty(),
    {
        let macros = Vec::new();
        let r = Config { macros };
        proof {
            assert(r@ =~= Map::<BindView, ActionView>::empty());
        }
        r
    }

    /// Build one generation from configuration entries.  Yields the table
    /// exactly when every combination string parses, every bind's value
    /// describes an action, and no two entries denote the same bind; the
    /// table then has exactly one entry per configuration entry.
    pub fn from_entries(entries: &Vec<(String, Option<RawAction>)>) -> (r: Result<
        Config,
        ConfigError,
    >)
        ensures
            from_entries_post(entries@, r),
    {
        let ghost all = entries@;
        let mut macros: Vec<(Bind, Action)> = Vec::new();
        let n = entries.len();
        let mut i: usize = 0;
        proof {
            assert(all.skip(0) =~= all);
        }
        while i < n
            invariant
                n == all.len(),
                all == entries@,
                i <= n,
                macros@.len() == i,
                entries_distinct(macros@),
                build_table(all, Map::empty()) == build_table(all.skip(i as int), table_of(
                    macros@,
                )),
            decreases n - i,
        {
            proof {
                lemma_table_of_entries(macros@);
                assert(all.skip(i as int)[0] == all[i as int]);
                assert(all.skip(i as int).drop_first() =~= all.skip(i as int + 1));
            }
            let pair = &entries[i];
            let bind = match parse_bind(pair.0.as_str()) {
                Ok(b) => b,
                Err(be) => {
                    return Err(ConfigError::Bind(be));
                },
            };
            let raw = match &pair.1 {
                Some(raw) => raw,
                None => {
                    return Err(ConfigError::ActionNotTable);
                },
            };
            let action = match Action::new_from_config_map(raw) {
                Some(a) => a,
                None => {
                    return Err(ConfigError::InvalidAction);
                },
            };
            if position_of(&macros, &bind).is_some() {
                return Err(ConfigError::DuplicateBind);
            }
            proof {
                assert(!table_of(macros@).contains_key(bind@));
            }
            let ghost before = macros@;
            macros.push((bind, action));
            proof {
                assert(macros@.drop_last() =~= before);
                assert(macros@.last() == (bind, action));
                assert(entries_distinct(macros@)) by {
                    assert(forall|j: int|
                        0 <= j < before.len() ==> (#[trigger] macros@[j]) == before[j]);
                }
                assert(table_of(macros@) == table_of(before).insert(bind@, action@));
            }
            i += 1;
        }
        proof {
            assert(all.skip(n as int) =~= Seq::empty());
            lemma_table_of_entries(macros@);
        }
        Ok(Config { macros })
    }

    /// The action bound to `bind` in this generation, if any.
    pub fn lookup(&self, bind: &Bind) -> (r: Option<&Action>)
        requires
            self.wf(),
        ensures
            match r {
                Some(a) => self@.contains_key(bind@) && a@ == self@[bind@],
                None => !self@.contains_key(bind@),
            },
    {
        proof {
            lemma_table_of_entries(self.macros@);
        }
        match position_of(&self.macros, bind) {
            Some(j) => Some(&self.macros[j].1),
            None => None,
        }
    }

    /// How many binds this generation holds.
    pub fn len(&self) -> (r: usize)
        requires
            self.wf(),
        ensures
            r == self@.dom().len(),
    {
        proof {
            lemma_table_of_entries(self.macros@);
        }
        self.macros.len()
    }
}

} // verus!
