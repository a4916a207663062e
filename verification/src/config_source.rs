//! Reading a binding table out of configuration text.
//!
//! The text is a toml document whose `binds` table maps combination strings
//! to action tables.  The toml crate does the document parsing, behind the
//! trusted declarations and wrappers below.  What the daemon reads of a toml
//! value is modelled by the plain [`TomlNode`]; the uninterpreted readings
//! below name the toml crate's results over that model, each wrapper states
//! its step over them, and [`Config::new_from_str`] is proved to yield
//! exactly the table the document's `binds` entries build.

use vstd::prelude::*;

use crate::action::{action_of_raw, ActionView, RawAction, RawValue};
use crate::bind::{parse_bind_spec, BindView};
use crate::config::{build_table, from_entries_post, Config, ConfigError};
use crate::store::ConfigManager;

verus! {

#[verifier::external_type_specification]
#[verifier::external_body]
pub struct ExTomlValue(toml::Value);

#[verifier::external_type_specification]
#[verifier::external_body]
#[verifier::reject_recursive_types(K)]
#[verifier::reject_recursive_types(V)]
pub struct ExTomlMap<K, V>(toml::map::Map<K, V>);

/// What the daemon can read of one toml value: its string, its table as a
/// sequence of entries in stored order, or the mark that it has some other
/// shape.
pub enum TomlNode {
    Str(Seq<char>),
    Table(Seq<(Seq<char>, TomlNode)>),
    Other,
}

/// Whether a text is a well-formed toml document: what `str::parse` to a
/// toml table accepts, a function of the text alone.
pub uninterp spec fn toml_parses(s: Seq<char>) -> bool;

/// What the daemon reads of one toml value.
pub uninterp spec fn value_reading(v: toml::Value) -> TomlNode;

/// The entries a toml table holds, keys in stored order.
pub uninterp spec fn table_reading(m: toml::map::Map<String, toml::Value>) -> Seq<
    (Seq<char>, TomlNode),
>;

/// The entries of the document a text denotes: parsing is a function of the
/// text alone.
pub uninterp spec fn toml_doc_of(s: Seq<char>) -> Seq<(Seq<char>, TomlNode)>;

/// Whether no two entries share a key, as the entries of a real toml table
/// never do.
pub open spec fn keys_distinct(entries: Seq<(Seq<char>, TomlNode)>) -> bool {
    forall|i: int, j: int|
        0 <= i < j < entries.len() ==> (#[trigger] entries[i]).0 != (#[trigger] entries[j]).0
}

/// Relies on toml's `FromStr` for `Table`: whether a text parses, and the
/// document it denotes, depend on the text alone, and a table's keys are
/// unique.
#[verifier::external_body]
fn parse_toml(s: &str) -> (r: Option<toml::map::Map<String, toml::Value>>)
    ensures
        r is Some <==> toml_parses(s@),
        r matches Some(m) ==> table_reading(m) == toml_doc_of(s@) && keys_distinct(
            table_reading(m),
        ),
{
    s.parse::<toml::Table>().ok()
}

/// Relies on toml's `Map::get`: yields the value standing under the key
/// exactly where the table has one.
#[verifier::external_body]
fn table_get<'a>(table: &'a toml::map::Map<String, toml::Value>, key: &str) -> (r: Option<
    &'a toml::Value,
>)
    ensures
        match r {
            Some(v) => exists|i: int|
                0 <= i < table_reading(*table).len() && #[trigger] table_reading(*table)[i] == (
                    key@,
                    value_reading(*v),
                ),
            None => forall|i: int|
                0 <= i < table_reading(*table).len() ==> (#[trigger] table_reading(*table)[i]).0
                    != key@,
        },
{
    table.get(key)
}

/// Relies on toml's `Value::as_table`: yields the value's own table exactly
/// where the value is one; a table's keys are unique.
#[verifier::external_body]
fn value_as_table<'a>(value: &'a toml::Value) -> (r: Option<
    &'a toml::map::Map<String, toml::Value>,
>)
    ensures
        match r {
            Some(t) => value_reading(*value) == TomlNode::Table(table_reading(*t))
                && keys_distinct(table_reading(*t)),
            None => !(value_reading(*value) is Table),
        },
{
    value.as_table()
}

/// Relies on toml's `Value::as_str`: yields the value's string exactly where
/// the value is one.
#[verifier::external_body]
fn value_as_str<'a>(value: &'a toml::Value) -> (r: Option<&'a str>)
    ensures
        match r {
            Some(t) => value_reading(*value) == TomlNode::Str(t@),
            None => !(value_reading(*value) is Str),
        },
{
    value.as_str()
}

/// Relies on toml's `Map::iter`: every entry of a table, each once, in the
/// table's stored order.
#[verifier::external_body]
fn table_entries<'a>(table: &'a toml::map::Map<String, toml::Value>) -> (r: Vec<
    (&'a String, &'a toml::Value),
>)
    ensures
        r@.len() == table_reading(*table).len(),
        forall|i: int|
            0 <= i < r@.len() ==> ((#[trigger] r@[i]).0@, value_reading(*r@[i].1))
                == table_reading(*table)[i],
{
    table.iter().collect()
}

/// The node standing under `key` among `entries`, if any: the first, which
/// with distinct keys is the only one.
pub open spec fn doc_entry(entries: Seq<(Seq<char>, TomlNode)>, key: Seq<char>) -> Option<TomlNode>
    decreases entries.len(),
{
    if entries.len() == 0 {
        None
    } else if entries[0].0 == key {
        Some(entries[0].1)
    } else {
        doc_entry(entries.drop_first(), key)
    }
}

proof fn lemma_doc_entry_absent(entries: Seq<(Seq<char>, TomlNode)>, key: Seq<char>)
    requires
        forall|i: int| 0 <= i < entries.len() ==> (#[trigger] entries[i]).0 != key,
    ensures
        doc_entry(entries, key) is None,
    decreases entries.len(),
{
    if entries.len() > 0 {
        let rest = entries.drop_first();
        assert(forall|i: int| 0 <= i < rest.len() ==> (#[trigger] rest[i]).0 != key) by {
            assert(forall|i: int| 0 <= i < rest.len() ==> #[trigger] rest[i] == entries[i + 1]);
        }
        lemma_doc_entry_absent(rest, key);
    }
}

proof fn lemma_doc_entry_found(entries: Seq<(Seq<char>, TomlNode)>, key: Seq<char>, i: int)
    requires
        keys_distinct(entries),
        0 <= i < entries.len(),
        entries[i].0 == key,
    ensures
        doc_entry(entries, key) == Some(entries[i].1),
    decreases entries.len(),
{
    if i > 0 {
        let rest = entries.drop_first();
        assert(keys_distinct(rest)) by {
            assert(forall|j: int| 0 <= j < rest.len() ==> #[trigger] rest[j] == entries[j + 1]);
        }
        assert(rest[i - 1] == entries[i]);
        lemma_doc_entry_found(rest, key, i - 1);
    }
}

/// The action a bind's value table describes, read off its entry nodes:
/// `type` must hold the string `"cmd"` and `command` a string.
pub open spec fn node_action_of(fields: Seq<(Seq<char>, TomlNode)>) -> Option<ActionView> {
    if doc_entry(fields, "type"@) matches Some(TomlNode::Str(t)) && t == "cmd"@ {
        match doc_entry(fields, "command"@) {
            Some(TomlNode::Str(c)) => Some(ActionView::Cmd { command: c }),
            _ => None,
        }
    } else {
        None
    }
}

/// What building the table from the document's bind entries yields: the
/// entry-node mirror of [`crate::config::build_table`].
pub open spec fn build_table_doc(
    entries: Seq<(Seq<char>, TomlNode)>,
    acc: Map<BindView, ActionView>,
) -> Result<Map<BindView, ActionView>, ConfigError>
    decreases entries.len(),
{
    if entries.len() == 0 {
        Ok(acc)
    } else {
        match parse_bind_spec(entries[0].0) {
            Err(be) => Err(ConfigError::Bind(be)),
            Ok(bv) => match entries[0].1 {
                TomlNode::Table(fields) => match node_action_of(fields) {
                    None => Err(ConfigError::InvalidAction),
                    Some(av) => if acc.contains_key(bv) {
                        Err(ConfigError::DuplicateBind)
                    } else {
                        build_table_doc(entries.drop_first(), acc.insert(bv, av))
                    },
                },
                _ => Err(ConfigError::ActionNotTable),
            },
        }
    }
}

/// In an accepted document every bind entry stands in the built table: each
/// combination string parses, each value table describes an action, and the
/// table maps the bind to that action.  What was in the accumulator stays.
pub proof fn lemma_build_table_doc_complete(
    entries: Seq<(Seq<char>, TomlNode)>,
    acc: Map<BindView, ActionView>,
)
    requires
        build_table_doc(entries, acc) is Ok,
    ensures
        (build_table_doc(entries, acc) matches Ok(t) ==> {
            &&& forall|bv: BindView|
                #[trigger] acc.contains_key(bv) ==> t.contains_key(bv) && t[bv] == acc[bv]
            &&& forall|i: int|
                0 <= i < entries.len() ==> (parse_bind_spec((#[trigger] entries[i]).0) matches
                Ok(bv) && entries[i].1 matches TomlNode::Table(fields) && node_action_of(
                    fields,
                ) matches Some(av) && t.contains_key(bv) && t[bv] == av)
        }),
    decreases entries.len(),
{
    if entries.len() > 0 {
        let t = build_table_doc(entries, acc)->Ok_0;
        match parse_bind_spec(entries[0].0) {
            Err(_) => {},
            Ok(bv) => match entries[0].1 {
                TomlNode::Table(fields) => match node_action_of(fields) {
                    None => {},
                    Some(av) => {
                        if !acc.contains_key(bv) {
                            let rest = entries.drop_first();
                            let grown = acc.insert(bv, av);
                            lemma_build_table_doc_complete(rest, grown);
                            assert(grown.contains_key(bv) && grown[bv] == av);
                            assert forall|bv2: BindView| #[trigger]
                                acc.contains_key(bv2) implies t.contains_key(bv2) && t[bv2]
                                == acc[bv2] by {
                                assert(grown.contains_key(bv2) && grown[bv2] == acc[bv2]);
                            }
                            assert forall|i: int| 0 <= i < entries.len() implies (parse_bind_spec(
                                (#[trigger] entries[i]).0,
                            ) matches Ok(bvi) && entries[i].1 matches TomlNode::Table(fields2)
                                && node_action_of(fields2) matches Some(avi) && t.contains_key(bvi)
                                && t[bvi] == avi) by {
                                if i > 0 {
                                    assert(rest[i - 1] == entries[i]);
                                }
                            }
                        }
                    },
                },
                _ => {},
            },
        }
    }
}

/// What loading a configuration text yields: the table its `binds` entries
/// build; the empty table where the document has no `binds`; or the first
/// reason the text is rejected.
pub open spec fn load_outcome(s: Seq<char>) -> Result<Map<BindView, ActionView>, ConfigError> {
    if !toml_parses(s) {
        Err(ConfigError::Syntax)
    } else {
        match doc_entry(toml_doc_of(s), "binds"@) {
            None => Ok(Map::empty()),
            Some(node) => match node {
                TomlNode::Table(entries) => build_table_doc(entries, Map::empty()),
                _ => Err(ConfigError::BindsNotTable),
            },
        }
    }
}

/// Whether a load outcome denotes the specified one.
pub open spec fn load_matches(
    r: Result<Config, ConfigError>,
    o: Result<Map<BindView, ActionView>, ConfigError>,
) -> bool {
    match (r, o) {
        (Ok(c), Ok(t)) => c.wf() && c@ == t,
        (Err(e1), Err(e2)) => e1 == e2,
        _ => false,
    }
}

/// Whether one raw field denotes one node: its string where the node is a
/// string, the non-string mark otherwise.
spec fn raw_value_matches(rv: RawValue, node: TomlNode) -> bool {
    match rv {
        RawValue::Text(t) => node == TomlNode::Str(t@),
        RawValue::Other => !(node is Str),
    }
}

/// Whether the two extracted fields denote the `type` and `command` entries
/// of a bind's value table.
spec fn raw_matches_fields(raw: RawAction, fields: Seq<(Seq<char>, TomlNode)>) -> bool {
    &&& match raw.kind {
        Some(rv) => doc_entry(fields, "type"@) matches Some(n) && raw_value_matches(rv, n),
        None => doc_entry(fields, "type"@) is None,
    }
    &&& match raw.command {
        Some(rv) => doc_entry(fields, "command"@) matches Some(n) && raw_value_matches(rv, n),
        None => doc_entry(fields, "command"@) is None,
    }
}

/// Matching extracted fields read to the same action as the nodes they
/// denote.
proof fn lemma_action_reading(raw: RawAction, fields: Seq<(Seq<char>, TomlNode)>)
    requires
        raw_matches_fields(raw, fields),
    ensures
        action_of_raw(raw) == node_action_of(fields),
{
}

/// A configuration value as the action reader sees it: its string, or the
/// mark that it is no string.
fn raw_value_of(value: &toml::Value) -> (r: RawValue)
    ensures
        raw_value_matches(r, value_reading(*value)),
{
    match value_as_str(value) {
        Some(s) => RawValue::Text(s.to_owned()),
        None => RawValue::Other,
    }
}

/// The two fields the action reader takes from a bind's value table.
fn raw_action_of(table: &toml::map::Map<String, toml::Value>) -> (r: RawAction)
    requires
        keys_distinct(table_reading(*table)),
    ensures
        raw_matches_fields(r, table_reading(*table)),
{
    let ghost fields = table_reading(*table);
    let kind = match table_get(table, "type") {
        Some(v) => {
            proof {
                let i = choose|i: int|
                    0 <= i < fields.len() && #[trigger] fields[i] == (
                        "type"@,
                        value_reading(*v),
                    );
                lemma_doc_entry_found(fields, "type"@, i);
            }
            Some(raw_value_of(v))
        },
        None => {
            proof {
                lemma_doc_entry_absent(fields, "type"@);
            }
            None
        },
    };
    let command = match table_get(table, "command") {
        Some(v) => {
            proof {
                let i = choose|i: int|
                    0 <= i < fields.len() && #[trigger] fields[i] == (
                        "command"@,
                        value_reading(*v),
                    );
                lemma_doc_entry_found(fields, "command"@, i);
            }
            Some(raw_value_of(v))
        },
        None => {
            proof {
                lemma_doc_entry_absent(fields, "command"@);
            }
            None
        },
    };
    RawAction { kind, command }
}

/// Whether one extracted entry denotes one bind entry of the document: the
/// combination strings agree, and the extracted action fields read to the
/// same action as the entry's value node.
spec fn entry_corresponds(e: (String, Option<RawAction>), de: (Seq<char>, TomlNode)) -> bool {
    &&& e.0@ == de.0
    &&& match e.1 {
        Some(raw) => de.1 matches TomlNode::Table(fields) && action_of_raw(raw) == node_action_of(
            fields,
        ),
        None => !(de.1 is Table),
    }
}

/// Pointwise corresponding entries build the same table.
proof fn lemma_build_table_corresponds(
    entries: Seq<(String, Option<RawAction>)>,
    doc_entries: Seq<(Seq<char>, TomlNode)>,
    acc: Map<BindView, ActionView>,
)
    requires
        entries.len() == doc_entries.len(),
        forall|j: int|
            0 <= j < entries.len() ==> entry_corresponds(#[trigger] entries[j], doc_entries[j]),
    ensures
        build_table(entries, acc) == build_table_doc(doc_entries, acc),
    decreases entries.len(),
{
    if entries.len() > 0 {
        assert(entry_corresponds(entries[0], doc_entries[0]));
        let rest = entries.drop_first();
        let doc_rest = doc_entries.drop_first();
        assert(forall|j: int|
            0 <= j < rest.len() ==> entry_corresponds(#[trigger] rest[j], doc_rest[j])) by {
            assert(forall|j: int| 0 <= j < rest.len() ==> #[trigger] rest[j] == entries[j + 1]);
            assert(forall|j: int|
                0 <= j < doc_rest.len() ==> #[trigger] doc_rest[j] == doc_entries[j + 1]);
        }
        match parse_bind_spec(doc_entries[0].0) {
            Err(_) => {},
            Ok(bv) => match entries[0].1 {
                None => {},
                Some(raw) => match action_of_raw(raw) {
                    None => {},
                    Some(av) => {
                        if !acc.contains_key(bv) {
                            lemma_build_table_corresponds(rest, doc_rest, acc.insert(bv, av));
                        }
                    },
                },
            },
        }
    }
}

impl Config {
    /// Build one generation from the text of a configuration file.
    ///
    /// The outcome is exactly what the document warrants: a text that is no
    /// toml document is rejected as `Syntax`; a document without a `binds`
    /// entry yields the empty generation; a `binds` that is no table is
    /// rejected; otherwise the `binds` entries build the table, each taken
    /// as its combination string and its value table's `type` and `command`
    /// fields, and the first offending entry decides the error.
    pub fn new_from_str(content: &str) -> (r: Result<Config, ConfigError>)
        ensures
            load_matches(r, load_outcome(content@)),
    {
        let table = match parse_toml(content) {
            Some(t) => t,
            None => {
                return Err(ConfigError::Syntax);
            },
        };
        let ghost doc = toml_doc_of(content@);
        let binds_val = match table_get(&table, "binds") {
            Some(v) => v,
            None => {
                proof {
                    lemma_doc_entry_absent(doc, "binds"@);
                }
                let c = Config::new();
                let r = Ok(c);
                proof {
                    assert(c@ =~= Map::empty());
                }
                return r;
            },
        };
        proof {
            let i = choose|i: int|
                0 <= i < doc.len() && #[trigger] doc[i] == ("binds"@, value_reading(*binds_val));
            lemma_doc_entry_found(doc, "binds"@, i);
        }
        let binds_table = match value_as_table(binds_val) {
            Some(t) => t,
            None => {
                return Err(ConfigError::BindsNotTable);
            },
        };
        let ghost bind_nodes = table_reading(*binds_table);
        let entry_refs = table_entries(binds_table);
        let mut entries: Vec<(String, Option<RawAction>)> = Vec::new();
        let n = entry_refs.len();
        let mut i: usize = 0;
        while i < n
            invariant
                n == entry_refs@.len(),
                n == bind_nodes.len(),
                i <= n,
                entries@.len() == i,
                forall|j: int|
                    0 <= j < entry_refs@.len() ==> ((#[trigger] entry_refs@[j]).0@, value_reading(
                        *entry_refs@[j].1,
                    )) == bind_nodes[j],
                forall|j: int|
                    0 <= j < i ==> entry_corresponds(#[trigger] entries@[j], bind_nodes[j]),
            decreases n - i,
        {
            let pair = entry_refs[i];
            let raw = match value_as_table(pair.1) {
                Some(t) => {
                    let extracted = raw_action_of(t);
                    proof {
                        lemma_action_reading(extracted, table_reading(*t));
                    }
                    Some(extracted)
                },
                None => None,
            };
            entries.push((pair.0.clone(), raw));
            i += 1;
        }
        let r = Config::from_entries(&entries);
        proof {
            assert(from_entries_post(entries@, r));
            lemma_build_table_corresponds(entries@, bind_nodes, Map::empty());
        }
        r
    }
}

impl ConfigManager {
    /// One configuration reload: parse `content` and, only where a whole
    /// generation results, install it.  On any rejection nothing is
    /// installed, so the previously installed generation stays in effect,
    /// and the error is the one the document warrants.
    pub fn reload_from_str(&self, content: &str) -> (r: Result<(), ConfigError>)
        requires
            self.wf(),
        ensures
            match (r, load_outcome(content@)) {
                (Ok(()), Ok(_)) => true,
                (Err(e1), Err(e2)) => e1 == e2,
                _ => false,
            },
    {
        match Config::new_from_str(content) {
            Ok(c) => {
                self.replace(c);
                Ok(())
            },
            Err(e) => Err(e),
        }
    }
}

} // verus!
