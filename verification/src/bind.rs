//! Binds and their textual form.
//!
//! A bind is the lookup key of the binding table: a set of modifier keys plus
//! exactly one keyboard key.  In a configuration file a bind is written as a
//! combination string: kebab-case key names joined by `" + "`, as in
//! `"left-shift + q"`.  Parsing such a string is specified here, along with
//! the law that the order of the names does not matter.

use vstd::prelude::*;

use crate::keys::{spec_keyboard_from_config, spec_modifier_from_config, KeyboardKey, ModifierKey};
use crate::modifiers::ModifierSet;

verus! {

/// The lookup key of the binding table: one or more modifiers and exactly one
/// trigger key.
#[derive(Clone, Copy, Debug, PartialEq, Eq, Structural)]
pub struct Bind {
    pub modifiers: ModifierSet,
    pub key: KeyboardKey,
}

/// The mathematical value of a [`Bind`]: an unordered modifier set and the
/// trigger key.
#[verifier::ext_equal]
pub struct BindView {
    pub modifiers: Set<ModifierKey>,
    pub key: KeyboardKey,
}

impl View for Bind {
    type V = BindView;

    open spec fn view(&self) -> BindView {
        BindView { modifiers: self.modifiers@, key: self.key }
    }
}

/// Two binds are the same value exactly when their mathematical views agree:
/// the representation of the modifier set is canonical.
pub proof fn lemma_bind_view_injective(a: Bind, b: Bind)
    ensures
        (a@ == b@) <==> a == b,
{
    crate::modifiers::lemma_modifier_set_view_injective(a.modifiers, b.modifiers);
}

/// Why a combination string was rejected.
#[derive(Clone, Copy, Debug, PartialEq, Eq, Structural)]
pub enum BindError {
    /// A token names neither a modifier key nor a keyboard key.
    UnknownToken,
    /// The same modifier appears twice.
    DuplicateModifier,
    /// More than one keyboard key appears.
    MultipleKeys,
    /// No modifier key appears.
    NoModifiers,
    /// No keyboard key appears.
    NoKey,
}

/// Whether the three characters of the token separator `" + "` stand at
/// position `i` of `t`.
pub open spec fn sep_at(t: Seq<char>, i: int) -> bool {
    &&& 0 <= i
    &&& i + 3 <= t.len()
    &&& t[i] == ' '
    &&& t[i + 1] == '+'
    &&& t[i + 2] == ' '
}

/// The tokens of `t` from scan position `i` on, the current token having
/// started at `start`: splitting on each leftmost occurrence of `" + "`.
pub open spec fn split_from(t: Seq<char>, start: int, i: int) -> Seq<Seq<char>>
    decreases t.len() - i,
{
    if !(0 <= start <= i <= t.len()) {
        Seq::empty()
    } else if i + 3 > t.len() {
        seq![t.subrange(start, t.len() as int)]
    } else if sep_at(t, i) {
        seq![t.subrange(start, i)] + split_from(t, i + 3, i + 3)
    } else {
        split_from(t, start, i + 1)
    }
}

/// The tokens of a combination string: its maximal runs between occurrences
/// of the separator `" + "`.
pub open spec fn split_tokens(t: Seq<char>) -> Seq<Seq<char>> {
    split_from(t, 0, 0)
}

/// One left-to-right pass over the tokens, accumulating the modifier set and
/// the trigger key, stopping at the first offending token.
pub open spec fn scan_tokens(
    tokens: Seq<Seq<char>>,
    mods: Set<ModifierKey>,
    key: Option<KeyboardKey>,
) -> Result<(Set<ModifierKey>, Option<KeyboardKey>), BindError>
    decreases tokens.len(),
{
    if tokens.len() == 0 {
        Ok((mods, key))
    } else {
        match (spec_modifier_from_config(tokens[0]), spec_keyboard_from_config(tokens[0])) {
            (Some(m), None) => if mods.contains(m) {
                Err(BindError::DuplicateModifier)
            } else {
                scan_tokens(tokens.drop_first(), mods.insert(m), key)
            },
            (None, Some(k)) => if key is Some {
                Err(BindError::MultipleKeys)
            } else {
                scan_tokens(tokens.drop_first(), mods, Some(k))
            },
            _ => Err(BindError::UnknownToken),
        }
    }
}

/// What parsing a combination string yields: the bind it denotes, or the
/// first reason it is rejected.  A bind must name at least one modifier and
/// exactly one keyboard key.
pub open spec fn parse_bind_spec(s: Seq<char>) -> Result<BindView, BindError> {
    match scan_tokens(split_tokens(s), Set::empty(), None::<KeyboardKey>) {
        Err(e) => Err(e),
        Ok((mods, key)) => if mods == Set::<ModifierKey>::empty() {
            Err(BindError::NoModifiers)
        } else {
            match key {
                Some(k) => Ok(BindView { modifiers: mods, key: k }),
                None => Err(BindError::NoKey),
            }
        },
    }
}

/// Whether an executable parse outcome denotes the specified one.
pub open spec fn parse_result_matches(
    r: Result<Bind, BindError>,
    s: Result<BindView, BindError>,
) -> bool {
    match (r, s) {
        (Ok(b), Ok(bv)) => b@ == bv,
        (Err(e1), Err(e2)) => e1 == e2,
        _ => false,
    }
}

/// The views of a sequence of string slices.
spec fn seq_views(q: Seq<&str>) -> Seq<Seq<char>> {
    q.map_values(|t: &str| t@)
}

/// Split a combination string into its tokens.
fn find_tokens(s: &str) -> (r: Vec<&str>)
    ensures
        seq_views(r@) == split_tokens(s@),
{
    let len = s.unicode_len();
    let mut out: Vec<&str> = Vec::new();
    let mut start: usize = 0;
    let mut i: usize = 0;
    while len >= 3 && i <= len - 3
        invariant
            len == s@.len(),
            start <= i <= len,
            split_tokens(s@) =~= seq_views(out@) + split_from(s@, start as int, i as int),
        decreases len - i,
    {
        if s.get_char(i) == ' ' && s.get_char(i + 1) == '+' && s.get_char(i + 2) == ' ' {
            let tok = s.substring_char(start, i);
            out.push(tok);
            proof {
                assert(seq_views(out@) =~= seq_views(out@.drop_last()).push(tok@));
                assert(seq_views(out@.drop_last()) + (seq![tok@] + split_from(
                    s@,
                    i + 3,
                    i + 3,
                )) =~= seq_views(out@) + split_from(s@, i + 3, i + 3));
            }
            start = i + 3;
            i = i + 3;
        } else {
            proof {
                assert(!sep_at(s@, i as int));
            }
            i = i + 1;
        }
    }
    let tok = s.substring_char(start, len);
    out.push(tok);
    proof {
        assert(seq_views(out@) =~= seq_views(out@.drop_last()).push(tok@));
        assert(seq_views(out@.drop_last()) + seq![tok@] =~= seq_views(out@));
    }
    out
}

/// Parse a combination string such as `"left-shift + q"` into a bind.
///
/// The names may come in any order; each modifier may appear once; exactly
/// one keyboard key and at least one modifier must appear.
pub fn parse_bind(s: &str) -> (r: Result<Bind, BindError>)
    ensures
        parse_result_matches(r, parse_bind_spec(s@)),
{
    let tokens = find_tokens(s);
    let ghost toks = split_tokens(s@);
    let mut mods = ModifierSet::empty();
    let mut key: Option<KeyboardKey> = None;
    let n = tokens.len();
    let mut idx: usize = 0;
    proof {
        assert(toks.skip(0) =~= toks);
    }
    while idx < n
        invariant
            n == tokens@.len(),
            toks == split_tokens(s@),
            seq_views(tokens@) == toks,
            idx <= n,
            scan_tokens(toks, Set::empty(), None::<KeyboardKey>) == scan_tokens(
                toks.skip(idx as int),
                mods@,
                key,
            ),
        decreases n - idx,
    {
        let t = tokens[idx];
        proof {
            assert(toks.skip(idx as int)[0] == toks[idx as int]);
            assert(toks[idx as int] == seq_views(tokens@)[idx as int]);
            assert(toks.skip(idx as int).drop_first() =~= toks.skip(idx as int + 1));
        }
        match (ModifierKey::from_config_kebab(t), KeyboardKey::from_config_kebab(t)) {
            (Some(m), None) => {
                if mods.contains(m) {
                    return Err(BindError::DuplicateModifier);
                }
                mods.insert(m);
            },
            (None, Some(k)) => {
                if key.is_some() {
                    return Err(BindError::MultipleKeys);
                }
                key = Some(k);
            },
            _ => {
                return Err(BindError::UnknownToken);
            },
        }
        idx += 1;
    }
    proof {
        assert(toks.skip(n as int) =~= Seq::empty());
    }
    if mods.is_empty() {
        return Err(BindError::NoModifiers);
    }
    match key {
        Some(k) => Ok(Bind { modifiers: mods, key: k }),
        None => Err(BindError::NoKey),
    }
}

/// Whether token `t` names the modifier key `m`.
pub open spec fn is_modifier_token(t: Seq<char>, m: ModifierKey) -> bool {
    spec_modifier_from_config(t) == Some(m) && spec_keyboard_from_config(t) is None
}

/// Whether token `t` names the keyboard key `k`.
pub open spec fn is_keyboard_token(t: Seq<char>, k: KeyboardKey) -> bool {
    spec_modifier_from_config(t) is None && spec_keyboard_from_config(t) == Some(k)
}

/// Whether some token of `tokens` names the modifier key `m`.
pub open spec fn has_modifier_token(tokens: Seq<Seq<char>>, m: ModifierKey) -> bool {
    exists|j: int| 0 <= j < tokens.len() && is_modifier_token(#[trigger] tokens[j], m)
}

/// Whether some token of `tokens` names the keyboard key `k`.
pub open spec fn has_keyboard_token(tokens: Seq<Seq<char>>, k: KeyboardKey) -> bool {
    exists|j: int| 0 <= j < tokens.len() && is_keyboard_token(#[trigger] tokens[j], k)
}

proof fn lemma_has_modifier_token_unfold(tokens: Seq<Seq<char>>, m: ModifierKey)
    requires
        tokens.len() > 0,
    ensures
        has_modifier_token(tokens, m) <==> (is_modifier_token(tokens[0], m)
            || has_modifier_token(tokens.drop_first(), m)),
{
    let rest = tokens.drop_first();
    if has_modifier_token(tokens, m) {
        let j = choose|j: int| 0 <= j < tokens.len() && is_modifier_token(#[trigger] tokens[j], m);
        if j != 0 {
            assert(rest[j - 1] == tokens[j]);
            assert(is_modifier_token(rest[j - 1], m));
        }
    }
    if has_modifier_token(rest, m) {
        let j = choose|j: int| 0 <= j < rest.len() && is_modifier_token(#[trigger] rest[j], m);
        assert(tokens[j + 1] == rest[j]);
        assert(is_modifier_token(tokens[j + 1], m));
    }
}

proof fn lemma_has_keyboard_token_unfold(tokens: Seq<Seq<char>>, k: KeyboardKey)
    requires
        tokens.len() > 0,
    ensures
        has_keyboard_token(tokens, k) <==> (is_keyboard_token(tokens[0], k)
            || has_keyboard_token(tokens.drop_first(), k)),
{
    let rest = tokens.drop_first();
    if has_keyboard_token(tokens, k) {
        let j = choose|j: int| 0 <= j < tokens.len() && is_keyboard_token(#[trigger] tokens[j], k);
        if j != 0 {
            assert(rest[j - 1] == tokens[j]);
            assert(is_keyboard_token(rest[j - 1], k));
        }
    }
    if has_keyboard_token(rest, k) {
        let j = choose|j: int| 0 <= j < rest.len() && is_keyboard_token(#[trigger] rest[j], k);
        assert(tokens[j + 1] == rest[j]);
        assert(is_keyboard_token(tokens[j + 1], k));
    }
}

/// A successful scan is characterized by token membership alone: the modifier
/// set collects exactly the modifiers some token names, and the trigger key
/// is exactly the keyboard key some token names.
proof fn lemma_scan_membership(
    tokens: Seq<Seq<char>>,
    mods: Set<ModifierKey>,
    key: Option<KeyboardKey>,
)
    requires
        scan_tokens(tokens, mods, key) is Ok,
    ensures
        (scan_tokens(tokens, mods, key) matches Ok(acc) ==> {
            &&& forall|m: ModifierKey|
                #[trigger] acc.0.contains(m) <==> (mods.contains(m) || has_modifier_token(
                    tokens,
                    m,
                ))
            &&& forall|k: KeyboardKey|
                (#[trigger] has_keyboard_token(tokens, k) || key == Some(k)) <==> acc.1 == Some(k)
        }),
    decreases tokens.len(),
{
    if tokens.len() == 0 {
    } else {
        let t = tokens[0];
        let rest = tokens.drop_first();
        let acc = scan_tokens(tokens, mods, key)->Ok_0;
        match (spec_modifier_from_config(t), spec_keyboard_from_config(t)) {
            (Some(m0), None) => {
                lemma_scan_membership(rest, mods.insert(m0), key);
                assert(acc == scan_tokens(rest, mods.insert(m0), key)->Ok_0);
                assert forall|m: ModifierKey| #[trigger]
                    acc.0.contains(m) <==> (mods.contains(m) || has_modifier_token(
                        tokens,
                        m,
                    )) by {
                    lemma_has_modifier_token_unfold(tokens, m);
                }
                assert forall|k: KeyboardKey|
                    (#[trigger] has_keyboard_token(tokens, k) || key == Some(k)) <==> acc.1
                        == Some(k) by {
                    lemma_has_keyboard_token_unfold(tokens, k);
                    assert(has_keyboard_token(tokens, k) <==> has_keyboard_token(rest, k));
                    assert((has_keyboard_token(rest, k) || key == Some(k)) <==> acc.1 == Some(k));
                }
            },
            (None, Some(k0)) => {
                lemma_scan_membership(rest, mods, Some(k0));
                assert(acc == scan_tokens(rest, mods, Some(k0))->Ok_0);
                assert forall|m: ModifierKey| #[trigger]
                    acc.0.contains(m) <==> (mods.contains(m) || has_modifier_token(
                        tokens,
                        m,
                    )) by {
                    lemma_has_modifier_token_unfold(tokens, m);
                }
                assert forall|k: KeyboardKey|
                    (#[trigger] has_keyboard_token(tokens, k) || key == Some(k)) <==> acc.1
                        == Some(k) by {
                    lemma_has_keyboard_token_unfold(tokens, k);
                    assert(is_keyboard_token(tokens[0], k0));
                    assert(has_keyboard_token(rest, k) ==> acc.1 == Some(k));
                    assert(k == k0 ==> acc.1 == Some(k));
                    assert(acc.1 == Some(k) ==> (has_keyboard_token(rest, k) || k == k0));
                }
            },
            _ => {},
        }
    }
}

/// Loading two combination strings whose token lists are permutations of one
/// another yields the same bind: the modifier names may come in any order
/// around the one keyboard key.
pub proof fn lemma_parse_bind_order_independent(s1: Seq<char>, s2: Seq<char>)
    requires
        split_tokens(s1).to_multiset() == split_tokens(s2).to_multiset(),
        parse_bind_spec(s1) is Ok,
        parse_bind_spec(s2) is Ok,
    ensures
        parse_bind_spec(s1) == parse_bind_spec(s2),
{
    let toks1 = split_tokens(s1);
    let toks2 = split_tokens(s2);
    let r1 = scan_tokens(toks1, Set::empty(), None::<KeyboardKey>);
    let r2 = scan_tokens(toks2, Set::empty(), None::<KeyboardKey>);
    lemma_scan_membership(toks1, Set::empty(), None::<KeyboardKey>);
    lemma_scan_membership(toks2, Set::empty(), None::<KeyboardKey>);
    toks1.to_multiset_ensures();
    toks2.to_multiset_ensures();
    let acc1 = r1->Ok_0;
    let acc2 = r2->Ok_0;
    assert forall|m: ModifierKey| #[trigger]
        has_modifier_token(toks1, m) <==> has_modifier_token(toks2, m) by {
        if has_modifier_token(toks1, m) {
            let j = choose|j: int|
                0 <= j < toks1.len() && is_modifier_token(#[trigger] toks1[j], m);
            let t = toks1[j];
            assert(toks1.contains(t));
            assert(toks2.to_multiset().count(t) > 0);
            assert(toks2.contains(t));
            let j2 = choose|i: int| 0 <= i < toks2.len() && toks2[i] == t;
            assert(is_modifier_token(toks2[j2], m));
        }
        if has_modifier_token(toks2, m) {
            let j = choose|j: int|
                0 <= j < toks2.len() && is_modifier_token(#[trigger] toks2[j], m);
            let t = toks2[j];
            assert(toks2.contains(t));
            assert(toks1.to_multiset().count(t) > 0);
            assert(toks1.contains(t));
            let j2 = choose|i: int| 0 <= i < toks1.len() && toks1[i] == t;
            assert(is_modifier_token(toks1[j2], m));
        }
    }
    assert forall|k: KeyboardKey| #[trigger]
        has_keyboard_token(toks1, k) <==> has_keyboard_token(toks2, k) by {
        if has_keyboard_token(toks1, k) {
            let j = choose|j: int|
                0 <= j < toks1.len() && is_keyboard_token(#[trigger] toks1[j], k);
            let t = toks1[j];
            assert(toks1.contains(t));
            assert(toks2.to_multiset().count(t) > 0);
            assert(toks2.contains(t));
            let j2 = choose|i: int| 0 <= i < toks2.len() && toks2[i] == t;
            assert(is_keyboard_token(toks2[j2], k));
        }
        if has_keyboard_token(toks2, k) {
            let j = choose|j: int|
                0 <= j < toks2.len() && is_keyboard_token(#[trigger] toks2[j], k);
            let t = toks2[j];
            assert(toks2.contains(t));
            assert(toks1.to_multiset().count(t) > 0);
            assert(toks1.contains(t));
            let j2 = choose|i: int| 0 <= i < toks1.len() && toks1[i] == t;
            assert(is_keyboard_token(toks1[j2], k));
        }
    }
    assert(acc1.0 =~= acc2.0) by {
        assert forall|m: ModifierKey| acc1.0.contains(m) == acc2.0.contains(m) by {
            assert(acc1.0.contains(m) <==> has_modifier_token(toks1, m));
            assert(acc2.0.contains(m) <==> has_modifier_token(toks2, m));
        }
    }
    assert(acc1.1 == acc2.1) by {
        match acc1.1 {
            Some(k) => {
                assert(has_keyboard_token(toks1, k));
                assert(has_keyboard_token(toks2, k));
            },
            None => {
                if acc2.1 is Some {
                    let k2 = acc2.1->0;
                    assert(has_keyboard_token(toks2, k2));
                    assert(has_keyboard_token(toks1, k2));
                }
            },
        }
    }
}

} // verus!
