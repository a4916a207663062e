//! The set of modifier keys, and the tracker of which modifiers are held.
//!
//! A modifier set is kept as one flag per modifier key, so equality of two
//! sets is independent of any insertion order, and inserting a key a second
//! time cannot change the set.

use vstd::prelude::*;

use crate::keys::ModifierKey;

verus! {

/// An unordered set of modifier keys: the match set of a bind, and the
/// snapshot a lookup is keyed by.
#[derive(Clone, Copy, Debug, PartialEq, Eq, Structural)]
pub struct ModifierSet {
    left_shift: bool,
    right_shift: bool,
    left_control: bool,
    right_control: bool,
    left_option: bool,
    right_option: bool,
    left_command: bool,
    right_command: bool,
}

impl ModifierSet {
    /// Whether the flag for `m` is set.
    closed spec fn spec_contains(self, m: ModifierKey) -> bool {
        match m {
            ModifierKey::LeftShift => self.left_shift,
            ModifierKey::RightShift => self.right_shift,
            ModifierKey::LeftControl => self.left_control,
            ModifierKey::RightControl => self.right_control,
            ModifierKey::LeftOption => self.left_option,
            ModifierKey::RightOption => self.right_option,
            ModifierKey::LeftCommand => self.left_command,
            ModifierKey::RightCommand => self.right_command,
        }
    }

    /// The set with no modifier held.
    pub fn empty() -> (r: ModifierSet)
        ensures
            r@ == Set::<ModifierKey>::empty(),
    {
        let r = ModifierSet {
            left_shift: false,
            right_shift: false,
            left_control: false,
            right_control: false,
            left_option: false,
            right_option: false,
            left_command: false,
            right_command: false,
        };
        proof {
            assert(r@ =~= Set::<ModifierKey>::empty());
        }
        r
    }

    /// Add a modifier; adding one already present changes nothing.
    pub fn insert(&mut self, m: ModifierKey)
        ensures
            final (self)@ == old(self)@.insert(m),
    {
        match m {
            ModifierKey::LeftShift => self.left_shift = true,
            ModifierKey::RightShift => self.right_shift = true,
            ModifierKey::LeftControl => self.left_control = true,
            ModifierKey::RightControl => self.right_control = true,
            ModifierKey::LeftOption => self.left_option = true,
            ModifierKey::RightOption => self.right_option = true,
            ModifierKey::LeftCommand => self.left_command = true,
            ModifierKey::RightCommand => self.right_command = true,
        }
        proof {
            assert(self@ =~= old(self)@.insert(m));
        }
    }

    /// Drop a modifier; dropping one not present changes nothing.
    pub fn remove(&mut self, m: ModifierKey)
        ensures
            final (self)@ == old(self)@.remove(m),
    {
        match m {
            ModifierKey::LeftShift => self.left_shift = false,
            ModifierKey::RightShift => self.right_shift = false,
            ModifierKey::LeftControl => self.left_control = false,
            ModifierKey::RightControl => self.right_control = false,
            ModifierKey::LeftOption => self.left_option = false,
            ModifierKey::RightOption => self.right_option = false,
            ModifierKey::LeftCommand => self.left_command = false,
            ModifierKey::RightCommand => self.right_command = false,
        }
        proof {
            assert(self@ =~= old(self)@.remove(m));
        }
    }

    /// Whether `m` is in the set.
    pub fn contains(&self, m: ModifierKey) -> (r: bool)
        ensures
            r == self@.contains(m),
    {
        match m {
            ModifierKey::LeftShift => self.left_shift,
            ModifierKey::RightShift => self.right_shift,
            ModifierKey::LeftControl => self.left_control,
            ModifierKey::RightControl => self.right_control,
            ModifierKey::LeftOption => self.left_option,
            ModifierKey::RightOption => self.right_option,
            ModifierKey::LeftCommand => self.left_command,
            ModifierKey::RightCommand => self.right_command,
        }
    }

    /// Whether no modifier is in the set.
    pub fn is_empty(&self) -> (r: bool)
        ensures
            r <==> (self@ =~= Set::<ModifierKey>::empty()),
    {
        let r = !self.left_shift && !self.right_shift && !self.left_control && !self.right_control
            && !self.left_option && !self.right_option && !self.left_command && !self.right_command;
        proof {
            if r {
                assert(self@ =~= Set::<ModifierKey>::empty());
            } else {
                assert(exists|m: ModifierKey| self@.contains(m)) by {
                    if self.left_shift {
                        assert(self@.contains(ModifierKey::LeftShift));
                    } else if self.right_shift {
                        assert(self@.contains(ModifierKey::RightShift));
                    } else if self.left_control {
                        assert(self@.contains(ModifierKey::LeftControl));
                    } else if self.right_control {
                        assert(self@.contains(ModifierKey::RightControl));
                    } else if self.left_option {
                        assert(self@.contains(ModifierKey::LeftOption));
                    } else if self.right_option {
                        assert(self@.contains(ModifierKey::RightOption));
                    } else if self.left_command {
                        assert(self@.contains(ModifierKey::LeftCommand));
                    } else {
                        assert(self@.contains(ModifierKey::RightCommand));
                    }
                }
            }
        }
        r
    }
}

impl View for ModifierSet {
    type V = Set<ModifierKey>;

    closed spec fn view(&self) -> Set<ModifierKey> {
        Set::new(|m: ModifierKey| self.spec_contains(m))
    }
}

/// Two modifier sets with equal views are equal values: the flags are a
/// canonical representation, so set equality never depends on the order the
/// modifiers were added in.
pub proof fn lemma_modifier_set_view_injective(a: ModifierSet, b: ModifierSet)
    ensures
        (a@ =~= b@) <==> a == b,
{
    if a@ =~= b@ {
        assert(a@.contains(ModifierKey::LeftShift) == b@.contains(ModifierKey::LeftShift));
        assert(a@.contains(ModifierKey::RightShift) == b@.contains(ModifierKey::RightShift));
        assert(a@.contains(ModifierKey::LeftControl) == b@.contains(ModifierKey::LeftControl));
        assert(a@.contains(ModifierKey::RightControl) == b@.contains(ModifierKey::RightControl));
        assert(a@.contains(ModifierKey::LeftOption) == b@.contains(ModifierKey::LeftOption));
        assert(a@.contains(ModifierKey::RightOption) == b@.contains(ModifierKey::RightOption));
        assert(a@.contains(ModifierKey::LeftCommand) == b@.contains(ModifierKey::LeftCommand));
        assert(a@.contains(ModifierKey::RightCommand) == b@.contains(ModifierKey::RightCommand));
    }
}

/// The modifiers currently held down, as the event interceptor tracks them.
/// The tracker starts empty at process start: modifiers already held before
/// that are unseen until released and pressed again.
#[derive(Clone, Copy, Debug, PartialEq, Eq, Structural)]
pub struct HeldModifiers {
    held: ModifierSet,
}

impl View for HeldModifiers {
    type V = Set<ModifierKey>;

    closed spec fn view(&self) -> Set<ModifierKey> {
        self.held@
    }
}

impl HeldModifiers {
    /// The tracker at process start: nothing held.
    pub fn new() -> (r: HeldModifiers)
        ensures
            r@ == Set::<ModifierKey>::empty(),
    {
        HeldModifiers { held: ModifierSet::empty() }
    }

    /// Record that `m` went down.  Pressing a modifier already held leaves
    /// the tracker unchanged.
    pub fn on_press(&mut self, m: ModifierKey)
        ensures
            final (self)@ == old(self)@.insert(m),
    {
        self.held.insert(m);
    }

    /// Record that `m` went up.  Releasing a modifier not held leaves the
    /// tracker unchanged.
    pub fn on_release(&mut self, m: ModifierKey)
        ensures
            final (self)@ == old(self)@.remove(m),
    {
        self.held.remove(m);
    }

    /// The modifiers held right now, as a lookup key.
    pub fn snapshot(&self) -> (r: ModifierSet)
        ensures
            r@ == self@,
    {
        self.held
    }
}

/// Pressing the same modifier twice without releasing it leaves the held set
/// exactly as after the first press.
pub proof fn lemma_press_idempotent(held: Set<ModifierKey>, m: ModifierKey)
    ensures
        held.insert(m).insert(m) == held.insert(m),
{
    assert(held.insert(m).insert(m) =~= held.insert(m));
}

} // verus!
