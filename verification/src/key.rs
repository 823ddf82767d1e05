//! Keys and key presses.

use vstd::prelude::*;
use crate::handle::WeakView;
use crate::time::{Instant, MAX_NANOS};

verus! {

/// The modifier keys held with a key.
#[derive(Clone, Copy, Debug, PartialEq, Eq, Structural)]
pub enum ModifierFlag {
    Shift,
    Control,
    Alternate,
    Command,
    CapsLock,
    NumericPad,
}

/// A key: its key code (SDL's numbering) and the modifiers held with it.
#[derive(Debug)]
pub struct Key {
    pub key_code: i32,
    pub modifier_flags: Vec<ModifierFlag>,
}

fn copy_flags(v: &Vec<ModifierFlag>) -> (r: Vec<ModifierFlag>)
    ensures
        r@ == v@,
{
    let mut r: Vec<ModifierFlag> = Vec::new();
    let mut i: usize = 0;
    while i < v.len()
        invariant
            i <= v.len(),
            r@ == v@.take(i as int),
        decreases v.len() - i,
    {
        r.push(v[i]);
        assert(v@.take(i + 1) =~= v@.take(i as int).push(v@[i as int]));
        i = i + 1;
    }
    assert(v@.take(v.len() as int) =~= v@);
    r
}

impl Key {
    pub fn new(key_code: i32, modifier_flags: Vec<ModifierFlag>) -> (k: Key)
        ensures
            k.key_code == key_code,
            k.modifier_flags@ == modifier_flags@,
    {
        Key { key_code, modifier_flags }
    }

    pub fn key_code(&self) -> (c: i32)
        ensures
            c == self.key_code,
    {
        self.key_code
    }

    pub fn modifier_flags(&self) -> (f: &Vec<ModifierFlag>)
        ensures
            f@ == self.modifier_flags@,
    {
        &self.modifier_flags
    }

    /// Two keys are the same key when their codes and their modifiers, in
    /// order, agree.
    pub open spec fn same(self, other: Key) -> bool {
        self.key_code == other.key_code && self.modifier_flags@ == other.modifier_flags@
    }

    pub fn same_as(&self, other: &Key) -> (b: bool)
        ensures
            b == self.same(*other),
    {
        if self.key_code != other.key_code || self.modifier_flags.len()
            != other.modifier_flags.len() {
            return false;
        }
        let mut i: usize = 0;
        while i < self.modifier_flags.len()
            invariant
                self.modifier_flags@.len() == other.modifier_flags@.len(),
                i <= self.modifier_flags@.len(),
                forall|j: int| 0 <= j < i ==> self.modifier_flags@[j] == other.modifier_flags@[j],
            decreases self.modifier_flags.len() - i,
        {
            if self.modifier_flags[i] != other.modifier_flags[i] {
                return false;
            }
            i = i + 1;
        }
        assert(self.modifier_flags@ =~= other.modifier_flags@);
        true
    }

    /// A key with the same code and modifiers.
    pub fn duplicate(&self) -> (k: Key)
        ensures
            k.same(*self),
    {
        Key { key_code: self.key_code, modifier_flags: copy_flags(&self.modifier_flags) }
    }
}

impl Clone for Key {
    fn clone(&self) -> (k: Self)
        ensures
            k.same(*self),
    {
        self.duplicate()
    }
}

impl PartialEq for Key {
    fn eq(&self, other: &Self) -> (r: bool) {
        self.same_as(other)
    }
}

impl vstd::std_specs::cmp::PartialEqSpecImpl for Key {
    open spec fn obeys_eq_spec() -> bool {
        true
    }

    open spec fn eq_spec(&self, other: &Self) -> bool {
        self.same(*other)
    }
}

/// Whether a key is down.
#[derive(Clone, Copy, Debug, PartialEq, Eq, Structural)]
pub enum PressPhase {
    Began,
    Ended,
}

/// A key going down or up, and the view it goes to.
#[derive(Debug)]
pub struct Press {
    pub key: Key,
    pub phase: PressPhase,
    pub timestamp: Instant,
    pub first_responder: WeakView,
}

impl Press {
    /// A key that went down now, going to no view yet.
    pub fn new(key: Key) -> (p: Press)
        ensures
            p.key == key,
            p.phase == PressPhase::Began,
            p.first_responder.target.is_none(),
            p.timestamp.nanos <= MAX_NANOS,
    {
        Press { key, phase: PressPhase::Began, timestamp: Instant::now(), first_responder: WeakView::none() }
    }

    pub fn key(&self) -> (k: &Key)
        ensures
            *k == self.key,
    {
        &self.key
    }

    pub fn phase(&self) -> (p: PressPhase)
        ensures
            p == self.phase,
    {
        self.phase
    }

    pub fn timestamp(&self) -> (t: Instant)
        ensures
            t == self.timestamp,
    {
        self.timestamp
    }

    pub fn first_responder(&self) -> (w: WeakView)
        ensures
            w == self.first_responder,
    {
        self.first_responder
    }

    pub fn set_first_responder(&mut self, first_responder: WeakView)
        ensures
            final(self).first_responder == first_responder,
            final(self).key == old(self).key,
            final(self).phase == old(self).phase,
            final(self).timestamp == old(self).timestamp,
    {
        self.first_responder = first_responder;
    }
}

impl PartialEq for Press {
    fn eq(&self, other: &Self) -> (r: bool) {
        self.key.same_as(&other.key)
    }
}

impl vstd::std_specs::cmp::PartialEqSpecImpl for Press {
    open spec fn obeys_eq_spec() -> bool {
        true
    }

    /// Presses of the same key are equal.
    open spec fn eq_spec(&self, other: &Self) -> bool {
        self.key.same(other.key)
    }
}

} // verus!
