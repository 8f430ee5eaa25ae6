//! Keyboard shortcuts: key bindings, matched without regard to the key's
//! case, and a registry of bindings by id.

use vstd::prelude::*;
use crate::common::events::KeyboardEvent;
use crate::text::{spec_to_lowercase, str_eq, to_lowercase};

verus! {

broadcast use vstd::string::group_string_axioms;

/// A key together with the modifiers that must be held with it.
#[derive(Debug, Clone, PartialEq, Eq, Hash)]
pub struct KeyBinding {
    pub key: String,
    pub ctrl: bool,
    pub shift: bool,
    pub alt: bool,
    /// Cmd on macOS, the Windows key elsewhere.
    pub meta: bool,
}

/// Whether an event triggers a binding: the same key, ignoring case, and
/// exactly the binding's modifiers.
pub open spec fn binding_matches(b: KeyBinding, e: KeyboardEvent) -> bool {
    &&& spec_to_lowercase(b.key@) == spec_to_lowercase(e.key@)
    &&& b.ctrl == e.ctrl_key
    &&& b.shift == e.shift_key
    &&& b.alt == e.alt_key
    &&& b.meta == e.meta_key
}

impl KeyBinding {
    /// The key alone, with no modifier.
    pub fn new(key: &str) -> (r: Self)
        ensures
            r.key@ == key@,
            !r.ctrl && !r.shift && !r.alt && !r.meta,
    {
        Self { key: key.to_string(), ctrl: false, shift: false, alt: false, meta: false }
    }

    /// The same binding, with Ctrl.
    pub fn with_ctrl(self) -> (r: Self)
        ensures
            r == (Self { ctrl: true, ..self }),
    {
        let mut s = self;
        s.ctrl = true;
        s
    }

    /// The same binding, with Shift.
    pub fn with_shift(self) -> (r: Self)
        ensures
            r == (Self { shift: true, ..self }),
    {
        let mut s = self;
        s.shift = true;
        s
    }

    /// The same binding, with Alt.
    pub fn with_alt(self) -> (r: Self)
        ensures
            r == (Self { alt: true, ..self }),
    {
        let mut s = self;
        s.alt = true;
        s
    }

    /// The same binding, with Meta.
    pub fn with_meta(self) -> (r: Self)
        ensures
            r == (Self { meta: true, ..self }),
    {
        let mut s = self;
        s.meta = true;
        s
    }

    /// Whether an event triggers this binding.
    pub fn matches(&self, event: &KeyboardEvent) -> (r: bool)
        ensures
            r == binding_matches(*self, *event),
    {
        let a = to_lowercase(self.key.as_str());
        let b = to_lowercase(event.key.as_str());
        str_eq(a.as_str(), b.as_str()) && self.ctrl == event.ctrl_key && self.shift == event.shift_key
            && self.alt == event.alt_key && self.meta == event.meta_key
    }

    /// The key with the platform's command modifier: Meta (Cmd) on macOS,
    /// Ctrl elsewhere.
    pub fn platform_modifier(key: &str, macos: bool) -> (r: Self)
        ensures
            r.key@ == key@,
            r.meta == macos,
            r.ctrl == !macos,
            !r.shift && !r.alt,
    {
        if macos {
            Self::new(key).with_meta()
        } else {
            Self::new(key).with_ctrl()
        }
    }
}

/// The position of `id` among `ids`, if it is there.
pub open spec fn id_index(ids: Seq<Seq<char>>, id: Seq<char>) -> Option<int> {
    if exists|i: int| 0 <= i < ids.len() && ids[i] == id {
        Some(choose|i: int| 0 <= i < ids.len() && ids[i] == id)
    } else {
        None
    }
}

/// The registered shortcuts: bindings by id, each id once, in the order
/// they were first registered.
pub struct KeyboardShortcuts {
    bindings: Vec<(String, KeyBinding)>,
}

impl KeyboardShortcuts {
    /// The ids, in order.
    pub closed spec fn spec_ids(&self) -> Seq<Seq<char>> {
        self.bindings@.map_values(|p: (String, KeyBinding)| p.0@)
    }

    /// The binding of each id, in the same order.
    pub closed spec fn spec_bindings(&self) -> Seq<KeyBinding> {
        self.bindings@.map_values(|p: (String, KeyBinding)| p.1)
    }

    /// Each id is registered once, with one binding.
    pub open spec fn wf(&self) -> bool {
        &&& self.spec_ids().no_duplicates()
        &&& self.spec_ids().len() == self.spec_bindings().len()
    }

    /// No shortcut.
    pub fn new() -> (r: Self)
        ensures
            r.wf(),
            r.spec_ids() == Seq::<Seq<char>>::empty(),
    {
        let r = Self { bindings: Vec::new() };
        assert(r.spec_ids() =~= Seq::<Seq<char>>::empty());
        assert(r.spec_bindings() =~= Seq::<KeyBinding>::empty());
        r
    }

    fn find(&self, id: &str) -> (r: Option<usize>)
        requires
            self.wf(),
        ensures
            match r {
                Some(i) => i < self.spec_ids().len() && self.spec_ids()[i as int] == id@,
                None => !self.spec_ids().contains(id@),
            },
    {
        let mut i: usize = 0;
        while i < self.bindings.len()
            invariant
                i <= self.bindings@.len(),
                self.spec_ids().len() == self.bindings@.len(),
                forall|j: int| 0 <= j < i ==> self.spec_ids()[j] != id@,
            decreases self.bindings@.len() - i,
        {
            if str_eq(self.bindings[i].0.as_str(), id) {
                return Some(i);
            }
            i += 1;
        }
        None
    }

    /// Registers `binding` under `id`, replacing the binding already
    /// registered under it.
    pub fn register(&mut self, id: &str, binding: KeyBinding)
        requires
            old(self).wf(),
        ensures
            final(self).wf(),
            match id_index(old(self).spec_ids(), id@) {
                Some(i) => final(self).spec_ids() == old(self).spec_ids()
                    && final(self).spec_bindings() == old(self).spec_bindings().update(i, binding),
                None => final(self).spec_ids() == old(self).spec_ids().push(id@)
                    && final(self).spec_bindings() == old(self).spec_bindings().push(binding),
            },
    {
        let ghost ids0 = self.spec_ids();
        let ghost bs0 = self.spec_bindings();
        match self.find(id) {
            Some(i) => {
                proof {
                    assert(ids0.no_duplicates());
                    assert(id_index(ids0, id@) == Some(i as int));
                }
                self.bindings.set(i, (id.to_string(), binding));
                assert(self.spec_ids() =~= ids0);
                assert(self.spec_bindings() =~= bs0.update(i as int, binding));
            },
            None => {
                self.bindings.push((id.to_string(), binding));
                assert(self.spec_ids() =~= ids0.push(id@));
                assert(self.spec_bindings() =~= bs0.push(binding));
                assert(self.spec_ids().no_duplicates()) by {
                    assert forall|a: int, b: int| 0 <= a < b < self.spec_ids().len() implies self.spec_ids()[a] != self.spec_ids()[b] by {
                        if b == self.spec_ids().len() - 1 {
                            assert(ids0.contains(ids0[a]));
                        }
                    }
                }
            },
        }
    }

    /// Removes the binding registered under `id`, if any.
    pub fn unregister(&mut self, id: &str)
        requires
            old(self).wf(),
        ensures
            final(self).wf(),
            match id_index(old(self).spec_ids(), id@) {
                Some(i) => final(self).spec_ids() == old(self).spec_ids().remove(i)
                    && final(self).spec_bindings() == old(self).spec_bindings().remove(i),
                None => final(self).spec_ids() == old(self).spec_ids()
                    && final(self).spec_bindings() == old(self).spec_bindings(),
            },
    {
        let ghost ids0 = self.spec_ids();
        let ghost bs0 = self.spec_bindings();
        match self.find(id) {
            Some(i) => {
                proof {
                    assert(id_index(ids0, id@) == Some(i as int));
                }
                let _ = self.bindings.remove(i);
                assert(self.spec_ids() =~= ids0.remove(i as int));
                assert(self.spec_bindings() =~= bs0.remove(i as int));
                assert(self.spec_ids().no_duplicates()) by {
                    assert forall|a: int, b: int| 0 <= a < b < self.spec_ids().len() implies self.spec_ids()[a] != self.spec_ids()[b] by {
                        let a0 = if a < i { a } else { a + 1 };
                        let b0 = if b < i { b } else { b + 1 };
                        assert(self.spec_ids()[a] == ids0[a0]);
                        assert(self.spec_ids()[b] == ids0[b0]);
                    }
                }
            },
            None => {},
        }
    }

    /// The number of registered shortcuts.
    pub fn count(&self) -> (r: usize)
        requires
            self.wf(),
        ensures
            r == self.spec_ids().len(),
    {
        self.bindings.len()
    }

    /// The id of the first registered binding that the event triggers, if
    /// any.
    pub fn find_match(&self, event: &KeyboardEvent) -> (r: Option<String>)
        requires
            self.wf(),
        ensures
            match r {
                Some(id) => exists|i: int| 0 <= i < self.spec_ids().len() && self.spec_ids()[i] == id@
                    && binding_matches(self.spec_bindings()[i], *event)
                    && forall|j: int| 0 <= j < i ==> !binding_matches(#[trigger] self.spec_bindings()[j], *event),
                None => forall|j: int| 0 <= j < self.spec_bindings().len() ==> !binding_matches(#[trigger] self.spec_bindings()[j], *event),
            },
    {
        let mut i: usize = 0;
        while i < self.bindings.len()
            invariant
                i <= self.bindings@.len(),
                self.spec_ids().len() == self.bindings@.len(),
                self.spec_bindings().len() == self.bindings@.len(),
                forall|j: int| 0 <= j < i ==> !binding_matches(#[trigger] self.spec_bindings()[j], *event),
            decreases self.bindings@.len() - i,
        {
            if self.bindings[i].1.matches(event) {
                let id = self.bindings[i].0.clone();
                assert(self.spec_ids()[i as int] == id@);
                return Some(id);
            }
            i += 1;
        }
        None
    }
}

} // verus!
