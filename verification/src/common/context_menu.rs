//! The items of a context menu.

use vstd::prelude::*;

verus! {

/// A context menu item: its label, the action it sends, whether it is
/// disabled, and whether a separator follows it.
#[derive(Debug, Clone)]
pub struct MenuItem {
    pub label: String,
    pub action: String,
    pub disabled: bool,
    pub separator_after: bool,
}

impl MenuItem {
    /// An enabled item with no separator after it.
    pub fn new(label: &str, action: &str) -> (r: Self)
        ensures
            r.label@ == label@,
            r.action@ == action@,
            !r.disabled,
            !r.separator_after,
    {
        Self { label: label.to_string(), action: action.to_string(), disabled: false, separator_after: false }
    }

    /// The item with a separator after it.
    pub fn with_separator(self) -> (r: Self)
        ensures
            r.separator_after,
            r.label == self.label,
            r.action == self.action,
            r.disabled == self.disabled,
    {
        let mut s = self;
        s.separator_after = true;
        s
    }

    /// The item, disabled or not.
    pub fn disabled(self, disabled: bool) -> (r: Self)
        ensures
            r.disabled == disabled,
            r.label == self.label,
            r.action == self.action,
            r.separator_after == self.separator_after,
    {
        let mut s = self;
        s.disabled = disabled;
        s
    }
}

} // verus!
