//! The key combination that shows and hides the main window.

use vstd::prelude::*;
use vstd::string::*;

verus! {

/// A global shortcut: the label it is shown under, the modifier keys and the
/// key.
#[derive(Clone, Debug)]
pub struct ShortcutConfig {
    pub toggle_visibility: String,
    pub modifiers: Vec<String>,
    pub key: String,
}

impl ShortcutConfig {
    /// `self` is the shortcut the program starts with: all four modifiers
    /// and the letter P.
    pub open spec fn is_hyperkey_p(&self) -> bool {
        &&& self.toggle_visibility@ == "Hyperkey+P"@
        &&& self.modifiers@.len() == 4
        &&& self.modifiers@[0]@ == "Super"@
        &&& self.modifiers@[1]@ == "Control"@
        &&& self.modifiers@[2]@ == "Alt"@
        &&& self.modifiers@[3]@ == "Shift"@
        &&& self.key@ == "P"@
    }

    /// The shortcut the program starts with.
    pub fn hyperkey_p() -> (shortcut: ShortcutConfig)
        ensures
            shortcut.is_hyperkey_p(),
    {
        let mut modifiers: Vec<String> = Vec::new();
        modifiers.push(String::from_str("Super"));
        modifiers.push(String::from_str("Control"));
        modifiers.push(String::from_str("Alt"));
        modifiers.push(String::from_str("Shift"));
        ShortcutConfig {
            toggle_visibility: String::from_str("Hyperkey+P"),
            modifiers,
            key: String::from_str("P"),
        }
    }
}

} // verus!
