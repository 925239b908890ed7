use vstd::prelude::*;
use crate::text::push_str;

verus! {

broadcast use vstd::string::group_string_axioms;

/// The user's preferences, stored encrypted in the vault.
#[derive(Debug, Clone)]
pub struct Settings {
    pub theme: String,
    pub launch_at_startup: bool,
    pub minimize_to_tray: bool,
    pub auto_lock_secs: u64,
    pub show_password_default: bool,
    pub clear_clipboard_secs: u64,
    pub lock_on_blur: bool,
    pub expiry_days: u64,
    /// When true (the default) the window blocks screenshots and screen
    /// recording.
    pub screenshot_protection: bool,
}

impl Settings {
    /// The value of `screenshot_protection` when a stored settings record
    /// lacks it.
    pub fn default_screenshot_protection() -> (r: bool)
        ensures
            r,
    {
        true
    }

    /// The default settings.
    pub open spec fn is_default(&self) -> bool {
        &&& self.theme@ == "dark"@
        &&& self.launch_at_startup
        &&& self.minimize_to_tray
        &&& self.auto_lock_secs == 300
        &&& !self.show_password_default
        &&& self.clear_clipboard_secs == 30
        &&& !self.lock_on_blur
        &&& self.expiry_days == 90
        &&& self.screenshot_protection
    }
}

impl Default for Settings {
    fn default() -> (s: Self)
        ensures
            s.is_default(),
    {
        let mut theme = String::new();
        push_str(&mut theme, "dark");
        Settings {
            theme,
            launch_at_startup: true,
            minimize_to_tray: true,
            auto_lock_secs: 300,
            show_password_default: false,
            clear_clipboard_secs: 30,
            lock_on_blur: false,
            expiry_days: 90,
            screenshot_protection: true,
        }
    }
}

} // verus!
