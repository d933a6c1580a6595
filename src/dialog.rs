//! State of the form for adding a network, and the messages it sends.
use vstd::prelude::*;

verus! {

/// An edit made in the add-network form.
#[derive(Debug, Clone)]
pub enum AddNetworkMessage {
    SsidChanged(String),
    PasswordChanged(String),
    SecurityChanged(String),
    Submit,
    Cancel,
}

/// What the add-network form holds: the fields typed so far and whether the
/// form is shown.
#[derive(Debug, Clone)]
pub struct AddNetworkState {
    pub ssid: String,
    pub password: String,
    pub security: String,
    pub visible: bool,
}

/// The security class the form starts with.
pub open spec fn default_security() -> Seq<char> {
    "WPA/WPA2"@
}

impl AddNetworkState {
    /// A hidden form with empty fields and the default security class.
    pub fn new() -> (r: Self)
        ensures
            r.ssid@.len() == 0,
            r.password@.len() == 0,
            r.security@ == default_security(),
            !r.visible,
    {
        AddNetworkState {
            ssid: String::new(),
            password: String::new(),
            security: "WPA/WPA2".to_owned(),
            visible: false,
        }
    }

    /// Shows the form, cleared and set back to the default security class.
    pub fn show(&mut self)
        ensures
            final(self).visible,
            final(self).ssid@.len() == 0,
            final(self).password@.len() == 0,
            final(self).security@ == default_security(),
    {
        self.visible = true;
        self.ssid = String::new();
        self.password = String::new();
        self.security = "WPA/WPA2".to_owned();
    }

    /// Hides the form; what was typed stays.
    pub fn close(&mut self)
        ensures
            !final(self).visible,
            final(self).ssid == old(self).ssid,
            final(self).password == old(self).password,
            final(self).security == old(self).security,
    {
        self.visible = false;
    }
}

} // verus!
