//! The stored network profile.
use vstd::prelude::*;

verus! {

/// One stored Wi-Fi network: its SSID, its security class as shown to the
/// user (`"WPA/WPA2"`, `"WPA3"`, `"Open"` or `"Unknown"`) and the pre-shared
/// key, when the profile holds one.
#[derive(Debug, Clone)]
pub struct Network {
    pub ssid: String,
    pub security: String,
    pub password: Option<String>,
}

/// The password as plain characters, if any.
pub open spec fn password_view(p: Option<String>) -> Option<Seq<char>> {
    match p {
        Some(s) => Some(s@),
        None => None,
    }
}

impl Network {
    pub fn new(ssid: String, security: String, password: Option<String>) -> (r: Self)
        ensures
            r.ssid@ == ssid@,
            r.security@ == security@,
            password_view(r.password) == password_view(password),
    {
        Network { ssid, security, password }
    }

    /// What the user sees in place of the password: a row of dots when a
    /// non-empty password is stored, `N/A` otherwise.
    pub fn password_display(&self) -> (r: String)
        ensures
            r@ == (match self.password {
                Some(p) => if p@.len() > 0 { "••••••••"@ } else { "N/A"@ },
                None => "N/A"@,
            }),
    {
        match &self.password {
            Some(p) => {
                if !p.as_str().is_empty() {
                    "••••••••".to_owned()
                } else {
                    "N/A".to_owned()
                }
            },
            None => "N/A".to_owned(),
        }
    }
}

} // verus!
