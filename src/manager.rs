//! The application's state and how each message changes it. Every change
//! that needs outside work hands back an [`Effect`] for the caller to
//! perform; its outcome comes back as another message.
use vstd::prelude::*;
use crate::chars::{chars_of, extend_chars, extend_str, string_of};
use crate::dialog::{default_security, AddNetworkMessage, AddNetworkState};
use crate::messages::{
    command_of, Message, NetworkListMessage, OutputMessage, ToolbarMessage,
};
use crate::network::Network;
use crate::writer::{decimal, decimal_chars};

verus! {

/// Outside work requested by a state change.
#[derive(Debug, Clone)]
pub enum Effect {
    /// Nothing to do.
    Nothing,
    /// Run a script command, elevated or not; its report comes back as
    /// `CommandComplete`.
    RunScript { command: String, elevated: bool },
    /// Put the text on the clipboard.
    CopyToClipboard(String),
    /// Write a new profile; the outcome comes back as `NetworkCreated`.
    CreateNetwork { ssid: String, password: String, security: String },
    /// Run the non-elevated local sync after a profile was created.
    SyncAfterCreate,
    /// Reload the profiles and recheck the sync status after a command;
    /// the profiles come back as `NetworksLoaded`.
    ReloadAfterCommand,
    /// Check the sync status; it comes back as `SyncStatusChecked`.
    CheckSync,
    /// Reload the profiles; they come back as `NetworksLoaded`.
    LoadNetworks,
}

/// The application's state, without the location of its data directory.
pub struct WifiManager {
    pub networks: Vec<Network>,
    pub terminal_output: String,
    pub is_synced: bool,
    pub network_count: usize,
    pub is_loading: bool,
    pub search_query: String,
    pub show_passwords: Vec<bool>,
    pub add_network_state: AddNetworkState,
}

/// `flags` after a toggle of entry `idx`: grown with `false` entries until
/// `idx` exists, then that entry flipped.
pub open spec fn toggled(flags: Seq<bool>, idx: int) -> Seq<bool> {
    let grown = if idx < flags.len() {
        flags
    } else {
        flags + Seq::new((idx + 1 - flags.len()) as nat, |i: int| false)
    };
    grown.update(idx, !grown[idx])
}

/// The status line: loading, synced or not, with the profile count.
pub open spec fn status_line(loading: bool, synced: bool, count: usize) -> Seq<char> {
    if loading {
        "⏳ Loading..."@
    } else if synced {
        "✓ Synced ("@ + decimal(count as nat) + " networks)"@
    } else {
        "⚠ Not synced ("@ + decimal(count as nat) + " networks)"@
    }
}

/// `flags` with entry `idx` flipped, grown with `false` entries first
/// when needed.
fn toggled_flags(flags: &Vec<bool>, idx: usize) -> (r: Vec<bool>)
    requires
        idx < usize::MAX,
    ensures
        r@ == toggled(flags@, idx as int),
{
    let ghost start = flags@;
    let mut out: Vec<bool> = Vec::new();
    let mut i: usize = 0;
    while i < flags.len()
        invariant
            i <= start.len(),
            start == flags@,
            out@ == start.subrange(0, i as int),
        decreases start.len() - i,
    {
        out.push(flags[i]);
        i = i + 1;
        assert(out@ =~= start.subrange(0, i as int));
    }
    assert(out@ =~= start);
    while out.len() <= idx
        invariant
            idx < usize::MAX,
            start.len() <= out@.len() <= if idx < start.len() {
                start.len() as int
            } else {
                idx + 1
            },
            out@ == start + Seq::new((out@.len() - start.len()) as nat, |i: int| false),
        decreases idx + 1 - out@.len(),
    {
        out.push(false);
        assert(out@ =~= start + Seq::new((out@.len() - start.len()) as nat, |i: int| false));
    }
    assert(idx >= start.len() ==> out@.len() == idx + 1);
    assert(idx < start.len() ==> out@ =~= start);
    let flag = out[idx];
    out.remove(idx);
    out.insert(idx, !flag);
    assert(out@ =~= toggled(start, idx as int));
    out
}

/// A field of the application state.
pub enum ManagerField {
    Networks,
    TerminalOutput,
    IsSynced,
    NetworkCount,
    IsLoading,
    SearchQuery,
    PasswordFlags,
    AddNetworkForm,
}

/// `b` equals `a` in every field outside `changed`.
pub open spec fn keeps_fields(a: WifiManager, b: WifiManager, changed: Set<ManagerField>) -> bool {
    &&& !changed.contains(ManagerField::Networks) ==> b.networks == a.networks
    &&& !changed.contains(ManagerField::TerminalOutput) ==> b.terminal_output == a.terminal_output
    &&& !changed.contains(ManagerField::IsSynced) ==> b.is_synced == a.is_synced
    &&& !changed.contains(ManagerField::NetworkCount) ==> b.network_count == a.network_count
    &&& !changed.contains(ManagerField::IsLoading) ==> b.is_loading == a.is_loading
    &&& !changed.contains(ManagerField::SearchQuery) ==> b.search_query == a.search_query
    &&& !changed.contains(ManagerField::PasswordFlags) ==> b.show_passwords == a.show_passwords
    &&& !changed.contains(ManagerField::AddNetworkForm) ==> b.add_network_state
        == a.add_network_state
}

/// In the add-network form, `b` equals `a` but for the fields the
/// message edits.
pub open spec fn form_keeps(a: AddNetworkState, b: AddNetworkState, ssid: bool, password: bool, security: bool, visible: bool) -> bool {
    &&& !ssid ==> b.ssid == a.ssid
    &&& !password ==> b.password == a.password
    &&& !security ==> b.security == a.security
    &&& !visible ==> b.visible == a.visible
}

impl WifiManager {
    /// The state at start-up: no profiles yet, loading.
    pub fn new() -> (r: Self)
        ensures
            r.networks@.len() == 0,
            r.terminal_output@.len() == 0,
            !r.is_synced,
            r.network_count == 0,
            r.is_loading,
            r.search_query@.len() == 0,
            r.show_passwords@.len() == 0,
            !r.add_network_state.visible,
            r.add_network_state.security@ == default_security(),
    {
        WifiManager {
            networks: Vec::new(),
            terminal_output: String::new(),
            is_synced: false,
            network_count: 0,
            is_loading: true,
            search_query: String::new(),
            show_passwords: Vec::new(),
            add_network_state: AddNetworkState::new(),
        }
    }

    fn append_output(&mut self, parts: &Vec<char>)
        ensures
            final(self).terminal_output@ == old(self).terminal_output@ + parts@,
            keeps_fields(*old(self), *final(self), set![ManagerField::TerminalOutput]),
    {
        let mut all = chars_of(self.terminal_output.as_str());
        extend_chars(&mut all, parts);
        self.terminal_output = string_of(&all);
    }

    /// Flips whether the password of entry `idx` is shown.
    pub fn toggle_password(&mut self, idx: usize)
        requires
            idx < usize::MAX,
        ensures
            final(self).show_passwords@ == toggled(old(self).show_passwords@, idx as int),
            keeps_fields(*old(self), *final(self), set![ManagerField::PasswordFlags]),
    {
        let flags = toggled_flags(&self.show_passwords, idx);
        self.show_passwords = flags;
    }

    /// The status line shown above the toolbar.
    pub fn status_text(&self) -> (r: String)
        ensures
            r@ == status_line(self.is_loading, self.is_synced, self.network_count),
    {
        if self.is_loading {
            return "⏳ Loading...".to_owned();
        }
        let mut out: Vec<char> = if self.is_synced {
            chars_of("✓ Synced (")
        } else {
            chars_of("⚠ Not synced (")
        };
        let digits = decimal_chars(self.network_count as u128);
        extend_chars(&mut out, &digits);
        extend_str(&mut out, " networks)");
        string_of(&out)
    }

    /// Applies one message to the state and says what outside work follows.
    pub fn update(&mut self, message: Message) -> (r: Effect)
        requires
            message matches Message::NetworkList(NetworkListMessage::TogglePassword(i)) ==> i
                < usize::MAX,
        ensures
            match message {
                Message::Toolbar(t) => final(self).is_loading && (match r {
                    Effect::RunScript { command, elevated } => command@ == command_of(t)
                        && elevated == (t == ToolbarMessage::Install || t == ToolbarMessage::Backup),
                    _ => false,
                }) && keeps_fields(*old(self), *final(self), set![ManagerField::IsLoading]),
                Message::Output(OutputMessage::Copy) => (match r {
                    Effect::CopyToClipboard(s) => s@ == old(self).terminal_output@,
                    _ => false,
                }) && keeps_fields(*old(self), *final(self), set![]),
                Message::Output(OutputMessage::Clear) => r is Nothing
                    && final(self).terminal_output@.len() == 0 && keeps_fields(*old(self), *final(self), set![ManagerField::TerminalOutput]),
                Message::NetworkList(NetworkListMessage::SearchChanged(q)) => r is Nothing
                    && final(self).search_query@ == q@ && keeps_fields(*old(self), *final(self), set![ManagerField::SearchQuery]),
                Message::NetworkList(NetworkListMessage::AddNetwork) => r is Nothing
                    && final(self).add_network_state.visible
                    && final(self).add_network_state.ssid@.len() == 0
                    && final(self).add_network_state.password@.len() == 0
                    && final(self).add_network_state.security@ == default_security()
                    && keeps_fields(*old(self), *final(self), set![ManagerField::AddNetworkForm]),
                Message::NetworkList(NetworkListMessage::TogglePassword(i)) => r is Nothing
                    && final(self).show_passwords@ == toggled(old(self).show_passwords@, i as int)
                    && keeps_fields(*old(self), *final(self), set![ManagerField::PasswordFlags]),
                Message::AddNetwork(AddNetworkMessage::SsidChanged(s)) => r is Nothing
                    && final(self).add_network_state.ssid@ == s@ && keeps_fields(*old(self), *final(self), set![ManagerField::AddNetworkForm])
                    && form_keeps(old(self).add_network_state, final(self).add_network_state, true, false, false, false),
                Message::AddNetwork(AddNetworkMessage::PasswordChanged(p)) => r is Nothing
                    && final(self).add_network_state.password@ == p@ && keeps_fields(*old(self), *final(self), set![ManagerField::AddNetworkForm])
                    && form_keeps(old(self).add_network_state, final(self).add_network_state, false, true, false, false),
                Message::AddNetwork(AddNetworkMessage::SecurityChanged(s)) => r is Nothing
                    && final(self).add_network_state.security@ == s@ && keeps_fields(*old(self), *final(self), set![ManagerField::AddNetworkForm])
                    && form_keeps(old(self).add_network_state, final(self).add_network_state, false, false, true, false),
                Message::AddNetwork(AddNetworkMessage::Cancel) => r is Nothing
                    && !final(self).add_network_state.visible && keeps_fields(*old(self), *final(self), set![ManagerField::AddNetworkForm])
                    && form_keeps(old(self).add_network_state, final(self).add_network_state, false, false, false, true),
                Message::AddNetwork(AddNetworkMessage::Submit) => !final(self).add_network_state.visible && final(self).is_loading && (match r {
                    Effect::CreateNetwork { ssid, password, security } => ssid@ == old(self).add_network_state.ssid@ && password@ == old(self).add_network_state.password@
                        && security@ == old(self).add_network_state.security@,
                    _ => false,
                }) && keeps_fields(*old(self), *final(self), set![ManagerField::AddNetworkForm, ManagerField::IsLoading]) && form_keeps(old(self).add_network_state, final(self).add_network_state, false, false, false, true),
                Message::NetworkCreated(Ok(())) => r is SyncAfterCreate && final(self).is_loading
                    && final(self).terminal_output@ == old(self).terminal_output@
                    + "[INFO] Network created successfully\n"@ && keeps_fields(*old(self), *final(self), set![ManagerField::TerminalOutput, ManagerField::IsLoading]),
                Message::NetworkCreated(Err(e)) => r is Nothing && !final(self).is_loading
                    && final(self).terminal_output@ == old(self).terminal_output@ + "[ERROR] "@ + e@
                    + "\n"@ && keeps_fields(*old(self), *final(self), set![ManagerField::TerminalOutput, ManagerField::IsLoading]),
                Message::CommandComplete(out) => r is ReloadAfterCommand && !final(self).is_loading
                    && final(self).terminal_output@ == old(self).terminal_output@ + out@ + "\n"@
                    && keeps_fields(*old(self), *final(self), set![ManagerField::TerminalOutput, ManagerField::IsLoading]),
                Message::NetworksLoaded(ns) => r is CheckSync && !final(self).is_loading
                    && final(self).networks == ns && final(self).show_passwords@ == Seq::new(
                    ns@.len(),
                    |i: int| false,
                ) && keeps_fields(*old(self), *final(self), set![ManagerField::Networks, ManagerField::PasswordFlags, ManagerField::IsLoading]),
                Message::SyncStatusChecked(synced, count) => r is Nothing && final(self).is_synced
                    == synced && final(self).network_count == count && keeps_fields(*old(self), *final(self), set![ManagerField::IsSynced, ManagerField::NetworkCount]),
                Message::Refresh => r is LoadNetworks && keeps_fields(*old(self), *final(self), set![]),
            },
    {
        match message {
            Message::Toolbar(t) => {
                self.is_loading = true;
                Effect::RunScript { command: t.command().to_owned(), elevated: t.needs_elevation() }
            },
            Message::Output(OutputMessage::Copy) => Effect::CopyToClipboard(
                self.terminal_output.clone(),
            ),
            Message::Output(OutputMessage::Clear) => {
                self.terminal_output = String::new();
                Effect::Nothing
            },
            Message::NetworkList(NetworkListMessage::SearchChanged(q)) => {
                self.search_query = q;
                Effect::Nothing
            },
            Message::NetworkList(NetworkListMessage::AddNetwork) => {
                self.add_network_state.show();
                Effect::Nothing
            },
            Message::NetworkList(NetworkListMessage::TogglePassword(i)) => {
                self.toggle_password(i);
                Effect::Nothing
            },
            Message::AddNetwork(AddNetworkMessage::SsidChanged(s)) => {
                self.add_network_state.ssid = s;
                Effect::Nothing
            },
            Message::AddNetwork(AddNetworkMessage::PasswordChanged(p)) => {
                self.add_network_state.password = p;
                Effect::Nothing
            },
            Message::AddNetwork(AddNetworkMessage::SecurityChanged(s)) => {
                self.add_network_state.security = s;
                Effect::Nothing
            },
            Message::AddNetwork(AddNetworkMessage::Cancel) => {
                self.add_network_state.close();
                Effect::Nothing
            },
            Message::AddNetwork(AddNetworkMessage::Submit) => {
                let ssid = self.add_network_state.ssid.clone();
                let password = self.add_network_state.password.clone();
                let security = self.add_network_state.security.clone();
                self.add_network_state.close();
                self.is_loading = true;
                Effect::CreateNetwork { ssid, password, security }
            },
            Message::NetworkCreated(Ok(())) => {
                let line = chars_of("[INFO] Network created successfully\n");
                self.append_output(&line);
                self.is_loading = true;
                Effect::SyncAfterCreate
            },
            Message::NetworkCreated(Err(e)) => {
                let mut line = chars_of("[ERROR] ");
                extend_str(&mut line, e.as_str());
                extend_str(&mut line, "\n");
                self.append_output(&line);
                self.is_loading = false;
                Effect::Nothing
            },
            Message::CommandComplete(out) => {
                let mut line = chars_of(out.as_str());
                extend_str(&mut line, "\n");
                self.append_output(&line);
                self.is_loading = false;
                Effect::ReloadAfterCommand
            },
            Message::NetworksLoaded(ns) => {
                let mut flags: Vec<bool> = Vec::new();
                let mut i: usize = 0;
                while i < ns.len()
                    invariant
                        i <= ns@.len(),
                        flags@ == Seq::new(i as nat, |k: int| false),
                    decreases ns@.len() - i,
                {
                    flags.push(false);
                    i = i + 1;
                    assert(flags@ =~= Seq::new(i as nat, |k: int| false));
                }
                self.show_passwords = flags;
                self.networks = ns;
                self.is_loading = false;
                Effect::CheckSync
            },
            Message::SyncStatusChecked(synced, count) => {
                self.is_synced = synced;
                self.network_count = count;
                Effect::Nothing
            },
            Message::Refresh => Effect::LoadNetworks,
        }
    }
}

} // verus!
