//! The messages of the application: toolbar actions, output-panel and
//! network-list actions, form edits, and the results of background work.
use vstd::prelude::*;
use crate::dialog::AddNetworkMessage;
use crate::network::Network;

verus! {

/// A toolbar action; each runs one command of the management script.
#[derive(Debug, Clone, Copy, PartialEq, Eq, Structural)]
pub enum ToolbarMessage {
    ImportXml,
    Install,
    Backup,
    Sync,
    PullAdb,
    PushAdb,
}

/// The script command that a toolbar action runs.
pub open spec fn command_of(m: ToolbarMessage) -> Seq<char> {
    match m {
        ToolbarMessage::ImportXml => "import-android"@,
        ToolbarMessage::Install => "install"@,
        ToolbarMessage::Backup => "backup"@,
        ToolbarMessage::Sync => "sync-local"@,
        ToolbarMessage::PullAdb => "pull-android"@,
        ToolbarMessage::PushAdb => "push-android"@,
    }
}

impl ToolbarMessage {
    /// The script command this action runs.
    pub fn command(&self) -> (r: &'static str)
        ensures
            r@ == command_of(*self),
    {
        match self {
            ToolbarMessage::ImportXml => "import-android",
            ToolbarMessage::Install => "install",
            ToolbarMessage::Backup => "backup",
            ToolbarMessage::Sync => "sync-local",
            ToolbarMessage::PullAdb => "pull-android",
            ToolbarMessage::PushAdb => "push-android",
        }
    }

    /// Whether the command runs with elevated privileges: installing and
    /// backing up write system locations.
    pub fn needs_elevation(&self) -> (r: bool)
        ensures
            r == (*self == ToolbarMessage::Install || *self == ToolbarMessage::Backup),
    {
        match self {
            ToolbarMessage::Install | ToolbarMessage::Backup => true,
            _ => false,
        }
    }
}

/// An action of the output panel.
#[derive(Debug, Clone, Copy, PartialEq, Eq, Structural)]
pub enum OutputMessage {
    Copy,
    Clear,
}

/// An action of the network list.
#[derive(Debug, Clone)]
pub enum NetworkListMessage {
    SearchChanged(String),
    AddNetwork,
    TogglePassword(usize),
}

/// Every message the application handles.
#[derive(Debug)]
pub enum Message {
    Toolbar(ToolbarMessage),
    Output(OutputMessage),
    NetworkList(NetworkListMessage),
    AddNetwork(AddNetworkMessage),
    CommandComplete(String),
    NetworksLoaded(Vec<Network>),
    SyncStatusChecked(bool, usize),
    NetworkCreated(Result<(), String>),
    Refresh,
}

impl Clone for Message {
    fn clone(&self) -> (r: Self) {
        match self {
            Message::Toolbar(t) => Message::Toolbar(*t),
            Message::Output(o) => Message::Output(*o),
            Message::NetworkList(m) => Message::NetworkList(m.clone()),
            Message::AddNetwork(m) => Message::AddNetwork(m.clone()),
            Message::CommandComplete(s) => Message::CommandComplete(s.clone()),
            Message::NetworksLoaded(ns) => Message::NetworksLoaded(ns.clone()),
            Message::SyncStatusChecked(synced, count) => Message::SyncStatusChecked(*synced, *count),
            Message::NetworkCreated(result) => Message::NetworkCreated(
                match result {
                    Ok(()) => Ok(()),
                    Err(e) => Err(e.clone()),
                },
            ),
            Message::Refresh => Message::Refresh,
        }
    }
}

} // verus!
