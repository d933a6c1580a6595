use wifi_manager::ansi::strip_ansi_codes;
use wifi_manager::collection::collect_networks;
use wifi_manager::dialog::{AddNetworkMessage, AddNetworkState};
use wifi_manager::listing::{filter_networks, password_cell};
use wifi_manager::manager::{Effect, WifiManager};
use wifi_manager::messages::{Message, NetworkListMessage, OutputMessage, ToolbarMessage};
use wifi_manager::network::Network;
use wifi_manager::runner::{
    command_report, elevated_shell_command, resolve_script_path, script_output, stream_text,
    ScriptOutput,
};
use wifi_manager::store::{count_profile_files, count_report_rows, is_profile_file_name, sync_status};

fn names(v: &[&str]) -> Vec<String> {
    v.iter().map(|s| s.to_string()).collect()
}

const REPORT3: &str = "# Networks\n\n| Network Name | Security | Password |\n|---|---|---|\n| Home | WPA/WPA2 | x |\n| Lab | WPA3 | y |\n| Cafe | Open | |\n";

#[test]
fn strip_removes_escape_sequences() {
    assert_eq!(strip_ansi_codes("plain text"), "plain text");
    assert_eq!(strip_ansi_codes("\x1b[32mok\x1b[0m"), "ok");
    assert_eq!(strip_ansi_codes("a\x1b[1;31mb\x1b[0mc\x1b[4md"), "abcd");
    assert_eq!(strip_ansi_codes("tail\x1b[31"), "tail");
    assert_eq!(strip_ansi_codes(""), "");
}

#[test]
fn profile_file_names() {
    assert!(is_profile_file_name("home.nmconnection"));
    assert!(!is_profile_file_name(".nmconnection"));
    assert!(!is_profile_file_name("home.nmconnection.bak"));
    assert!(!is_profile_file_name("home.txt"));
    assert_eq!(count_profile_files(&names(&["a.nmconnection", "b.txt", "c.nmconnection"])), 2);
}

#[test]
fn report_rows_skip_header_and_separator() {
    assert_eq!(count_report_rows(REPORT3), 3);
    assert_eq!(count_report_rows(""), 0);
    assert_eq!(count_report_rows("| Only | row |"), 1);
    assert_eq!(count_report_rows(" | indented |\ntext\n"), 0);
}

#[test]
fn empty_directory_is_never_in_sync() {
    assert_eq!(sync_status(None, Some(REPORT3)), (false, 0));
    assert_eq!(sync_status(Some(&Vec::new()), Some("")), (false, 0));
    assert_eq!(sync_status(Some(&names(&["notes.txt"])), None), (false, 0));
    assert_eq!(sync_status(None, None), (false, 0));
}

#[test]
fn three_profiles_and_three_rows_are_in_sync() {
    let dir = names(&["Home.nmconnection", "Lab.nmconnection", "Cafe.nmconnection"]);
    assert_eq!(sync_status(Some(&dir), Some(REPORT3)), (true, 3));
    assert_eq!(sync_status(Some(&dir), None), (false, 3));
    let two = names(&["Home.nmconnection", "Lab.nmconnection"]);
    assert_eq!(sync_status(Some(&two), Some(REPORT3)), (false, 2));
}

#[test]
fn collect_keeps_valid_profiles_sorted_case_insensitively() {
    let texts = vec![
        "[wifi]\nssid=beta\n".to_string(),
        "garbage without ssid".to_string(),
        "[wifi]\nssid=Alpha\n".to_string(),
        "[wifi]\nssid=Gamma\n".to_string(),
        "[wifi]\nmode=infrastructure\n".to_string(),
        "[connection]\nid=delta\n".to_string(),
    ];
    let ns = collect_networks(&texts);
    let ssids: Vec<&str> = ns.iter().map(|n| n.ssid.as_str()).collect();
    assert_eq!(ssids, vec!["Alpha", "beta", "delta", "Gamma"]);
    assert!(collect_networks(&Vec::new()).is_empty());
}

#[test]
fn collect_keeps_order_of_equal_keys() {
    let texts = vec![
        "[wifi]\nssid=net\n[wifi-security]\nkey-mgmt=sae\npsk=1\n".to_string(),
        "[wifi]\nssid=NET\n".to_string(),
    ];
    let ns = collect_networks(&texts);
    assert_eq!(ns[0].ssid, "net");
    assert_eq!(ns[1].ssid, "NET");
}

#[test]
fn stream_text_adds_newlines_and_strips() {
    assert_eq!(stream_text(&names(&["\x1b[32mone\x1b[0m", "two"])), "one\ntwo\n");
    assert_eq!(stream_text(&Vec::new()), "");
    let out = script_output(&names(&["a"]), &names(&["\x1b[31merr\x1b[0m"]), false);
    assert_eq!(out.stdout, "a\n");
    assert_eq!(out.stderr, "err\n");
    assert!(!out.success);
}

#[test]
fn elevated_command_changes_directory_first() {
    assert_eq!(
        elevated_shell_command("/opt/my tools", "/opt/my tools/wifi-manager.sh", "install"),
        "cd '/opt/my tools' && bash '/opt/my tools/wifi-manager.sh' install"
    );
}

#[test]
fn script_path_takes_first_existing_candidate() {
    let c = names(&["/env/wifi-manager.sh", "/exe/wifi-manager.sh", "/cwd/wifi-manager.sh"]);
    assert_eq!(resolve_script_path(&c, &vec![false, true, true]), "/exe/wifi-manager.sh");
    assert_eq!(resolve_script_path(&c, &vec![true, true, true]), "/env/wifi-manager.sh");
    assert_eq!(resolve_script_path(&c, &vec![false, false, false]), "wifi-manager.sh");
}

#[test]
fn command_reports() {
    let ok = ScriptOutput { stdout: "done\n".to_string(), stderr: "warn\n".to_string(), success: true };
    assert_eq!(command_report(Ok(ok)), "done\n");
    let bad = ScriptOutput { stdout: "out".to_string(), stderr: "err".to_string(), success: false };
    assert_eq!(command_report(Ok(bad)), "out\\nerr");
    assert_eq!(command_report(Err("Failed to spawn process".to_string())), "Failed to spawn process");
}

#[test]
fn toolbar_commands() {
    assert_eq!(ToolbarMessage::ImportXml.command(), "import-android");
    assert_eq!(ToolbarMessage::Install.command(), "install");
    assert_eq!(ToolbarMessage::Backup.command(), "backup");
    assert_eq!(ToolbarMessage::Sync.command(), "sync-local");
    assert_eq!(ToolbarMessage::PullAdb.command(), "pull-android");
    assert_eq!(ToolbarMessage::PushAdb.command(), "push-android");
    assert!(ToolbarMessage::Install.needs_elevation());
    assert!(ToolbarMessage::Backup.needs_elevation());
    assert!(!ToolbarMessage::Sync.needs_elevation());
}

#[test]
fn add_network_form_state() {
    let mut s = AddNetworkState::new();
    assert!(!s.visible);
    assert_eq!(s.security, "WPA/WPA2");
    s.ssid = "x".to_string();
    s.security = "Open".to_string();
    s.show();
    assert!(s.visible);
    assert_eq!(s.ssid, "");
    assert_eq!(s.security, "WPA/WPA2");
    s.ssid = "y".to_string();
    s.close();
    assert!(!s.visible);
    assert_eq!(s.ssid, "y");
}

#[test]
fn manager_runs_toolbar_commands() {
    let mut m = WifiManager::new();
    m.is_loading = false;
    match m.update(Message::Toolbar(ToolbarMessage::Backup)) {
        Effect::RunScript { command, elevated } => {
            assert_eq!(command, "backup");
            assert!(elevated);
        }
        other => panic!("unexpected effect {:?}", other),
    }
    assert!(m.is_loading);
}

#[test]
fn manager_output_and_reload_flow() {
    let mut m = WifiManager::new();
    assert!(matches!(m.update(Message::CommandComplete("hello".to_string())), Effect::ReloadAfterCommand));
    assert_eq!(m.terminal_output, "hello\n");
    assert!(!m.is_loading);
    match m.update(Message::Output(OutputMessage::Copy)) {
        Effect::CopyToClipboard(s) => assert_eq!(s, "hello\n"),
        other => panic!("unexpected effect {:?}", other),
    }
    m.update(Message::Output(OutputMessage::Clear));
    assert_eq!(m.terminal_output, "");
    let ns = vec![Network::new("A".to_string(), "Open".to_string(), None)];
    assert!(matches!(m.update(Message::NetworksLoaded(ns)), Effect::CheckSync));
    assert_eq!(m.show_passwords, vec![false]);
    m.update(Message::SyncStatusChecked(true, 1));
    assert!(m.is_synced);
    assert_eq!(m.status_text(), "✓ Synced (1 networks)");
    m.is_synced = false;
    assert_eq!(m.status_text(), "⚠ Not synced (1 networks)");
    m.is_loading = true;
    assert_eq!(m.status_text(), "⏳ Loading...");
    assert!(matches!(m.update(Message::Refresh), Effect::LoadNetworks));
}

#[test]
fn manager_create_network_flow() {
    let mut m = WifiManager::new();
    m.update(Message::NetworkList(NetworkListMessage::AddNetwork));
    assert!(m.add_network_state.visible);
    m.update(Message::AddNetwork(AddNetworkMessage::SsidChanged("New".to_string())));
    m.update(Message::AddNetwork(AddNetworkMessage::PasswordChanged("pw".to_string())));
    m.update(Message::AddNetwork(AddNetworkMessage::SecurityChanged("WPA3".to_string())));
    match m.update(Message::AddNetwork(AddNetworkMessage::Submit)) {
        Effect::CreateNetwork { ssid, password, security } => {
            assert_eq!((ssid.as_str(), password.as_str(), security.as_str()), ("New", "pw", "WPA3"));
        }
        other => panic!("unexpected effect {:?}", other),
    }
    assert!(!m.add_network_state.visible);
    assert!(matches!(m.update(Message::NetworkCreated(Ok(()))), Effect::SyncAfterCreate));
    assert_eq!(m.terminal_output, "[INFO] Network created successfully\n");
    m.update(Message::NetworkCreated(Err("Failed to write file: denied".to_string())));
    assert!(m.terminal_output.ends_with("[ERROR] Failed to write file: denied\n"));
    assert!(!m.is_loading);
}

#[test]
fn manager_toggles_passwords() {
    let mut m = WifiManager::new();
    m.update(Message::NetworkList(NetworkListMessage::TogglePassword(2)));
    assert_eq!(m.show_passwords, vec![false, false, true]);
    m.update(Message::NetworkList(NetworkListMessage::TogglePassword(0)));
    assert_eq!(m.show_passwords, vec![true, false, true]);
    m.update(Message::NetworkList(NetworkListMessage::TogglePassword(2)));
    assert_eq!(m.show_passwords, vec![true, false, false]);
    m.update(Message::NetworkList(NetworkListMessage::SearchChanged("q".to_string())));
    assert_eq!(m.search_query, "q");
}

#[test]
fn search_filters_case_insensitively() {
    let ns = vec![
        Network::new("HomeNet".to_string(), "Open".to_string(), None),
        Network::new("Office".to_string(), "WPA3".to_string(), Some("p".to_string())),
        Network::new("HOME-5G".to_string(), "Open".to_string(), None),
    ];
    assert_eq!(filter_networks(&ns, "home"), vec![0, 2]);
    assert_eq!(filter_networks(&ns, ""), vec![0, 1, 2]);
    assert_eq!(filter_networks(&ns, "OFF"), vec![1]);
    assert_eq!(filter_networks(&ns, "zzz"), Vec::<usize>::new());
    assert_eq!(password_cell(&ns[1], false), "••••••••");
    assert_eq!(password_cell(&ns[1], true), "p");
    assert_eq!(password_cell(&ns[0], true), "N/A");
}

#[test]
fn messages_can_be_cloned() {
    let m = Message::NetworkCreated(Err("denied".to_string()));
    match m.clone() {
        Message::NetworkCreated(Err(e)) => assert_eq!(e, "denied"),
        other => panic!("unexpected message {:?}", other),
    }
    let loaded = Message::NetworksLoaded(vec![Network::new("A".to_string(), "Open".to_string(), None)]);
    match loaded.clone() {
        Message::NetworksLoaded(ns) => assert_eq!(ns[0].ssid, "A"),
        other => panic!("unexpected message {:?}", other),
    }
}

#[test]
fn toolbar_action_changes_only_loading() {
    let mut m = WifiManager::new();
    m.update(Message::CommandComplete("log".to_string()));
    m.update(Message::NetworkList(NetworkListMessage::TogglePassword(1)));
    m.update(Message::Toolbar(ToolbarMessage::Sync));
    assert!(m.is_loading);
    assert_eq!(m.terminal_output, "log\n");
    assert_eq!(m.show_passwords, vec![false, true]);
}
