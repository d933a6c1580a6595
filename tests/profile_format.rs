use wifi_manager::network::Network;
use wifi_manager::profile::{parse_content, Security};
use wifi_manager::writer::{
    decimal_chars, new_profile_content, profile_file_name, render_profile, sanitize_file_name,
};

fn parse(text: &str) -> Network {
    parse_content(text).expect("profile expected")
}

#[test]
fn parses_wpa_profile() {
    let n = parse("[connection]\nid=Home\n\n[wifi]\nssid=HomeNet\n\n[wifi-security]\nkey-mgmt=wpa-psk\npsk=secret123\n");
    assert_eq!(n.ssid, "HomeNet");
    assert_eq!(n.security, "WPA/WPA2");
    assert_eq!(n.password.as_deref(), Some("secret123"));
}

#[test]
fn key_mgmt_sae_is_wpa3() {
    let n = parse("[wifi]\nssid=Lab\n[wifi-security]\nkey-mgmt=sae\npsk=pw\n");
    assert_eq!(n.security, "WPA3");
}

#[test]
fn no_security_section_is_open() {
    let n = parse("[wifi]\nssid=Cafe\n");
    assert_eq!(n.security, "Open");
    assert_eq!(n.password, None);
}

#[test]
fn other_key_mgmt_is_unknown() {
    let n = parse("[wifi]\nssid=Corp\n[wifi-security]\nkey-mgmt=ieee8021x\npsk=k\n");
    assert_eq!(n.security, "Unknown");
    let no_psk = parse("[wifi]\nssid=Corp\n[wifi-security]\nkey-mgmt=ieee8021x\n");
    assert_eq!(no_psk.security, "Open");
    let with_psk = parse("[wifi]\nssid=Corp\n[wifi-security]\nkey-mgmt=none\npsk=x\n");
    assert_eq!(with_psk.security, "Unknown");
}

#[test]
fn psk_without_key_mgmt_stays_unknown() {
    let n = parse("[wifi]\nssid=X\n[wifi-security]\npsk=abc\n");
    assert_eq!(n.security, "Unknown");
    assert_eq!(n.password.as_deref(), Some("abc"));
}

#[test]
fn connection_id_is_fallback_for_ssid() {
    let n = parse("[connection]\nid=Fallback\n");
    assert_eq!(n.ssid, "Fallback");
    let later = parse("[connection]\nid=First\n[wifi]\nssid=Real\n");
    assert_eq!(later.ssid, "Real");
    let wifi_first = parse("[wifi]\nssid=Real\n[connection]\nid=Other\n");
    assert_eq!(wifi_first.ssid, "Real");
}

#[test]
fn missing_ssid_gives_no_profile() {
    assert!(parse_content("").is_none());
    assert!(parse_content("[wifi]\nmode=infrastructure\n").is_none());
    assert!(parse_content("[wifi]\nssid=\n").is_none());
    assert!(parse_content("[other]\nid=NotConnection\n").is_none());
}

#[test]
fn lines_are_trimmed_and_malformed_lines_ignored() {
    let n = parse("  [wifi]  \r\n  ssid=Spaced Net  \r\nthis line has no equals\n[wifi-security]\nkey-mgmt=wpa-psk\npsk=a=b");
    assert_eq!(n.ssid, "Spaced Net");
    assert_eq!(n.security, "WPA/WPA2");
    assert_eq!(n.password.as_deref(), Some("a=b"));
}

#[test]
fn keys_outside_their_section_are_ignored() {
    let n = parse("[wifi]\nssid=A\npsk=nope\nkey-mgmt=sae\n");
    assert_eq!(n.security, "Open");
    assert_eq!(n.password, None);
}

#[test]
fn security_labels() {
    assert_eq!(Security::Open.label(), "Open");
    assert_eq!(Security::WpaWpa2.label(), "WPA/WPA2");
    assert_eq!(Security::Wpa3.label(), "WPA3");
    assert_eq!(Security::Unknown.label(), "Unknown");
}

#[test]
fn decimal_digits() {
    let s: String = decimal_chars(0).into_iter().collect();
    assert_eq!(s, "0");
    let s: String = decimal_chars(1700000000123456).into_iter().collect();
    assert_eq!(s, "1700000000123456");
    let s: String = decimal_chars(u128::MAX).into_iter().collect();
    assert_eq!(s, u128::MAX.to_string());
}

#[test]
fn rendered_wpa_profile_text() {
    let text = render_profile("Home", "pw123", "WPA/WPA2", "0f0e0d0c-0b0a-4908-8706-050403020100", 42);
    let expected = "[connection]\nid=Home\nuuid=0f0e0d0c-0b0a-4908-8706-050403020100\ntype=wifi\nautoconnect=true\ntimestamp=42\n\n[wifi]\nmode=infrastructure\nssid=Home\nhidden=false\n\n[wifi-security]\nauth-alg=open\nkey-mgmt=wpa-psk\npsk=pw123\n\n[ipv4]\nmethod=auto\ndns-search=\n\n[ipv6]\naddr-gen-mode=stable-privacy\nmethod=auto\ndns-search=\n\n[proxy]\n";
    assert_eq!(text, expected);
}

#[test]
fn rendered_wpa3_uses_sae() {
    let text = render_profile("Lab", "pw", "WPA3", "u", 1);
    assert!(text.contains("key-mgmt=sae\n"));
}

#[test]
fn open_or_passwordless_profile_has_no_security_section() {
    let open = render_profile("Cafe", "pw", "Open", "u", 1);
    assert!(!open.contains("[wifi-security]"));
    let empty_pw = render_profile("Cafe", "", "WPA/WPA2", "u", 1);
    assert!(!empty_pw.contains("[wifi-security]"));
}

#[test]
fn round_trip_keeps_ssid_and_security() {
    for (sec, pw) in [("WPA/WPA2", "secret"), ("WPA3", "secret"), ("Open", "")] {
        let original = parse(&render_profile("My Net", pw, sec, "u", 7));
        let again = parse(&render_profile(
            &original.ssid,
            original.password.as_deref().unwrap_or(""),
            &original.security,
            "0f0e0d0c-0b0a-4908-8706-050403020100",
            99,
        ));
        assert_eq!(again.ssid, original.ssid);
        assert_eq!(again.security, original.security);
        assert_eq!(again.password, original.password);
        assert_eq!(again.security, sec);
    }
}

#[test]
fn new_profile_content_has_uuid_from_bytes() {
    let bytes = [0xa1, 0xb2, 0xc3, 0xd4, 0xe5, 0xf6, 0x07, 0x18, 0x29, 0x3a, 0x4b, 0x5c, 0x6d, 0x7e, 0x8f, 0x90];
    let text = new_profile_content("Home", "pw", "WPA/WPA2", 5, bytes);
    assert!(text.contains("\nuuid=a1b2c3d4-e5f6-4718-a93a-4b5c6d7e8f90\n"));
    let line = text.lines().find(|l| l.starts_with("uuid=")).expect("uuid line");
    let uuid = &line[5..];
    assert_eq!(uuid.len(), 36);
    assert_eq!(uuid.as_bytes()[14], b'4');
    assert!(uuid.chars().all(|c| c == '-' || c.is_ascii_hexdigit() && !c.is_ascii_uppercase()));
    let other = new_profile_content("Home", "pw", "WPA/WPA2", 5, [0u8; 16]);
    assert!(other.contains("\nuuid=00000000-0000-4000-8000-000000000000\n"));
    assert_ne!(text, other);
    assert_eq!(parse(&text).ssid, "Home");
}

#[test]
fn slash_in_ssid_is_sanitized_in_file_name() {
    assert_eq!(sanitize_file_name("My/Net"), "My_Net");
    assert_eq!(profile_file_name("My/Net"), "My_Net.nmconnection");
    assert_eq!(sanitize_file_name("a<b>c:d\"e/f\\g|h?i*j"), "a_b_c_d_e_f_g_h_i_j");
    let text = render_profile("My/Net", "pw", "WPA/WPA2", "u", 3);
    assert_eq!(parse(&text).ssid, "My/Net");
}

#[test]
fn network_password_display() {
    let with = Network::new("A".to_string(), "WPA/WPA2".to_string(), Some("x".to_string()));
    assert_eq!(with.password_display(), "••••••••");
    let empty = Network::new("A".to_string(), "Open".to_string(), Some(String::new()));
    assert_eq!(empty.password_display(), "N/A");
    let none = Network::new("A".to_string(), "Open".to_string(), None);
    assert_eq!(none.password_display(), "N/A");
}
