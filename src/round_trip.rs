//! Reading back what was written: a profile written for a network parses
//! to that network, and a parsed profile survives being written again.
use vstd::prelude::*;
use crate::profile::{
    apply_field, classify_key_mgmt, first_eq_at, has_eq, initial_scan, is_header, is_ws,
    lemma_sae_class, lemma_wpa_psk_class, profile_of, scan_line, scan_text, security_label,
    trim, trim_end, trim_start, Profile, ScanState, Security,
};
use crate::writer::{
    blank_line, connection_block, decimal, field_line, has_security_section, header_line,
    is_uuid_text, key_mgmt_for, profile_file_name_of, profile_tail, profile_text, sanitized,
    security_section, text_line, wifi_block,
};

verus! {

/// No line break in `s`.
pub open spec fn single_line(s: Seq<char>) -> bool {
    forall|i: int| 0 <= i < s.len() ==> s[i] != '\n'
}

/// A value as it stands at the end of a trimmed line: no line break, and
/// no white space at its end.
pub open spec fn is_line_value(v: Seq<char>) -> bool {
    single_line(v) && (v.len() > 0 ==> !is_ws(v.last()))
}

proof fn lemma_scan_through_line(a: Seq<char>, rest: Seq<char>, st: ScanState, cur: Seq<char>)
    requires
        single_line(a),
    ensures
        scan_text(a + seq!['\n'] + rest, st, cur) == scan_text(rest, scan_line(st, cur + a), Seq::empty()),
    decreases a.len(),
{
    let s = a + seq!['\n'] + rest;
    if a.len() == 0 {
        assert(s.drop_first() =~= rest);
        assert(cur + a =~= cur);
    } else {
        assert(s.drop_first() =~= a.drop_first() + seq!['\n'] + rest);
        lemma_scan_through_line(a.drop_first(), rest, st, cur.push(a[0]));
        assert(cur.push(a[0]) + a.drop_first() =~= cur + a);
    }
}

proof fn lemma_scan_concat(p: Seq<char>, q: Seq<char>, st: ScanState, cur: Seq<char>)
    requires
        p.len() > 0,
        p.last() == '\n',
    ensures
        scan_text(p + q, st, cur) == scan_text(q, scan_text(p, st, cur), Seq::empty()),
    decreases p.len(),
{
    let s = p + q;
    assert(s[0] == p[0]);
    if p.len() == 1 {
        assert(p[0] == '\n');
        assert(s.drop_first() =~= q);
        assert(p.drop_first() =~= Seq::<char>::empty());
        assert(scan_text(p.drop_first(), scan_line(st, cur), Seq::empty()) == scan_line(st, cur));
        assert(scan_text(p, st, cur) == scan_line(st, cur));
    } else {
        assert(s.drop_first() =~= p.drop_first() + q);
        assert(p.drop_first().last() == p.last());
        if p[0] == '\n' {
            lemma_scan_concat(p.drop_first(), q, scan_line(st, cur), Seq::empty());
        } else {
            lemma_scan_concat(p.drop_first(), q, st, cur.push(p[0]));
        }
    }
}

/// Scanning `p` and then one more line `a`.
proof fn lemma_scan_add_line(p: Seq<char>, a: Seq<char>, st: ScanState)
    requires
        p.len() == 0 || p.last() == '\n',
        single_line(a),
    ensures
        scan_text(p + text_line(a), st, Seq::empty()) == scan_line(scan_text(p, st, Seq::empty()), a),
{
    lemma_scan_through_line(a, Seq::empty(), scan_text(p, st, Seq::empty()), Seq::empty());
    assert(a + seq!['\n'] + Seq::<char>::empty() =~= text_line(a));
    assert(Seq::<char>::empty() + a =~= a);
    if p.len() == 0 {
        assert(p + text_line(a) =~= text_line(a));
    } else {
        lemma_scan_concat(p, text_line(a), st, Seq::empty());
    }
}

proof fn lemma_trim_plain(s: Seq<char>)
    requires
        s.len() > 0,
        !is_ws(s[0]),
        !is_ws(s.last()),
    ensures
        trim(s) == s,
{
}

proof fn lemma_header(st: ScanState, name: Seq<char>)
    ensures
        scan_line(st, seq!['['] + name + seq![']']) == (ScanState { section: name, ..st }),
{
    let line = seq!['['] + name + seq![']'];
    assert(line[0] == '[');
    assert(line.last() == ']');
    assert(!is_ws('[') && !is_ws(']'));
    lemma_trim_plain(line);
    assert(is_header(line));
    assert(line.subrange(1, line.len() - 1) =~= name);
}

proof fn lemma_field(st: ScanState, key: Seq<char>, value: Seq<char>)
    requires
        key.len() > 0,
        key[0] != '[',
        !is_ws(key[0]),
        forall|i: int| 0 <= i < key.len() ==> key[i] != '=',
        value.len() == 0 || !is_ws(value.last()),
    ensures
        scan_line(st, key + seq!['='] + value) == apply_field(st, key, value),
{
    let line = key + seq!['='] + value;
    let n = key.len() as int;
    assert(line[0] == key[0]);
    assert(!is_ws('='));
    assert(line.last() == if value.len() == 0 { '=' } else { value.last() });
    lemma_trim_plain(line);
    assert(!is_header(line));
    assert(first_eq_at(line, n));
    assert(has_eq(line));
    let i = choose|i: int| first_eq_at(line, i);
    assert(i == n) by {
        if i < n {
            assert(line[i] == key[i]);
        } else if i > n {
            assert(line[n] == '=');
        }
    }
    assert(line.subrange(0, n) =~= key);
    assert(line.subrange(n + 1, line.len() as int) =~= value);
}

proof fn lemma_blank(st: ScanState)
    ensures
        scan_line(st, Seq::empty()) == st,
{
    let e = Seq::<char>::empty();
    assert(trim_start(e) == e);
    assert(trim_end(e) == e);
    assert(!has_eq(e));
}

/// Decimal digits are neither line breaks nor white space.
proof fn lemma_decimal_line_value(n: nat)
    ensures
        is_line_value(decimal(n)),
        decimal(n).len() > 0,
    decreases n,
{
    reveal_strlit("0123456789");
    if n >= 10 {
        lemma_decimal_line_value(n / 10);
    }
}

proof fn lemma_connection(ssid: Seq<char>, uuid: Seq<char>, stamp: Seq<char>)
    requires
        ssid.len() > 0,
        is_line_value(ssid),
        is_uuid_text(uuid),
        is_line_value(stamp),
    ensures
        scan_text(connection_block(ssid, uuid, stamp), initial_scan(), Seq::empty()) == (ScanState {
            section: "connection"@,
            ssid,
            ..initial_scan()
        }),
{
    reveal_strlit("connection");
    reveal_strlit("id");
    reveal_strlit("uuid");
    reveal_strlit("type");
    reveal_strlit("wifi");
    reveal_strlit("autoconnect");
    reveal_strlit("true");
    reveal_strlit("timestamp");
    reveal_strlit("wifi-security");
    let e = Seq::<char>::empty();
    let eq = seq!['='];
    let s0 = initial_scan();
    let l1 = seq!['['] + "connection"@ + seq![']'];
    let p1 = header_line("connection"@);
    assert(scan_text(e, s0, e) == s0);
    lemma_scan_add_line(e, l1, s0);
    assert(e + p1 =~= p1);
    lemma_header(s0, "connection"@);
    let s1 = ScanState { section: "connection"@, ..s0 };
    assert(scan_text(p1, s0, e) == s1);

    let p2 = p1 + field_line("id"@, ssid);
    lemma_scan_add_line(p1, "id"@ + eq + ssid, s0);
    lemma_field(s1, "id"@, ssid);
    let s2 = ScanState { ssid, ..s1 };
    assert(scan_text(p2, s0, e) == s2);

    let p3 = p2 + field_line("uuid"@, uuid);
    assert(is_uuid_text(uuid) ==> !is_ws(uuid.last())) by {
        assert(uuid.last() == uuid[35]);
    }
    assert(single_line(uuid)) by {
        assert forall|i: int| 0 <= i < uuid.len() implies uuid[i] != '\n' by {
            assert(uuid[i] == '-' || crate::writer::is_lower_hex(uuid[i]));
        }
    }
    lemma_scan_add_line(p2, "uuid"@ + eq + uuid, s0);
    lemma_field(s2, "uuid"@, uuid);
    assert(scan_text(p3, s0, e) == s2);

    let p4 = p3 + field_line("type"@, "wifi"@);
    lemma_scan_add_line(p3, "type"@ + eq + "wifi"@, s0);
    lemma_field(s2, "type"@, "wifi"@);
    assert(scan_text(p4, s0, e) == s2);

    let p5 = p4 + field_line("autoconnect"@, "true"@);
    lemma_scan_add_line(p4, "autoconnect"@ + eq + "true"@, s0);
    lemma_field(s2, "autoconnect"@, "true"@);
    assert(scan_text(p5, s0, e) == s2);

    let p6 = p5 + field_line("timestamp"@, stamp);
    lemma_scan_add_line(p5, "timestamp"@ + eq + stamp, s0);
    lemma_field(s2, "timestamp"@, stamp);
    assert(scan_text(p6, s0, e) == s2);

    let p7 = p6 + blank_line();
    lemma_scan_add_line(p6, e, s0);
    lemma_blank(s2);
    assert(scan_text(p7, s0, e) == s2);
}

proof fn lemma_wifi(st: ScanState, ssid: Seq<char>)
    requires
        ssid.len() > 0,
        is_line_value(ssid),
    ensures
        scan_text(wifi_block(ssid), st, Seq::empty()) == (ScanState { section: "wifi"@, ssid, ..st }),
{
    reveal_strlit("wifi");
    reveal_strlit("mode");
    reveal_strlit("infrastructure");
    reveal_strlit("ssid");
    reveal_strlit("hidden");
    reveal_strlit("false");
    reveal_strlit("connection");
    reveal_strlit("wifi-security");
    let e = Seq::<char>::empty();
    let eq = seq!['='];
    let p1 = header_line("wifi"@);
    assert(scan_text(e, st, e) == st);
    lemma_scan_add_line(e, seq!['['] + "wifi"@ + seq![']'], st);
    assert(e + p1 =~= p1);
    lemma_header(st, "wifi"@);
    let s1 = ScanState { section: "wifi"@, ..st };
    assert(scan_text(p1, st, e) == s1);

    let p2 = p1 + field_line("mode"@, "infrastructure"@);
    lemma_scan_add_line(p1, "mode"@ + eq + "infrastructure"@, st);
    lemma_field(s1, "mode"@, "infrastructure"@);
    assert(scan_text(p2, st, e) == s1);

    let p3 = p2 + field_line("ssid"@, ssid);
    lemma_scan_add_line(p2, "ssid"@ + eq + ssid, st);
    lemma_field(s1, "ssid"@, ssid);
    let s3 = ScanState { ssid, ..s1 };
    assert(scan_text(p3, st, e) == s3);

    let p4 = p3 + field_line("hidden"@, "false"@);
    lemma_scan_add_line(p3, "hidden"@ + eq + "false"@, st);
    lemma_field(s3, "hidden"@, "false"@);
    assert(scan_text(p4, st, e) == s3);

    let p5 = p4 + blank_line();
    lemma_scan_add_line(p4, e, st);
    lemma_blank(s3);
    assert(scan_text(p5, st, e) == s3);
}

proof fn lemma_security_block(st: ScanState, password: Seq<char>, security: Seq<char>)
    requires
        has_security_section(password, security),
        is_line_value(password),
    ensures
        scan_text(security_section(password, security), st, Seq::empty()) == (ScanState {
            section: "wifi-security"@,
            security: classify_key_mgmt(key_mgmt_for(security)),
            password: Some(password),
            ..st
        }),
{
    reveal_strlit("wifi-security");
    reveal_strlit("auth-alg");
    reveal_strlit("open");
    reveal_strlit("key-mgmt");
    reveal_strlit("psk");
    reveal_strlit("sae");
    reveal_strlit("wpa-psk");
    reveal_strlit("wifi");
    reveal_strlit("connection");
    let e = Seq::<char>::empty();
    let eq = seq!['='];
    let k = key_mgmt_for(security);
    let p1 = header_line("wifi-security"@);
    assert(scan_text(e, st, e) == st);
    lemma_scan_add_line(e, seq!['['] + "wifi-security"@ + seq![']'], st);
    assert(e + p1 =~= p1);
    lemma_header(st, "wifi-security"@);
    let s1 = ScanState { section: "wifi-security"@, ..st };
    assert(scan_text(p1, st, e) == s1);

    let p2 = p1 + field_line("auth-alg"@, "open"@);
    lemma_scan_add_line(p1, "auth-alg"@ + eq + "open"@, st);
    lemma_field(s1, "auth-alg"@, "open"@);
    assert(scan_text(p2, st, e) == s1);

    let p3 = p2 + field_line("key-mgmt"@, k);
    lemma_scan_add_line(p2, "key-mgmt"@ + eq + k, st);
    lemma_field(s1, "key-mgmt"@, k);
    let s3 = ScanState { security: classify_key_mgmt(k), ..s1 };
    assert(scan_text(p3, st, e) == s3);

    let p4 = p3 + field_line("psk"@, password);
    lemma_scan_add_line(p3, "psk"@ + eq + password, st);
    lemma_field(s3, "psk"@, password);
    let s4 = ScanState { password: Some(password), ..s3 };
    assert(scan_text(p4, st, e) == s4);

    let p5 = p4 + blank_line();
    lemma_scan_add_line(p4, e, st);
    lemma_blank(s4);
    assert(scan_text(p5, st, e) == s4);
}

/// Scanning a section with one irrelevant field.
proof fn lemma_plain_field(p: Seq<char>, st: ScanState, s: ScanState, key: Seq<char>, value: Seq<char>)
    requires
        p.len() == 0 || p.last() == '\n',
        scan_text(p, st, Seq::empty()) == s,
        key.len() > 0,
        key[0] != '[',
        !is_ws(key[0]),
        forall|i: int| 0 <= i < key.len() ==> key[i] != '=' && key[i] != '\n',
        is_line_value(value),
        apply_field(s, key, value) == s,
    ensures
        scan_text(p + field_line(key, value), st, Seq::empty()) == s,
{
    lemma_scan_add_line(p, key + seq!['='] + value, st);
    lemma_field(s, key, value);
}

proof fn lemma_plain_header(p: Seq<char>, st: ScanState, s: ScanState, name: Seq<char>)
    requires
        p.len() == 0 || p.last() == '\n',
        scan_text(p, st, Seq::empty()) == s,
        single_line(name),
    ensures
        scan_text(p + header_line(name), st, Seq::empty()) == (ScanState { section: name, ..s }),
{
    lemma_scan_add_line(p, seq!['['] + name + seq![']'], st);
    lemma_header(s, name);
}

proof fn lemma_plain_blank(p: Seq<char>, st: ScanState, s: ScanState)
    requires
        p.len() == 0 || p.last() == '\n',
        scan_text(p, st, Seq::empty()) == s,
    ensures
        scan_text(p + blank_line(), st, Seq::empty()) == s,
{
    lemma_scan_add_line(p, Seq::empty(), st);
    lemma_blank(s);
}

proof fn lemma_tail(st: ScanState)
    ensures
        scan_text(profile_tail(), st, Seq::empty()) == (ScanState { section: "proxy"@, ..st }),
{
    reveal_strlit("ipv4");
    reveal_strlit("ipv6");
    reveal_strlit("proxy");
    reveal_strlit("method");
    reveal_strlit("auto");
    reveal_strlit("dns-search");
    reveal_strlit("addr-gen-mode");
    reveal_strlit("stable-privacy");
    reveal_strlit("wifi");
    reveal_strlit("connection");
    reveal_strlit("wifi-security");
    let e = Seq::<char>::empty();
    assert(scan_text(e, st, e) == st);
    assert("ipv4"@ != "wifi"@) by {
        assert("ipv4"@[0] != "wifi"@[0]);
    }
    assert("ipv6"@ != "wifi"@) by {
        assert("ipv6"@[0] != "wifi"@[0]);
    }
    let s4 = ScanState { section: "ipv4"@, ..st };
    let s6 = ScanState { section: "ipv6"@, ..st };
    let p1 = header_line("ipv4"@);
    lemma_plain_header(e, st, st, "ipv4"@);
    assert(e + p1 =~= p1);
    let p2 = p1 + field_line("method"@, "auto"@);
    lemma_plain_field(p1, st, s4, "method"@, "auto"@);
    let p3 = p2 + field_line("dns-search"@, e);
    lemma_plain_field(p2, st, s4, "dns-search"@, e);
    let p4 = p3 + blank_line();
    lemma_plain_blank(p3, st, s4);
    let p5 = p4 + header_line("ipv6"@);
    lemma_plain_header(p4, st, s4, "ipv6"@);
    let p6 = p5 + field_line("addr-gen-mode"@, "stable-privacy"@);
    lemma_plain_field(p5, st, s6, "addr-gen-mode"@, "stable-privacy"@);
    let p7 = p6 + field_line("method"@, "auto"@);
    lemma_plain_field(p6, st, s6, "method"@, "auto"@);
    let p8 = p7 + field_line("dns-search"@, e);
    lemma_plain_field(p7, st, s6, "dns-search"@, e);
    let p9 = p8 + blank_line();
    lemma_plain_blank(p8, st, s6);
    lemma_plain_header(p9, st, s6, "proxy"@);
}

/// The security class that a written profile reads back as.
pub open spec fn written_class(password: Seq<char>, security: Seq<char>) -> Security {
    if has_security_section(password, security) {
        if security == "WPA3"@ {
            Security::Wpa3
        } else {
            Security::WpaWpa2
        }
    } else {
        Security::Open
    }
}

/// A profile written for a network parses back to that network: the same
/// SSID; the password only when the file has a security section; the
/// class that the section's `key-mgmt` names, or open without one.
pub proof fn lemma_written_profile_parses(
    ssid: Seq<char>,
    password: Seq<char>,
    security: Seq<char>,
    uuid: Seq<char>,
    stamp: nat,
)
    requires
        ssid.len() > 0,
        is_line_value(ssid),
        is_line_value(password),
        is_uuid_text(uuid),
    ensures
        profile_of(profile_text(ssid, password, security, uuid, decimal(stamp))) == Some(
            Profile {
                ssid,
                security: written_class(password, security),
                password: if has_security_section(password, security) {
                    Some(password)
                } else {
                    None
                },
            },
        ),
{
    let e = Seq::<char>::empty();
    let d = decimal(stamp);
    lemma_decimal_line_value(stamp);
    let c = connection_block(ssid, uuid, d);
    let w = wifi_block(ssid);
    let x = security_section(password, security);
    let t = profile_tail();
    let s0 = initial_scan();
    lemma_connection(ssid, uuid, d);
    let sc = ScanState { section: "connection"@, ssid, ..s0 };
    assert(c.last() == '\n');
    lemma_scan_concat(c, w, s0, e);
    lemma_wifi(sc, ssid);
    let sw = ScanState { section: "wifi"@, ssid, ..sc };
    assert(scan_text(c + w, s0, e) == sw);
    assert((c + w).last() == '\n');
    let sx = if has_security_section(password, security) {
        ScanState {
            section: "wifi-security"@,
            security: classify_key_mgmt(key_mgmt_for(security)),
            password: Some(password),
            ..sw
        }
    } else {
        sw
    };
    if has_security_section(password, security) {
        lemma_scan_concat(c + w, x, s0, e);
        lemma_security_block(sw, password, security);
        lemma_sae_class();
        lemma_wpa_psk_class();
        assert((c + w + x).last() == '\n');
    } else {
        assert(c + w + x =~= c + w);
    }
    assert(scan_text(c + w + x, s0, e) == sx);
    lemma_scan_concat(c + w + x, t, s0, e);
    lemma_tail(sx);
}

/// Values left by a scan are line values.
pub open spec fn values_ok(st: ScanState) -> bool {
    is_line_value(st.ssid) && (st.password matches Some(p) ==> is_line_value(p)) && st.security
        != Security::Open
}

proof fn lemma_trim_start_single(s: Seq<char>)
    requires
        single_line(s),
    ensures
        single_line(trim_start(s)),
    decreases s.len(),
{
    if s.len() > 0 && is_ws(s[0]) {
        lemma_trim_start_single(s.drop_first());
    }
}

proof fn lemma_trim_end_value(s: Seq<char>)
    requires
        single_line(s),
    ensures
        is_line_value(trim_end(s)),
    decreases s.len(),
{
    if s.len() > 0 && is_ws(s.last()) {
        lemma_trim_end_value(s.drop_last());
    }
}

proof fn lemma_first_eq_exists(s: Seq<char>, j: int)
    requires
        0 <= j < s.len(),
        s[j] == '=',
    ensures
        exists|i: int| first_eq_at(s, i),
    decreases j,
{
    if exists|k: int| 0 <= k < j && s[k] == '=' {
        let k = choose|k: int| 0 <= k < j && s[k] == '=';
        lemma_first_eq_exists(s, k);
    } else {
        assert(first_eq_at(s, j));
    }
}

proof fn lemma_line_values(st: ScanState, raw: Seq<char>)
    requires
        values_ok(st),
        single_line(raw),
    ensures
        values_ok(scan_line(st, raw)),
{
    let line = trim(raw);
    lemma_trim_start_single(raw);
    lemma_trim_end_value(trim_start(raw));
    if !is_header(line) && has_eq(line) {
        let j = choose|j: int| 0 <= j < line.len() && line[j] == '=';
        lemma_first_eq_exists(line, j);
        let i = choose|i: int| first_eq_at(line, i);
        let v = line.subrange(i + 1, line.len() as int);
        assert(is_line_value(v)) by {
            if v.len() > 0 {
                assert(v.last() == line.last());
            }
        }
    }
}

proof fn lemma_text_values(s: Seq<char>, st: ScanState, cur: Seq<char>)
    requires
        values_ok(st),
        single_line(cur),
    ensures
        values_ok(scan_text(s, st, cur)),
    decreases s.len(),
{
    if s.len() == 0 {
        if cur.len() > 0 {
            lemma_line_values(st, cur);
        }
    } else if s[0] == '\n' {
        lemma_line_values(st, cur);
        lemma_text_values(s.drop_first(), scan_line(st, cur), Seq::empty());
    } else {
        lemma_text_values(s.drop_first(), st, cur.push(s[0]));
    }
}

/// The password text written for a parsed profile.
pub open spec fn password_text(p: Profile) -> Seq<char> {
    match p.password {
        Some(pw) => pw,
        None => Seq::empty(),
    }
}

/// Writing a parsed profile out again, under any UUID and timestamp, and
/// parsing the result gives back the same SSID and security class, and the
/// same password when the profile is not open. This holds for open
/// profiles and for WPA/WPA2 and WPA3 profiles with a non-empty password;
/// others are written as WPA/WPA2 (an unknown class with a password) or as
/// open (no password).
pub proof fn lemma_round_trip(content: Seq<char>, uuid: Seq<char>, stamp: nat)
    requires
        profile_of(content) is Some,
        is_uuid_text(uuid),
        ({
            let p = profile_of(content)->Some_0;
            p.security == Security::Open || (p.password matches Some(pw) && pw.len() > 0 && (
            p.security == Security::WpaWpa2 || p.security == Security::Wpa3))
        }),
    ensures
        ({
            let p = profile_of(content)->Some_0;
            let q = profile_of(
                profile_text(p.ssid, password_text(p), security_label(p.security), uuid, decimal(stamp)),
            );
            q is Some && q->Some_0.ssid == p.ssid && q->Some_0.security == p.security && (p.security
                != Security::Open ==> q->Some_0.password == p.password)
        }),
{
    let p = profile_of(content)->Some_0;
    let st = scan_text(content, initial_scan(), Seq::empty());
    assert(values_ok(initial_scan()));
    lemma_text_values(content, initial_scan(), Seq::empty());
    let pw = password_text(p);
    assert(is_line_value(pw));
    reveal_strlit("Open");
    reveal_strlit("WPA/WPA2");
    reveal_strlit("WPA3");
    let label = security_label(p.security);
    if p.security == Security::Open {
        assert(st.password is None);
    } else if p.security == Security::Wpa3 {
        assert(label != "Open"@) by {
            assert(label[0] != "Open"@[0]);
        }
    } else {
        assert(p.security == Security::WpaWpa2);
        assert(label == "WPA/WPA2"@);
        assert(label.len() != "WPA3"@.len());
        assert(label.len() != "Open"@.len());
    }
    lemma_written_profile_parses(p.ssid, pw, label, uuid, stamp);
}

/// A profile created for an SSID that holds a `/` goes to a file whose name
/// has `_` in its place, and the file's text reads back with the SSID as it
/// was given.
pub proof fn lemma_created_profile_keeps_ssid(
    ssid: Seq<char>,
    password: Seq<char>,
    security: Seq<char>,
    uuid: Seq<char>,
    stamp: nat,
    i: int,
)
    requires
        ssid.len() > 0,
        is_line_value(ssid),
        is_line_value(password),
        is_uuid_text(uuid),
        0 <= i < ssid.len(),
        ssid[i] == '/',
    ensures
        profile_file_name_of(ssid)[i] == '_',
        profile_of(profile_text(ssid, password, security, uuid, decimal(stamp)))->Some_0.ssid == ssid,
{
    assert(sanitized(ssid)[i] == '_');
    lemma_written_profile_parses(ssid, password, security, uuid, stamp);
}

} // verus!
