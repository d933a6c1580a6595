//! Writing new connection profiles and naming their files.
use vstd::prelude::*;
use crate::chars::{chars_of, extend_chars, extend_str, string_of};

verus! {

/// A lowercase hexadecimal digit.
pub open spec fn is_lower_hex(c: char) -> bool {
    ('0' <= c <= '9') || ('a' <= c <= 'f')
}

/// The hyphenated lowercase form of a UUID: 36 characters, hyphens at
/// positions 8, 13, 18 and 23, hexadecimal digits elsewhere.
pub open spec fn is_uuid_text(s: Seq<char>) -> bool {
    &&& s.len() == 36
    &&& forall|i: int|
        0 <= i < 36 ==> if i == 8 || i == 13 || i == 18 || i == 23 {
            #[trigger] s[i] == '-'
        } else {
            is_lower_hex(s[i])
        }
}

/// Relies on `uuid::Builder::from_random_bytes` and the `Display` impl of
/// `uuid::Uuid`: the version 4 UUID made from the given random bytes,
/// written in hyphenated lowercase form (version digit `4` at position 14).
#[verifier::external_body]
fn uuid_text_from_random(random: [u8; 16]) -> (r: String)
    ensures
        is_uuid_text(r@),
        r@[14] == '4',
{
    uuid::Builder::from_random_bytes(random).into_uuid().to_string()
}

/// The decimal digit for `d < 10`.
pub open spec fn digit_char(d: nat) -> char {
    "0123456789"@[d as int]
}

/// Decimal notation of `n`, without leading zeros.
pub open spec fn decimal(n: nat) -> Seq<char>
    decreases n,
{
    if n < 10 {
        seq![digit_char(n)]
    } else {
        decimal(n / 10) + seq![digit_char(n % 10)]
    }
}

/// Decimal notation of `n`.
pub fn decimal_chars(n: u128) -> (r: Vec<char>)
    ensures
        r@ == decimal(n as nat),
    decreases n,
{
    let digits = chars_of("0123456789");
    proof {
        reveal_strlit("0123456789");
    }
    if n < 10 {
        let mut r: Vec<char> = Vec::new();
        r.push(digits[n as usize]);
        assert(r@ =~= seq![digit_char(n as nat)]);
        r
    } else {
        let mut r = decimal_chars(n / 10);
        r.push(digits[(n % 10) as usize]);
        r
    }
}

/// Whether the profile gets a `[wifi-security]` section: only with a
/// password, and not for an open network.
pub open spec fn has_security_section(password: Seq<char>, security: Seq<char>) -> bool {
    password.len() > 0 && security != "Open"@
}

/// The `key-mgmt` value written for a security class.
pub open spec fn key_mgmt_for(security: Seq<char>) -> Seq<char> {
    if security == "WPA3"@ {
        "sae"@
    } else {
        "wpa-psk"@
    }
}

/// A line of the file, ended by a newline.
pub open spec fn text_line(a: Seq<char>) -> Seq<char> {
    a + seq!['\n']
}

/// A `key=value` line.
pub open spec fn field_line(key: Seq<char>, value: Seq<char>) -> Seq<char> {
    text_line(key + seq!['='] + value)
}

/// A section header line `[name]`.
pub open spec fn header_line(name: Seq<char>) -> Seq<char> {
    text_line(seq!['['] + name + seq![']'])
}

/// An empty line.
pub open spec fn blank_line() -> Seq<char> {
    text_line(Seq::empty())
}

/// The `[connection]` section: name, UUID, type and timestamp.
pub open spec fn connection_block(ssid: Seq<char>, uuid: Seq<char>, stamp: Seq<char>) -> Seq<char> {
    header_line("connection"@) + field_line("id"@, ssid) + field_line("uuid"@, uuid) + field_line(
        "type"@,
        "wifi"@,
    ) + field_line("autoconnect"@, "true"@) + field_line("timestamp"@, stamp) + blank_line()
}

/// The `[wifi]` section.
pub open spec fn wifi_block(ssid: Seq<char>) -> Seq<char> {
    header_line("wifi"@) + field_line("mode"@, "infrastructure"@) + field_line("ssid"@, ssid)
        + field_line("hidden"@, "false"@) + blank_line()
}

/// The `[wifi-security]` section, present only with a password on a
/// network that is not open.
pub open spec fn security_section(password: Seq<char>, security: Seq<char>) -> Seq<char> {
    if has_security_section(password, security) {
        header_line("wifi-security"@) + field_line("auth-alg"@, "open"@) + field_line(
            "key-mgmt"@,
            key_mgmt_for(security),
        ) + field_line("psk"@, password) + blank_line()
    } else {
        Seq::empty()
    }
}

/// The fixed sections that close every profile.
pub open spec fn profile_tail() -> Seq<char> {
    header_line("ipv4"@) + field_line("method"@, "auto"@) + field_line("dns-search"@, Seq::empty())
        + blank_line() + header_line("ipv6"@) + field_line("addr-gen-mode"@, "stable-privacy"@)
        + field_line("method"@, "auto"@) + field_line("dns-search"@, Seq::empty()) + blank_line()
        + header_line("proxy"@)
}

/// The text of a new connection file.
pub open spec fn profile_text(
    ssid: Seq<char>,
    password: Seq<char>,
    security: Seq<char>,
    uuid: Seq<char>,
    stamp: Seq<char>,
) -> Seq<char> {
    connection_block(ssid, uuid, stamp) + wifi_block(ssid) + security_section(password, security)
        + profile_tail()
}

fn push_header(out: &mut Vec<char>, name: &str)
    ensures
        final(out)@ == old(out)@ + header_line(name@),
{
    out.push('[');
    extend_str(out, name);
    out.push(']');
    out.push('\n');
    assert(final(out)@ =~= old(out)@ + header_line(name@));
}

fn push_field(out: &mut Vec<char>, key: &str, value: &Vec<char>)
    ensures
        final(out)@ == old(out)@ + field_line(key@, value@),
{
    extend_str(out, key);
    out.push('=');
    extend_chars(out, value);
    out.push('\n');
    assert(final(out)@ =~= old(out)@ + field_line(key@, value@));
}

fn push_field_str(out: &mut Vec<char>, key: &str, value: &str)
    ensures
        final(out)@ == old(out)@ + field_line(key@, value@),
{
    let v = chars_of(value);
    push_field(out, key, &v);
}

fn push_blank(out: &mut Vec<char>)
    ensures
        final(out)@ == old(out)@ + blank_line(),
{
    out.push('\n');
    assert(final(out)@ =~= old(out)@ + blank_line());
}

/// Writes the text of a connection file for the given network, with the
/// given connection UUID and timestamp (microseconds since the epoch).
pub fn render_profile(ssid: &str, password: &str, security: &str, uuid: &str, timestamp: u128) -> (r:
    String)
    ensures
        r@ == profile_text(ssid@, password@, security@, uuid@, decimal(timestamp as nat)),
{
    let ssid_c = chars_of(ssid);
    let stamp = decimal_chars(timestamp);
    let mut out: Vec<char> = Vec::new();
    push_header(&mut out, "connection");
    push_field(&mut out, "id", &ssid_c);
    push_field_str(&mut out, "uuid", uuid);
    push_field_str(&mut out, "type", "wifi");
    push_field_str(&mut out, "autoconnect", "true");
    push_field(&mut out, "timestamp", &stamp);
    push_blank(&mut out);
    push_header(&mut out, "wifi");
    push_field_str(&mut out, "mode", "infrastructure");
    push_field(&mut out, "ssid", &ssid_c);
    push_field_str(&mut out, "hidden", "false");
    push_blank(&mut out);
    let ghost head = out@;
    assert(head =~= connection_block(ssid@, uuid@, decimal(timestamp as nat)) + wifi_block(ssid@));
    if !password.is_empty() && !security_is(security, "Open") {
        push_header(&mut out, "wifi-security");
        push_field_str(&mut out, "auth-alg", "open");
        if security_is(security, "WPA3") {
            push_field_str(&mut out, "key-mgmt", "sae");
        } else {
            push_field_str(&mut out, "key-mgmt", "wpa-psk");
        }
        push_field_str(&mut out, "psk", password);
        push_blank(&mut out);
    }
    assert(out@ =~= head + security_section(password@, security@));
    let ghost body = out@;
    push_header(&mut out, "ipv4");
    push_field_str(&mut out, "method", "auto");
    push_field_str(&mut out, "dns-search", "");
    push_blank(&mut out);
    push_header(&mut out, "ipv6");
    push_field_str(&mut out, "addr-gen-mode", "stable-privacy");
    push_field_str(&mut out, "method", "auto");
    push_field_str(&mut out, "dns-search", "");
    push_blank(&mut out);
    push_header(&mut out, "proxy");
    proof {
        reveal_strlit("");
    }
    assert(out@ =~= body + profile_tail());
    string_of(&out)
}

fn security_is(security: &str, name: &str) -> (r: bool)
    ensures
        r == (security@ == name@),
{
    let a = chars_of(security);
    let b = chars_of(name);
    crate::chars::chars_eq(&a, &b)
}

/// Writes the text of a connection file for the given network, with the
/// version 4 connection UUID made from the 16 random bytes and the given
/// timestamp.
pub fn new_profile_content(
    ssid: &str,
    password: &str,
    security: &str,
    timestamp: u128,
    random: [u8; 16],
) -> (r: String)
    ensures
        exists|u: Seq<char>|
            is_uuid_text(u) && u[14] == '4' && r@ == profile_text(
                ssid@,
                password@,
                security@,
                u,
                decimal(timestamp as nat),
            ),
{
    let uuid = uuid_text_from_random(random);
    render_profile(ssid, password, security, uuid.as_str(), timestamp)
}

/// Characters that may not stand in a file name.
pub open spec fn is_unsafe_in_name(c: char) -> bool {
    c == '<' || c == '>' || c == ':' || c == '"' || c == '/' || c == '\\' || c == '|' || c == '?'
        || c == '*'
}

/// `ssid` with every character unsafe in a file name replaced by `_`.
pub open spec fn sanitized(ssid: Seq<char>) -> Seq<char> {
    Seq::new(ssid.len(), |i: int| if is_unsafe_in_name(ssid[i]) { '_' } else { ssid[i] })
}

/// The name of the file that holds the profile of `ssid`.
pub open spec fn profile_file_name_of(ssid: Seq<char>) -> Seq<char> {
    sanitized(ssid) + ".nmconnection"@
}

/// Replaces each of `<>:"/\|?*` in `ssid` by `_`.
pub fn sanitize_file_name(ssid: &str) -> (r: String)
    ensures
        r@ == sanitized(ssid@),
{
    let cs = chars_of(ssid);
    let mut out: Vec<char> = Vec::new();
    let mut i: usize = 0;
    while i < cs.len()
        invariant
            cs@ == ssid@,
            i <= cs@.len(),
            out@ == sanitized(ssid@).subrange(0, i as int),
        decreases cs@.len() - i,
    {
        let c = cs[i];
        let unsafe_char = c == '<' || c == '>' || c == ':' || c == '"' || c == '/' || c == '\\'
            || c == '|' || c == '?' || c == '*';
        out.push(if unsafe_char { '_' } else { c });
        i = i + 1;
        assert(out@ =~= sanitized(ssid@).subrange(0, i as int));
    }
    assert(out@ =~= sanitized(ssid@));
    string_of(&out)
}

/// The file name of the profile of `ssid`: the sanitized SSID with the
/// `.nmconnection` extension.
pub fn profile_file_name(ssid: &str) -> (r: String)
    ensures
        r@ == profile_file_name_of(ssid@),
{
    let base = sanitize_file_name(ssid);
    let mut out = chars_of(base.as_str());
    extend_str(&mut out, ".nmconnection");
    string_of(&out)
}

} // verus!
