//! The connection-profile text format: sections in brackets, `key=value`
//! lines, read line by line after trimming white space.
use vstd::prelude::*;
use crate::chars::{chars_eq_str, chars_of, contains_chars, occurs_in, string_of};
use crate::network::{password_view, Network};

verus! {

/// Security class of a profile.
#[derive(Debug, Clone, Copy, PartialEq, Eq, Structural)]
pub enum Security {
    Open,
    WpaWpa2,
    Wpa3,
    Unknown,
}

/// The name under which a security class is shown and stored.
pub open spec fn security_label(s: Security) -> Seq<char> {
    match s {
        Security::Open => "Open"@,
        Security::WpaWpa2 => "WPA/WPA2"@,
        Security::Wpa3 => "WPA3"@,
        Security::Unknown => "Unknown"@,
    }
}

impl Security {
    pub fn label(&self) -> (r: &'static str)
        ensures
            r@ == security_label(*self),
    {
        match self {
            Security::Open => "Open",
            Security::WpaWpa2 => "WPA/WPA2",
            Security::Wpa3 => "WPA3",
            Security::Unknown => "Unknown",
        }
    }
}

/// White space as `char::is_whitespace` defines it (Unicode `White_Space`).
pub open spec fn is_ws(c: char) -> bool {
    let u = c as u32;
    (0x09 <= u <= 0x0D) || u == 0x20 || u == 0x85 || u == 0xA0 || u == 0x1680 || (0x2000 <= u
        <= 0x200A) || u == 0x2028 || u == 0x2029 || u == 0x202F || u == 0x205F || u == 0x3000
}

fn is_ws_exec(c: char) -> (r: bool)
    ensures
        r == is_ws(c),
{
    let u = c as u32;
    (0x09 <= u && u <= 0x0D) || u == 0x20 || u == 0x85 || u == 0xA0 || u == 0x1680 || (0x2000 <= u
        && u <= 0x200A) || u == 0x2028 || u == 0x2029 || u == 0x202F || u == 0x205F || u == 0x3000
}

pub open spec fn trim_start(s: Seq<char>) -> Seq<char>
    decreases s.len(),
{
    if s.len() > 0 && is_ws(s[0]) {
        trim_start(s.drop_first())
    } else {
        s
    }
}

pub open spec fn trim_end(s: Seq<char>) -> Seq<char>
    decreases s.len(),
{
    if s.len() > 0 && is_ws(s.last()) {
        trim_end(s.drop_last())
    } else {
        s
    }
}

/// `s` without leading and trailing white space.
pub open spec fn trim(s: Seq<char>) -> Seq<char> {
    trim_end(trim_start(s))
}

/// The characters `v[a..b]`.
fn slice_chars(v: &Vec<char>, a: usize, b: usize) -> (r: Vec<char>)
    requires
        a <= b <= v@.len(),
    ensures
        r@ == v@.subrange(a as int, b as int),
{
    let mut r: Vec<char> = Vec::new();
    let mut i: usize = a;
    while i < b
        invariant
            a <= i <= b <= v@.len(),
            r@ == v@.subrange(a as int, i as int),
        decreases b - i,
    {
        r.push(v[i]);
        i = i + 1;
        assert(r@ =~= v@.subrange(a as int, i as int));
    }
    r
}

fn trim_chars(v: &Vec<char>) -> (r: Vec<char>)
    ensures
        r@ == trim(v@),
{
    let n: usize = v.len();
    let mut a: usize = 0;
    assert(v@.subrange(0, n as int) =~= v@);
    while a < n && is_ws_exec(v[a])
        invariant
            n == v@.len(),
            a <= n,
            trim_start(v@) == trim_start(v@.subrange(a as int, n as int)),
        decreases n - a,
    {
        assert(v@.subrange(a as int, n as int).drop_first() =~= v@.subrange(a + 1, n as int));
        a = a + 1;
    }
    let mut b: usize = n;
    while b > a && is_ws_exec(v[b - 1])
        invariant
            n == v@.len(),
            a <= b <= n,
            trim_end(v@.subrange(a as int, n as int)) == trim_end(v@.subrange(a as int, b as int)),
        decreases b - a,
    {
        assert(v@.subrange(a as int, b as int).drop_last() =~= v@.subrange(a as int, b - 1));
        b = b - 1;
    }
    slice_chars(v, a, b)
}

/// Position of the first `=` of `s`.
pub open spec fn first_eq_at(s: Seq<char>, i: int) -> bool {
    0 <= i < s.len() && s[i] == '=' && forall|j: int| 0 <= j < i ==> s[j] != '='
}

pub open spec fn has_eq(s: Seq<char>) -> bool {
    exists|i: int| 0 <= i < s.len() && s[i] == '='
}

/// Security class named by a `key-mgmt` value: `wpa` anywhere in it gives
/// WPA/WPA2, else `sae` anywhere gives WPA3, else the class is unknown.
pub open spec fn classify_key_mgmt(v: Seq<char>) -> Security {
    if occurs_in("wpa"@, v) {
        Security::WpaWpa2
    } else if occurs_in("sae"@, v) {
        Security::Wpa3
    } else {
        Security::Unknown
    }
}

/// What the scan has gathered so far.
pub struct ScanState {
    pub section: Seq<char>,
    pub ssid: Seq<char>,
    pub security: Security,
    pub password: Option<Seq<char>>,
}

pub open spec fn initial_scan() -> ScanState {
    ScanState { section: Seq::empty(), ssid: Seq::empty(), security: Security::Unknown, password: None }
}

/// The effect of one `key=value` line in the current section.
pub open spec fn apply_field(st: ScanState, key: Seq<char>, value: Seq<char>) -> ScanState {
    if st.section == "wifi"@ && key == "ssid"@ {
        ScanState { ssid: value, ..st }
    } else if st.section == "connection"@ && key == "id"@ && st.ssid.len() == 0 {
        ScanState { ssid: value, ..st }
    } else if st.section == "wifi-security"@ && key == "key-mgmt"@ {
        ScanState { security: classify_key_mgmt(value), ..st }
    } else if st.section == "wifi-security"@ && key == "psk"@ {
        ScanState { password: Some(value), ..st }
    } else {
        st
    }
}

/// Whether a trimmed line is a section header `[name]`.
pub open spec fn is_header(line: Seq<char>) -> bool {
    line.len() > 0 && line[0] == '[' && line.last() == ']'
}

/// The effect of one raw line of the file.
pub open spec fn scan_line(st: ScanState, raw: Seq<char>) -> ScanState {
    let line = trim(raw);
    if is_header(line) {
        ScanState { section: line.subrange(1, line.len() - 1), ..st }
    } else if has_eq(line) {
        let i = choose|i: int| first_eq_at(line, i);
        apply_field(st, line.subrange(0, i), line.subrange(i + 1, line.len() as int))
    } else {
        st
    }
}

/// Scans the text `s`, where `cur` holds the unfinished line before it.
/// Lines end at `\n`; a last line without one counts when it is not empty.
pub open spec fn scan_text(s: Seq<char>, st: ScanState, cur: Seq<char>) -> ScanState
    decreases s.len(),
{
    if s.len() == 0 {
        if cur.len() > 0 {
            scan_line(st, cur)
        } else {
            st
        }
    } else if s[0] == '\n' {
        scan_text(s.drop_first(), scan_line(st, cur), Seq::empty())
    } else {
        scan_text(s.drop_first(), st, cur.push(s[0]))
    }
}

/// A parsed profile.
pub struct Profile {
    pub ssid: Seq<char>,
    pub security: Security,
    pub password: Option<Seq<char>>,
}

/// The profile that a finished scan describes: none without an SSID; with
/// neither a password nor a known class, the network is open.
pub open spec fn finish_scan(st: ScanState) -> Option<Profile> {
    if st.ssid.len() == 0 {
        None
    } else {
        Some(
            Profile {
                ssid: st.ssid,
                security: if st.password is None && st.security == Security::Unknown {
                    Security::Open
                } else {
                    st.security
                },
                password: st.password,
            },
        )
    }
}

/// The profile described by the text of a connection file.
pub open spec fn profile_of(content: Seq<char>) -> Option<Profile> {
    finish_scan(scan_text(content, initial_scan(), Seq::empty()))
}

/// A network value holds the given profile.
pub open spec fn network_is(n: Network, p: Profile) -> bool {
    n.ssid@ == p.ssid && n.security@ == security_label(p.security) && password_view(n.password)
        == p.password
}

/// A text whose scan ends without an SSID, neither from `wifi.ssid` nor
/// from a `connection.id` fallback, holds no profile.
pub proof fn lemma_no_ssid_no_profile(content: Seq<char>)
    requires
        scan_text(content, initial_scan(), Seq::empty()).ssid.len() == 0,
    ensures
        profile_of(content) is None,
{
}

/// `key-mgmt=wpa-psk` classifies as WPA/WPA2.
pub proof fn lemma_wpa_psk_class()
    ensures
        classify_key_mgmt("wpa-psk"@) == Security::WpaWpa2,
{
    reveal_strlit("wpa-psk");
    reveal_strlit("wpa");
    assert("wpa-psk"@.subrange(0int, 0int + "wpa"@.len()) =~= "wpa"@);
}

/// `key-mgmt=sae` classifies as WPA3.
pub proof fn lemma_sae_class()
    ensures
        classify_key_mgmt("sae"@) == Security::Wpa3,
{
    reveal_strlit("wpa");
    reveal_strlit("sae");
    assert("sae"@.subrange(0int, 0int + "sae"@.len()) =~= "sae"@);
    let sae = "sae"@;
    let wpa = "wpa"@;
    assert(sae.len() == 3 && wpa.len() == 3 && sae[0] == 's' && wpa[0] == 'w');
    assert forall|i: int| 0 <= i && i + wpa.len() <= sae.len() implies #[trigger] sae.subrange(
        i,
        i + wpa.len(),
    ) != wpa by {
        assert(i == 0);
        assert(sae.subrange(i, i + wpa.len())[0] == 's');
    }
}

/// A `key-mgmt` value holding neither `wpa` nor `sae` is unknown; a scan
/// that found neither a password nor a known class yields an open network.
pub proof fn lemma_other_classes(other: Seq<char>, st: ScanState)
    requires
        !occurs_in("wpa"@, other),
        !occurs_in("sae"@, other),
    ensures
        classify_key_mgmt(other) == Security::Unknown,
        st.ssid.len() > 0 && st.password is None && st.security == Security::Unknown ==> finish_scan(
            st,
        ) == Some(Profile { ssid: st.ssid, security: Security::Open, password: None }),
{
}

struct Scanner {
    section: Vec<char>,
    ssid: Vec<char>,
    security: Security,
    password: Option<Vec<char>>,
}

impl Scanner {
    spec fn view(&self) -> ScanState {
        ScanState {
            section: self.section@,
            ssid: self.ssid@,
            security: self.security,
            password: match self.password {
                Some(p) => Some(p@),
                None => None,
            },
        }
    }

    fn apply(&mut self, key: Vec<char>, value: Vec<char>)
        ensures
            final(self).view() == apply_field(old(self).view(), key@, value@),
    {
        if chars_eq_str(&self.section, "wifi") && chars_eq_str(&key, "ssid") {
            self.ssid = value;
        } else if chars_eq_str(&self.section, "connection") && chars_eq_str(&key, "id")
            && self.ssid.len() == 0 {
            self.ssid = value;
        } else if chars_eq_str(&self.section, "wifi-security") && chars_eq_str(&key, "key-mgmt") {
            let wpa = chars_of("wpa");
            let sae = chars_of("sae");
            self.security = if contains_chars(&value, &wpa) {
                Security::WpaWpa2
            } else if contains_chars(&value, &sae) {
                Security::Wpa3
            } else {
                Security::Unknown
            };
        } else if chars_eq_str(&self.section, "wifi-security") && chars_eq_str(&key, "psk") {
            self.password = Some(value);
        }
    }

    fn line(&mut self, raw: &Vec<char>)
        ensures
            final(self).view() == scan_line(old(self).view(), raw@),
    {
        let line = trim_chars(raw);
        let n: usize = line.len();
        if n > 0 && line[0] == '[' && line[n - 1] == ']' {
            self.section = slice_chars(&line, 1, n - 1);
            return;
        }
        let mut i: usize = 0;
        while i < n && line[i] != '='
            invariant
                n == line@.len(),
                i <= n,
                forall|j: int| 0 <= j < i ==> line@[j] != '=',
            decreases n - i,
        {
            i = i + 1;
        }
        if i < n {
            assert(first_eq_at(line@, i as int));
            let ghost k = choose|k: int| first_eq_at(line@, k);
            assert(k == i) by {
                if k < i {
                    assert(line@[k] != '=');
                } else if k > i {
                    assert(line@[i as int] != '=');
                }
            }
            let key = slice_chars(&line, 0, i);
            let value = slice_chars(&line, i + 1, n);
            self.apply(key, value);
        }
    }
}

/// Reads the profile held in the text of a connection file. Returns `None`
/// when the text names no SSID.
pub fn parse_content(content: &str) -> (r: Option<Network>)
    ensures
        match (r, profile_of(content@)) {
            (None, None) => true,
            (Some(n), Some(p)) => network_is(n, p),
            _ => false,
        },
{
    let cs = chars_of(content);
    let mut sc = Scanner {
        section: Vec::new(),
        ssid: Vec::new(),
        security: Security::Unknown,
        password: None,
    };
    let mut cur: Vec<char> = Vec::new();
    let mut i: usize = 0;
    assert(cs@.subrange(0, cs@.len() as int) =~= cs@);
    assert(sc.view() == initial_scan());
    while i < cs.len()
        invariant
            cs@ == content@,
            i <= cs@.len(),
            scan_text(content@, initial_scan(), Seq::empty()) == scan_text(
                cs@.subrange(i as int, cs@.len() as int),
                sc.view(),
                cur@,
            ),
        decreases cs@.len() - i,
    {
        let ghost rest = cs@.subrange(i as int, cs@.len() as int);
        assert(rest.drop_first() =~= cs@.subrange(i + 1, cs@.len() as int));
        let c = cs[i];
        if c == '\n' {
            sc.line(&cur);
            cur = Vec::new();
            assert(cur@ =~= Seq::<char>::empty());
        } else {
            cur.push(c);
        }
        i = i + 1;
    }
    assert(cs@.subrange(i as int, cs@.len() as int) =~= Seq::<char>::empty());
    if cur.len() > 0 {
        sc.line(&cur);
    }
    if sc.ssid.len() == 0 {
        return None;
    }
    let security = if sc.password.is_none() && sc.security == Security::Unknown {
        Security::Open
    } else {
        sc.security
    };
    let password = match &sc.password {
        Some(p) => Some(string_of(p)),
        None => None,
    };
    Some(Network::new(string_of(&sc.ssid), security.label().to_owned(), password))
}

} // verus!
