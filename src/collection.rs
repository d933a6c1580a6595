//! The ordered profile collection: the profiles of a directory's files,
//! sorted case-insensitively by SSID.
use vstd::prelude::*;
use crate::chars::chars_of;
use crate::network::{password_view, Network};
use crate::profile::{parse_content, profile_of, security_label, Profile};

verus! {

broadcast use vstd::seq_lib::group_to_multiset_ensures;

/// Lowercase form of a string, as `str::to_lowercase` gives it.
pub uninterp spec fn lower_of(s: Seq<char>) -> Seq<char>;

/// Relies on `str::to_lowercase`: the result depends on the characters
/// alone.
#[verifier::external_body]
pub(crate) fn lowercase(s: &str) -> (r: String)
    ensures
        r@ == lower_of(s@),
{
    s.to_lowercase()
}

/// Strict lexicographic order on character sequences, by code point (the
/// order of `str`'s `Ord`).
pub open spec fn lex_lt(a: Seq<char>, b: Seq<char>) -> bool
    decreases a.len(),
{
    if b.len() == 0 {
        false
    } else if a.len() == 0 {
        true
    } else if a[0] != b[0] {
        a[0] < b[0]
    } else {
        lex_lt(a.drop_first(), b.drop_first())
    }
}

proof fn lemma_lex_lt_trans(a: Seq<char>, b: Seq<char>, c: Seq<char>)
    requires
        lex_lt(a, b),
        lex_lt(b, c),
    ensures
        lex_lt(a, c),
    decreases a.len(),
{
    if a.len() > 0 && b.len() > 0 && c.len() > 0 && a[0] == b[0] && b[0] == c[0] {
        lemma_lex_lt_trans(a.drop_first(), b.drop_first(), c.drop_first());
    }
}

proof fn lemma_lex_lt_total(a: Seq<char>, b: Seq<char>)
    ensures
        a == b || lex_lt(a, b) || lex_lt(b, a),
        !(lex_lt(a, b) && lex_lt(b, a)),
    decreases a.len(),
{
    if a.len() > 0 && b.len() > 0 {
        if a[0] == b[0] {
            lemma_lex_lt_total(a.drop_first(), b.drop_first());
            if a.drop_first() == b.drop_first() {
                assert(a =~= seq![a[0]] + a.drop_first());
                assert(b =~= seq![b[0]] + b.drop_first());
            }
        } else {
            assert(a[0] < b[0] || b[0] < a[0]);
        }
    } else if a.len() == 0 && b.len() == 0 {
        assert(a =~= b);
    }
}

fn lex_lt_exec(a: &Vec<char>, b: &Vec<char>) -> (r: bool)
    ensures
        r == lex_lt(a@, b@),
{
    let mut i: usize = 0;
    assert(a@.subrange(0, a@.len() as int) =~= a@);
    assert(b@.subrange(0, b@.len() as int) =~= b@);
    loop
        invariant
            i <= a@.len(),
            i <= b@.len(),
            lex_lt(a@, b@) == lex_lt(
                a@.subrange(i as int, a@.len() as int),
                b@.subrange(i as int, b@.len() as int),
            ),
        decreases a@.len() - i,
    {
        if i == b.len() {
            return false;
        }
        if i == a.len() {
            return true;
        }
        if a[i] != b[i] {
            return a[i] < b[i];
        }
        assert(a@.subrange(i as int, a@.len() as int).drop_first() =~= a@.subrange(
            i + 1,
            a@.len() as int,
        ));
        assert(b@.subrange(i as int, b@.len() as int).drop_first() =~= b@.subrange(
            i + 1,
            b@.len() as int,
        ));
        i = i + 1;
    }
}

/// A network as plain values: SSID, security label and password.
pub open spec fn network_model(n: Network) -> (Seq<char>, Seq<char>, Option<Seq<char>>) {
    (n.ssid@, n.security@, password_view(n.password))
}

/// A parsed profile as the network value that holds it.
pub open spec fn profile_model(p: Profile) -> (Seq<char>, Seq<char>, Option<Seq<char>>) {
    (p.ssid, security_label(p.security), p.password)
}

/// The profiles held by the texts that describe one, in the texts' order.
pub open spec fn parsed_profiles(texts: Seq<Seq<char>>) -> Seq<Profile>
    decreases texts.len(),
{
    if texts.len() == 0 {
        Seq::empty()
    } else {
        let rest = parsed_profiles(texts.drop_last());
        match profile_of(texts.last()) {
            Some(p) => rest.push(p),
            None => rest,
        }
    }
}

/// How many of the texts hold a profile.
pub open spec fn valid_count(texts: Seq<Seq<char>>) -> nat
    decreases texts.len(),
{
    if texts.len() == 0 {
        0
    } else {
        valid_count(texts.drop_last()) + if profile_of(texts.last()) is Some {
            1nat
        } else {
            0nat
        }
    }
}

/// One profile is kept for each text that holds one, and none for the
/// others.
pub proof fn lemma_parsed_count(texts: Seq<Seq<char>>)
    ensures
        parsed_profiles(texts).len() == valid_count(texts),
    decreases texts.len(),
{
    if texts.len() > 0 {
        lemma_parsed_count(texts.drop_last());
    }
}

pub open spec fn texts_view(texts: Seq<String>) -> Seq<Seq<char>> {
    texts.map_values(|s: String| s@)
}

/// Sorted case-insensitively by SSID: no network's lowercase SSID comes
/// before that of a network ahead of it.
pub open spec fn sorted_by_ssid(ns: Seq<Network>) -> bool {
    forall|i: int, j: int|
        0 <= i < j < ns.len() ==> !lex_lt(lower_of(#[trigger] ns[j].ssid@), lower_of(#[trigger] ns[i].ssid@))
}

/// `pos[k]` is the place, among the parsed profiles `ps`, of the profile
/// that network `k` holds; networks with the same lowercase SSID keep the
/// order of their profiles.
pub open spec fn stable_from(ns: Seq<Network>, ps: Seq<Profile>, pos: Seq<int>) -> bool {
    &&& pos.len() == ns.len()
    &&& forall|k: int|
        0 <= k < ns.len() ==> 0 <= #[trigger] pos[k] < ps.len() && network_model(ns[k])
            == profile_model(ps[pos[k]])
    &&& forall|k: int, l: int|
        0 <= k < l < ns.len() && lower_of(ns[k].ssid@) == lower_of(ns[l].ssid@) ==> #[trigger] pos[k]
            < #[trigger] pos[l]
}

/// The profiles held by the given file texts, sorted case-insensitively by
/// SSID; texts that hold no profile are left out, and networks with the
/// same lowercase SSID keep the order of their texts.
pub fn collect_networks(texts: &Vec<String>) -> (r: Vec<Network>)
    ensures
        exists|pos: Seq<int>| stable_from(r@, parsed_profiles(texts_view(texts@)), pos),
        r@.map_values(|n: Network| network_model(n)).to_multiset() == parsed_profiles(
            texts_view(texts@),
        ).map_values(|p: Profile| profile_model(p)).to_multiset(),
        r@.len() == valid_count(texts_view(texts@)),
        sorted_by_ssid(r@),
{
    proof {
        lemma_parsed_count(texts_view(texts@));
    }
    let mut out: Vec<Network> = Vec::new();
    let mut keys: Vec<Vec<char>> = Vec::new();
    let mut i: usize = 0;
    let ghost mut pos: Seq<int> = Seq::empty();
    assert(texts_view(texts@.subrange(0, 0)) =~= Seq::<Seq<char>>::empty());
    while i < texts.len()
        invariant
            i <= texts@.len(),
            stable_from(out@, parsed_profiles(texts_view(texts@.subrange(0, i as int))), pos),
            keys@.len() == out@.len(),
            forall|k: int| 0 <= k < out@.len() ==> #[trigger] keys@[k]@ == lower_of(out@[k].ssid@),
            sorted_by_ssid(out@),
            out@.map_values(|n: Network| network_model(n)).to_multiset() == parsed_profiles(
                texts_view(texts@.subrange(0, i as int)),
            ).map_values(|p: Profile| profile_model(p)).to_multiset(),
            out@.len() == parsed_profiles(texts_view(texts@.subrange(0, i as int))).len(),
        decreases texts@.len() - i,
    {
        let ghost prev = texts_view(texts@.subrange(0, i as int));
        let ghost next = texts_view(texts@.subrange(0, i + 1));
        assert(next.drop_last() =~= prev);
        assert(next.last() == texts@[i as int]@);
        let parsed = parse_content(texts[i].as_str());
        match parsed {
            None => {
                assert(parsed_profiles(next) == parsed_profiles(prev));
            },
            Some(n) => {
                let ghost p = profile_of(texts@[i as int]@)->Some_0;
                let lower = lowercase(n.ssid.as_str());
                let key = chars_of(lower.as_str());
                let mut j: usize = out.len();
                while j > 0 && lex_lt_exec(&key, &keys[j - 1])
                    invariant
                        j <= out@.len(),
                        keys@.len() == out@.len(),
                        forall|k: int| j <= k < out@.len() ==> lex_lt(key@, #[trigger] keys@[k]@),
                    decreases j,
                {
                    j = j - 1;
                }
                let ghost old_out = out@;
                let ghost old_keys = keys@;
                proof {
                    assert forall|a: int, b: int|
                        0 <= a < b < old_out.len() + 1 implies !lex_lt(
                        lower_of(#[trigger] old_out.insert(j as int, n)[b].ssid@),
                        lower_of(#[trigger] old_out.insert(j as int, n)[a].ssid@),
                    ) by {
                        let s = old_out.insert(j as int, n);
                        if a < j && b == j {
                            assert(old_keys[a]@ == lower_of(old_out[a].ssid@));
                            assert(!lex_lt(key@, old_keys[j - 1]@));
                            if a < j - 1 {
                                assert(!lex_lt(lower_of(old_out[j - 1].ssid@), lower_of(old_out[a].ssid@)));
                                lemma_lex_lt_total(key@, old_keys[j - 1]@);
                                lemma_lex_lt_total(old_keys[j - 1]@, old_keys[a]@);
                                if lex_lt(key@, old_keys[a]@) {
                                    if key@ != old_keys[j - 1]@ {
                                        lemma_lex_lt_trans(old_keys[j - 1]@, key@, old_keys[a]@);
                                    }
                                }
                            }
                        } else if a == j && b > j {
                            assert(lex_lt(key@, old_keys[b - 1]@));
                            lemma_lex_lt_total(key@, old_keys[b - 1]@);
                        } else if a < j && b > j {
                            assert(s[a] == old_out[a] && s[b] == old_out[b - 1]);
                        } else if a > j {
                            assert(s[a] == old_out[a - 1] && s[b] == old_out[b - 1]);
                        } else {
                            assert(s[a] == old_out[a] && s[b] == old_out[b]);
                        }
                    }
                }
                out.insert(j, n);
                keys.insert(j, key);
                proof {
                    let old_pos = pos;
                    let m = old_out.len() as int;
                    let pp = parsed_profiles(prev);
                    let pn = parsed_profiles(next);
                    assert(pn == pp.push(p));
                    pos = old_pos.insert(j as int, m);
                    assert forall|k: int| 0 <= k < out@.len() implies 0 <= #[trigger] pos[k] < pn.len()
                        && network_model(out@[k]) == profile_model(pn[pos[k]]) by {
                        if k < j {
                            assert(pos[k] == old_pos[k] && out@[k] == old_out[k]);
                        } else if k > j {
                            assert(pos[k] == old_pos[k - 1] && out@[k] == old_out[k - 1]);
                        }
                    }
                    lemma_lex_lt_total(key@, key@);
                    assert forall|k: int, l: int|
                        0 <= k < l < out@.len() && lower_of(out@[k].ssid@) == lower_of(out@[l].ssid@)
                        implies #[trigger] pos[k] < #[trigger] pos[l] by {
                        if l == j {
                            assert(pos[k] == old_pos[k]);
                        } else if k == j {
                            assert(out@[l] == old_out[l - 1]);
                            assert(lex_lt(key@, old_keys[l - 1]@));
                            assert(old_keys[l - 1]@ == lower_of(old_out[l - 1].ssid@));
                        } else if k < j && l > j {
                            assert(pos[k] == old_pos[k] && pos[l] == old_pos[l - 1]);
                            assert(out@[k] == old_out[k] && out@[l] == old_out[l - 1]);
                        } else if k > j {
                            assert(pos[k] == old_pos[k - 1] && pos[l] == old_pos[l - 1]);
                            assert(out@[k] == old_out[k - 1] && out@[l] == old_out[l - 1]);
                        } else {
                            assert(pos[k] == old_pos[k] && pos[l] == old_pos[l]);
                            assert(out@[k] == old_out[k] && out@[l] == old_out[l]);
                        }
                    }
                    assert(stable_from(out@, pn, pos));
                    assert(out@.map_values(|n: Network| network_model(n)) =~= old_out.map_values(
                        |n: Network| network_model(n),
                    ).insert(j as int, profile_model(p)));
                    assert(parsed_profiles(next) == parsed_profiles(prev).push(p));
                    assert(parsed_profiles(next).map_values(|p: Profile| profile_model(p))
                        =~= parsed_profiles(prev).map_values(|p: Profile| profile_model(p)).push(
                        profile_model(p),
                    ));
                    assert(forall|k: int| 0 <= k < out@.len() ==> #[trigger] keys@[k]@ == lower_of(out@[k].ssid@)) by {
                        assert forall|k: int| 0 <= k < out@.len() implies #[trigger] keys@[k]@ == lower_of(out@[k].ssid@) by {
                            if k < j {
                                assert(keys@[k] == old_keys[k]);
                            } else if k > j {
                                assert(keys@[k] == old_keys[k - 1]);
                            }
                        }
                    }
                }
            },
        }
        i = i + 1;
    }
    assert(texts@.subrange(0, i as int) =~= texts@);
    out
}

} // verus!
