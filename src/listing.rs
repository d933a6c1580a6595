//! What the network list shows: the networks that match the search, and
//! the text in each password cell.
use vstd::prelude::*;
use crate::chars::{chars_of, contains_chars, occurs_in};
use crate::collection::{lower_of, lowercase};
use crate::network::Network;

verus! {

/// A network matches the search when the query is empty or its lowercase
/// form occurs in the lowercase SSID.
pub open spec fn matches_query(ssid: Seq<char>, query: Seq<char>) -> bool {
    query.len() == 0 || occurs_in(lower_of(query), lower_of(ssid))
}

/// Positions, in increasing order, of the networks that match the query.
pub open spec fn matching_positions(ns: Seq<Network>, query: Seq<char>) -> Seq<usize>
    decreases ns.len(),
{
    if ns.len() == 0 {
        Seq::empty()
    } else {
        let rest = matching_positions(ns.drop_last(), query);
        if matches_query(ns.last().ssid@, query) {
            rest.push((ns.len() - 1) as usize)
        } else {
            rest
        }
    }
}

/// The positions of the networks that the search shows.
pub fn filter_networks(networks: &Vec<Network>, query: &str) -> (r: Vec<usize>)
    ensures
        r@ == matching_positions(networks@, query@),
{
    let empty = query.is_empty();
    let lq = lowercase(query);
    let q = chars_of(lq.as_str());
    let mut out: Vec<usize> = Vec::new();
    let mut i: usize = 0;
    while i < networks.len()
        invariant
            i <= networks@.len(),
            empty == (query@.len() == 0),
            q@ == lower_of(query@),
            out@ == matching_positions(networks@.subrange(0, i as int), query@),
        decreases networks@.len() - i,
    {
        let ghost next = networks@.subrange(0, i + 1);
        assert(next.drop_last() =~= networks@.subrange(0, i as int));
        let hit = if empty {
            true
        } else {
            let ls = lowercase(networks[i].ssid.as_str());
            let s = chars_of(ls.as_str());
            contains_chars(&s, &q)
        };
        if hit {
            out.push(i);
        }
        i = i + 1;
    }
    assert(networks@.subrange(0, i as int) =~= networks@);
    out
}

/// The text of a password cell: the password itself (or `N/A`) when it is
/// shown, a row of dots for a hidden password, `N/A` without one.
pub open spec fn password_cell_text(password: Option<String>, shown: bool) -> Seq<char> {
    match password {
        Some(p) => if shown {
            p@
        } else {
            "••••••••"@
        },
        None => "N/A"@,
    }
}

pub fn password_cell(network: &Network, shown: bool) -> (r: String)
    ensures
        r@ == password_cell_text(network.password, shown),
{
    match &network.password {
        Some(p) => {
            if shown {
                p.clone()
            } else {
                "••••••••".to_owned()
            }
        },
        None => "N/A".to_owned(),
    }
}

} // verus!
