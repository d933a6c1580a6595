//! The profile directory: which files hold profiles, and the sync-status
//! check against the report.
use vstd::prelude::*;
use crate::chars::{chars_of, occurs_in, contains_chars};

verus! {

/// Whether a file name has the `nmconnection` extension: a name that ends in
/// `.nmconnection` with at least one character before the dot.
pub open spec fn is_profile_name(name: Seq<char>) -> bool {
    name.len() > 13 && name.subrange(name.len() - 13, name.len() as int) == ".nmconnection"@
}

/// Whether a directory entry named `name` is a profile file.
pub fn is_profile_file_name(name: &str) -> (r: bool)
    ensures
        r == is_profile_name(name@),
{
    let cs = chars_of(name);
    let ext = chars_of(".nmconnection");
    proof {
        reveal_strlit(".nmconnection");
    }
    let n: usize = cs.len();
    if n <= 13 {
        return false;
    }
    let mut i: usize = 0;
    while i < 13
        invariant
            n == cs@.len(),
            cs@ == name@,
            n > 13,
            ext@ == ".nmconnection"@,
            ext@.len() == 13,
            i <= 13,
            forall|k: int| 0 <= k < i ==> cs@[n - 13 + k] == ext@[k],
        decreases 13 - i,
    {
        if cs[n - 13 + i] != ext[i] {
            let ghost tail = cs@.subrange(n - 13, n as int);
            assert(tail[i as int] == cs@[n - 13 + i]);
            assert(tail[i as int] != ext@[i as int]);
            assert(tail != ".nmconnection"@);
            return false;
        }
        i = i + 1;
    }
    assert(cs@.subrange(n - 13, n as int) =~= ext@);
    true
}

/// How many of the names are profile file names.
pub open spec fn profile_name_count(names: Seq<Seq<char>>) -> nat
    decreases names.len(),
{
    if names.len() == 0 {
        0
    } else {
        profile_name_count(names.drop_last()) + if is_profile_name(names.last()) {
            1nat
        } else {
            0nat
        }
    }
}

pub open spec fn names_view(names: Seq<String>) -> Seq<Seq<char>> {
    names.map_values(|s: String| s@)
}

/// Counts the profile files among the names of a directory's entries.
pub fn count_profile_files(names: &Vec<String>) -> (r: usize)
    ensures
        r == profile_name_count(names_view(names@)),
{
    let mut count: usize = 0;
    let mut i: usize = 0;
    while i < names.len()
        invariant
            i <= names@.len(),
            count <= i,
            count == profile_name_count(names_view(names@.subrange(0, i as int))),
        decreases names@.len() - i,
    {
        let is_profile = is_profile_file_name(names[i].as_str());
        assert(names_view(names@.subrange(0, i + 1)).drop_last() =~= names_view(
            names@.subrange(0, i as int),
        ));
        if is_profile {
            count = count + 1;
        }
        i = i + 1;
    }
    assert(names@.subrange(0, i as int) =~= names@);
    count
}

/// A data row of the report: a table line that is neither the header (it
/// names the `Network Name` column) nor the separator (`---`).
pub open spec fn is_data_row(line: Seq<char>) -> bool {
    line.len() > 0 && line[0] == '|' && !occurs_in("Network Name"@, line) && !occurs_in(
        "---"@,
        line,
    )
}

pub open spec fn row_count(line: Seq<char>) -> nat {
    if is_data_row(line) {
        1
    } else {
        0
    }
}

/// Data rows in the text `s`, where `cur` holds the unfinished line before
/// it; lines end at `\n`.
pub open spec fn rows_in(s: Seq<char>, cur: Seq<char>) -> nat
    decreases s.len(),
{
    if s.len() == 0 {
        row_count(cur)
    } else if s[0] == '\n' {
        row_count(cur) + rows_in(s.drop_first(), Seq::empty())
    } else {
        rows_in(s.drop_first(), cur.push(s[0]))
    }
}

/// Number of data rows in the text of a report.
pub open spec fn report_rows(content: Seq<char>) -> nat {
    rows_in(content, Seq::empty())
}

fn is_data_row_exec(line: &Vec<char>) -> (r: bool)
    ensures
        r == is_data_row(line@),
{
    if line.len() == 0 || line[0] != '|' {
        return false;
    }
    let header = chars_of("Network Name");
    let rule = chars_of("---");
    !contains_chars(line, &header) && !contains_chars(line, &rule)
}

/// Counts the data rows of a report table.
pub fn count_report_rows(content: &str) -> (r: usize)
    ensures
        r == report_rows(content@),
{
    let cs = chars_of(content);
    let mut cur: Vec<char> = Vec::new();
    let mut count: usize = 0;
    let mut i: usize = 0;
    assert(cs@.subrange(0, cs@.len() as int) =~= cs@);
    while i < cs.len()
        invariant
            cs@ == content@,
            i <= cs@.len(),
            count + cur@.len() <= i,
            report_rows(content@) == count + rows_in(cs@.subrange(i as int, cs@.len() as int), cur@),
        decreases cs@.len() - i,
    {
        let ghost rest = cs@.subrange(i as int, cs@.len() as int);
        assert(rest.drop_first() =~= cs@.subrange(i + 1, cs@.len() as int));
        let c = cs[i];
        if c == '\n' {
            if is_data_row_exec(&cur) {
                count = count + 1;
            }
            cur = Vec::new();
            assert(cur@ =~= Seq::<char>::empty());
        } else {
            cur.push(c);
        }
        i = i + 1;
    }
    assert(cs@.subrange(i as int, cs@.len() as int) =~= Seq::<char>::empty());
    if is_data_row_exec(&cur) {
        count = count + 1;
    }
    count
}

/// The sync status `(in_sync, profile_count)` for the given counts: in sync
/// only when both counts are equal and not zero.
pub open spec fn sync_of(profiles: nat, rows: nat) -> (bool, usize) {
    (profiles == rows && profiles > 0, profiles as usize)
}

/// Sync status of a data directory, from the names of the entries of its
/// profile directory (`None` when that cannot be read) and the text of its
/// report (`None` when it is missing or cannot be read).
pub fn sync_status(names: Option<&Vec<String>>, report: Option<&str>) -> (r: (bool, usize))
    ensures
        r == sync_of(
            match names {
                Some(v) => profile_name_count(names_view(v@)),
                None => 0,
            },
            match report {
                Some(t) => report_rows(t@),
                None => 0,
            },
        ),
{
    let profiles: usize = match names {
        Some(v) => count_profile_files(v),
        None => 0,
    };
    let rows: usize = match report {
        Some(t) => count_report_rows(t),
        None => 0,
    };
    (profiles == rows && profiles > 0, profiles)
}

/// An empty or unreadable profile directory is never in sync, whatever the
/// report holds, and counts no profiles.
pub proof fn lemma_empty_directory_not_in_sync(names: Option<Seq<Seq<char>>>, report: Option<Seq<char>>)
    requires
        match names {
            Some(v) => profile_name_count(v) == 0,
            None => true,
        },
    ensures
        sync_of(
            match names {
                Some(v) => profile_name_count(v),
                None => 0,
            },
            match report {
                Some(t) => report_rows(t),
                None => 0,
            },
        ) == (false, 0usize),
{
}

} // verus!
