//! The pure parts of running the management script: choosing the script
//! path, building the elevated shell command, and assembling the captured
//! output.
use vstd::prelude::*;
use crate::ansi::{strip_ansi, strip_ansi_codes};
use crate::chars::{chars_of, extend_str, string_of};

verus! {

/// The captured result of one run of the script.
#[derive(Debug, Clone)]
pub struct ScriptOutput {
    pub stdout: String,
    pub stderr: String,
    pub success: bool,
}

/// File name of the management script.
pub open spec fn script_name() -> Seq<char> {
    "wifi-manager.sh"@
}

/// The lines joined, each followed by a newline.
pub open spec fn joined_lines(lines: Seq<Seq<char>>) -> Seq<char>
    decreases lines.len(),
{
    if lines.len() == 0 {
        Seq::empty()
    } else {
        joined_lines(lines.drop_last()) + lines.last() + seq!['\n']
    }
}

pub open spec fn lines_view(lines: Seq<String>) -> Seq<Seq<char>> {
    lines.map_values(|s: String| s@)
}

/// The text of a captured stream: its lines, each followed by a newline,
/// with terminal escape sequences removed.
pub fn stream_text(lines: &Vec<String>) -> (r: String)
    ensures
        r@ == strip_ansi(joined_lines(lines_view(lines@))),
{
    let mut all: Vec<char> = Vec::new();
    let mut i: usize = 0;
    while i < lines.len()
        invariant
            i <= lines@.len(),
            all@ == joined_lines(lines_view(lines@.subrange(0, i as int))),
        decreases lines@.len() - i,
    {
        assert(lines_view(lines@.subrange(0, i + 1)).drop_last() =~= lines_view(
            lines@.subrange(0, i as int),
        ));
        extend_str(&mut all, lines[i].as_str());
        extend_str(&mut all, "\n");
        proof {
            reveal_strlit("\n");
        }
        i = i + 1;
    }
    assert(lines@.subrange(0, i as int) =~= lines@);
    let text = string_of(&all);
    strip_ansi_codes(text.as_str())
}

/// The result of a finished run, from the lines read on each stream and
/// the exit status.
pub fn script_output(stdout_lines: &Vec<String>, stderr_lines: &Vec<String>, success: bool) -> (r:
    ScriptOutput)
    ensures
        r.stdout@ == strip_ansi(joined_lines(lines_view(stdout_lines@))),
        r.stderr@ == strip_ansi(joined_lines(lines_view(stderr_lines@))),
        r.success == success,
{
    ScriptOutput { stdout: stream_text(stdout_lines), stderr: stream_text(stderr_lines), success }
}

/// The first candidate that exists, or the bare script name when none does.
pub open spec fn first_existing(candidates: Seq<Seq<char>>, exists: Seq<bool>) -> Seq<char>
    decreases candidates.len(),
{
    if candidates.len() == 0 || exists.len() == 0 {
        script_name()
    } else if exists[0] {
        candidates[0]
    } else {
        first_existing(candidates.drop_first(), exists.drop_first())
    }
}

/// Picks the script path from the candidates in order of preference, where
/// `exists[i]` tells whether `candidates[i]` exists; falls back to the bare
/// script name.
pub fn resolve_script_path(candidates: &Vec<String>, exists: &Vec<bool>) -> (r: String)
    requires
        candidates@.len() == exists@.len(),
    ensures
        r@ == first_existing(lines_view(candidates@), exists@),
{
    let mut i: usize = 0;
    let ghost cs = lines_view(candidates@);
    assert(cs.subrange(0, cs.len() as int) =~= cs);
    assert(exists@.subrange(0, exists@.len() as int) =~= exists@);
    while i < candidates.len()
        invariant
            candidates@.len() == exists@.len(),
            cs == lines_view(candidates@),
            i <= cs.len(),
            first_existing(cs, exists@) == first_existing(
                cs.subrange(i as int, cs.len() as int),
                exists@.subrange(i as int, exists@.len() as int),
            ),
        decreases cs.len() - i,
    {
        assert(cs.subrange(i as int, cs.len() as int).drop_first() =~= cs.subrange(
            i + 1,
            cs.len() as int,
        ));
        assert(exists@.subrange(i as int, exists@.len() as int).drop_first() =~= exists@.subrange(
            i + 1,
            exists@.len() as int,
        ));
        if exists[i] {
            let r = candidates[i].as_str().to_owned();
            return r;
        }
        i = i + 1;
    }
    "wifi-manager.sh".to_owned()
}

/// The shell command run under the privilege-escalation front-end: change
/// to the script's directory, then run the script with `bash`. Both paths
/// are single-quoted so that spaces in them are kept.
pub open spec fn elevated_command_text(dir: Seq<char>, script: Seq<char>, cmd: Seq<char>) -> Seq<
    char,
> {
    "cd '"@ + dir + "' && bash '"@ + script + "' "@ + cmd
}

pub fn elevated_shell_command(dir: &str, script: &str, cmd: &str) -> (r: String)
    ensures
        r@ == elevated_command_text(dir@, script@, cmd@),
{
    let mut out: Vec<char> = Vec::new();
    extend_str(&mut out, "cd '");
    extend_str(&mut out, dir);
    extend_str(&mut out, "' && bash '");
    extend_str(&mut out, script);
    extend_str(&mut out, "' ");
    extend_str(&mut out, cmd);
    string_of(&out)
}

/// The text shown for a finished command: its output when it succeeded,
/// its output and error streams otherwise, or the error that stopped it.
pub open spec fn report_text(result: Result<ScriptOutput, String>) -> Seq<char> {
    match result {
        Ok(o) => if o.success {
            o.stdout@
        } else {
            o.stdout@ + "\\n"@ + o.stderr@
        },
        Err(e) => e@,
    }
}

pub fn command_report(result: Result<ScriptOutput, String>) -> (r: String)
    ensures
        r@ == report_text(result),
{
    match result {
        Ok(o) => {
            if o.success {
                o.stdout
            } else {
                let mut out = chars_of(o.stdout.as_str());
                extend_str(&mut out, "\\n");
                extend_str(&mut out, o.stderr.as_str());
                string_of(&out)
            }
        },
        Err(e) => e,
    }
}

} // verus!
