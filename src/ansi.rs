//! Removal of terminal colour sequences (`ESC ... m`) from script output.
use vstd::prelude::*;
use crate::chars::{chars_of, string_of};

verus! {

/// The escape character that opens a terminal control sequence.
pub open spec fn is_escape(c: char) -> bool {
    c == '\x1b'
}

/// Text left of `s` once every escape sequence is removed; `skipping` says
/// whether the scan starts inside a sequence. A sequence runs from the
/// escape character up to and including the next `m`, or to the end.
pub open spec fn strip_from(s: Seq<char>, skipping: bool) -> Seq<char>
    decreases s.len(),
{
    if s.len() == 0 {
        Seq::empty()
    } else if skipping {
        strip_from(s.drop_first(), s[0] != 'm')
    } else if is_escape(s[0]) {
        strip_from(s.drop_first(), true)
    } else {
        seq![s[0]] + strip_from(s.drop_first(), false)
    }
}

pub open spec fn strip_ansi(s: Seq<char>) -> Seq<char> {
    strip_from(s, false)
}

/// Removes every escape sequence (escape character up to and including the
/// next `m`) from `s`; all other characters are kept in order.
pub fn strip_ansi_codes(s: &str) -> (r: String)
    ensures
        r@ == strip_ansi(s@),
{
    let cs = chars_of(s);
    let mut out: Vec<char> = Vec::new();
    let mut skipping = false;
    let mut i: usize = 0;
    assert(cs@.subrange(0, cs@.len() as int) =~= cs@);
    assert(out@ + strip_ansi(s@) =~= strip_ansi(s@));
    while i < cs.len()
        invariant
            cs@ == s@,
            i <= cs@.len(),
            out@ + strip_from(cs@.subrange(i as int, cs@.len() as int), skipping) == strip_ansi(s@),
        decreases cs@.len() - i,
    {
        let c = cs[i];
        let ghost rest = cs@.subrange(i as int, cs@.len() as int);
        assert(rest.drop_first() =~= cs@.subrange(i + 1, cs@.len() as int));
        if skipping {
            skipping = c != 'm';
        } else if c == '\x1b' {
            skipping = true;
        } else {
            let ghost before = out@;
            out.push(c);
            let ghost tail = strip_from(rest.drop_first(), false);
            assert(before + (seq![c] + tail) =~= out@ + tail);
        }
        i = i + 1;
    }
    assert(cs@.subrange(i as int, cs@.len() as int) =~= Seq::<char>::empty());
    string_of(&out)
}

/// Text without escape characters passes through unchanged.
pub proof fn lemma_strip_plain(s: Seq<char>)
    requires
        forall|i: int| 0 <= i < s.len() ==> !is_escape(#[trigger] s[i]),
    ensures
        strip_ansi(s) == s,
    decreases s.len(),
{
    if s.len() > 0 {
        lemma_strip_plain(s.drop_first());
        assert(s =~= seq![s[0]] + s.drop_first());
    }
}

/// One escape sequence, from the escape character up to and including the
/// next `m`, is removed; the plain text before it is kept and the text after
/// it is stripped in turn. Applied repeatedly, this removes any number of
/// sequences.
pub proof fn lemma_strip_one_sequence(before: Seq<char>, inside: Seq<char>, after: Seq<char>)
    requires
        forall|i: int| 0 <= i < before.len() ==> !is_escape(#[trigger] before[i]),
        forall|i: int| 0 <= i < inside.len() ==> #[trigger] inside[i] != 'm',
    ensures
        strip_ansi(before + seq!['\x1b'] + inside + seq!['m'] + after) == before + strip_ansi(after),
    decreases before.len(),
{
    let s = before + seq!['\x1b'] + inside + seq!['m'] + after;
    if before.len() > 0 {
        lemma_strip_one_sequence(before.drop_first(), inside, after);
        assert(s.drop_first() =~= before.drop_first() + seq!['\x1b'] + inside + seq!['m'] + after);
        assert(before =~= seq![before[0]] + before.drop_first());
        assert(seq![before[0]] + (before.drop_first() + strip_ansi(after)) =~= before + strip_ansi(after));
    } else {
        assert(s.drop_first() =~= inside + seq!['m'] + after);
        lemma_skip_sequence(inside, after);
    }
}

/// The text `plain[0] ESC bodies[0] m plain[1] ... ESC bodies[k-1] m plain[k]`.
pub open spec fn with_sequences(plain: Seq<Seq<char>>, bodies: Seq<Seq<char>>) -> Seq<char>
    decreases bodies.len(),
{
    if plain.len() == 0 {
        Seq::empty()
    } else if bodies.len() == 0 {
        plain[0]
    } else {
        plain[0] + seq!['\x1b'] + bodies[0] + seq!['m'] + with_sequences(
            plain.drop_first(),
            bodies.drop_first(),
        )
    }
}

/// The pieces joined in order.
pub open spec fn joined(pieces: Seq<Seq<char>>) -> Seq<char>
    decreases pieces.len(),
{
    if pieces.len() == 0 {
        Seq::empty()
    } else {
        pieces[0] + joined(pieces.drop_first())
    }
}

/// Any number of escape sequences, each from the escape character up to
/// and including the next `m`, are removed, and the plain text between
/// them is kept in order.
pub proof fn lemma_strip_sequences(plain: Seq<Seq<char>>, bodies: Seq<Seq<char>>)
    requires
        plain.len() == bodies.len() + 1,
        forall|i: int, j: int|
            0 <= i < plain.len() && 0 <= j < plain[i].len() ==> !is_escape(#[trigger] plain[i][j]),
        forall|i: int, j: int|
            0 <= i < bodies.len() && 0 <= j < bodies[i].len() ==> #[trigger] bodies[i][j] != 'm',
    ensures
        strip_ansi(with_sequences(plain, bodies)) == joined(plain),
    decreases bodies.len(),
{
    let first = plain[0];
    assert(forall|j: int| 0 <= j < first.len() ==> !is_escape(#[trigger] first[j])) by {
        assert forall|j: int| 0 <= j < first.len() implies !is_escape(#[trigger] first[j]) by {
            assert(plain[0][j] == first[j]);
        }
    }
    lemma_strip_plain(first);
    if bodies.len() == 0 {
        assert(plain.drop_first() =~= Seq::<Seq<char>>::empty());
        assert(joined(plain.drop_first()) == Seq::<char>::empty());
        assert(first + Seq::<char>::empty() =~= first);
    } else {
        let rest_p = plain.drop_first();
        let rest_b = bodies.drop_first();
        assert forall|i: int, j: int|
            0 <= i < rest_p.len() && 0 <= j < rest_p[i].len() implies !is_escape(
            #[trigger] rest_p[i][j],
        ) by {
            assert(rest_p[i] == plain[i + 1]);
        }
        assert forall|i: int, j: int|
            0 <= i < rest_b.len() && 0 <= j < rest_b[i].len() implies #[trigger] rest_b[i][j]
            != 'm' by {
            assert(rest_b[i] == bodies[i + 1]);
        }
        lemma_strip_sequences(rest_p, rest_b);
        let b0 = bodies[0];
        assert(forall|j: int| 0 <= j < b0.len() ==> #[trigger] b0[j] != 'm') by {
            assert forall|j: int| 0 <= j < b0.len() implies #[trigger] b0[j] != 'm' by {
                assert(bodies[0][j] == b0[j]);
            }
        }
        lemma_strip_one_sequence(first, b0, with_sequences(rest_p, rest_b));
    }
}

proof fn lemma_skip_sequence(inside: Seq<char>, after: Seq<char>)
    requires
        forall|i: int| 0 <= i < inside.len() ==> #[trigger] inside[i] != 'm',
    ensures
        strip_from(inside + seq!['m'] + after, true) == strip_ansi(after),
    decreases inside.len(),
{
    let s = inside + seq!['m'] + after;
    if inside.len() > 0 {
        assert(s.drop_first() =~= inside.drop_first() + seq!['m'] + after);
        lemma_skip_sequence(inside.drop_first(), after);
    } else {
        assert(s.drop_first() =~= after);
    }
}

} // verus!
