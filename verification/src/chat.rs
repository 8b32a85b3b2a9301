//! Chat-line rendering: formatting a message and wrapping it into numbered
//! display lines of a fixed width.
//!
//! A message `(user, text)` is formatted as `|user| text`.  The characters
//! are poured into lines: whenever the running column count `m` is a
//! multiple of the width, the pending line is emitted and a new one starts
//! with the prefix ` N ` holding the next line number; the prefix itself
//! advances the column count.

use vstd::prelude::*;

use crate::textutil::{chars_of_str, dec_chars, lemma_dec_chars_len, string_from_chars, usize_to_chars};

verus! {

/// The formatted characters of one message: `|user| text`.
pub open spec fn fmt_chars(user: Seq<char>, text: Seq<char>) -> Seq<char> {
    seq!['|'] + user + seq!['|', ' '] + text
}

/// The numbering prefix a fresh line starts with: a space, the line number
/// in decimal, a space.
pub open spec fn line_prefix(i: nat) -> Seq<char> {
    seq![' '] + dec_chars(i) + seq![' ']
}

/// One wrapping pass over the remaining characters `cs`.  `lines` are the
/// lines emitted so far, `line` the pending line, `m` the running column
/// count and `i` the next line number.  Yields the final lines (the pending
/// line included if non-empty) and the next unused line number.
pub open spec fn wrap_rec(
    cs: Seq<char>,
    width: nat,
    lines: Seq<Seq<char>>,
    line: Seq<char>,
    m: nat,
    i: nat,
) -> (Seq<Seq<char>>, nat)
    recommends
        width > 0,
    decreases cs.len(),
{
    if cs.len() == 0 {
        (
            if line.len() > 0 {
                lines.push(line)
            } else {
                lines
            },
            i,
        )
    } else if m % width == 0 {
        let lines2 = if line.len() > 0 {
            lines.push(line)
        } else {
            lines
        };
        let p = line_prefix(i);
        wrap_rec(cs.drop_first(), width, lines2, p.push(cs[0]), m + p.len() + 1, i + 1)
    } else {
        wrap_rec(cs.drop_first(), width, lines, line.push(cs[0]), m + 1, i)
    }
}

/// The display lines of one message and the next unused line number, when
/// wrapping starts at line number `start` with an empty pending line.
pub open spec fn wrapped(user: Seq<char>, text: Seq<char>, width: nat, start: nat) -> (
    Seq<Seq<char>>,
    nat,
) {
    wrap_rec(fmt_chars(user, text), width, Seq::empty(), Seq::empty(), 0, start)
}

/// The character sequences of a vector of lines.
pub open spec fn lines_view(v: Seq<String>) -> Seq<Seq<char>> {
    v.map_values(|s: String| s@)
}

/// The character sequences of a message log.
pub open spec fn msgs_view(v: Seq<(String, String)>) -> Seq<(Seq<char>, Seq<char>)> {
    v.map_values(|p: (String, String)| (p.0@, p.1@))
}

/// Total formatted length of a message log: what all its `|user| text`
/// lines hold together.
pub open spec fn msgs_fmt_len(msgs: Seq<(Seq<char>, Seq<char>)>) -> nat
    decreases msgs.len(),
{
    if msgs.len() == 0 {
        0
    } else {
        msgs[0].0.len() + msgs[0].1.len() + 3 + msgs_fmt_len(msgs.drop_first())
    }
}

/// The display lines of a whole message log, numbering lines consecutively
/// from `i` across messages, and the next unused line number.
pub open spec fn log_lines_rec(msgs: Seq<(Seq<char>, Seq<char>)>, width: nat, i: nat) -> (
    Seq<Seq<char>>,
    nat,
)
    recommends
        width > 0,
    decreases msgs.len(),
{
    if msgs.len() == 0 {
        (Seq::empty(), i)
    } else {
        let first = wrap_rec(
            fmt_chars(msgs[0].0, msgs[0].1),
            width,
            Seq::empty(),
            Seq::empty(),
            0,
            i,
        );
        let rest = log_lines_rec(msgs.drop_first(), width, first.1);
        (first.0 + rest.0, rest.1)
    }
}

/// A message log's formatted length splits at any index.
proof fn lemma_msgs_fmt_len_split(msgs: Seq<(Seq<char>, Seq<char>)>, i: int)
    requires
        0 <= i <= msgs.len(),
    ensures
        msgs_fmt_len(msgs) == msgs_fmt_len(msgs.take(i)) + msgs_fmt_len(msgs.skip(i)),
    decreases i,
{
    if i == 0 {
        assert(msgs.take(0) =~= Seq::<(Seq<char>, Seq<char>)>::empty());
        assert(msgs.skip(0) =~= msgs);
    } else {
        assert(msgs.take(i)[0] == msgs[0]);
        assert(msgs.take(i).drop_first() =~= msgs.drop_first().take(i - 1));
        assert(msgs.skip(i) =~= msgs.drop_first().skip(i - 1));
        lemma_msgs_fmt_len_split(msgs.drop_first(), i - 1);
    }
}

/// Whether a whole message log stays inside the wrapper's size bound.
/// [`App::create_lines`](crate::app::App::create_lines) asks its callers
/// for exactly this; an oversized log is detected here instead of failing
/// there.
pub fn log_fits(msgs: &Vec<(String, String)>) -> (r: bool)
    ensures
        r == (msgs_fmt_len(msgs_view(msgs@)) + 1 <= usize::MAX / 64),
{
    let ghost mv = msgs_view(msgs@);
    let limit = usize::MAX / 64;
    let n = msgs.len();
    let mut total: usize = 0;
    let mut i: usize = 0;
    proof {
        assert(mv.take(0) =~= Seq::<(Seq<char>, Seq<char>)>::empty());
    }
    while i < n
        invariant
            i <= n,
            n == msgs@.len(),
            mv == msgs_view(msgs@),
            limit == usize::MAX / 64,
            total as nat == msgs_fmt_len(mv.take(i as int)),
            total + 1 <= limit,
        decreases n - i,
    {
        let ghost ii = i as int;
        proof {
            assert(mv[ii].0 == msgs@[ii].0@ && mv[ii].1 == msgs@[ii].1@);
            lemma_msgs_fmt_len_split(mv, ii);
            assert(mv.skip(ii)[0] == mv[ii]);
            assert(msgs_fmt_len(mv.skip(ii)) == mv[ii].0.len() + mv[ii].1.len() + 3
                + msgs_fmt_len(mv.skip(ii).drop_first()));
            lemma_msgs_fmt_len_split(mv.take(ii + 1), ii);
            assert(mv.take(ii + 1).take(ii) =~= mv.take(ii));
            assert(mv.take(ii + 1).skip(ii) =~= seq![mv[ii]]);
            assert(seq![mv[ii]].len() == 1 && seq![mv[ii]][0] == mv[ii]);
            assert(seq![mv[ii]].drop_first() =~= Seq::<(Seq<char>, Seq<char>)>::empty());
            assert(msgs_fmt_len(Seq::<(Seq<char>, Seq<char>)>::empty()) == 0);
            assert(msgs_fmt_len(seq![mv[ii]]) == mv[ii].0.len() + mv[ii].1.len() + 3);
        }
        let ul = msgs[i].0.as_str().unicode_len();
        let tl = msgs[i].1.as_str().unicode_len();
        if ul >= limit || tl >= limit {
            return false;
        }
        let add = ul + tl + 3;
        if total + add + 1 > limit {
            return false;
        }
        total = total + add;
        i += 1;
    }
    proof {
        assert(mv.take(n as int) =~= mv);
    }
    true
}

/// Wraps one message into numbered display lines, starting at line number
/// `start`, and also returns the next unused line number.
pub fn wrap_message(user: &String, text: &String, width: usize, start: usize) -> (r: (
    Vec<String>,
    usize,
))
    requires
        width >= 1,
        start <= usize::MAX / 2,
        user@.len() + text@.len() + 3 <= usize::MAX / 64,
    ensures
        lines_view(r.0@) == wrapped(user@, text@, width as nat, start as nat).0,
        r.1 as nat == wrapped(user@, text@, width as nat, start as nat).1,
        start <= r.1 <= start + user@.len() + text@.len() + 3,
{
    let mut cs: Vec<char> = Vec::new();
    cs.push('|');
    let mut uc = chars_of_str(user.as_str());
    cs.append(&mut uc);
    cs.push('|');
    cs.push(' ');
    let mut tc = chars_of_str(text.as_str());
    cs.append(&mut tc);
    proof {
        assert(cs@ =~= fmt_chars(user@, text@));
    }
    let n = cs.len();
    let ghost target = wrap_rec(
        cs@,
        width as nat,
        Seq::empty(),
        Seq::empty(),
        0,
        start as nat,
    );
    let mut lines: Vec<String> = Vec::new();
    let mut line: Vec<char> = Vec::new();
    let mut m: usize = 0;
    let mut i: usize = start;
    let mut k: usize = 0;
    proof {
        assert(cs@.skip(0) =~= cs@);
        assert(lines_view(lines@) =~= Seq::<Seq<char>>::empty());
    }
    while k < n
        invariant
            k <= n,
            n == cs@.len(),
            width >= 1,
            start <= usize::MAX / 2,
            n <= usize::MAX / 64,
            m <= 23 * k,
            start <= i <= start + k,
            target == wrap_rec(
                cs@,
                width as nat,
                Seq::empty(),
                Seq::empty(),
                0,
                start as nat,
            ),
            wrap_rec(
                cs@.skip(k as int),
                width as nat,
                lines_view(lines@),
                line@,
                m as nat,
                i as nat,
            ) == target,
        decreases n - k,
    {
        let ghost kk = k as int;
        let ghost s = cs@.skip(kk);
        proof {
            assert(s[0] == cs@[kk]);
            assert(s.drop_first() =~= cs@.skip(kk + 1));
        }
        let c = cs[k];
        if m % width == 0 {
            let ghost olv = lines_view(lines@);
            if line.len() > 0 {
                let done = string_from_chars(&line);
                lines.push(done);
                proof {
                    assert(lines_view(lines@) =~= olv.push(line@));
                }
            }
            let mut p: Vec<char> = Vec::new();
            p.push(' ');
            let mut digits = usize_to_chars(i);
            p.append(&mut digits);
            p.push(' ');
            proof {
                assert(p@ =~= line_prefix(i as nat));
                lemma_dec_chars_len(i as nat);
                assert(p@.len() <= 22);
            }
            let pl = p.len();
            line = p;
            line.push(c);
            m = m + pl + 1;
            i = i + 1;
        } else {
            line.push(c);
            m = m + 1;
        }
        k += 1;
    }
    proof {
        assert(cs@.skip(n as int) =~= Seq::<char>::empty());
    }
    if line.len() > 0 {
        let ghost olv = lines_view(lines@);
        let done = string_from_chars(&line);
        lines.push(done);
        proof {
            assert(lines_view(lines@) =~= olv.push(line@));
        }
    }
    (lines, i)
}

} // verus!
