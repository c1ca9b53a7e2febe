//! Byte-level scanning: line splitting, whitespace tokenizing, trimming.
//!
//! The specification functions walk the input one byte at a time with an
//! accumulator, so that the executable loops can mirror them step by step.

use vstd::prelude::*;

verus! {

/// Whitespace inside a line: space, tab, line feed, form feed, carriage return.
pub open spec fn is_ws(b: u8) -> bool {
    b == 32 || b == 9 || b == 10 || b == 12 || b == 13
}

/// A line terminated by a line feed drops one trailing carriage return.
pub open spec fn strip_cr(l: Seq<u8>) -> Seq<u8> {
    if l.len() > 0 && l[l.len() - 1] == 13 {
        l.drop_last()
    } else {
        l
    }
}

/// Accumulator form of line splitting: `cur` is the line read so far.
pub open spec fn lines_go(s: Seq<u8>, cur: Seq<u8>) -> Seq<Seq<u8>>
    decreases s.len(),
{
    if s.len() == 0 {
        if cur.len() == 0 {
            Seq::empty()
        } else {
            seq![cur]
        }
    } else if s[0] == 10 {
        seq![strip_cr(cur)] + lines_go(s.drop_first(), Seq::empty())
    } else {
        lines_go(s.drop_first(), cur.push(s[0]))
    }
}

/// The lines of a text: split at line feeds, strip a carriage return
/// before each line feed, and do not count a final terminator as an
/// empty last line.
pub open spec fn spec_lines(s: Seq<u8>) -> Seq<Seq<u8>> {
    lines_go(s, Seq::empty())
}

/// Accumulator form of whitespace tokenizing: `cur` is the token read so far.
pub open spec fn tokens_go(s: Seq<u8>, cur: Seq<u8>) -> Seq<Seq<u8>>
    decreases s.len(),
{
    if s.len() == 0 {
        if cur.len() == 0 {
            Seq::empty()
        } else {
            seq![cur]
        }
    } else if is_ws(s[0]) {
        if cur.len() == 0 {
            tokens_go(s.drop_first(), Seq::empty())
        } else {
            seq![cur] + tokens_go(s.drop_first(), Seq::empty())
        }
    } else {
        tokens_go(s.drop_first(), cur.push(s[0]))
    }
}

/// The maximal runs of non-whitespace bytes, in order.
pub open spec fn spec_tokens(s: Seq<u8>) -> Seq<Seq<u8>> {
    tokens_go(s, Seq::empty())
}

pub open spec fn trim_start_go(s: Seq<u8>) -> Seq<u8>
    decreases s.len(),
{
    if s.len() > 0 && is_ws(s[0]) {
        trim_start_go(s.drop_first())
    } else {
        s
    }
}

pub open spec fn trim_end_go(s: Seq<u8>) -> Seq<u8>
    decreases s.len(),
{
    if s.len() > 0 && is_ws(s[s.len() - 1]) {
        trim_end_go(s.drop_last())
    } else {
        s
    }
}

/// A text without its leading and trailing whitespace.
pub open spec fn spec_trim(s: Seq<u8>) -> Seq<u8> {
    trim_end_go(trim_start_go(s))
}

/// The views of a sequence of byte vectors.
pub open spec fn views(s: Seq<Vec<u8>>) -> Seq<Seq<u8>> {
    s.map_values(|v: Vec<u8>| v@)
}

fn is_ws_byte(b: u8) -> (r: bool)
    ensures
        r == is_ws(b),
{
    b == 32 || b == 9 || b == 10 || b == 12 || b == 13
}

/// Copies the bytes `s[a..b]` into a fresh vector.
pub fn copy_range(s: &Vec<u8>, a: usize, b: usize) -> (r: Vec<u8>)
    requires
        a <= b <= s.len(),
    ensures
        r@ == s@.subrange(a as int, b as int),
{
    let mut r: Vec<u8> = Vec::new();
    let mut i: usize = a;
    while i < b
        invariant
            a <= i <= b <= s.len(),
            r@ == s@.subrange(a as int, i as int),
        decreases b - i,
    {
        r.push(s[i]);
        i = i + 1;
        proof {
            assert(s@.subrange(a as int, i as int) =~= s@.subrange(a as int, i - 1).push(
                s@[i - 1],
            ));
        }
    }
    r
}

/// Splits a text into its lines, as `spec_lines` describes.
pub fn split_lines(s: &Vec<u8>) -> (r: Vec<Vec<u8>>)
    ensures
        views(r@) == spec_lines(s@),
{
    let mut out: Vec<Vec<u8>> = Vec::new();
    let mut start: usize = 0;
    let mut i: usize = 0;
    proof {
        assert(s@.skip(0) =~= s@);
        assert(s@.subrange(0, 0) =~= Seq::<u8>::empty());
    }
    while i < s.len()
        invariant
            start <= i <= s.len(),
            spec_lines(s@) == views(out@) + lines_go(s@.skip(i as int), s@.subrange(start as int, i as int)),
        decreases s.len() - i,
    {
        let ghost rest = s@.skip(i as int);
        let ghost cur = s@.subrange(start as int, i as int);
        assert(rest[0] == s@[i as int]);
        if s[i] == 10 {
            let mut line = copy_range(s, start, i);
            if line.len() > 0 && line[line.len() - 1] == 13 {
                line.pop();
            }
            assert(line@ == strip_cr(cur));
            let ghost old_out = out@;
            out.push(line);
            proof {
                assert(lines_go(rest, cur) == seq![strip_cr(cur)] + lines_go(
                    rest.drop_first(),
                    Seq::empty(),
                ));
                assert(rest.drop_first() =~= s@.skip(i + 1));
                assert(views(out@) =~= views(old_out).push(line@));
                assert(views(out@) + lines_go(s@.skip(i + 1), Seq::empty()) =~= views(old_out)
                    + lines_go(rest, cur));
                assert(s@.subrange(i + 1, i + 1) =~= Seq::<u8>::empty());
            }
            start = i + 1;
        } else {
            proof {
                assert(lines_go(rest, cur) == lines_go(rest.drop_first(), cur.push(rest[0])));
                assert(rest.drop_first() =~= s@.skip(i + 1));
                assert(cur.push(rest[0]) =~= s@.subrange(start as int, i + 1));
            }
        }
        i = i + 1;
    }
    if start < s.len() {
        let line = copy_range(s, start, s.len());
        let ghost old_out = out@;
        out.push(line);
        proof {
            assert(s@.skip(s.len() as int) =~= Seq::<u8>::empty());
            assert(lines_go(Seq::empty(), line@) == seq![line@]);
            assert(views(out@) =~= views(old_out).push(line@));
            assert(views(out@) =~= views(old_out) + seq![line@]);
        }
    } else {
        proof {
            assert(s@.skip(s.len() as int) =~= Seq::<u8>::empty());
            assert(s@.subrange(start as int, s.len() as int) =~= Seq::<u8>::empty());
            assert(views(out@) + Seq::<Seq<u8>>::empty() =~= views(out@));
        }
    }
    out
}

/// Splits a line into whitespace-separated tokens, as `spec_tokens` describes.
pub fn split_tokens(s: &Vec<u8>) -> (r: Vec<Vec<u8>>)
    ensures
        views(r@) == spec_tokens(s@),
{
    let mut out: Vec<Vec<u8>> = Vec::new();
    let mut start: usize = 0;
    let mut in_tok: bool = false;
    let mut i: usize = 0;
    proof {
        assert(s@.skip(0) =~= s@);
        assert(s@.subrange(0, 0) =~= Seq::<u8>::empty());
    }
    while i < s.len()
        invariant
            i <= s.len(),
            in_tok ==> start < i,
            spec_tokens(s@) == views(out@) + tokens_go(
                s@.skip(i as int),
                if in_tok {
                    s@.subrange(start as int, i as int)
                } else {
                    Seq::<u8>::empty()
                },
            ),
        decreases s.len() - i,
    {
        let ghost rest = s@.skip(i as int);
        let ghost cur = if in_tok {
            s@.subrange(start as int, i as int)
        } else {
            Seq::<u8>::empty()
        };
        assert(rest[0] == s@[i as int]);
        if is_ws_byte(s[i]) {
            if in_tok {
                let tok = copy_range(s, start, i);
                let ghost old_out = out@;
                out.push(tok);
                proof {
                    assert(tokens_go(rest, cur) == seq![cur] + tokens_go(
                        rest.drop_first(),
                        Seq::empty(),
                    ));
                    assert(rest.drop_first() =~= s@.skip(i + 1));
                    assert(views(out@) =~= views(old_out).push(tok@));
                    assert(views(out@) + tokens_go(s@.skip(i + 1), Seq::empty()) =~= views(
                        old_out,
                    ) + tokens_go(rest, cur));
                }
                in_tok = false;
            } else {
                proof {
                    assert(tokens_go(rest, cur) == tokens_go(rest.drop_first(), Seq::empty()));
                    assert(rest.drop_first() =~= s@.skip(i + 1));
                }
            }
        } else {
            if !in_tok {
                start = i;
                in_tok = true;
            }
            proof {
                assert(tokens_go(rest, cur) == tokens_go(rest.drop_first(), cur.push(rest[0])));
                assert(rest.drop_first() =~= s@.skip(i + 1));
                assert(cur.push(rest[0]) =~= s@.subrange(start as int, i + 1));
            }
        }
        i = i + 1;
    }
    proof {
        assert(s@.skip(s.len() as int) =~= Seq::<u8>::empty());
    }
    if in_tok {
        let tok = copy_range(s, start, s.len());
        let ghost old_out = out@;
        out.push(tok);
        proof {
            assert(tokens_go(Seq::empty(), tok@) == seq![tok@]);
            assert(views(out@) =~= views(old_out).push(tok@));
            assert(views(out@) =~= views(old_out) + seq![tok@]);
        }
    } else {
        proof {
            assert(views(out@) + Seq::<Seq<u8>>::empty() =~= views(out@));
        }
    }
    out
}

/// Removes leading and trailing whitespace, as `spec_trim` describes.
pub fn trim_ws(s: &Vec<u8>) -> (r: Vec<u8>)
    ensures
        r@ == spec_trim(s@),
{
    let mut a: usize = 0;
    proof {
        assert(s@.skip(0) =~= s@);
    }
    while a < s.len() && is_ws_byte(s[a])
        invariant
            a <= s.len(),
            trim_start_go(s@) == trim_start_go(s@.skip(a as int)),
        decreases s.len() - a,
    {
        proof {
            let t = s@.skip(a as int);
            assert(t[0] == s@[a as int]);
            assert(trim_start_go(t) == trim_start_go(t.drop_first()));
            assert(t.drop_first() =~= s@.skip(a + 1));
        }
        a = a + 1;
    }
    proof {
        let t = s@.skip(a as int);
        if a < s.len() {
            assert(t[0] == s@[a as int]);
        }
        assert(trim_start_go(t) == t);
    }
    let mut b: usize = s.len();
    proof {
        assert(s@.skip(a as int).take(b - a) =~= s@.skip(a as int));
    }
    while b > a && is_ws_byte(s[b - 1])
        invariant
            a <= b <= s.len(),
            trim_end_go(trim_start_go(s@)) == trim_end_go(s@.skip(a as int).take(b - a)),
        decreases b,
    {
        proof {
            let t = s@.skip(a as int).take(b - a);
            assert(t[t.len() - 1] == s@[b - 1]);
            assert(trim_end_go(t) == trim_end_go(t.drop_last()));
            assert(t.drop_last() =~= s@.skip(a as int).take(b - 1 - a));
        }
        b = b - 1;
    }
    proof {
        let t = s@.skip(a as int).take(b - a);
        if b > a {
            assert(t[t.len() - 1] == s@[b - 1]);
        }
        assert(trim_end_go(t) == t);
        assert(t =~= s@.subrange(a as int, b as int));
    }
    copy_range(s, a, b)
}

/// Copies a byte vector.
pub fn copy_bytes(s: &Vec<u8>) -> (r: Vec<u8>)
    ensures
        r@ == s@,
{
    let r = copy_range(s, 0, s.len());
    proof {
        assert(s@.subrange(0, s.len() as int) =~= s@);
    }
    r
}

} // verus!
