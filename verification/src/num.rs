//! Numeric tokens: unsigned integers, plain decimal numbers, and the
//! rounding rule that turns a real charge into a formal charge.
//!
//! A decimal token is an optional sign, digits, an optional point, and
//! digits, with at least one digit in all.  It is kept exactly as a sign,
//! an integer mantissa and a decimal scale: the token stands for
//! `mant / 10^scale`, negated when the sign is negative.

use vstd::prelude::*;

verus! {

pub open spec fn is_digit(b: u8) -> bool {
    48 <= b <= 57
}

/// Accumulator form of reading an unsigned integer: digits only.
pub open spec fn scan_uint(s: Seq<u8>, m: nat) -> Option<nat>
    decreases s.len(),
{
    if s.len() == 0 {
        Some(m)
    } else if is_digit(s[0]) {
        scan_uint(s.drop_first(), (m * 10 + s[0] - 48) as nat)
    } else {
        None
    }
}

/// The value of an unsigned-integer token, when it is one made of digits
/// alone and its value fits the machine word.
pub open spec fn spec_parse_usize(s: Seq<u8>) -> Option<usize> {
    if s.len() == 0 {
        None
    } else {
        match scan_uint(s, 0) {
            Some(v) => if v <= usize::MAX {
                Some(v as usize)
            } else {
                None
            },
            None => None,
        }
    }
}

/// Reading on can only grow the accumulated value.
proof fn lemma_scan_uint_ge(s: Seq<u8>, m: nat)
    ensures
        scan_uint(s, m) matches Some(v) ==> v >= m,
    decreases s.len(),
{
    if s.len() > 0 && is_digit(s[0]) {
        lemma_scan_uint_ge(s.drop_first(), (m * 10 + s[0] - 48) as nat);
    }
}

/// Parses an unsigned-integer token, as `spec_parse_usize` describes.
pub fn parse_usize(t: &Vec<u8>) -> (r: Option<usize>)
    ensures
        r == spec_parse_usize(t@),
{
    if t.len() == 0 {
        return None;
    }
    let mut acc: usize = 0;
    let mut i: usize = 0;
    proof {
        assert(t@.skip(0) =~= t@);
    }
    while i < t.len()
        invariant
            i <= t.len(),
            scan_uint(t@, 0) == scan_uint(t@.skip(i as int), acc as nat),
        decreases t.len() - i,
    {
        let ghost rest = t@.skip(i as int);
        assert(rest[0] == t@[i as int]);
        let c = t[i];
        if c < 48 || c > 57 {
            assert(scan_uint(rest, acc as nat) is None);
            return None;
        }
        let d = c - 48;
        if acc > (usize::MAX - d as usize) / 10 {
            proof {
                let next: nat = acc as nat * 10 + d as nat;
                assert(acc >= (usize::MAX - d as usize) / 10 + 1);
                assert(acc as nat * 10 >= ((usize::MAX - d as usize) / 10 + 1) * 10) by (nonlinear_arith)
                    requires
                        acc >= (usize::MAX - d as usize) / 10 + 1,
                ;
                assert(((usize::MAX - d as usize) / 10) * 10 + 10 > usize::MAX - d) by (nonlinear_arith);
                assert(next > usize::MAX);
                assert(scan_uint(rest, acc as nat) == scan_uint(rest.drop_first(), next));
                lemma_scan_uint_ge(rest.drop_first(), next);
            }
            return None;
        }
        proof {
            assert(scan_uint(rest, acc as nat) == scan_uint(
                rest.drop_first(),
                acc as nat * 10 + d as nat,
            ));
            assert(rest.drop_first() =~= t@.skip(i + 1));
        }
        acc = acc * 10 + d as usize;
        i = i + 1;
    }
    proof {
        assert(t@.skip(t.len() as int) =~= Seq::<u8>::empty());
        assert(scan_uint(Seq::empty(), acc as nat) == Some(acc as nat));
    }
    Some(acc)
}

/// A plain decimal number, kept exactly: the token stands for
/// `mant / 10^scale`, negated when `neg` holds.
#[derive(Clone, Copy, Debug, PartialEq, Eq, Structural)]
pub struct Decimal {
    pub neg: bool,
    pub mant: u64,
    pub scale: usize,
}

/// The largest mantissa a token may carry.
pub open spec fn mant_cap() -> nat {
    i64::MAX as nat
}

/// Accumulator form of reading digits with one optional decimal point:
/// yields mantissa, scale and the number of digits read.
pub open spec fn scan_dec(s: Seq<u8>, seen_dot: bool, nd: nat, m: nat, sc: nat) -> Option<
    (nat, nat, nat),
>
    decreases s.len(),
{
    if s.len() == 0 {
        Some((m, sc, nd))
    } else if s[0] == 46 {
        if seen_dot {
            None
        } else {
            scan_dec(s.drop_first(), true, nd, m, sc)
        }
    } else if is_digit(s[0]) {
        scan_dec(
            s.drop_first(),
            seen_dot,
            nd + 1,
            (m * 10 + s[0] - 48) as nat,
            if seen_dot {
                sc + 1
            } else {
                sc
            },
        )
    } else {
        None
    }
}

/// The value of a decimal token: an optional sign, then digits with at
/// most one point and at least one digit, the mantissa within bounds.
pub open spec fn spec_parse_decimal(s: Seq<u8>) -> Option<Decimal> {
    let neg = s.len() > 0 && s[0] == 45;
    let rest = if s.len() > 0 && (s[0] == 45 || s[0] == 43) {
        s.drop_first()
    } else {
        s
    };
    match scan_dec(rest, false, 0, 0, 0) {
        Some((m, sc, nd)) => if nd >= 1 && m <= mant_cap() && sc <= usize::MAX {
            Some(Decimal { neg, mant: m as u64, scale: sc as usize })
        } else {
            None
        },
        None => None,
    }
}

/// Reading on can only grow the accumulated mantissa.
proof fn lemma_scan_dec_ge(s: Seq<u8>, seen_dot: bool, nd: nat, m: nat, sc: nat)
    ensures
        scan_dec(s, seen_dot, nd, m, sc) matches Some(t) ==> t.0 >= m,
    decreases s.len(),
{
    if s.len() > 0 {
        if s[0] == 46 {
            if !seen_dot {
                lemma_scan_dec_ge(s.drop_first(), true, nd, m, sc);
            }
        } else if is_digit(s[0]) {
            lemma_scan_dec_ge(
                s.drop_first(),
                seen_dot,
                nd + 1,
                (m * 10 + s[0] - 48) as nat,
                if seen_dot {
                    sc + 1
                } else {
                    sc
                },
            );
        }
    }
}

/// Parses a decimal token, as `spec_parse_decimal` describes.
pub fn parse_decimal(t: &Vec<u8>) -> (r: Option<Decimal>)
    ensures
        r == spec_parse_decimal(t@),
{
    let mut i: usize = 0;
    let mut neg: bool = false;
    if t.len() > 0 && (t[0] == 45 || t[0] == 43) {
        neg = t[0] == 45;
        i = 1;
    }
    let ghost rest0 = t@.skip(i as int);
    proof {
        if i == 0 {
            assert(t@.skip(0) =~= t@);
        } else {
            assert(t@.drop_first() =~= t@.skip(1));
        }
    }
    let cap: u64 = 9223372036854775807;
    let mut acc: u64 = 0;
    let mut sc: usize = 0;
    let mut nd: usize = 0;
    let mut seen_dot: bool = false;
    while i < t.len()
        invariant
            i <= t.len(),
            nd <= i,
            sc <= i,
            acc <= cap,
            cap == 9223372036854775807u64,
            neg == (t@.len() > 0 && t@[0] == 45),
            rest0 == if t@.len() > 0 && (t@[0] == 45 || t@[0] == 43) {
                t@.drop_first()
            } else {
                t@
            },
            scan_dec(rest0, false, 0, 0, 0) == scan_dec(
                t@.skip(i as int),
                seen_dot,
                nd as nat,
                acc as nat,
                sc as nat,
            ),
        decreases t.len() - i,
    {
        let ghost rest = t@.skip(i as int);
        assert(rest[0] == t@[i as int]);
        let c = t[i];
        if c == 46 {
            if seen_dot {
                assert(scan_dec(rest, seen_dot, nd as nat, acc as nat, sc as nat) is None);
                return None;
            }
            seen_dot = true;
            proof {
                assert(scan_dec(rest, false, nd as nat, acc as nat, sc as nat) == scan_dec(
                    rest.drop_first(),
                    true,
                    nd as nat,
                    acc as nat,
                    sc as nat,
                ));
                assert(rest.drop_first() =~= t@.skip(i + 1));
            }
        } else if c >= 48 && c <= 57 {
            let d = c - 48;
            let ghost next: nat = acc as nat * 10 + d as nat;
            if acc > (cap - d as u64) / 10 {
                proof {
                    assert(acc >= (cap - d as u64) / 10 + 1);
                    assert(acc as nat * 10 >= ((cap - d as u64) / 10 + 1) * 10) by (nonlinear_arith)
                        requires
                            acc >= (cap - d as u64) / 10 + 1,
                    ;
                    assert(((cap - d as u64) / 10) * 10 + 10 > cap - d) by (nonlinear_arith);
                    assert(next > cap);
                    assert(scan_dec(rest, seen_dot, nd as nat, acc as nat, sc as nat) == scan_dec(
                        rest.drop_first(),
                        seen_dot,
                        nd as nat + 1,
                        next,
                        if seen_dot {
                            sc as nat + 1
                        } else {
                            sc as nat
                        },
                    ));
                    lemma_scan_dec_ge(
                        rest.drop_first(),
                        seen_dot,
                        nd as nat + 1,
                        next,
                        if seen_dot {
                            sc as nat + 1
                        } else {
                            sc as nat
                        },
                    );
                }
                return None;
            }
            proof {
                assert(scan_dec(rest, seen_dot, nd as nat, acc as nat, sc as nat) == scan_dec(
                    rest.drop_first(),
                    seen_dot,
                    nd as nat + 1,
                    next,
                    if seen_dot {
                        sc as nat + 1
                    } else {
                        sc as nat
                    },
                ));
                assert(rest.drop_first() =~= t@.skip(i + 1));
            }
            acc = acc * 10 + d as u64;
            nd = nd + 1;
            if seen_dot {
                sc = sc + 1;
            }
        } else {
            assert(scan_dec(rest, seen_dot, nd as nat, acc as nat, sc as nat) is None);
            return None;
        }
        i = i + 1;
    }
    proof {
        assert(t@.skip(t.len() as int) =~= Seq::<u8>::empty());
        assert(scan_dec(Seq::empty(), seen_dot, nd as nat, acc as nat, sc as nat) == Some(
            (acc as nat, sc as nat, nd as nat),
        ));
    }
    if nd == 0 {
        return None;
    }
    Some(Decimal { neg, mant: acc, scale: sc })
}

/// A parsed decimal always keeps its mantissa within bounds.
pub proof fn lemma_parse_decimal_bounded(s: Seq<u8>)
    ensures
        spec_parse_decimal(s) matches Some(d) ==> d.mant <= mant_cap(),
{
}

pub open spec fn pow10(n: nat) -> nat
    decreases n,
{
    if n == 0 {
        1
    } else {
        10 * pow10((n - 1) as nat)
    }
}

/// The magnitude of a decimal rounded to the nearest integer, a half
/// rounding up.
pub open spec fn round_mag(d: Decimal) -> nat {
    let p = pow10(d.scale as nat);
    let q = d.mant as nat / p;
    let r = d.mant as nat % p;
    if 2 * r >= p {
        q + 1
    } else {
        q
    }
}

/// A decimal rounded to the nearest integer, ties away from zero.
pub open spec fn round_away(d: Decimal) -> int {
    if d.neg {
        -(round_mag(d) as int)
    } else {
        round_mag(d) as int
    }
}

proof fn lemma_pow10_mono(a: nat, b: nat)
    requires
        a <= b,
    ensures
        pow10(a) <= pow10(b),
    decreases b,
{
    if a < b {
        lemma_pow10_mono(a, (b - 1) as nat);
        assert(pow10(b) == 10 * pow10((b - 1) as nat));
    }
}

proof fn lemma_pow10_values()
    ensures
        pow10(19) == 10000000000000000000,
        pow10(20) == 100000000000000000000,
{
    assert(pow10(0) == 1);
    assert(pow10(1) == 10);
    assert(pow10(2) == 100);
    assert(pow10(3) == 1000);
    assert(pow10(4) == 10000);
    assert(pow10(5) == 100000);
    assert(pow10(6) == 1000000);
    assert(pow10(7) == 10000000);
    assert(pow10(8) == 100000000);
    assert(pow10(9) == 1000000000);
    assert(pow10(10) == 10000000000);
    assert(pow10(11) == 100000000000);
    assert(pow10(12) == 1000000000000);
    assert(pow10(13) == 10000000000000);
    assert(pow10(14) == 100000000000000);
    assert(pow10(15) == 1000000000000000);
    assert(pow10(16) == 10000000000000000);
    assert(pow10(17) == 100000000000000000);
    assert(pow10(18) == 1000000000000000000);
    assert(pow10(19) == 10000000000000000000);
    assert(pow10(20) == 100000000000000000000);
}

fn pow10_u64(n: usize) -> (r: u64)
    requires
        n <= 19,
    ensures
        r as nat == pow10(n as nat),
{
    proof {
        lemma_pow10_values();
    }
    let mut acc: u64 = 1;
    let mut j: usize = 0;
    while j < n
        invariant
            j <= n <= 19,
            acc as nat == pow10(j as nat),
        decreases n - j,
    {
        proof {
            lemma_pow10_mono(j as nat + 1, 19);
            lemma_pow10_values();
            assert(pow10(j as nat + 1) == 10 * pow10(j as nat));
        }
        acc = acc * 10;
        j = j + 1;
    }
    acc
}

/// Rounds a decimal to the nearest integer, ties away from zero, as
/// `round_away` describes.
pub fn round_decimal(d: &Decimal) -> (r: i64)
    requires
        d.mant <= i64::MAX as u64,
    ensures
        r as int == round_away(*d),
{
    let mag: u64 = if d.scale == 0 {
        proof {
            assert(pow10(0) == 1);
            assert(d.mant as nat / 1 == d.mant as nat);
            assert(d.mant as nat % 1 == 0);
        }
        d.mant
    } else if d.scale >= 20 {
        proof {
            lemma_pow10_values();
            lemma_pow10_mono(20, d.scale as nat);
            let p = pow10(d.scale as nat);
            assert(p >= 100000000000000000000);
            assert((d.mant as nat) < p);
            assert(d.mant as nat / p == 0 && d.mant as nat % p == d.mant as nat)
                by (nonlinear_arith)
                requires
                    (d.mant as nat) < p,
            ;
            assert(2 * (d.mant as nat) < p);
        }
        0
    } else {
        let p = pow10_u64(d.scale);
        proof {
            lemma_pow10_values();
            assert(pow10(0) == 1);
            assert(pow10(1) == 10);
            lemma_pow10_mono(1, d.scale as nat);
            assert(p >= 10);
        }
        let q = d.mant / p;
        let rem = d.mant % p;
        proof {
            assert(q as nat == d.mant as nat / p as nat) by (nonlinear_arith)
                requires
                    q == d.mant / p,
                    p >= 1,
            ;
            assert(rem as nat == d.mant as nat % p as nat) by (nonlinear_arith)
                requires
                    rem == d.mant % p,
                    p >= 1,
            ;
            assert(q <= d.mant / 10) by (nonlinear_arith)
                requires
                    q == d.mant / p,
                    p >= 10,
            ;
        }
        if rem >= p - rem {
            q + 1
        } else {
            q
        }
    };
    if d.neg {
        -(mag as i64)
    } else {
        mag as i64
    }
}

} // verus!
