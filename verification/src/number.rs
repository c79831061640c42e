//! The integer part of a number written in decimal, as an `i64`.
use crate::conversion_spec::{dec_value, digit_value, dot_pos, exp_pos, exponent, float_trunc, frac_part, int_part, mantissa, trunc_digits, unsigned_part, zeros};
use crate::text::chars_of;
use vstd::prelude::*;

verus! {

pub open spec fn pow10(k: nat) -> nat
    decreases k,
{
    if k == 0 {
        1
    } else {
        10 * pow10((k - 1) as nat)
    }
}

proof fn lemma_pow10_grows(k: nat)
    ensures
        pow10(k) >= k + 1,
        k >= 20 ==> pow10(k) > 0x8000_0000_0000_0000,
    decreases k,
{
    if k > 0 {
        lemma_pow10_grows((k - 1) as nat);
        if k >= 20 {
            if k > 20 {
                lemma_pow10_grows((k - 1) as nat);
            } else {
                reveal_with_fuel(pow10, 21);
                assert(pow10(20) == 100_000_000_000_000_000_000);
            }
        }
    }
}

/// Appending `k` zeros multiplies a digit run's value by `10^k`.
proof fn lemma_dec_zeros(s: Seq<char>, k: nat)
    ensures
        dec_value(s + zeros(k)) == dec_value(s) * pow10(k),
    decreases k,
{
    if k == 0 {
        assert(s + zeros(0) =~= s);
        assert(dec_value(s) * pow10(0) == dec_value(s)) by (nonlinear_arith)
            requires
                pow10(0) == 1,
        ;
    } else {
        let km = (k - 1) as nat;
        lemma_dec_zeros(s, km);
        lemma_zero_push(s, km);
        assert(km + 1 == k);
        let a = dec_value(s);
        let q = pow10(km);
        assert(dec_value(s + zeros(km)) == a * q);
        assert(dec_value(s + zeros(k)) == (a * q) * 10);
        assert(pow10(k) == 10 * q);
        assert(a * (10 * q) == (a * q) * 10) by (nonlinear_arith);
    }
}

/// A digit run's value is at least that of each of its prefixes.
proof fn lemma_dec_prefix(s: Seq<char>, j: int)
    requires
        0 <= j <= s.len(),
    ensures
        dec_value(s) >= dec_value(s.take(j)),
    decreases s.len() - j,
{
    if j < s.len() {
        lemma_dec_prefix(s, j + 1);
        assert(s.take(j + 1).drop_last() =~= s.take(j));
    } else {
        assert(s.take(j) =~= s);
    }
}

/// A digit run's value is zero exactly when each of its digits is.
proof fn lemma_dec_zero(s: Seq<char>)
    ensures
        (dec_value(s) == 0) <==> (forall|i: int| 0 <= i < s.len() ==> #[trigger] digit_value(s[i]) == 0),
    decreases s.len(),
{
    if s.len() > 0 {
        lemma_dec_zero(s.drop_last());
        if dec_value(s) == 0 {
            assert forall|i: int| 0 <= i < s.len() implies #[trigger] digit_value(s[i]) == 0 by {
                if i < s.len() - 1 {
                    assert(s.drop_last()[i] == s[i]);
                }
            }
        }
        if forall|i: int| 0 <= i < s.len() ==> #[trigger] digit_value(s[i]) == 0 {
            assert forall|i: int| 0 <= i < s.drop_last().len() implies #[trigger] digit_value(s.drop_last()[i]) == 0 by {
                assert(s.drop_last()[i] == s[i]);
            }
            assert(digit_value(s[s.len() - 1]) == 0);
        }
    }
}

proof fn lemma_dec_step(s: Seq<char>, j: int)
    requires
        0 <= j < s.len(),
    ensures
        dec_value(s.take(j + 1)) == dec_value(s.take(j)) * 10 + digit_value(s[j]),
{
    assert(s.take(j + 1).drop_last() =~= s.take(j));
}

proof fn lemma_zero_push(s: Seq<char>, a: nat)
    ensures
        dec_value(s + zeros(a + 1)) == dec_value(s + zeros(a)) * 10,
{
    assert((s + zeros(a + 1)).drop_last() =~= s + zeros(a));
    assert((s + zeros(a + 1)).last() == '0');
}

proof fn lemma_zeros_stay_zero(s: Seq<char>, a: nat, b: nat)
    requires
        a <= b,
        dec_value(s + zeros(a)) == 0,
    ensures
        dec_value(s + zeros(b)) == 0,
    decreases b - a,
{
    if a < b {
        lemma_zero_push(s, a);
        lemma_zeros_stay_zero(s, a + 1, b);
    }
}

fn digit_of(c: char) -> (d: u32)
    ensures
        d == digit_value(c),
        d <= 9,
{
    if '0' <= c && c <= '9' {
        (c as u32) - 48
    } else {
        0
    }
}

/// The value of the digits `cs[from..to]`, or `None` once it passes `bound`.
fn digits_up_to(cs: &Vec<char>, from: usize, to: usize, bound: u128) -> (r: Option<u128>)
    requires
        from <= to <= cs@.len(),
        bound <= 0x1_0000_0000_0000_0000_0000,
    ensures
        match r {
            Some(v) => v == dec_value(cs@.subrange(from as int, to as int)) && v <= bound,
            None => dec_value(cs@.subrange(from as int, to as int)) > bound,
        },
{
    let ghost s = cs@.subrange(from as int, to as int);
    let mut acc: u128 = 0;
    let mut j: usize = from;
    proof {
        assert(s.take(0) =~= Seq::<char>::empty());
    }
    while j < to
        invariant
            from <= j <= to <= cs@.len(),
            s == cs@.subrange(from as int, to as int),
            bound <= 0x1_0000_0000_0000_0000_0000,
            acc == dec_value(s.take(j - from)),
            acc <= bound,
        decreases to - j,
    {
        let d = digit_of(cs[j]);
        proof {
            lemma_dec_step(s, j - from);
            assert(s[j - from] == cs@[j as int]);
        }
        acc = acc * 10 + d as u128;
        j = j + 1;
        if acc > bound {
            proof {
                lemma_dec_prefix(s, j - from);
            }
            return None;
        }
    }
    proof {
        assert(s.take(j - from) =~= s);
    }
    Some(acc)
}

/// Where the parts of a number's text start and end: the sign's length `s0`, the
/// exponent marker at `k`, the decimal point at `d` (or `k`), the fraction from
/// `f` to `k`.
fn number_layout(cs: &Vec<char>) -> (r: (usize, usize, usize, usize))
    ensures
        ({
            let (s0, k, d, f) = r;
            &&& s0 <= d <= k <= cs@.len()
            &&& f == (if d < k { d + 1 } else { k as int })
            &&& unsigned_part(cs@) == cs@.skip(s0 as int)
            &&& exp_pos(unsigned_part(cs@)) == k - s0
            &&& int_part(cs@) == cs@.subrange(s0 as int, d as int)
            &&& frac_part(cs@) == cs@.subrange(f as int, k as int)
            &&& (s0 == 1) == (cs@.len() > 0 && (cs@[0] == '-' || cs@[0] == '+'))
            &&& s0 <= 1
        }),
{
    let n = cs.len();
    let s0: usize = if n > 0 && (cs[0] == '-' || cs[0] == '+') {
        1
    } else {
        0
    };
    let ghost b = unsigned_part(cs@);
    proof {
        assert(b =~= cs@.skip(s0 as int));
    }
    let mut k: usize = s0;
    while k < n && cs[k] != 'e' && cs[k] != 'E'
        invariant
            s0 <= k <= n,
            n == cs@.len(),
            b == cs@.skip(s0 as int),
            exp_pos(b) == (k - s0) + exp_pos(cs@.skip(k as int)),
        decreases n - k,
    {
        proof {
            assert(cs@.skip(k as int).drop_first() =~= cs@.skip(k + 1));
        }
        k = k + 1;
    }
    proof {
        if k == n {
            assert(cs@.skip(k as int).len() == 0);
        }
        assert(exp_pos(b) == k - s0);
        assert(mantissa(cs@) =~= cs@.subrange(s0 as int, k as int));
    }
    let ghost m = cs@.subrange(s0 as int, k as int);
    let mut d: usize = s0;
    proof {
        assert(cs@.subrange(s0 as int, k as int) =~= m);
    }
    while d < k && cs[d] != '.'
        invariant
            s0 <= d <= k <= n,
            n == cs@.len(),
            m == cs@.subrange(s0 as int, k as int),
            dot_pos(m) == (d - s0) + dot_pos(cs@.subrange(d as int, k as int)),
        decreases k - d,
    {
        proof {
            assert(cs@.subrange(d as int, k as int).drop_first() =~= cs@.subrange(d + 1, k as int));
        }
        d = d + 1;
    }
    proof {
        if d == k {
            assert(cs@.subrange(d as int, k as int).len() == 0);
        }
        assert(dot_pos(m) == d - s0);
        assert(int_part(cs@) =~= cs@.subrange(s0 as int, d as int));
    }
    let f: usize = if d < k {
        d + 1
    } else {
        k
    };
    proof {
        assert(frac_part(cs@) =~= cs@.subrange(f as int, k as int));
    }
    (s0, k, d, f)
}

/// The sign of the exponent, and its magnitude unless that passes `bound`.
fn exponent_parts(cs: &Vec<char>, s0: usize, k: usize, bound: u128) -> (r: (bool, Option<u128>))
    requires
        s0 <= k <= cs@.len(),
        unsigned_part(cs@) == cs@.skip(s0 as int),
        exp_pos(unsigned_part(cs@)) == k - s0,
        bound <= 0x1_0000_0000_0000_0000_0000,
    ensures
        match r.1 {
            Some(v) => v <= bound && exponent(cs@) == (if r.0 { -(v as int) } else { v as int }),
            None => if r.0 {
                exponent(cs@) < -(bound as int)
            } else {
                exponent(cs@) > bound as int
            },
        },
{
    let n = cs.len();
    if k >= n {
        return (false, Some(0));
    }
    let ghost b = unsigned_part(cs@);
    let ghost x = b.skip(exp_pos(b) as int + 1);
    proof {
        assert(x =~= cs@.skip(k + 1));
    }
    let mut neg = false;
    let mut ds: usize = k + 1;
    if ds < n && cs[ds] == '-' {
        neg = true;
        ds = ds + 1;
    } else if ds < n && cs[ds] == '+' {
        ds = ds + 1;
    }
    let v = digits_up_to(cs, ds, n, bound);
    proof {
        if ds == k + 2 {
            assert(x.drop_first() =~= cs@.subrange(ds as int, n as int));
        } else {
            assert(x =~= cs@.subrange(ds as int, n as int));
        }
    }
    (neg, v)
}

/// The value of the first `take` digits of the mantissa `cs[s0..d] + cs[f..k]`,
/// followed by `zs` zeros, unless that passes `2^63`.
fn truncated_magnitude(cs: &Vec<char>, s0: usize, d: usize, f: usize, k: usize, take: usize, zs: u128) -> (r: Option<u128>)
    requires
        s0 <= d <= f <= k <= cs@.len(),
        take <= (d - s0) + (k - f),
    ensures
        ({
            let w = (cs@.subrange(s0 as int, d as int) + cs@.subrange(f as int, k as int)).take(take as int) + zeros(zs as nat);
            match r {
                Some(a) => a == dec_value(w) && a <= 0x8000_0000_0000_0000u128,
                None => dec_value(w) > 0x8000_0000_0000_0000u128,
            }
        }),
{
    let cap: u128 = 0x8000_0000_0000_0000;
    let ilen: usize = d - s0;
    let ghost mm = cs@.subrange(s0 as int, d as int) + cs@.subrange(f as int, k as int);
    let ghost w = mm.take(take as int);
    let mut acc: Option<u128> = Some(0);
    let mut i: usize = 0;
    proof {
        assert(w.take(0) =~= Seq::<char>::empty());
    }
    while i < take
        invariant
            i <= take <= (d - s0) + (k - f),
            s0 <= d <= f <= k <= cs@.len(),
            ilen == d - s0,
            mm == cs@.subrange(s0 as int, d as int) + cs@.subrange(f as int, k as int),
            w == mm.take(take as int),
            cap == 0x8000_0000_0000_0000u128,
            match acc {
                Some(a) => a == dec_value(w.take(i as int)) && a <= cap,
                None => dec_value(w.take(i as int)) > cap,
            },
        decreases take - i,
    {
        let c = if i < ilen {
            cs[s0 + i]
        } else {
            cs[f + (i - ilen)]
        };
        proof {
            assert(c == mm[i as int]);
            assert(w[i as int] == mm[i as int]);
            lemma_dec_step(w, i as int);
        }
        match acc {
            Some(a) => {
                let v = a * 10 + digit_of(c) as u128;
                acc = if v > cap {
                    None
                } else {
                    Some(v)
                };
            },
            None => {},
        }
        i = i + 1;
    }
    proof {
        assert(w.take(take as int) =~= w);
        assert(w + zeros(0) =~= w);
    }
    let mut zc: u128 = 0;
    while zc < zs
        invariant
            zc <= zs,
            cap == 0x8000_0000_0000_0000u128,
            match acc {
                Some(a) => a == dec_value(w + zeros(zc as nat)) && a <= cap,
                None => dec_value(w + zeros(zc as nat)) > cap,
            },
        decreases zs - zc,
    {
        proof {
            lemma_zero_push(w, zc as nat);
        }
        match acc {
            Some(a) => {
                if a == 0 {
                    proof {
                        lemma_zeros_stay_zero(w, zc as nat, zs as nat);
                    }
                    zc = zs;
                } else {
                    let v = a * 10;
                    acc = if v > cap {
                        None
                    } else {
                        Some(v)
                    };
                    zc = zc + 1;
                }
            },
            None => {
                zc = zc + 1;
            },
        }
    }
    acc
}

/// True when some digit of `cs[from..to]` is not zero.
fn has_nonzero_digit(cs: &Vec<char>, from: usize, to: usize) -> (r: bool)
    requires
        from <= to <= cs@.len(),
    ensures
        r == (dec_value(cs@.subrange(from as int, to as int)) != 0),
{
    let ghost s = cs@.subrange(from as int, to as int);
    proof {
        lemma_dec_zero(s);
    }
    let mut i: usize = from;
    while i < to
        invariant
            from <= i <= to <= cs@.len(),
            s == cs@.subrange(from as int, to as int),
            forall|q: int| 0 <= q < i - from ==> #[trigger] digit_value(s[q]) == 0,
        decreases to - i,
    {
        proof {
            assert(s[i - from] == cs@[i as int]);
        }
        if digit_of(cs[i]) != 0 {
            proof {
                lemma_dec_zero(s);
                assert(digit_value(s[i - from]) != 0);
            }
            return true;
        }
        i = i + 1;
    }
    false
}

/// The facts [`number_layout`] gives about a number's text.
pub open spec fn layout_ok(c: Seq<char>, s0: usize, k: usize, d: usize, f: usize) -> bool {
    &&& s0 <= d <= k <= c.len()
    &&& f == (if d < k { d + 1 } else { k as int })
    &&& unsigned_part(c) == c.skip(s0 as int)
    &&& exp_pos(unsigned_part(c)) == k - s0
    &&& int_part(c) == c.subrange(s0 as int, d as int)
    &&& frac_part(c) == c.subrange(f as int, k as int)
}

/// The result when the exponent moves the point more than 20 places past the last
/// digit: 0 when every digit is zero, else the bound of the sign.
fn trunc_far(cs: &Vec<char>, s0: usize, k: usize, d: usize, f: usize, neg: bool) -> (r: i64)
    requires
        layout_ok(cs@, s0, k, d, f),
        neg == (cs@.len() > 0 && cs@[0] == '-'),
        exponent(cs@) > (d - s0) + (k - f) + 20,
    ensures
        r == float_trunc(cs@),
{
    let ghost ip = cs@.subrange(s0 as int, d as int);
    let ghost fp = cs@.subrange(f as int, k as int);
    let ghost mm = ip + fp;
    let ghost z = (ip.len() + exponent(cs@) - mm.len()) as nat;
    proof {
        assert(trunc_digits(cs@) =~= mm + zeros(z));
        lemma_dec_zeros(mm, z);
        lemma_pow10_grows(z);
        lemma_dec_zero(ip);
        lemma_dec_zero(fp);
        lemma_dec_zero(mm);
    }
    let nonzero = has_nonzero_digit(cs, s0, d) || has_nonzero_digit(cs, f, k);
    proof {
        if nonzero {
            if dec_value(mm) == 0 {
                if dec_value(ip) != 0 {
                    assert forall|q: int| 0 <= q < ip.len() implies #[trigger] digit_value(ip[q]) == 0 by {
                        assert(mm[q] == ip[q]);
                    }
                } else {
                    assert forall|q: int| 0 <= q < fp.len() implies #[trigger] digit_value(fp[q]) == 0 by {
                        assert(mm[ip.len() + q] == fp[q]);
                    }
                }
            }
        } else {
            assert forall|q: int| 0 <= q < mm.len() implies #[trigger] digit_value(mm[q]) == 0 by {
                if q < ip.len() {
                    assert(mm[q] == ip[q]);
                } else {
                    assert(mm[q] == fp[q - ip.len()]);
                }
            }
        }
    }
    if !nonzero {
        return 0;
    }
    proof {
        assert(dec_value(mm) * pow10(z) >= pow10(z)) by (nonlinear_arith)
            requires
                dec_value(mm) >= 1,
        ;
    }
    if neg {
        i64::MIN
    } else {
        i64::MAX
    }
}

/// The result when the point lands `p` digits into the mantissa (or past it).
fn trunc_near(cs: &Vec<char>, s0: usize, k: usize, d: usize, f: usize, neg: bool, p: i128) -> (r: i64)
    requires
        layout_ok(cs@, s0, k, d, f),
        neg == (cs@.len() > 0 && cs@[0] == '-'),
        p == (d - s0) + exponent(cs@),
        p <= (d - s0) + (k - f) + 0x1_0000_0000_0000_0000_0000,
    ensures
        r == float_trunc(cs@),
{
    let ghost mm = cs@.subrange(s0 as int, d as int) + cs@.subrange(f as int, k as int);
    let mlen: usize = (d - s0) + (k - f);
    if p <= 0 {
        proof {
            assert(trunc_digits(cs@) =~= Seq::<char>::empty());
        }
        return 0;
    }
    let take: usize = if p < mlen as i128 {
        p as usize
    } else {
        mlen
    };
    let zs: u128 = if p > mlen as i128 {
        (p - mlen as i128) as u128
    } else {
        0
    };
    let acc = truncated_magnitude(cs, s0, d, f, k, take, zs);
    proof {
        if p > mlen as i128 {
            assert(mm.take(take as int) =~= mm);
            assert(trunc_digits(cs@) =~= mm.take(take as int) + zeros(zs as nat));
        } else {
            assert(trunc_digits(cs@) =~= mm.take(take as int) + zeros(0));
        }
    }
    match acc {
        None => if neg {
            i64::MIN
        } else {
            i64::MAX
        },
        Some(a) => {
            if neg {
                (0i128 - a as i128) as i64
            } else if a > 0x7fff_ffff_ffff_ffff {
                i64::MAX
            } else {
                a as i64
            }
        },
    }
}

/// The integer part of a decimal number, truncated toward zero and saturated at the
/// bounds of `i64` (see [`float_trunc`]).
pub fn float_to_i64(t: &String) -> (r: i64)
    ensures
        r == float_trunc(t@),
{
    let cs = chars_of(t.as_str());
    let neg = cs.len() > 0 && cs[0] == '-';
    let (s0, k, d, f) = number_layout(&cs);
    let ilen: usize = d - s0;
    let mlen: usize = ilen + (k - f);
    let bound: u128 = mlen as u128 + 20;
    let (e_neg, e_val) = exponent_parts(&cs, s0, k, bound);
    match e_val {
        None => {
            if e_neg {
                proof {
                    assert(trunc_digits(cs@) =~= Seq::<char>::empty());
                }
                0
            } else {
                trunc_far(&cs, s0, k, d, f, neg)
            }
        },
        Some(ev) => {
            let p: i128 = if e_neg {
                ilen as i128 - ev as i128
            } else {
                ilen as i128 + ev as i128
            };
            trunc_near(&cs, s0, k, d, f, neg, p)
        },
    }
}

} // verus!
