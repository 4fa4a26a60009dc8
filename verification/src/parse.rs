//! Free-form numeric input parsing.  A quantity is written as an optional
//! sign, decimal digits, and an optional fractional part (`"58"`, `"-2.5"`,
//! `".5"`); a rate may also be written as a quotient of two such quantities
//! (`"1/0.38"`).  Values are parsed into micro-units; fractional digits past
//! the sixth are folded into a round-to-nearest step (ties up), and inputs
//! whose magnitude exceeds `i64::MAX` micro-units are rejected.

use vstd::prelude::*;

use crate::fixed::Fixed;
use crate::fixed::fixed_div;
use crate::fixed::fixed_div_micros;
use crate::fixed::mag;
use crate::text::all_digits;
use crate::text::chars_of;
use crate::text::digit_val;
use crate::text::digits_val;
use crate::text::digits_value;
use crate::text::eq_ic_char;
use crate::text::first_index_of;
use crate::text::is_digit;
use crate::text::is_digit_char;
use crate::text::lemma_digits_val_nonneg;
use crate::text::matches_ci;
use crate::text::trim;
use crate::text::trim_chars;

verus! {

/// `10^n`.
pub open spec fn pow10(n: nat) -> int
    decreases n,
{
    if n == 0 {
        1
    } else {
        10 * pow10((n - 1) as nat)
    }
}

/// A run of `n` digits has a value below `10^n`.
pub proof fn lemma_digits_val_bound(s: Seq<char>)
    requires
        all_digits(s),
    ensures
        0 <= digits_val(s) < pow10(s.len()),
    decreases s.len(),
{
    if s.len() > 0 {
        assert(all_digits(s.drop_last()));
        lemma_digits_val_bound(s.drop_last());
    }
}

/// `10^a <= 10^b` when `a <= b`.
pub proof fn lemma_pow10_le(a: nat, b: nat)
    requires
        a <= b,
    ensures
        0 < pow10(a) <= pow10(b),
    decreases b,
{
    if b > 0 {
        if a == b {
            lemma_pow10_le((b - 1) as nat, (b - 1) as nat);
        } else {
            lemma_pow10_le(a, (b - 1) as nat);
        }
    }
}

/// Micro-unit value contributed by the fractional digits `fp`: the first six
/// digits scaled to micro-units, plus one when the seventh digit rounds up.
pub open spec fn frac_micros(fp: Seq<char>) -> int {
    let keep = if fp.len() <= 6 {
        fp
    } else {
        fp.take(6)
    };
    let base = digits_val(keep) * pow10((6 - keep.len()) as nat);
    if fp.len() > 6 && digit_val(fp[6]) >= 5 {
        base + 1
    } else {
        base
    }
}

/// Value in micro-units of an unsigned decimal numeral: digits with an
/// optional single `'.'` and at least one digit overall.
pub open spec fn parse_unsigned_micros(s: Seq<char>) -> Option<int> {
    let dp = first_index_of(s, '.');
    if dp < 0 {
        if s.len() > 0 && all_digits(s) {
            Some(digits_val(s) * 1000000)
        } else {
            None
        }
    } else {
        let ip = s.take(dp);
        let fp = s.skip(dp + 1);
        if all_digits(ip) && all_digits(fp) && ip.len() + fp.len() > 0 {
            Some(digits_val(ip) * 1000000 + frac_micros(fp))
        } else {
            None
        }
    }
}

/// Value in micro-units of a decimal numeral with an optional leading sign.
pub open spec fn parse_signed_micros(s: Seq<char>) -> Option<int> {
    if s.len() == 0 {
        None
    } else if s[0] == '-' {
        match parse_unsigned_micros(s.drop_first()) {
            Some(v) => Some(-v),
            None => None,
        }
    } else if s[0] == '+' {
        parse_unsigned_micros(s.drop_first())
    } else {
        parse_unsigned_micros(s)
    }
}

/// Restrict a parsed value to what an `i64` micro-unit count can hold.
pub open spec fn range_opt(o: Option<int>) -> Option<int> {
    match o {
        Some(v) => if mag(v) <= i64::MAX {
            Some(v)
        } else {
            None
        },
        None => None,
    }
}

/// Value in micro-units of a plain numeric input: trimmed, signed decimal,
/// within `i64` range.
pub open spec fn spec_parse_number(s: Seq<char>) -> Option<int> {
    range_opt(parse_signed_micros(trim(s)))
}

/// A successfully parsed unsigned numeral is non-negative.
pub proof fn lemma_parse_unsigned_nonneg(s: Seq<char>)
    ensures
        parse_unsigned_micros(s) matches Some(v) ==> v >= 0,
{
    let dp = first_index_of(s, '.');
    if dp < 0 {
        if s.len() > 0 && all_digits(s) {
            lemma_digits_val_nonneg(s);
        }
    } else {
        let ip = s.take(dp);
        let fp = s.skip(dp + 1);
        if all_digits(ip) && all_digits(fp) {
            lemma_digits_val_nonneg(ip);
            lemma_frac_micros_nonneg(fp);
        }
    }
}

/// The fractional contribution is non-negative.
proof fn lemma_frac_micros_nonneg(fp: Seq<char>)
    requires
        all_digits(fp),
    ensures
        frac_micros(fp) >= 0,
{
    let keep = if fp.len() <= 6 {
        fp
    } else {
        fp.take(6)
    };
    assert(all_digits(keep));
    lemma_digits_val_nonneg(keep);
    lemma_pow10_le(0, (6 - keep.len()) as nat);
    let d = digits_val(keep);
    let p = pow10((6 - keep.len()) as nat);
    assert(d * p >= 0) by (nonlinear_arith)
        requires
            d >= 0,
            p >= 0,
    ;
}

/// `10^e` for `e <= 6`.
fn pow10_small(e: usize) -> (r: u64)
    requires
        e <= 6,
    ensures
        r == pow10(e as nat),
        r <= 1000000,
{
    proof {
        reveal_with_fuel(pow10, 8);
    }
    if e == 0 {
        1
    } else if e == 1 {
        10
    } else if e == 2 {
        100
    } else if e == 3 {
        1000
    } else if e == 4 {
        10000
    } else if e == 5 {
        100000
    } else {
        1000000
    }
}

/// Parse the unsigned numeral `v[lo..]`; `None` when it is malformed or its
/// value exceeds `i64::MAX` micro-units.
fn parse_unsigned_vec(v: &Vec<char>, lo: usize) -> (r: Option<u64>)
    requires
        lo <= v@.len(),
    ensures
        ({
            let u = v@.skip(lo as int);
            match parse_unsigned_micros(u) {
                Some(val) => match r {
                    Some(x) => x == val && val <= i64::MAX,
                    None => val > i64::MAX,
                },
                None => r is None,
            }
        }),
{
    let ghost u = v@.skip(lo as int);
    proof {
        assert(forall|j: int| 0 <= j < u.len() ==> u[j] == v@[lo + j]);
    }
    let n = v.len();
    let mut i: usize = lo;
    while i < n && v[i] != '.'
        invariant
            lo <= i <= n,
            n == v@.len(),
            forall|j: int| lo <= j < i ==> v@[j] != '.',
        decreases n - i,
    {
        i += 1;
    }
    proof {
        if i < n {
            crate::text::lemma_first_index_found(u, '.', i - lo);
        } else {
            crate::text::lemma_first_index_absent(u, '.');
        }
    }
    if i == n {
        // no fractional separator: the whole of u must be digits
        if lo == n {
            return None;
        }
        let mut k: usize = lo;
        while k < n && is_digit_char(v[k])
            invariant
                lo <= k <= n,
                n == v@.len(),
                forall|j: int| lo <= j < k ==> is_digit(#[trigger] v@[j]),
            decreases n - k,
        {
            k += 1;
        }
        if k < n {
            proof {
                assert(!is_digit(u[k - lo]));
            }
            return None;
        }
        proof {
            assert(u =~= v@.subrange(lo as int, n as int));
            assert(all_digits(u));
        }
        match digits_value(v, lo, n) {
            None => {
                proof {
                    lemma_digits_val_nonneg(u);
                }
                None
            },
            Some(x) => {
                let t: u128 = (x as u128) * 1000000;
                if t > i64::MAX as u128 {
                    None
                } else {
                    Some(t as u64)
                }
            },
        }
    } else {
        let di = i;
        let ghost ip = u.take(di - lo);
        let ghost fp = u.skip(di - lo + 1);
        proof {
            assert(ip =~= v@.subrange(lo as int, di as int));
            assert(fp =~= v@.subrange(di + 1, n as int));
        }
        // integer-part digits
        let mut k: usize = lo;
        while k < di && is_digit_char(v[k])
            invariant
                lo <= k <= di,
                di < n == v@.len(),
                forall|j: int| lo <= j < k ==> is_digit(#[trigger] v@[j]),
            decreases di - k,
        {
            k += 1;
        }
        if k < di {
            proof {
                assert(!is_digit(ip[k - lo]));
            }
            return None;
        }
        proof {
            assert(all_digits(ip));
        }
        // fractional-part digits
        let mut m: usize = di + 1;
        while m < n && is_digit_char(v[m])
            invariant
                di + 1 <= m <= n,
                n == v@.len(),
                forall|j: int| di + 1 <= j < m ==> is_digit(#[trigger] v@[j]),
            decreases n - m,
        {
            m += 1;
        }
        if m < n {
            proof {
                assert(!is_digit(fp[m - (di + 1)]));
            }
            return None;
        }
        proof {
            assert(all_digits(fp));
        }
        if di == lo && di + 1 == n {
            // a bare '.': no digits on either side
            return None;
        }
        let ghost keep = if fp.len() <= 6 {
            fp
        } else {
            fp.take(6)
        };
        let fl = n - (di + 1);
        let keep_len: usize = if fl <= 6 {
            fl
        } else {
            6
        };
        proof {
            assert(keep =~= v@.subrange(di + 1, di + 1 + keep_len));
            assert(all_digits(keep));
            lemma_digits_val_bound(keep);
            lemma_pow10_le(keep.len(), 6);
            reveal_with_fuel(pow10, 8);
        }
        // at most six digits, so this run's value always fits
        let f6: u64 = match digits_value(v, di + 1, di + 1 + keep_len) {
            Some(x) => x,
            None => {
                proof {
                    assert(false);
                }
                return None;
            },
        };
        let p = pow10_small(6 - keep_len);
        proof {
            assert(f6 * p <= 999999 * 1000000) by (nonlinear_arith)
                requires
                    0 <= f6 <= 999999,
                    0 <= p <= 1000000,
            ;
        }
        let scaled: u64 = f6 * p;
        let round_up: bool = if fl > 6 {
            let c7 = v[di + 7];
            proof {
                assert(is_digit(fp[6]));
            }
            (c7 as u32) >= 53
        } else {
            false
        };
        let fracv: u64 = scaled + (if round_up {
            1
        } else {
            0
        });
        proof {
            assert(fracv == frac_micros(fp));
        }
        match digits_value(v, lo, di) {
            None => {
                proof {
                    lemma_digits_val_nonneg(ip);
                    lemma_frac_micros_nonneg(fp);
                }
                None
            },
            Some(ipv) => {
                let tot: u128 = (ipv as u128) * 1000000 + (fracv as u128);
                if tot > i64::MAX as u128 {
                    None
                } else {
                    Some(tot as u64)
                }
            },
        }
    }
}

/// Parse an already-trimmed signed decimal numeral into micro-units.
fn parse_decimal_trimmed(v: &Vec<char>) -> (r: Option<i64>)
    ensures
        ({
            match range_opt(parse_signed_micros(v@)) {
                Some(val) => r matches Some(x) && x == val,
                None => r is None,
            }
        }),
{
    let n = v.len();
    if n == 0 {
        return None;
    }
    let c0 = v[0];
    let neg = c0 == '-';
    let skip: usize = if c0 == '-' || c0 == '+' {
        1
    } else {
        0
    };
    proof {
        if skip == 1 {
            assert(v@.skip(1) =~= v@.drop_first());
        } else {
            assert(v@.skip(0) =~= v@);
        }
        lemma_parse_unsigned_nonneg(v@.skip(skip as int));
    }
    match parse_unsigned_vec(v, skip) {
        None => None,
        Some(x) => if neg {
            Some(-(x as i64))
        } else {
            Some(x as i64)
        },
    }
}

/// Parse a plain numeric input (optional sign, decimal digits, optional
/// fractional part) after trimming ASCII whitespace.
pub fn parse_number(s: &str) -> (r: Option<Fixed>)
    ensures
        ({
            match spec_parse_number(s@) {
                Some(val) => r matches Some(f) && f.micros == val,
                None => r is None,
            }
        }),
{
    let cs = chars_of(s);
    let t = trim_chars(&cs);
    match parse_decimal_trimmed(&t) {
        Some(x) => Some(Fixed { micros: x }),
        None => None,
    }
}

/// Value of a rate input: either a plain numeral or a quotient `a/b` of two
/// numerals, each side trimmed on its own; the quotient rounds to the nearest
/// micro-unit, ties away from zero.  Rejected: empty input, malformed sides,
/// a zero divisor, and values outside `i64` micro-unit range.
pub open spec fn spec_parse_rate(s: Seq<char>) -> Option<int> {
    let t = trim(s);
    if t.len() == 0 {
        None
    } else {
        let sp = first_index_of(t, '/');
        if sp < 0 {
            range_opt(parse_signed_micros(t))
        } else {
            let an = range_opt(parse_signed_micros(trim(t.take(sp))));
            let bn = range_opt(parse_signed_micros(trim(t.skip(sp + 1))));
            if an is None || bn is None {
                None
            } else if bn == Some(0int) {
                None
            } else {
                range_opt(Some(fixed_div_micros(an->Some_0, bn->Some_0)))
            }
        }
    }
}

/// Copy of `v[lo..hi]`.
fn sub_vec(v: &Vec<char>, lo: usize, hi: usize) -> (r: Vec<char>)
    requires
        lo <= hi <= v@.len(),
    ensures
        r@ == v@.subrange(lo as int, hi as int),
{
    let mut r: Vec<char> = Vec::new();
    let mut i: usize = lo;
    while i < hi
        invariant
            lo <= i <= hi <= v@.len(),
            r@ == v@.subrange(lo as int, i as int),
        decreases hi - i,
    {
        let c = v[i];
        r.push(c);
        proof {
            assert(v@.subrange(lo as int, i + 1) =~= v@.subrange(lo as int, i as int).push(
                v@[i as int],
            ));
        }
        i += 1;
    }
    r
}

/// Parse a rate input: a plain numeral, or a quotient of two numerals
/// separated by `'/'`.
pub fn parse_rate_input(s: &str) -> (r: Option<Fixed>)
    ensures
        ({
            match spec_parse_rate(s@) {
                Some(val) => r matches Some(f) && f.micros == val,
                None => r is None,
            }
        }),
{
    let cs = chars_of(s);
    let t = trim_chars(&cs);
    let n = t.len();
    if n == 0 {
        return None;
    }
    match crate::text::find_char(&t, '/') {
        None => {
            match parse_decimal_trimmed(&t) {
                Some(x) => Some(Fixed { micros: x }),
                None => None,
            }
        },
        Some(sp) => {
            let a_chars = sub_vec(&t, 0, sp);
            let b_chars = sub_vec(&t, sp + 1, n);
            proof {
                assert(a_chars@ =~= t@.take(sp as int));
                assert(b_chars@ =~= t@.skip(sp + 1));
            }
            let at = trim_chars(&a_chars);
            let bt = trim_chars(&b_chars);
            let an = match parse_decimal_trimmed(&at) {
                Some(x) => x,
                None => {
                    return None;
                },
            };
            let bn = match parse_decimal_trimmed(&bt) {
                Some(x) => x,
                None => {
                    return None;
                },
            };
            if bn == 0 {
                return None;
            }
            match fixed_div(Fixed { micros: an }, Fixed { micros: bn }) {
                Some(q) => Some(q),
                None => None,
            }
        },
    }
}

/// Value of a whole-day-count input: an optional sign and decimal digits,
/// trimmed, within `i32` range.
pub open spec fn spec_parse_days(s: Seq<char>) -> Option<int> {
    let t = trim(s);
    if t.len() == 0 {
        None
    } else {
        let body = if t[0] == '-' || t[0] == '+' {
            t.drop_first()
        } else {
            t
        };
        if body.len() > 0 && all_digits(body) {
            let v = if t[0] == '-' {
                -digits_val(body)
            } else {
                digits_val(body)
            };
            if i32::MIN <= v <= i32::MAX {
                Some(v)
            } else {
                None
            }
        } else {
            None
        }
    }
}

/// Parse a whole number of days.
pub fn parse_days(s: &str) -> (r: Option<i32>)
    ensures
        ({
            match spec_parse_days(s@) {
                Some(val) => r matches Some(x) && x == val,
                None => r is None,
            }
        }),
{
    let cs = chars_of(s);
    let t = trim_chars(&cs);
    let n = t.len();
    if n == 0 {
        return None;
    }
    let c0 = t[0];
    let neg = c0 == '-';
    let skip: usize = if c0 == '-' || c0 == '+' {
        1
    } else {
        0
    };
    let ghost body = if skip == 1 {
        t@.drop_first()
    } else {
        t@
    };
    proof {
        assert(body =~= t@.subrange(skip as int, n as int));
    }
    if skip == n {
        return None;
    }
    let mut k: usize = skip;
    while k < n && is_digit_char(t[k])
        invariant
            skip <= k <= n,
            n == t@.len(),
            forall|j: int| skip <= j < k ==> is_digit(#[trigger] t@[j]),
        decreases n - k,
    {
        k += 1;
    }
    if k < n {
        proof {
            assert(!is_digit(body[k - skip]));
        }
        return None;
    }
    proof {
        assert(all_digits(body));
        lemma_digits_val_nonneg(body);
    }
    match digits_value(&t, skip, n) {
        None => None,
        Some(x) => {
            if neg {
                if x > 2147483648 {
                    None
                } else {
                    Some((-(x as i64)) as i32)
                }
            } else {
                if x > 2147483647 {
                    None
                } else {
                    Some(x as i32)
                }
            }
        },
    }
}

/// Interpretation of a yes/no answer: `Y`/`YES` and `N`/`NO` in any letter
/// case, after trimming.
pub open spec fn spec_parse_yes_no(s: Seq<char>) -> Option<bool> {
    let t = trim(s);
    if matches_ci(t, seq!['Y']) || matches_ci(t, seq!['Y', 'E', 'S']) {
        Some(true)
    } else if matches_ci(t, seq!['N']) || matches_ci(t, seq!['N', 'O']) {
        Some(false)
    } else {
        None
    }
}

/// Parse a yes/no answer.
pub fn parse_yes_no(s: &str) -> (r: Option<bool>)
    ensures
        r == spec_parse_yes_no(s@),
{
    let cs = chars_of(s);
    let t = trim_chars(&cs);
    if t.len() == 1 {
        if eq_ic_char(t[0], 'Y') {
            Some(true)
        } else if eq_ic_char(t[0], 'N') {
            Some(false)
        } else {
            None
        }
    } else if t.len() == 2 {
        if eq_ic_char(t[0], 'N') && eq_ic_char(t[1], 'O') {
            Some(false)
        } else {
            None
        }
    } else if t.len() == 3 {
        if eq_ic_char(t[0], 'Y') && eq_ic_char(t[1], 'E') && eq_ic_char(t[2], 'S') {
            Some(true)
        } else {
            None
        }
    } else {
        None
    }
}

} // verus!

