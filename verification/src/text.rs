//! Character-level text utilities: extracting the characters of a string,
//! whitespace trimming, and evaluating runs of decimal digits.  Every
//! executable function is proved equal to a recursive specification over the
//! string's character sequence.

use vstd::prelude::*;
use vstd::string::StrSliceExecFns;

verus! {

/// ASCII whitespace, the only whitespace the library trims.
pub open spec fn is_space(c: char) -> bool {
    c == ' ' || c == '\t' || c == '\n' || c == '\r'
}

/// Decimal digit `'0'..='9'`.
pub open spec fn is_digit(c: char) -> bool {
    48 <= c as int <= 57
}

/// Numeric value of a decimal digit.
pub open spec fn digit_val(c: char) -> int {
    c as int - 48
}

/// Every character of `s` is a decimal digit.
pub open spec fn all_digits(s: Seq<char>) -> bool {
    forall|i: int| 0 <= i < s.len() ==> is_digit(#[trigger] s[i])
}

/// Value of a run of decimal digits, most significant first.
pub open spec fn digits_val(s: Seq<char>) -> int
    decreases s.len(),
{
    if s.len() == 0 {
        0
    } else {
        digits_val(s.drop_last()) * 10 + digit_val(s.last())
    }
}

/// `s` with leading ASCII whitespace removed.
pub open spec fn trim_front(s: Seq<char>) -> Seq<char>
    decreases s.len(),
{
    if s.len() > 0 && is_space(s[0]) {
        trim_front(s.drop_first())
    } else {
        s
    }
}

/// `s` with trailing ASCII whitespace removed.
pub open spec fn trim_back(s: Seq<char>) -> Seq<char>
    decreases s.len(),
{
    if s.len() > 0 && is_space(s.last()) {
        trim_back(s.drop_last())
    } else {
        s
    }
}

/// `s` with leading and trailing ASCII whitespace removed.
pub open spec fn trim(s: Seq<char>) -> Seq<char> {
    trim_back(trim_front(s))
}

/// Index of the first occurrence of `c` in `s`, or `-1` when absent.
pub open spec fn first_index_of(s: Seq<char>, c: char) -> int
    decreases s.len(),
{
    if s.len() == 0 {
        -1
    } else if s[0] == c {
        0
    } else if first_index_of(s.drop_first(), c) < 0 {
        -1
    } else {
        first_index_of(s.drop_first(), c) + 1
    }
}

/// `c` equals the ASCII character `u` up to letter case, where `u` is the
/// uppercase form.
pub open spec fn eq_ic(c: char, u: char) -> bool {
    c == u || (97 <= c as int <= 122 && c as int - 32 == u as int)
}

/// `s` spells `code` up to letter case, where `code` is written in uppercase.
pub open spec fn matches_ci(s: Seq<char>, code: Seq<char>) -> bool {
    s.len() == code.len() && (forall|i: int| 0 <= i < s.len() ==> eq_ic(#[trigger] s[i], code[i]))
}

/// Whether `c` equals `u` up to letter case (`u` uppercase).
pub fn eq_ic_char(c: char, u: char) -> (b: bool)
    ensures
        b == eq_ic(c, u),
{
    let cu = c as u32;
    c == u || (97 <= cu && cu <= 122 && cu - 32 == u as u32)
}

/// A digit run's value is never negative.
pub proof fn lemma_digits_val_nonneg(s: Seq<char>)
    requires
        all_digits(s),
    ensures
        digits_val(s) >= 0,
    decreases s.len(),
{
    if s.len() > 0 {
        assert(all_digits(s.drop_last()));
        lemma_digits_val_nonneg(s.drop_last());
    }
}

/// If the first `k` characters are spaces and character `k` (when it exists)
/// is not, trimming the front drops exactly those `k` characters.
pub proof fn lemma_trim_front_skip(s: Seq<char>, k: int)
    requires
        0 <= k <= s.len(),
        forall|j: int| 0 <= j < k ==> is_space(#[trigger] s[j]),
        k == s.len() || !is_space(s[k]),
    ensures
        trim_front(s) == s.skip(k),
    decreases k,
{
    if k == 0 {
        assert(s.skip(0) =~= s);
    } else {
        assert(is_space(s[0]));
        let t = s.drop_first();
        assert(forall|j: int| 0 <= j < k - 1 ==> is_space(#[trigger] t[j]));
        lemma_trim_front_skip(t, k - 1);
        assert(t.skip(k - 1) =~= s.skip(k));
    }
}

/// If the characters from `m` on are spaces and character `m - 1` (when it
/// exists) is not, trimming the back keeps exactly the first `m` characters.
pub proof fn lemma_trim_back_take(s: Seq<char>, m: int)
    requires
        0 <= m <= s.len(),
        forall|j: int| m <= j < s.len() ==> is_space(#[trigger] s[j]),
        m == 0 || !is_space(s[m - 1]),
    ensures
        trim_back(s) == s.take(m),
    decreases s.len() - m,
{
    if m == s.len() {
        if s.len() > 0 {
            assert(!is_space(s.last()));
        }
        assert(s.take(m) =~= s);
    } else {
        assert(is_space(s.last()));
        let t = s.drop_last();
        assert(forall|j: int| m <= j < t.len() ==> is_space(#[trigger] t[j]));
        lemma_trim_back_take(t, m);
        assert(t.take(m) =~= s.take(m));
    }
}

/// The characters of `s`, in order.
pub fn chars_of(s: &str) -> (r: Vec<char>)
    ensures
        r@ == s@,
{
    let n = s.unicode_len();
    let mut r: Vec<char> = Vec::new();
    let mut i: usize = 0;
    while i < n
        invariant
            i <= n,
            n == s@.len(),
            r@ == s@.take(i as int),
        decreases n - i,
    {
        let c = s.get_char(i);
        r.push(c);
        proof {
            assert(s@.take(i + 1) =~= s@.take(i as int).push(s@[i as int]));
        }
        i += 1;
    }
    proof {
        assert(s@.take(n as int) =~= s@);
    }
    r
}

/// Whether `c` is ASCII whitespace.
pub fn is_space_char(c: char) -> (b: bool)
    ensures
        b == is_space(c),
{
    c == ' ' || c == '\t' || c == '\n' || c == '\r'
}

/// Whether `c` is a decimal digit.
pub fn is_digit_char(c: char) -> (b: bool)
    ensures
        b == is_digit(c),
{
    let u = c as u32;
    48 <= u && u <= 57
}

/// The characters of `v` with leading and trailing ASCII whitespace removed.
pub fn trim_chars(v: &Vec<char>) -> (r: Vec<char>)
    ensures
        r@ == trim(v@),
{
    let n = v.len();
    let mut k: usize = 0;
    while k < n && is_space_char(v[k])
        invariant
            k <= n,
            n == v@.len(),
            forall|j: int| 0 <= j < k ==> is_space(#[trigger] v@[j]),
        decreases n - k,
    {
        k += 1;
    }
    proof {
        lemma_trim_front_skip(v@, k as int);
    }
    let mut e: usize = n;
    while e > k && is_space_char(v[e - 1])
        invariant
            k <= e <= n,
            n == v@.len(),
            forall|j: int| e <= j < n ==> is_space(#[trigger] v@[j]),
        decreases e,
    {
        e -= 1;
    }
    proof {
        let t = v@.skip(k as int);
        let m = e - k;
        assert(forall|j: int| m <= j < t.len() ==> is_space(#[trigger] t[j]));
        if m > 0 {
            assert(t[m - 1] == v@[e - 1]);
        }
        lemma_trim_back_take(t, m as int);
    }
    let mut r: Vec<char> = Vec::new();
    let mut i: usize = k;
    while i < e
        invariant
            k <= i <= e <= n,
            n == v@.len(),
            r@ == v@.subrange(k as int, i as int),
        decreases e - i,
    {
        let c = v[i];
        r.push(c);
        proof {
            assert(v@.subrange(k as int, i + 1) =~= v@.subrange(k as int, i as int).push(
                v@[i as int],
            ));
        }
        i += 1;
    }
    proof {
        assert(v@.subrange(k as int, e as int) =~= v@.skip(k as int).take(e - k));
    }
    r
}

/// Index of the first occurrence of `c` in `v`, or `None` when absent.
pub fn find_char(v: &Vec<char>, c: char) -> (r: Option<usize>)
    ensures
        match r {
            Some(i) => first_index_of(v@, c) == i && i < v@.len() && v@[i as int] == c,
            None => first_index_of(v@, c) == -1,
        },
{
    let n = v.len();
    let mut i: usize = 0;
    while i < n
        invariant
            i <= n,
            n == v@.len(),
            forall|j: int| 0 <= j < i ==> v@[j] != c,
        decreases n - i,
    {
        if v[i] == c {
            proof {
                lemma_first_index_found(v@, c, i as int);
            }
            return Some(i);
        }
        i += 1;
    }
    proof {
        lemma_first_index_absent(v@, c);
    }
    None
}

/// If `s[k] == c` and no earlier character equals `c`, the first index is `k`.
pub proof fn lemma_first_index_found(s: Seq<char>, c: char, k: int)
    requires
        0 <= k < s.len(),
        s[k] == c,
        forall|j: int| 0 <= j < k ==> s[j] != c,
    ensures
        first_index_of(s, c) == k,
    decreases k,
{
    if k > 0 {
        let t = s.drop_first();
        assert(forall|j: int| 0 <= j < k - 1 ==> t[j] != c);
        lemma_first_index_found(t, c, k - 1);
    }
}

/// If no character equals `c`, the first index is `-1`.
pub proof fn lemma_first_index_absent(s: Seq<char>, c: char)
    requires
        forall|j: int| 0 <= j < s.len() ==> s[j] != c,
    ensures
        first_index_of(s, c) == -1,
    decreases s.len(),
{
    if s.len() > 0 {
        let t = s.drop_first();
        assert(forall|j: int| 0 <= j < t.len() ==> t[j] != c);
        lemma_first_index_absent(t, c);
    }
}

/// Value of the digit run `v[lo..hi]`, or `None` when it exceeds `i64::MAX`.
pub fn digits_value(v: &Vec<char>, lo: usize, hi: usize) -> (r: Option<u64>)
    requires
        lo <= hi <= v@.len(),
        all_digits(v@.subrange(lo as int, hi as int)),
    ensures
        ({
            let val = digits_val(v@.subrange(lo as int, hi as int));
            match r {
                Some(x) => x == val && val <= i64::MAX,
                None => val > i64::MAX,
            }
        }),
{
    let mut acc: u64 = 0;
    let mut over: bool = false;
    let mut i: usize = lo;
    while i < hi
        invariant
            lo <= i <= hi <= v@.len(),
            all_digits(v@.subrange(lo as int, hi as int)),
            !over ==> acc == digits_val(v@.subrange(lo as int, i as int)) && acc <= i64::MAX,
            over ==> digits_val(v@.subrange(lo as int, i as int)) > i64::MAX,
        decreases hi - i,
    {
        let ghost pre = v@.subrange(lo as int, i as int);
        let ghost post = v@.subrange(lo as int, i + 1);
        proof {
            assert(post.drop_last() =~= pre);
            assert(v@[i as int] == v@.subrange(lo as int, hi as int)[i - lo]);
            assert(all_digits(pre)) by {
                assert(forall|j: int|
                    0 <= j < pre.len() ==> pre[j] == #[trigger] v@.subrange(
                        lo as int,
                        hi as int,
                    )[j]);
            }
            lemma_digits_val_nonneg(pre);
        }
        let c = v[i];
        let d: u64 = ((c as u32) - 48) as u64;
        if over {
            proof {
                assert(digits_val(post) == digits_val(pre) * 10 + digit_val(v@[i as int]));
            }
        } else {
            let t: u128 = (acc as u128) * 10 + (d as u128);
            if t > i64::MAX as u128 {
                over = true;
            } else {
                acc = t as u64;
            }
            proof {
                assert(digits_val(post) == digits_val(pre) * 10 + digit_val(v@[i as int]));
            }
        }
        i += 1;
    }
    if over {
        None
    } else {
        Some(acc)
    }
}

} // verus!
