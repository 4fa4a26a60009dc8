//! The closed set of supported currencies and the resolution of user input
//! (a one-based menu index or a currency symbol in any letter case) to a
//! canonical currency code.

use vstd::prelude::*;

use crate::text::chars_of;
use crate::text::eq_ic;
use crate::text::eq_ic_char;
use crate::text::is_space;
use crate::text::matches_ci;
use crate::text::trim;
use crate::text::trim_chars;

verus! {

/// A canonical currency code.  `Php` is the base currency; the order is the
/// fixed menu order.
#[derive(Clone, Copy, PartialEq, Eq, Structural, Debug)]
pub enum Currency {
    Php,
    Usd,
    Jpy,
    Gbp,
    Eur,
    Cny,
}

/// The uppercase three-letter symbol of a currency.
pub open spec fn symbol_seq(c: Currency) -> Seq<char> {
    match c {
        Currency::Php => seq!['P', 'H', 'P'],
        Currency::Usd => seq!['U', 'S', 'D'],
        Currency::Jpy => seq!['J', 'P', 'Y'],
        Currency::Gbp => seq!['G', 'B', 'P'],
        Currency::Eur => seq!['E', 'U', 'R'],
        Currency::Cny => seq!['C', 'N', 'Y'],
    }
}

impl Currency {
    /// The currency's canonical uppercase symbol.
    pub fn symbol(&self) -> (r: &'static str)
        ensures
            r@ == symbol_seq(*self),
    {
        proof {
            reveal_strlit("PHP");
            reveal_strlit("USD");
            reveal_strlit("JPY");
            reveal_strlit("GBP");
            reveal_strlit("EUR");
            reveal_strlit("CNY");
        }
        let r = match self {
            Currency::Php => "PHP",
            Currency::Usd => "USD",
            Currency::Jpy => "JPY",
            Currency::Gbp => "GBP",
            Currency::Eur => "EUR",
            Currency::Cny => "CNY",
        };
        proof {
            assert(r@ =~= symbol_seq(*self));
        }
        r
    }
}

/// Canonical interpretation of a currency selector: after trimming, a menu
/// index `'1'..'6'` or a currency symbol in any letter case; anything else is
/// unrecognized.
pub open spec fn spec_resolve(s: Seq<char>) -> Option<Currency> {
    let t = trim(s);
    if t.len() == 1 && t[0] == '1' {
        Some(Currency::Php)
    } else if t.len() == 1 && t[0] == '2' {
        Some(Currency::Usd)
    } else if t.len() == 1 && t[0] == '3' {
        Some(Currency::Jpy)
    } else if t.len() == 1 && t[0] == '4' {
        Some(Currency::Gbp)
    } else if t.len() == 1 && t[0] == '5' {
        Some(Currency::Eur)
    } else if t.len() == 1 && t[0] == '6' {
        Some(Currency::Cny)
    } else if matches_ci(t, symbol_seq(Currency::Php)) {
        Some(Currency::Php)
    } else if matches_ci(t, symbol_seq(Currency::Usd)) {
        Some(Currency::Usd)
    } else if matches_ci(t, symbol_seq(Currency::Jpy)) {
        Some(Currency::Jpy)
    } else if matches_ci(t, symbol_seq(Currency::Gbp)) {
        Some(Currency::Gbp)
    } else if matches_ci(t, symbol_seq(Currency::Eur)) {
        Some(Currency::Eur)
    } else if matches_ci(t, symbol_seq(Currency::Cny)) {
        Some(Currency::Cny)
    } else {
        None
    }
}

/// Whether the three characters of `v` spell `a`, `b`, `c` up to letter case
/// (`a`, `b`, `c` uppercase).
fn code_matches(v: &Vec<char>, a: char, b: char, c: char) -> (r: bool)
    requires
        v@.len() == 3,
    ensures
        r == matches_ci(v@, seq![a, b, c]),
{
    let ghost p = seq![a, b, c];
    let m = eq_ic_char(v[0], a) && eq_ic_char(v[1], b) && eq_ic_char(v[2], c);
    proof {
        if m {
            assert forall|i: int| 0 <= i < v@.len() implies eq_ic(#[trigger] v@[i], p[i]) by {
                if i == 0 {
                } else if i == 1 {
                } else {
                    assert(i == 2);
                }
            }
        } else {
            if matches_ci(v@, p) {
                assert(eq_ic(v@[0], p[0]));
                assert(eq_ic(v@[1], p[1]));
                assert(eq_ic(v@[2], p[2]));
            }
        }
    }
    m
}

/// Resolve a menu choice or a direct currency code to a canonical currency.
pub fn choice_to_code(choice: &str) -> (r: Option<Currency>)
    ensures
        r == spec_resolve(choice@),
{
    let cs = chars_of(choice);
    let t = trim_chars(&cs);
    if t.len() == 1 {
        let c = t[0];
        if c == '1' {
            Some(Currency::Php)
        } else if c == '2' {
            Some(Currency::Usd)
        } else if c == '3' {
            Some(Currency::Jpy)
        } else if c == '4' {
            Some(Currency::Gbp)
        } else if c == '5' {
            Some(Currency::Eur)
        } else if c == '6' {
            Some(Currency::Cny)
        } else {
            None
        }
    } else if t.len() == 3 {
        if code_matches(&t, 'P', 'H', 'P') {
            Some(Currency::Php)
        } else if code_matches(&t, 'U', 'S', 'D') {
            Some(Currency::Usd)
        } else if code_matches(&t, 'J', 'P', 'Y') {
            Some(Currency::Jpy)
        } else if code_matches(&t, 'G', 'B', 'P') {
            Some(Currency::Gbp)
        } else if code_matches(&t, 'E', 'U', 'R') {
            Some(Currency::Eur)
        } else if code_matches(&t, 'C', 'N', 'Y') {
            Some(Currency::Cny)
        } else {
            None
        }
    } else {
        None
    }
}

/// A selector that spells one symbol cannot spell another whose initial
/// letter differs.
proof fn lemma_not_matches_diff_initial(s: Seq<char>, p: Seq<char>, q: Seq<char>)
    requires
        matches_ci(s, p),
        p.len() == 3,
        q.len() == 3,
        65 <= p[0] as int <= 90,
        65 <= q[0] as int <= 90,
        p[0] != q[0],
    ensures
        !matches_ci(s, q),
{
    assert(eq_ic(s[0], p[0]));
    if matches_ci(s, q) {
        assert(eq_ic(s[0], q[0]));
    }
}

/// Resolution accepts every currency symbol in any letter case: a selector
/// that spells a currency's symbol, with each letter in either case, resolves
/// to exactly that currency.
pub proof fn lemma_resolve_symbol_any_case(s: Seq<char>, c: Currency)
    requires
        matches_ci(s, symbol_seq(c)),
    ensures
        spec_resolve(s) == Some(c),
{
    let p = symbol_seq(c);
    assert(s.len() == 3);
    assert forall|i: int| 0 <= i < s.len() implies !is_space(#[trigger] s[i]) by {
        assert(eq_ic(s[i], p[i]));
        assert(65 <= p[i] as int <= 90) by {
            if i == 0 {
            } else if i == 1 {
            } else {
                assert(i == 2);
            }
        }
    }
    crate::text::lemma_trim_front_skip(s, 0);
    assert(s.skip(0) =~= s);
    crate::text::lemma_trim_back_take(s, s.len() as int);
    assert(s.take(s.len() as int) =~= s);
    assert(trim(s) == s);
    let php = symbol_seq(Currency::Php);
    let usd = symbol_seq(Currency::Usd);
    let jpy = symbol_seq(Currency::Jpy);
    let gbp = symbol_seq(Currency::Gbp);
    let eur = symbol_seq(Currency::Eur);
    let cny = symbol_seq(Currency::Cny);
    match c {
        Currency::Php => {
        },
        Currency::Usd => {
            lemma_not_matches_diff_initial(s, usd, php);
        },
        Currency::Jpy => {
            lemma_not_matches_diff_initial(s, jpy, php);
            lemma_not_matches_diff_initial(s, jpy, usd);
        },
        Currency::Gbp => {
            lemma_not_matches_diff_initial(s, gbp, php);
            lemma_not_matches_diff_initial(s, gbp, usd);
            lemma_not_matches_diff_initial(s, gbp, jpy);
        },
        Currency::Eur => {
            lemma_not_matches_diff_initial(s, eur, php);
            lemma_not_matches_diff_initial(s, eur, usd);
            lemma_not_matches_diff_initial(s, eur, jpy);
            lemma_not_matches_diff_initial(s, eur, gbp);
        },
        Currency::Cny => {
            lemma_not_matches_diff_initial(s, cny, php);
            lemma_not_matches_diff_initial(s, cny, usd);
            lemma_not_matches_diff_initial(s, cny, jpy);
            lemma_not_matches_diff_initial(s, cny, gbp);
            lemma_not_matches_diff_initial(s, cny, eur);
        },
    }
}

} // verus!
