//! Deribit instrument names.
use vstd::prelude::*;
use crate::text::{
    ends_with, find_char, first_index, is_digit, is_suffix, lemma_first_index_exists, opt_view, owned,
};

verus! {

/// Two decimal digits, such as a future's year.
pub open spec fn two_digits(a: char, b: char) -> bool {
    is_digit(a) && is_digit(b)
}

/// The pair of a Deribit symbol: `BTC-PERPETUAL` and `BTC-28JUN24` give `BTC/USD`,
/// the option `BTC-28JUN24-60000-C` gives `BTC/BTC`; any other shape has none.
pub open spec fn deribit_pair(s: Seq<char>) -> Option<Seq<char>> {
    if is_suffix(s, "-PERPETUAL"@) {
        Some(s.subrange(0, s.len() - 10) + "/USD"@)
    } else if s.len() > 7 && two_digits(s[s.len() - 2], s[s.len() - 1]) {
        if s.contains('-') {
            Some(s.subrange(0, first_index(s, '-')) + "/USD"@)
        } else {
            None
        }
    } else if is_suffix(s, "-P"@) || is_suffix(s, "-C"@) {
        let base = s.subrange(0, first_index(s, '-'));
        Some(base + "/"@ + base)
    } else {
        None
    }
}

/// Normalizes a Deribit symbol to its pair.
pub fn normalize_pair(symbol: &str) -> (r: Option<String>)
    ensures
        opt_view(r) == deribit_pair(symbol@),
{
    proof {
        reveal_strlit("-PERPETUAL");
        reveal_strlit("-P");
        reveal_strlit("-C");
        reveal_strlit("/USD");
        reveal_strlit("/");
    }
    let n = symbol.unicode_len();
    if ends_with(symbol, "-PERPETUAL") {
        let mut p = owned(symbol.substring_char(0, n - 10));
        p.append("/USD");
        return Some(p);
    }
    if n > 7 {
        let a = symbol.get_char(n - 2);
        let b = symbol.get_char(n - 1);
        let is_int = ('0' <= b && b <= '9') && ('0' <= a && a <= '9');
        if is_int {
            return match find_char(symbol, '-') {
                Some(pos) => {
                    let mut p = owned(symbol.substring_char(0, pos));
                    p.append("/USD");
                    Some(p)
                },
                None => None,
            };
        }
    }
    if ends_with(symbol, "-P") || ends_with(symbol, "-C") {
        assert(symbol@.subrange(n - 2, n as int)[0] == '-');
        assert(symbol@.contains('-'));
        let pos = find_char(symbol, '-').unwrap();
        let base = symbol.substring_char(0, pos);
        let mut p = owned(base);
        p.append("/");
        p.append(base);
        return Some(p);
    }
    None
}

/// A normalized Deribit pair is no symbol of another pair: normalizing the output
/// again gives the output itself wherever it gives anything.
pub proof fn lemma_normalize_pair_idempotent(symbol: Seq<char>)
    ensures
        deribit_pair(symbol) matches Some(p) ==> (deribit_pair(p) is Some ==> deribit_pair(p)
            == Some(p)),
{
    reveal_strlit("-PERPETUAL");
    reveal_strlit("-P");
    reveal_strlit("-C");
    reveal_strlit("/USD");
    reveal_strlit("/");
    if let Some(p) = deribit_pair(symbol) {
        let s = symbol;
        let n = p.len();
        if is_suffix(s, "-PERPETUAL"@) || (s.len() > 7 && two_digits(s[s.len() - 2], s[s.len() - 1])) {
            // the output ends with "/USD"
            let base = p.subrange(0, n - 4);
            assert(p.subrange(n - 4, n as int) =~= "/USD"@);
            assert(p[n - 1] == 'D');
            assert(p[n - 2] == 'S');
            assert(!is_suffix(p, "-PERPETUAL"@)) by {
                if is_suffix(p, "-PERPETUAL"@) {
                    assert(p.subrange(n - 10, n as int)[9] == 'L');
                }
            }
            assert(!is_suffix(p, "-P"@)) by {
                if is_suffix(p, "-P"@) {
                    assert(p.subrange(n - 2, n as int)[1] == 'P');
                }
            }
            assert(!is_suffix(p, "-C"@)) by {
                if is_suffix(p, "-C"@) {
                    assert(p.subrange(n - 2, n as int)[1] == 'C');
                }
            }
        } else {
            // the output is base/base, with no '-' in it
            let i = first_index(s, '-');
            assert(s[s.len() - 2] == '-') by {
                if is_suffix(s, "-P"@) {
                    assert(s.subrange(s.len() - 2, s.len() as int)[0] == '-');
                } else {
                    assert(s.subrange(s.len() - 2, s.len() as int)[0] == '-');
                }
            }
            assert(s.contains('-'));
            lemma_first_index_exists(s, '-');
            let base = s.subrange(0, i);
            assert(p == base + "/"@ + base);
            assert(!p.contains('-')) by {
                assert forall|k: int| 0 <= k < p.len() implies p[k] != '-' by {
                    if k < base.len() {
                        assert(p[k] == s[k]);
                    } else if k == base.len() {
                        assert(p[k] == '/');
                    } else {
                        assert(p[k] == s[k - base.len() - 1]);
                    }
                }
            }
            assert(!is_suffix(p, "-PERPETUAL"@)) by {
                if is_suffix(p, "-PERPETUAL"@) {
                    assert(p[n - 10] == p.subrange(n - 10, n as int)[0]);
                }
            }
            assert(!is_suffix(p, "-P"@)) by {
                if is_suffix(p, "-P"@) {
                    assert(p[n - 2] == p.subrange(n - 2, n as int)[0]);
                }
            }
            assert(!is_suffix(p, "-C"@)) by {
                if is_suffix(p, "-C"@) {
                    assert(p[n - 2] == p.subrange(n - 2, n as int)[0]);
                }
            }
        }
    }
}

} // verus!
