//! FTX market names.
use vstd::prelude::*;
use crate::text::{
    contains_seq, contains_str, ends_with, find_char, first_index, has_char, is_suffix, last_index, lemma_first_index_exists, lemma_last_index_exists, occurs_at, opt_view, owned,
    rfind_char,
};

verus! {

/// The pair of an FTX market: `BTC-PERP` and `BTC-MOVE-0928` give `BTC/USD`; a name with
/// a `/` (spot markets, the BVOL indices) is already a pair; `BTC-0625` gives `BTC/USD`;
/// a bare name (a prediction market) is quoted in USD.
pub open spec fn ftx_pair(s: Seq<char>) -> Seq<char> {
    if is_suffix(s, "-PERP"@) {
        s.subrange(0, s.len() - 5) + "/USD"@
    } else if contains_seq(s, "-MOVE-"@) {
        s.subrange(0, first_index(s, '-')) + "/USD"@
    } else if s.contains('/') {
        s
    } else if s.contains('-') {
        s.subrange(0, last_index(s, '-')) + "/USD"@
    } else {
        s + "/USD"@
    }
}

/// Normalizes an FTX market name to its pair; every name has one.
pub fn normalize_pair(symbol: &str) -> (r: Option<String>)
    ensures
        opt_view(r) == Some(ftx_pair(symbol@)),
{
    proof {
        reveal_strlit("-PERP");
        reveal_strlit("-MOVE-");
        reveal_strlit("/USD");
    }
    let n = symbol.unicode_len();
    if ends_with(symbol, "-PERP") {
        let mut p = owned(symbol.substring_char(0, n - 5));
        p.append("/USD");
        return Some(p);
    }
    if contains_str(symbol, "-MOVE-") {
        proof {
            let k = choose|k: int| occurs_at(symbol@, "-MOVE-"@, k);
            assert(symbol@.subrange(k, k + 6)[0] == '-');
            assert(symbol@.contains('-'));
        }
        let pos = find_char(symbol, '-').unwrap();
        let mut p = owned(symbol.substring_char(0, pos));
        p.append("/USD");
        return Some(p);
    }
    if has_char(symbol, '/') {
        return Some(owned(symbol));
    }
    match rfind_char(symbol, '-') {
        Some(pos) => {
            let mut p = owned(symbol.substring_char(0, pos));
            p.append("/USD");
            Some(p)
        },
        None => {
            let mut p = owned(symbol);
            p.append("/USD");
            Some(p)
        },
    }
}

proof fn lemma_no_move_in_usd_pair(base: Seq<char>)
    requires
        !contains_seq(base, "-MOVE-"@),
    ensures
        !contains_seq(base + "/USD"@, "-MOVE-"@),
{
    reveal_strlit("-MOVE-");
    reveal_strlit("/USD");
    let p = base + "/USD"@;
    assert forall|k: int| !occurs_at(p, "-MOVE-"@, k) by {
        if occurs_at(p, "-MOVE-"@, k) {
            if k + 6 <= base.len() {
                assert(base.subrange(k, k + 6) =~= p.subrange(k, k + 6));
                assert(occurs_at(base, "-MOVE-"@, k));
            } else {
                assert(p.subrange(k, k + 6)[5] == '-');
                assert(p[k + 5] == '-');
                assert(p[k + 5] == "/USD"@[k + 5 - base.len()]);
            }
        }
    }
}

proof fn lemma_usd_pair_is_fixed(base: Seq<char>)
    requires
        !contains_seq(base, "-MOVE-"@),
    ensures
        ftx_pair(base + "/USD"@) == base + "/USD"@,
{
    reveal_strlit("-PERP");
    reveal_strlit("/USD");
    let p = base + "/USD"@;
    let n = p.len();
    lemma_no_move_in_usd_pair(base);
    assert(!is_suffix(p, "-PERP"@)) by {
        if is_suffix(p, "-PERP"@) {
            assert(p.subrange(n - 5, n as int)[4] == 'P');
            assert(p[n - 1] == 'D');
        }
    }
    assert(p[base.len() as int] == '/');
    assert(p.contains('/'));
}

/// Normalizing a pair again leaves it as it is, for every name but a perpetual whose
/// stem holds `-MOVE-` (`A-MOVE-B-PERP` gives `A-MOVE-B/USD`, which reads as a MOVE
/// contract).
pub proof fn lemma_normalize_pair_idempotent(symbol: Seq<char>)
    requires
        !(is_suffix(symbol, "-PERP"@) && contains_seq(
            symbol.subrange(0, symbol.len() - 5),
            "-MOVE-"@,
        )),
    ensures
        ftx_pair(ftx_pair(symbol)) == ftx_pair(symbol),
{
    reveal_strlit("-PERP");
    reveal_strlit("-MOVE-");
    reveal_strlit("/USD");
    let s = symbol;
    if is_suffix(s, "-PERP"@) {
        lemma_usd_pair_is_fixed(s.subrange(0, s.len() - 5));
    } else if contains_seq(s, "-MOVE-"@) {
        let k = choose|k: int| occurs_at(s, "-MOVE-"@, k);
        assert(s.subrange(k, k + 6)[0] == '-');
        assert(s.contains('-'));
        lemma_first_index_exists(s, '-');
        let base = s.subrange(0, first_index(s, '-'));
        assert(!base.contains('-'));
        assert(!contains_seq(base, "-MOVE-"@)) by {
            if contains_seq(base, "-MOVE-"@) {
                let j = choose|j: int| occurs_at(base, "-MOVE-"@, j);
                assert(base.subrange(j, j + 6)[0] == '-');
                assert(base.contains('-'));
            }
        }
        lemma_usd_pair_is_fixed(base);
    } else if s.contains('/') {
    } else if s.contains('-') {
        lemma_last_index_exists(s, '-');
        let i = last_index(s, '-');
        let base = s.subrange(0, i);
        assert(!contains_seq(base, "-MOVE-"@)) by {
            if contains_seq(base, "-MOVE-"@) {
                let j = choose|j: int| occurs_at(base, "-MOVE-"@, j);
                assert(s.subrange(j, j + 6) =~= base.subrange(j, j + 6));
                assert(occurs_at(s, "-MOVE-"@, j));
            }
        }
        lemma_usd_pair_is_fixed(base);
    } else {
        lemma_usd_pair_is_fixed(s);
    }
}

} // verus!
