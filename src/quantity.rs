//! Sizes in base coins, quote coins and contracts.
use vstd::prelude::*;
use crate::decimal::{lemma_pow10_add, lemma_pow10_positive, multiply, pow10, pow10_exec, product, Decimal};
use crate::market::MarketType;

verus! {

/// How many decimals a quotient keeps: the rest is cut off.
pub const QUOTIENT_SCALE: u32 = 18;

/// A size in base coins, in quote coins, and in contracts where the market has them.
#[derive(Clone, Copy, Debug, PartialEq, Eq, Structural)]
pub struct Quantities {
    pub base: Decimal,
    pub quote: Decimal,
    pub contract: Option<Decimal>,
}

/// Futures, swaps and options whose contracts count in base coins.
pub open spec fn is_linear(m: MarketType) -> bool {
    m == MarketType::LinearFuture || m == MarketType::LinearSwap || m == MarketType::EuropeanOption
}

/// Futures and swaps whose contracts count in quote coins (USD).
pub open spec fn is_inverse(m: MarketType) -> bool {
    m == MarketType::InverseFuture || m == MarketType::InverseSwap
}

/// The largest ratio of price to quote for which the cut quotient stays within
/// `10^-10` of the quote.
pub const MAX_PRICE_PER_QUOTE: u128 = 100000000;

/// `q / p`, cut to `QUOTIENT_SCALE` decimals, where the computation fits in 128 bits and
/// a positive `q` is at least `p / MAX_PRICE_PER_QUOTE`, so that the cut costs less than
/// `10^-10` of `q`.
pub open spec fn quotient(q: Decimal, p: Decimal) -> Option<Decimal> {
    let n = q.num() * p.den() * pow10(QUOTIENT_SCALE as nat);
    let d = p.num() * q.den();
    if p.scale <= 38 && q.scale <= 38 && n <= u128::MAX && d <= u128::MAX && d > 0 && (q.num() == 0
        || d <= MAX_PRICE_PER_QUOTE * (q.num() * p.den())) {
        Some(Decimal { mantissa: (n / d) as u128, scale: QUOTIENT_SCALE })
    } else {
        None
    }
}

fn div(q: Decimal, p: Decimal) -> (r: Option<Decimal>)
    ensures
        r == quotient(q, p),
{
    if p.scale > 38 || q.scale > 38 || p.mantissa == 0 {
        proof {
            if p.mantissa == 0 {
                assert(p.num() * q.den() == 0) by (nonlinear_arith)
                    requires
                        p.num() == 0,
                ;
            }
        }
        return None;
    }
    let pp = pow10_exec(p.scale);
    let pq = pow10_exec(q.scale);
    let ps = pow10_exec(QUOTIENT_SCALE);
    proof {
        lemma_pow10_positive(p.scale as nat);
        lemma_pow10_positive(q.scale as nat);
        lemma_pow10_positive(QUOTIENT_SCALE as nat);
    }
    let n1 = match q.mantissa.checked_mul(pp) {
        Some(x) => x,
        None => {
            assert(q.num() * p.den() * pow10(QUOTIENT_SCALE as nat) >= q.num() * p.den()) by (nonlinear_arith)
                requires
                    q.num() * p.den() >= 0,
                    pow10(QUOTIENT_SCALE as nat) >= 1,
            ;
            return None;
        },
    };
    let n = match n1.checked_mul(ps) {
        Some(x) => x,
        None => return None,
    };
    let d = match p.mantissa.checked_mul(pq) {
        Some(x) => x,
        None => return None,
    };
    assert(d > 0) by (nonlinear_arith)
        requires
            d == p.mantissa * pq,
            p.mantissa > 0,
            pq >= 1,
    ;
    if q.mantissa > 0 {
        proof {
            reveal_with_fuel(pow10, 19);
            assert(n1 * 100000000 <= n1 * 1000000000000000000) by (nonlinear_arith)
                requires
                    n1 >= 0,
            ;
        }
        if d > n1 * MAX_PRICE_PER_QUOTE {
            return None;
        }
    }
    Some(Decimal { mantissa: n / d, scale: QUOTIENT_SCALE })
}

/// The sizes of a trade or level of `size` at `price`: on spot markets `size` is in base
/// coins; on linear markets it counts contracts of `contract_value` base coins; on inverse
/// markets contracts of `contract_value` quote coins, and the base is the quote over the
/// price. Other markets, and linear or inverse ones without a positive contract value,
/// have none; so has a size too large to compute, and an inverse size too small against
/// its price.
pub open spec fn quantities(
    market_type: MarketType,
    contract_value: Option<Decimal>,
    price: Decimal,
    size: Decimal,
) -> Option<Quantities> {
    if market_type == MarketType::Spot {
        match product(price, size) {
            Some(quote) => Some(Quantities { base: size, quote, contract: None }),
            None => None,
        }
    } else if is_linear(market_type) {
        match contract_value {
            Some(cv) => if cv.mantissa == 0 {
                None
            } else {
                match product(size, cv) {
                    Some(base) => match product(price, base) {
                        Some(quote) => Some(Quantities { base, quote, contract: Some(size) }),
                        None => None,
                    },
                    None => None,
                }
            },
            None => None,
        }
    } else if is_inverse(market_type) {
        match contract_value {
            Some(cv) => if cv.mantissa == 0 {
                None
            } else {
                match product(size, cv) {
                    Some(quote) => match quotient(quote, price) {
                        Some(base) => Some(Quantities { base, quote, contract: Some(size) }),
                        None => None,
                    },
                    None => None,
                }
            },
            None => None,
        }
    } else {
        None
    }
}

pub fn calc_quantity_and_volume(
    market_type: MarketType,
    contract_value: Option<Decimal>,
    price: Decimal,
    size: Decimal,
) -> (r: Option<Quantities>)
    ensures
        r == quantities(market_type, contract_value, price, size),
{
    match market_type {
        MarketType::Spot => match multiply(price, size) {
            Some(quote) => Some(Quantities { base: size, quote, contract: None }),
            None => None,
        },
        MarketType::LinearFuture | MarketType::LinearSwap | MarketType::EuropeanOption => {
            match contract_value {
                Some(cv) if cv.mantissa > 0 => match multiply(size, cv) {
                    Some(base) => match multiply(price, base) {
                        Some(quote) => Some(Quantities { base, quote, contract: Some(size) }),
                        None => None,
                    },
                    None => None,
                },
                _ => None,
            }
        },
        MarketType::InverseFuture | MarketType::InverseSwap => match contract_value {
            Some(cv) if cv.mantissa > 0 => match multiply(size, cv) {
                Some(quote) => match div(quote, price) {
                    Some(base) => Some(Quantities { base, quote, contract: Some(size) }),
                    None => None,
                },
                None => None,
            },
            _ => None,
        },
        _ => None,
    }
}

/// The quote is the price times the base: exactly on spot and linear markets; on inverse
/// markets the base is cut, so the quote exceeds price times base by less than
/// `price / 10^18`, and by less than `10^-10` of the quote. A positive price and size give
/// a positive base and quote.
pub proof fn lemma_quote_is_price_times_base(
    market_type: MarketType,
    contract_value: Option<Decimal>,
    price: Decimal,
    size: Decimal,
)
    ensures
        quantities(market_type, contract_value, price, size) matches Some(q) ==> {
            let pb = price.num() * q.base.num();
            let pb_den = price.den() * q.base.den();
            &&& (price.mantissa > 0 && size.mantissa > 0 ==> q.base.mantissa > 0 && q.quote.mantissa > 0)
            &&& if !is_inverse(market_type) {
                q.quote.num() * pb_den == pb * q.quote.den()
            } else {
                &&& pb * q.quote.den() <= q.quote.num() * pb_den
                &&& q.quote.num() * pb_den < (pb + price.num()) * q.quote.den()
                &&& (q.quote.mantissa > 0 ==> (q.quote.num() * pb_den - pb * q.quote.den()) * 10000000000
                    < q.quote.num() * pb_den)
            }
        },
{
    if let Some(q) = quantities(market_type, contract_value, price, size) {
        let pb = price.num() * q.base.num();
        let pb_den = price.den() * q.base.den();
        let pm = price.num();
        let sm = size.num();
        if !is_inverse(market_type) {
            lemma_pow10_add(price.scale as nat, q.base.scale as nat);
            assert(q.quote.num() == pb);
            assert(q.quote.den() == pb_den);
            if pm > 0 && sm > 0 {
                if market_type == MarketType::Spot {
                    assert(pm * sm > 0) by (nonlinear_arith)
                        requires
                            pm > 0,
                            sm > 0,
                    ;
                } else {
                    let cv = contract_value->0;
                    let bm = q.base.num();
                    assert(bm == sm * cv.num());
                    assert(sm * cv.num() > 0) by (nonlinear_arith)
                        requires
                            cv.num() > 0,
                            sm > 0,
                    ;
                    assert(pm * bm > 0) by (nonlinear_arith)
                        requires
                            pm > 0,
                            bm > 0,
                    ;
                }
            }
        } else {
            let quote = q.quote;
            let cv = contract_value->0;
            let n = quote.num() * price.den() * pow10(QUOTIENT_SCALE as nat);
            let d = price.num() * quote.den();
            let bm = q.base.num();
            assert(bm == n / d);
            assert(d > 0);
            assert(bm * d == d * bm) by (nonlinear_arith);
            vstd::arithmetic::div_mod::lemma_fundamental_div_mod(n, d);
            vstd::arithmetic::div_mod::lemma_mod_bound(n, d);
            assert(bm * d <= n);
            assert(n < bm * d + d);
            assert(q.base.den() == pow10(QUOTIENT_SCALE as nat));
            let p18 = pow10(QUOTIENT_SCALE as nat);
            let qm = quote.num();
            let qd = quote.den();
            let pd = price.den();
            assert(pb * qd == bm * d) by (nonlinear_arith)
                requires
                    pb == pm * bm,
                    d == pm * qd,
            ;
            assert(qm * pb_den == n) by (nonlinear_arith)
                requires
                    pb_den == pd * p18,
                    n == qm * pd * p18,
            ;
            assert((pb + pm) * qd == bm * d + d) by (nonlinear_arith)
                requires
                    pb == pm * bm,
                    d == pm * qd,
            ;
            reveal_with_fuel(pow10, 19);
            assert(p18 == 1000000000000000000);
            if qm > 0 {
                assert(d <= 100000000 * (qm * pd));
                assert((n - bm * d) * 10000000000 < n) by (nonlinear_arith)
                    requires
                        n - bm * d < d,
                        d <= 100000000 * (qm * pd),
                        n == qm * pd * 1000000000000000000,
                        0 <= n - bm * d,
                ;
                // the base is at least 10^10 - 1 units of 10^-18
                assert(bm > 0) by (nonlinear_arith)
                    requires
                        n < bm * d + d,
                        d <= 100000000 * (qm * pd),
                        n == qm * pd * 1000000000000000000,
                        qm * pd >= 1,
                        d > 0,
                ;
            }
            if pm > 0 && sm > 0 {
                assert(qm == sm * cv.num());
                assert(sm * cv.num() > 0) by (nonlinear_arith)
                    requires
                        cv.num() > 0,
                        sm > 0,
                ;
                lemma_pow10_positive(price.scale as nat);
                assert(qm * pd >= 1) by (nonlinear_arith)
                    requires
                        qm >= 1,
                        pd >= 1,
                ;
            }
        }
    }
}

} // verus!
