//! Contract values: how many coins one contract of a derivative stands for.
use vstd::prelude::*;
use crate::decimal::{parse_decimal, parsed_decimal, Decimal};
use crate::market::MarketType;
use crate::text::{fields_of_lines, is_prefix, line_fields, nested_views, starts_with, str_eq, views};

verus! {

/// OKEx's linear contracts, in base coins, by market and pair.
pub const OKEX_CONTRACT_VALUES: &'static str = "linear_swap 1INCH/USDT 1
linear_swap AAVE/USDT 0.1
linear_swap ADA/USDT 100
linear_swap AGLD/USDT 1
linear_swap ALGO/USDT 10
linear_swap ALPHA/USDT 1
linear_swap ANC/USDT 1
linear_swap ANT/USDT 1
linear_swap ATOM/USDT 1
linear_swap AVAX/USDT 1
linear_swap AXS/USDT 0.1
linear_swap BADGER/USDT 0.1
linear_swap BAL/USDT 0.1
linear_swap BAND/USDT 1
linear_swap BAT/USDT 10
linear_swap BCH/USDT 0.1
linear_swap BNT/USDT 10
linear_swap BSV/USDT 1
linear_swap BTC/USDT 0.01
linear_swap BTM/USDT 100
linear_swap BTT/USDT 10000
linear_swap BZZ/USDT 0.1
linear_swap CELO/USDT 1
linear_swap CFX/USDT 10
linear_swap CHZ/USDT 10
linear_swap COMP/USDT 0.1
linear_swap CONV/USDT 10
linear_swap CQT/USDT 1
linear_swap CRO/USDT 10
linear_swap CRV/USDT 1
linear_swap CSPR/USDT 1
linear_swap CVC/USDT 100
linear_swap DASH/USDT 0.1
linear_swap DOGE/USDT 1000
linear_swap DORA/USDT 0.1
linear_swap DOT/USDT 1
linear_swap DYDX/USDT 1
linear_swap EFI/USDT 1
linear_swap EGLD/USDT 0.1
linear_swap ENJ/USDT 1
linear_swap EOS/USDT 10
linear_swap ETC/USDT 10
linear_swap ETH/USDT 0.1
linear_swap FIL/USDT 0.1
linear_swap FLM/USDT 10
linear_swap FTM/USDT 10
linear_swap GALA/USDT 10
linear_swap GRT/USDT 10
linear_swap ICP/USDT 0.01
linear_swap IOST/USDT 1000
linear_swap IOTA/USDT 10
linear_swap JST/USDT 100
linear_swap KNC/USDT 1
linear_swap KSM/USDT 0.1
linear_swap LAT/USDT 10
linear_swap LINK/USDT 1
linear_swap LON/USDT 1
linear_swap LPT/USDT 0.1
linear_swap LRC/USDT 10
linear_swap LTC/USDT 1
linear_swap LUNA/USDT 0.1
linear_swap MANA/USDT 10
linear_swap MASK/USDT 1
linear_swap MATIC/USDT 10
linear_swap MINA/USDT 1
linear_swap MIR/USDT 1
linear_swap MKR/USDT 0.01
linear_swap NEAR/USDT 10
linear_swap NEO/USDT 1
linear_swap OMG/USDT 1
linear_swap ONT/USDT 10
linear_swap PERP/USDT 1
linear_swap QTUM/USDT 1
linear_swap REN/USDT 10
linear_swap RSR/USDT 100
linear_swap RVN/USDT 10
linear_swap SAND/USDT 10
linear_swap SC/USDT 100
linear_swap SHIB/USDT 1000000
linear_swap SLP/USDT 10
linear_swap SNX/USDT 1
linear_swap SOL/USDT 1
linear_swap SRM/USDT 1
linear_swap STORJ/USDT 10
linear_swap SUN/USDT 0.1
linear_swap SUSHI/USDT 1
linear_swap SWRV/USDT 1
linear_swap THETA/USDT 10
linear_swap TORN/USDT 0.01
linear_swap TRB/USDT 0.1
linear_swap TRX/USDT 1000
linear_swap UMA/USDT 0.1
linear_swap UNI/USDT 1
linear_swap WAVES/USDT 1
linear_swap WNCG/USDT 1
linear_swap WNXM/USDT 0.1
linear_swap XCH/USDT 0.01
linear_swap XEM/USDT 10
linear_swap XLM/USDT 100
linear_swap XMR/USDT 0.1
linear_swap XRP/USDT 100
linear_swap XTZ/USDT 1
linear_swap YFI/USDT 0.0001
linear_swap YFII/USDT 0.001
linear_swap YGG/USDT 1
linear_swap ZEC/USDT 0.1
linear_swap ZEN/USDT 1
linear_swap ZIL/USDT 100
linear_swap ZRX/USDT 10
linear_future ADA/USDT 100
linear_future BCH/USDT 0.1
linear_future BSV/USDT 1
linear_future BTC/USDT 0.01
linear_future DOT/USDT 1
linear_future EOS/USDT 10
linear_future ETC/USDT 10
linear_future ETH/USDT 0.1
linear_future FIL/USDT 0.1
linear_future LINK/USDT 1
linear_future LTC/USDT 1
linear_future TRX/USDT 1000
linear_future XRP/USDT 100
option BTC/USD 0.1
option ETH/USD 1.0
option EOS/USD 100.0";

/// Gate's linear contracts, in base coins, by market and pair.
pub const GATE_CONTRACT_VALUES: &'static str = "linear_swap 1INCH/USDT 1
linear_swap AAVE/USDT 0.01
linear_swap ACH/USDT 11
linear_swap ADA/USDT 10
linear_swap ALGO/USDT 10
linear_swap ALICE/USDT 0.1
linear_swap ALPHA/USDT 1
linear_swap ALT/USDT 0.001
linear_swap AMPL/USDT 1
linear_swap ANC/USDT 1
linear_swap ANKR/USDT 10
linear_swap ANT/USDT 0.1
linear_swap AR/USDT 0.1
linear_swap ARPA/USDT 10
linear_swap ATOM/USDT 1
linear_swap AVAX/USDT 1
linear_swap AXS/USDT 0.1
linear_swap BADGER/USDT 0.1
linear_swap BAKE/USDT 0.1
linear_swap BAND/USDT 0.1
linear_swap BAT/USDT 10
linear_swap BCD/USDT 0.1
linear_swap BCH/USDT 0.01
linear_swap BCHA/USDT 0.1
linear_swap BEAM/USDT 10
linear_swap BIT/USDT 1
linear_swap BNB/USDT 0.001
linear_swap BNT/USDT 1
linear_swap BSV/USDT 0.01
linear_swap BTC/USDT 0.0001
linear_swap BTM/USDT 10
linear_swap BTS/USDT 100
linear_swap BZZ/USDT 0.1
linear_swap C98/USDT 1
linear_swap CAKE/USDT 0.1
linear_swap CELR/USDT 10
linear_swap CFX/USDT 10
linear_swap CHR/USDT 10
linear_swap CHZ/USDT 100
linear_swap CKB/USDT 100
linear_swap CLV/USDT 1
linear_swap COMP/USDT 0.01
linear_swap CONV/USDT 10
linear_swap COTI/USDT 1
linear_swap CRU/USDT 0.01
linear_swap CRV/USDT 0.1
linear_swap CSPR/USDT 10
linear_swap CTSI/USDT 1
linear_swap CVC/USDT 10
linear_swap DASH/USDT 0.01
linear_swap DEFI/USDT 0.001
linear_swap DEGO/USDT 0.1
linear_swap DOGE/USDT 10
linear_swap DOT/USDT 1
linear_swap DYDX/USDT 0.1
linear_swap EGLD/USDT 0.1
linear_swap EOS/USDT 1
linear_swap ETC/USDT 0.1
linear_swap ETH/USDT 0.01
linear_swap EXCH/USDT 0.001
linear_swap FIL/USDT 0.01
linear_swap FIL6/USDT 0.1
linear_swap FLOW/USDT 0.1
linear_swap FRONT/USDT 1
linear_swap FTM/USDT 1
linear_swap FTT/USDT 0.01
linear_swap GALA/USDT 10
linear_swap GITCOIN/USDT 0.1
linear_swap GRIN/USDT 10
linear_swap GRT/USDT 10
linear_swap HBAR/USDT 10
linear_swap HIVE/USDT 1
linear_swap HT/USDT 1
linear_swap ICP/USDT 0.001
linear_swap IOST/USDT 10
linear_swap IOTX/USDT 10
linear_swap IRIS/USDT 10
linear_swap JST/USDT 100
linear_swap KAVA/USDT 1
linear_swap KEEP/USDT 1
linear_swap KSM/USDT 0.1
linear_swap LINA/USDT 10
linear_swap LINK/USDT 1
linear_swap LIT/USDT 1
linear_swap LON/USDT 1
linear_swap LPT/USDT 0.1
linear_swap LRC/USDT 1
linear_swap LTC/USDT 0.1
linear_swap LUNA/USDT 1
linear_swap MASK/USDT 0.1
linear_swap MATIC/USDT 10
linear_swap MINA/USDT 0.1
linear_swap MKR/USDT 0.001
linear_swap MOVR/USDT 0.01
linear_swap MTL/USDT 0.1
linear_swap NEAR/USDT 1
linear_swap NEST/USDT 10
linear_swap NFT/USDT 100000
linear_swap NKN/USDT 1
linear_swap NU/USDT 1
linear_swap OGN/USDT 1
linear_swap OKB/USDT 0.1
linear_swap OMG/USDT 1
linear_swap ONE/USDT 10
linear_swap ONT/USDT 1
linear_swap OXY/USDT 1
linear_swap PEARL/USDT 0.001
linear_swap PERP/USDT 0.1
linear_swap POLS/USDT 1
linear_swap POLY/USDT 1
linear_swap POND/USDT 10
linear_swap PRIV/USDT 0.001
linear_swap QTUM/USDT 1
linear_swap RAD/USDT 0.1
linear_swap RAY/USDT 0.1
linear_swap REEF/USDT 100
linear_swap RNDR/USDT 1
linear_swap ROSE/USDT 100
linear_swap RUNE/USDT 0.1
linear_swap RVN/USDT 10
linear_swap SAND/USDT 1
linear_swap SERO/USDT 10
linear_swap SHIB/USDT 10000
linear_swap SKL/USDT 10
linear_swap SLP/USDT 1
linear_swap SNX/USDT 0.1
linear_swap SOL/USDT 1
linear_swap SRM/USDT 1
linear_swap STORJ/USDT 1
linear_swap SUN/USDT 0.1
linear_swap SUPER/USDT 1
linear_swap SUSHI/USDT 1
linear_swap SXP/USDT 1
linear_swap TFUEL/USDT 10
linear_swap THETA/USDT 1
linear_swap TLM/USDT 1
linear_swap TRIBE/USDT 1
linear_swap TRU/USDT 10
linear_swap TRX/USDT 100
linear_swap UNI/USDT 1
linear_swap VET/USDT 100
linear_swap WAVES/USDT 1
linear_swap WAXP/USDT 1
linear_swap WSB/USDT 0.001
linear_swap XAUG/USDT 0.001
linear_swap XCH/USDT 0.001
linear_swap XEC/USDT 10000
linear_swap XEM/USDT 1
linear_swap XLM/USDT 10
linear_swap XMR/USDT 0.01
linear_swap XRP/USDT 10
linear_swap XTZ/USDT 1
linear_swap XVS/USDT 0.01
linear_swap YFI/USDT 0.0001
linear_swap YFII/USDT 0.001
linear_swap YGG/USDT 1
linear_swap ZEC/USDT 0.01
linear_swap ZEN/USDT 0.1
linear_swap ZIL/USDT 10
linear_swap ZKS/USDT 1
linear_future BTC/USDT 0.0001
linear_future ETH/USDT 0.01";

/// Kucoin's linear contracts, in base coins, by market and pair.
pub const KUCOIN_CONTRACT_VALUES: &'static str = "linear_swap 1INCH/USDT 1
linear_swap AAVE/USDT 0.01
linear_swap ADA/USDT 10
linear_swap ALGO/USDT 1
linear_swap ALICE/USDT 0.1
linear_swap ATOM/USDT 0.1
linear_swap AVAX/USDT 0.1
linear_swap AXS/USDT 0.1
linear_swap BAND/USDT 0.1
linear_swap BAT/USDT 1
linear_swap BCH/USDT 0.01
linear_swap BNB/USDT 0.01
linear_swap BSV/USDT 0.01
linear_swap BTC/USDT 0.001
linear_swap BTT/USDT 1000
linear_swap C98/USDT 1
linear_swap CHZ/USDT 1
linear_swap COMP/USDT 0.01
linear_swap CRV/USDT 1
linear_swap DASH/USDT 0.01
linear_swap DENT/USDT 100
linear_swap DGB/USDT 10
linear_swap DOGE/USDT 100
linear_swap DOT/USDT 1
linear_swap DYDX/USDT 0.1
linear_swap EGLD/USDT 0.01
linear_swap ENJ/USDT 1
linear_swap EOS/USDT 1
linear_swap ETC/USDT 0.1
linear_swap ETH/USDT 0.01
linear_swap FIL/USDT 0.1
linear_swap FTM/USDT 1
linear_swap GRT/USDT 1
linear_swap HBAR/USDT 10
linear_swap ICP/USDT 0.01
linear_swap IOST/USDT 100
linear_swap KSM/USDT 0.01
linear_swap LINK/USDT 0.1
linear_swap LTC/USDT 0.1
linear_swap LUNA/USDT 1
linear_swap MANA/USDT 1
linear_swap MATIC/USDT 10
linear_swap MIR/USDT 0.1
linear_swap MKR/USDT 0.001
linear_swap NEAR/USDT 0.1
linear_swap NEO/USDT 0.1
linear_swap OCEAN/USDT 1
linear_swap ONE/USDT 10
linear_swap ONT/USDT 1
linear_swap QTUM/USDT 0.1
linear_swap RVN/USDT 10
linear_swap SAND/USDT 1
linear_swap SHIB/USDT 100000
linear_swap SNX/USDT 0.1
linear_swap SOL/USDT 0.1
linear_swap SUSHI/USDT 1
linear_swap SXP/USDT 1
linear_swap THETA/USDT 0.1
linear_swap TRX/USDT 100
linear_swap UNI/USDT 1
linear_swap VET/USDT 100
linear_swap WAVES/USDT 0.1
linear_swap XEM/USDT 1
linear_swap XLM/USDT 10
linear_swap XMR/USDT 0.01
linear_swap XRP/USDT 10
linear_swap XTZ/USDT 1
linear_swap YFI/USDT 0.0001
linear_swap YGG/USDT 0.1
linear_swap ZEC/USDT 0.01";

/// One contract value.
#[derive(Clone, Debug)]
pub struct ContractEntry {
    pub market_type: MarketType,
    pub pair: String,
    pub value: Decimal,
}

pub open spec fn entry_view(e: ContractEntry) -> (MarketType, Seq<char>, Decimal) {
    (e.market_type, e.pair@, e.value)
}

pub open spec fn entries_view(v: Seq<ContractEntry>) -> Seq<(MarketType, Seq<char>, Decimal)> {
    v.map_values(|e: ContractEntry| entry_view(e))
}

/// The value under a market type and pair, the first entry first.
pub open spec fn find_value(
    entries: Seq<(MarketType, Seq<char>, Decimal)>,
    market_type: MarketType,
    pair: Seq<char>,
) -> Option<Decimal>
    decreases entries.len(),
{
    if entries.len() == 0 {
        None
    } else if entries[0].0 == market_type && entries[0].1 == pair {
        Some(entries[0].2)
    } else {
        find_value(entries.drop_first(), market_type, pair)
    }
}

/// The contract values of one exchange's linear markets.
pub struct ContractTable {
    entries: Vec<ContractEntry>,
}

pub open spec fn positive(e: (MarketType, Seq<char>, Decimal)) -> bool {
    e.2.mantissa > 0
}

/// The value that a line's fields give: `market_type pair value`, with a positive value.
pub open spec fn line_value_of(fields: Seq<Seq<char>>) -> Option<(MarketType, Seq<char>, Decimal)> {
    if fields.len() != 3 {
        None
    } else {
        match (market_named(fields[0]), parsed_decimal(fields[2])) {
            (Some(m), Some(v)) => if v.mantissa > 0 {
                Some((m, fields[1], v))
            } else {
                None
            },
            _ => None,
        }
    }
}

/// What lines of a table say of a market type and pair: the last line that gives a value
/// for them.
pub open spec fn value_in_lines(lines: Seq<Seq<Seq<char>>>, market_type: MarketType, pair: Seq<char>) -> Option<Decimal>
    decreases lines.len(),
{
    if lines.len() == 0 {
        None
    } else {
        match line_value_of(lines.last()) {
            Some(e) => if e.0 == market_type && e.1 == pair {
                Some(e.2)
            } else {
                value_in_lines(lines.drop_last(), market_type, pair)
            },
            None => value_in_lines(lines.drop_last(), market_type, pair),
        }
    }
}

/// The market type that a table line names.
pub open spec fn market_named(name: Seq<char>) -> Option<MarketType> {
    if name == "linear_swap"@ {
        Some(MarketType::LinearSwap)
    } else if name == "linear_future"@ {
        Some(MarketType::LinearFuture)
    } else if name == "option"@ {
        Some(MarketType::EuropeanOption)
    } else {
        None
    }
}

fn market_from_name(name: &str) -> (r: Option<MarketType>)
    ensures
        r == market_named(name@),
{
    if str_eq(name, "linear_swap") {
        Some(MarketType::LinearSwap)
    } else if str_eq(name, "linear_future") {
        Some(MarketType::LinearFuture)
    } else if str_eq(name, "option") {
        Some(MarketType::EuropeanOption)
    } else {
        None
    }
}

impl ContractTable {
    pub closed spec fn view(&self) -> Seq<(MarketType, Seq<char>, Decimal)> {
        entries_view(self.entries@)
    }

    /// Every value is positive.
    pub open spec fn wf(&self) -> bool {
        forall|i: int| 0 <= i < self.view().len() ==> #[trigger] positive(self.view()[i])
    }

    /// The value under `market_type` and `pair`.
    pub open spec fn value_of(&self, market_type: MarketType, pair: Seq<char>) -> Option<Decimal> {
        find_value(self.view(), market_type, pair)
    }

    pub fn new() -> (r: ContractTable)
        ensures
            r.wf(),
            r.view().len() == 0,
    {
        let r = ContractTable { entries: Vec::new() };
        assert(r.view() =~= Seq::<(MarketType, Seq<char>, Decimal)>::empty());
        r
    }

    pub fn lookup(&self, market_type: MarketType, pair: &str) -> (r: Option<Decimal>)
        requires
            self.wf(),
        ensures
            r == self.value_of(market_type, pair@),
            r matches Some(v) ==> v.mantissa > 0,
    {
        let ghost all = self.view();
        let mut i: usize = 0;
        assert(all.subrange(0, all.len() as int) =~= all);
        while i < self.entries.len()
            invariant
                i <= self.entries@.len(),
                all == self.view(),
                all.len() == self.entries@.len(),
                self.wf(),
                find_value(all, market_type, pair@) == find_value(all.subrange(i as int, all.len() as int), market_type, pair@),
            decreases self.entries@.len() - i,
        {
            let e = &self.entries[i];
            assert(all.subrange(i as int, all.len() as int).drop_first() =~= all.subrange(i + 1, all.len() as int));
            assert(all.subrange(i as int, all.len() as int)[0] == entry_view(*e));
            if e.market_type == market_type && str_eq(e.pair.as_str(), pair) {
                assert(all[i as int] == entry_view(*e));
                assert(positive(self.view()[i as int]));
                return Some(e.value);
            }
            i += 1;
        }
        None
    }

    /// Puts a value in, in place of any under the same market type and pair.
    pub fn insert(&mut self, entry: ContractEntry)
        requires
            old(self).wf(),
            entry.value.mantissa > 0,
        ensures
            final(self).wf(),
            forall|m: MarketType, p: Seq<char>| #[trigger] final(self).value_of(m, p) == if m
                == entry.market_type && p == entry.pair@ {
                Some(entry.value)
            } else {
                old(self).value_of(m, p)
            },
    {
        let ghost all = self.view();
        let ghost ev = entry_view(entry);
        let mut i: usize = 0;
        while i < self.entries.len()
            invariant
                i <= self.entries@.len(),
                all == self.view(),
                all.len() == self.entries@.len(),
                self.entries@ == old(self).entries@,
                ev == entry_view(entry),
                entry.value.mantissa > 0,
                old(self).wf(),
                forall|k: int| 0 <= k < i ==> !(all[k].0 == ev.0 && all[k].1 == ev.1),
            decreases self.entries@.len() - i,
        {
            assert(all[i as int] == entry_view(self.entries@[i as int]));
            if self.entries[i].market_type == entry.market_type && str_eq(
                self.entries[i].pair.as_str(),
                entry.pair.as_str(),
            ) {
                let ghost before = self.entries@;
                self.entries.set(i, entry);
                proof {
                    assert(self.entries@[i as int] == entry);
                    assert forall|k: int| 0 <= k < all.len() implies #[trigger] self.view()[k] == all.update(i as int, ev)[k] by {
                        if k == i {
                            assert(self.view()[k] == entry_view(self.entries@[k]));
                        } else {
                            assert(self.view()[k] == entry_view(before[k]));
                        }
                    }
                    assert(self.view() =~= all.update(i as int, ev));
                    lemma_find_update(all, i as int, ev);
                    assert forall|k: int| 0 <= k < self.view().len() implies #[trigger] positive(self.view()[k]) by {
                        if k != i {
                            assert(positive(all[k]));
                        }
                    }
                }
                return;
            }
            i += 1;
        }
        let ghost before = self.entries@;
        self.entries.push(entry);
        proof {
            assert(self.entries@ == before.push(entry));
            assert(self.view() =~= all.push(ev));
            lemma_find_push(all, ev);
            assert forall|k: int| 0 <= k < self.view().len() implies #[trigger] positive(self.view()[k]) by {
                if k < all.len() {
                    assert(positive(all[k]));
                }
            }
        }
    }

    /// Reads lines of `market_type pair value`; a later line for a market type and pair
    /// replaces an earlier one, and a line that gives no value is left out.
    pub fn parse(text: &str) -> (r: ContractTable)
        ensures
            r.wf(),
            forall|m: MarketType, p: Seq<char>| #[trigger] r.value_of(m, p) == value_in_lines(line_fields(text@), m, p),
    {
        let lines = fields_of_lines(text);
        let ghost all = line_fields(text@);
        let mut table = ContractTable::new();
        let mut i: usize = 0;
        proof {
            assert forall|m: MarketType, p: Seq<char>| #[trigger] table.value_of(m, p) == value_in_lines(all.subrange(0, 0), m, p) by {
                assert(table.view() =~= Seq::<(MarketType, Seq<char>, Decimal)>::empty());
            }
        }
        while i < lines.len()
            invariant
                table.wf(),
                i <= lines@.len(),
                all == line_fields(text@),
                nested_views(lines@) == all,
                forall|m: MarketType, p: Seq<char>| #[trigger] table.value_of(m, p) == value_in_lines(all.subrange(0, i as int), m, p),
            decreases lines@.len() - i,
        {
            let fields = &lines[i];
            let ghost pre = all.subrange(0, i as int);
            let ghost next = all.subrange(0, i + 1);
            proof {
                assert(next.drop_last() =~= pre);
                assert(next.last() == all[i as int]);
                assert(all[i as int] == views(fields@));
            }
            let mut added = false;
            if fields.len() == 3 {
                match (market_from_name(fields[0].as_str()), parse_decimal(fields[2].as_str())) {
                    (Some(m), Some(v)) => {
                        if v.mantissa > 0 {
                            let e = ContractEntry { market_type: m, pair: fields[1].clone(), value: v };
                            table.insert(e);
                            added = true;
                            assert forall|m2: MarketType, p: Seq<char>| #[trigger] table.value_of(m2, p) == value_in_lines(next, m2, p) by {
                                if !(m2 == m && p == views(fields@)[1]) {
                                    assert(value_in_lines(next, m2, p) == value_in_lines(pre, m2, p));
                                }
                            }
                        }
                    },
                    _ => {},
                }
            }
            if !added {
                assert forall|m: MarketType, p: Seq<char>| #[trigger] table.value_of(m, p) == value_in_lines(next, m, p) by {
                    assert(value_in_lines(next, m, p) == value_in_lines(pre, m, p));
                }
            }
            i += 1;
        }
        proof {
            assert(all.subrange(0, i as int) =~= all);
        }
        table
    }

    /// The compiled-in values of `exchange` (okex, gate or kucoin); none for another.
    pub fn offline(exchange: &str) -> (r: ContractTable)
        ensures
            r.wf(),
            forall|m: MarketType, p: Seq<char>| #[trigger] r.value_of(m, p) == if exchange@ == "okex"@ {
                value_in_lines(line_fields(OKEX_CONTRACT_VALUES@), m, p)
            } else if exchange@ == "gate"@ {
                value_in_lines(line_fields(GATE_CONTRACT_VALUES@), m, p)
            } else if exchange@ == "kucoin"@ {
                value_in_lines(line_fields(KUCOIN_CONTRACT_VALUES@), m, p)
            } else {
                None
            },
    {
        if str_eq(exchange, "okex") {
            ContractTable::parse(OKEX_CONTRACT_VALUES)
        } else if str_eq(exchange, "gate") {
            ContractTable::parse(GATE_CONTRACT_VALUES)
        } else if str_eq(exchange, "kucoin") {
            ContractTable::parse(KUCOIN_CONTRACT_VALUES)
        } else {
            ContractTable::new()
        }
    }
}

proof fn lemma_find_update(
    all: Seq<(MarketType, Seq<char>, Decimal)>,
    i: int,
    ev: (MarketType, Seq<char>, Decimal),
)
    requires
        0 <= i < all.len(),
        all[i].0 == ev.0 && all[i].1 == ev.1,
        forall|k: int| 0 <= k < i ==> !(all[k].0 == ev.0 && all[k].1 == ev.1),
    ensures
        forall|m: MarketType, p: Seq<char>| #[trigger] find_value(all.update(i, ev), m, p) == if m
            == ev.0 && p == ev.1 {
            Some(ev.2)
        } else {
            find_value(all, m, p)
        },
    decreases i,
{
    let up = all.update(i, ev);
    if i > 0 {
        let rest = all.drop_first();
        assert forall|k: int| 0 <= k < i - 1 implies !(rest[k].0 == ev.0 && rest[k].1 == ev.1) by {
            assert(rest[k] == all[k + 1]);
        }
        lemma_find_update(rest, i - 1, ev);
        assert(up.drop_first() =~= rest.update(i - 1, ev));
        assert(up[0] == all[0]);
        assert forall|m: MarketType, p: Seq<char>| #[trigger] find_value(up, m, p) == if m == ev.0
            && p == ev.1 {
            Some(ev.2)
        } else {
            find_value(all, m, p)
        } by {
            if !(all[0].0 == m && all[0].1 == p) {
                assert(find_value(up, m, p) == find_value(rest.update(i - 1, ev), m, p));
                assert(find_value(all, m, p) == find_value(rest, m, p));
            }
        }
    } else {
        assert(up.drop_first() =~= all.drop_first());
        assert(up[0] == ev);
        assert forall|m: MarketType, p: Seq<char>| #[trigger] find_value(up, m, p) == if m == ev.0
            && p == ev.1 {
            Some(ev.2)
        } else {
            find_value(all, m, p)
        } by {
            if !(m == ev.0 && p == ev.1) {
                assert(find_value(up, m, p) == find_value(all.drop_first(), m, p));
                assert(find_value(all, m, p) == find_value(all.drop_first(), m, p));
            }
        }
    }
}

proof fn lemma_find_push(all: Seq<(MarketType, Seq<char>, Decimal)>, ev: (MarketType, Seq<char>, Decimal))
    requires
        forall|k: int| 0 <= k < all.len() ==> !(all[k].0 == ev.0 && all[k].1 == ev.1),
    ensures
        forall|m: MarketType, p: Seq<char>| #[trigger] find_value(all.push(ev), m, p) == if m == ev.0
            && p == ev.1 {
            Some(ev.2)
        } else {
            find_value(all, m, p)
        },
    decreases all.len(),
{
    let up = all.push(ev);
    if all.len() > 0 {
        let rest = all.drop_first();
        assert forall|k: int| 0 <= k < rest.len() implies !(rest[k].0 == ev.0 && rest[k].1 == ev.1) by {
            assert(rest[k] == all[k + 1]);
        }
        lemma_find_push(rest, ev);
        assert(up.drop_first() =~= rest.push(ev));
        assert(up[0] == all[0]);
        assert forall|m: MarketType, p: Seq<char>| #[trigger] find_value(up, m, p) == if m == ev.0
            && p == ev.1 {
            Some(ev.2)
        } else {
            find_value(all, m, p)
        } by {
            if !(all[0].0 == m && all[0].1 == p) {
                assert(find_value(up, m, p) == find_value(rest.push(ev), m, p));
                assert(find_value(all, m, p) == find_value(rest, m, p));
            }
        }
    } else {
        assert(up.drop_first() =~= all);
        assert(up[0] == ev);
        assert forall|m: MarketType, p: Seq<char>| #[trigger] find_value(up, m, p) == if m == ev.0
            && p == ev.1 {
            Some(ev.2)
        } else {
            find_value(all, m, p)
        } by {
            if !(m == ev.0 && p == ev.1) {
                assert(find_value(up, m, p) == find_value(all, m, p));
            }
        }
    }
}

/// The contract value of `pair` on `exchange`'s `market_type` markets: one for inverse
/// markets (their contracts count in USD), but on OKEx 100 for BTC and 10 for the rest;
/// the table's value for OKEx's linear futures, swaps and options, Gate's linear
/// futures and swaps, and Kucoin's linear swaps; none otherwise.
pub open spec fn contract_value_of(
    exchange: Seq<char>,
    market_type: MarketType,
    pair: Seq<char>,
    table: ContractTable,
) -> Option<Decimal> {
    let inverse = market_type == MarketType::InverseSwap || market_type == MarketType::InverseFuture;
    if exchange == "okex"@ {
        if inverse {
            Some(
                if is_prefix(pair, "BTC"@) {
                    Decimal { mantissa: 100, scale: 0 }
                } else {
                    Decimal { mantissa: 10, scale: 0 }
                },
            )
        } else if market_type == MarketType::LinearSwap || market_type == MarketType::LinearFuture
            || market_type == MarketType::EuropeanOption {
            table.value_of(market_type, pair)
        } else {
            None
        }
    } else if exchange == "gate"@ {
        if inverse {
            Some(Decimal { mantissa: 1, scale: 0 })
        } else if market_type == MarketType::LinearSwap || market_type == MarketType::LinearFuture {
            table.value_of(market_type, pair)
        } else {
            None
        }
    } else if exchange == "kucoin"@ {
        if inverse {
            Some(Decimal { mantissa: 1, scale: 0 })
        } else if market_type == MarketType::LinearSwap {
            table.value_of(market_type, pair)
        } else {
            None
        }
    } else {
        None
    }
}

pub fn get_contract_value(exchange: &str, market_type: MarketType, pair: &str, table: &ContractTable) -> (r: Option<Decimal>)
    requires
        table.wf(),
    ensures
        r matches Some(v) ==> v.mantissa > 0,
        r == contract_value_of(exchange@, market_type, pair@, *table),
{
    let inverse = market_type == MarketType::InverseSwap || market_type == MarketType::InverseFuture;
    if str_eq(exchange, "okex") {
        if inverse {
            Some(
                if starts_with(pair, "BTC") {
                    Decimal { mantissa: 100, scale: 0 }
                } else {
                    Decimal { mantissa: 10, scale: 0 }
                },
            )
        } else if market_type == MarketType::LinearSwap || market_type == MarketType::LinearFuture
            || market_type == MarketType::EuropeanOption {
            table.lookup(market_type, pair)
        } else {
            None
        }
    } else if str_eq(exchange, "gate") {
        if inverse {
            Some(Decimal { mantissa: 1, scale: 0 })
        } else if market_type == MarketType::LinearSwap || market_type == MarketType::LinearFuture {
            table.lookup(market_type, pair)
        } else {
            None
        }
    } else if str_eq(exchange, "kucoin") {
        if inverse {
            Some(Decimal { mantissa: 1, scale: 0 })
        } else if market_type == MarketType::LinearSwap {
            table.lookup(market_type, pair)
        } else {
            None
        }
    } else {
        None
    }
}

/// Whether an OKEx instrument is linear: its listing's `is_inverse` reads `false`.
pub fn okex_is_linear(is_inverse: &str) -> (r: bool)
    ensures
        r == (is_inverse@ == "false"@),
{
    str_eq(is_inverse, "false")
}

/// Gate's quanto multiplier as a contract value: a zero one stands for one coin.
pub fn gate_multiplier(raw: Decimal) -> (r: Decimal)
    ensures
        r == (if raw.mantissa == 0 {
            Decimal { mantissa: 1, scale: 0 }
        } else {
            raw
        }),
{
    if raw.mantissa == 0 {
        Decimal { mantissa: 1, scale: 0 }
    } else {
        raw
    }
}

} // verus!
