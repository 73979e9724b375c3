//! Bitmex: order-book ids and prices, the symbol table behind them, and market types.
use vstd::prelude::*;
use crate::decimal::{
    parse_decimal, parsed_decimal, pow10, pow10_exec, same_value, value_le, Decimal, MAX_MANTISSA,
};
use crate::market::{MarketType, MessageType, TradeSide};
use crate::msg::{
    below_one, book_ok, check_ms_timestamp, is_ms_timestamp, parse_rate, parse_time, parsed_rate,
    rfc3339_ms, time_ok, trade_ok, FundingRateMsg, OrderBookMsg, ParseError, TradeMsg,
};
use crate::order::Order;
use crate::quantity::{calc_quantity_and_volume, quantities};
use crate::text::{
    fields_of_lines, is_digit, is_prefix, line_fields, nested_views, owned, starts_with,
    str_eq, views,
};

verus! {

/// The instruments that Bitmex listed, with their index and the tick size that their
/// order-book ids count in (`XBTUSD` counts in 0.01 for historic reasons), one per line.
pub const OFFLINE_TICK_SIZES: &'static str = "A50G16 65 2.5
A50H16 67 2.5
A50J16 72 2.5
A50K16 73 2.5
A50M16 99 2.5
A50N16 120 2.5
A50Q16 124 2.5
AAVEUSDT 589 0.01
ADAF18 260 0.00000001
ADAH18 267 0.00000001
ADAH19 323 0.00000001
ADAH20 366 0.00000001
ADAH21 459 0.00000001
ADAM18 271 0.00000001
ADAM19 331 0.00000001
ADAM20 383 0.00000001
ADAM21 523 0.00000001
ADAU18 286 0.00000001
ADAU19 339 0.00000001
ADAU20 398 0.00000001
ADAU21 570 0.00000001
ADAUSD 676 0.0001
ADAUSDT 521 0.00001
ADAUSDTH21 463 0.00001
ADAUSDTZ20 431 0.00001
ADAZ18 303 0.00000001
ADAZ19 349 0.00000001
ADAZ20 427 0.00000001
ADAZ21 638 0.00000001
ALTMEXUSD 616 0.01
AVAXUSD 675 0.001
AXSUSD 706 0.01
AXSUSDT 625 0.001
BCHF18 256 0.0001
BCHH18 266 0.0001
BCHH19 322 0.0001
BCHH20 365 0.00001
BCHH21 458 0.00001
BCHM18 272 0.0001
BCHM19 330 0.00001
BCHM20 382 0.00001
BCHM21 524 0.00001
BCHU18 285 0.0001
BCHU19 338 0.00001
BCHU20 397 0.00001
BCHU21 569 0.000001
BCHUSD 402 0.05
BCHX17 239 0.0001
BCHZ17 240 0.0001
BCHZ18 302 0.0001
BCHZ19 348 0.00001
BCHZ20 426 0.00001
BCHZ21 637 0.000001
BFXQ16 128 0.0001
BFXU16 132 0.0001
BFXV16 136 0.0001
BNBUSD 678 0.01
BNBUSDT 542 0.01
BNBUSDTH21 467 0.0005
BNBUSDTZ20 451 0.0005
BVOL24H 34 0.01
BVOL7D 36 0.01
BVOLG15 18 0.01
BVOLH15 23 0.01
BVOLJ15 25 0.01
B_BLOCKSZ17 180 0.01
B_SEGWITZ17 181 0.01
COIN_BH17 164 0.01
DAOETH 94 0.00001
DASH7D 165 0.000001
DASHH18 252 0.000001
DASHJ17 178 0.000001
DASHM17 186 0.000001
DASHU17 209 0.000001
DASHZ17 225 0.000001
DEFIMEXUSD 617 0.01
DOGEUSD 677 0.00001
DOGEUSDT 476 0.00001
DOTUSD 679 0.001
DOTUSDT 519 0.0005
DOTUSDTH21 469 0.0005
DOTUSDTZ20 453 0.0005
EOSH19 324 0.0000001
EOSH20 367 0.0000001
EOSH21 460 0.0000001
EOSM18 279 0.0000001
EOSM19 332 0.0000001
EOSM20 384 0.0000001
EOSM21 525 0.0000001
EOSN17 216 0.000001
EOSU18 287 0.0000001
EOSU19 340 0.0000001
EOSU20 399 0.0000001
EOSU21 571 0.00000001
EOSUSD 707 0.0001
EOSUSDT 539 0.0005
EOSUSDTH21 464 0.0005
EOSUSDTZ20 432 0.0005
EOSZ18 304 0.0000001
EOSZ19 350 0.0000001
EOSZ20 428 0.0000001
EOSZ21 639 0.00000001
ETC24H 123 0.000001
ETC7D 125 0.000001
ETH7D 54 0.00001
ETHH18 251 0.00001
ETHH19 319 0.00001
ETHH20 362 0.00001
ETHH21 455 0.00001
ETHJ17 177 0.00001
ETHM17 185 0.00001
ETHM18 273 0.00001
ETHM19 327 0.00001
ETHM20 379 0.00001
ETHM21 526 0.00001
ETHU17 208 0.00001
ETHU18 282 0.00001
ETHU19 335 0.00001
ETHU20 394 0.00001
ETHU21 566 0.00001
ETHUSD 297 0.05
ETHUSDH21 462 0.05
ETHUSDM20 386 0.05
ETHUSDM21 527 0.05
ETHUSDU20 401 0.05
ETHUSDU21 573 0.05
ETHUSDZ20 430 0.05
ETHUSDZ21 641 0.05
ETHXBT 78 0.00001
ETHZ17 224 0.00001
ETHZ18 299 0.00001
ETHZ19 345 0.00001
ETHZ20 423 0.00001
ETHZ21 634 0.00001
FCT7D 70 0.000001
FCTM17 190 0.000001
FCTXBT 93 0.000001
FILUSDT 556 0.01
GNOM17 184 0.000001
LINKUSD 708 0.001
LINKUSDT 441 0.0005
LINKUSDTH21 465 0.0005
LINKUSDTM21 528 0.0005
LINKUSDTZ20 433 0.0005
LSKXBT 98 0.000001
LTC7D 150 0.00001
LTCH18 254 0.00001
LTCH19 320 0.00001
LTCH20 363 0.000005
LTCH21 456 0.000005
LTCM17 188 0.00001
LTCM18 274 0.00001
LTCM19 328 0.000005
LTCM20 380 0.000005
LTCM21 529 0.000005
LTCU17 211 0.00001
LTCU18 283 0.00001
LTCU19 336 0.000005
LTCU20 395 0.000005
LTCU21 567 0.000001
LTCUSD 407 0.01
LTCXBT 85 0.00001
LTCZ17 227 0.00001
LTCZ18 300 0.00001
LTCZ19 346 0.000005
LTCZ20 424 0.000005
LTCZ21 635 0.000001
LUNAUSD 649 0.001
MATICUSDT 588 0.0001
NEOG18 269 0.000001
NEOH18 270 0.000001
QTUMU17 195 0.000001
REP7D 144 0.000001
SNTN17 202 0.00000001
SOLUSD 709 0.01
SOLUSDT 549 0.001
SRMUSDT 632 0.001
SUSHIUSDT 618 0.001
TRXH19 325 0.00000001
TRXH20 368 0.00000001
TRXH21 461 0.00000001
TRXM19 333 0.00000001
TRXM20 385 0.00000001
TRXM21 530 0.00000001
TRXU18 290 0.00000001
TRXU19 341 0.00000001
TRXU20 400 0.00000001
TRXU21 572 0.0000000001
TRXUSDT 540 0.00001
TRXZ18 305 0.00000001
TRXZ19 351 0.00000001
TRXZ20 429 0.00000001
TRXZ21 640 0.0000000001
UNIUSDT 520 0.001
VETUSDT 581 0.00001
WINZ16 156 0.000001
XBCH17 158 0.1
XBCM17 174 0.1
XBCZ16 155 0.1
XBJ24H 106 1.0
XBJ7D 137 1.0
XBJH17 167 1.0
XBJM17 175 1.0
XBJU17 206 1.0
XBJZ16 138 1.0
XBJZ17 230 100.0
XBT24H 58 0.01
XBT48H 66 0.01
XBT7D 51 0.01
XBT7D_D90 278 0.00001
XBT7D_D95 281 0.00001
XBT7D_U105 280 0.00001
XBT7D_U110 277 0.00001
XBTEUR 564 0.5
XBTEURU21 574 0.5
XBTEURZ21 642 0.5
XBTF15 1 0.01
XBTF15_G15 13 0.01
XBTF15_H15 4 0.01
XBTG15 12 0.01
XBTH15 3 0.01
XBTH15_G15 14 0.01
XBTH16 55 0.01
XBTH17 157 0.01
XBTH18 249 0.5
XBTH19 298 0.5
XBTH20 344 0.5
XBTH21 422 0.5
XBTH22 633 0.5
XBTJ15 26 0.01
XBTK15 27 0.01
XBTK15_M15 30 0.01
XBTM15 29 0.01
XBTM15_U15 40 0.01
XBTM15_Z15 42 0.01
XBTM16 62 0.01
XBTM17 173 0.1
XBTM18 259 0.5
XBTM19 318 0.5
XBTM20 361 0.5
XBTM21 454 0.5
XBTN15 44 0.01
XBTQ15 46 0.01
XBTU15 39 0.01
XBTU15_Z15 43 0.01
XBTU16 71 0.01
XBTU17 205 0.1
XBTU18 276 0.5
XBTU19 326 0.5
XBTU20 378 0.5
XBTU21 532 0.5
XBTUSD 88 0.01
XBTV15 56 0.01
XBTV21 650 0.5
XBTX21 705 0.5
XBTZ14 0 0.01
XBTZ14_F15 2 0.01
XBTZ14_H15 11 0.01
XBTZ15 41 0.01
XBTZ16 149 0.01
XBTZ17 229 0.5
XBTZ18 291 0.5
XBTZ19 334 0.5
XBTZ20 393 0.5
XBTZ21 565 0.5
XBU24H 22 0.01
XBU7D 63 0.01
XBUH15 6 0.01
XBUH15_M15 10 0.01
XBUH15_U15 16 0.01
XBUJ15 24 0.01
XBUK15 28 0.01
XBUM15 8 0.01
XBUM15_U15 17 0.01
XBUN15 45 0.01
XBUQ15 47 0.01
XBUU15 15 0.01
XBUU15_Z15 38 0.01
XBUV15 57 0.01
XBUZ14 5 0.01
XBUZ14_H15 7 0.01
XBUZ14_M15 9 0.01
XBUZ15 37 0.01
XLMF18 265 0.00000001
XLMH18 268 0.00000001
XLMUSDT 522 0.00001
XLT7D 50 0.001
XMR7D 131 0.000001
XMRH18 253 0.000001
XMRJ17 179 0.000001
XMRM17 187 0.000001
XMRU17 210 0.000001
XMRZ17 226 0.000001
XRP7D 143 0.00000001
XRPH18 255 0.00000001
XRPH19 321 0.00000001
XRPH20 364 0.00000001
XRPH21 457 0.00000001
XRPM17 189 0.00000001
XRPM18 275 0.00000001
XRPM19 329 0.00000001
XRPM20 381 0.00000001
XRPM21 531 0.00000001
XRPU17 212 0.00000001
XRPU18 284 0.00000001
XRPU19 337 0.00000001
XRPU20 396 0.00000001
XRPU21 568 0.00000001
XRPUSD 377 0.0001
XRPZ17 228 0.00000001
XRPZ18 301 0.00000001
XRPZ19 347 0.00000001
XRPZ20 425 0.00000001
XRPZ21 636 0.00000001
XTZUSDTH21 466 0.0005
XTZUSDTZ20 434 0.0005
XTZZ17 215 0.000001
YFIUSDTH21 468 0.5
YFIUSDTZ20 452 0.5
ZECH17 159 0.000001
ZECH18 250 0.000001
ZECM17 176 0.000001
ZECU17 207 0.000001
ZECZ16 135 0.000001
ZECZ17 223 0.000001";

/// How many instruments one page of Bitmex's instrument listing holds.
pub const PAGE_SIZE: usize = 500;

/// The largest index an instrument may have.
pub const MAX_INDEX: u64 = 4294967295;

/// An instrument's index and tick size.
#[derive(Clone, Debug)]
pub struct TickEntry {
    pub symbol: String,
    pub index: u64,
    pub tick_size: Decimal,
}

/// What a table entry says.
pub open spec fn entry_view(e: TickEntry) -> (Seq<char>, u64, Decimal) {
    (e.symbol@, e.index, e.tick_size)
}

pub open spec fn entries_view(v: Seq<TickEntry>) -> Seq<(Seq<char>, u64, Decimal)> {
    v.map_values(|e: TickEntry| entry_view(e))
}

/// An entry the id formula can use: an index within `MAX_INDEX`, and a positive tick
/// size that a parsed number can be.
pub open spec fn usable(index: u64, tick_size: Decimal) -> bool {
    index <= MAX_INDEX && tick_size.mantissa > 0 && tick_size.bounded()
}

pub open spec fn usable_entry(e: (Seq<char>, u64, Decimal)) -> bool {
    usable(e.1, e.2)
}

/// The index and tick size under `symbol`, the first entry first.
pub open spec fn find_tick(entries: Seq<(Seq<char>, u64, Decimal)>, symbol: Seq<char>) -> Option<(u64, Decimal)>
    decreases entries.len(),
{
    if entries.len() == 0 {
        None
    } else if entries[0].0 == symbol {
        Some((entries[0].1, entries[0].2))
    } else {
        find_tick(entries.drop_first(), symbol)
    }
}

/// Bitmex's instruments, with their index and tick size.
pub struct TickTable {
    entries: Vec<TickEntry>,
}

impl TickTable {
    pub closed spec fn view(&self) -> Seq<(Seq<char>, u64, Decimal)> {
        entries_view(self.entries@)
    }

    /// Every entry is usable.
    pub open spec fn wf(&self) -> bool {
        forall|i: int| 0 <= i < self.view().len() ==> #[trigger] usable_entry(self.view()[i])
    }

    /// The entry under `symbol`.
    pub open spec fn tick_of(&self, symbol: Seq<char>) -> Option<(u64, Decimal)> {
        find_tick(self.view(), symbol)
    }

    pub fn new() -> (r: TickTable)
        ensures
            r.wf(),
            r.view().len() == 0,
    {
        let r = TickTable { entries: Vec::new() };
        assert(r.view() =~= Seq::<(Seq<char>, u64, Decimal)>::empty());
        r
    }

    /// Looks up `symbol`.
    pub fn lookup(&self, symbol: &str) -> (r: Option<(u64, Decimal)>)
        requires
            self.wf(),
        ensures
            r == self.tick_of(symbol@),
            r matches Some((i, t)) ==> usable(i, t),
    {
        let ghost all = self.view();
        let mut i: usize = 0;
        assert(all.subrange(0, all.len() as int) =~= all);
        while i < self.entries.len()
            invariant
                i <= self.entries@.len(),
                all == self.view(),
                all.len() == self.entries@.len(),
                self.wf(),
                find_tick(all, symbol@) == find_tick(all.subrange(i as int, all.len() as int), symbol@),
            decreases self.entries@.len() - i,
        {
            let e = &self.entries[i];
            assert(all.subrange(i as int, all.len() as int).drop_first() =~= all.subrange(i + 1, all.len() as int));
            assert(all.subrange(i as int, all.len() as int)[0] == entry_view(*e));
            if str_eq(e.symbol.as_str(), symbol) {
                assert(all[i as int] == entry_view(*e));
                assert(usable_entry(self.view()[i as int]));
                return Some((e.index, e.tick_size));
            }
            i += 1;
        }
        None
    }

    /// Puts an entry in, in place of any entry under the same symbol.
    pub fn insert(&mut self, entry: TickEntry)
        requires
            old(self).wf(),
            usable(entry.index, entry.tick_size),
        ensures
            final(self).wf(),
            forall|s: Seq<char>| #[trigger] final(self).tick_of(s) == if s == entry.symbol@ {
                Some((entry.index, entry.tick_size))
            } else {
                old(self).tick_of(s)
            },
    {
        let ghost all = self.view();
        let ghost ev = entry_view(entry);
        let mut i: usize = 0;
        assert(all.subrange(0, all.len() as int) =~= all);
        while i < self.entries.len()
            invariant
                i <= self.entries@.len(),
                all == self.view(),
                all.len() == self.entries@.len(),
                self.entries@ == old(self).entries@,
                ev == entry_view(entry),
                usable(entry.index, entry.tick_size),
                old(self).wf(),
                forall|k: int| 0 <= k < i ==> all[k].0 != entry.symbol@,
            decreases self.entries@.len() - i,
        {
            assert(all[i as int] == entry_view(self.entries@[i as int]));
            if str_eq(self.entries[i].symbol.as_str(), entry.symbol.as_str()) {
                let ghost before = self.entries@;
                assert(before[i as int].symbol@ == entry.symbol@);
                assert(all[i as int].0 == ev.0);
                self.entries.set(i, entry);
                proof {
                    assert(self.entries@ == before.update(i as int, entry));
                    assert(self.entries@[i as int] == entry);
                    assert(entry_view(self.entries@[i as int]) == ev);
                    assert forall|k: int| 0 <= k < all.len() implies #[trigger] self.view()[k] == all.update(i as int, ev)[k] by {
                        if k == i {
                            assert(self.view()[k] == entry_view(self.entries@[k]));
                        } else {
                            assert(self.view()[k] == entry_view(before[k]));
                        }
                    }
                    assert(self.view() =~= all.update(i as int, ev));
                    lemma_find_update(all, i as int, ev);
                    assert forall|k: int| 0 <= k < self.view().len() implies #[trigger] usable_entry(self.view()[k]) by {
                        if k != i {
                            assert(usable_entry(all[k]));
                        }
                    }
                }
                return;
            }
            i += 1;
        }
        let ghost before = self.entries@;
        self.entries.push(entry);
        proof {
            assert(self.entries@ == before.push(entry));
            assert(self.view() =~= all.push(ev));
            lemma_find_push(all, ev);
            assert forall|k: int| 0 <= k < self.view().len() implies #[trigger] usable_entry(self.view()[k]) by {
                if k < all.len() {
                    assert(usable_entry(all[k]));
                }
            }
        }
    }

    /// The table of the instruments listed in `OFFLINE_TICK_SIZES`.
    pub fn offline() -> (r: TickTable)
        ensures
            r.wf(),
            forall|s: Seq<char>| #[trigger] r.tick_of(s) == tick_in_lines(line_fields(OFFLINE_TICK_SIZES@), s),
    {
        TickTable::parse(OFFLINE_TICK_SIZES)
    }

    /// Reads lines of `symbol index tick_size`; a later line for a symbol replaces an
    /// earlier one, and a line that gives no entry is left out.
    pub fn parse(text: &str) -> (r: TickTable)
        ensures
            r.wf(),
            forall|s: Seq<char>| #[trigger] r.tick_of(s) == tick_in_lines(line_fields(text@), s),
    {
        let lines = fields_of_lines(text);
        let ghost all = line_fields(text@);
        let mut table = TickTable::new();
        let mut i: usize = 0;
        proof {
            assert forall|s: Seq<char>| #[trigger] table.tick_of(s) == tick_in_lines(all.subrange(0, 0), s) by {
                assert(table.view() =~= Seq::<(Seq<char>, u64, Decimal)>::empty());
            }
        }
        while i < lines.len()
            invariant
                table.wf(),
                i <= lines@.len(),
                all == line_fields(text@),
                nested_views(lines@) == all,
                forall|s: Seq<char>| #[trigger] table.tick_of(s) == tick_in_lines(all.subrange(0, i as int), s),
            decreases lines@.len() - i,
        {
            let fields = &lines[i];
            let ghost pre = all.subrange(0, i as int);
            let ghost next = all.subrange(0, i + 1);
            proof {
                assert(next.drop_last() =~= pre);
                assert(next.last() == all[i as int]);
                assert(all[i as int] == views(fields@));
            }
            if fields.len() == 3 {
                match line_entry(fields) {
                    Some(e) => {
                        let ghost ev = entry_view(e);
                        table.insert(e);
                        assert forall|s: Seq<char>| #[trigger] table.tick_of(s) == tick_in_lines(next, s) by {
                            if s != ev.0 {
                                assert(tick_in_lines(next, s) == tick_in_lines(pre, s));
                            }
                        }
                    },
                    None => {
                        assert forall|s: Seq<char>| #[trigger] table.tick_of(s) == tick_in_lines(next, s) by {
                            assert(tick_in_lines(next, s) == tick_in_lines(pre, s));
                        }
                    },
                }
            } else {
                assert forall|s: Seq<char>| #[trigger] table.tick_of(s) == tick_in_lines(next, s) by {
                    assert(tick_in_lines(next, s) == tick_in_lines(pre, s));
                }
            }
            i += 1;
        }
        proof {
            assert(all.subrange(0, i as int) =~= all);
        }
        table
    }
}

proof fn lemma_find_update(all: Seq<(Seq<char>, u64, Decimal)>, i: int, ev: (Seq<char>, u64, Decimal))
    requires
        0 <= i < all.len(),
        all[i].0 == ev.0,
        forall|k: int| 0 <= k < i ==> all[k].0 != ev.0,
    ensures
        forall|s: Seq<char>| #[trigger] find_tick(all.update(i, ev), s) == if s == ev.0 {
            Some((ev.1, ev.2))
        } else {
            find_tick(all, s)
        },
    decreases i,
{
    let up = all.update(i, ev);
    if i > 0 {
        let rest = all.drop_first();
        assert forall|k: int| 0 <= k < i - 1 implies rest[k].0 != ev.0 by {
            assert(rest[k] == all[k + 1]);
        }
        lemma_find_update(rest, i - 1, ev);
        assert(up.drop_first() =~= rest.update(i - 1, ev));
        assert(up[0] == all[0]);
        assert(all[0].0 != ev.0);
        assert forall|s: Seq<char>| #[trigger] find_tick(up, s) == if s == ev.0 {
            Some((ev.1, ev.2))
        } else {
            find_tick(all, s)
        } by {
            if all[0].0 != s {
                assert(find_tick(up, s) == find_tick(rest.update(i - 1, ev), s));
                assert(find_tick(all, s) == find_tick(rest, s));
            }
        }
    } else {
        assert(up.drop_first() =~= all.drop_first());
        assert(up[0] == ev);
        assert forall|s: Seq<char>| #[trigger] find_tick(up, s) == if s == ev.0 {
            Some((ev.1, ev.2))
        } else {
            find_tick(all, s)
        } by {
            if s != ev.0 {
                assert(find_tick(up, s) == find_tick(all.drop_first(), s));
                assert(find_tick(all, s) == find_tick(all.drop_first(), s));
            }
        }
    }
}

proof fn lemma_find_push(all: Seq<(Seq<char>, u64, Decimal)>, ev: (Seq<char>, u64, Decimal))
    requires
        forall|k: int| 0 <= k < all.len() ==> all[k].0 != ev.0,
    ensures
        forall|s: Seq<char>| #[trigger] find_tick(all.push(ev), s) == if s == ev.0 {
            Some((ev.1, ev.2))
        } else {
            find_tick(all, s)
        },
    decreases all.len(),
{
    let up = all.push(ev);
    if all.len() > 0 {
        let rest = all.drop_first();
        assert forall|k: int| 0 <= k < rest.len() implies rest[k].0 != ev.0 by {
            assert(rest[k] == all[k + 1]);
        }
        lemma_find_push(rest, ev);
        assert(up.drop_first() =~= rest.push(ev));
        assert(up[0] == all[0]);
        assert(all[0].0 != ev.0);
        assert forall|s: Seq<char>| #[trigger] find_tick(up, s) == if s == ev.0 {
            Some((ev.1, ev.2))
        } else {
            find_tick(all, s)
        } by {
            if all[0].0 != s {
                assert(find_tick(up, s) == find_tick(rest.push(ev), s));
                assert(find_tick(all, s) == find_tick(rest, s));
            }
        }
    } else {
        assert(up.drop_first() =~= all);
        assert(up[0] == ev);
        assert forall|s: Seq<char>| #[trigger] find_tick(up, s) == if s == ev.0 {
            Some((ev.1, ev.2))
        } else {
            find_tick(all, s)
        } by {
            if s != ev.0 {
                assert(find_tick(up, s) == find_tick(all, s));
            }
        }
    }
}

/// The entry that a line's fields give: `symbol index tick_size`, with an integral index
/// within `MAX_INDEX` and a positive tick size.
pub open spec fn line_entry_of(fields: Seq<Seq<char>>) -> Option<(Seq<char>, u64, Decimal)> {
    if fields.len() != 3 {
        None
    } else {
        match (parsed_decimal(fields[1]), parsed_decimal(fields[2])) {
            (Some(i), Some(t)) => if i.scale == 0 && i.mantissa <= MAX_INDEX && t.mantissa > 0 {
                Some((fields[0], i.mantissa as u64, t))
            } else {
                None
            },
            _ => None,
        }
    }
}

/// What lines of a table say of `symbol`: the last line that gives an entry for it.
pub open spec fn tick_in_lines(lines: Seq<Seq<Seq<char>>>, symbol: Seq<char>) -> Option<(u64, Decimal)>
    decreases lines.len(),
{
    if lines.len() == 0 {
        None
    } else {
        match line_entry_of(lines.last()) {
            Some(e) => if e.0 == symbol {
                Some((e.1, e.2))
            } else {
                tick_in_lines(lines.drop_last(), symbol)
            },
            None => tick_in_lines(lines.drop_last(), symbol),
        }
    }
}

fn line_entry(fields: &Vec<String>) -> (r: Option<TickEntry>)
    requires
        fields@.len() == 3,
    ensures
        match r {
            Some(e) => line_entry_of(views(fields@)) == Some(entry_view(e)) && usable(e.index, e.tick_size),
            None => line_entry_of(views(fields@)) is None,
        },
{
    let index = match parse_decimal(fields[1].as_str()) {
        Some(d) => d,
        None => return None,
    };
    let tick_size = match parse_decimal(fields[2].as_str()) {
        Some(d) => d,
        None => return None,
    };
    if index.scale != 0 || index.mantissa > MAX_INDEX as u128 || tick_size.mantissa == 0 {
        return None;
    }
    Some(TickEntry { symbol: fields[0].clone(), index: index.mantissa as u64, tick_size })
}

/// Where an instrument's ids start: `10^8 * index`.
pub open spec fn id_base(index: u64) -> int {
    100000000 * index
}

/// The price of order-book id `id`: `(10^8 * index - id) * tick_size`; none for an id
/// beyond the instrument's range.
pub open spec fn price_of_id(index: u64, tick_size: Decimal, id: u64) -> Option<Decimal> {
    if id > id_base(index) {
        None
    } else {
        Some(Decimal { mantissa: ((id_base(index) - id) * tick_size.mantissa) as u128, scale: tick_size.scale })
    }
}

/// How many ticks `price` spans, rounded up.
pub open spec fn ticks_in(tick_size: Decimal, price: Decimal) -> int {
    let n = price.num() * tick_size.den();
    let d = tick_size.num() * price.den();
    (n + d - 1) / d
}

/// The id of `price`: `10^8 * index - price / tick_size`, cut to an integer as the
/// formula's result is, and none below zero.
pub open spec fn id_of_price(index: u64, tick_size: Decimal, price: Decimal) -> u64 {
    let q = ticks_in(tick_size, price);
    if q > id_base(index) {
        0
    } else {
        (id_base(index) - q) as u64
    }
}

fn price_of_id_exec(index: u64, tick_size: Decimal, id: u64) -> (r: Option<Decimal>)
    requires
        usable(index, tick_size),
    ensures
        r == price_of_id(index, tick_size, id),
{
    let base: u64 = 100000000 * index;
    if id > base {
        return None;
    }
    let ticks = (base - id) as u128;
    assert(ticks * tick_size.mantissa <= 429496729500000000 * MAX_MANTISSA) by (nonlinear_arith)
        requires
            ticks <= 429496729500000000,
            tick_size.mantissa <= MAX_MANTISSA,
    ;
    Some(Decimal { mantissa: ticks * tick_size.mantissa, scale: tick_size.scale })
}

proof fn lemma_ticks_bounds(tick_size: Decimal, price: Decimal)
    requires
        tick_size.mantissa > 0,
        tick_size.bounded(),
        price.bounded(),
    ensures
        price.num() * tick_size.den() <= MAX_MANTISSA * 1000000000000000000,
        1 <= tick_size.num() * price.den() <= MAX_MANTISSA * 1000000000000000000,
        ticks_in(tick_size, price) >= 0,
{
    crate::decimal::lemma_pow10_le(tick_size.scale as nat, 18);
    crate::decimal::lemma_pow10_le(price.scale as nat, 18);
    crate::decimal::lemma_pow10_positive(price.scale as nat);
    crate::decimal::lemma_pow10_positive(tick_size.scale as nat);
    reveal_with_fuel(pow10, 19);
    let n = price.num() * tick_size.den();
    let d = tick_size.num() * price.den();
    assert(n <= MAX_MANTISSA * 1000000000000000000) by (nonlinear_arith)
        requires
            0 <= price.num() <= MAX_MANTISSA,
            0 <= tick_size.den() <= 1000000000000000000,
            n == price.num() * tick_size.den(),
    ;
    assert(1 <= d <= MAX_MANTISSA * 1000000000000000000) by (nonlinear_arith)
        requires
            1 <= tick_size.num() <= MAX_MANTISSA,
            1 <= price.den() <= 1000000000000000000,
            d == tick_size.num() * price.den(),
    ;
    assert(n >= 0) by (nonlinear_arith)
        requires
            price.num() >= 0,
            tick_size.den() >= 1,
            n == price.num() * tick_size.den(),
    ;
}

fn id_of_price_exec(index: u64, tick_size: Decimal, price: Decimal) -> (r: u64)
    requires
        usable(index, tick_size),
        price.bounded(),
    ensures
        r == id_of_price(index, tick_size, price),
{
    proof {
        lemma_ticks_bounds(tick_size, price);
    }
    let pt = pow10_exec(tick_size.scale);
    let pp = pow10_exec(price.scale);
    let n = price.mantissa * pt;
    let d = tick_size.mantissa * pp;
    let q = (n + d - 1) / d;
    let base: u64 = 100000000 * index;
    if q > base as u128 {
        0
    } else {
        base - q as u64
    }
}

impl TickTable {
    /// The price of order-book id `id` of `symbol`; none for a symbol not in the table
    /// or an id beyond its range.
    pub fn id_to_price(&self, symbol: &str, id: u64) -> (r: Option<Decimal>)
        requires
            self.wf(),
        ensures
            r == match self.tick_of(symbol@) {
                Some((index, tick_size)) => price_of_id(index, tick_size, id),
                None => None,
            },
    {
        match self.lookup(symbol) {
            Some((index, tick_size)) => price_of_id_exec(index, tick_size, id),
            None => None,
        }
    }

    /// The order-book id of `price` for `symbol`; none for a symbol not in the table.
    pub fn price_to_id(&self, symbol: &str, price: Decimal) -> (r: Option<u64>)
        requires
            self.wf(),
            price.bounded(),
        ensures
            r == match self.tick_of(symbol@) {
                Some((index, tick_size)) => Some(id_of_price(index, tick_size, price)),
                None => None,
            },
    {
        match self.lookup(symbol) {
            Some((index, tick_size)) => Some(id_of_price_exec(index, tick_size, price)),
            None => None,
        }
    }
}

/// A price's id gives the price back, rounded up to a whole tick: never below the price,
/// less than one tick above it, and the price itself where it lies on a tick; for every
/// price within the instrument's range of ids.
pub proof fn lemma_price_id_round_trip(index: u64, tick_size: Decimal, price: Decimal)
    requires
        usable(index, tick_size),
        price.bounded(),
        ticks_in(tick_size, price) <= id_base(index),
    ensures
        price_of_id(index, tick_size, id_of_price(index, tick_size, price)) matches Some(r) && r.scale
            == tick_size.scale && value_le(price, r) && r.num() * price.den() < price.num()
            * tick_size.den() + tick_size.num() * price.den() && ((price.num() * tick_size.den()) % (
        tick_size.num() * price.den()) == 0 ==> same_value(r, price)),
{
    lemma_ticks_bounds(tick_size, price);
    let n = price.num() * tick_size.den();
    let d = tick_size.num() * price.den();
    let x = n + d - 1;
    let q = ticks_in(tick_size, price);
    let a = id_base(index);
    assert(q == x / d);
    vstd::arithmetic::div_mod::lemma_fundamental_div_mod(x, d);
    vstd::arithmetic::div_mod::lemma_mod_bound(x, d);
    assert(q * d <= x);
    assert(q * d > x - d);
    assert(n <= q * d);
    assert(q * d < n + d);
    let id = id_of_price(index, tick_size, price);
    assert(id == a - q);
    let tm = tick_size.mantissa as int;
    assert(a <= 429496729500000000);
    assert(0 <= q * tm <= 429496729500000000 * MAX_MANTISSA) by (nonlinear_arith)
        requires
            0 <= q <= 429496729500000000,
            0 <= tm <= MAX_MANTISSA,
    ;
    let r = price_of_id(index, tick_size, id).unwrap();
    assert(r.num() == q * tm);
    assert(r.den() == tick_size.den());
    let pd = price.den();
    assert(r.num() * pd == q * d) by (nonlinear_arith)
        requires
            r.num() == q * tm,
            d == tm * pd,
    ;
    assert(price.num() * r.den() == n);
    if n % d == 0 {
        vstd::arithmetic::div_mod::lemma_fundamental_div_mod(n, d);
        let k = n / d;
        assert(n == d * k);
        assert(k * d <= x);
        assert(q * d < n + d);
        assert(q * d >= n);
        assert(q == k) by (nonlinear_arith)
            requires
                d >= 1,
                q * d >= k * d,
                q * d < k * d + d,
        ;
    }
}

/// The price of order-book id `id` of `symbol` in `table`.
pub fn id_to_price(table: &TickTable, symbol: &str, id: u64) -> (r: Option<Decimal>)
    requires
        table.wf(),
    ensures
        r == match table.tick_of(symbol@) {
            Some((index, tick_size)) => price_of_id(index, tick_size, id),
            None => None,
        },
{
    table.id_to_price(symbol, id)
}

/// The order-book id of `price` for `symbol` in `table`.
pub fn price_to_id(table: &TickTable, symbol: &str, price: Decimal) -> (r: Option<u64>)
    requires
        table.wf(),
        price.bounded(),
    ensures
        r == match table.tick_of(symbol@) {
            Some((index, tick_size)) => Some(id_of_price(index, tick_size, price)),
            None => None,
        },
{
    table.price_to_id(symbol, price)
}

/// The market type of a Bitmex symbol: one that ends in two digits is a future (XBT's,
/// quoted in USD, inverse, any other quanto); any other is a perpetual swap (XBT's
/// inverse, else quanto). A symbol of fewer than three characters has none.
pub open spec fn market_type_of(s: Seq<char>) -> MarketType {
    if s.len() < 3 {
        MarketType::Unknown
    } else if is_digit(s[s.len() - 2]) && is_digit(s[s.len() - 1]) {
        if is_prefix(s, "XBT"@) {
            MarketType::InverseFuture
        } else {
            MarketType::QuantoFuture
        }
    } else if is_prefix(s, "XBT"@) {
        MarketType::InverseSwap
    } else {
        MarketType::QuantoSwap
    }
}

pub fn get_market_type_from_symbol(symbol: &str) -> (r: MarketType)
    ensures
        r == market_type_of(symbol@),
{
    let n = symbol.unicode_len();
    if n < 3 {
        return MarketType::Unknown;
    }
    let a = symbol.get_char(n - 2);
    let b = symbol.get_char(n - 1);
    let dated = ('0' <= b && b <= '9') && ('0' <= a && a <= '9');
    if dated {
        if starts_with(symbol, "XBT") {
            MarketType::InverseFuture
        } else {
            MarketType::QuantoFuture
        }
    } else if starts_with(symbol, "XBT") {
        MarketType::InverseSwap
    } else {
        MarketType::QuantoSwap
    }
}

/// One instrument of a page of Bitmex's instrument listing.
pub struct ListedInstrument {
    pub symbol: String,
    pub tick_size: Decimal,
}

/// The entries that one page of the listing gives, the page starting at index `start`:
/// the `i`-th instrument gets index `start + i`; `XBTUSD` counts its ids in 0.01 whatever
/// its quoted tick; indices (symbols that start with `.`) are left out.
pub open spec fn page_entries(start: u64, page: Seq<ListedInstrument>) -> Seq<(Seq<char>, u64, Decimal)>
    decreases page.len(),
{
    if page.len() == 0 {
        Seq::empty()
    } else {
        let last = page.last();
        let rest = page_entries(start, page.drop_last());
        if is_prefix(last.symbol@, "."@) {
            rest
        } else {
            rest.push(
                (
                    last.symbol@,
                    (start + page.len() - 1) as u64,
                    if last.symbol@ == "XBTUSD"@ {
                        Decimal { mantissa: 1, scale: 2 }
                    } else {
                        last.tick_size
                    },
                ),
            )
        }
    }
}

/// Turns a page of the listing into table entries.
pub fn tick_entries_from_page(start: u64, page: &Vec<ListedInstrument>) -> (r: Vec<TickEntry>)
    requires
        start + page@.len() <= u64::MAX,
    ensures
        entries_view(r@) == page_entries(start, page@),
{
    let mut r: Vec<TickEntry> = Vec::new();
    let mut i: usize = 0;
    while i < page.len()
        invariant
            i <= page@.len(),
            start + page@.len() <= u64::MAX,
            entries_view(r@) == page_entries(start, page@.subrange(0, i as int)),
        decreases page@.len() - i,
    {
        let item = &page[i];
        let ghost pre = page@.subrange(0, i as int);
        assert(page@.subrange(0, i + 1).drop_last() =~= pre);
        assert(page@.subrange(0, i + 1).last() == *item);
        if !starts_with(item.symbol.as_str(), ".") {
            let tick_size = if str_eq(item.symbol.as_str(), "XBTUSD") {
                Decimal { mantissa: 1, scale: 2 }
            } else {
                item.tick_size
            };
            let ghost before = r@;
            r.push(TickEntry { symbol: item.symbol.clone(), index: start + i as u64, tick_size });
            assert(entries_view(r@) =~= entries_view(before).push(entry_view(r@.last())));
        }
        i += 1;
    }
    assert(page@.subrange(0, i as int) =~= page@);
    r
}

/// Whether the listing goes on after a page of `n` instruments: only a full page has a
/// next one.
pub fn page_continues(n: usize) -> (r: bool)
    ensures
        r == (n >= PAGE_SIZE),
{
    n >= PAGE_SIZE
}

/// A trade as Bitmex reports it, with the pair its symbol normalizes to and its own JSON
/// text.
pub struct RawTrade {
    pub timestamp: String,
    pub symbol: String,
    pub pair: String,
    /// `Buy` or `Sell`.
    pub side: String,
    pub size: String,
    pub price: String,
    pub trd_match_id: String,
    /// The size in base coins.
    pub home_notional: String,
    /// The size in quote coins.
    pub foreign_notional: String,
    pub json: String,
}

/// The market type to report: the caller's, or the symbol's where the caller does not
/// know it.
pub open spec fn resolved(market_type: MarketType, symbol: Seq<char>) -> MarketType {
    if market_type == MarketType::Unknown {
        market_type_of(symbol)
    } else {
        market_type
    }
}

fn resolve(market_type: MarketType, symbol: &str) -> (r: MarketType)
    ensures
        r == resolved(market_type, symbol@),
{
    if market_type == MarketType::Unknown {
        get_market_type_from_symbol(symbol)
    } else {
        market_type
    }
}

/// A number that reads and is positive.
pub open spec fn positive_text(s: Seq<char>) -> bool {
    parsed_decimal(s) matches Some(d) && d.mantissa > 0
}

/// Every field of a trade reads: a 13-digit time, and positive amounts.
pub open spec fn trade_reads(raw: RawTrade) -> bool {
    time_ok(raw.timestamp@) && positive_text(raw.price@) && positive_text(raw.size@)
        && positive_text(raw.home_notional@) && positive_text(raw.foreign_notional@)
}

fn positive_number(s: &str) -> (r: Option<Decimal>)
    ensures
        match r {
            Some(d) => parsed_decimal(s@) == Some(d) && d.mantissa > 0,
            None => !positive_text(s@),
        },
{
    match parse_decimal(s) {
        Some(d) => if d.mantissa > 0 {
            Some(d)
        } else {
            None
        },
        None => None,
    }
}

/// `t` is the trade `raw`: its base and quote are the ones Bitmex reports, its contracts
/// the size; `Sell` is a sell and anything else a buy.
pub open spec fn is_trade_of(t: TradeMsg, market_type: MarketType, raw: RawTrade) -> bool {
    &&& t.exchange@ == "bitmex"@
    &&& t.market_type == resolved(market_type, raw.symbol@)
    &&& t.symbol@ == raw.symbol@
    &&& t.pair@ == raw.pair@
    &&& t.msg_type == MessageType::Trade
    &&& Some(t.timestamp) == rfc3339_ms(raw.timestamp@)
    &&& Some(t.price) == parsed_decimal(raw.price@)
    &&& Some(t.quantity_base) == parsed_decimal(raw.home_notional@)
    &&& Some(t.quantity_quote) == parsed_decimal(raw.foreign_notional@)
    &&& t.quantity_contract == parsed_decimal(raw.size@)
    &&& t.side == (if raw.side@ == "Sell"@ {
        TradeSide::Sell
    } else {
        TradeSide::Buy
    })
    &&& t.trade_id@ == raw.trd_match_id@
}

fn trade_of(market_type: MarketType, raw: &RawTrade) -> (r: Option<TradeMsg>)
    ensures
        match r {
            Some(t) => trade_reads(*raw) && is_trade_of(t, market_type, *raw) && trade_ok(t) && t.json@ == raw.json@,
            None => !trade_reads(*raw),
        },
{
    let timestamp = match parse_time(raw.timestamp.as_str()) {
        Some(t) => t,
        None => return None,
    };
    let price = match positive_number(raw.price.as_str()) {
        Some(x) => x,
        None => return None,
    };
    let size = match positive_number(raw.size.as_str()) {
        Some(x) => x,
        None => return None,
    };
    let base = match positive_number(raw.home_notional.as_str()) {
        Some(x) => x,
        None => return None,
    };
    let quote = match positive_number(raw.foreign_notional.as_str()) {
        Some(x) => x,
        None => return None,
    };
    let side = if str_eq(raw.side.as_str(), "Sell") {
        TradeSide::Sell
    } else {
        TradeSide::Buy
    };
    Some(
        TradeMsg {
            exchange: owned("bitmex"),
            market_type: resolve(market_type, raw.symbol.as_str()),
            symbol: raw.symbol.clone(),
            pair: raw.pair.clone(),
            msg_type: MessageType::Trade,
            timestamp,
            price,
            quantity_base: base,
            quantity_quote: quote,
            quantity_contract: Some(size),
            side,
            trade_id: raw.trd_match_id.clone(),
            json: raw.json.clone(),
        },
    )
}

/// Reads the trades of a message whose raw text is `json`. Each keeps its own JSON text,
/// but a lone trade keeps the whole message.
pub fn parse_trade(market_type: MarketType, raws: &Vec<RawTrade>, json: &str) -> (r: Result<Vec<TradeMsg>, ParseError>)
    ensures
        r is Ok <==> forall|i: int| 0 <= i < raws@.len() ==> trade_reads(#[trigger] raws@[i]),
        r matches Ok(v) ==> v@.len() == raws@.len() && forall|i: int| 0 <= i < v@.len()
            ==> is_trade_of(#[trigger] v@[i], market_type, raws@[i]) && trade_ok(v@[i]) && v@[i].json@ == (if v@.len() == 1 {
            json@
        } else {
            raws@[i].json@
        }),
{
    let mut out: Vec<TradeMsg> = Vec::new();
    let mut i: usize = 0;
    while i < raws.len()
        invariant
            i <= raws@.len(),
            out@.len() == i,
            forall|k: int| 0 <= k < i ==> trade_reads(#[trigger] raws@[k]),
            forall|k: int| 0 <= k < i ==> is_trade_of(#[trigger] out@[k], market_type, raws@[k]) && trade_ok(out@[k]) && out@[k].json@ == raws@[k].json@,
        decreases raws@.len() - i,
    {
        match trade_of(market_type, &raws[i]) {
            Some(t) => out.push(t),
            None => return Err(ParseError::BadField),
        }
        i += 1;
    }
    if out.len() == 1 {
        let mut t = out.pop().unwrap();
        t.json = owned(json);
        out.push(t);
    }
    Ok(out)
}

/// An order-book entry as Bitmex reports it. A missing price is read from the id; a
/// missing size removes the level.
pub struct RawOrder {
    pub symbol: String,
    pub id: u64,
    /// `Buy` or `Sell`.
    pub side: String,
    pub size: Option<String>,
    pub price: Option<String>,
}

/// The price of an entry: its own, or the one its id stands for.
pub open spec fn entry_price(raw: RawOrder, table: TickTable) -> Option<Decimal> {
    match raw.price {
        Some(p) => parsed_decimal(p@),
        None => match table.tick_of(raw.symbol@) {
            Some((index, tick_size)) => price_of_id(index, tick_size, raw.id),
            None => None,
        },
    }
}

/// The size of an entry, zero where it has none.
pub open spec fn entry_size(raw: RawOrder) -> Option<Decimal> {
    match raw.size {
        Some(s) => parsed_decimal(s@),
        None => Some(Decimal { mantissa: 0, scale: 0 }),
    }
}

/// The order an entry gives on a market of `market_type` whose contracts are worth
/// `contract_value`.
pub open spec fn entry_order(raw: RawOrder, market_type: MarketType, contract_value: Option<Decimal>, table: TickTable) -> Option<Order> {
    match (entry_price(raw, table), entry_size(raw)) {
        (Some(p), Some(s)) => if p.mantissa == 0 {
            None
        } else {
            match quantities(market_type, contract_value, p, s) {
                Some(q) => Some(Order { price: p, quantity_base: q.base, quantity_quote: q.quote, quantity_contract: q.contract }),
                None => None,
            }
        },
        _ => None,
    }
}

/// The orders of the entries on `side`, where every one of them reads.
pub open spec fn side_orders(raws: Seq<RawOrder>, side: Seq<char>, market_type: MarketType, contract_value: Option<Decimal>, table: TickTable) -> Option<Seq<Order>>
    decreases raws.len(),
{
    if raws.len() == 0 {
        Some(Seq::empty())
    } else {
        let last = raws.last();
        match side_orders(raws.drop_last(), side, market_type, contract_value, table) {
            None => None,
            Some(os) => if last.side@ == side {
                match entry_order(last, market_type, contract_value, table) {
                    Some(o) => Some(os.push(o)),
                    None => None,
                }
            } else {
                Some(os)
            },
        }
    }
}

/// Every order of entries that read has a positive price.
proof fn lemma_side_positive(raws: Seq<RawOrder>, side: Seq<char>, market_type: MarketType, contract_value: Option<Decimal>, table: TickTable)
    ensures
        side_orders(raws, side, market_type, contract_value, table) matches Some(os) ==> forall|i: int| 0 <= i < os.len() ==> (#[trigger] os[i]).price.mantissa > 0,
    decreases raws.len(),
{
    if raws.len() > 0 {
        lemma_side_positive(raws.drop_last(), side, market_type, contract_value, table);
    }
}

proof fn lemma_side_prefix_none(raws: Seq<RawOrder>, side: Seq<char>, market_type: MarketType, contract_value: Option<Decimal>, table: TickTable, k: int)
    requires
        0 <= k <= raws.len(),
        side_orders(raws.subrange(0, k), side, market_type, contract_value, table) is None,
    ensures
        side_orders(raws, side, market_type, contract_value, table) is None,
    decreases raws.len() - k,
{
    if k < raws.len() {
        assert(raws.subrange(0, k + 1).drop_last() =~= raws.subrange(0, k));
        lemma_side_prefix_none(raws, side, market_type, contract_value, table, k + 1);
    } else {
        assert(raws.subrange(0, k) =~= raws);
    }
}

fn entry_order_exec(raw: &RawOrder, market_type: MarketType, contract_value: Option<Decimal>, table: &TickTable) -> (r: Option<Order>)
    requires
        table.wf(),
    ensures
        r == entry_order(*raw, market_type, contract_value, *table),
{
    let price = match &raw.price {
        Some(p) => parse_decimal(p.as_str()),
        None => table.id_to_price(raw.symbol.as_str(), raw.id),
    };
    let size = match &raw.size {
        Some(s) => parse_decimal(s.as_str()),
        None => Some(Decimal { mantissa: 0, scale: 0 }),
    };
    match (price, size) {
        (Some(p), Some(s)) => if p.mantissa == 0 {
            None
        } else {
            match calc_quantity_and_volume(market_type, contract_value, p, s) {
                Some(q) => Some(Order { price: p, quantity_base: q.base, quantity_quote: q.quote, quantity_contract: q.contract }),
                None => None,
            }
        },
        _ => None,
    }
}

fn side_orders_exec(raws: &Vec<RawOrder>, side: &str, market_type: MarketType, contract_value: Option<Decimal>, table: &TickTable) -> (r: Option<Vec<Order>>)
    requires
        table.wf(),
    ensures
        match r {
            Some(v) => side_orders(raws@, side@, market_type, contract_value, *table) == Some(v@),
            None => side_orders(raws@, side@, market_type, contract_value, *table) is None,
        },
{
    let mut out: Vec<Order> = Vec::new();
    let mut i: usize = 0;
    while i < raws.len()
        invariant
            i <= raws@.len(),
            table.wf(),
            side_orders(raws@.subrange(0, i as int), side@, market_type, contract_value, *table) == Some(out@),
        decreases raws@.len() - i,
    {
        assert(raws@.subrange(0, i + 1).drop_last() =~= raws@.subrange(0, i as int));
        assert(raws@.subrange(0, i + 1).last() == raws@[i as int]);
        if str_eq(raws[i].side.as_str(), side) {
            match entry_order_exec(&raws[i], market_type, contract_value, table) {
                Some(o) => out.push(o),
                None => {
                    proof {
                        lemma_side_prefix_none(raws@, side@, market_type, contract_value, *table, i as int + 1);
                    }
                    return None;
                },
            }
        }
        i += 1;
    }
    assert(raws@.subrange(0, i as int) =~= raws@);
    Some(out)
}

/// Reads a level-2 message of action `action` whose raw text is `json`, received at
/// `timestamp`: one update (a snapshot where the action is `partial`) of the first
/// entry's symbol and pair, its `Sell` entries as asks and its `Buy` entries as bids;
/// nothing for a message without entries.
pub fn parse_l2(
    market_type: MarketType,
    action: &str,
    raws: &Vec<RawOrder>,
    pair: &str,
    contract_value: Option<Decimal>,
    table: &TickTable,
    json: &str,
    timestamp: i64,
) -> (r: Result<Vec<OrderBookMsg>, ParseError>)
    requires
        table.wf(),
    ensures
        raws@.len() == 0 ==> (r matches Ok(v) && v@.len() == 0),
        raws@.len() > 0 ==> {
            let m = resolved(market_type, raws@[0].symbol@);
            let asks = side_orders(raws@, "Sell"@, m, contract_value, *table);
            let bids = side_orders(raws@, "Buy"@, m, contract_value, *table);
            match r {
                Ok(v) => is_ms_timestamp(timestamp) && asks is Some && bids is Some && v@.len() == 1 && {
                    let b = v@[0];
                    &&& book_ok(b)
                    &&& b.exchange@ == "bitmex"@
                    &&& b.market_type == m
                    &&& b.symbol@ == raws@[0].symbol@
                    &&& b.pair@ == pair@
                    &&& b.msg_type == MessageType::L2Event
                    &&& b.timestamp == timestamp
                    &&& b.seq_id is None
                    &&& b.prev_seq_id is None
                    &&& Some(b.asks@) == asks
                    &&& Some(b.bids@) == bids
                    &&& b.snapshot == (action@ == "partial"@)
                    &&& b.json@ == json@
                },
                Err(ParseError::BadTime) => !is_ms_timestamp(timestamp),
                Err(e) => e == ParseError::BadField && is_ms_timestamp(timestamp) && (asks is None || bids is None),
            }
        },
{
    let snapshot = str_eq(action, "partial");
    if raws.len() == 0 {
        return Ok(Vec::new());
    }
    if !check_ms_timestamp(timestamp) {
        return Err(ParseError::BadTime);
    }
    let symbol = raws[0].symbol.clone();
    let m = resolve(market_type, symbol.as_str());
    proof {
        lemma_side_positive(raws@, "Sell"@, m, contract_value, *table);
        lemma_side_positive(raws@, "Buy"@, m, contract_value, *table);
    }
    let asks = match side_orders_exec(raws, "Sell", m, contract_value, table) {
        Some(a) => a,
        None => return Err(ParseError::BadField),
    };
    let bids = match side_orders_exec(raws, "Buy", m, contract_value, table) {
        Some(b) => b,
        None => return Err(ParseError::BadField),
    };
    let mut out: Vec<OrderBookMsg> = Vec::new();
    out.push(
        OrderBookMsg {
            exchange: owned("bitmex"),
            market_type: m,
            symbol,
            pair: owned(pair),
            msg_type: MessageType::L2Event,
            timestamp,
            seq_id: None,
            prev_seq_id: None,
            asks,
            bids,
            snapshot,
            json: owned(json),
        },
    );
    Ok(out)
}

/// A funding rate as Bitmex reports it, with the pair its symbol normalizes to and its
/// own JSON text; `timestamp` is the settlement time.
pub struct RawFundingRate {
    pub timestamp: String,
    pub symbol: String,
    pub pair: String,
    pub funding_rate: String,
    pub json: String,
}

/// Bitmex settles funding every four hours.
pub const FUNDING_CADENCE_MS: i64 = 14400000;

/// A funding rate reads, lies in (-1, 1), and settles at a 13-digit time on the
/// four-hour cadence.
pub open spec fn rate_reads(raw: RawFundingRate) -> bool {
    &&& time_ok(raw.timestamp@)
    &&& rfc3339_ms(raw.timestamp@)->0 % FUNDING_CADENCE_MS == 0
    &&& parsed_rate(raw.funding_rate@) matches Some(r) && below_one(r)
}

pub open spec fn is_rate_of(f: FundingRateMsg, market_type: MarketType, raw: RawFundingRate, now_ms: i64) -> bool {
    &&& f.exchange@ == "bitmex"@
    &&& f.market_type == resolved(market_type, raw.symbol@)
    &&& f.symbol@ == raw.symbol@
    &&& f.pair@ == raw.pair@
    &&& f.msg_type == MessageType::FundingRate
    &&& f.timestamp == now_ms
    &&& Some(f.funding_rate) == parsed_rate(raw.funding_rate@)
    &&& Some(f.funding_time) == rfc3339_ms(raw.timestamp@)
    &&& f.estimated_rate is None
}

/// Reads the funding rates of a message whose raw text is `json`, received at `now_ms`.
/// Each keeps its own JSON text, but a lone rate keeps the whole message.
pub fn parse_funding_rate(market_type: MarketType, raws: &Vec<RawFundingRate>, json: &str, now_ms: i64) -> (r: Result<Vec<FundingRateMsg>, ParseError>)
    ensures
        r is Ok <==> is_ms_timestamp(now_ms) && forall|i: int| 0 <= i < raws@.len() ==> rate_reads(#[trigger] raws@[i]),
        r matches Ok(v) ==> v@.len() == raws@.len() && forall|i: int| 0 <= i < v@.len()
            ==> is_rate_of(#[trigger] v@[i], market_type, raws@[i], now_ms) && v@[i].json@ == (if v@.len() == 1 {
            json@
        } else {
            raws@[i].json@
        }),
{
    if !check_ms_timestamp(now_ms) {
        return Err(ParseError::BadTime);
    }
    let mut out: Vec<FundingRateMsg> = Vec::new();
    let mut i: usize = 0;
    while i < raws.len()
        invariant
            i <= raws@.len(),
            out@.len() == i,
            is_ms_timestamp(now_ms),
            forall|k: int| 0 <= k < i ==> rate_reads(#[trigger] raws@[k]),
            forall|k: int| 0 <= k < i ==> is_rate_of(#[trigger] out@[k], market_type, raws@[k], now_ms) && out@[k].json@ == raws@[k].json@,
        decreases raws@.len() - i,
    {
        let raw = &raws[i];
        let funding_time = match parse_time(raw.timestamp.as_str()) {
            Some(t) => t,
            None => return Err(ParseError::BadTime),
        };
        if funding_time % FUNDING_CADENCE_MS != 0 {
            return Err(ParseError::OutOfRange);
        }
        let rate = match parse_rate(raw.funding_rate.as_str()) {
            Some(x) => x,
            None => return Err(ParseError::BadNumber),
        };
        if rate.magnitude.mantissa >= pow10_exec(rate.magnitude.scale) {
            return Err(ParseError::OutOfRange);
        }
        out.push(
            FundingRateMsg {
                exchange: owned("bitmex"),
                market_type: resolve(market_type, raw.symbol.as_str()),
                symbol: raw.symbol.clone(),
                pair: raw.pair.clone(),
                msg_type: MessageType::FundingRate,
                timestamp: now_ms,
                funding_rate: rate,
                funding_time,
                estimated_rate: None,
                json: raw.json.clone(),
            },
        );
        i += 1;
    }
    if out.len() == 1 {
        let mut f = out.pop().unwrap();
        f.json = owned(json);
        out.push(f);
    }
    Ok(out)
}

/// The symbol of a message: its first entry's; none for a message without entries.
pub fn extract_symbol(symbols: &Vec<String>) -> (r: Option<String>)
    ensures
        match r {
            Some(s) => symbols@.len() > 0 && s@ == symbols@[0]@,
            None => symbols@.len() == 0,
        },
{
    if symbols.len() == 0 {
        None
    } else {
        Some(symbols[0].clone())
    }
}

} // verus!
