//! A price level of an order book, and its wire form.
use vstd::prelude::*;
use crate::decimal::Decimal;

verus! {

/// An order in the asks or bids of an order book.
#[derive(Clone, Copy, Debug, PartialEq, Eq, Structural)]
pub struct Order {
    pub price: Decimal,
    /// Number of base coins; zero means the level is removed.
    pub quantity_base: Decimal,
    /// Number of quote coins.
    pub quantity_quote: Decimal,
    /// Number of contracts; none on spot markets.
    pub quantity_contract: Option<Decimal>,
}

/// The wire form: `[price, base, quote]`, with the contracts as a fourth element where
/// there are any.
pub open spec fn wire_of(o: Order) -> Seq<Decimal> {
    match o.quantity_contract {
        Some(c) => seq![o.price, o.quantity_base, o.quantity_quote, c],
        None => seq![o.price, o.quantity_base, o.quantity_quote],
    }
}

/// The order that a wire form gives: three numbers, or four with the contracts last;
/// none for any other length.
pub open spec fn order_of_wire(v: Seq<Decimal>) -> Option<Order> {
    if v.len() != 3 && v.len() != 4 {
        None
    } else {
        Some(
            Order {
                price: v[0],
                quantity_base: v[1],
                quantity_quote: v[2],
                quantity_contract: if v.len() == 4 {
                    Some(v[3])
                } else {
                    None
                },
            },
        )
    }
}

impl Order {
    /// The numbers that stand for this order on the wire.
    pub fn serialize(&self) -> (r: Vec<Decimal>)
        ensures
            r@ == wire_of(*self),
    {
        let mut r: Vec<Decimal> = Vec::new();
        r.push(self.price);
        r.push(self.quantity_base);
        r.push(self.quantity_quote);
        if let Some(c) = self.quantity_contract {
            r.push(c);
        }
        assert(r@ =~= wire_of(*self));
        r
    }

    /// Reads an order back from its wire form.
    pub fn deserialize(v: &Vec<Decimal>) -> (r: Option<Order>)
        ensures
            r == order_of_wire(v@),
    {
        if v.len() != 3 && v.len() != 4 {
            return None;
        }
        Some(
            Order {
                price: v[0],
                quantity_base: v[1],
                quantity_quote: v[2],
                quantity_contract: if v.len() == 4 {
                    Some(v[3])
                } else {
                    None
                },
            },
        )
    }
}

/// Reading an order's wire form back gives the order, with or without contracts.
pub proof fn lemma_order_round_trip(o: Order)
    ensures
        order_of_wire(wire_of(o)) == Some(o),
{
}

} // verus!
