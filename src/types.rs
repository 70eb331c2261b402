use vstd::prelude::*;

use std::cmp::Ordering;
use vstd::std_specs::cmp::PartialOrdSpec;

verus! {

/// The side of the book an order rests on.
#[derive(Clone, Copy, PartialEq, Eq, Structural, PartialOrd, Ord, Debug)]
pub enum Side {
    Buy,
    Sell,
}

/// An order as submitted: price and amount in their smallest units.
#[derive(Clone, PartialEq, Eq)]
pub struct Order {
    pub price: u64,
    pub amount: u64,
    pub side: Side,
    pub signer: String,
}

impl Order {
    /// Admits the order with sequence number `ordinal` and `remaining` left to fill.
    pub fn into_partial_order(self, ordinal: u64, remaining: u64) -> (r: PartialOrder)
        ensures
            r.price == self.price,
            r.amount == self.amount,
            r.remaining == remaining,
            r.side == self.side,
            r.signer@ == self.signer@,
            r.ordinal == ordinal,
    {
        let Order { price, amount, side, signer } = self;
        PartialOrder { price, amount, remaining, side, signer, ordinal }
    }
}

/// An order resting in a book. Orders rank by `ordinal` alone, reversed: the
/// one admitted earlier is the greater, so a max-first queue yields orders in
/// the order they were admitted.
#[derive(Clone, PartialEq, Debug, Eq)]
pub struct PartialOrder {
    pub price: u64,
    pub amount: u64,
    pub remaining: u64,
    pub side: Side,
    pub signer: String,
    pub ordinal: u64,
}

/// The rank of an order with sequence number `a` against one with `b`.
pub open spec fn rank(a: u64, b: u64) -> Ordering {
    if a < b {
        Ordering::Greater
    } else if a == b {
        Ordering::Equal
    } else {
        Ordering::Less
    }
}

impl PartialOrd for PartialOrder {
    fn partial_cmp(&self, other: &Self) -> (r: Option<Ordering>)
        ensures
            r == Some(rank(self.ordinal, other.ordinal)),
    {
        if self.ordinal < other.ordinal {
            Some(Ordering::Greater)
        } else if self.ordinal == other.ordinal {
            Some(Ordering::Equal)
        } else {
            Some(Ordering::Less)
        }
    }
}

impl vstd::std_specs::cmp::PartialOrdSpecImpl for PartialOrder {
    open spec fn obeys_partial_cmp_spec() -> bool {
        true
    }

    open spec fn partial_cmp_spec(&self, other: &PartialOrder) -> Option<Ordering> {
        Some(rank(self.ordinal, other.ordinal))
    }
}

/// The fills that one incoming order, identified by `ordinal`, matched against.
#[derive(Clone, PartialEq, Eq, Debug)]
pub struct Receipt {
    pub ordinal: u64,
    pub matches: Vec<PartialOrder>,
}

impl PartialOrder {
    /// Fills `take` of the resting order `pos` at `price`: `pos` keeps `take`
    /// less to fill, and the returned fragment carries `take` and `price` with
    /// the rest of `pos`'s fields.
    pub fn take_from(pos: &mut PartialOrder, take: u64, price: u64) -> (r: PartialOrder)
        requires
            take <= old(pos).remaining,
        ensures
            final(pos).remaining == old(pos).remaining - take,
            final(pos).price == old(pos).price,
            final(pos).amount == old(pos).amount,
            final(pos).side == old(pos).side,
            final(pos).signer == old(pos).signer,
            final(pos).ordinal == old(pos).ordinal,
            r.price == price,
            r.amount == take,
            r.remaining == final(pos).remaining,
            r.side == old(pos).side,
            r.signer@ == old(pos).signer@,
            r.ordinal == old(pos).ordinal,
    {
        pos.remaining = pos.remaining - take;
        PartialOrder {
            price,
            amount: take,
            remaining: pos.remaining,
            side: pos.side,
            signer: pos.signer.clone(),
            ordinal: pos.ordinal,
        }
    }
}

/// An order admitted earlier ranks ahead of one admitted later, whatever
/// their other fields hold.
pub proof fn lemma_earlier_ranks_ahead(a: PartialOrder, b: PartialOrder)
    requires
        a.ordinal < b.ordinal,
    ensures
        a.partial_cmp_spec(&b) == Some(Ordering::Greater),
        b.partial_cmp_spec(&a) == Some(Ordering::Less),
{
}

} // verus!
