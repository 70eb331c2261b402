use accounting::types::{Order, PartialOrder, Receipt, Side};
use std::cmp::Ordering;

fn resting(ordinal: u64) -> PartialOrder {
    Order {
        price: 10,
        amount: 5,
        side: Side::Buy,
        signer: "s".to_string(),
    }
    .into_partial_order(ordinal, 5)
}

#[test]
fn earlier_ordinal_ranks_ahead() {
    let a = resting(5);
    let b = resting(9);
    assert!(a > b);
    assert!(b < a);
    assert_eq!(a.partial_cmp(&b), Some(Ordering::Greater));
    assert_eq!(b.partial_cmp(&a), Some(Ordering::Less));
}

#[test]
fn price_does_not_affect_rank() {
    let mut a = resting(1);
    a.price = 1;
    let mut b = resting(2);
    b.price = 1000;
    assert!(a > b);
    let c = resting(1);
    assert_eq!(a.partial_cmp(&c), Some(Ordering::Equal));
}

#[test]
fn into_partial_order_copies_fields() {
    let order = Order {
        price: 7,
        amount: 30,
        side: Side::Sell,
        signer: "alice".to_string(),
    };
    let p = order.into_partial_order(3, 30);
    assert_eq!(
        p,
        PartialOrder {
            price: 7,
            amount: 30,
            remaining: 30,
            side: Side::Sell,
            signer: "alice".to_string(),
            ordinal: 3,
        }
    );
}

#[test]
fn take_from_fills_part() {
    let mut pos = Order {
        price: 7,
        amount: 30,
        side: Side::Sell,
        signer: "alice".to_string(),
    }
    .into_partial_order(3, 30);
    let fill = PartialOrder::take_from(&mut pos, 12, 6);
    assert_eq!(pos.remaining, 18);
    assert_eq!(pos.price, 7);
    assert_eq!(pos.amount, 30);
    assert_eq!(fill.amount, 12);
    assert_eq!(fill.price, 6);
    assert_eq!(fill.side, Side::Sell);
    assert_eq!(fill.signer, "alice");
    assert_eq!(fill.ordinal, 3);

    let receipt = Receipt {
        ordinal: 8,
        matches: vec![fill.clone()],
    };
    assert_eq!(receipt.matches[0], fill);
}

#[test]
fn take_from_everything_leaves_zero() {
    let mut pos = resting(4);
    let fill = PartialOrder::take_from(&mut pos, 5, 10);
    assert_eq!(pos.remaining, 0);
    assert_eq!(fill.amount, 5);
}
