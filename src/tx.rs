use vstd::prelude::*;

verus! {

/// The record of one completed balance change.
#[derive(Debug, PartialEq, Eq)]
pub enum Tx {
    Deposit { account: String, amount: u64 },
    Withdraw { account: String, amount: u64 },
}

/// The mathematical value of a `Tx`.
pub enum TxView {
    Deposit { account: Seq<char>, amount: u64 },
    Withdraw { account: Seq<char>, amount: u64 },
}

impl View for Tx {
    type V = TxView;

    open spec fn view(&self) -> TxView {
        match self {
            Tx::Deposit { account, amount } => TxView::Deposit { account: account@, amount: *amount },
            Tx::Withdraw { account, amount } => TxView::Withdraw { account: account@, amount: *amount },
        }
    }
}

} // verus!
