use vstd::prelude::*;

verus! {

/// The ways a ledger operation can fail, with the account (and amount) involved.
#[derive(Debug, PartialEq, Eq)]
pub enum ApplicationError {
    AccountNotFound(String),
    AccountUnderFunded(String, u64),
    AccountOverFunded(String, u64),
}

/// The mathematical value of an `ApplicationError`: account names as character sequences.
pub enum ErrorView {
    AccountNotFound(Seq<char>),
    AccountUnderFunded(Seq<char>, u64),
    AccountOverFunded(Seq<char>, u64),
}

impl View for ApplicationError {
    type V = ErrorView;

    open spec fn view(&self) -> ErrorView {
        match self {
            ApplicationError::AccountNotFound(a) => ErrorView::AccountNotFound(a@),
            ApplicationError::AccountUnderFunded(a, x) => ErrorView::AccountUnderFunded(a@, *x),
            ApplicationError::AccountOverFunded(a, x) => ErrorView::AccountOverFunded(a@, *x),
        }
    }
}

} // verus!
