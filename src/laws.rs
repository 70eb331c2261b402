use vstd::prelude::*;

use crate::accounts::{balance_of, deposit_outcome, send_outcome, total, withdraw_outcome};
use crate::accounts::{lemma_sum_agree, lemma_sum_remove};
use crate::errors::ErrorView;
use crate::tx::TxView;

verus! {

/// Two deposits into one account add up: where the sum stays within `u64`,
/// both succeed and the balance grows by `x + y` (so a new account holds
/// exactly `x + y`).
pub proof fn lemma_deposit_twice(m: Map<Seq<char>, u64>, a: Seq<char>, x: u64, y: u64)
    requires
        balance_of(m, a) + x + y <= u64::MAX,
    ensures
        deposit_outcome(m, a, x).1 is Ok,
        deposit_outcome(deposit_outcome(m, a, x).0, a, y).1 is Ok,
        deposit_outcome(deposit_outcome(m, a, x).0, a, y).0[a] == balance_of(m, a) + x + y,
        !m.contains_key(a) ==> deposit_outcome(deposit_outcome(m, a, x).0, a, y).0[a] == x + y,
{
}

/// A withdrawal from a known account fails as under-funded exactly when the
/// amount exceeds the balance, and then leaves the ledger as it was.
pub proof fn lemma_withdraw_underfunded(m: Map<Seq<char>, u64>, a: Seq<char>, x: u64)
    requires
        m.contains_key(a),
    ensures
        (withdraw_outcome(m, a, x).1 == Err::<TxView, ErrorView>(
            ErrorView::AccountUnderFunded(a, x),
        )) <==> x > m[a],
        x > m[a] ==> withdraw_outcome(m, a, x).0 == m,
{
}

/// A deposit fails as over-funded exactly when the new balance would pass
/// `u64::MAX`, and then leaves the ledger as it was.
pub proof fn lemma_deposit_overfunded(m: Map<Seq<char>, u64>, a: Seq<char>, x: u64)
    ensures
        (deposit_outcome(m, a, x).1 == Err::<TxView, ErrorView>(
            ErrorView::AccountOverFunded(a, x),
        )) <==> balance_of(m, a) + x > u64::MAX,
        balance_of(m, a) + x > u64::MAX ==> deposit_outcome(m, a, x).0 == m,
{
}

/// A withdrawal from an account never deposited into fails as not found.
pub proof fn lemma_withdraw_unknown(m: Map<Seq<char>, u64>, a: Seq<char>, x: u64)
    requires
        !m.contains_key(a),
    ensures
        withdraw_outcome(m, a, x).1 == Err::<TxView, ErrorView>(
            ErrorView::AccountNotFound(a),
        ),
        withdraw_outcome(m, a, x).0 == m,
{
}

/// A successful send takes `x` from the sender and gives it to the recipient;
/// every other account keeps its balance, so the total is conserved. A send
/// to oneself changes nothing.
pub proof fn lemma_send_moves_amount(m: Map<Seq<char>, u64>, a: Seq<char>, b: Seq<char>, x: u64)
    requires
        send_outcome(m, a, b, x).1 is Ok,
    ensures
        a != b ==> balance_of(send_outcome(m, a, b, x).0, a) == balance_of(m, a) - x,
        a != b ==> balance_of(send_outcome(m, a, b, x).0, b) == balance_of(m, b) + x,
        balance_of(send_outcome(m, a, b, x).0, a) + balance_of(send_outcome(m, a, b, x).0, b)
            == balance_of(m, a) + balance_of(m, b),
        a == b ==> send_outcome(m, a, b, x).0 == m,
        forall|k: Seq<char>|
            k != a && k != b ==> #[trigger] send_outcome(m, a, b, x).0.contains_key(k)
                == m.contains_key(k) && balance_of(send_outcome(m, a, b, x).0, k) == balance_of(
                m,
                k,
            ),
{
    if a == b {
        assert(send_outcome(m, a, b, x).0 =~= m);
    }
}

/// A failed send leaves every balance, the sender's and the recipient's
/// included, as it was before the call.
pub proof fn lemma_failed_send_unchanged(
    m: Map<Seq<char>, u64>,
    a: Seq<char>,
    b: Seq<char>,
    x: u64,
)
    requires
        send_outcome(m, a, b, x).1 is Err,
    ensures
        send_outcome(m, a, b, x).0 == m,
        balance_of(send_outcome(m, a, b, x).0, a) == balance_of(m, a),
        balance_of(send_outcome(m, a, b, x).0, b) == balance_of(m, b),
{
}

/// A failed deposit, repeated, fails again with the same error and the same
/// unchanged ledger.
pub proof fn lemma_failed_deposit_repeats(m: Map<Seq<char>, u64>, a: Seq<char>, x: u64)
    requires
        deposit_outcome(m, a, x).1 is Err,
    ensures
        deposit_outcome(m, a, x).0 == m,
        deposit_outcome(deposit_outcome(m, a, x).0, a, x) == deposit_outcome(m, a, x),
{
}

/// A failed withdrawal, repeated, fails again with the same error and the
/// same unchanged ledger.
pub proof fn lemma_failed_withdraw_repeats(m: Map<Seq<char>, u64>, a: Seq<char>, x: u64)
    requires
        withdraw_outcome(m, a, x).1 is Err,
    ensures
        withdraw_outcome(m, a, x).0 == m,
        withdraw_outcome(withdraw_outcome(m, a, x).0, a, x) == withdraw_outcome(m, a, x),
{
}

/// A failed send, repeated, fails again with the same error and the same
/// unchanged ledger.
pub proof fn lemma_failed_send_repeats(m: Map<Seq<char>, u64>, a: Seq<char>, b: Seq<char>, x: u64)
    requires
        send_outcome(m, a, b, x).1 is Err,
    ensures
        send_outcome(m, a, b, x).0 == m,
        send_outcome(send_outcome(m, a, b, x).0, a, b, x) == send_outcome(m, a, b, x),
{
}

/// A successful send conserves the sum of all balances in the ledger.
pub proof fn lemma_send_conserves_total(
    m: Map<Seq<char>, u64>,
    a: Seq<char>,
    b: Seq<char>,
    x: u64,
)
    requires
        m.dom().finite(),
        send_outcome(m, a, b, x).1 is Ok,
    ensures
        total(send_outcome(m, a, b, x).0) == total(m),
{
    let m2 = send_outcome(m, a, b, x).0;
    lemma_send_moves_amount(m, a, b, x);
    if a != b {
        let d = m.dom();
        lemma_sum_remove(m, d, a);
        if m.contains_key(b) {
            assert(m2.dom() =~= d);
            lemma_sum_remove(m2, d, a);
            lemma_sum_remove(m, d.remove(a), b);
            lemma_sum_remove(m2, d.remove(a), b);
            lemma_sum_agree(m, m2, d.remove(a).remove(b));
        } else {
            assert(m2.dom() =~= d.insert(b));
            lemma_sum_remove(m2, d.insert(b), b);
            assert(d.insert(b).remove(b) =~= d);
            lemma_sum_remove(m2, d, a);
            lemma_sum_agree(m, m2, d.remove(a));
        }
    }
}

} // verus!
