//! The transaction records that drive the ledger.

use crate::amount::Amount;
use vstd::prelude::*;

verus! {

pub type UserId = u16;

pub type TransactionId = u32;

/// The possible kinds of transactions.
#[derive(Clone, Copy, Debug, PartialEq, Eq, Structural)]
pub enum Kind {
    /// A credit to the client's account: available and total funds grow.
    Deposit,
    /// A debit from the client's account: available and total funds shrink.
    Withdrawal,
    /// A claim that an earlier deposit was erroneous: its funds are held.
    Dispute,
    /// The end of a dispute in the client's favour: held funds are released.
    Resolve,
    /// The end of a dispute by reversal: held funds leave and the account locks.
    Chargeback,
}

/// One input event.
#[derive(Clone, Copy, Debug)]
pub struct Transaction {
    pub kind: Kind,
    pub client: UserId,
    pub transaction_id: TransactionId,
    pub amount: Option<Amount>,
}

impl Transaction {
    /// The amount, where there is one, is a decimal in range.
    pub open spec fn wf(self) -> bool {
        self.amount matches Some(a) ==> a.wf()
    }
}

} // verus!
