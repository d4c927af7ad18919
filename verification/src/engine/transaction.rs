//! The five movements that an account can be asked to make.

use crate::amount::{CreditUsd, DebtUsd, Usd, MAX_RAW};
use vstd::prelude::*;

verus! {

/// A movement, with the amount it moves. What a dispute, a resolve or a
/// chargeback carries is the amount of the deposit that it cites.
#[derive(Debug, Clone, Copy, PartialEq, Eq)]
pub enum Transaction {
    Deposit(CreditUsd),
    Withdrawal(DebtUsd),
    Dispute(DebtUsd),
    Resolve(CreditUsd),
    Chargeback(DebtUsd),
}

/// A movement with its amount in raw steps: zero or more in a deposit and a
/// resolve, below zero in the others.
pub enum Movement {
    Deposit(int),
    Withdrawal(int),
    Dispute(int),
    Resolve(int),
    Chargeback(int),
}

impl Movement {
    /// The signed amount that the movement carries.
    pub open spec fn amount(self) -> int {
        match self {
            Movement::Deposit(c) => c,
            Movement::Withdrawal(d) => d,
            Movement::Dispute(d) => d,
            Movement::Resolve(c) => c,
            Movement::Chargeback(d) => d,
        }
    }

    /// Whether the movement adds to what it touches.
    pub open spec fn is_credit(self) -> bool {
        self is Deposit || self is Resolve
    }

    /// Whether the amount is one that a `Transaction` of this kind can hold.
    pub open spec fn wf(self) -> bool {
        if self.is_credit() {
            0 <= self.amount() <= MAX_RAW
        } else {
            -MAX_RAW <= self.amount() < 0
        }
    }
}

impl View for Transaction {
    type V = Movement;

    open spec fn view(&self) -> Movement {
        match *self {
            Transaction::Deposit(c) => Movement::Deposit(c@),
            Transaction::Withdrawal(d) => Movement::Withdrawal(d@),
            Transaction::Dispute(d) => Movement::Dispute(d@),
            Transaction::Resolve(c) => Movement::Resolve(c@),
            Transaction::Chargeback(d) => Movement::Chargeback(d@),
        }
    }
}

impl Transaction {
    pub fn new_deposit(amount: CreditUsd) -> (t: Self)
        ensures
            t == Transaction::Deposit(amount),
    {
        Self::Deposit(amount)
    }

    pub fn new_withdrawl(amount: DebtUsd) -> (t: Self)
        ensures
            t == Transaction::Withdrawal(amount),
    {
        Self::Withdrawal(amount)
    }

    pub fn new_dispute(amount: DebtUsd) -> (t: Self)
        ensures
            t == Transaction::Dispute(amount),
    {
        Self::Dispute(amount)
    }

    pub fn new_resolve(amount: CreditUsd) -> (t: Self)
        ensures
            t == Transaction::Resolve(amount),
    {
        Self::Resolve(amount)
    }

    pub fn new_chargeback(amount: DebtUsd) -> (t: Self)
        ensures
            t == Transaction::Chargeback(amount),
    {
        Self::Chargeback(amount)
    }

    /// The amount that the movement carries, with its sign.
    pub fn get_amount(&self) -> (r: Usd)
        ensures
            r@ == self@.amount(),
            r is Credit <==> self@.is_credit(),
            self@.wf(),
    {
        match self {
            Self::Deposit(x) => {
                proof {
                    use_type_invariant(x);
                }
                Usd::Credit(*x)
            },
            Self::Withdrawal(x) => {
                proof {
                    use_type_invariant(x);
                }
                Usd::Debt(*x)
            },
            Self::Dispute(x) => {
                proof {
                    use_type_invariant(x);
                }
                Usd::Debt(*x)
            },
            Self::Resolve(x) => {
                proof {
                    use_type_invariant(x);
                }
                Usd::Credit(*x)
            },
            Self::Chargeback(x) => {
                proof {
                    use_type_invariant(x);
                }
                Usd::Debt(*x)
            },
        }
    }
}

} // verus!
