//! One account: its balance, and the rules by which a movement changes it.

use super::transaction::{Movement, Transaction};
use crate::amount::{CreditUsd, DebtUsd, Usd, MAX_RAW};
use vstd::prelude::*;

verus! {

/// What became of a movement handed to an account.
#[derive(Clone, Copy, Debug, PartialEq, Eq, Structural)]
pub enum Outcome {
    /// The account is locked: nothing was looked at, nothing changed.
    Ignored,
    /// The movement was made as asked.
    Applied,
    /// The movement was refused and the account is as it was.
    Rejected,
    /// A chargeback for more than was held: the account is locked and the
    /// total adjusted, and the hold was cleared rather than reduced.
    HoldCleared,
}

/// An account. `overflow` is set only by a chargeback for more than the
/// total; a withdrawal for more than is available just fails.
#[derive(Debug, Clone, Copy, PartialEq, Eq)]
pub struct Client {
    pub locked: bool,
    pub total: CreditUsd,
    pub held: Option<DebtUsd>,
    pub overflow: Option<DebtUsd>,
}

/// An account in numbers, all in raw steps. `held` and `overflow` are below
/// zero where they are set: what is frozen, and what a chargeback took beyond
/// the total.
pub struct AccountState {
    pub locked: bool,
    pub total: int,
    pub held: Option<int>,
    pub overflow: Option<int>,
}

impl AccountState {
    /// An account that nothing has touched.
    pub open spec fn fresh() -> AccountState {
        AccountState { locked: false, total: 0, held: None, overflow: None }
    }

    /// Whether the numbers are ones that a `Client` can hold.
    pub open spec fn wf(self) -> bool {
        &&& 0 <= self.total <= MAX_RAW
        &&& self.held matches Some(h) ==> -MAX_RAW <= h < 0
        &&& self.overflow matches Some(o) ==> -MAX_RAW <= o < 0
    }

    /// What the owner can dispose of: the total less what is held. Below zero
    /// while a dispute freezes more than the account holds.
    pub open spec fn available(self) -> int {
        match self.held {
            None => self.total,
            Some(h) => self.total + h,
        }
    }

    /// The account after a deposit of `c`, or `None` where the total would
    /// pass the bound.
    pub open spec fn deposit(self, c: int) -> Option<AccountState> {
        if self.total + c <= MAX_RAW {
            Some(AccountState { total: self.total + c, ..self })
        } else {
            None
        }
    }

    /// The account after a withdrawal of `d` (below zero), or `None` where
    /// the total or what is available would not cover it.
    pub open spec fn withdrawal(self, d: int) -> Option<AccountState> {
        let after = AccountState { total: self.total + d, ..self };
        if after.total >= 0 && after.available() >= 0 {
            Some(after)
        } else {
            None
        }
    }

    /// The account after a dispute over `d` (below zero) has frozen that much
    /// more, or `None` where the hold would pass the bound. The total plays
    /// no part.
    pub open spec fn dispute(self, d: int) -> Option<AccountState> {
        let frozen = match self.held {
            None => d,
            Some(h) => h + d,
        };
        if frozen >= -MAX_RAW {
            Some(AccountState { held: Some(frozen), ..self })
        } else {
            None
        }
    }

    /// The account after `c` of the hold is released, or `None` where
    /// nothing is held or `c` is more than the hold. A hold released in full
    /// is no hold.
    pub open spec fn release(self, c: int) -> Option<AccountState> {
        match self.held {
            None => None,
            Some(h) => if h + c < 0 {
                Some(AccountState { held: Some(h + c), ..self })
            } else if h + c == 0 {
                Some(AccountState { held: None, ..self })
            } else {
                None
            },
        }
    }

    /// The account after `d` (below zero) is taken from the total. What the
    /// total cannot cover is recorded as overflow, and the total is zero.
    pub open spec fn charge(self, d: int) -> AccountState {
        if self.total + d < 0 {
            AccountState { total: 0, overflow: Some(self.total + d), ..self }
        } else {
            AccountState { total: self.total + d, ..self }
        }
    }

    /// The account after a chargeback of `d` (below zero): locked, the hold
    /// released by that much or, where that fails, cleared, and the total
    /// charged.
    pub open spec fn chargeback(self, d: int) -> AccountState {
        let locked = AccountState { locked: true, ..self };
        let released = match locked.release(-d) {
            Some(s) => s,
            None => AccountState { held: None, ..locked },
        };
        released.charge(d)
    }

    /// The account after the movement `m` was handed to it.
    pub open spec fn apply(self, m: Movement) -> AccountState {
        if self.locked {
            self
        } else {
            match m {
                Movement::Deposit(c) => match self.deposit(c) {
                    Some(s) => s,
                    None => self,
                },
                Movement::Withdrawal(d) => match self.withdrawal(d) {
                    Some(s) => s,
                    None => self,
                },
                Movement::Dispute(d) => match self.dispute(d) {
                    Some(s) => s,
                    None => self,
                },
                Movement::Resolve(c) => match self.release(c) {
                    Some(s) => s,
                    None => self,
                },
                Movement::Chargeback(d) => self.chargeback(d),
            }
        }
    }

    /// The account after the movements of `ms` were handed to it, one after
    /// the other.
    pub open spec fn apply_all(self, ms: Seq<Movement>) -> AccountState
        decreases ms.len(),
    {
        if ms.len() == 0 {
            self
        } else {
            self.apply_all(ms.drop_last()).apply(ms.last())
        }
    }

    /// What is reported of the movement `m` handed to the account.
    pub open spec fn outcome(self, m: Movement) -> Outcome {
        if self.locked {
            Outcome::Ignored
        } else {
            let done = match m {
                Movement::Deposit(c) => self.deposit(c) is Some,
                Movement::Withdrawal(d) => self.withdrawal(d) is Some,
                Movement::Dispute(d) => self.dispute(d) is Some,
                Movement::Resolve(c) => self.release(c) is Some,
                Movement::Chargeback(d) => self.release(-d) is Some,
            };
            if done {
                Outcome::Applied
            } else if m is Chargeback {
                Outcome::HoldCleared
            } else {
                Outcome::Rejected
            }
        }
    }
}

/// The hold in raw steps, if there is one.
pub open spec fn hold_value(held: Option<DebtUsd>) -> Option<int> {
    match held {
        Some(h) => Some(h@),
        None => None,
    }
}

impl View for Client {
    type V = AccountState;

    open spec fn view(&self) -> AccountState {
        AccountState {
            locked: self.locked,
            total: self.total@,
            held: hold_value(self.held),
            overflow: hold_value(self.overflow),
        }
    }
}

impl Client {
    /// An account that nothing has touched.
    pub fn new() -> (client: Self)
        ensures
            client@ == AccountState::fresh(),
    {
        Client { locked: false, total: CreditUsd::zero(), held: None, overflow: None }
    }

    /// An account in a given state.
    pub fn new_(
        locked: bool,
        total: CreditUsd,
        held: Option<DebtUsd>,
        overflow: Option<DebtUsd>,
    ) -> (client: Self)
        ensures
            client == (Client { locked, total, held, overflow }),
    {
        Client { locked, total, held, overflow }
    }

    /// Hands one movement to the account. A locked account takes none; an
    /// unlocked one makes the movement by its rule, or refuses it and stays
    /// as it was. A chargeback is never refused.
    pub fn handle_transaction(&mut self, transaction: Transaction) -> (outcome: Outcome)
        ensures
            final(self)@ == old(self)@.apply(transaction@),
            outcome == old(self)@.outcome(transaction@),
            outcome == Outcome::Ignored || outcome == Outcome::Rejected ==> *final(self) == *old(
                self,
            ),
    {
        if self.locked {
            return Outcome::Ignored;
        }
        match transaction {
            Transaction::Deposit(usd) => Self::applied_or_rejected(self.deposit(usd)),
            Transaction::Withdrawal(usd) => Self::applied_or_rejected(self.withdrawal(usd)),
            Transaction::Dispute(usd) => Self::applied_or_rejected(self.held(usd)),
            Transaction::Resolve(usd) => Self::applied_or_rejected(self.release(usd)),
            Transaction::Chargeback(usd) => if self.chargeback(usd) {
                Outcome::Applied
            } else {
                Outcome::HoldCleared
            },
        }
    }

    /// What is reported of a movement that was made or refused.
    fn applied_or_rejected(done: Option<()>) -> (outcome: Outcome)
        ensures
            outcome == if done is Some {
                Outcome::Applied
            } else {
                Outcome::Rejected
            },
    {
        match done {
            Some(()) => Outcome::Applied,
            None => Outcome::Rejected,
        }
    }

    /// What the owner can dispose of: the total less what is held, negative
    /// while more is frozen than the account holds.
    pub fn avaiable_amount(&self) -> (r: Usd)
        ensures
            r@ == self@.available(),
            r is Credit <==> self@.available() >= 0,
    {
        self.avaiable_amount_from_new(self.total)
    }

    /// What would be available if the total were `new_total`.
    fn avaiable_amount_from_new(&self, new_total: CreditUsd) -> (r: Usd)
        ensures
            r@ == (AccountState { total: new_total@, ..self@ }).available(),
            r is Credit <==> r@ >= 0,
    {
        proof {
            use_type_invariant(&new_total);
        }
        match self.held {
            None => Usd::Credit(new_total),
            Some(held) => new_total.less(held),
        }
    }

    fn deposit(&mut self, usd: CreditUsd) -> (r: Option<()>)
        ensures
            r is Some <==> old(self)@.deposit(usd@) is Some,
            r is Some ==> final(self)@ == old(self)@.deposit(usd@)->0,
            r is None ==> *final(self) == *old(self),
    {
        let new_amount = self.total.checked_add(usd)?;
        self.total = new_amount;
        Some(())
    }

    fn withdrawal(&mut self, usd: DebtUsd) -> (r: Option<()>)
        ensures
            r is Some <==> old(self)@.withdrawal(usd@) is Some,
            r is Some ==> final(self)@ == old(self)@.withdrawal(usd@)->0,
            r is None ==> *final(self) == *old(self),
    {
        // The withdrawal must be covered by the total ...
        match self.total.less(usd) {
            Usd::Debt(_) => None,
            Usd::Credit(new_total) => {
                // ... and by what is left of it beside the hold.
                match self.avaiable_amount_from_new(new_total) {
                    Usd::Debt(_) => None,
                    Usd::Credit(_) => {
                        self.total = new_total;
                        Some(())
                    },
                }
            },
        }
    }

    /// What is held, or nothing.
    fn unwrap_held_or_0(&self) -> (r: Usd)
        ensures
            r@ == match self@.held {
                None => 0,
                Some(h) => h,
            },
            -MAX_RAW <= r@ <= 0,
    {
        match self.held {
            None => Usd::zero(),
            Some(held) => {
                proof {
                    use_type_invariant(&held);
                }
                Usd::Debt(held)
            },
        }
    }

    fn held(&mut self, usd: DebtUsd) -> (r: Option<()>)
        ensures
            r is Some <==> old(self)@.dispute(usd@) is Some,
            r is Some ==> final(self)@ == old(self)@.dispute(usd@)->0,
            r is None ==> *final(self) == *old(self),
    {
        proof {
            use_type_invariant(&usd);
        }
        // The sum is below zero, so a debt, whenever there is one.
        let new_held = self.unwrap_held_or_0().checked_add(Usd::Debt(usd))?.debt()?;
        self.held = Some(new_held);
        Some(())
    }

    fn release(&mut self, usd: CreditUsd) -> (r: Option<()>)
        ensures
            r is Some <==> old(self)@.release(usd@) is Some,
            r is Some ==> final(self)@ == old(self)@.release(usd@)->0,
            r is None ==> *final(self) == *old(self),
    {
        match self.held {
            None => None,
            Some(held) => match held.plus(usd) {
                Usd::Debt(new_held) => {
                    self.held = Some(new_held);
                    Some(())
                },
                // A credit of zero: the hold is released in full. Any more
                // would release what was never held.
                Usd::Credit(rest) => {
                    if rest.raw() == 0 {
                        self.held = None;
                        Some(())
                    } else {
                        None
                    }
                },
            },
        }
    }

    fn update_total(&mut self, chargeback: DebtUsd)
        ensures
            final(self)@ == old(self)@.charge(chargeback@),
    {
        match self.total.less(chargeback) {
            Usd::Debt(overflow) => {
                self.overflow = Some(overflow);
                self.total = CreditUsd::zero();
            },
            Usd::Credit(new_total) => {
                self.total = new_total;
            },
        }
    }

    /// Locks the account and takes the chargeback. Says whether the hold
    /// could be released by the amount; where it could not, it is cleared.
    fn chargeback(&mut self, usd: DebtUsd) -> (released: bool)
        ensures
            final(self)@ == old(self)@.chargeback(usd@),
            released == (old(self)@.release(-usd@) is Some),
    {
        let usd_to_release = usd.magnitude();
        self.locked = true;
        let released = match self.release(usd_to_release) {
            Some(_) => true,
            None => {
                self.held = None;
                false
            },
        };
        self.update_total(usd);
        released
    }
}

} // verus!
