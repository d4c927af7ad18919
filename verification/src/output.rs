//! The summary of an account, and how it is written out.

use crate::amount::{fraction_part, whole_part, CreditUsd, DebtUsd, Usd, SCALE};
use crate::decimal::{decimal_digits, decimal_string};
use crate::engine::client::AccountState;
use crate::engine::Client;
use vstd::prelude::*;
use vstd::std_specs::convert::FromSpecImpl;
use vstd::string::*;

verus! {

/// An amount in parts: the whole units, the raw steps beyond them, and the
/// raw steps in one unit.
#[derive(Clone, Copy, Debug, PartialEq, Eq)]
pub struct Fixed(pub i128, pub i128, pub u128);

/// `v` without its sign.
pub open spec fn magnitude_of(v: int) -> nat {
    if v < 0 {
        (-v) as nat
    } else {
        v as nat
    }
}

/// The parts of an amount of `v` raw steps.
pub open spec fn fixed_of(v: int) -> Fixed {
    Fixed(whole_part(v) as i128, fraction_part(v) as i128, SCALE as u128)
}

/// `v` without its sign.
fn magnitude(v: i128) -> (r: u128)
    ensures
        r == magnitude_of(v as int),
{
    if v >= 0 {
        v as u128
    } else {
        // One less than the magnitude always has a negation.
        (-(v + 1)) as u128 + 1
    }
}

impl Fixed {
    /// The text of the amount: the whole units without a sign, a point, and
    /// a tenth of the steps beyond them, without a sign and rounded down.
    pub open spec fn text(self) -> Seq<char> {
        decimal_digits(magnitude_of(self.0 as int)) + seq!['.'] + decimal_digits(
            magnitude_of(self.1 as int) / 10,
        )
    }

    pub fn format(&self) -> (s: String)
        ensures
            s@ == self.text(),
    {
        let mut s = decimal_string(magnitude(self.0));
        s.append(".");
        s.append(decimal_string(magnitude(self.1) / 10).as_str());
        proof {
            reveal_strlit(".");
        }
        s
    }
}

impl From<Usd> for Fixed {
    fn from(usd: Usd) -> (r: Fixed) {
        let (a, b, c) = usd.to_parts();
        Fixed(a, b, c)
    }
}

impl FromSpecImpl<Usd> for Fixed {
    open spec fn obeys_from_spec() -> bool {
        true
    }

    open spec fn from_spec(usd: Usd) -> Fixed {
        fixed_of(usd@)
    }
}

impl From<DebtUsd> for Fixed {
    fn from(usd: DebtUsd) -> (r: Fixed) {
        let (a, b, c) = Usd::Debt(usd).to_parts();
        Fixed(a, b, c)
    }
}

impl FromSpecImpl<DebtUsd> for Fixed {
    open spec fn obeys_from_spec() -> bool {
        true
    }

    open spec fn from_spec(usd: DebtUsd) -> Fixed {
        fixed_of(usd@)
    }
}

impl From<CreditUsd> for Fixed {
    fn from(usd: CreditUsd) -> (r: Fixed) {
        let (a, b, c) = Usd::Credit(usd).to_parts();
        Fixed(a, b, c)
    }
}

impl FromSpecImpl<CreditUsd> for Fixed {
    open spec fn obeys_from_spec() -> bool {
        true
    }

    open spec fn from_spec(usd: CreditUsd) -> Fixed {
        fixed_of(usd@)
    }
}

/// The summary of one account.
#[derive(Clone, Copy, Debug, PartialEq, Eq)]
pub struct OutputRow {
    pub available: Fixed,
    pub held: Fixed,
    pub total: Fixed,
    pub locked: bool,
}

/// The summary of an account: what is available, what is held or nothing,
/// and as the total the overflow where a chargeback left one, else the total.
pub open spec fn summary(account: AccountState) -> OutputRow {
    OutputRow {
        available: fixed_of(account.available()),
        held: match account.held {
            None => Fixed(0, 0, 0),
            Some(h) => fixed_of(h),
        },
        total: match account.overflow {
            None => fixed_of(account.total),
            Some(o) => fixed_of(o),
        },
        locked: account.locked,
    }
}

/// The text of a flag.
pub open spec fn flag_text(b: bool) -> Seq<char> {
    if b {
        "true"@
    } else {
        "false"@
    }
}

impl OutputRow {
    /// The line that names the columns.
    pub fn header() -> (s: &'static str)
        ensures
            s@ == "client,available,held,total,locked"@,
    {
        "client,available,held,total,locked"
    }

    /// The line of the account `id`: the id, what is available, what is held,
    /// the total and the lock, with commas between them.
    pub open spec fn line_text(self, id: u16) -> Seq<char> {
        decimal_digits(id as nat) + seq![','] + self.available.text() + seq![','] + self.held.text()
            + seq![','] + self.total.text() + seq![','] + flag_text(self.locked)
    }

    pub fn line(&self, id: &u16) -> (s: String)
        ensures
            s@ == self.line_text(*id),
    {
        proof {
            reveal_strlit(",");
        }
        let mut s = decimal_string(*id as u128);
        s.append(",");
        s.append(self.available.format().as_str());
        s.append(",");
        s.append(self.held.format().as_str());
        s.append(",");
        s.append(self.total.format().as_str());
        s.append(",");
        if self.locked {
            s.append("true");
        } else {
            s.append("false");
        }
        s
    }
}

impl From<&Client> for OutputRow {
    fn from(client: &Client) -> (r: Self) {
        let available: Fixed = Fixed::from(client.avaiable_amount());
        let held: Fixed = match client.held {
            None => Fixed(0, 0, 0),
            Some(held) => Fixed::from(held),
        };
        let total: Fixed = match client.overflow {
            None => Fixed::from(client.total),
            Some(held) => Fixed::from(held),
        };
        OutputRow { available, held, total, locked: client.locked }
    }
}

impl FromSpecImpl<&Client> for OutputRow {
    open spec fn obeys_from_spec() -> bool {
        true
    }

    open spec fn from_spec(client: &Client) -> OutputRow {
        summary(client@)
    }
}

} // verus!
