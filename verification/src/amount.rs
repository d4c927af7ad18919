//! Sign-tagged fixed-point amounts.
//!
//! An amount is a count of ten-thousandths of a unit, bounded in magnitude by
//! [`MAX_RAW`]. A [`CreditUsd`] is never negative, a [`DebtUsd`] is always
//! negative, and a [`Usd`] is one or the other.

use crate::decimal::{decimal_value, read_decimal};
use std::cmp::Ordering;
use vstd::prelude::*;
use vstd::std_specs::cmp::PartialOrdSpecImpl;

verus! {

/// Raw steps in one whole unit: amounts carry four fractional digits.
pub const SCALE: i64 = 10_000;

/// Largest magnitude of an amount, in whole units.
pub const MAX_UNITS: i64 = 14_000_000_000_000;

/// Largest magnitude of an amount, in raw steps (`MAX_UNITS * SCALE`).
pub const MAX_RAW: i64 = 140_000_000_000_000_000;

/// Why a value could not become an amount.
#[derive(Clone, Copy, Debug, PartialEq, Eq, Structural)]
pub enum AmountError {
    /// The text is no decimal number with at most four fractional digits.
    Malformed,
    /// The magnitude is larger than [`MAX_RAW`].
    OutOfRange,
}

/// An amount that is zero or more.
#[derive(Clone, Copy, Debug, PartialEq, Eq, Hash, Structural)]
pub struct CreditUsd {
    raw: i64,
}

/// An amount below zero.
#[derive(Clone, Copy, Debug, PartialEq, Eq, Hash, Structural)]
pub struct DebtUsd {
    raw: i64,
}

/// An amount of either sign; the variant is the sign.
#[derive(Clone, Copy, Debug, PartialEq, Eq, Hash, Structural)]
pub enum Usd {
    Debt(DebtUsd),
    Credit(CreditUsd),
}

impl View for CreditUsd {
    type V = int;

    /// The amount in raw steps.
    closed spec fn view(&self) -> int {
        self.raw as int
    }
}

impl View for DebtUsd {
    type V = int;

    /// The amount in raw steps; negative.
    closed spec fn view(&self) -> int {
        self.raw as int
    }
}

impl View for Usd {
    type V = int;

    /// The amount in raw steps.
    open spec fn view(&self) -> int {
        match *self {
            Usd::Debt(d) => d@,
            Usd::Credit(c) => c@,
        }
    }
}

/// Whether an amount can be `v` raw steps.
pub open spec fn within_bound(v: int) -> bool {
    -(MAX_RAW as int) <= v <= MAX_RAW as int
}

/// The whole units in `v` raw steps, rounded towards zero.
pub open spec fn whole_part(v: int) -> int {
    if v >= 0 {
        v / (SCALE as int)
    } else {
        -((-v) / (SCALE as int))
    }
}

/// The raw steps of `v` beyond its whole units; it has the sign of `v`.
pub open spec fn fraction_part(v: int) -> int {
    if v >= 0 {
        v % (SCALE as int)
    } else {
        -((-v) % (SCALE as int))
    }
}

/// What a count of whole units becomes as an amount, in raw steps.
pub open spec fn units_value(units: int) -> Result<int, AmountError> {
    if -(MAX_UNITS as int) <= units <= MAX_UNITS as int {
        Ok(units * SCALE)
    } else {
        Err(AmountError::OutOfRange)
    }
}

/// What the text `s` becomes as an amount, in raw steps: the value of the
/// decimal text, refused where it is no decimal text or passes the bound.
pub open spec fn text_value(s: Seq<char>) -> Result<int, AmountError> {
    match decimal_value(s) {
        None => Err(AmountError::Malformed),
        Some(v) => if within_bound(v) {
            Ok(v)
        } else {
            Err(AmountError::OutOfRange)
        },
    }
}

/// The result of a conversion, with the amount taken by its view.
pub open spec fn converted(r: Result<Usd, AmountError>) -> Result<int, AmountError> {
    match r {
        Ok(u) => Ok(u@),
        Err(e) => Err(e),
    }
}

impl CreditUsd {
    #[verifier::type_invariant]
    pub open spec fn in_range(self) -> bool {
        0 <= self@ <= MAX_RAW
    }

    /// The credit of nothing.
    pub fn zero() -> (r: CreditUsd)
        ensures
            r@ == 0,
    {
        CreditUsd { raw: 0 }
    }

    /// The amount in raw steps.
    pub fn raw(&self) -> (r: i64)
        ensures
            r == self@,
            0 <= r <= MAX_RAW,
    {
        proof {
            use_type_invariant(self);
        }
        self.raw
    }

    /// The sum of two credits, unless it passes the bound.
    pub fn checked_add(self, rhs: CreditUsd) -> (r: Option<CreditUsd>)
        ensures
            r is Some <==> self@ + rhs@ <= MAX_RAW,
            r matches Some(c) ==> c@ == self@ + rhs@,
    {
        proof {
            use_type_invariant(&self);
            use_type_invariant(&rhs);
        }
        let sum: i64 = self.raw + rhs.raw;
        if sum <= MAX_RAW {
            Some(CreditUsd { raw: sum })
        } else {
            None
        }
    }

    /// The credit with the magnitude of `debt` taken away. The result is
    /// negative when the debt is the larger of the two; it never passes the
    /// bound.
    pub fn less(self, debt: DebtUsd) -> (r: Usd)
        ensures
            r@ == self@ + debt@,
            r is Credit <==> self@ + debt@ >= 0,
    {
        proof {
            use_type_invariant(&self);
            use_type_invariant(&debt);
        }
        Usd::from_bounded(self.raw + debt.raw)
    }
}

impl DebtUsd {
    #[verifier::type_invariant]
    pub open spec fn in_range(self) -> bool {
        -(MAX_RAW as int) <= self@ < 0
    }

    /// The amount in raw steps.
    pub fn raw(&self) -> (r: i64)
        ensures
            r == self@,
            -MAX_RAW <= r < 0,
    {
        proof {
            use_type_invariant(self);
        }
        self.raw
    }

    /// The sum of two debts, unless it passes the bound.
    pub fn checked_add(self, rhs: DebtUsd) -> (r: Option<DebtUsd>)
        ensures
            r is Some <==> self@ + rhs@ >= -MAX_RAW,
            r matches Some(d) ==> d@ == self@ + rhs@,
    {
        proof {
            use_type_invariant(&self);
            use_type_invariant(&rhs);
        }
        let sum: i64 = self.raw + rhs.raw;
        if sum >= -MAX_RAW {
            Some(DebtUsd { raw: sum })
        } else {
            None
        }
    }

    /// What is owed: the debt without its sign.
    pub fn magnitude(self) -> (r: CreditUsd)
        ensures
            r@ == -self@,
    {
        proof {
            use_type_invariant(&self);
        }
        CreditUsd { raw: -self.raw }
    }

    /// The debt with `credit` paid into it. The result is a credit when the
    /// payment covers the debt; it never passes the bound.
    pub fn plus(self, credit: CreditUsd) -> (r: Usd)
        ensures
            r@ == self@ + credit@,
            r is Credit <==> self@ + credit@ >= 0,
    {
        proof {
            use_type_invariant(&self);
            use_type_invariant(&credit);
        }
        Usd::from_bounded(self.raw + credit.raw)
    }
}

impl Usd {
    /// Whether the amount is within the bound and on the side of zero that
    /// its variant names. Every amount that the program holds is.
    pub open spec fn in_range(self) -> bool {
        match self {
            Usd::Debt(d) => d.in_range(),
            Usd::Credit(c) => c.in_range(),
        }
    }

    /// The amount of `raw` steps, tagged by its sign.
    fn from_bounded(raw: i64) -> (r: Usd)
        requires
            within_bound(raw as int),
        ensures
            r@ == raw,
            r is Credit <==> raw >= 0,
    {
        if raw >= 0 {
            Usd::Credit(CreditUsd { raw })
        } else {
            Usd::Debt(DebtUsd { raw })
        }
    }

    /// The amount in raw steps.
    pub fn raw(&self) -> (r: i64)
        ensures
            r == self@,
            within_bound(r as int),
            self is Credit <==> r >= 0,
    {
        match self {
            Usd::Debt(d) => d.raw(),
            Usd::Credit(c) => c.raw(),
        }
    }

    /// The amount as a credit, if it is zero or more.
    pub fn credit(self) -> (r: Option<CreditUsd>)
        ensures
            r is Some <==> self@ >= 0,
            r is Some <==> self is Credit,
            r matches Some(c) ==> c@ == self@ && self == Usd::Credit(c),
    {
        match self {
            Usd::Credit(c) => {
                proof {
                    use_type_invariant(&c);
                }
                Some(c)
            },
            Usd::Debt(d) => {
                proof {
                    use_type_invariant(&d);
                }
                None
            },
        }
    }

    /// The amount as a debt, if it is below zero.
    pub fn debt(self) -> (r: Option<DebtUsd>)
        ensures
            r is Some <==> self@ < 0,
            r is Some <==> self is Debt,
            r matches Some(d) ==> d@ == self@ && self == Usd::Debt(d),
    {
        match self {
            Usd::Credit(c) => {
                proof {
                    use_type_invariant(&c);
                }
                None
            },
            Usd::Debt(d) => {
                proof {
                    use_type_invariant(&d);
                }
                Some(d)
            },
        }
    }

    /// The amount of nothing: a credit.
    pub fn zero() -> (r: Usd)
        ensures
            r@ == 0,
            r is Credit,
    {
        Usd::Credit(CreditUsd::zero())
    }

    /// The sum of two amounts, unless its magnitude passes the bound. The
    /// sum is a credit when it is zero or more.
    pub fn checked_add(self, rhs: Usd) -> (r: Option<Usd>)
        ensures
            r is Some <==> within_bound(self@ + rhs@),
            r matches Some(u) ==> u@ == self@ + rhs@ && (u is Credit <==> self@ + rhs@ >= 0),
    {
        let sum: i64 = self.raw() + rhs.raw();
        if -MAX_RAW <= sum && sum <= MAX_RAW {
            Some(Usd::from_bounded(sum))
        } else {
            None
        }
    }

    /// The amount with its sign turned: the same magnitude, a credit for a
    /// debt and, but for zero, a debt for a credit. The bound holds for both
    /// signs alike, so this never fails.
    pub fn negated(self) -> (r: Usd)
        ensures
            r@ == -self@,
            r is Credit <==> self@ <= 0,
    {
        Usd::from_bounded(-self.raw())
    }

    /// The amount of `units` whole units, refused where it passes the bound.
    pub fn try_from_int(units: i128) -> (r: Result<Usd, AmountError>)
        ensures
            converted(r) == units_value(units as int),
            r matches Ok(u) ==> (u is Credit <==> units >= 0),
    {
        if units < -(MAX_UNITS as i128) || units > MAX_UNITS as i128 {
            Err(AmountError::OutOfRange)
        } else {
            let whole: i64 = units as i64;
            Ok(Usd::from_bounded(whole * SCALE))
        }
    }

    /// The amount that the decimal text `s` writes: an optional sign, the
    /// whole digits, and at most four fractional digits behind a point.
    /// Fewer fractional digits count as if zeros followed them.
    pub fn try_from_str(s: &str) -> (r: Result<Usd, AmountError>)
        ensures
            converted(r) == text_value(s@),
            r matches Ok(u) ==> (u is Credit <==> u@ >= 0),
    {
        match read_decimal(s, MAX_RAW as u64) {
            None => Err(AmountError::Malformed),
            Some((magnitude, negative)) => {
                if magnitude > MAX_RAW as u64 {
                    Err(AmountError::OutOfRange)
                } else if negative {
                    Ok(Usd::from_bounded(-(magnitude as i64)))
                } else {
                    Ok(Usd::from_bounded(magnitude as i64))
                }
            },
        }
    }

    /// The whole units, the raw steps beyond them, and the raw steps in one
    /// unit. The first two have the sign of the amount.
    pub fn to_parts(self) -> (r: (i128, i128, u128))
        ensures
            r.0 == whole_part(self@),
            r.1 == fraction_part(self@),
            r.2 == SCALE,
    {
        let raw: i64 = self.raw();
        if raw >= 0 {
            ((raw / SCALE) as i128, (raw % SCALE) as i128, SCALE as u128)
        } else {
            let magnitude: i64 = -raw;
            (-((magnitude / SCALE) as i128), -((magnitude % SCALE) as i128), SCALE as u128)
        }
    }
}

/// The order of two numbers.
pub open spec fn order_of(a: int, b: int) -> Ordering {
    if a < b {
        Ordering::Less
    } else if a == b {
        Ordering::Equal
    } else {
        Ordering::Greater
    }
}

/// The order of two numbers of the machine.
fn order(a: i64, b: i64) -> (r: Ordering)
    ensures
        a < b ==> r == Ordering::Less,
        a == b ==> r == Ordering::Equal,
        a > b ==> r == Ordering::Greater,
{
    if a < b {
        Ordering::Less
    } else if a == b {
        Ordering::Equal
    } else {
        Ordering::Greater
    }
}

impl PartialOrd for CreditUsd {
    /// Credits are ordered as their values are.
    fn partial_cmp(&self, other: &CreditUsd) -> (r: Option<Ordering>) {
        Some(order(self.raw(), other.raw()))
    }
}

impl PartialOrdSpecImpl for CreditUsd {
    open spec fn obeys_partial_cmp_spec() -> bool {
        true
    }

    open spec fn partial_cmp_spec(&self, other: &CreditUsd) -> Option<Ordering> {
        Some(order_of(self@, other@))
    }
}

impl PartialOrd for DebtUsd {
    /// Debts are ordered as their values are: the larger debt is the lesser.
    fn partial_cmp(&self, other: &DebtUsd) -> (r: Option<Ordering>) {
        Some(order(self.raw(), other.raw()))
    }
}

impl PartialOrdSpecImpl for DebtUsd {
    open spec fn obeys_partial_cmp_spec() -> bool {
        true
    }

    open spec fn partial_cmp_spec(&self, other: &DebtUsd) -> Option<Ordering> {
        Some(order_of(self@, other@))
    }
}

impl PartialOrd for Usd {
    /// Amounts are ordered as their values are, every debt below every
    /// credit.
    fn partial_cmp(&self, other: &Usd) -> (r: Option<Ordering>) {
        Some(order(self.raw(), other.raw()))
    }
}

impl PartialOrdSpecImpl for Usd {
    open spec fn obeys_partial_cmp_spec() -> bool {
        true
    }

    open spec fn partial_cmp_spec(&self, other: &Usd) -> Option<Ordering> {
        Some(order_of(self@, other@))
    }
}

/// Two credits are equal exactly where their values are.
pub proof fn lemma_credit_by_value(a: CreditUsd, b: CreditUsd)
    ensures
        a == b <==> a@ == b@,
{
}

/// Two debts are equal exactly where their values are.
pub proof fn lemma_debt_by_value(a: DebtUsd, b: DebtUsd)
    ensures
        a == b <==> a@ == b@,
{
}

/// Two amounts that stand each on its side of zero are equal exactly where
/// their values are.
pub proof fn lemma_usd_by_value(a: Usd, b: Usd)
    requires
        a.in_range(),
        b.in_range(),
    ensures
        a == b <==> a@ == b@,
{
}

} // verus!
