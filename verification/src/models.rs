//! Small position models, with decimal quantities and values.

use vstd::prelude::*;

use rust_decimal::Decimal;

verus! {

/// Bought and sold quantities of one instrument.
#[derive(Debug, Clone, Copy, Default, PartialEq, Eq, Structural)]
pub struct QuantityMatch {
    pub buy: i64,
    pub sell: i64,
}

impl QuantityMatch {
    /// Bought and sold quantities agree.
    pub fn is_equal(&self) -> (r: bool)
        ensures
            r == (self.buy == self.sell),
    {
        self.buy == self.sell
    }

    /// Bought minus sold.
    pub fn not_matched(&self) -> (r: i64)
        requires
            i64::MIN <= self.buy - self.sell <= i64::MAX,
        ensures
            r == self.buy - self.sell,
    {
        self.buy - self.sell
    }
}

// ─── Decimal numbers ─────────────────────────────────────────────────────────

/// Largest magnitude of a decimal mantissa (96 bits).
pub const MAX_MANTISSA: i128 = 0xFFFF_FFFF_FFFF_FFFF_FFFF_FFFFi128;

/// Largest decimal scale.
pub const MAX_SCALE: u32 = 28;

/// A decimal number `mantissa · 10^-scale`, with a 96-bit mantissa and a scale of
/// at most 28: the values the outside decimal type can hold.
#[derive(Debug, Clone, Copy)]
pub struct Dec {
    mantissa: i128,
    scale: u32,
}

pub open spec fn pow10(n: nat) -> int
    decreases n,
{
    if n == 0 {
        1
    } else {
        10 * pow10((n - 1) as nat)
    }
}

/// The sum of two decimals as the outside decimal type computes it (`None` on overflow).
pub uninterp spec fn decimal_add(a: Dec, b: Dec) -> Option<Dec>;

/// The difference of two decimals as the outside decimal type computes it (`None` on overflow).
pub uninterp spec fn decimal_sub(a: Dec, b: Dec) -> Option<Dec>;

/// The product of two decimals as the outside decimal type computes it (`None` on overflow).
pub uninterp spec fn decimal_mul(a: Dec, b: Dec) -> Option<Dec>;

/// The quotient of two decimals as the outside decimal type computes it (`None` on a
/// zero divisor or overflow).
pub uninterp spec fn decimal_div(a: Dec, b: Dec) -> Option<Dec>;

impl Dec {
    #[verifier::type_invariant]
    spec fn in_range(&self) -> bool {
        &&& self.scale <= MAX_SCALE
        &&& -MAX_MANTISSA <= self.mantissa <= MAX_MANTISSA
    }

    pub closed spec fn spec_mantissa(&self) -> i128 {
        self.mantissa
    }

    pub closed spec fn spec_scale(&self) -> u32 {
        self.scale
    }

    /// `mantissa · 10^-scale`, or `None` when the scale exceeds 28 or the
    /// mantissa exceeds 96 bits.
    pub fn try_new(mantissa: i128, scale: u32) -> (r: Option<Dec>)
        ensures
            (scale <= MAX_SCALE && -MAX_MANTISSA <= mantissa <= MAX_MANTISSA) ==> (r matches Some(d)
                && d.spec_mantissa() == mantissa && d.spec_scale() == scale),
            !(scale <= MAX_SCALE && -MAX_MANTISSA <= mantissa <= MAX_MANTISSA) ==> r is None,
    {
        if scale <= MAX_SCALE && -MAX_MANTISSA <= mantissa && mantissa <= MAX_MANTISSA {
            Some(Dec { mantissa, scale })
        } else {
            None
        }
    }

    /// Zero (scale 0).
    pub fn zero() -> (r: Dec)
        ensures
            r == dec_zero(),
            r.spec_mantissa() == 0 && r.spec_scale() == 0,
    {
        Dec { mantissa: 0, scale: 0 }
    }

    /// A whole number.
    pub fn from_int(n: i64) -> (r: Dec)
        ensures
            r.spec_mantissa() == n && r.spec_scale() == 0,
    {
        assert(-MAX_MANTISSA <= n <= MAX_MANTISSA);
        Dec { mantissa: n as i128, scale: 0 }
    }

    pub fn mantissa(&self) -> (r: i128)
        ensures
            r == self.spec_mantissa(),
    {
        self.mantissa
    }

    pub fn scale(&self) -> (r: u32)
        ensures
            r == self.spec_scale(),
    {
        self.scale
    }

    /// Strictly above zero.
    pub fn is_positive(&self) -> (r: bool)
        ensures
            r == (self.spec_mantissa() > 0),
    {
        self.mantissa > 0
    }

    /// Absolute value: the sign dropped, the scale kept.
    pub fn abs(&self) -> (r: Dec)
        ensures
            r == dec_abs(*self),
            r.spec_scale() == self.spec_scale(),
            r.spec_mantissa() == (if self.spec_mantissa() < 0 {
                -self.spec_mantissa()
            } else {
                self.spec_mantissa() as int
            }),
    {
        proof {
            use_type_invariant(self);
        }
        if self.mantissa < 0 {
            Dec { mantissa: -self.mantissa, scale: self.scale }
        } else {
            *self
        }
    }
}

/// Zero with scale 0.
pub closed spec fn dec_zero() -> Dec {
    Dec { mantissa: 0, scale: 0 }
}

/// Absolute value (scale kept).
pub closed spec fn dec_abs(d: Dec) -> Dec {
    Dec {
        mantissa: if d.mantissa < 0 {
            (-d.mantissa) as i128
        } else {
            d.mantissa
        },
        scale: d.scale,
    }
}

/// A position with all quantities and values zero.
pub open spec fn flat_position(symbol: String) -> BasicPosition {
    BasicPosition {
        symbol,
        buy_quantity: dec_zero(),
        sell_quantity: dec_zero(),
        buy_value: dec_zero(),
        sell_value: dec_zero(),
    }
}

/// `a < b` as numbers.
pub open spec fn dec_less(a: Dec, b: Dec) -> bool {
    a.spec_mantissa() * pow10(b.spec_scale() as nat) < b.spec_mantissa() * pow10(a.spec_scale() as nat)
}

/// The larger of two decimals; `a` when they are equal as numbers.
pub open spec fn dec_max(a: Dec, b: Dec) -> Dec {
    if dec_less(a, b) {
        b
    } else {
        a
    }
}

/// `Decimal::checked_add` on the two numbers.
#[verifier::external_body]
fn checked_add(a: Dec, b: Dec) -> (r: Option<Dec>)
    ensures
        r == decimal_add(a, b),
{
    let x = Decimal::from_i128_with_scale(a.mantissa, a.scale);
    let y = Decimal::from_i128_with_scale(b.mantissa, b.scale);
    match x.checked_add(y) {
        Some(d) => Some(Dec { mantissa: d.mantissa(), scale: d.scale() }),
        None => None,
    }
}

/// `Decimal::checked_sub` on the two numbers.
#[verifier::external_body]
fn checked_sub(a: Dec, b: Dec) -> (r: Option<Dec>)
    ensures
        r == decimal_sub(a, b),
{
    let x = Decimal::from_i128_with_scale(a.mantissa, a.scale);
    let y = Decimal::from_i128_with_scale(b.mantissa, b.scale);
    match x.checked_sub(y) {
        Some(d) => Some(Dec { mantissa: d.mantissa(), scale: d.scale() }),
        None => None,
    }
}

/// `Decimal::checked_mul` on the two numbers.
#[verifier::external_body]
fn checked_mul(a: Dec, b: Dec) -> (r: Option<Dec>)
    ensures
        r == decimal_mul(a, b),
{
    let x = Decimal::from_i128_with_scale(a.mantissa, a.scale);
    let y = Decimal::from_i128_with_scale(b.mantissa, b.scale);
    match x.checked_mul(y) {
        Some(d) => Some(Dec { mantissa: d.mantissa(), scale: d.scale() }),
        None => None,
    }
}

/// `Decimal::checked_div` on the two numbers.
#[verifier::external_body]
fn checked_div(a: Dec, b: Dec) -> (r: Option<Dec>)
    ensures
        r == decimal_div(a, b),
{
    let x = Decimal::from_i128_with_scale(a.mantissa, a.scale);
    let y = Decimal::from_i128_with_scale(b.mantissa, b.scale);
    match x.checked_div(y) {
        Some(d) => Some(Dec { mantissa: d.mantissa(), scale: d.scale() }),
        None => None,
    }
}

/// `Decimal`'s `<`: numeric order of the two numbers.
#[verifier::external_body]
fn less(a: Dec, b: Dec) -> (r: bool)
    ensures
        r == dec_less(a, b),
{
    let x = Decimal::from_i128_with_scale(a.mantissa, a.scale);
    let y = Decimal::from_i128_with_scale(b.mantissa, b.scale);
    x < y
}

/// Sum; `None` on overflow.
pub fn dec_checked_add(a: Dec, b: Dec) -> (r: Option<Dec>)
    ensures
        r == decimal_add(a, b),
{
    checked_add(a, b)
}

/// Difference; `None` on overflow.
pub fn dec_checked_sub(a: Dec, b: Dec) -> (r: Option<Dec>)
    ensures
        r == decimal_sub(a, b),
{
    checked_sub(a, b)
}

/// Product; `None` on overflow.
pub fn dec_checked_mul(a: Dec, b: Dec) -> (r: Option<Dec>)
    ensures
        r == decimal_mul(a, b),
{
    checked_mul(a, b)
}

/// Quotient; `None` on a zero divisor or overflow.
pub fn dec_checked_div(a: Dec, b: Dec) -> (r: Option<Dec>)
    ensures
        r == decimal_div(a, b),
{
    checked_div(a, b)
}

/// The larger of two decimals (`a` on a tie), as `Decimal::max` picks it.
pub fn dec_larger(a: Dec, b: Dec) -> (r: Dec)
    ensures
        r == dec_max(a, b),
{
    if less(a, b) {
        b
    } else {
        a
    }
}

// ─── Positions ───────────────────────────────────────────────────────────────

/// Bought and sold quantity and value of one symbol.
#[derive(Debug, Clone)]
pub struct BasicPosition {
    pub symbol: String,
    pub buy_quantity: Dec,
    pub sell_quantity: Dec,
    pub buy_value: Dec,
    pub sell_value: Dec,
}


/// What `average_buy_value` answers: value over quantity when the value is
/// positive, else zero (`None` when that division fails).
pub open spec fn average_buy(p: BasicPosition) -> Option<Dec> {
    if p.buy_value.spec_mantissa() > 0 {
        decimal_div(p.buy_value, p.buy_quantity)
    } else {
        Some(dec_zero())
    }
}

/// What `average_sell_value` answers: value over quantity when the quantity is
/// positive, else zero (`None` when that division fails).
pub open spec fn average_sell(p: BasicPosition) -> Option<Dec> {
    if p.sell_quantity.spec_mantissa() > 0 {
        decimal_div(p.sell_value, p.sell_quantity)
    } else {
        Some(dec_zero())
    }
}

impl BasicPosition {
    /// A flat position on `symbol`.
    pub fn new(symbol: &str) -> (r: Self)
        ensures
            r.symbol@ == symbol@,
            r.buy_quantity == dec_zero(),
            r.sell_quantity == dec_zero(),
            r.buy_value == dec_zero(),
            r.sell_value == dec_zero(),
    {
        BasicPosition {
            symbol: String::from_str(symbol),
            buy_quantity: Dec::zero(),
            sell_quantity: Dec::zero(),
            buy_value: Dec::zero(),
            sell_value: Dec::zero(),
        }
    }

    /// Bought minus sold quantity.
    pub fn net_quantity(&self) -> (r: Dec)
        requires
            decimal_sub(self.buy_quantity, self.sell_quantity) is Some,
        ensures
            Some(r) == decimal_sub(self.buy_quantity, self.sell_quantity),
    {
        checked_sub(self.buy_quantity, self.sell_quantity).unwrap()
    }

    /// Bought minus sold quantity; `None` where that subtraction overflows.
    pub fn checked_net_quantity(&self) -> (r: Option<Dec>)
        ensures
            r == decimal_sub(self.buy_quantity, self.sell_quantity),
    {
        match checked_sub(self.buy_quantity, self.sell_quantity) {
            Some(_) => Some(self.net_quantity()),
            None => None,
        }
    }

    /// Average buy price: buy value over buy quantity when the buy value is
    /// positive, else zero.
    pub fn average_buy_value(&self) -> (r: Dec)
        requires
            average_buy(*self) is Some,
        ensures
            Some(r) == average_buy(*self),
    {
        if self.buy_value.is_positive() {
            checked_div(self.buy_value, self.buy_quantity).unwrap()
        } else {
            Dec::zero()
        }
    }

    /// [`BasicPosition::average_buy_value`]; `None` where the division fails.
    pub fn checked_average_buy_value(&self) -> (r: Option<Dec>)
        ensures
            r == average_buy(*self),
    {
        if self.buy_value.is_positive() && checked_div(self.buy_value, self.buy_quantity).is_none() {
            None
        } else {
            Some(self.average_buy_value())
        }
    }

    /// Average sell price: sell value over sell quantity when the sell quantity is
    /// positive, else zero.
    pub fn average_sell_value(&self) -> (r: Dec)
        requires
            average_sell(*self) is Some,
        ensures
            Some(r) == average_sell(*self),
    {
        if self.sell_quantity.is_positive() {
            checked_div(self.sell_value, self.sell_quantity).unwrap()
        } else {
            Dec::zero()
        }
    }

    /// [`BasicPosition::average_sell_value`]; `None` where the division fails.
    pub fn checked_average_sell_value(&self) -> (r: Option<Dec>)
        ensures
            r == average_sell(*self),
    {
        if self.sell_quantity.is_positive() && checked_div(self.sell_value, self.sell_quantity).is_none() {
            None
        } else {
            Some(self.average_sell_value())
        }
    }
}

} // verus!
