//! Monetary amounts.
//!
//! An [`Amount`] holds the three parts of a `decimal_rs::Decimal`: the unsigned
//! integer digits, the scale (a positive scale is a negative power of ten) and
//! the sign. All arithmetic and comparisons are delegated to `decimal_rs`.
//!
//! Mathematically an amount stands for the rational number
//! `(-1)^negative * int_val * 10^(-scale)`. Since scales never exceed
//! [`MAX_SCALE`], that number is an integer multiple of `10^(-MAX_SCALE)`;
//! [`parts_value`] gives the integer count of those units, so that sums and
//! comparisons of amounts become sums and comparisons of integers.
use decimal_rs::Decimal;
use vstd::prelude::*;

verus! {

/// Largest digit string a decimal holds: 38 nines.
pub const MAX_INT_VAL: u128 = 99999999999999999999999999999999999999;

/// Smallest scale of a decimal (`decimal_rs::MIN_SCALE`).
pub const MIN_SCALE: i16 = -126;

/// Largest scale that `Decimal::from_parts` accepts
/// (`decimal_rs::MAX_SCALE + decimal_rs::MAX_PRECISION - 1`).
pub const MAX_SCALE: i16 = 167;

/// `10^n`.
pub open spec fn pow10(n: nat) -> int
    decreases n,
{
    if n == 0 {
        1
    } else {
        10 * pow10((n - 1) as nat)
    }
}

/// The parts `(int_val, scale, negative)` describe a decimal as `decimal_rs`
/// holds it: at most 38 digits, a scale in range, and zero only as
/// `(0, 0, false)` (`Decimal::from_parts` turns every zero into `Decimal::ZERO`).
pub open spec fn parts_valid(p: (u128, i16, bool)) -> bool {
    &&& p.0 <= MAX_INT_VAL
    &&& MIN_SCALE <= p.1 <= MAX_SCALE
    &&& p.0 == 0 ==> (!p.2 && p.1 == 0)
}

/// The number that the parts stand for, counted in units of `10^(-MAX_SCALE)`.
pub open spec fn parts_value(p: (u128, i16, bool)) -> int {
    let magnitude = p.0 * pow10((MAX_SCALE - p.1) as nat);
    if p.2 {
        -magnitude
    } else {
        magnitude
    }
}

/// The larger of the two scales.
pub open spec fn common_scale(a: (u128, i16, bool), b: (u128, i16, bool)) -> int {
    if a.1 >= b.1 {
        a.1 as int
    } else {
        b.1 as int
    }
}

/// The number `x` (in units of `10^(-MAX_SCALE)`), written at the larger scale
/// of `a` and `b`, needs at most 38 digits; the two scales are at most 38
/// apart and the larger one lies in `[-88, 130)`. Under this condition
/// `decimal_rs` adds and subtracts `a` and `b` without rounding.
pub open spec fn fits_at_common_scale(a: (u128, i16, bool), b: (u128, i16, bool), x: int) -> bool {
    let s = common_scale(a, b);
    let bound = pow10((MAX_SCALE + 38 - s) as nat);
    &&& -38 <= a.1 - b.1 <= 38
    &&& -88 <= s < 130
    &&& -bound < x < bound
}

/// What `decimal_rs::Decimal::checked_add` returns, as parts, for the decimals
/// with parts `a` and `b`.
pub uninterp spec fn decimal_checked_add(a: (u128, i16, bool), b: (u128, i16, bool)) -> Option<
    (u128, i16, bool),
>;

/// What `decimal_rs::Decimal::checked_sub` returns, as parts, for the decimals
/// with parts `a` and `b`.
pub uninterp spec fn decimal_checked_sub(a: (u128, i16, bool), b: (u128, i16, bool)) -> Option<
    (u128, i16, bool),
>;

/// Keeps only results whose parts describe a decimal.
pub open spec fn valid_result(r: Option<(u128, i16, bool)>) -> Option<(u128, i16, bool)> {
    match r {
        Some(p) => if parts_valid(p) {
            Some(p)
        } else {
            None
        },
        None => None,
    }
}

/// The digits of the parts as a signed integer.
pub open spec fn signed_digits(p: (u128, i16, bool)) -> int {
    if p.2 {
        -(p.0 as int)
    } else {
        p.0 as int
    }
}

/// The signed digit string of the parts' number written at scale `s`
/// (for `s` not below the parts' own scale).
pub open spec fn digits_at(p: (u128, i16, bool), s: int) -> int {
    signed_digits(p) * pow10((s - p.1) as nat)
}

/// The parts with signed digit string `k` at scale `s`; zero is `(0, 0, false)`.
pub open spec fn parts_at(k: int, s: int) -> (u128, i16, bool) {
    if k == 0 {
        zero_parts()
    } else {
        ((if k < 0 {
            -k
        } else {
            k
        }) as u128, s as i16, k < 0)
    }
}

/// The parts `decimal_rs` gives for `a + b` where no rounding occurs: where
/// the signs differ and one operand is zero, the other operand unchanged;
/// otherwise the exact sum at the larger scale.
pub open spec fn exact_add_parts(a: (u128, i16, bool), b: (u128, i16, bool)) -> (u128, i16, bool) {
    let s = common_scale(a, b);
    if a.2 != b.2 && b.0 == 0 {
        a
    } else if a.2 != b.2 && a.0 == 0 {
        b
    } else {
        parts_at(digits_at(a, s) + digits_at(b, s), s)
    }
}

/// The parts `decimal_rs` gives for `a - b` where no rounding occurs: where
/// the signs agree and `b` is zero, `a` unchanged; where they agree and `a`
/// is zero, `b` negated; otherwise the exact difference at the larger scale.
pub open spec fn exact_sub_parts(a: (u128, i16, bool), b: (u128, i16, bool)) -> (u128, i16, bool) {
    let s = common_scale(a, b);
    if a.2 == b.2 && b.0 == 0 {
        a
    } else if a.2 == b.2 && a.0 == 0 {
        (b.0, b.1, !b.2)
    } else {
        parts_at(digits_at(a, s) - digits_at(b, s), s)
    }
}

/// `10^(m + n) == 10^m * 10^n`.
pub proof fn lemma_pow10_add(m: nat, n: nat)
    ensures
        pow10(m + n) == pow10(m) * pow10(n),
        pow10(m) > 0,
    decreases m,
{
    if m > 0 {
        lemma_pow10_add((m - 1) as nat, n);
        let a = pow10((m - 1) as nat);
        let b = pow10(n);
        assert(10 * (a * b) == (10 * a) * b) by (nonlinear_arith);
        assert(pow10((m + n) as nat) == 10 * pow10((m - 1 + n) as nat));
    }
}

/// The value of the parts, at a scale `s` not below their own.
proof fn lemma_value_at(p: (u128, i16, bool), s: int)
    requires
        p.1 <= s <= MAX_SCALE,
    ensures
        parts_value(p) == digits_at(p, s) * pow10((MAX_SCALE - s) as nat),
{
    let e = (s - p.1) as nat;
    let m = (MAX_SCALE - s) as nat;
    lemma_pow10_add(e, m);
    assert((e + m) as nat == (MAX_SCALE - p.1) as nat);
    let pe = pow10(e);
    let pm = pow10(m);
    let d = p.0 as int;
    assert(d * (pe * pm) == (d * pe) * pm) by (nonlinear_arith);
    assert(-(d * (pe * pm)) == (-d * pe) * pm) by (nonlinear_arith);
}

/// `10^38`, one more than the largest digit string.
proof fn lemma_pow10_38()
    ensures
        pow10(38) == MAX_INT_VAL + 1,
{
    reveal_with_fuel(pow10, 39);
}

/// A digit string of at most 38 digits, at a scale in `[-88, 130)`, gives
/// valid parts with the intended value.
proof fn lemma_parts_at(k: int, s: int)
    requires
        -88 <= s < 130,
        -pow10(38) < k < pow10(38),
    ensures
        parts_valid(parts_at(k, s)),
        parts_value(parts_at(k, s)) == k * pow10((MAX_SCALE - s) as nat),
{
    lemma_pow10_38();
    let p = pow10((MAX_SCALE - s) as nat);
    if k < 0 {
        assert(-((-k) * p) == k * p) by (nonlinear_arith);
    }
}

/// Where `a (+/-) b` fits at the larger scale, the digit string at that scale
/// has at most 38 digits.
proof fn lemma_fits_digits(a: (u128, i16, bool), b: (u128, i16, bool), k: int)
    requires
        fits_at_common_scale(a, b, k * pow10((MAX_SCALE - common_scale(a, b)) as nat)),
    ensures
        -pow10(38) < k < pow10(38),
{
    let s = common_scale(a, b);
    let m = (MAX_SCALE - s) as nat;
    lemma_pow10_add(38, m);
    assert((38 + m) as nat == (MAX_SCALE + 38 - s) as nat);
    let p = pow10(m);
    let q = pow10(38);
    lemma_pow10_add(m, 0);
    assert(p > 0);
    assert(k * p < q * p ==> k < q) by (nonlinear_arith)
        requires
            p > 0,
    ;
    assert(-(q * p) < k * p ==> -q < k) by (nonlinear_arith)
        requires
            p > 0,
    ;
}

/// Where no rounding occurs, [`exact_add_parts`] has the value of the sum, and
/// describes a decimal when `a` and `b` do.
pub proof fn lemma_exact_add(a: (u128, i16, bool), b: (u128, i16, bool))
    requires
        fits_at_common_scale(a, b, parts_value(a) + parts_value(b)),
    ensures
        parts_value(exact_add_parts(a, b)) == parts_value(a) + parts_value(b),
        parts_valid(a) && parts_valid(b) ==> parts_valid(exact_add_parts(a, b)),
{
    let s = common_scale(a, b);
    if a.2 != b.2 && b.0 == 0 {
    } else if a.2 != b.2 && a.0 == 0 {
    } else {
        lemma_value_at(a, s);
        lemma_value_at(b, s);
        let p = pow10((MAX_SCALE - s) as nat);
        let da = digits_at(a, s);
        let db = digits_at(b, s);
        assert(da * p + db * p == (da + db) * p) by (nonlinear_arith);
        lemma_fits_digits(a, b, da + db);
        lemma_parts_at(da + db, s);
    }
}

/// Where no rounding occurs, [`exact_sub_parts`] has the value of the
/// difference, and describes a decimal when `a` and `b` do.
pub proof fn lemma_exact_sub(a: (u128, i16, bool), b: (u128, i16, bool))
    requires
        fits_at_common_scale(a, b, parts_value(a) - parts_value(b)),
    ensures
        parts_value(exact_sub_parts(a, b)) == parts_value(a) - parts_value(b),
        parts_valid(a) && parts_valid(b) ==> parts_valid(exact_sub_parts(a, b)),
{
    let s = common_scale(a, b);
    if a.2 == b.2 && b.0 == 0 {
    } else if a.2 == b.2 && a.0 == 0 {
    } else {
        lemma_value_at(a, s);
        lemma_value_at(b, s);
        let p = pow10((MAX_SCALE - s) as nat);
        let da = digits_at(a, s);
        let db = digits_at(b, s);
        assert(da * p - db * p == (da - db) * p) by (nonlinear_arith);
        lemma_fits_digits(a, b, da - db);
        lemma_parts_at(da - db, s);
    }
}

/// A decimal amount, held as its parts.
#[derive(Clone, Copy, Debug)]
pub struct Amount {
    int_val: u128,
    scale: i16,
    negative: bool,
}

impl View for Amount {
    type V = (u128, i16, bool);

    closed spec fn view(&self) -> (u128, i16, bool) {
        (self.int_val, self.scale, self.negative)
    }
}

/// The parts of zero.
pub open spec fn zero_parts() -> (u128, i16, bool) {
    (0u128, 0i16, false)
}

/// The parts of `a + b` as `decimal_rs` computes them, where they describe a
/// decimal: where no rounding occurs, [`exact_add_parts`].
pub open spec fn add_result(a: Amount, b: Amount) -> Option<(u128, i16, bool)> {
    if add_fits(a, b) {
        Some(exact_add_parts(a@, b@))
    } else {
        valid_result(decimal_checked_add(a@, b@))
    }
}

/// The parts of `a - b` as `decimal_rs` computes them, where they describe a
/// decimal: where no rounding occurs, [`exact_sub_parts`].
pub open spec fn sub_result(a: Amount, b: Amount) -> Option<(u128, i16, bool)> {
    if sub_fits(a, b) {
        Some(exact_sub_parts(a@, b@))
    } else {
        valid_result(decimal_checked_sub(a@, b@))
    }
}

/// `a + b` needs no rounding.
pub open spec fn add_fits(a: Amount, b: Amount) -> bool {
    fits_at_common_scale(a@, b@, a.value() + b.value())
}

/// `a - b` needs no rounding.
pub open spec fn sub_fits(a: Amount, b: Amount) -> bool {
    fits_at_common_scale(a@, b@, a.value() - b.value())
}

impl Amount {
    #[verifier::type_invariant]
    closed spec fn wf(self) -> bool {
        parts_valid(self@)
    }

    /// The number this amount stands for, in units of `10^(-MAX_SCALE)`.
    pub open spec fn value(self) -> int {
        parts_value(self@)
    }

    /// The amount whose parts are `p`.
    pub closed spec fn from_view(p: (u128, i16, bool)) -> Amount {
        Amount { int_val: p.0, scale: p.1, negative: p.2 }
    }

    /// The amount zero, as in `Decimal::ZERO`.
    pub open spec fn spec_zero() -> Amount {
        Amount::from_view(zero_parts())
    }

    /// Builds an amount from its parts; `None` where the parts describe no decimal.
    pub fn new(int_val: u128, scale: i16, negative: bool) -> (r: Option<Amount>)
        ensures
            r is Some <==> parts_valid((int_val, scale, negative)),
            r matches Some(a) ==> a@ == (int_val, scale, negative),
    {
        if int_val <= MAX_INT_VAL && MIN_SCALE <= scale && scale <= MAX_SCALE && (int_val != 0
            || (!negative && scale == 0)) {
            Some(Amount { int_val, scale, negative })
        } else {
            None
        }
    }

    /// Zero.
    pub fn zero() -> (r: Amount)
        ensures
            r == Amount::spec_zero(),
            r@ == zero_parts(),
            r.value() == 0,
    {
        Amount { int_val: 0, scale: 0, negative: false }
    }

    /// The digits.
    pub fn int_val(&self) -> (r: u128)
        ensures
            r == self@.0,
    {
        self.int_val
    }

    /// The scale.
    pub fn scale(&self) -> (r: i16)
        ensures
            r == self@.1,
    {
        self.scale
    }

    /// The sign.
    pub fn is_negative(&self) -> (r: bool)
        ensures
            r == self@.2,
    {
        self.negative
    }

    /// `self + other`, as `decimal_rs` computes it; `None` on overflow.
    pub fn checked_add(&self, other: &Amount) -> (r: Option<Amount>)
        ensures
            r is Some <==> add_result(*self, *other) is Some,
            r matches Some(c) ==> c@ == add_result(*self, *other)->0,
            add_fits(*self, *other) ==> (r is Some && r->0.value() == self.value() + other.value()),
    {
        proof {
            use_type_invariant(self);
            use_type_invariant(other);
            if add_fits(*self, *other) {
                lemma_exact_add(self@, other@);
            }
        }
        match decimal_add_parts(self, other) {
            Some(p) => Amount::new(p.0, p.1, p.2),
            None => None,
        }
    }

    /// `self - other`, as `decimal_rs` computes it; `None` on overflow.
    pub fn checked_sub(&self, other: &Amount) -> (r: Option<Amount>)
        ensures
            r is Some <==> sub_result(*self, *other) is Some,
            r matches Some(c) ==> c@ == sub_result(*self, *other)->0,
            sub_fits(*self, *other) ==> (r is Some && r->0.value() == self.value() - other.value()),
    {
        proof {
            use_type_invariant(self);
            use_type_invariant(other);
            if sub_fits(*self, *other) {
                lemma_exact_sub(self@, other@);
            }
        }
        match decimal_sub_parts(self, other) {
            Some(p) => Amount::new(p.0, p.1, p.2),
            None => None,
        }
    }

    /// `self > other`.
    pub fn gt(&self, other: &Amount) -> (r: bool)
        ensures
            r == (self.value() > other.value()),
    {
        proof {
            use_type_invariant(self);
            use_type_invariant(other);
        }
        decimal_gt(self, other)
    }
}

/// An amount is determined by its parts.
pub broadcast proof fn lemma_from_view(p: (u128, i16, bool))
    ensures
        #[trigger] Amount::from_view(p)@ == p,
{
}

/// An amount is the one built from its own parts.
pub broadcast proof fn lemma_view_determines(a: Amount)
    ensures
        #[trigger] Amount::from_view(a@) == a,
{
}

/// Where no rounding occurs, `a + b` is present and exact.
pub broadcast proof fn lemma_add_result(a: Amount, b: Amount)
    ensures
        add_fits(a, b) ==> #[trigger] add_result(a, b) is Some && parts_value(add_result(a, b)->0)
            == a.value() + b.value(),
{
    if add_fits(a, b) {
        lemma_exact_add(a@, b@);
    }
}

/// Where no rounding occurs, `a - b` is present and exact.
pub broadcast proof fn lemma_sub_result(a: Amount, b: Amount)
    ensures
        sub_fits(a, b) ==> #[trigger] sub_result(a, b) is Some && parts_value(sub_result(a, b)->0)
            == a.value() - b.value(),
{
    if sub_fits(a, b) {
        lemma_exact_sub(a@, b@);
    }
}

pub broadcast group group_amount {
    lemma_from_view,
    lemma_view_determines,
    lemma_add_result,
    lemma_sub_result,
}

/// Calls `decimal_rs::Decimal::checked_add` on the decimals with the parts of
/// `a` and `b` (`Decimal::from_parts` cannot fail on valid parts) and hands
/// back the parts of the result (`Decimal::into_parts`).
/// Claims: the result is the named `decimal_checked_add` of the parts; and,
/// as the source shows (digits are rescaled to the larger scale and rounded
/// only beyond 38 digits; a zero result is `Decimal::ZERO`; with differing
/// signs a zero operand returns the other operand unchanged), where the exact
/// sum fits in 38 digits at the larger scale, the result is
/// [`exact_add_parts`]. Rounding and overflow beyond that are left to the name.
#[verifier::external_body]
fn decimal_add_parts(a: &Amount, b: &Amount) -> (r: Option<(u128, i16, bool)>)
    requires
        parts_valid(a@),
        parts_valid(b@),
    ensures
        r == decimal_checked_add(a@, b@),
        fits_at_common_scale(a@, b@, parts_value(a@) + parts_value(b@)) ==> r == Some(
            exact_add_parts(a@, b@),
        ),
{
    let x = Decimal::from_parts(a.int_val, a.scale, a.negative).unwrap();
    let y = Decimal::from_parts(b.int_val, b.scale, b.negative).unwrap();
    match x.checked_add(y) {
        Some(d) => Some(d.into_parts()),
        None => None,
    }
}

/// Calls `decimal_rs::Decimal::checked_sub` on the decimals with the parts of
/// `a` and `b` and hands back the parts of the result.
/// Claims: the result is the named `decimal_checked_sub` of the parts; and,
/// as the source shows (with equal signs a zero `b` returns `a` unchanged and
/// a zero `a` returns `b` negated; otherwise as for addition), where the exact
/// difference fits in 38 digits at the larger scale, the result is
/// [`exact_sub_parts`]. Rounding and overflow beyond that are left to the name.
#[verifier::external_body]
fn decimal_sub_parts(a: &Amount, b: &Amount) -> (r: Option<(u128, i16, bool)>)
    requires
        parts_valid(a@),
        parts_valid(b@),
    ensures
        r == decimal_checked_sub(a@, b@),
        fits_at_common_scale(a@, b@, parts_value(a@) - parts_value(b@)) ==> r == Some(
            exact_sub_parts(a@, b@),
        ),
{
    let x = Decimal::from_parts(a.int_val, a.scale, a.negative).unwrap();
    let y = Decimal::from_parts(b.int_val, b.scale, b.negative).unwrap();
    match x.checked_sub(y) {
        Some(d) => Some(d.into_parts()),
        None => None,
    }
}

/// Calls `PartialOrd::gt` of `decimal_rs::Decimal` on the decimals with the
/// parts of `a` and `b`. Claims: the comparison is exact on the numbers the
/// parts stand for (its `cmp` compares signs, then digits rescaled to a common
/// scale).
#[verifier::external_body]
fn decimal_gt(a: &Amount, b: &Amount) -> (r: bool)
    requires
        parts_valid(a@),
        parts_valid(b@),
    ensures
        r == (parts_value(a@) > parts_value(b@)),
{
    let x = Decimal::from_parts(a.int_val, a.scale, a.negative).unwrap();
    let y = Decimal::from_parts(b.int_val, b.scale, b.negative).unwrap();
    x.gt(&y)
}

} // verus!
