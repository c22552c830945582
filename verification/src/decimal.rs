//! Fixed-point decimal numbers: a 96-bit mantissa and a power-of-ten scale,
//! the representation in which all prices, weights and indices are computed.
//!
//! The arithmetic itself is done by the `rust_decimal` crate; the library
//! models a value by its pair `(mantissa, scale)` and states what is known of
//! each operation over that pair.
use vstd::prelude::*;

verus! {

/// The largest scale a decimal can carry.
pub const MAX_SCALE: u32 = 28;

/// The largest magnitude of a mantissa: `2^96 - 1`.
pub const MAX_MANTISSA: i128 = 79228162514264337593543950335;

/// `10^n`.
pub open spec fn pow10(n: nat) -> int
    decreases n,
{
    if n == 0 {
        1
    } else {
        10 * pow10((n - 1) as nat)
    }
}

/// A representation `(mantissa, scale)` that a decimal can hold.
pub open spec fn repr_wf(r: (int, nat)) -> bool {
    &&& -MAX_MANTISSA <= r.0 <= MAX_MANTISSA
    &&& r.1 <= MAX_SCALE
}

/// The value of a representation, counted in units of `10^-28`:
/// `mantissa * 10^(28 - scale)`. Two decimals are equal as numbers exactly
/// when their `units` agree.
pub open spec fn units(r: (int, nat)) -> int {
    r.0 * pow10((MAX_SCALE - r.1) as nat)
}

pub open spec fn abs(x: int) -> int {
    if x < 0 {
        -x
    } else {
        x
    }
}

pub open spec fn max_nat(a: nat, b: nat) -> nat {
    if a < b {
        b
    } else {
        a
    }
}

/// The mantissas of `a` and `b` brought to their common (larger) scale and
/// added: the exact sum before any rounding.
pub open spec fn aligned_sum(a: (int, nat), b: (int, nat)) -> int {
    let s = max_nat(a.1, b.1);
    a.0 * pow10((s - a.1) as nat) + b.0 * pow10((s - b.1) as nat)
}

/// The exact sum of `a` and `b` fits in a mantissa at the larger scale.
pub open spec fn sum_fits(a: (int, nat), b: (int, nat)) -> bool {
    abs(aligned_sum(a, b)) <= MAX_MANTISSA
}

/// The exact product of `a` and `b` fits without reducing its scale.
pub open spec fn product_fits(a: (int, nat), b: (int, nat)) -> bool {
    &&& a.1 + b.1 <= MAX_SCALE
    &&& abs(a.0 * b.0) <= MAX_MANTISSA
}

/// The whole number from 0 to `max` that a representation denotes, if it
/// denotes one.
pub open spec fn whole_number(r: (int, nat), max: int) -> Option<int> {
    if r.0 >= 0 && r.0 % pow10(r.1) == 0 && r.0 / pow10(r.1) <= max {
        Some(r.0 / pow10(r.1))
    } else {
        None
    }
}

/// What `rust_decimal`'s `checked_add` returns for two representations.
pub uninterp spec fn decimal_checked_sum(a: (int, nat), b: (int, nat)) -> Option<(int, nat)>;

/// What `rust_decimal`'s `checked_mul` returns for two representations.
pub uninterp spec fn decimal_checked_product(a: (int, nat), b: (int, nat)) -> Option<(int, nat)>;

/// What `rust_decimal`'s `checked_div` returns for two representations.
pub uninterp spec fn decimal_checked_quotient(a: (int, nat), b: (int, nat)) -> Option<(int, nat)>;

/// `r` rounded to `dp` decimal places, half to even: unchanged where it has
/// no more places; otherwise its magnitude is divided by `10^(scale - dp)`
/// and the quotient rounded up where the remainder is more than half, or
/// exactly half with an odd quotient; the sign is kept.
pub open spec fn rounded(r: (int, nat), dp: nat) -> (int, nat) {
    if r.1 <= dp {
        r
    } else {
        let p = pow10((r.1 - dp) as nat);
        let q = abs(r.0) / p;
        let rem = abs(r.0) % p;
        let q2 = if 2 * rem > p || (2 * rem == p && q % 2 == 1) {
            q + 1
        } else {
            q
        };
        (
            if r.0 < 0 {
                -q2
            } else {
                q2
            },
            dp,
        )
    }
}

/// The exact sum of `a` and `b` at their larger scale, as `rust_decimal`
/// represents it when it fits.
pub open spec fn exact_sum(a: (int, nat), b: (int, nat)) -> (int, nat) {
    (aligned_sum(a, b), max_nat(a.1, b.1))
}

/// The sum of `a` and `b` as `rust_decimal` represents it when it fits: the
/// other operand where one is zero, otherwise the exact sum at the larger
/// scale.
pub open spec fn fitted_sum(a: (int, nat), b: (int, nat)) -> (int, nat) {
    if a.0 == 0 {
        b
    } else if b.0 == 0 {
        a
    } else {
        exact_sum(a, b)
    }
}

/// The exact product of `a` and `b`, as `rust_decimal` represents it when it
/// fits: zero at scale zero where a factor is zero.
pub open spec fn exact_product(a: (int, nat), b: (int, nat)) -> (int, nat) {
    if a.0 == 0 || b.0 == 0 {
        (0, 0)
    } else {
        (a.0 * b.0, a.1 + b.1)
    }
}

/// A decimal number `mantissa / 10^scale`, with `|mantissa| < 2^96` and
/// `scale <= 28`.
#[derive(Clone, Copy, Debug)]
pub struct Dec {
    mantissa: i128,
    scale: u32,
}

impl View for Dec {
    type V = (int, nat);

    closed spec fn view(&self) -> (int, nat) {
        (self.mantissa as int, self.scale as nat)
    }
}

pub open spec fn opt_view(o: Option<Dec>) -> Option<(int, nat)> {
    match o {
        Some(d) => Some(d@),
        None => None,
    }
}

/// The representation of zero that `rust_decimal` produces.
pub open spec fn zero_repr() -> (int, nat) {
    (0, 0)
}

/// The representation of one.
pub open spec fn one_repr() -> (int, nat) {
    (1, 0)
}

/// The decimal type of the `rust_decimal` crate, carried through the calls
/// that do the arithmetic.
#[verifier::external_type_specification]
#[verifier::external_body]
pub struct ExtRustDecimal(rust_decimal::Decimal);

/// `rust_decimal::Decimal::from_i128_with_scale`: the outside crate's
/// decimal with this mantissa and scale. It panics only for a mantissa or a
/// scale out of range, which the precondition rules out. Nothing is claimed
/// of the result: it is only handed on to the calls below, whose contracts
/// speak of the representation it was made from.
#[verifier::external_body]
fn to_outside(d: Dec) -> (r: rust_decimal::Decimal)
    requires
        repr_wf(d@),
{
    rust_decimal::Decimal::from_i128_with_scale(d.mantissa, d.scale)
}

/// `rust_decimal::Decimal::checked_add`. Claims: the result is the named
/// outcome of the two representations; when the exact sum of two non-zero
/// operands fits at the larger scale it is returned at that scale without
/// rounding; adding to a zero gives the second operand back unchanged, and
/// adding a zero to a non-zero gives the first operand back unchanged.
#[verifier::external_body]
fn outside_checked_add(a: Dec, b: Dec) -> (r: Option<Dec>)
    requires
        repr_wf(a@),
        repr_wf(b@),
    ensures
        opt_view(r) == decimal_checked_sum(a@, b@),
        r is Some ==> repr_wf(r->0@),
        sum_fits(a@, b@) ==> (r is Some && units(r->0@) == units(a@) + units(b@)),
        a@.0 != 0 && b@.0 != 0 && sum_fits(a@, b@) ==> (r is Some && r->0@ == exact_sum(a@, b@)),
        a@.0 == 0 ==> (r is Some && r->0@ == b@),
        a@.0 != 0 && b@.0 == 0 ==> (r is Some && r->0@ == a@),
{
    match to_outside(a).checked_add(to_outside(b)) {
        Some(d) => Some(Dec { mantissa: d.mantissa(), scale: d.scale() }),
        None => None,
    }
}

/// `rust_decimal::Decimal::checked_mul`. Claims: the result is the named
/// outcome of the two representations; when the exact product fits without
/// reducing the scale it is returned without rounding: mantissas multiplied
/// and scales added, or zero at scale zero where a factor is zero.
#[verifier::external_body]
fn outside_checked_mul(a: Dec, b: Dec) -> (r: Option<Dec>)
    requires
        repr_wf(a@),
        repr_wf(b@),
    ensures
        opt_view(r) == decimal_checked_product(a@, b@),
        r is Some ==> repr_wf(r->0@),
        product_fits(a@, b@) ==> (r is Some && units(r->0@) == a@.0 * b@.0 * pow10(
            (MAX_SCALE - a@.1 - b@.1) as nat,
        )),
        product_fits(a@, b@) ==> (r is Some && r->0@ == exact_product(a@, b@)),
{
    match to_outside(a).checked_mul(to_outside(b)) {
        Some(d) => Some(Dec { mantissa: d.mantissa(), scale: d.scale() }),
        None => None,
    }
}

/// `rust_decimal::Decimal::checked_div`. Claims: the result is the named
/// outcome of the two representations; dividing by zero gives `None`;
/// dividing zero by anything else gives zero; a non-zero divisor whose scale
/// is at most the dividend's always gives a result (the quotient's scale
/// never has to drop below zero); and a non-zero dividend that is an exact
/// multiple of the divisor's mantissa, at a scale at least the divisor's,
/// gives that multiple at the difference of the scales. How another
/// quotient is rounded to 28 significant places is left to the name.
#[verifier::external_body]
fn outside_checked_div(a: Dec, b: Dec) -> (r: Option<Dec>)
    requires
        repr_wf(a@),
        repr_wf(b@),
    ensures
        opt_view(r) == decimal_checked_quotient(a@, b@),
        r is Some ==> repr_wf(r->0@),
        b@.0 == 0 ==> r is None,
        (a@.0 == 0 && b@.0 != 0) ==> (r is Some && r->0@ == zero_repr()),
        (b@.0 != 0 && a@.1 >= b@.1) ==> r is Some,
        (a@.0 != 0 && b@.0 != 0 && a@.0 % b@.0 == 0 && a@.1 >= b@.1) ==> (r is Some && r->0@ == (
            a@.0 / b@.0,
            (a@.1 - b@.1) as nat,
        )),
{
    match to_outside(a).checked_div(to_outside(b)) {
        Some(d) => Some(Dec { mantissa: d.mantissa(), scale: d.scale() }),
        None => None,
    }
}

/// `rust_decimal::Decimal::round_dp`. Claims: the result is the
/// representation rounded half to even to `dp` places (`rounded`): unchanged
/// where it has no more places than asked.
#[verifier::external_body]
fn outside_round_dp(d: Dec, dp: u32) -> (r: Dec)
    requires
        repr_wf(d@),
    ensures
        r@ == rounded(d@, dp as nat),
        repr_wf(r@),
{
    let rounded = to_outside(d).round_dp(dp);
    Dec { mantissa: rounded.mantissa(), scale: rounded.scale() }
}

/// `PartialEq::eq` of `rust_decimal::Decimal`. Claims: two decimals compare
/// equal exactly when they denote the same number.
#[verifier::external_body]
fn outside_eq(a: Dec, b: Dec) -> (r: bool)
    requires
        repr_wf(a@),
        repr_wf(b@),
    ensures
        r == (units(a@) == units(b@)),
{
    to_outside(a) == to_outside(b)
}

impl Dec {
    #[verifier::type_invariant]
    spec fn well_formed(self) -> bool {
        repr_wf(self@)
    }

    /// States that the representation is within bounds, as it is for every
    /// decimal; it does nothing when run.
    pub fn lemma_wf(&self)
        ensures
            repr_wf(self@),
    {
        proof {
            use_type_invariant(self);
        }
    }

    /// `num / 10^scale`.
    pub fn new(num: i64, scale: u32) -> (r: Dec)
        requires
            scale <= MAX_SCALE,
        ensures
            r@ == (num as int, scale as nat),
    {
        Dec { mantissa: num as i128, scale }
    }

    /// The decimal `mantissa / 10^scale`, or `None` when the pair is out of
    /// range.
    pub fn from_parts(mantissa: i128, scale: u32) -> (r: Option<Dec>)
        ensures
            r is Some <==> repr_wf((mantissa as int, scale as nat)),
            r matches Some(d) ==> d@ == (mantissa as int, scale as nat),
    {
        if scale <= MAX_SCALE && -MAX_MANTISSA <= mantissa && mantissa <= MAX_MANTISSA {
            Some(Dec { mantissa, scale })
        } else {
            None
        }
    }

    /// A whole number of things, at scale zero.
    pub fn from_count(n: usize) -> (r: Dec)
        ensures
            r@ == (n as int, 0nat),
    {
        assert(n <= u64::MAX);
        Dec { mantissa: n as i128, scale: 0 }
    }

    pub fn zero() -> (r: Dec)
        ensures
            r@ == zero_repr(),
    {
        Dec { mantissa: 0, scale: 0 }
    }

    pub fn one() -> (r: Dec)
        ensures
            r@ == one_repr(),
    {
        Dec { mantissa: 1, scale: 0 }
    }

    pub fn mantissa(&self) -> (r: i128)
        ensures
            r == self@.0,
    {
        self.mantissa
    }

    pub fn scale(&self) -> (r: u32)
        ensures
            r == self@.1,
    {
        self.scale
    }

    pub fn is_zero(&self) -> (r: bool)
        ensures
            r == (self@.0 == 0),
            r == (units(self@) == 0),
    {
        proof {
            use_type_invariant(self);
            lemma_pow10_positive((MAX_SCALE - self@.1) as nat);
            lemma_units_zero(self@);
        }
        self.mantissa == 0
    }

    /// `self + other`, or `None` where the sum overflows.
    pub fn checked_add(self, other: Dec) -> (r: Option<Dec>)
        ensures
            opt_view(r) == decimal_checked_sum(self@, other@),
            sum_fits(self@, other@) ==> (r is Some && units(r->0@) == units(self@) + units(
                other@,
            )),
            self@.0 != 0 && other@.0 != 0 && sum_fits(self@, other@) ==> (r is Some && r->0@
                == exact_sum(self@, other@)),
            self@.0 == 0 ==> (r is Some && r->0@ == other@),
            self@.0 != 0 && other@.0 == 0 ==> (r is Some && r->0@ == self@),
            sum_fits(self@, other@) ==> (r is Some && r->0@ == fitted_sum(self@, other@)),
    {
        proof {
            use_type_invariant(&self);
            use_type_invariant(&other);
        }
        outside_checked_add(self, other)
    }

    /// `self * other`, or `None` where the product overflows.
    pub fn checked_mul(self, other: Dec) -> (r: Option<Dec>)
        ensures
            opt_view(r) == decimal_checked_product(self@, other@),
            product_fits(self@, other@) ==> (r is Some && units(r->0@) == self@.0 * other@.0
                * pow10((MAX_SCALE - self@.1 - other@.1) as nat)),
            product_fits(self@, other@) ==> (r is Some && r->0@ == exact_product(self@, other@)),
    {
        proof {
            use_type_invariant(&self);
            use_type_invariant(&other);
        }
        outside_checked_mul(self, other)
    }

    /// `self / other`, or `None` where `other` is zero or the quotient
    /// overflows.
    pub fn checked_div(self, other: Dec) -> (r: Option<Dec>)
        ensures
            opt_view(r) == decimal_checked_quotient(self@, other@),
            other@.0 == 0 ==> r is None,
            (self@.0 == 0 && other@.0 != 0) ==> (r is Some && r->0@ == zero_repr()),
            (other@.0 != 0 && self@.1 >= other@.1) ==> r is Some,
            (self@.0 != 0 && other@.0 != 0 && self@.0 % other@.0 == 0 && self@.1 >= other@.1) ==> (
            r is Some && r->0@ == (self@.0 / other@.0, (self@.1 - other@.1) as nat)),
    {
        proof {
            use_type_invariant(&self);
            use_type_invariant(&other);
        }
        outside_checked_div(self, other)
    }

    /// The whole number from 0 to `max` that this decimal denotes, if it
    /// denotes one.
    pub fn to_whole(&self, max: u64) -> (r: Option<u64>)
        ensures
            match whole_number(self@, max as int) {
                Some(n) => r matches Some(v) && v as int == n,
                None => r is None,
            },
    {
        proof {
            use_type_invariant(self);
        }
        if self.mantissa < 0 {
            return None;
        }
        let m = self.mantissa as u128;
        let p = pow10_u128(self.scale);
        proof {
            lemma_pow10_positive(self.scale as nat);
        }
        if m % p != 0 {
            return None;
        }
        let q = m / p;
        if q > max as u128 {
            None
        } else {
            Some(q as u64)
        }
    }

    /// This decimal rounded to `dp` decimal places, half to even.
    pub fn round_dp(&self, dp: u32) -> (r: Dec)
        ensures
            r@ == rounded(self@, dp as nat),
    {
        proof {
            use_type_invariant(self);
        }
        outside_round_dp(*self, dp)
    }

    /// Whether the two decimals denote the same number.
    pub fn same_value(&self, other: &Dec) -> (r: bool)
        ensures
            r == (units(self@) == units(other@)),
    {
        proof {
            use_type_invariant(self);
            use_type_invariant(other);
        }
        outside_eq(*self, *other)
    }
}

impl PartialEq for Dec {
    fn eq(&self, other: &Dec) -> (r: bool) {
        self.same_value(other)
    }
}

impl vstd::std_specs::cmp::PartialEqSpecImpl for Dec {
    open spec fn obeys_eq_spec() -> bool {
        true
    }

    open spec fn eq_spec(&self, other: &Dec) -> bool {
        units(self@) == units(other@)
    }
}

/// `10^n` for a scale `n`.
fn pow10_u128(n: u32) -> (r: u128)
    requires
        n <= MAX_SCALE,
    ensures
        r == pow10(n as nat),
{
    let mut r: u128 = 1;
    let mut k: u32 = 0;
    while k < n
        invariant
            k <= n <= MAX_SCALE,
            r == pow10(k as nat),
        decreases n - k,
    {
        proof {
            lemma_pow10_monotone((k + 1) as nat, MAX_SCALE as nat);
            lemma_pow10_scale_bound();
        }
        r = r * 10;
        k += 1;
    }
    r
}

proof fn lemma_pow10_scale_bound()
    ensures
        pow10(MAX_SCALE as nat) == 10000000000000000000000000000,
{
    reveal_with_fuel(pow10, 30);
}

pub proof fn lemma_pow10_monotone(a: nat, b: nat)
    requires
        a <= b,
    ensures
        pow10(a) <= pow10(b),
    decreases b,
{
    if a < b {
        lemma_pow10_monotone(a, (b - 1) as nat);
        lemma_pow10_positive((b - 1) as nat);
    }
}

pub proof fn lemma_pow10_add(a: nat, b: nat)
    ensures
        pow10(a + b) == pow10(a) * pow10(b),
    decreases a,
{
    if a > 0 {
        lemma_pow10_add((a - 1) as nat, b);
        let x = pow10((a - 1) as nat);
        let y = pow10(b);
        assert(10 * (x * y) == (10 * x) * y) by (nonlinear_arith);
    }
}

/// A product that keeps its places: its units, scaled up by `10^28`, are
/// the units of the factors multiplied.
pub proof fn lemma_product_units(a: (int, nat), b: (int, nat), p: (int, nat))
    requires
        product_fits(a, b),
        units(p) == a.0 * b.0 * pow10((MAX_SCALE - a.1 - b.1) as nat),
    ensures
        units(p) * pow10(MAX_SCALE as nat) == units(a) * units(b),
{
    let k = (MAX_SCALE - a.1 - b.1) as nat;
    let pa = pow10((MAX_SCALE - a.1) as nat);
    let pb = pow10((MAX_SCALE - b.1) as nat);
    let pk = pow10(k);
    let p28 = pow10(MAX_SCALE as nat);
    lemma_pow10_add(k, MAX_SCALE as nat);
    lemma_pow10_add((MAX_SCALE - a.1) as nat, (MAX_SCALE - b.1) as nat);
    assert(((MAX_SCALE - a.1) as nat + (MAX_SCALE - b.1) as nat) == k + MAX_SCALE);
    assert(pa * pb == pk * p28);
    let x = a.0;
    let y = b.0;
    assert((x * y * pk) * p28 == (x * pa) * (y * pb)) by (nonlinear_arith)
        requires
            pa * pb == pk * p28,
    ;
}

pub proof fn lemma_pow10_positive(n: nat)
    ensures
        pow10(n) >= 1,
    decreases n,
{
    if n > 0 {
        lemma_pow10_positive((n - 1) as nat);
    }
}

/// A decimal is zero exactly when its mantissa is.
pub proof fn lemma_units_zero(r: (int, nat))
    ensures
        (units(r) == 0) <==> (r.0 == 0),
{
    let p = pow10((MAX_SCALE - r.1) as nat);
    lemma_pow10_positive((MAX_SCALE - r.1) as nat);
    if r.0 != 0 {
        assert(r.0 * p != 0) by (nonlinear_arith)
            requires
                r.0 != 0,
                p >= 1,
        ;
    }
}

/// The sum of two optional decimals; `None` where either is `None` or the
/// sum overflows.
pub open spec fn opt_sum(a: Option<(int, nat)>, b: Option<(int, nat)>) -> Option<(int, nat)> {
    match (a, b) {
        (Some(x), Some(y)) => decimal_checked_sum(x, y),
        _ => None,
    }
}

/// An optional decimal divided by `d`; `None` where it is `None` or the
/// quotient cannot be held.
pub open spec fn opt_quotient(a: Option<(int, nat)>, d: (int, nat)) -> Option<(int, nat)> {
    match a {
        Some(x) => decimal_checked_quotient(x, d),
        None => None,
    }
}

/// The sum of two optional decimals.
pub fn add_opt(a: Option<Dec>, b: Option<Dec>) -> (r: Option<Dec>)
    ensures
        opt_view(r) == opt_sum(opt_view(a), opt_view(b)),
{
    match (a, b) {
        (Some(x), Some(y)) => x.checked_add(y),
        _ => None,
    }
}

/// An optional decimal divided by `d`.
pub fn div_opt(a: Option<Dec>, d: Dec) -> (r: Option<Dec>)
    ensures
        opt_view(r) == opt_quotient(opt_view(a), d@),
{
    match a {
        Some(x) => x.checked_div(d),
        None => None,
    }
}

} // verus!
