use vstd::prelude::*;

verus! {

/// The number type that the controllers, vectors, matrices and filters of
/// this crate compute with.
///
/// Each operation is stated by a spec function of the implementing type, so
/// that a contract can say exactly which sequence of operations a routine
/// performs (and in which order), whatever the rounding or wrapping of the
/// type is.
pub trait Scalar: Copy + Sized {
    /// The additive identity.
    spec fn zero_spec() -> Self;

    /// The multiplicative identity.
    spec fn one_spec() -> Self;

    /// `a + b` in this type.
    spec fn plus_spec(a: Self, b: Self) -> Self;

    /// `a - b` in this type.
    spec fn minus_spec(a: Self, b: Self) -> Self;

    /// `a * b` in this type.
    spec fn times_spec(a: Self, b: Self) -> Self;

    /// `a / b` in this type (only asked where `divides(a, b)` holds).
    spec fn divide_spec(a: Self, b: Self) -> Self;

    /// Whether this type can compute `a / b`: integers cannot divide by
    /// zero, floating-point numbers can divide by anything.
    spec fn divides(a: Self, b: Self) -> bool;

    /// The absolute value.
    spec fn abs_spec(a: Self) -> Self;

    /// Whether `a` compares equal to zero.
    spec fn is_zero_spec(a: Self) -> bool;

    /// Whether `a > b`.
    spec fn greater_spec(a: Self, b: Self) -> bool;

    /// Whether `a` is a finite number.
    spec fn is_finite_spec(a: Self) -> bool;

    /// A value greater than zero does not compare equal to zero.
    proof fn lemma_positive_is_nonzero(a: Self)
        requires
            Self::greater_spec(a, Self::zero_spec()),
        ensures
            !Self::is_zero_spec(a),
    ;

    /// Every type can divide by a value that is not zero.
    proof fn lemma_nonzero_divides(a: Self, b: Self)
        requires
            !Self::is_zero_spec(b),
        ensures
            Self::divides(a, b),
    ;

    fn zero() -> (r: Self)
        ensures
            r == Self::zero_spec(),
    ;

    fn one() -> (r: Self)
        ensures
            r == Self::one_spec(),
    ;

    fn plus(self, rhs: Self) -> (r: Self)
        ensures
            r == Self::plus_spec(self, rhs),
    ;

    fn minus(self, rhs: Self) -> (r: Self)
        ensures
            r == Self::minus_spec(self, rhs),
    ;

    fn times(self, rhs: Self) -> (r: Self)
        ensures
            r == Self::times_spec(self, rhs),
    ;

    fn divide(self, rhs: Self) -> (r: Self)
        requires
            Self::divides(self, rhs),
        ensures
            r == Self::divide_spec(self, rhs),
    ;

    fn abs(self) -> (r: Self)
        ensures
            r == Self::abs_spec(self),
    ;

    fn is_zero(self) -> (r: bool)
        ensures
            r == Self::is_zero_spec(self),
    ;

    fn greater(self, rhs: Self) -> (r: bool)
        ensures
            r == Self::greater_spec(self, rhs),
    ;

    fn is_finite(self) -> (r: bool)
        ensures
            r == Self::is_finite_spec(self),
    ;
}

/// Truncating signed division that wraps on `i64::MIN / -1`, as
/// `i64::wrapping_div` does.
pub open spec fn i64_quotient(a: i64, b: i64) -> i64 {
    match a.checked_div(b) {
        Some(q) => q,
        None => i64::MIN,
    }
}

/// Absolute value that wraps on `i64::MIN`, as `i64::wrapping_abs` does.
pub open spec fn i64_magnitude(a: i64) -> i64 {
    if a == i64::MIN {
        i64::MIN
    } else if a < 0 {
        (-a) as i64
    } else {
        a
    }
}

/// Two's-complement integers with wrapping arithmetic.
impl Scalar for i64 {
    open spec fn zero_spec() -> Self {
        0
    }

    open spec fn one_spec() -> Self {
        1
    }

    open spec fn plus_spec(a: Self, b: Self) -> Self {
        vstd::wrapping::i64_specs::wrapping_add(a, b)
    }

    open spec fn minus_spec(a: Self, b: Self) -> Self {
        vstd::wrapping::i64_specs::wrapping_sub(a, b)
    }

    open spec fn times_spec(a: Self, b: Self) -> Self {
        vstd::wrapping::i64_specs::wrapping_mul(a, b)
    }

    open spec fn divide_spec(a: Self, b: Self) -> Self {
        i64_quotient(a, b)
    }

    open spec fn divides(a: Self, b: Self) -> bool {
        b != 0
    }

    open spec fn abs_spec(a: Self) -> Self {
        i64_magnitude(a)
    }

    open spec fn is_zero_spec(a: Self) -> bool {
        a == 0
    }

    open spec fn greater_spec(a: Self, b: Self) -> bool {
        a > b
    }

    open spec fn is_finite_spec(a: Self) -> bool {
        true
    }

    proof fn lemma_positive_is_nonzero(a: Self) {
    }

    proof fn lemma_nonzero_divides(a: Self, b: Self) {
    }

    fn zero() -> (r: Self) {
        0
    }

    fn one() -> (r: Self) {
        1
    }

    fn plus(self, rhs: Self) -> (r: Self) {
        self.wrapping_add(rhs)
    }

    fn minus(self, rhs: Self) -> (r: Self) {
        self.wrapping_sub(rhs)
    }

    fn times(self, rhs: Self) -> (r: Self) {
        self.wrapping_mul(rhs)
    }

    fn divide(self, rhs: Self) -> (r: Self) {
        match self.checked_div(rhs) {
            Some(q) => q,
            None => i64::MIN,
        }
    }

    fn abs(self) -> (r: Self) {
        if self == i64::MIN {
            i64::MIN
        } else if self < 0 {
            -self
        } else {
            self
        }
    }

    fn is_zero(self) -> (r: bool) {
        self == 0
    }

    fn greater(self, rhs: Self) -> (r: bool) {
        self > rhs
    }

    fn is_finite(self) -> (r: bool) {
        true
    }
}

} // verus!
