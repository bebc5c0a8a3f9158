use crate::scalar::Scalar;
use vstd::prelude::*;
use vstd::std_specs::ops::{AddSpecImpl, DivSpecImpl, MulSpecImpl, SubSpecImpl};

verus! {

#[derive(Debug, Clone, Copy, PartialEq, Eq)]
pub struct Vec2<T> {
    pub x: T,
    pub y: T,
}

#[derive(Debug, Clone, Copy, PartialEq, Eq)]
pub struct Vec3<T> {
    pub x: T,
    pub y: T,
    pub z: T,
}

#[derive(Debug, Clone, Copy, PartialEq, Eq)]
pub struct Rect<T> {
    pub min: Vec2<T>,
    pub max: Vec2<T>,
}

#[derive(Debug, Clone, Copy, PartialEq, Eq)]
pub enum Axis {
    X,
    Y,
}

/// A millimeter in 0..32767 mm. 1 m = 1000 mm.
pub type Mm = i16;

impl<T> Vec2<T> {
    pub fn new(x: T, y: T) -> (r: Self)
        ensures
            r == (Vec2 { x, y }),
    {
        Self { x, y }
    }
}

impl<T: Default> Default for Vec2<T> {
    fn default() -> Self {
        Self { x: T::default(), y: T::default() }
    }
}

impl<T: Scalar> Vec2<T> {
    pub fn zero() -> (r: Self)
        ensures
            r == (Vec2 { x: T::zero_spec(), y: T::zero_spec() }),
    {
        Self { x: T::zero(), y: T::zero() }
    }
}

impl<T> Vec3<T> {
    pub fn new(x: T, y: T, z: T) -> (r: Self)
        ensures
            r == (Vec3 { x, y, z }),
    {
        Self { x, y, z }
    }

    /// Drops the `z` component, projecting onto the XY plane.
    pub fn xy(self) -> (r: Vec2<T>)
        ensures
            r == (Vec2 { x: self.x, y: self.y }),
    {
        Vec2::new(self.x, self.y)
    }
}

impl<T: Default> Default for Vec3<T> {
    fn default() -> Self {
        Self { x: T::default(), y: T::default(), z: T::default() }
    }
}

impl<T: Scalar> Vec3<T> {
    pub fn zero() -> (r: Self)
        ensures
            r == (Vec3 { x: T::zero_spec(), y: T::zero_spec(), z: T::zero_spec() }),
    {
        Self { x: T::zero(), y: T::zero(), z: T::zero() }
    }
}

// ---------------------------------------------------------------------------
// Componentwise arithmetic on `Vec2`.
// ---------------------------------------------------------------------------

impl<T: Scalar> core::ops::Add for Vec2<T> {
    type Output = Vec2<T>;

    fn add(self, rhs: Self) -> (r: Self::Output)
        ensures
            r.x == T::plus_spec(self.x, rhs.x),
            r.y == T::plus_spec(self.y, rhs.y),
    {
        Vec2::new(self.x.plus(rhs.x), self.y.plus(rhs.y))
    }
}

impl<T: Scalar> AddSpecImpl for Vec2<T> {
    open spec fn obeys_add_spec() -> bool {
        true
    }

    open spec fn add_req(self, rhs: Self) -> bool {
        true
    }

    open spec fn add_spec(self, rhs: Self) -> Vec2<T> {
        Vec2 { x: T::plus_spec(self.x, rhs.x), y: T::plus_spec(self.y, rhs.y) }
    }
}

impl<T: Scalar> core::ops::Sub for Vec2<T> {
    type Output = Vec2<T>;

    fn sub(self, rhs: Self) -> (r: Self::Output)
        ensures
            r.x == T::minus_spec(self.x, rhs.x),
            r.y == T::minus_spec(self.y, rhs.y),
    {
        Vec2::new(self.x.minus(rhs.x), self.y.minus(rhs.y))
    }
}

impl<T: Scalar> SubSpecImpl for Vec2<T> {
    open spec fn obeys_sub_spec() -> bool {
        true
    }

    open spec fn sub_req(self, rhs: Self) -> bool {
        true
    }

    open spec fn sub_spec(self, rhs: Self) -> Vec2<T> {
        Vec2 { x: T::minus_spec(self.x, rhs.x), y: T::minus_spec(self.y, rhs.y) }
    }
}

impl<T: Scalar> core::ops::Mul for Vec2<T> {
    type Output = Vec2<T>;

    fn mul(self, rhs: Self) -> (r: Self::Output)
        ensures
            r.x == T::times_spec(self.x, rhs.x),
            r.y == T::times_spec(self.y, rhs.y),
    {
        Vec2::new(self.x.times(rhs.x), self.y.times(rhs.y))
    }
}

impl<T: Scalar> MulSpecImpl for Vec2<T> {
    open spec fn obeys_mul_spec() -> bool {
        true
    }

    open spec fn mul_req(self, rhs: Self) -> bool {
        true
    }

    open spec fn mul_spec(self, rhs: Self) -> Vec2<T> {
        Vec2 { x: T::times_spec(self.x, rhs.x), y: T::times_spec(self.y, rhs.y) }
    }
}

impl<T: Scalar> core::ops::Mul<T> for Vec2<T> {
    type Output = Vec2<T>;

    fn mul(self, rhs: T) -> (r: Self::Output)
        ensures
            r.x == T::times_spec(self.x, rhs),
            r.y == T::times_spec(self.y, rhs),
    {
        Vec2::new(self.x.times(rhs), self.y.times(rhs))
    }
}

impl<T: Scalar> MulSpecImpl<T> for Vec2<T> {
    open spec fn obeys_mul_spec() -> bool {
        true
    }

    open spec fn mul_req(self, rhs: T) -> bool {
        true
    }

    open spec fn mul_spec(self, rhs: T) -> Vec2<T> {
        Vec2 { x: T::times_spec(self.x, rhs), y: T::times_spec(self.y, rhs) }
    }
}

impl<T: Scalar> core::ops::Div for Vec2<T> {
    type Output = Vec2<T>;

    fn div(self, rhs: Self) -> (r: Self::Output)
        ensures
            r.x == T::divide_spec(self.x, rhs.x),
            r.y == T::divide_spec(self.y, rhs.y),
    {
        Vec2::new(self.x.divide(rhs.x), self.y.divide(rhs.y))
    }
}

impl<T: Scalar> DivSpecImpl for Vec2<T> {
    open spec fn obeys_div_spec() -> bool {
        true
    }

    /// Each component can be divided by the divisor's.
    open spec fn div_req(self, rhs: Self) -> bool {
        T::divides(self.x, rhs.x) && T::divides(self.y, rhs.y)
    }

    open spec fn div_spec(self, rhs: Self) -> Vec2<T> {
        Vec2 { x: T::divide_spec(self.x, rhs.x), y: T::divide_spec(self.y, rhs.y) }
    }
}

impl<T: Scalar> core::ops::Div<T> for Vec2<T> {
    type Output = Vec2<T>;

    fn div(self, rhs: T) -> (r: Self::Output)
        ensures
            r.x == T::divide_spec(self.x, rhs),
            r.y == T::divide_spec(self.y, rhs),
    {
        Vec2::new(self.x.divide(rhs), self.y.divide(rhs))
    }
}

impl<T: Scalar> DivSpecImpl<T> for Vec2<T> {
    open spec fn obeys_div_spec() -> bool {
        true
    }

    /// Each component can be divided by the divisor.
    open spec fn div_req(self, rhs: T) -> bool {
        T::divides(self.x, rhs) && T::divides(self.y, rhs)
    }

    open spec fn div_spec(self, rhs: T) -> Vec2<T> {
        Vec2 { x: T::divide_spec(self.x, rhs), y: T::divide_spec(self.y, rhs) }
    }
}

// ---------------------------------------------------------------------------
// Componentwise arithmetic on `Vec3`.
// ---------------------------------------------------------------------------

impl<T: Scalar> core::ops::Add for Vec3<T> {
    type Output = Vec3<T>;

    fn add(self, rhs: Self) -> (r: Self::Output)
        ensures
            r.x == T::plus_spec(self.x, rhs.x),
            r.y == T::plus_spec(self.y, rhs.y),
            r.z == T::plus_spec(self.z, rhs.z),
    {
        Vec3::new(self.x.plus(rhs.x), self.y.plus(rhs.y), self.z.plus(rhs.z))
    }
}

impl<T: Scalar> AddSpecImpl for Vec3<T> {
    open spec fn obeys_add_spec() -> bool {
        true
    }

    open spec fn add_req(self, rhs: Self) -> bool {
        true
    }

    open spec fn add_spec(self, rhs: Self) -> Vec3<T> {
        Vec3 {
            x: T::plus_spec(self.x, rhs.x),
            y: T::plus_spec(self.y, rhs.y),
            z: T::plus_spec(self.z, rhs.z),
        }
    }
}

impl<T: Scalar> core::ops::Sub for Vec3<T> {
    type Output = Vec3<T>;

    fn sub(self, rhs: Self) -> (r: Self::Output)
        ensures
            r.x == T::minus_spec(self.x, rhs.x),
            r.y == T::minus_spec(self.y, rhs.y),
            r.z == T::minus_spec(self.z, rhs.z),
    {
        Vec3::new(self.x.minus(rhs.x), self.y.minus(rhs.y), self.z.minus(rhs.z))
    }
}

impl<T: Scalar> SubSpecImpl for Vec3<T> {
    open spec fn obeys_sub_spec() -> bool {
        true
    }

    open spec fn sub_req(self, rhs: Self) -> bool {
        true
    }

    open spec fn sub_spec(self, rhs: Self) -> Vec3<T> {
        Vec3 {
            x: T::minus_spec(self.x, rhs.x),
            y: T::minus_spec(self.y, rhs.y),
            z: T::minus_spec(self.z, rhs.z),
        }
    }
}

impl<T: Scalar> core::ops::Mul for Vec3<T> {
    type Output = Vec3<T>;

    fn mul(self, rhs: Self) -> (r: Self::Output)
        ensures
            r.x == T::times_spec(self.x, rhs.x),
            r.y == T::times_spec(self.y, rhs.y),
            r.z == T::times_spec(self.z, rhs.z),
    {
        Vec3::new(self.x.times(rhs.x), self.y.times(rhs.y), self.z.times(rhs.z))
    }
}

impl<T: Scalar> MulSpecImpl for Vec3<T> {
    open spec fn obeys_mul_spec() -> bool {
        true
    }

    open spec fn mul_req(self, rhs: Self) -> bool {
        true
    }

    open spec fn mul_spec(self, rhs: Self) -> Vec3<T> {
        Vec3 {
            x: T::times_spec(self.x, rhs.x),
            y: T::times_spec(self.y, rhs.y),
            z: T::times_spec(self.z, rhs.z),
        }
    }
}

impl<T: Scalar> core::ops::Mul<T> for Vec3<T> {
    type Output = Vec3<T>;

    fn mul(self, rhs: T) -> (r: Self::Output)
        ensures
            r.x == T::times_spec(self.x, rhs),
            r.y == T::times_spec(self.y, rhs),
            r.z == T::times_spec(self.z, rhs),
    {
        Vec3::new(self.x.times(rhs), self.y.times(rhs), self.z.times(rhs))
    }
}

impl<T: Scalar> MulSpecImpl<T> for Vec3<T> {
    open spec fn obeys_mul_spec() -> bool {
        true
    }

    open spec fn mul_req(self, rhs: T) -> bool {
        true
    }

    open spec fn mul_spec(self, rhs: T) -> Vec3<T> {
        Vec3 {
            x: T::times_spec(self.x, rhs),
            y: T::times_spec(self.y, rhs),
            z: T::times_spec(self.z, rhs),
        }
    }
}

impl<T: Scalar> core::ops::Div<T> for Vec3<T> {
    type Output = Vec3<T>;

    fn div(self, rhs: T) -> (r: Self::Output)
        ensures
            r.x == T::divide_spec(self.x, rhs),
            r.y == T::divide_spec(self.y, rhs),
            r.z == T::divide_spec(self.z, rhs),
    {
        Vec3::new(self.x.divide(rhs), self.y.divide(rhs), self.z.divide(rhs))
    }
}

impl<T: Scalar> DivSpecImpl<T> for Vec3<T> {
    open spec fn obeys_div_spec() -> bool {
        true
    }

    /// Each component can be divided by the divisor.
    open spec fn div_req(self, rhs: T) -> bool {
        T::divides(self.x, rhs) && T::divides(self.y, rhs) && T::divides(self.z, rhs)
    }

    open spec fn div_spec(self, rhs: T) -> Vec3<T> {
        Vec3 {
            x: T::divide_spec(self.x, rhs),
            y: T::divide_spec(self.y, rhs),
            z: T::divide_spec(self.z, rhs),
        }
    }
}

/// Each component of a sum, difference, product or quotient of `Vec2`s is
/// that operation on the same component of the operands alone.
pub proof fn lemma_vec2_componentwise<T: Scalar>(a: Vec2<T>, b: Vec2<T>, c: T)
    ensures
        vstd::std_specs::ops::AddSpec::add_spec(a, b).x == T::plus_spec(a.x, b.x) && vstd::std_specs::ops::AddSpec::add_spec(a, b).y == T::plus_spec(a.y, b.y),
        vstd::std_specs::ops::SubSpec::sub_spec(a, b).x == T::minus_spec(a.x, b.x) && vstd::std_specs::ops::SubSpec::sub_spec(a, b).y == T::minus_spec(a.y, b.y),
        vstd::std_specs::ops::MulSpec::<Vec2<T>>::mul_spec(a, b).x == T::times_spec(a.x, b.x)
            && vstd::std_specs::ops::MulSpec::<Vec2<T>>::mul_spec(a, b).y == T::times_spec(a.y, b.y),
        vstd::std_specs::ops::MulSpec::<T>::mul_spec(a, c).x == T::times_spec(a.x, c)
            && vstd::std_specs::ops::MulSpec::<T>::mul_spec(a, c).y == T::times_spec(a.y, c),
        vstd::std_specs::ops::DivSpec::<Vec2<T>>::div_spec(a, b).x == T::divide_spec(a.x, b.x)
            && vstd::std_specs::ops::DivSpec::<Vec2<T>>::div_spec(a, b).y == T::divide_spec(a.y, b.y),
        vstd::std_specs::ops::DivSpec::<T>::div_spec(a, c).x == T::divide_spec(a.x, c)
            && vstd::std_specs::ops::DivSpec::<T>::div_spec(a, c).y == T::divide_spec(a.y, c),
{
}

/// Each component of a sum, difference, product or quotient of `Vec3`s is
/// that operation on the same component of the operands alone.
pub proof fn lemma_vec3_componentwise<T: Scalar>(a: Vec3<T>, b: Vec3<T>, c: T)
    ensures
        vstd::std_specs::ops::AddSpec::add_spec(a, b).x == T::plus_spec(a.x, b.x) && vstd::std_specs::ops::AddSpec::add_spec(a, b).y == T::plus_spec(a.y, b.y)
            && vstd::std_specs::ops::AddSpec::add_spec(a, b).z == T::plus_spec(a.z, b.z),
        vstd::std_specs::ops::SubSpec::sub_spec(a, b).x == T::minus_spec(a.x, b.x) && vstd::std_specs::ops::SubSpec::sub_spec(a, b).y == T::minus_spec(a.y, b.y)
            && vstd::std_specs::ops::SubSpec::sub_spec(a, b).z == T::minus_spec(a.z, b.z),
        vstd::std_specs::ops::MulSpec::<Vec3<T>>::mul_spec(a, b).x == T::times_spec(a.x, b.x)
            && vstd::std_specs::ops::MulSpec::<Vec3<T>>::mul_spec(a, b).y == T::times_spec(a.y, b.y)
            && vstd::std_specs::ops::MulSpec::<Vec3<T>>::mul_spec(a, b).z == T::times_spec(a.z, b.z),
        vstd::std_specs::ops::MulSpec::<T>::mul_spec(a, c).x == T::times_spec(a.x, c)
            && vstd::std_specs::ops::MulSpec::<T>::mul_spec(a, c).y == T::times_spec(a.y, c)
            && vstd::std_specs::ops::MulSpec::<T>::mul_spec(a, c).z == T::times_spec(a.z, c),
        vstd::std_specs::ops::DivSpec::<T>::div_spec(a, c).x == T::divide_spec(a.x, c)
            && vstd::std_specs::ops::DivSpec::<T>::div_spec(a, c).y == T::divide_spec(a.y, c)
            && vstd::std_specs::ops::DivSpec::<T>::div_spec(a, c).z == T::divide_spec(a.z, c),
{
}

} // verus!
