use vstd::prelude::*;

verus! {

/// `|a - b|` reduced modulo a full turn of 360 and then folded onto the
/// shorter way round: the angle between two headings given in degrees,
/// in `0..=180`.
pub open spec fn angle_between(a: int, b: int) -> int {
    let d = (if a >= b { a - b } else { b - a }) % 360;
    if d > 180 {
        360 - d
    } else {
        d
    }
}

/// The angle between two headings does not depend on their order, and a
/// heading is at angle zero from itself.
pub proof fn lemma_angle_between_symmetric(a: int, b: int)
    ensures
        angle_between(a, b) == angle_between(b, a),
        angle_between(a, a) == 0,
        0 <= angle_between(a, b) <= 180,
{
}

pub trait NumberExt: Sized {
    /// The number as a mathematical integer.
    spec fn to_int(self) -> int;

    /// The angle in degrees between the headings `self` and `other`.
    fn angle_diff(self, other: Self) -> (r: Self)
        ensures
            r.to_int() == angle_between(self.to_int(), other.to_int()),
            0 <= r.to_int() <= 180,
    ;
}

impl NumberExt for u16 {
    open spec fn to_int(self) -> int {
        self as int
    }

    fn angle_diff(self, other: Self) -> (r: Self) {
        let distance = if self >= other {
            self - other
        } else {
            other - self
        };
        let diff = distance % 360;
        if diff > 180 {
            360 - diff
        } else {
            diff
        }
    }
}

impl NumberExt for u32 {
    open spec fn to_int(self) -> int {
        self as int
    }

    fn angle_diff(self, other: Self) -> (r: Self) {
        let distance = if self >= other {
            self - other
        } else {
            other - self
        };
        let diff = distance % 360;
        if diff > 180 {
            360 - diff
        } else {
            diff
        }
    }
}

impl NumberExt for u64 {
    open spec fn to_int(self) -> int {
        self as int
    }

    fn angle_diff(self, other: Self) -> (r: Self) {
        let distance = if self >= other {
            self - other
        } else {
            other - self
        };
        let diff = distance % 360;
        if diff > 180 {
            360 - diff
        } else {
            diff
        }
    }
}

impl NumberExt for u128 {
    open spec fn to_int(self) -> int {
        self as int
    }

    fn angle_diff(self, other: Self) -> (r: Self) {
        let distance = if self >= other {
            self - other
        } else {
            other - self
        };
        let diff = distance % 360;
        if diff > 180 {
            360 - diff
        } else {
            diff
        }
    }
}

impl NumberExt for usize {
    open spec fn to_int(self) -> int {
        self as int
    }

    fn angle_diff(self, other: Self) -> (r: Self) {
        let distance = if self >= other {
            self - other
        } else {
            other - self
        };
        let diff = distance % 360;
        if diff > 180 {
            360 - diff
        } else {
            diff
        }
    }
}

impl NumberExt for i16 {
    open spec fn to_int(self) -> int {
        self as int
    }

    fn angle_diff(self, other: Self) -> (r: Self) {
        let a = self as i32;
        let b = other as i32;
        let distance = if a >= b {
            a - b
        } else {
            b - a
        };
        let diff = (distance % 360) as i16;
        if diff > 180 {
            360 - diff
        } else {
            diff
        }
    }
}

impl NumberExt for i32 {
    open spec fn to_int(self) -> int {
        self as int
    }

    fn angle_diff(self, other: Self) -> (r: Self) {
        let a = self as i64;
        let b = other as i64;
        let distance = if a >= b {
            a - b
        } else {
            b - a
        };
        let diff = (distance % 360) as i32;
        if diff > 180 {
            360 - diff
        } else {
            diff
        }
    }
}

impl NumberExt for i64 {
    open spec fn to_int(self) -> int {
        self as int
    }

    fn angle_diff(self, other: Self) -> (r: Self) {
        let a = self as i128;
        let b = other as i128;
        let distance = if a >= b {
            a - b
        } else {
            b - a
        };
        let diff = (distance % 360) as i64;
        if diff > 180 {
            360 - diff
        } else {
            diff
        }
    }
}

impl NumberExt for isize {
    open spec fn to_int(self) -> int {
        self as int
    }

    fn angle_diff(self, other: Self) -> (r: Self) {
        let a = self as i128;
        let b = other as i128;
        let distance = if a >= b {
            a - b
        } else {
            b - a
        };
        let diff = (distance % 360) as isize;
        if diff > 180 {
            360 - diff
        } else {
            diff
        }
    }
}

impl NumberExt for i128 {
    open spec fn to_int(self) -> int {
        self as int
    }

    fn angle_diff(self, other: Self) -> (r: Self) {
        let (high, low) = if self >= other {
            (self, other)
        } else {
            (other, self)
        };
        // `high - low` may not fit an `i128`, but it fits a `u128`.
        let distance: u128 = if low >= 0 || high < 0 {
            (high - low) as u128
        } else {
            (high as u128) + ((-(low + 1)) as u128) + 1
        };
        let diff = (distance % 360) as i128;
        if diff > 180 {
            360 - diff
        } else {
            diff
        }
    }
}

} // verus!
