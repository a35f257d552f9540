//! The element types an interval set can hold: bounded integers with
//! saturating subtraction, each viewed as a mathematical integer.
use vstd::prelude::*;

verus! {

/// `x` forced into the closed range `[lo, hi]`.
pub open spec fn clamp(x: int, lo: int, hi: int) -> int {
    if x < lo {
        lo
    } else if x > hi {
        hi
    } else {
        x
    }
}

/// A totally ordered integer type with a least and a greatest value.
///
/// Subtraction saturates at the type's bounds instead of wrapping, so
/// the greatest value never looks adjacent to the least one.
pub trait Value: Copy + Sized {
    /// The integer that this value stands for.
    spec fn int_of(&self) -> int;

    /// The least integer of the type.
    spec fn lowest() -> int;

    /// The greatest integer of the type.
    spec fn highest() -> int;

    /// Every value lies within the type's bounds, which hold `0` and `1`
    /// and fit in 64 bits with a sign.
    proof fn lemma_in_range(&self)
        ensures
            Self::lowest() <= self.int_of() <= Self::highest(),
            -0x8000_0000_0000_0000 <= Self::lowest() <= 0,
            1 < Self::highest() <= 0xffff_ffff_ffff_ffff,
    ;

    /// Strict comparison of the two integers.
    fn less_than(&self, other: &Self) -> (r: bool)
        ensures
            r == (self.int_of() < other.int_of()),
    ;

    /// `self - other`, clamped to the type's bounds.
    fn saturating_sub(&self, other: &Self) -> (r: Self)
        ensures
            r.int_of() == clamp(self.int_of() - other.int_of(), Self::lowest(), Self::highest()),
    ;

    /// Whether the value is the integer one.
    fn is_one(&self) -> (r: bool)
        ensures
            r == (self.int_of() == 1),
    ;

    /// Whether the value is negative, and its distance from zero.
    fn sign_and_magnitude(&self) -> (r: (bool, u64))
        ensures
            r.0 == (self.int_of() < 0),
            r.1 as int == if self.int_of() < 0 { -self.int_of() } else { self.int_of() },
    ;
}

impl Value for u8 {
    open spec fn int_of(&self) -> int {
        *self as int
    }

    open spec fn lowest() -> int {
        0
    }

    open spec fn highest() -> int {
        u8::MAX as int
    }

    proof fn lemma_in_range(&self) {
    }

    fn less_than(&self, other: &u8) -> (r: bool) {
        *self < *other
    }

    fn saturating_sub(&self, other: &u8) -> (r: u8) {
        if *self < *other {
            0
        } else {
            *self - *other
        }
    }

    fn is_one(&self) -> (r: bool) {
        *self == 1
    }

    fn sign_and_magnitude(&self) -> (r: (bool, u64)) {
        (false, *self as u64)
    }
}

impl Value for u16 {
    open spec fn int_of(&self) -> int {
        *self as int
    }

    open spec fn lowest() -> int {
        0
    }

    open spec fn highest() -> int {
        u16::MAX as int
    }

    proof fn lemma_in_range(&self) {
    }

    fn less_than(&self, other: &u16) -> (r: bool) {
        *self < *other
    }

    fn saturating_sub(&self, other: &u16) -> (r: u16) {
        if *self < *other {
            0
        } else {
            *self - *other
        }
    }

    fn is_one(&self) -> (r: bool) {
        *self == 1
    }

    fn sign_and_magnitude(&self) -> (r: (bool, u64)) {
        (false, *self as u64)
    }
}

impl Value for u32 {
    open spec fn int_of(&self) -> int {
        *self as int
    }

    open spec fn lowest() -> int {
        0
    }

    open spec fn highest() -> int {
        u32::MAX as int
    }

    proof fn lemma_in_range(&self) {
    }

    fn less_than(&self, other: &u32) -> (r: bool) {
        *self < *other
    }

    fn saturating_sub(&self, other: &u32) -> (r: u32) {
        if *self < *other {
            0
        } else {
            *self - *other
        }
    }

    fn is_one(&self) -> (r: bool) {
        *self == 1
    }

    fn sign_and_magnitude(&self) -> (r: (bool, u64)) {
        (false, *self as u64)
    }
}

impl Value for u64 {
    open spec fn int_of(&self) -> int {
        *self as int
    }

    open spec fn lowest() -> int {
        0
    }

    open spec fn highest() -> int {
        u64::MAX as int
    }

    proof fn lemma_in_range(&self) {
    }

    fn less_than(&self, other: &u64) -> (r: bool) {
        *self < *other
    }

    fn saturating_sub(&self, other: &u64) -> (r: u64) {
        if *self < *other {
            0
        } else {
            *self - *other
        }
    }

    fn is_one(&self) -> (r: bool) {
        *self == 1
    }

    fn sign_and_magnitude(&self) -> (r: (bool, u64)) {
        (false, *self)
    }
}

impl Value for usize {
    open spec fn int_of(&self) -> int {
        *self as int
    }

    open spec fn lowest() -> int {
        0
    }

    open spec fn highest() -> int {
        usize::MAX as int
    }

    proof fn lemma_in_range(&self) {
    }

    fn less_than(&self, other: &usize) -> (r: bool) {
        *self < *other
    }

    fn saturating_sub(&self, other: &usize) -> (r: usize) {
        if *self < *other {
            0
        } else {
            *self - *other
        }
    }

    fn is_one(&self) -> (r: bool) {
        *self == 1
    }

    fn sign_and_magnitude(&self) -> (r: (bool, u64)) {
        (false, *self as u64)
    }
}

impl Value for i8 {
    open spec fn int_of(&self) -> int {
        *self as int
    }

    open spec fn lowest() -> int {
        i8::MIN as int
    }

    open spec fn highest() -> int {
        i8::MAX as int
    }

    proof fn lemma_in_range(&self) {
    }

    fn less_than(&self, other: &i8) -> (r: bool) {
        *self < *other
    }

    fn saturating_sub(&self, other: &i8) -> (r: i8) {
        let d: i128 = *self as i128 - *other as i128;
        if d < i8::MIN as i128 {
            i8::MIN
        } else if d > i8::MAX as i128 {
            i8::MAX
        } else {
            d as i8
        }
    }

    fn is_one(&self) -> (r: bool) {
        *self == 1
    }

    fn sign_and_magnitude(&self) -> (r: (bool, u64)) {
        if *self < 0 {
            (true, (0 - *self as i128) as u64)
        } else {
            (false, *self as u64)
        }
    }
}

impl Value for i16 {
    open spec fn int_of(&self) -> int {
        *self as int
    }

    open spec fn lowest() -> int {
        i16::MIN as int
    }

    open spec fn highest() -> int {
        i16::MAX as int
    }

    proof fn lemma_in_range(&self) {
    }

    fn less_than(&self, other: &i16) -> (r: bool) {
        *self < *other
    }

    fn saturating_sub(&self, other: &i16) -> (r: i16) {
        let d: i128 = *self as i128 - *other as i128;
        if d < i16::MIN as i128 {
            i16::MIN
        } else if d > i16::MAX as i128 {
            i16::MAX
        } else {
            d as i16
        }
    }

    fn is_one(&self) -> (r: bool) {
        *self == 1
    }

    fn sign_and_magnitude(&self) -> (r: (bool, u64)) {
        if *self < 0 {
            (true, (0 - *self as i128) as u64)
        } else {
            (false, *self as u64)
        }
    }
}

impl Value for i32 {
    open spec fn int_of(&self) -> int {
        *self as int
    }

    open spec fn lowest() -> int {
        i32::MIN as int
    }

    open spec fn highest() -> int {
        i32::MAX as int
    }

    proof fn lemma_in_range(&self) {
    }

    fn less_than(&self, other: &i32) -> (r: bool) {
        *self < *other
    }

    fn saturating_sub(&self, other: &i32) -> (r: i32) {
        let d: i128 = *self as i128 - *other as i128;
        if d < i32::MIN as i128 {
            i32::MIN
        } else if d > i32::MAX as i128 {
            i32::MAX
        } else {
            d as i32
        }
    }

    fn is_one(&self) -> (r: bool) {
        *self == 1
    }

    fn sign_and_magnitude(&self) -> (r: (bool, u64)) {
        if *self < 0 {
            (true, (0 - *self as i128) as u64)
        } else {
            (false, *self as u64)
        }
    }
}

impl Value for i64 {
    open spec fn int_of(&self) -> int {
        *self as int
    }

    open spec fn lowest() -> int {
        i64::MIN as int
    }

    open spec fn highest() -> int {
        i64::MAX as int
    }

    proof fn lemma_in_range(&self) {
    }

    fn less_than(&self, other: &i64) -> (r: bool) {
        *self < *other
    }

    fn saturating_sub(&self, other: &i64) -> (r: i64) {
        let d: i128 = *self as i128 - *other as i128;
        if d < i64::MIN as i128 {
            i64::MIN
        } else if d > i64::MAX as i128 {
            i64::MAX
        } else {
            d as i64
        }
    }

    fn is_one(&self) -> (r: bool) {
        *self == 1
    }

    fn sign_and_magnitude(&self) -> (r: (bool, u64)) {
        if *self < 0 {
            (true, (0 - *self as i128) as u64)
        } else {
            (false, *self as u64)
        }
    }
}

impl Value for isize {
    open spec fn int_of(&self) -> int {
        *self as int
    }

    open spec fn lowest() -> int {
        isize::MIN as int
    }

    open spec fn highest() -> int {
        isize::MAX as int
    }

    proof fn lemma_in_range(&self) {
    }

    fn less_than(&self, other: &isize) -> (r: bool) {
        *self < *other
    }

    fn saturating_sub(&self, other: &isize) -> (r: isize) {
        let d: i128 = *self as i128 - *other as i128;
        if d < isize::MIN as i128 {
            isize::MIN
        } else if d > isize::MAX as i128 {
            isize::MAX
        } else {
            d as isize
        }
    }

    fn is_one(&self) -> (r: bool) {
        *self == 1
    }

    fn sign_and_magnitude(&self) -> (r: (bool, u64)) {
        if *self < 0 {
            (true, (0 - *self as i128) as u64)
        } else {
            (false, *self as u64)
        }
    }
}

} // verus!
