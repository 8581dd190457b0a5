//! Checked and clamping integer conversions used around layout arithmetic.

use vstd::prelude::*;

verus! {

/// Conversions from `usize`.
pub trait UsizeExt: Sized + Copy {
    /// The mathematical value of the number.
    spec fn as_int(self) -> int;

    /// Convert to `isize`, which must not overflow.
    fn unwrap_isize(self) -> (r: isize)
        requires
            self.as_int() <= isize::MAX as int,
        ensures
            r as int == self.as_int(),
    ;

    /// Convert to `u16`, clamping values that are too large.
    fn clamp_into_u16(self) -> (r: u16)
        ensures
            r as int == (if self.as_int() > u16::MAX as int {
                u16::MAX as int
            } else {
                self.as_int()
            }),
    ;
}

impl UsizeExt for usize {
    open spec fn as_int(self) -> int {
        self as int
    }

    fn unwrap_isize(self) -> (r: isize) {
        self as isize
    }

    fn clamp_into_u16(self) -> (r: u16) {
        if self > u16::MAX as usize {
            u16::MAX
        } else {
            self as u16
        }
    }
}

/// Conversions from `isize`.
pub trait IsizeExt: Sized + Copy {
    /// The mathematical value of the number.
    spec fn as_int(self) -> int;

    /// Convert to `usize`, which requires a value that is not negative.
    fn unwrap_usize(self) -> (r: usize)
        requires
            self.as_int() >= 0,
        ensures
            r as int == self.as_int(),
    ;

    /// Convert to `u16`, clamping values outside its range.
    fn clamp_into_u16(self) -> (r: u16)
        ensures
            r as int == (if self.as_int() < 0 {
                0int
            } else if self.as_int() > u16::MAX as int {
                u16::MAX as int
            } else {
                self.as_int()
            }),
    ;

    /// Convert to `usize`, clamping negative values to zero.
    fn clamp_into_usize(self) -> (r: usize)
        ensures
            r as int == (if self.as_int() < 0 {
                0int
            } else {
                self.as_int()
            }),
    ;
}

impl IsizeExt for isize {
    open spec fn as_int(self) -> int {
        self as int
    }

    fn unwrap_usize(self) -> (r: usize) {
        self as usize
    }

    fn clamp_into_u16(self) -> (r: u16) {
        if self < 0 {
            0
        } else if self > u16::MAX as isize {
            u16::MAX
        } else {
            self as u16
        }
    }

    fn clamp_into_usize(self) -> (r: usize) {
        if self < 0 {
            0
        } else {
            self as usize
        }
    }
}

} // verus!
