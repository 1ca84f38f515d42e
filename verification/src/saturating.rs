use vstd::prelude::*;

verus! {

/// Conversion into a narrower integer type that clamps to the target's range instead of
/// wrapping.
///
/// `saturated` is the clamped value.
pub trait SaturatingInto<R> where Self: Sized {
    spec fn saturated(self) -> R;

    fn saturating_into(self) -> (r: R)
        ensures
            r == self.saturated(),
    ;
}

impl SaturatingInto<u16> for u32 {
    open spec fn saturated(self) -> u16 {
        (if self > u16::MAX { u16::MAX as int } else { self as int }) as u16
    }

    fn saturating_into(self) -> (r: u16) {
        if self > u16::MAX as u32 {
            return u16::MAX;
        }
        self as u16
    }
}

impl SaturatingInto<u16> for i32 {
    open spec fn saturated(self) -> u16 {
        (if self > u16::MAX { u16::MAX as int } else if self < 0 { 0 } else { self as int }) as u16
    }

    fn saturating_into(self) -> (r: u16) {
        if self > u16::MAX as i32 {
            return u16::MAX;
        }
        if self < 0 {
            return 0;
        }
        self as u16
    }
}

impl SaturatingInto<u16> for i64 {
    open spec fn saturated(self) -> u16 {
        (if self > u16::MAX { u16::MAX as int } else if self < 0 { 0 } else { self as int }) as u16
    }

    fn saturating_into(self) -> (r: u16) {
        if self > u16::MAX as i64 {
            return u16::MAX;
        }
        if self < 0 {
            return 0;
        }
        self as u16
    }
}

impl SaturatingInto<u32> for i64 {
    open spec fn saturated(self) -> u32 {
        (if self > u32::MAX { u32::MAX as int } else if self < 0 { 0 } else { self as int }) as u32
    }

    fn saturating_into(self) -> (r: u32) {
        if self > u32::MAX as i64 {
            return u32::MAX;
        }
        if self < 0 {
            return 0;
        }
        self as u32
    }
}

impl SaturatingInto<i32> for i64 {
    open spec fn saturated(self) -> i32 {
        (if self > i32::MAX { i32::MAX as int } else if self < i32::MIN { i32::MIN as int } else { self as int }) as i32
    }

    fn saturating_into(self) -> (r: i32) {
        if self > i32::MAX as i64 {
            return i32::MAX;
        }
        if self < i32::MIN as i64 {
            return i32::MIN;
        }
        self as i32
    }
}

impl SaturatingInto<i16> for i32 {
    open spec fn saturated(self) -> i16 {
        (if self > i16::MAX { i16::MAX as int } else if self < i16::MIN { i16::MIN as int } else { self as int }) as i16
    }

    fn saturating_into(self) -> (r: i16) {
        if self > i16::MAX as i32 {
            return i16::MAX;
        }
        if self < i16::MIN as i32 {
            return i16::MIN;
        }
        self as i16
    }
}

impl SaturatingInto<i16> for i64 {
    open spec fn saturated(self) -> i16 {
        (if self > i16::MAX { i16::MAX as int } else if self < i16::MIN { i16::MIN as int } else { self as int }) as i16
    }

    fn saturating_into(self) -> (r: i16) {
        if self > i16::MAX as i64 {
            return i16::MAX;
        }
        if self < i16::MIN as i64 {
            return i16::MIN;
        }
        self as i16
    }
}

impl SaturatingInto<i16> for u64 {
    open spec fn saturated(self) -> i16 {
        (if self > i16::MAX { i16::MAX as int } else { self as int }) as i16
    }

    fn saturating_into(self) -> (r: i16) {
        if self > i16::MAX as u64 {
            return i16::MAX;
        }
        self as i16
    }
}

} // verus!
