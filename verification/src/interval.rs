//! A closed fixed-point range, used both to bound acceptable ray
//! parameters and to clamp color channels before quantization.

use vstd::prelude::*;

verus! {

#[derive(Clone, Copy, Debug, PartialEq, Eq, Structural)]
pub struct Interval {
    pub min: i64,
    pub max: i64,
}

pub open spec fn i_clamp(i: Interval, x: int) -> int {
    if x < i.min {
        i.min as int
    } else if (i.max as int) < x {
        i.max as int
    } else {
        x
    }
}

impl Interval {
    pub fn new(min: i64, max: i64) -> (r: Self)
        ensures
            r == (Interval { min, max }),
    {
        Interval { min, max }
    }

    pub fn contains(&self, x: i64) -> (r: bool)
        ensures
            r == (self.min <= x && x <= self.max),
    {
        self.min <= x && x <= self.max
    }

    pub fn surronds(&self, x: i64) -> (r: bool)
        ensures
            r == (self.min < x && x < self.max),
    {
        self.min < x && x < self.max
    }

    pub fn clamp(&self, x: i64) -> (r: i64)
        ensures
            r as int == i_clamp(*self, x as int),
    {
        if x < self.min {
            self.min
        } else if self.max < x {
            self.max
        } else {
            x
        }
    }
}

} // verus!
