//! Integers that are never zero.

use vstd::prelude::*;

verus! {

/// A 32-bit unsigned integer greater than zero.
#[derive(Clone, Copy, Debug, PartialEq, Eq, Structural)]
pub struct NonZeroU32 {
    value: u32,
}

impl View for NonZeroU32 {
    type V = u32;

    closed spec fn view(&self) -> u32 {
        self.value
    }
}

impl NonZeroU32 {
    #[verifier::type_invariant]
    spec fn wf(self) -> bool {
        self.value > 0
    }

    /// Accepts every value but zero.
    pub fn new(value: u32) -> (number: Option<Self>)
        ensures
            match number {
                Some(number) => number@ == value && value > 0,
                None => value == 0,
            },
    {
        if value == 0 {
            None
        } else {
            Some(NonZeroU32 { value })
        }
    }

    /// The value itself.
    pub fn get(self) -> (value: u32)
        ensures
            value == self@,
            value > 0,
    {
        proof {
            use_type_invariant(&self);
        }
        self.value
    }
}

/// A 64-bit unsigned integer greater than zero.
#[derive(Clone, Copy, Debug, PartialEq, Eq, Structural)]
pub struct NonZeroU64 {
    value: u64,
}

impl View for NonZeroU64 {
    type V = u64;

    closed spec fn view(&self) -> u64 {
        self.value
    }
}

impl NonZeroU64 {
    #[verifier::type_invariant]
    spec fn wf(self) -> bool {
        self.value > 0
    }

    /// Accepts every value but zero.
    pub fn new(value: u64) -> (number: Option<Self>)
        ensures
            match number {
                Some(number) => number@ == value && value > 0,
                None => value == 0,
            },
    {
        if value == 0 {
            None
        } else {
            Some(NonZeroU64 { value })
        }
    }

    /// The value itself.
    pub fn get(self) -> (value: u64)
        ensures
            value == self@,
            value > 0,
    {
        proof {
            use_type_invariant(&self);
        }
        self.value
    }
}

/// A pointer-sized unsigned integer greater than zero.
#[derive(Clone, Copy, Debug, PartialEq, Eq, Structural)]
pub struct NonZeroUsize {
    value: usize,
}

impl View for NonZeroUsize {
    type V = usize;

    closed spec fn view(&self) -> usize {
        self.value
    }
}

impl NonZeroUsize {
    #[verifier::type_invariant]
    spec fn wf(self) -> bool {
        self.value > 0
    }

    /// Accepts every value but zero.
    pub fn new(value: usize) -> (number: Option<Self>)
        ensures
            match number {
                Some(number) => number@ == value && value > 0,
                None => value == 0,
            },
    {
        if value == 0 {
            None
        } else {
            Some(NonZeroUsize { value })
        }
    }

    /// The value itself.
    pub fn get(self) -> (value: usize)
        ensures
            value == self@,
            value > 0,
    {
        proof {
            use_type_invariant(&self);
        }
        self.value
    }
}

} // verus!
