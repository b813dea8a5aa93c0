//! Enum to store a value that can be either one or another value

use vstd::prelude::*;

verus! {

/// Type that can be either A or B
#[derive(Debug, Clone, PartialEq)]
pub enum Either<A, B> {
    /// First value (A)
    First(A),
    /// Second value (B)
    Second(B),
}

impl<A: DeepView, B: DeepView> DeepView for Either<A, B> {
    type V = Either<A::V, B::V>;

    open spec fn deep_view(&self) -> Either<A::V, B::V> {
        match self {
            Either::First(a) => Either::First(a.deep_view()),
            Either::Second(b) => Either::Second(b.deep_view()),
        }
    }
}

impl<A, B> Either<A, B> {
    /// If the value is an A
    pub fn is_first(&self) -> (r: bool)
        ensures
            r == (self is First),
    {
        match self {
            Either::First(_) => true,
            Either::Second(_) => false,
        }
    }

    /// If the value is a B
    pub fn is_second(&self) -> (r: bool)
        ensures
            r == (self is Second),
    {
        match self {
            Either::First(_) => false,
            Either::Second(_) => true,
        }
    }

    /// Returns the value of it is an A
    pub fn first(&self) -> (r: Option<&A>)
        ensures
            match r {
                Some(a) => self matches Either::First(x) && a == x,
                None => self is Second,
            },
    {
        match self {
            Either::First(a) => Some(a),
            Either::Second(_) => None,
        }
    }

    /// Returns the value if it is a B
    pub fn second(&self) -> (r: Option<&B>)
        ensures
            match r {
                Some(b) => self matches Either::Second(x) && b == x,
                None => self is First,
            },
    {
        match self {
            Either::First(_) => None,
            Either::Second(b) => Some(b),
        }
    }
}

} // verus!
