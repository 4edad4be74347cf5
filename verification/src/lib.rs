//! Fixed-capacity sequence containers over statically sized arrays.
//!
//! [`array::ArrVec`] is a vector and [`array::ArrDeq`] a double-ended queue. Both keep
//! their elements in place, in an array of `N` slots, and never hold more than `N` of
//! them. [`drain::ArrDrop`] hands the elements of either container out one at a time.
//!
//! Every container has a view, the sequence of its live elements, and every operation
//! is specified by what it does to that view.

pub mod array;
pub mod drain;
