//! The containers and the helpers they share.

pub mod arr_deq;
pub mod arr_utils;
pub mod arr_vec;
pub mod bounded_seq;

pub use arr_deq::ArrDeq;
pub use arr_deq::ArrDeqRepr;
pub use arr_vec::ArrVec;
pub use arr_vec::ArrVecRepr;
