//! The discrete core of a software rendering pipeline.
//!
//! Numbers are IEEE-754 single-precision values held by their bit patterns
//! ([`algebra::scalar::Scalar`]). The library orders, negates, selects and
//! stores them, and rounds them to whole numbers. Sums, products and the
//! like, whose results are rounded to a nearby number, are the host's to
//! compute and to hand in.

pub mod algebra;
pub mod topology;
pub mod video;
