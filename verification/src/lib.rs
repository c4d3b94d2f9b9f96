//! Midpoint-rule estimation of π: the exact, integer side of the computation.
//!
//! The estimate is `h * (f(x_0) + f(x_1) + .. + f(x_{n-1}))` with `h = 1 / n`,
//! `x_i = (i + 0.5) * h` and `f(x) = 4 / (1 + x * x)`. This crate holds what
//! that computation decides without any rounding: which counts `n` are
//! accepted ([`steps`]), how a refusal is worded ([`error`]), and in which
//! order the terms enter the running total ([`summation`]). The arithmetic on
//! the terms themselves is supplied by the caller.
//!
//! [`rust_example`] is separate from the estimate: it holds the one function
//! that is exported to a scripting host.

pub mod error;
pub mod rust_example;
pub mod steps;
pub mod summation;
