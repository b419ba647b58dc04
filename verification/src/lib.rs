//! Integer division with selectable rounding and cumulative-error feedback.
//!
//! Splitting one division into several (dividing each part of a dividend by
//! the same divisor) lets per-call rounding errors pile up: three calls of
//! `20 / 3` rounded to the nearest integer give `7 + 7 + 7 = 21`, while
//! `60 / 3 = 20`. This crate provides
//!
//! - [`checked_divide_with_rounding`]: stateless division under one of five
//!   rounding policies, and
//! - [`checked_divide_with_cum_error`]: the same division with a caller-owned
//!   accumulator that carries the rounding error of each call into the next,
//!   so that the sum of the returned quotients tracks the quotient of the
//!   summed dividends.
//!
//! Both are generic over the primitive signed integer widths through the
//! [`PrimSignedInt`] trait. Impossible divisions (divisor zero, or a
//! quotient outside the representable range) return `None`; nothing
//! overflows, wraps or panics as long as the error-feedback divider's
//! caller keeps the accumulator invariant it is given back after every
//! call.

pub mod aggregate;
pub mod divide;
pub mod divmod;
pub mod feedback;
pub mod magnitude;
pub mod prim_int;
pub mod rounding;

pub use divide::{checked_divide, checked_divide_with_cum_error, checked_divide_with_rounding};
pub use prim_int::PrimSignedInt;
pub use rounding::Rounding;
