//! Decision logic for two financial performance metrics.
//!
//! The internal rate of return of a cash-flow sequence is found by reading
//! the sequence as the coefficients of a polynomial, collecting the
//! polynomial's roots, and selecting a rate from the admissible roots.  The
//! time-weighted rate of return chains per-period holding returns.  Floating
//! point arithmetic (root extraction, the rate transform, the geometric
//! chain) lives outside this crate; here every double is carried as its raw
//! IEEE-754 bit pattern, and the rules that decide which roots are
//! admissible, which candidate wins, and which inputs are accepted are
//! stated and proved over those patterns.

pub mod float_bits;
pub mod irr;
pub mod polynomial;
pub mod twrr;
