//! The core of a Monte-Carlo scan over the coupling space of a
//! renormalization-group flow.
//!
//! A scan draws random points in the space of couplings, follows each along
//! the flow from a high scale down to a low one, and records how the
//! trajectory ended: unbroken, unstable from the start, broken on the way, or
//! no longer perturbative. The outcomes are collected in two-dimensional
//! histograms over pairs of coupling axes and drawn as pictures.
//!
//! This crate holds the decisions of that scan:
//!
//! - [`util::scalar`]: binary64 numbers by bit pattern, compared, negated
//!   and cut to whole numbers exactly;
//! - [`util::polysolver`]: which closed-form formula gives the real roots of
//!   a polynomial, and which of its values are roots;
//! - [`util::stability`]: the verdict on the stability of the vacuum and its
//!   witnesses;
//! - [`simulation`]: the steps of one trajectory and the classification of
//!   its end;
//! - [`scanner`]: the accounting of a scan on one worker and on several, and
//!   the consumers that collect the results;
//! - [`util::image`]: the histogram layers, and the pictures drawn of them.
//!
//! Every operation that rounds is left to the caller: the caller evaluates
//! the formulas of a model in binary64 arithmetic and hands the values in as
//! [`util::scalar::Scalar`]s.

pub mod scanner;
pub mod simulation;
pub mod util;
