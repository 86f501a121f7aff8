//! Verified core of a small model-inference service.
//!
//! The engine turns a six-element feature vector and a selected model
//! representation (logistic, single decision tree, or random forest) into a
//! prediction.  All numeric values are carried as IEEE-754 double-precision
//! bit patterns (`u64`) and compared through an explicit total order, so the
//! structural logic (tree descent, argmax, majority vote, dispatch, model
//! decoding) is verified end to end; floating-point arithmetic itself
//! (dot product, sigmoid) is left to the unverified edge around the library.

pub mod codec;
pub mod dispatch;
pub mod error;
pub mod features;
pub mod forest;
pub mod linear;
pub mod numeric;
pub mod tree;
pub mod value;
