//! Verified core of a pull-request benchmark pipeline for a linting tool.
//!
//! The library contains the decision logic of the pipeline: resolving which
//! upstream revision a change targets, modeling the two version-control
//! working trees and their idempotent cleanup, grafting the tool
//! subdirectory, deriving run identifiers, and sequencing the build and
//! benchmark stages.  All file, network, and process work is left to an
//! unverified shell that drives this library.

pub mod errors;
pub mod graft;
pub mod ident;
pub mod pipeline;
pub mod tree;
pub mod version;
