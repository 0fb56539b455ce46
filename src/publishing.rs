//! The reference publisher.
use vstd::prelude::*;

verus! {

/// The reference publisher: writes marks and funding updates as lines on
/// standard output. The writing itself lives with the program that runs the
/// oracle loop.
#[derive(Debug, Clone, Copy)]
pub struct StdoutPublisher;

} // verus!
