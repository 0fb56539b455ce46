//! Metrics hooks; this build records nothing.
use vstd::prelude::*;

verus! {

/// A labelled counter family. This build keeps no counts: every operation is
/// a no-op, so metrics never affect the oracle.
pub struct IntCounterVec;

/// A labelled histogram family; a no-op like `IntCounterVec`.
pub struct HistogramVec;

impl IntCounterVec {
    /// The counter for `labels`.
    pub fn with_label_values(&self, labels: &[&str]) -> (r: &Self)
        ensures
            r == self,
    {
        self
    }

    pub fn inc(&self) {
    }
}

impl HistogramVec {
    /// The histogram for `labels`.
    pub fn with_label_values(&self, labels: &[&str]) -> (r: &Self)
        ensures
            r == self,
    {
        self
    }
}

/// Sets up the metrics registry (nothing to do in this build).
pub fn init() {
}

/// Counts one event `name` under `label` (a no-op in this build).
pub fn inc(name: &str, label: &str) {
}

} // verus!
