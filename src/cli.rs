//! The run's configuration.

use vstd::prelude::*;

verus! {

/// What a run is configured with.
pub struct Args {
    /// The input CSV file.
    pub input_csv: String,
    /// The output CSV file; standard output where absent.
    pub output_csv: Option<String>,
    /// The most transactions waiting in one worker's queue.
    pub queue_depth: usize,
    /// The number of workers: 0 for all the host offers, negative for that
    /// many fewer (at least one).
    pub workers: isize,
}

} // verus!
