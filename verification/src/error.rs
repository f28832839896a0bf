use vstd::prelude::*;

verus! {

/// Why an operation of the controller failed. Every failure is final: nothing
/// is retried.
#[derive(Debug, Clone, Copy, PartialEq, Eq)]
pub enum FanError {
    /// A sensor or the fan could not be opened, read or written.
    Io,
    /// A sensor's content is not a non-negative integer of milli-degrees.
    Format,
    /// A mean was asked for over no sensor at all.
    EmptyInput,
}

} // verus!
