use vstd::prelude::*;

verus! {

/// Why producing a wire representation failed. `BufferExhausted` means the
/// encoding would not fit the available space and the caller may retry the
/// scenario setup with a larger buffer; `FormatSpecific` means the value
/// cannot be represented in the format at all (its count field is too
/// narrow) and the scenario is fatal.
#[derive(Clone, Copy, PartialEq, Eq, Structural, Debug)]
pub enum EncodeError {
    BufferExhausted,
    FormatSpecific,
}

/// Why reading a wire representation back failed. All three are fatal to
/// the scenario that hit them.
#[derive(Clone, Copy, PartialEq, Eq, Structural, Debug)]
pub enum DecodeError {
    /// The buffer ends before the encoding does.
    Truncated,
    /// The bytes do not follow the format's layout (bad magic, trailing
    /// garbage).
    Malformed,
    /// The layout is right but a structural validity check (a checksum)
    /// does not hold.
    ValidationFailed,
}

/// Which half of a benchmark scenario was running when an error surfaced.
#[derive(Clone, Copy, PartialEq, Eq, Structural, Debug)]
pub enum Phase {
    Serialize,
    Deserialize,
}

/// The error that ended a scenario, tagged with the side it came from.
#[derive(Clone, Copy, PartialEq, Eq, Structural, Debug)]
pub enum ScenarioError {
    Encode(EncodeError),
    Decode(DecodeError),
}

/// A scenario-scoped failure report: which format, which phase, which
/// error. The driver hands this out instead of aborting the whole sweep.
#[derive(Clone, Copy, Debug)]
pub struct ScenarioFailure {
    pub format: &'static str,
    pub phase: Phase,
    pub error: ScenarioError,
}

} // verus!
