use vstd::prelude::*;

use crate::error::{DecodeError, EncodeError, Phase, ScenarioError, ScenarioFailure};
use crate::format::WireFormat;
use crate::mesh::{Mesh, Triangle};

verus! {

/// What a completed scenario reports: the format it ran and the single,
/// untimed byte count of the canonical encoded buffer.
pub struct ScenarioReport {
    pub format: &'static str,
    pub encoded_size: usize,
}

/// Encodes the mesh once, outside any timed loop, to serve as the fixed
/// input that every deserialize iteration replays. On success the buffer
/// is the format's encoding of the mesh and is proven to decode back to
/// it; on failure the report names the serialize phase and the encode
/// error.
pub fn canonical_buffer<F: WireFormat>(m: &Mesh) -> (r: Result<Vec<u8>, ScenarioFailure>)
    ensures
        match r {
            Ok(b) => {
                &&& m@.len() <= F::max_count()
                &&& b@ == F::spec_encode(m@)
                &&& F::spec_decode(b@) == Ok::<Seq<Triangle>, DecodeError>(m@)
            },
            Err(f) => {
                &&& f.phase == Phase::Serialize
                &&& f.format@ == F::spec_name()
                &&& match f.error {
                    ScenarioError::Encode(e) => match e {
                        EncodeError::FormatSpecific => m@.len() > F::max_count(),
                        EncodeError::BufferExhausted => m@.len() <= F::max_count()
                            && F::overhead() + 48 * m@.len() > usize::MAX,
                    },
                    ScenarioError::Decode(_) => false,
                }
            },
        },
{
    match F::to_wire(m) {
        Ok(b) => {
            proof {
                F::lemma_round_trip(m@);
            }
            Ok(b)
        },
        Err(e) => Err(
            ScenarioFailure {
                format: F::format_name(),
                phase: Phase::Serialize,
                error: ScenarioError::Encode(e),
            },
        ),
    }
}

/// Runs one (mesh, format) scenario outside the timed loops: produces the
/// canonical buffer, replays one decode against it, and measures its
/// size. A decode failure on the canonical buffer would mean a defect in
/// the format itself, and the round-trip law rules it out, so the only
/// failures this can report come from the serialize phase.
pub fn run_scenario<F: WireFormat>(m: &Mesh) -> (r: Result<ScenarioReport, ScenarioFailure>)
    ensures
        match r {
            Ok(rep) => {
                &&& m@.len() <= F::max_count()
                &&& rep.encoded_size == F::spec_encode(m@).len()
                &&& rep.format@ == F::spec_name()
            },
            Err(f) => {
                &&& f.phase == Phase::Serialize
                &&& f.format@ == F::spec_name()
                &&& match f.error {
                    ScenarioError::Encode(e) => match e {
                        EncodeError::FormatSpecific => m@.len() > F::max_count(),
                        EncodeError::BufferExhausted => m@.len() <= F::max_count()
                            && F::overhead() + 48 * m@.len() > usize::MAX,
                    },
                    ScenarioError::Decode(_) => false,
                }
            },
        },
{
    let buf = match canonical_buffer::<F>(m) {
        Ok(b) => b,
        Err(f) => {
            return Err(f);
        },
    };
    match F::from_wire(buf.as_slice()) {
        Ok(_decoded) => Ok(
            ScenarioReport { format: F::format_name(), encoded_size: buf.len() },
        ),
        Err(e) => {
            proof {
                assert(false);
            }
            Err(
                ScenarioFailure {
                    format: F::format_name(),
                    phase: Phase::Deserialize,
                    error: ScenarioError::Decode(e),
                },
            )
        },
    }
}

} // verus!
