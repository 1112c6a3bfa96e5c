use vstd::prelude::*;

use crate::error::{DecodeError, EncodeError};
use crate::mesh::{Mesh, Triangle};

verus! {

/// The capability a wire format offers the benchmark: turn a mesh into
/// bytes, turn bytes back into a mesh, and measure the encoding. Each
/// format pins its whole byte layout with `spec_encode` and `spec_decode`,
/// and every implementation must prove the laws below: the encoding's
/// length is the format's fixed overhead plus 48 bytes per triangle,
/// decoding an encoding gives the mesh back, and decoding any non-empty
/// proper prefix of an encoding fails.
pub trait WireFormat {
    /// The exact bytes this format produces for a triangle sequence.
    spec fn spec_encode(ts: Seq<Triangle>) -> Seq<u8>
        recommends
            ts.len() <= Self::max_count(),
    ;

    /// What decoding a byte sequence yields: the triangles it encodes, or
    /// the error that rejects it.
    spec fn spec_decode(b: Seq<u8>) -> Result<Seq<Triangle>, DecodeError>;

    /// The per-message byte cost: what an empty mesh encodes to.
    spec fn overhead() -> nat;

    /// The largest triangle count the format's count field can hold.
    spec fn max_count() -> nat;

    /// The format's name, for grouping benchmark results.
    spec fn spec_name() -> Seq<char>;

    /// An encoding is the fixed overhead plus 48 bytes per triangle: in
    /// particular it is never empty, it grows monotonically with the
    /// triangle count, and an empty mesh costs exactly the overhead.
    proof fn lemma_encode_len(ts: Seq<Triangle>)
        requires
            ts.len() <= Self::max_count(),
        ensures
            Self::spec_encode(ts).len() == Self::overhead() + 48 * ts.len(),
            Self::overhead() > 0,
    ;

    /// Round trip: decoding an encoding yields the encoded triangles.
    proof fn lemma_round_trip(ts: Seq<Triangle>)
        requires
            ts.len() <= Self::max_count(),
        ensures
            Self::spec_decode(Self::spec_encode(ts)) == Ok::<Seq<Triangle>, DecodeError>(ts),
    ;

    /// Truncation: decoding any non-empty proper prefix of an encoding
    /// reports a truncated buffer, never a silently wrong value.
    proof fn lemma_truncated(ts: Seq<Triangle>, k: int)
        requires
            ts.len() <= Self::max_count(),
            0 < k < Self::spec_encode(ts).len(),
        ensures
            Self::spec_decode(Self::spec_encode(ts).take(k)) == Err::<Seq<Triangle>, DecodeError>(
                DecodeError::Truncated,
            ),
    ;

    /// The format's name as a string.
    fn format_name() -> (s: &'static str)
        ensures
            s@ == Self::spec_name(),
    ;

    /// Encodes a mesh. Fails with `FormatSpecific` exactly when the
    /// triangle count does not fit the format's count field, and with
    /// `BufferExhausted` exactly when the encoding would not fit in
    /// memory; otherwise the returned buffer is the format's encoding,
    /// byte for byte.
    fn to_wire(m: &Mesh) -> (r: Result<Vec<u8>, EncodeError>)
        ensures
            match r {
                Ok(b) => m@.len() <= Self::max_count() && Self::overhead() + 48 * m@.len()
                    <= usize::MAX && b@ == Self::spec_encode(m@),
                Err(e) => match e {
                    EncodeError::FormatSpecific => m@.len() > Self::max_count(),
                    EncodeError::BufferExhausted => m@.len() <= Self::max_count()
                        && Self::overhead() + 48 * m@.len() > usize::MAX,
                },
            },
    ;

    /// Decodes a buffer: returns exactly what `spec_decode` says, mesh or
    /// error.
    fn from_wire(b: &[u8]) -> (r: Result<Mesh, DecodeError>)
        ensures
            match r {
                Ok(m) => Self::spec_decode(b@) == Ok::<Seq<Triangle>, DecodeError>(m@),
                Err(e) => Self::spec_decode(b@) == Err::<Seq<Triangle>, DecodeError>(e),
            },
    ;

    /// The byte count of the mesh's encoding, without producing it; fails
    /// as `to_wire` does.
    fn encoded_size(m: &Mesh) -> (r: Result<usize, EncodeError>)
        ensures
            match r {
                Ok(n) => m@.len() <= Self::max_count() && n == Self::spec_encode(m@).len(),
                Err(e) => match e {
                    EncodeError::FormatSpecific => m@.len() > Self::max_count(),
                    EncodeError::BufferExhausted => m@.len() <= Self::max_count()
                        && Self::overhead() + 48 * m@.len() > usize::MAX,
                },
            },
    ;
}

/// The encoded size is strictly positive, and monotonically non-decreasing
/// in the triangle count: a mesh with at least as many triangles never
/// encodes smaller, under any one format.
pub proof fn lemma_size_positive_monotone<F: WireFormat>(a: Seq<Triangle>, b: Seq<Triangle>)
    requires
        a.len() <= b.len(),
        b.len() <= F::max_count(),
    ensures
        F::spec_encode(a).len() > 0,
        F::spec_encode(a).len() <= F::spec_encode(b).len(),
{
    F::lemma_encode_len(a);
    F::lemma_encode_len(b);
}

/// Two formats with different per-message overheads give the same
/// triangle sequence encodings of different lengths, yet each decodes its
/// own encoding back to the same triangles.
pub proof fn lemma_formats_disagree_on_size<F: WireFormat, G: WireFormat>(ts: Seq<Triangle>)
    requires
        ts.len() <= F::max_count(),
        ts.len() <= G::max_count(),
        F::overhead() != G::overhead(),
    ensures
        F::spec_encode(ts).len() != G::spec_encode(ts).len(),
        F::spec_decode(F::spec_encode(ts)) == Ok::<Seq<Triangle>, DecodeError>(ts),
        G::spec_decode(G::spec_encode(ts)) == Ok::<Seq<Triangle>, DecodeError>(ts),
{
    F::lemma_encode_len(ts);
    G::lemma_encode_len(ts);
    F::lemma_round_trip(ts);
    G::lemma_round_trip(ts);
}

} // verus!
