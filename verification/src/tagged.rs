use vstd::prelude::*;

use vstd::bytes::{lemma_auto_spec_u32_to_from_le_bytes, spec_u32_from_le_bytes, spec_u32_to_le_bytes};
use vstd::slice::{slice_index_get, slice_subrange};

use crate::error::{DecodeError, EncodeError};
use crate::format::WireFormat;
use crate::mesh::{Mesh, Triangle};
use crate::wire::{
    checksum, checksum_of, lemma_body_le_index, lemma_body_le_len, lemma_body_le_snoc,
    lemma_triangle_le_round, push_triangle_le, push_u32_le, read_triangle_le, read_u32_le,
    spec_body_le, spec_triangle_of_le,
};

verus! {

/// First magic byte of the tagged format.
pub const TAG_MAGIC0: u8 = 0x4D;

/// Second magic byte of the tagged format.
pub const TAG_MAGIC1: u8 = 0x53;

/// The tagged, checked format: two magic bytes, a 32-bit little-endian
/// triangle count, each triangle as 48 little-endian bytes, and a final
/// checksum byte over everything before it.
pub struct Tagged;

/// The bytes of a tagged encoding before its checksum byte.
pub open spec fn spec_tagged_payload(ts: Seq<Triangle>) -> Seq<u8>
    recommends
        ts.len() <= u32::MAX,
{
    seq![TAG_MAGIC0, TAG_MAGIC1] + spec_u32_to_le_bytes(ts.len() as u32) + spec_body_le(ts)
}

/// The exact tagged encoding of a triangle sequence.
pub open spec fn spec_tagged_encode(ts: Seq<Triangle>) -> Seq<u8>
    recommends
        ts.len() <= u32::MAX,
{
    spec_tagged_payload(ts).push(checksum_of(spec_tagged_payload(ts)))
}

/// What decoding tagged bytes yields.
pub open spec fn spec_tagged_decode(b: Seq<u8>) -> Result<Seq<Triangle>, DecodeError> {
    if b.len() < 7 {
        Err(DecodeError::Truncated)
    } else if b[0] != TAG_MAGIC0 || b[1] != TAG_MAGIC1 {
        Err(DecodeError::Malformed)
    } else {
        let c = spec_u32_from_le_bytes(b.subrange(2, 6)) as int;
        if b.len() < 7 + 48 * c {
            Err(DecodeError::Truncated)
        } else if b.len() > 7 + 48 * c {
            Err(DecodeError::Malformed)
        } else if checksum_of(b.take(b.len() - 1)) != b[b.len() - 1] {
            Err(DecodeError::ValidationFailed)
        } else {
            Ok(
                Seq::new(
                    c as nat,
                    |i: int| spec_triangle_of_le(b.subrange(6 + 48 * i, 6 + 48 * i + 48)),
                ),
            )
        }
    }
}

proof fn lemma_tagged_encode_len(ts: Seq<Triangle>)
    requires
        ts.len() <= u32::MAX,
    ensures
        spec_tagged_payload(ts).len() == 6 + 48 * ts.len(),
        spec_tagged_encode(ts).len() == 7 + 48 * ts.len(),
{
    lemma_auto_spec_u32_to_from_le_bytes();
    lemma_body_le_len(ts);
}

impl WireFormat for Tagged {
    open spec fn spec_encode(ts: Seq<Triangle>) -> Seq<u8> {
        spec_tagged_encode(ts)
    }

    open spec fn spec_decode(b: Seq<u8>) -> Result<Seq<Triangle>, DecodeError> {
        spec_tagged_decode(b)
    }

    open spec fn overhead() -> nat {
        7
    }

    open spec fn max_count() -> nat {
        u32::MAX as nat
    }

    open spec fn spec_name() -> Seq<char> {
        "tagged"@
    }

    proof fn lemma_encode_len(ts: Seq<Triangle>) {
        lemma_tagged_encode_len(ts);
    }

    proof fn lemma_round_trip(ts: Seq<Triangle>) {
        lemma_auto_spec_u32_to_from_le_bytes();
        lemma_body_le_len(ts);
        lemma_tagged_encode_len(ts);
        let p = spec_tagged_payload(ts);
        let enc = spec_tagged_encode(ts);
        assert(enc[0] == TAG_MAGIC0);
        assert(enc[1] == TAG_MAGIC1);
        assert(enc.subrange(2, 6) =~= spec_u32_to_le_bytes(ts.len() as u32));
        let c = spec_u32_from_le_bytes(enc.subrange(2, 6)) as int;
        assert(c == ts.len());
        assert(enc.take(enc.len() - 1) =~= p);
        assert(enc[enc.len() - 1] == checksum_of(p));
        let dec = Seq::new(
            c as nat,
            |i: int| spec_triangle_of_le(enc.subrange(6 + 48 * i, 6 + 48 * i + 48)),
        );
        assert forall|i: int| 0 <= i < ts.len() implies dec[i] == ts[i] by {
            assert(enc.subrange(6 + 48 * i, 6 + 48 * i + 48) =~= spec_body_le(ts).subrange(
                48 * i,
                48 * i + 48,
            ));
            lemma_body_le_index(ts, i);
            lemma_triangle_le_round(ts[i]);
        }
        assert(dec =~= ts);
    }

    proof fn lemma_truncated(ts: Seq<Triangle>, k: int) {
        lemma_auto_spec_u32_to_from_le_bytes();
        lemma_body_le_len(ts);
        lemma_tagged_encode_len(ts);
        let enc = spec_tagged_encode(ts);
        let p = enc.take(k);
        if k >= 7 {
            assert(p[0] == enc[0]);
            assert(p[1] == enc[1]);
            assert(enc[0] == TAG_MAGIC0);
            assert(enc[1] == TAG_MAGIC1);
            assert(p.subrange(2, 6) =~= enc.subrange(2, 6));
            assert(enc.subrange(2, 6) =~= spec_u32_to_le_bytes(ts.len() as u32));
            assert(spec_u32_from_le_bytes(p.subrange(2, 6)) as int == ts.len());
        }
    }

    fn format_name() -> (s: &'static str) {
        "tagged"
    }

    fn to_wire(m: &Mesh) -> (r: Result<Vec<u8>, EncodeError>) {
        let c = m.triangles.len();
        if (c as u64) > (u32::MAX as u64) {
            return Err(EncodeError::FormatSpecific);
        }
        let needed: u64 = 7 + 48 * (c as u64);
        if needed > (usize::MAX as u64) {
            return Err(EncodeError::BufferExhausted);
        }
        let mut buf: Vec<u8> = Vec::new();
        buf.push(TAG_MAGIC0);
        buf.push(TAG_MAGIC1);
        push_u32_le(&mut buf, c as u32);
        proof {
            assert(buf@ =~= seq![TAG_MAGIC0, TAG_MAGIC1] + spec_u32_to_le_bytes(c as u32)
                + spec_body_le(m@.take(0)));
        }
        let mut i: usize = 0;
        while i < c
            invariant
                i <= c,
                c == m@.len(),
                c <= u32::MAX,
                buf@ == seq![TAG_MAGIC0, TAG_MAGIC1] + spec_u32_to_le_bytes(c as u32)
                    + spec_body_le(m@.take(i as int)),
            decreases c - i,
        {
            let t = m.triangles[i];
            push_triangle_le(&mut buf, &t);
            proof {
                lemma_body_le_snoc(m@, i as int);
                assert(buf@ =~= seq![TAG_MAGIC0, TAG_MAGIC1] + spec_u32_to_le_bytes(c as u32)
                    + spec_body_le(m@.take(i as int + 1)));
            }
            i = i + 1;
        }
        proof {
            assert(m@.take(c as int) =~= m@);
            assert(buf@ =~= spec_tagged_payload(m@));
        }
        let ck = checksum(buf.as_slice());
        buf.push(ck);
        Ok(buf)
    }

    fn from_wire(b: &[u8]) -> (r: Result<Mesh, DecodeError>) {
        let n = b.len();
        if n < 7 {
            return Err(DecodeError::Truncated);
        }
        let b0 = *slice_index_get(b, 0);
        let b1 = *slice_index_get(b, 1);
        if b0 != TAG_MAGIC0 || b1 != TAG_MAGIC1 {
            return Err(DecodeError::Malformed);
        }
        let c32 = read_u32_le(b, 2);
        let need: u64 = 7 + 48 * (c32 as u64);
        if (n as u64) < need {
            return Err(DecodeError::Truncated);
        }
        if (n as u64) > need {
            return Err(DecodeError::Malformed);
        }
        let ck = checksum(slice_subrange(b, 0, n - 1));
        let lastb = *slice_index_get(b, n - 1);
        proof {
            assert(b@.subrange(0, n - 1) =~= b@.take(n - 1));
        }
        if ck != lastb {
            return Err(DecodeError::ValidationFailed);
        }
        let count = c32 as usize;
        let mut ts: Vec<Triangle> = Vec::new();
        let mut i: usize = 0;
        while i < count
            invariant
                i <= count,
                n == b@.len(),
                n as int == 7 + 48 * (count as int),
                ts@.len() == i,
                forall|j: int|
                    0 <= j < i ==> ts@[j] == spec_triangle_of_le(
                        b@.subrange(6 + 48 * j, 6 + 48 * j + 48),
                    ),
            decreases count - i,
        {
            let t = read_triangle_le(b, 6 + 48 * i);
            ts.push(t);
            i = i + 1;
        }
        proof {
            let c = spec_u32_from_le_bytes(b@.subrange(2, 6)) as int;
            assert(ts@ =~= Seq::new(
                c as nat,
                |j: int| spec_triangle_of_le(b@.subrange(6 + 48 * j, 6 + 48 * j + 48)),
            ));
        }
        Ok(Mesh { triangles: ts })
    }

    fn encoded_size(m: &Mesh) -> (r: Result<usize, EncodeError>) {
        let c = m.triangles.len();
        if (c as u64) > (u32::MAX as u64) {
            return Err(EncodeError::FormatSpecific);
        }
        let needed: u64 = 7 + 48 * (c as u64);
        if needed > (usize::MAX as u64) {
            return Err(EncodeError::BufferExhausted);
        }
        proof {
            lemma_tagged_encode_len(m@);
        }
        Ok(needed as usize)
    }
}

} // verus!
