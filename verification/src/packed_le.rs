use vstd::prelude::*;

use vstd::bytes::{lemma_auto_spec_u32_to_from_le_bytes, spec_u32_from_le_bytes, spec_u32_to_le_bytes};

use crate::error::{DecodeError, EncodeError};
use crate::format::WireFormat;
use crate::mesh::{Mesh, Triangle};
use crate::wire::{
    lemma_body_le_index, lemma_body_le_len, lemma_body_le_snoc, lemma_triangle_le_round,
    push_triangle_le, push_u32_le, read_triangle_le, read_u32_le, spec_body_le,
    spec_triangle_of_le,
};

verus! {

/// The packed little-endian format: a 32-bit little-endian triangle
/// count, then each triangle as 48 little-endian bytes, nothing else.
pub struct PackedLe;

/// The exact packed little-endian encoding of a triangle sequence.
pub open spec fn spec_packed_le_encode(ts: Seq<Triangle>) -> Seq<u8>
    recommends
        ts.len() <= u32::MAX,
{
    spec_u32_to_le_bytes(ts.len() as u32) + spec_body_le(ts)
}

/// What decoding packed little-endian bytes yields.
pub open spec fn spec_packed_le_decode(b: Seq<u8>) -> Result<Seq<Triangle>, DecodeError> {
    if b.len() < 4 {
        Err(DecodeError::Truncated)
    } else {
        let c = spec_u32_from_le_bytes(b.subrange(0, 4)) as int;
        if b.len() < 4 + 48 * c {
            Err(DecodeError::Truncated)
        } else if b.len() > 4 + 48 * c {
            Err(DecodeError::Malformed)
        } else {
            Ok(
                Seq::new(
                    c as nat,
                    |i: int| spec_triangle_of_le(b.subrange(4 + 48 * i, 4 + 48 * i + 48)),
                ),
            )
        }
    }
}

proof fn lemma_packed_le_encode_len(ts: Seq<Triangle>)
    requires
        ts.len() <= u32::MAX,
    ensures
        spec_packed_le_encode(ts).len() == 4 + 48 * ts.len(),
{
    lemma_auto_spec_u32_to_from_le_bytes();
    lemma_body_le_len(ts);
}

impl WireFormat for PackedLe {
    open spec fn spec_encode(ts: Seq<Triangle>) -> Seq<u8> {
        spec_packed_le_encode(ts)
    }

    open spec fn spec_decode(b: Seq<u8>) -> Result<Seq<Triangle>, DecodeError> {
        spec_packed_le_decode(b)
    }

    open spec fn overhead() -> nat {
        4
    }

    open spec fn max_count() -> nat {
        u32::MAX as nat
    }

    open spec fn spec_name() -> Seq<char> {
        "packed_le"@
    }

    proof fn lemma_encode_len(ts: Seq<Triangle>) {
        lemma_packed_le_encode_len(ts);
    }

    proof fn lemma_round_trip(ts: Seq<Triangle>) {
        lemma_auto_spec_u32_to_from_le_bytes();
        lemma_body_le_len(ts);
        let enc = spec_packed_le_encode(ts);
        assert(enc.subrange(0, 4) =~= spec_u32_to_le_bytes(ts.len() as u32));
        let c = spec_u32_from_le_bytes(enc.subrange(0, 4)) as int;
        assert(c == ts.len());
        let dec = Seq::new(
            c as nat,
            |i: int| spec_triangle_of_le(enc.subrange(4 + 48 * i, 4 + 48 * i + 48)),
        );
        assert forall|i: int| 0 <= i < ts.len() implies dec[i] == ts[i] by {
            assert(enc.subrange(4 + 48 * i, 4 + 48 * i + 48) =~= spec_body_le(ts).subrange(
                48 * i,
                48 * i + 48,
            ));
            lemma_body_le_index(ts, i);
            lemma_triangle_le_round(ts[i]);
        }
        assert(dec =~= ts);
    }

    proof fn lemma_truncated(ts: Seq<Triangle>, k: int) {
        lemma_auto_spec_u32_to_from_le_bytes();
        lemma_body_le_len(ts);
        let enc = spec_packed_le_encode(ts);
        let p = enc.take(k);
        if k >= 4 {
            assert(p.subrange(0, 4) =~= enc.subrange(0, 4));
            assert(enc.subrange(0, 4) =~= spec_u32_to_le_bytes(ts.len() as u32));
            assert(spec_u32_from_le_bytes(p.subrange(0, 4)) as int == ts.len());
        }
    }

    fn format_name() -> (s: &'static str) {
        "packed_le"
    }

    fn to_wire(m: &Mesh) -> (r: Result<Vec<u8>, EncodeError>) {
        let c = m.triangles.len();
        if (c as u64) > (u32::MAX as u64) {
            return Err(EncodeError::FormatSpecific);
        }
        let needed: u64 = 4 + 48 * (c as u64);
        if needed > (usize::MAX as u64) {
            return Err(EncodeError::BufferExhausted);
        }
        let mut buf: Vec<u8> = Vec::new();
        push_u32_le(&mut buf, c as u32);
        let mut i: usize = 0;
        while i < c
            invariant
                i <= c,
                c == m@.len(),
                c <= u32::MAX,
                buf@ == spec_u32_to_le_bytes(c as u32) + spec_body_le(m@.take(i as int)),
            decreases c - i,
        {
            let t = m.triangles[i];
            push_triangle_le(&mut buf, &t);
            proof {
                lemma_body_le_snoc(m@, i as int);
                assert(buf@ =~= spec_u32_to_le_bytes(c as u32) + spec_body_le(
                    m@.take(i as int + 1),
                ));
            }
            i = i + 1;
        }
        proof {
            assert(m@.take(c as int) =~= m@);
        }
        Ok(buf)
    }

    fn from_wire(b: &[u8]) -> (r: Result<Mesh, DecodeError>) {
        let n = b.len();
        if n < 4 {
            return Err(DecodeError::Truncated);
        }
        let c32 = read_u32_le(b, 0);
        let need: u64 = 4 + 48 * (c32 as u64);
        if (n as u64) < need {
            return Err(DecodeError::Truncated);
        }
        if (n as u64) > need {
            return Err(DecodeError::Malformed);
        }
        let count = c32 as usize;
        let mut ts: Vec<Triangle> = Vec::new();
        let mut i: usize = 0;
        while i < count
            invariant
                i <= count,
                n == b@.len(),
                n as int == 4 + 48 * (count as int),
                ts@.len() == i,
                forall|j: int|
                    0 <= j < i ==> ts@[j] == spec_triangle_of_le(
                        b@.subrange(4 + 48 * j, 4 + 48 * j + 48),
                    ),
            decreases count - i,
        {
            let t = read_triangle_le(b, 4 + 48 * i);
            ts.push(t);
            i = i + 1;
        }
        proof {
            let c = spec_u32_from_le_bytes(b@.subrange(0, 4)) as int;
            assert(ts@ =~= Seq::new(
                c as nat,
                |j: int| spec_triangle_of_le(b@.subrange(4 + 48 * j, 4 + 48 * j + 48)),
            ));
        }
        Ok(Mesh { triangles: ts })
    }

    fn encoded_size(m: &Mesh) -> (r: Result<usize, EncodeError>) {
        let c = m.triangles.len();
        if (c as u64) > (u32::MAX as u64) {
            return Err(EncodeError::FormatSpecific);
        }
        let needed: u64 = 4 + 48 * (c as u64);
        if needed > (usize::MAX as u64) {
            return Err(EncodeError::BufferExhausted);
        }
        proof {
            lemma_packed_le_encode_len(m@);
        }
        Ok(needed as usize)
    }
}

} // verus!
