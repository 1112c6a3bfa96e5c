use vstd::prelude::*;

use crate::error::{DecodeError, EncodeError};
use crate::format::WireFormat;
use crate::mesh::{Mesh, Triangle};
use crate::wire::{
    lemma_body_be_index, lemma_body_be_len, lemma_body_be_snoc, lemma_triangle_be_round,
    lemma_u64_be_bytes, push_triangle_be, push_u64_be, read_triangle_be, read_u64_be,
    spec_body_be, spec_triangle_of_be, spec_u64_from_be_bytes, spec_u64_to_be_bytes,
};

verus! {

/// The packed big-endian format: a 64-bit big-endian triangle count, then
/// each triangle as 48 big-endian bytes, nothing else.
pub struct PackedBe;

/// The exact packed big-endian encoding of a triangle sequence.
pub open spec fn spec_packed_be_encode(ts: Seq<Triangle>) -> Seq<u8>
    recommends
        ts.len() <= u64::MAX,
{
    spec_u64_to_be_bytes(ts.len() as u64) + spec_body_be(ts)
}

/// What decoding packed big-endian bytes yields.
pub open spec fn spec_packed_be_decode(b: Seq<u8>) -> Result<Seq<Triangle>, DecodeError> {
    if b.len() < 8 {
        Err(DecodeError::Truncated)
    } else {
        let c = spec_u64_from_be_bytes(b.subrange(0, 8)) as int;
        if b.len() < 8 + 48 * c {
            Err(DecodeError::Truncated)
        } else if b.len() > 8 + 48 * c {
            Err(DecodeError::Malformed)
        } else {
            Ok(
                Seq::new(
                    c as nat,
                    |i: int| spec_triangle_of_be(b.subrange(8 + 48 * i, 8 + 48 * i + 48)),
                ),
            )
        }
    }
}

proof fn lemma_packed_be_encode_len(ts: Seq<Triangle>)
    requires
        ts.len() <= u64::MAX,
    ensures
        spec_packed_be_encode(ts).len() == 8 + 48 * ts.len(),
{
    lemma_u64_be_bytes(ts.len() as u64);
    lemma_body_be_len(ts);
}

impl WireFormat for PackedBe {
    open spec fn spec_encode(ts: Seq<Triangle>) -> Seq<u8> {
        spec_packed_be_encode(ts)
    }

    open spec fn spec_decode(b: Seq<u8>) -> Result<Seq<Triangle>, DecodeError> {
        spec_packed_be_decode(b)
    }

    open spec fn overhead() -> nat {
        8
    }

    open spec fn max_count() -> nat {
        u64::MAX as nat
    }

    open spec fn spec_name() -> Seq<char> {
        "packed_be"@
    }

    proof fn lemma_encode_len(ts: Seq<Triangle>) {
        lemma_packed_be_encode_len(ts);
    }

    proof fn lemma_round_trip(ts: Seq<Triangle>) {
        lemma_u64_be_bytes(ts.len() as u64);
        lemma_body_be_len(ts);
        let enc = spec_packed_be_encode(ts);
        assert(enc.subrange(0, 8) =~= spec_u64_to_be_bytes(ts.len() as u64));
        let c = spec_u64_from_be_bytes(enc.subrange(0, 8)) as int;
        assert(c == ts.len());
        let dec = Seq::new(
            c as nat,
            |i: int| spec_triangle_of_be(enc.subrange(8 + 48 * i, 8 + 48 * i + 48)),
        );
        assert forall|i: int| 0 <= i < ts.len() implies dec[i] == ts[i] by {
            assert(enc.subrange(8 + 48 * i, 8 + 48 * i + 48) =~= spec_body_be(ts).subrange(
                48 * i,
                48 * i + 48,
            ));
            lemma_body_be_index(ts, i);
            lemma_triangle_be_round(ts[i]);
        }
        assert(dec =~= ts);
    }

    proof fn lemma_truncated(ts: Seq<Triangle>, k: int) {
        lemma_u64_be_bytes(ts.len() as u64);
        lemma_body_be_len(ts);
        let enc = spec_packed_be_encode(ts);
        let p = enc.take(k);
        if k >= 8 {
            assert(p.subrange(0, 8) =~= enc.subrange(0, 8));
            assert(enc.subrange(0, 8) =~= spec_u64_to_be_bytes(ts.len() as u64));
            assert(spec_u64_from_be_bytes(p.subrange(0, 8)) as int == ts.len());
        }
    }

    fn format_name() -> (s: &'static str) {
        "packed_be"
    }

    fn to_wire(m: &Mesh) -> (r: Result<Vec<u8>, EncodeError>) {
        let c = m.triangles.len();
        let needed: u128 = 8 + 48 * (c as u128);
        if needed > (usize::MAX as u128) {
            return Err(EncodeError::BufferExhausted);
        }
        let mut buf: Vec<u8> = Vec::new();
        push_u64_be(&mut buf, c as u64);
        let mut i: usize = 0;
        while i < c
            invariant
                i <= c,
                c == m@.len(),
                buf@ == spec_u64_to_be_bytes(c as u64) + spec_body_be(m@.take(i as int)),
            decreases c - i,
        {
            let t = m.triangles[i];
            push_triangle_be(&mut buf, &t);
            proof {
                lemma_body_be_snoc(m@, i as int);
                assert(buf@ =~= spec_u64_to_be_bytes(c as u64) + spec_body_be(
                    m@.take(i as int + 1),
                ));
            }
            i = i + 1;
        }
        proof {
            assert(m@.take(c as int) =~= m@);
        }
        Ok(buf)
    }

    fn from_wire(b: &[u8]) -> (r: Result<Mesh, DecodeError>) {
        let n = b.len();
        if n < 8 {
            return Err(DecodeError::Truncated);
        }
        let c64 = read_u64_be(b, 0);
        let need: u128 = 8 + 48 * (c64 as u128);
        if (n as u128) < need {
            return Err(DecodeError::Truncated);
        }
        if (n as u128) > need {
            return Err(DecodeError::Malformed);
        }
        let count = c64 as usize;
        let mut ts: Vec<Triangle> = Vec::new();
        let mut i: usize = 0;
        while i < count
            invariant
                i <= count,
                n == b@.len(),
                n as int == 8 + 48 * (count as int),
                ts@.len() == i,
                forall|j: int|
                    0 <= j < i ==> ts@[j] == spec_triangle_of_be(
                        b@.subrange(8 + 48 * j, 8 + 48 * j + 48),
                    ),
            decreases count - i,
        {
            let t = read_triangle_be(b, 8 + 48 * i);
            ts.push(t);
            i = i + 1;
        }
        proof {
            let c = spec_u64_from_be_bytes(b@.subrange(0, 8)) as int;
            assert(ts@ =~= Seq::new(
                c as nat,
                |j: int| spec_triangle_of_be(b@.subrange(8 + 48 * j, 8 + 48 * j + 48)),
            ));
        }
        Ok(Mesh { triangles: ts })
    }

    fn encoded_size(m: &Mesh) -> (r: Result<usize, EncodeError>) {
        let c = m.triangles.len();
        let needed: u128 = 8 + 48 * (c as u128);
        if needed > (usize::MAX as u128) {
            return Err(EncodeError::BufferExhausted);
        }
        proof {
            lemma_packed_be_encode_len(m@);
        }
        Ok(needed as usize)
    }
}

} // verus!
