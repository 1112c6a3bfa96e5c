use vstd::prelude::*;

use vstd::bytes::spec_u32_from_le_bytes;

use crate::error::DecodeError;
use crate::mesh::Triangle;
use crate::packed_le::spec_packed_le_decode;
use crate::wire::{read_triangle_le, read_u32_le};

verus! {

/// A zero-copy view over a packed little-endian encoding: it borrows the
/// backing buffer for its whole lifetime and projects triangles out of it
/// on demand, copying nothing up front. Construction performs the same
/// structural checks as decoding, so a well-formed view always projects
/// exactly the triangles that decoding the buffer would produce.
pub struct MeshView<'a> {
    bytes: &'a [u8],
}

impl<'a> MeshView<'a> {
    /// The triangles the backing buffer encodes.
    pub closed spec fn spec_triangles(&self) -> Seq<Triangle> {
        spec_packed_le_decode(self.bytes@)->Ok_0
    }

    /// A view is well formed when its backing buffer is a valid packed
    /// little-endian encoding.
    pub closed spec fn wf(&self) -> bool {
        spec_packed_le_decode(self.bytes@) is Ok
    }

    /// Checks the buffer's frame (count word and exact length) and wraps
    /// it; no triangle is read or copied. Fails exactly as decoding the
    /// buffer would.
    pub fn new(bytes: &'a [u8]) -> (r: Result<MeshView<'a>, DecodeError>)
        ensures
            match r {
                Ok(v) => {
                    &&& v.wf()
                    &&& spec_packed_le_decode(bytes@) == Ok::<Seq<Triangle>, DecodeError>(
                        v.spec_triangles(),
                    )
                },
                Err(e) => spec_packed_le_decode(bytes@) == Err::<Seq<Triangle>, DecodeError>(e),
            },
    {
        let n = bytes.len();
        if n < 4 {
            return Err(DecodeError::Truncated);
        }
        let c32 = read_u32_le(bytes, 0);
        let need: u64 = 4 + 48 * (c32 as u64);
        if (n as u64) < need {
            return Err(DecodeError::Truncated);
        }
        if (n as u64) > need {
            return Err(DecodeError::Malformed);
        }
        Ok(MeshView { bytes })
    }

    /// How many triangles the view projects.
    pub fn triangle_count(&self) -> (n: usize)
        requires
            self.wf(),
        ensures
            n == self.spec_triangles().len(),
    {
        let c32 = read_u32_le(self.bytes, 0);
        c32 as usize
    }

    /// Projects one triangle straight out of the backing bytes: the same
    /// value, field for field, that decoding the whole buffer would put
    /// at this index.
    pub fn triangle(&self, i: usize) -> (t: Triangle)
        requires
            self.wf(),
            i < self.spec_triangles().len(),
        ensures
            t == self.spec_triangles()[i as int],
    {
        let n = self.bytes.len();
        proof {
            let b = self.bytes@;
            let c = spec_u32_from_le_bytes(b.subrange(0, 4)) as int;
            assert(b.len() == 4 + 48 * c);
            assert(4 + 48 * (i as int) + 48 <= n as int);
        }
        read_triangle_le(self.bytes, 4 + 48 * i)
    }
}

} // verus!
