use vstd::prelude::*;

use vstd::arithmetic::div_mod::lemma_add_mod_noop;
use vstd::bytes::{
    lemma_auto_spec_u32_to_from_le_bytes, lemma_auto_spec_u64_to_from_le_bytes,
    spec_u32_from_le_bytes, spec_u32_to_le_bytes, spec_u64_from_le_bytes, spec_u64_to_le_bytes,
    u32_from_le_bytes, u32_to_le_bytes, u64_from_le_bytes, u64_to_le_bytes,
};
use vstd::slice::{slice_index_get, slice_subrange};

use crate::mesh::{Triangle, Vector3};

verus! {

/// The big-endian four-byte layout of a word: the little-endian one
/// reversed.
pub open spec fn spec_u32_to_be_bytes(x: u32) -> Seq<u8> {
    let l = spec_u32_to_le_bytes(x);
    seq![l[3], l[2], l[1], l[0]]
}

/// The word whose big-endian layout a four-byte sequence is.
pub open spec fn spec_u32_from_be_bytes(s: Seq<u8>) -> u32
    recommends
        s.len() == 4,
{
    spec_u32_from_le_bytes(seq![s[3], s[2], s[1], s[0]])
}

/// The big-endian eight-byte layout of a long word.
pub open spec fn spec_u64_to_be_bytes(x: u64) -> Seq<u8> {
    let l = spec_u64_to_le_bytes(x);
    seq![l[7], l[6], l[5], l[4], l[3], l[2], l[1], l[0]]
}

/// The long word whose big-endian layout an eight-byte sequence is.
pub open spec fn spec_u64_from_be_bytes(s: Seq<u8>) -> u64
    recommends
        s.len() == 8,
{
    spec_u64_from_le_bytes(seq![s[7], s[6], s[5], s[4], s[3], s[2], s[1], s[0]])
}

pub proof fn lemma_u32_be_bytes(x: u32)
    ensures
        spec_u32_to_be_bytes(x).len() == 4,
        spec_u32_from_be_bytes(spec_u32_to_be_bytes(x)) == x,
{
    lemma_auto_spec_u32_to_from_le_bytes();
    let b = spec_u32_to_be_bytes(x);
    assert(seq![b[3], b[2], b[1], b[0]] =~= spec_u32_to_le_bytes(x));
}

pub proof fn lemma_u64_be_bytes(x: u64)
    ensures
        spec_u64_to_be_bytes(x).len() == 8,
        spec_u64_from_be_bytes(spec_u64_to_be_bytes(x)) == x,
{
    lemma_auto_spec_u64_to_from_le_bytes();
    let b = spec_u64_to_be_bytes(x);
    assert(seq![b[7], b[6], b[5], b[4], b[3], b[2], b[1], b[0]] =~= spec_u64_to_le_bytes(x));
}

/// A vector on the wire: its three components in field order, four bytes
/// each, little-endian.
pub open spec fn spec_vector3_le(v: Vector3) -> Seq<u8> {
    spec_u32_to_le_bytes(v.x) + spec_u32_to_le_bytes(v.y) + spec_u32_to_le_bytes(v.z)
}

/// A vector on the wire with big-endian components.
pub open spec fn spec_vector3_be(v: Vector3) -> Seq<u8> {
    spec_u32_to_be_bytes(v.x) + spec_u32_to_be_bytes(v.y) + spec_u32_to_be_bytes(v.z)
}

/// The vector a twelve-byte little-endian sequence holds.
pub open spec fn spec_vector3_of_le(s: Seq<u8>) -> Vector3
    recommends
        s.len() == 12,
{
    Vector3 {
        x: spec_u32_from_le_bytes(s.subrange(0, 4)),
        y: spec_u32_from_le_bytes(s.subrange(4, 8)),
        z: spec_u32_from_le_bytes(s.subrange(8, 12)),
    }
}

/// The vector a twelve-byte big-endian sequence holds.
pub open spec fn spec_vector3_of_be(s: Seq<u8>) -> Vector3
    recommends
        s.len() == 12,
{
    Vector3 {
        x: spec_u32_from_be_bytes(s.subrange(0, 4)),
        y: spec_u32_from_be_bytes(s.subrange(4, 8)),
        z: spec_u32_from_be_bytes(s.subrange(8, 12)),
    }
}

/// A triangle on the wire: its four vectors in field order, 48 bytes,
/// little-endian. The triangle layout is stated purely in terms of the
/// vector layout, never re-deriving component encoding.
pub open spec fn spec_triangle_le(t: Triangle) -> Seq<u8> {
    spec_vector3_le(t.v0) + spec_vector3_le(t.v1) + spec_vector3_le(t.v2) + spec_vector3_le(
        t.normal,
    )
}

/// A triangle on the wire with big-endian components.
pub open spec fn spec_triangle_be(t: Triangle) -> Seq<u8> {
    spec_vector3_be(t.v0) + spec_vector3_be(t.v1) + spec_vector3_be(t.v2) + spec_vector3_be(
        t.normal,
    )
}

/// The triangle a 48-byte little-endian sequence holds.
pub open spec fn spec_triangle_of_le(s: Seq<u8>) -> Triangle
    recommends
        s.len() == 48,
{
    Triangle {
        v0: spec_vector3_of_le(s.subrange(0, 12)),
        v1: spec_vector3_of_le(s.subrange(12, 24)),
        v2: spec_vector3_of_le(s.subrange(24, 36)),
        normal: spec_vector3_of_le(s.subrange(36, 48)),
    }
}

/// The triangle a 48-byte big-endian sequence holds.
pub open spec fn spec_triangle_of_be(s: Seq<u8>) -> Triangle
    recommends
        s.len() == 48,
{
    Triangle {
        v0: spec_vector3_of_be(s.subrange(0, 12)),
        v1: spec_vector3_of_be(s.subrange(12, 24)),
        v2: spec_vector3_of_be(s.subrange(24, 36)),
        normal: spec_vector3_of_be(s.subrange(36, 48)),
    }
}

pub proof fn lemma_vector3_le_round(v: Vector3)
    ensures
        spec_vector3_le(v).len() == 12,
        spec_vector3_of_le(spec_vector3_le(v)) == v,
{
    lemma_auto_spec_u32_to_from_le_bytes();
    let s = spec_vector3_le(v);
    assert(s.subrange(0, 4) =~= spec_u32_to_le_bytes(v.x));
    assert(s.subrange(4, 8) =~= spec_u32_to_le_bytes(v.y));
    assert(s.subrange(8, 12) =~= spec_u32_to_le_bytes(v.z));
}

pub proof fn lemma_vector3_be_round(v: Vector3)
    ensures
        spec_vector3_be(v).len() == 12,
        spec_vector3_of_be(spec_vector3_be(v)) == v,
{
    lemma_u32_be_bytes(v.x);
    lemma_u32_be_bytes(v.y);
    lemma_u32_be_bytes(v.z);
    let s = spec_vector3_be(v);
    assert(s.subrange(0, 4) =~= spec_u32_to_be_bytes(v.x));
    assert(s.subrange(4, 8) =~= spec_u32_to_be_bytes(v.y));
    assert(s.subrange(8, 12) =~= spec_u32_to_be_bytes(v.z));
}

pub proof fn lemma_triangle_le_round(t: Triangle)
    ensures
        spec_triangle_le(t).len() == 48,
        spec_triangle_of_le(spec_triangle_le(t)) == t,
{
    lemma_vector3_le_round(t.v0);
    lemma_vector3_le_round(t.v1);
    lemma_vector3_le_round(t.v2);
    lemma_vector3_le_round(t.normal);
    let s = spec_triangle_le(t);
    assert(s.subrange(0, 12) =~= spec_vector3_le(t.v0));
    assert(s.subrange(12, 24) =~= spec_vector3_le(t.v1));
    assert(s.subrange(24, 36) =~= spec_vector3_le(t.v2));
    assert(s.subrange(36, 48) =~= spec_vector3_le(t.normal));
}

pub proof fn lemma_triangle_be_round(t: Triangle)
    ensures
        spec_triangle_be(t).len() == 48,
        spec_triangle_of_be(spec_triangle_be(t)) == t,
{
    lemma_vector3_be_round(t.v0);
    lemma_vector3_be_round(t.v1);
    lemma_vector3_be_round(t.v2);
    lemma_vector3_be_round(t.normal);
    let s = spec_triangle_be(t);
    assert(s.subrange(0, 12) =~= spec_vector3_be(t.v0));
    assert(s.subrange(12, 24) =~= spec_vector3_be(t.v1));
    assert(s.subrange(24, 36) =~= spec_vector3_be(t.v2));
    assert(s.subrange(36, 48) =~= spec_vector3_be(t.normal));
}

/// Appends the little-endian bytes of a word.
pub fn push_u32_le(buf: &mut Vec<u8>, x: u32)
    ensures
        final(buf)@ == old(buf)@ + spec_u32_to_le_bytes(x),
{
    let mut b = u32_to_le_bytes(x);
    buf.append(&mut b);
}

/// Appends the big-endian bytes of a word.
pub fn push_u32_be(buf: &mut Vec<u8>, x: u32)
    ensures
        final(buf)@ == old(buf)@ + spec_u32_to_be_bytes(x),
{
    let b = u32_to_le_bytes(x);
    buf.push(b[3]);
    buf.push(b[2]);
    buf.push(b[1]);
    buf.push(b[0]);
    assert(buf@ =~= old(buf)@ + spec_u32_to_be_bytes(x));
}

/// Appends the big-endian bytes of a long word.
pub fn push_u64_be(buf: &mut Vec<u8>, x: u64)
    ensures
        final(buf)@ == old(buf)@ + spec_u64_to_be_bytes(x),
{
    let b = u64_to_le_bytes(x);
    buf.push(b[7]);
    buf.push(b[6]);
    buf.push(b[5]);
    buf.push(b[4]);
    buf.push(b[3]);
    buf.push(b[2]);
    buf.push(b[1]);
    buf.push(b[0]);
    assert(buf@ =~= old(buf)@ + spec_u64_to_be_bytes(x));
}

/// Reads the little-endian word at `off`.
pub fn read_u32_le(b: &[u8], off: usize) -> (x: u32)
    requires
        off + 4 <= b@.len(),
    ensures
        x == spec_u32_from_le_bytes(b@.subrange(off as int, off + 4)),
{
    let n = b.len();
    assert(off + 4 <= n);
    u32_from_le_bytes(slice_subrange(b, off, off + 4))
}

/// Reads the big-endian word at `off`.
pub fn read_u32_be(b: &[u8], off: usize) -> (x: u32)
    requires
        off + 4 <= b@.len(),
    ensures
        x == spec_u32_from_be_bytes(b@.subrange(off as int, off + 4)),
{
    let n = b.len();
    assert(off + 4 <= n);
    let mut tmp: Vec<u8> = Vec::new();
    tmp.push(*slice_index_get(b, off + 3));
    tmp.push(*slice_index_get(b, off + 2));
    tmp.push(*slice_index_get(b, off + 1));
    tmp.push(*slice_index_get(b, off));
    let ghost s = b@.subrange(off as int, off + 4);
    assert(tmp@ =~= seq![s[3], s[2], s[1], s[0]]);
    u32_from_le_bytes(tmp.as_slice())
}

/// Reads the big-endian long word at `off`.
pub fn read_u64_be(b: &[u8], off: usize) -> (x: u64)
    requires
        off + 8 <= b@.len(),
    ensures
        x == spec_u64_from_be_bytes(b@.subrange(off as int, off + 8)),
{
    let n = b.len();
    assert(off + 8 <= n);
    let mut tmp: Vec<u8> = Vec::new();
    tmp.push(*slice_index_get(b, off + 7));
    tmp.push(*slice_index_get(b, off + 6));
    tmp.push(*slice_index_get(b, off + 5));
    tmp.push(*slice_index_get(b, off + 4));
    tmp.push(*slice_index_get(b, off + 3));
    tmp.push(*slice_index_get(b, off + 2));
    tmp.push(*slice_index_get(b, off + 1));
    tmp.push(*slice_index_get(b, off));
    let ghost s = b@.subrange(off as int, off + 8);
    assert(tmp@ =~= seq![s[7], s[6], s[5], s[4], s[3], s[2], s[1], s[0]]);
    u64_from_le_bytes(tmp.as_slice())
}

/// Appends a vector, components little-endian.
pub fn push_vector3_le(buf: &mut Vec<u8>, v: &Vector3)
    ensures
        final(buf)@ == old(buf)@ + spec_vector3_le(*v),
{
    push_u32_le(buf, v.x);
    push_u32_le(buf, v.y);
    push_u32_le(buf, v.z);
    assert(buf@ =~= old(buf)@ + spec_vector3_le(*v));
}

/// Appends a vector, components big-endian.
pub fn push_vector3_be(buf: &mut Vec<u8>, v: &Vector3)
    ensures
        final(buf)@ == old(buf)@ + spec_vector3_be(*v),
{
    push_u32_be(buf, v.x);
    push_u32_be(buf, v.y);
    push_u32_be(buf, v.z);
    assert(buf@ =~= old(buf)@ + spec_vector3_be(*v));
}

/// Appends a triangle by appending its four vectors: the triangle adapter
/// is written purely in terms of the vector adapter.
pub fn push_triangle_le(buf: &mut Vec<u8>, t: &Triangle)
    ensures
        final(buf)@ == old(buf)@ + spec_triangle_le(*t),
{
    push_vector3_le(buf, &t.v0);
    push_vector3_le(buf, &t.v1);
    push_vector3_le(buf, &t.v2);
    push_vector3_le(buf, &t.normal);
    assert(buf@ =~= old(buf)@ + spec_triangle_le(*t));
}

/// Appends a triangle with big-endian components.
pub fn push_triangle_be(buf: &mut Vec<u8>, t: &Triangle)
    ensures
        final(buf)@ == old(buf)@ + spec_triangle_be(*t),
{
    push_vector3_be(buf, &t.v0);
    push_vector3_be(buf, &t.v1);
    push_vector3_be(buf, &t.v2);
    push_vector3_be(buf, &t.normal);
    assert(buf@ =~= old(buf)@ + spec_triangle_be(*t));
}

/// Reads the little-endian vector at `off`.
pub fn read_vector3_le(b: &[u8], off: usize) -> (v: Vector3)
    requires
        off + 12 <= b@.len(),
    ensures
        v == spec_vector3_of_le(b@.subrange(off as int, off + 12)),
{
    let n = b.len();
    assert(off + 12 <= n);
    let x = read_u32_le(b, off);
    let y = read_u32_le(b, off + 4);
    let z = read_u32_le(b, off + 8);
    let ghost s = b@.subrange(off as int, off + 12);
    assert(s.subrange(0, 4) =~= b@.subrange(off as int, off + 4));
    assert(s.subrange(4, 8) =~= b@.subrange(off + 4, off + 8));
    assert(s.subrange(8, 12) =~= b@.subrange(off + 8, off + 12));
    Vector3 { x, y, z }
}

/// Reads the big-endian vector at `off`.
pub fn read_vector3_be(b: &[u8], off: usize) -> (v: Vector3)
    requires
        off + 12 <= b@.len(),
    ensures
        v == spec_vector3_of_be(b@.subrange(off as int, off + 12)),
{
    let n = b.len();
    assert(off + 12 <= n);
    let x = read_u32_be(b, off);
    let y = read_u32_be(b, off + 4);
    let z = read_u32_be(b, off + 8);
    let ghost s = b@.subrange(off as int, off + 12);
    assert(s.subrange(0, 4) =~= b@.subrange(off as int, off + 4));
    assert(s.subrange(4, 8) =~= b@.subrange(off + 4, off + 8));
    assert(s.subrange(8, 12) =~= b@.subrange(off + 8, off + 12));
    Vector3 { x, y, z }
}

/// Reads the little-endian triangle at `off`, one vector at a time.
pub fn read_triangle_le(b: &[u8], off: usize) -> (t: Triangle)
    requires
        off + 48 <= b@.len(),
    ensures
        t == spec_triangle_of_le(b@.subrange(off as int, off + 48)),
{
    let n = b.len();
    assert(off + 48 <= n);
    let v0 = read_vector3_le(b, off);
    let v1 = read_vector3_le(b, off + 12);
    let v2 = read_vector3_le(b, off + 24);
    let normal = read_vector3_le(b, off + 36);
    let ghost s = b@.subrange(off as int, off + 48);
    assert(s.subrange(0, 12) =~= b@.subrange(off as int, off + 12));
    assert(s.subrange(12, 24) =~= b@.subrange(off + 12, off + 24));
    assert(s.subrange(24, 36) =~= b@.subrange(off + 24, off + 36));
    assert(s.subrange(36, 48) =~= b@.subrange(off + 36, off + 48));
    Triangle { v0, v1, v2, normal }
}

/// Reads the big-endian triangle at `off`.
pub fn read_triangle_be(b: &[u8], off: usize) -> (t: Triangle)
    requires
        off + 48 <= b@.len(),
    ensures
        t == spec_triangle_of_be(b@.subrange(off as int, off + 48)),
{
    let n = b.len();
    assert(off + 48 <= n);
    let v0 = read_vector3_be(b, off);
    let v1 = read_vector3_be(b, off + 12);
    let v2 = read_vector3_be(b, off + 24);
    let normal = read_vector3_be(b, off + 36);
    let ghost s = b@.subrange(off as int, off + 48);
    assert(s.subrange(0, 12) =~= b@.subrange(off as int, off + 12));
    assert(s.subrange(12, 24) =~= b@.subrange(off + 12, off + 24));
    assert(s.subrange(24, 36) =~= b@.subrange(off + 24, off + 36));
    assert(s.subrange(36, 48) =~= b@.subrange(off + 36, off + 48));
    Triangle { v0, v1, v2, normal }
}

/// The sum of a byte sequence, for the tagged format's checksum.
pub open spec fn byte_sum(s: Seq<u8>) -> nat
    decreases s.len(),
{
    if s.len() == 0 {
        0
    } else {
        (byte_sum(s.drop_last()) + s.last()) as nat
    }
}

/// The checksum of a byte sequence: its sum reduced to one byte.
pub open spec fn checksum_of(s: Seq<u8>) -> u8 {
    (byte_sum(s) % 256) as u8
}

proof fn lemma_byte_sum_take_snoc(s: Seq<u8>, i: int)
    requires
        0 <= i < s.len(),
    ensures
        byte_sum(s.take(i + 1)) == byte_sum(s.take(i)) + s[i],
{
    assert(s.take(i + 1).drop_last() =~= s.take(i));
    assert(s.take(i + 1).last() == s[i]);
}

/// Computes the checksum of a byte slice; the running remainder matches
/// the specification sum at every step.
pub fn checksum(b: &[u8]) -> (c: u8)
    ensures
        c == checksum_of(b@),
{
    let n = b.len();
    let mut acc: u32 = 0;
    let mut i: usize = 0;
    while i < n
        invariant
            i <= n,
            n == b@.len(),
            acc == byte_sum(b@.take(i as int)) % 256,
        decreases n - i,
    {
        let byte = *slice_index_get(b, i);
        proof {
            lemma_byte_sum_take_snoc(b@, i as int);
            lemma_add_mod_noop(byte_sum(b@.take(i as int)) as int, byte as int, 256);
            assert(byte as int % 256 == byte as int);
        }
        acc = (acc + byte as u32) % 256;
        i = i + 1;
    }
    assert(b@.take(n as int) =~= b@);
    acc as u8
}

/// The explicit little-endian byte layout of a four-word identifier, in
/// place of any in-memory reinterpretation: word `k` occupies bytes
/// `4k..4k+4`, least significant first.
pub fn identifier_words_to_le_bytes(w0: u32, w1: u32, w2: u32, w3: u32) -> (r: Vec<u8>)
    ensures
        r@ == spec_u32_to_le_bytes(w0) + spec_u32_to_le_bytes(w1) + spec_u32_to_le_bytes(w2)
            + spec_u32_to_le_bytes(w3),
        r@.len() == 16,
{
    let mut r: Vec<u8> = Vec::new();
    push_u32_le(&mut r, w0);
    push_u32_le(&mut r, w1);
    push_u32_le(&mut r, w2);
    push_u32_le(&mut r, w3);
    proof {
        lemma_auto_spec_u32_to_from_le_bytes();
        assert(r@ =~= spec_u32_to_le_bytes(w0) + spec_u32_to_le_bytes(w1) + spec_u32_to_le_bytes(
            w2,
        ) + spec_u32_to_le_bytes(w3));
    }
    r
}


/// The wire body of a triangle sequence: each triangle's bytes in order,
/// little-endian. The mesh layout is stated purely in terms of the
/// triangle layout.
pub open spec fn spec_body_le(ts: Seq<Triangle>) -> Seq<u8>
    decreases ts.len(),
{
    if ts.len() == 0 {
        Seq::empty()
    } else {
        spec_body_le(ts.drop_last()) + spec_triangle_le(ts.last())
    }
}

/// The wire body with big-endian components.
pub open spec fn spec_body_be(ts: Seq<Triangle>) -> Seq<u8>
    decreases ts.len(),
{
    if ts.len() == 0 {
        Seq::empty()
    } else {
        spec_body_be(ts.drop_last()) + spec_triangle_be(ts.last())
    }
}

pub proof fn lemma_body_le_len(ts: Seq<Triangle>)
    ensures
        spec_body_le(ts).len() == 48 * ts.len(),
    decreases ts.len(),
{
    if ts.len() > 0 {
        lemma_body_le_len(ts.drop_last());
        lemma_triangle_le_round(ts.last());
    }
}

pub proof fn lemma_body_be_len(ts: Seq<Triangle>)
    ensures
        spec_body_be(ts).len() == 48 * ts.len(),
    decreases ts.len(),
{
    if ts.len() > 0 {
        lemma_body_be_len(ts.drop_last());
        lemma_triangle_be_round(ts.last());
    }
}

pub proof fn lemma_body_le_snoc(ts: Seq<Triangle>, i: int)
    requires
        0 <= i < ts.len(),
    ensures
        spec_body_le(ts.take(i + 1)) == spec_body_le(ts.take(i)) + spec_triangle_le(ts[i]),
{
    assert(ts.take(i + 1).drop_last() =~= ts.take(i));
    assert(ts.take(i + 1).last() == ts[i]);
}

pub proof fn lemma_body_be_snoc(ts: Seq<Triangle>, i: int)
    requires
        0 <= i < ts.len(),
    ensures
        spec_body_be(ts.take(i + 1)) == spec_body_be(ts.take(i)) + spec_triangle_be(ts[i]),
{
    assert(ts.take(i + 1).drop_last() =~= ts.take(i));
    assert(ts.take(i + 1).last() == ts[i]);
}

pub proof fn lemma_body_le_index(ts: Seq<Triangle>, i: int)
    requires
        0 <= i < ts.len(),
    ensures
        spec_body_le(ts).subrange(48 * i, 48 * i + 48) == spec_triangle_le(ts[i]),
    decreases ts.len(),
{
    let pre = ts.drop_last();
    let t = ts.last();
    lemma_body_le_len(ts);
    lemma_body_le_len(pre);
    lemma_triangle_le_round(t);
    if i == ts.len() - 1 {
        assert(spec_body_le(ts).subrange(48 * i, 48 * i + 48) =~= spec_triangle_le(t));
    } else {
        lemma_body_le_index(pre, i);
        assert(spec_body_le(ts).subrange(48 * i, 48 * i + 48) =~= spec_body_le(pre).subrange(
            48 * i,
            48 * i + 48,
        ));
    }
}

pub proof fn lemma_body_be_index(ts: Seq<Triangle>, i: int)
    requires
        0 <= i < ts.len(),
    ensures
        spec_body_be(ts).subrange(48 * i, 48 * i + 48) == spec_triangle_be(ts[i]),
    decreases ts.len(),
{
    let pre = ts.drop_last();
    let t = ts.last();
    lemma_body_be_len(ts);
    lemma_body_be_len(pre);
    lemma_triangle_be_round(t);
    if i == ts.len() - 1 {
        assert(spec_body_be(ts).subrange(48 * i, 48 * i + 48) =~= spec_triangle_be(t));
    } else {
        lemma_body_be_index(pre, i);
        assert(spec_body_be(ts).subrange(48 * i, 48 * i + 48) =~= spec_body_be(pre).subrange(
            48 * i,
            48 * i + 48,
        ));
    }
}

} // verus!
