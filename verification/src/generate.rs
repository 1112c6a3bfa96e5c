use vstd::prelude::*;

use crate::mesh::{Mesh, Triangle, Vector3};

verus! {

/// The word that a standard random source seeded with `seed` hands out on
/// its `pos`-th draw. For a fixed crate version the draw sequence of the
/// standard generator is a pure function of the seed, so the name is
/// well defined; nothing more is assumed of its values.
pub uninterp spec fn stream_word(seed: u64, pos: nat) -> u32;

#[verifier::external_type_specification]
#[verifier::external_body]
pub struct ExStdRng(rand::rngs::StdRng);

/// A caller-supplied pseudo-random stream: the collaborator the generator
/// draws from. It remembers (in ghost state) the seed it was built from
/// and how many words it has handed out, so that everything generated
/// from it is pinned to `stream_word`.
pub struct Source {
    rng: rand::rngs::StdRng,
    seed: Ghost<u64>,
    pos: Ghost<nat>,
}

/// Relies on `rand::SeedableRng::seed_from_u64` for `StdRng`: building the
/// generator from a 64-bit seed. Nothing is stated of the returned value;
/// it is opaque, and what its draws are is stated where they are made.
#[verifier::external_body]
fn std_rng_from_seed(seed: u64) -> (r: rand::rngs::StdRng) {
    <rand::rngs::StdRng as rand::SeedableRng>::seed_from_u64(seed)
}

impl Source {
    /// The seed this source was built from.
    pub closed spec fn seed(&self) -> u64 {
        self.seed@
    }

    /// How many words this source has handed out so far.
    pub closed spec fn pos(&self) -> nat {
        self.pos@
    }

    /// A fresh source at the start of the stream that `seed` determines.
    pub fn from_seed(seed: u64) -> (s: Source)
        ensures
            s.seed() == seed,
            s.pos() == 0,
    {
        Source { rng: std_rng_from_seed(seed), seed: Ghost(seed), pos: Ghost(0nat) }
    }

    /// Relies on `rand::Rng::gen::<u32>` on `StdRng`: the `pos`-th draw
    /// from a generator seeded with `seed` is the same in every process,
    /// which is what `stream_word` names. The private fields keep the
    /// ghost pair (seed, pos) in step with the real generator state:
    /// every constructor starts both at the head of the stream and this
    /// is the only method that advances either.
    #[verifier::external_body]
    pub fn next_u32(&mut self) -> (r: u32)
        ensures
            final(self).seed() == old(self).seed(),
            final(self).pos() == old(self).pos() + 1,
            r == stream_word(old(self).seed(), old(self).pos()),
    {
        rand::Rng::gen(&mut self.rng)
    }
}

/// The vector that generation at stream position `pos` yields: the next
/// three words, one per component.
pub open spec fn vector3_at(seed: u64, pos: nat) -> Vector3 {
    Vector3 {
        x: stream_word(seed, pos),
        y: stream_word(seed, (pos + 1) as nat),
        z: stream_word(seed, (pos + 2) as nat),
    }
}

/// The triangle that generation at stream position `pos` yields: four
/// vectors generated in field order, twelve words in all.
pub open spec fn triangle_at(seed: u64, pos: nat) -> Triangle {
    Triangle {
        v0: vector3_at(seed, pos),
        v1: vector3_at(seed, (pos + 3) as nat),
        v2: vector3_at(seed, (pos + 6) as nat),
        normal: vector3_at(seed, (pos + 9) as nat),
    }
}

/// The sequence of `n` triangles that generation at stream position `pos`
/// yields, each consuming twelve words.
pub open spec fn triangles_at(seed: u64, pos: nat, n: nat) -> Seq<Triangle> {
    Seq::new(n, |i: int| triangle_at(seed, (pos + 12 * i) as nat))
}

/// The length drawn from `[lo, hi)` by the word at stream position `pos`.
pub open spec fn length_at(seed: u64, pos: nat, lo: usize, hi: usize) -> int
    recommends
        lo < hi,
{
    lo + (stream_word(seed, pos) as int) % (hi - lo)
}

/// Generation recurses structurally: a vector takes the next three words
/// of the stream.
pub fn generate_vector3(src: &mut Source) -> (v: Vector3)
    ensures
        v == vector3_at(old(src).seed(), old(src).pos()),
        final(src).seed() == old(src).seed(),
        final(src).pos() == old(src).pos() + 3,
{
    let x = src.next_u32();
    let y = src.next_u32();
    let z = src.next_u32();
    Vector3 { x, y, z }
}

/// A triangle takes the next twelve words: four vectors in field order.
pub fn generate_triangle(src: &mut Source) -> (t: Triangle)
    ensures
        t == triangle_at(old(src).seed(), old(src).pos()),
        final(src).seed() == old(src).seed(),
        final(src).pos() == old(src).pos() + 12,
{
    let v0 = generate_vector3(src);
    let v1 = generate_vector3(src);
    let v2 = generate_vector3(src);
    let normal = generate_vector3(src);
    Triangle { v0, v1, v2, normal }
}

proof fn lemma_triangles_at_snoc(seed: u64, pos: nat, n: nat)
    ensures
        triangles_at(seed, pos, (n + 1) as nat) == triangles_at(seed, pos, n).push(
            triangle_at(seed, (pos + 12 * n) as nat),
        ),
{
    assert(triangles_at(seed, pos, (n + 1) as nat) =~= triangles_at(seed, pos, n).push(
        triangle_at(seed, (pos + 12 * n) as nat),
    ));
}

/// Draws a count from the half-open range `[lo, hi)` with the first word,
/// then generates that many triangles. Fixing the source's seed and
/// position fixes the whole result: the count and every triangle are
/// functions of them alone, which is what makes generation reproducible.
pub fn generate_triangles(src: &mut Source, lo: usize, hi: usize) -> (ts: Vec<Triangle>)
    requires
        lo < hi,
    ensures
        ts@.len() == length_at(old(src).seed(), old(src).pos(), lo, hi),
        lo <= ts@.len() < hi,
        ts@ == triangles_at(old(src).seed(), (old(src).pos() + 1) as nat, ts@.len() as nat),
        final(src).seed() == old(src).seed(),
        final(src).pos() == old(src).pos() + 1 + 12 * ts@.len(),
{
    let ghost seed = src.seed();
    let ghost pos0 = src.pos();
    let word = src.next_u32();
    let span: usize = hi - lo;
    let len: usize = lo + (word as usize) % span;
    let mut ts: Vec<Triangle> = Vec::new();
    let mut i: usize = 0;
    while i < len
        invariant
            i <= len,
            len == length_at(seed, pos0, lo, hi),
            lo < hi,
            src.seed() == seed,
            src.pos() == pos0 + 1 + 12 * i,
            ts@.len() == i,
            ts@ == triangles_at(seed, (pos0 + 1) as nat, i as nat),
        decreases len - i,
    {
        let t = generate_triangle(src);
        proof {
            lemma_triangles_at_snoc(seed, (pos0 + 1) as nat, i as nat);
        }
        ts.push(t);
        i = i + 1;
    }
    ts
}

/// Generates a whole mesh: the triangle count is drawn from `[lo, hi)`
/// and the triangles follow, all from the given source.
pub fn generate_mesh(src: &mut Source, lo: usize, hi: usize) -> (m: Mesh)
    requires
        lo < hi,
    ensures
        m@.len() == length_at(old(src).seed(), old(src).pos(), lo, hi),
        lo <= m@.len() < hi,
        m@ == triangles_at(old(src).seed(), (old(src).pos() + 1) as nat, m@.len() as nat),
        final(src).seed() == old(src).seed(),
        final(src).pos() == old(src).pos() + 1 + 12 * m@.len(),
{
    let triangles = generate_triangles(src, lo, hi);
    Mesh { triangles }
}

} // verus!
