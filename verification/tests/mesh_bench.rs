use mesh_bench::driver::run_scenario;
use mesh_bench::error::DecodeError;
use mesh_bench::format::WireFormat;
use mesh_bench::generate::{generate_mesh, generate_triangle, Source};
use mesh_bench::mesh::{Mesh, Triangle, Vector3};
use mesh_bench::packed_be::PackedBe;
use mesh_bench::packed_le::PackedLe;
use mesh_bench::tagged::Tagged;
use mesh_bench::view::MeshView;
use mesh_bench::wire::identifier_words_to_le_bytes;

fn v(x: u32, y: u32, z: u32) -> Vector3 {
    Vector3 { x, y, z }
}

fn two_triangle_mesh() -> Mesh {
    let t0 = Triangle {
        v0: v(1, 2, 3),
        v1: v(4, 5, 6),
        v2: v(7, 8, 9),
        normal: v(10, 11, 12),
    };
    let t1 = Triangle {
        v0: v(0xDEADBEEF, 0, 0xFFFFFFFF),
        v1: v(13, 14, 15),
        v2: v(16, 17, 18),
        normal: v(19, 20, 21),
    };
    Mesh { triangles: vec![t0, t1] }
}

#[test]
fn generated_count_lies_in_range() {
    let mut src = Source::from_seed(7);
    let m = generate_mesh(&mut src, 3, 9);
    let n = m.triangle_count();
    assert!(3 <= n && n < 9);
}

#[test]
fn generation_is_reproducible() {
    let mut a = Source::from_seed(7);
    let mut b = Source::from_seed(7);
    let ma = generate_mesh(&mut a, 3, 9);
    let mb = generate_mesh(&mut b, 3, 9);
    assert_eq!(ma.triangles, mb.triangles);
}

#[test]
fn draws_are_reproducible() {
    let mut a = Source::from_seed(9);
    let mut b = Source::from_seed(9);
    assert_eq!(a.next_u32(), b.next_u32());
    assert_eq!(a.next_u32(), b.next_u32());
    let ta = generate_triangle(&mut a);
    let tb = generate_triangle(&mut b);
    assert_eq!(ta, tb);
}

#[test]
fn empty_range_floor_gives_empty_mesh() {
    let mut src = Source::from_seed(1);
    let m = generate_mesh(&mut src, 0, 1);
    assert_eq!(m.triangle_count(), 0);
}

#[test]
fn round_trip_packed_le() {
    let m = two_triangle_mesh();
    let buf = PackedLe::to_wire(&m).unwrap();
    let back = PackedLe::from_wire(&buf).unwrap();
    assert_eq!(back.triangles, m.triangles);
}

#[test]
fn round_trip_packed_be() {
    let m = two_triangle_mesh();
    let buf = PackedBe::to_wire(&m).unwrap();
    let back = PackedBe::from_wire(&buf).unwrap();
    assert_eq!(back.triangles, m.triangles);
}

#[test]
fn round_trip_tagged() {
    let m = two_triangle_mesh();
    let buf = Tagged::to_wire(&m).unwrap();
    let back = Tagged::from_wire(&buf).unwrap();
    assert_eq!(back.triangles, m.triangles);
}

#[test]
fn encoded_size_is_positive_and_monotone() {
    let mut src = Source::from_seed(11);
    let sizes: Vec<usize> = [0usize, 1, 2, 5, 9]
        .iter()
        .map(|&n| {
            let m = generate_mesh(&mut src, n, n + 1);
            PackedLe::encoded_size(&m).unwrap()
        })
        .collect();
    for w in sizes.windows(2) {
        assert!(w[0] < w[1]);
    }
    for s in &sizes {
        assert!(*s > 0);
    }
    // exact formula: count word plus 48 bytes per triangle
    assert_eq!(sizes[0], 4);
    assert_eq!(sizes[4], 4 + 48 * 9);
}

#[test]
fn truncated_prefix_rejected_packed_le() {
    let m = two_triangle_mesh();
    let buf = PackedLe::to_wire(&m).unwrap();
    for k in 1..buf.len() {
        let r = PackedLe::from_wire(&buf[..k]);
        assert!(matches!(r, Err(DecodeError::Truncated)), "prefix {k}");
    }
}

#[test]
fn truncated_prefix_rejected_packed_be() {
    let m = two_triangle_mesh();
    let buf = PackedBe::to_wire(&m).unwrap();
    for k in 1..buf.len() {
        let r = PackedBe::from_wire(&buf[..k]);
        assert!(matches!(r, Err(DecodeError::Truncated)), "prefix {k}");
    }
}

#[test]
fn truncated_prefix_rejected_tagged() {
    let m = two_triangle_mesh();
    let buf = Tagged::to_wire(&m).unwrap();
    for k in 1..buf.len() {
        let r = Tagged::from_wire(&buf[..k]);
        assert!(matches!(r, Err(DecodeError::Truncated)), "prefix {k}");
    }
}

#[test]
fn empty_input_is_truncated() {
    assert!(matches!(PackedLe::from_wire(&[]), Err(DecodeError::Truncated)));
    assert!(matches!(PackedBe::from_wire(&[]), Err(DecodeError::Truncated)));
    assert!(matches!(Tagged::from_wire(&[]), Err(DecodeError::Truncated)));
}

#[test]
fn trailing_garbage_is_malformed() {
    let m = two_triangle_mesh();
    let mut buf = PackedLe::to_wire(&m).unwrap();
    buf.push(0);
    assert!(matches!(PackedLe::from_wire(&buf), Err(DecodeError::Malformed)));
    let mut buf = PackedBe::to_wire(&m).unwrap();
    buf.push(0);
    assert!(matches!(PackedBe::from_wire(&buf), Err(DecodeError::Malformed)));
    let mut buf = Tagged::to_wire(&m).unwrap();
    buf.push(0);
    assert!(matches!(Tagged::from_wire(&buf), Err(DecodeError::Malformed)));
}

#[test]
fn bad_magic_is_malformed() {
    let m = two_triangle_mesh();
    let mut buf = Tagged::to_wire(&m).unwrap();
    buf[0] ^= 0xFF;
    assert!(matches!(Tagged::from_wire(&buf), Err(DecodeError::Malformed)));
}

#[test]
fn bad_checksum_fails_validation() {
    let m = two_triangle_mesh();
    let buf = Tagged::to_wire(&m).unwrap();
    // flip the checksum byte itself
    let mut b1 = buf.clone();
    let last = b1.len() - 1;
    b1[last] ^= 0x01;
    assert!(matches!(Tagged::from_wire(&b1), Err(DecodeError::ValidationFailed)));
    // corrupt one payload byte; the stored checksum no longer matches
    let mut b2 = buf.clone();
    b2[10] = b2[10].wrapping_add(1);
    assert!(matches!(Tagged::from_wire(&b2), Err(DecodeError::ValidationFailed)));
}

#[test]
fn mesh_of_500_triangles_round_trips_bit_for_bit() {
    let mut src = Source::from_seed(42);
    let m = generate_mesh(&mut src, 500, 501);
    assert_eq!(m.triangle_count(), 500);
    let buf = PackedLe::to_wire(&m).unwrap();
    let back = PackedLe::from_wire(&buf).unwrap();
    assert_eq!(back.triangle_count(), 500);
    assert_eq!(back.triangles[0].v0.x, m.triangles[0].v0.x);
    assert_eq!(back.triangles, m.triangles);
}

#[test]
fn empty_mesh_costs_only_the_overhead() {
    let m = Mesh::new();
    let le = PackedLe::to_wire(&m).unwrap();
    assert_eq!(le.len(), 4);
    assert_eq!(PackedLe::from_wire(&le).unwrap().triangle_count(), 0);
    let be = PackedBe::to_wire(&m).unwrap();
    assert_eq!(be.len(), 8);
    assert_eq!(PackedBe::from_wire(&be).unwrap().triangle_count(), 0);
    let tg = Tagged::to_wire(&m).unwrap();
    assert_eq!(tg.len(), 7);
    assert_eq!(Tagged::from_wire(&tg).unwrap().triangle_count(), 0);
}

#[test]
fn formats_disagree_on_size_but_agree_on_content() {
    let mut src = Source::from_seed(3);
    let m = generate_mesh(&mut src, 10, 11);
    assert_eq!(m.triangle_count(), 10);
    let le = PackedLe::to_wire(&m).unwrap();
    let be = PackedBe::to_wire(&m).unwrap();
    let tg = Tagged::to_wire(&m).unwrap();
    assert_ne!(le.len(), be.len());
    assert_ne!(le.len(), tg.len());
    assert_ne!(be.len(), tg.len());
    assert_eq!(PackedLe::from_wire(&le).unwrap().triangles, m.triangles);
    assert_eq!(PackedBe::from_wire(&be).unwrap().triangles, m.triangles);
    assert_eq!(Tagged::from_wire(&tg).unwrap().triangles, m.triangles);
}

#[test]
fn scenario_reports_size_and_format() {
    let mut src = Source::from_seed(5);
    let m = generate_mesh(&mut src, 10, 11);
    let rep = run_scenario::<PackedLe>(&m).unwrap();
    assert_eq!(rep.format, "packed_le");
    assert_eq!(rep.encoded_size, 4 + 48 * 10);
    let rep = run_scenario::<PackedBe>(&m).unwrap();
    assert_eq!(rep.format, "packed_be");
    assert_eq!(rep.encoded_size, 8 + 48 * 10);
    let rep = run_scenario::<Tagged>(&m).unwrap();
    assert_eq!(rep.format, "tagged");
    assert_eq!(rep.encoded_size, 7 + 48 * 10);
}

#[test]
fn identifier_words_lay_out_little_endian() {
    let bytes = identifier_words_to_le_bytes(0x04030201, 0x08070605, 0x0C0B0A09, 0x100F0E0D);
    let expect: Vec<u8> = (1..=16).collect();
    assert_eq!(bytes, expect);
    // the checked conversion feeds a 128-bit identifier without any
    // in-memory reinterpretation
    let arr: [u8; 16] = bytes.try_into().unwrap();
    let id = uuid::Uuid::from_bytes(arr);
    assert_eq!(id.as_bytes()[0], 1);
}

#[test]
fn component_bytes_are_little_endian_on_the_wire() {
    // one triangle whose first component has a known bit pattern: the
    // count word is followed by that component's four bytes, least
    // significant first
    let t = Triangle {
        v0: v(0xA1B2C3D4, 0, 0),
        v1: v(0, 0, 0),
        v2: v(0, 0, 0),
        normal: v(0, 0, 0),
    };
    let m = Mesh { triangles: vec![t] };
    let le = PackedLe::to_wire(&m).unwrap();
    assert_eq!(&le[0..4], &[1, 0, 0, 0]);
    assert_eq!(&le[4..8], &[0xD4, 0xC3, 0xB2, 0xA1]);
    let be = PackedBe::to_wire(&m).unwrap();
    assert_eq!(&be[0..8], &[0, 0, 0, 0, 0, 0, 0, 1]);
    assert_eq!(&be[8..12], &[0xA1, 0xB2, 0xC3, 0xD4]);
}

#[test]
fn zero_copy_view_projects_original_fields() {
    let m = two_triangle_mesh();
    let buf = PackedLe::to_wire(&m).unwrap();
    let view = MeshView::new(&buf).unwrap();
    assert_eq!(view.triangle_count(), 2);
    for i in 0..2 {
        let t = view.triangle(i);
        assert_eq!(t, m.triangles[i]);
        assert_eq!(t.v0.x, m.triangles[i].v0.x);
        assert_eq!(t.normal.z, m.triangles[i].normal.z);
    }
}

#[test]
fn zero_copy_view_rejects_bad_frames() {
    let m = two_triangle_mesh();
    let buf = PackedLe::to_wire(&m).unwrap();
    assert!(matches!(MeshView::new(&buf[..buf.len() - 1]), Err(DecodeError::Truncated)));
    let mut longer = buf.clone();
    longer.push(0);
    assert!(matches!(MeshView::new(&longer), Err(DecodeError::Malformed)));
}
