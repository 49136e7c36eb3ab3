use gjk::regions::{
    line_region, reduce_line, reduce_tetra, reduce_triangle, tetra_region, triangle_region,
    FaceSide, LineRegion, LineTests, TetraRegion, TetraTests, TriangleRegion, TriangleTests,
};
use gjk::simplex::Simplex;

fn simplex_of(vs: &[u32]) -> Simplex<u32> {
    let mut s = Simplex::new(0u32);
    for v in vs {
        s.push(*v);
    }
    s
}

fn contents(s: &Simplex<u32>) -> Vec<u32> {
    (0..s.len()).map(|i| s.get(i)).collect()
}

fn tetra(bits: [bool; 12]) -> TetraTests {
    TetraTests {
        ba_aa: bits[0],
        ca_aa: bits[1],
        da_aa: bits[2],
        neg_d_ab: bits[3],
        c_ab: bits[4],
        d_ac: bits[5],
        ab_toward_d: bits[6],
        ab_toward_c: bits[7],
        ac_toward_b: bits[8],
        ac_toward_d: bits[9],
        ad_toward_b: bits[10],
        ad_toward_c: bits[11],
        side_abc: FaceSide::Above,
        side_acd: FaceSide::Above,
        side_adb: FaceSide::Above,
    }
}

#[test]
fn simplex_push_pop_and_keep() {
    let mut s = simplex_of(&[10, 20, 30, 40]);
    assert_eq!(contents(&s), vec![10, 20, 30, 40]);
    s.pop();
    assert_eq!(contents(&s), vec![10, 20, 30]);
    s.keep_point(2);
    assert_eq!(contents(&s), vec![30]);

    let mut s = simplex_of(&[10, 20, 30, 40]);
    s.keep_pair(1, 3);
    assert_eq!(contents(&s), vec![20, 40]);

    let mut s = simplex_of(&[10, 20, 30, 40]);
    s.keep_triple(1, 2, 3);
    assert_eq!(contents(&s), vec![20, 30, 40]);
}

#[test]
fn simplex_moves_read_overwritten_slot() {
    // slot 0 := slot 2, then slot 1 := slot 0, which now holds the old slot 2
    let mut s = simplex_of(&[10, 20, 30, 40]);
    s.keep_triple(2, 0, 3);
    assert_eq!(contents(&s), vec![30, 30, 40]);
}

#[test]
fn line_regions() {
    let t = LineTests { d_is_zero: false, d_is_negative: true, a_is_origin: false };
    assert_eq!(line_region(&t), LineRegion::VertexA);
    let t = LineTests { d_is_zero: false, d_is_negative: false, a_is_origin: false };
    assert_eq!(line_region(&t), LineRegion::Segment);

    let mut s = simplex_of(&[1, 2]);
    let (r, enclosed) = reduce_line(&mut s, &t);
    assert_eq!(r, LineRegion::Segment);
    assert!(!enclosed);
    assert_eq!(contents(&s), vec![1, 2]);

    let mut s = simplex_of(&[1, 2]);
    let t = LineTests { d_is_zero: true, d_is_negative: false, a_is_origin: true };
    let (r, enclosed) = reduce_line(&mut s, &t);
    assert_eq!(r, LineRegion::VertexA);
    assert!(enclosed);
    assert_eq!(contents(&s), vec![2]);

    let mut s = simplex_of(&[1, 2]);
    let t = LineTests { d_is_zero: true, d_is_negative: false, a_is_origin: false };
    let (_, enclosed) = reduce_line(&mut s, &t);
    assert!(!enclosed);
}

#[test]
fn triangle_regions() {
    let base = TriangleTests {
        beyond_ac: true,
        toward_c: true,
        away_from_b: false,
        beyond_ab: false,
        face: FaceSide::Above,
    };
    assert_eq!(triangle_region(&base), TriangleRegion::EdgeAC);
    let t = TriangleTests { toward_c: false, away_from_b: true, ..base };
    assert_eq!(triangle_region(&t), TriangleRegion::VertexA);
    let t = TriangleTests { toward_c: false, away_from_b: false, ..base };
    assert_eq!(triangle_region(&t), TriangleRegion::EdgeAB);
    let t = TriangleTests { beyond_ac: false, beyond_ab: false, ..base };
    assert_eq!(triangle_region(&t), TriangleRegion::Face);

    let mut s = simplex_of(&[1, 2, 3]);
    let (r, _) = reduce_triangle(&mut s, &base);
    assert_eq!(r, TriangleRegion::EdgeAC);
    assert_eq!(contents(&s), vec![1, 3]);

    let mut s = simplex_of(&[1, 2, 3]);
    let t = TriangleTests { beyond_ac: false, beyond_ab: true, away_from_b: false, ..base };
    reduce_triangle(&mut s, &t);
    assert_eq!(contents(&s), vec![2, 3]);

    let mut s = simplex_of(&[1, 2, 3]);
    let t = TriangleTests { beyond_ac: false, beyond_ab: false, face: FaceSide::Above, ..base };
    let (_, enclosed) = reduce_triangle(&mut s, &t);
    assert!(!enclosed);
    assert_eq!(contents(&s), vec![1, 2, 3]);

    let mut s = simplex_of(&[1, 2, 3]);
    let t = TriangleTests { beyond_ac: false, beyond_ab: false, face: FaceSide::OnPlane, ..base };
    let (_, enclosed) = reduce_triangle(&mut s, &t);
    assert!(enclosed);

    // the origin below the face: C is lost and B kept twice
    let mut s = simplex_of(&[1, 2, 3]);
    let t = TriangleTests { beyond_ac: false, beyond_ab: false, face: FaceSide::Below, ..base };
    reduce_triangle(&mut s, &t);
    assert_eq!(contents(&s), vec![2, 2, 3]);
}

#[test]
fn tetra_vertex_and_inside_regions() {
    assert_eq!(tetra_region(&tetra([false; 12])), TetraRegion::VertexA);
    // ba_aa, then not neg_d_ab, not c_ab, not d_ac
    let mut bits = [false; 12];
    bits[0] = true;
    assert_eq!(tetra_region(&tetra(bits)), TetraRegion::Inside);
    // not ba_aa, not ca_aa, da_aa, not neg_d_ab, not d_ac
    let mut bits = [false; 12];
    bits[2] = true;
    assert_eq!(tetra_region(&tetra(bits)), TetraRegion::Inside);
    // ba_aa, neg_d_ab, ab_toward_d, da_aa, not ab_toward_c
    let mut bits = [false; 12];
    bits[0] = true;
    bits[3] = true;
    bits[6] = true;
    bits[2] = true;
    assert_eq!(tetra_region(&tetra(bits)), TetraRegion::EdgeAB);
    bits[7] = true;
    assert_eq!(tetra_region(&tetra(bits)), TetraRegion::FaceABC);
}

#[test]
fn tetra_reductions() {
    let mut s = simplex_of(&[1, 2, 3, 4]);
    let (r, enclosed) = reduce_tetra(&mut s, &tetra([false; 12]));
    assert_eq!(r, TetraRegion::VertexA);
    assert!(!enclosed);
    assert_eq!(contents(&s), vec![4]);

    let mut bits = [false; 12];
    bits[0] = true;
    let mut s = simplex_of(&[1, 2, 3, 4]);
    let (r, enclosed) = reduce_tetra(&mut s, &tetra(bits));
    assert_eq!(r, TetraRegion::Inside);
    assert!(enclosed);
    assert_eq!(contents(&s), vec![1, 2, 3, 4]);

    // ba_aa, neg_d_ab, ab_toward_d, da_aa, ab_toward_c: face ABC
    let mut bits = [false; 12];
    for i in [0, 3, 6, 2, 7] {
        bits[i] = true;
    }
    let mut s = simplex_of(&[1, 2, 3, 4]);
    reduce_tetra(&mut s, &tetra(bits));
    assert_eq!(contents(&s), vec![2, 3, 4]);
    let mut s = simplex_of(&[1, 2, 3, 4]);
    reduce_tetra(&mut s, &TetraTests { side_abc: FaceSide::Below, ..tetra(bits) });
    assert_eq!(contents(&s), vec![3, 2, 4]);

    // ba_aa, neg_d_ab, not ab_toward_d, ad_toward_b: face ADB
    let mut bits = [false; 12];
    for i in [0, 3, 10] {
        bits[i] = true;
    }
    assert_eq!(tetra_region(&tetra(bits)), TetraRegion::FaceADB);
    let mut s = simplex_of(&[1, 2, 3, 4]);
    reduce_tetra(&mut s, &TetraTests { side_adb: FaceSide::Below, ..tetra(bits) });
    assert_eq!(contents(&s), vec![1, 3, 4]);
    // with the origin not below ADB, D is lost and B kept twice
    let mut s = simplex_of(&[1, 2, 3, 4]);
    let (_, enclosed) = reduce_tetra(&mut s, &TetraTests { side_adb: FaceSide::OnPlane, ..tetra(bits) });
    assert!(enclosed);
    assert_eq!(contents(&s), vec![3, 3, 4]);
}

#[test]
fn tetra_face_acd_below_loses_d() {
    // not ba_aa, ca_aa, d_ac, not da_aa, ac_toward_b, ac_toward_d: face ACD
    let mut bits = [false; 12];
    for i in [1, 5, 8, 9] {
        bits[i] = true;
    }
    assert_eq!(tetra_region(&tetra(bits)), TetraRegion::FaceACD);
    let mut s = simplex_of(&[1, 2, 3, 4]);
    reduce_tetra(&mut s, &tetra(bits));
    assert_eq!(contents(&s), vec![1, 2, 4]);
    let mut s = simplex_of(&[1, 2, 3, 4]);
    reduce_tetra(&mut s, &TetraTests { side_acd: FaceSide::Below, ..tetra(bits) });
    assert_eq!(contents(&s), vec![2, 2, 4]);
}
