use vstd::prelude::*;

use crate::simplex::{pair_after_moves, triple_after_moves, Simplex};

verus! {

/// Where the origin lies relative to the plane of a face, as seen from the sign of
/// the dot product of the face normal with the direction from the newest vertex
/// to the origin.
#[derive(PartialEq, Eq, Structural, Clone, Copy, Debug)]
pub enum FaceSide {
    /// The product is exactly zero: the origin lies in the plane of the face.
    OnPlane,
    /// The product is greater than zero.
    Above,
    /// Any other product: less than zero, or not comparable with zero.
    Below,
}

// ---------------------------------------------------------------------------
// Segment (two vertices: B = slot 0, A = slot 1, A newest)
// ---------------------------------------------------------------------------

/// The comparisons that decide the projection of the origin onto a segment AB,
/// where `d` is the dot product of AB with the direction from A to the origin.
#[derive(PartialEq, Eq, Structural, Clone, Copy, Debug)]
pub struct LineTests {
    /// `d == 0`.
    pub d_is_zero: bool,
    /// `d < 0`.
    pub d_is_negative: bool,
    /// A is the origin itself.
    pub a_is_origin: bool,
}

/// The part of a segment AB that is closest to the origin.
#[derive(PartialEq, Eq, Structural, Clone, Copy, Debug)]
pub enum LineRegion {
    /// The newest vertex A.
    VertexA,
    /// The inside of the segment.
    Segment,
}

pub open spec fn line_region_spec(t: LineTests) -> LineRegion {
    if t.d_is_zero || t.d_is_negative {
        LineRegion::VertexA
    } else {
        LineRegion::Segment
    }
}

/// The origin is found to lie in the simplex: only when `d` is zero and A is the origin.
pub open spec fn line_encloses_spec(t: LineTests) -> bool {
    t.d_is_zero && t.a_is_origin
}

/// The simplex that is kept for a segment region.
pub open spec fn line_kept_spec<T>(s: Seq<T>, r: LineRegion) -> Seq<T> {
    match r {
        LineRegion::VertexA => seq![s[1]],
        LineRegion::Segment => pair_after_moves(s, 0, 1),
    }
}

pub fn line_region(t: &LineTests) -> (r: LineRegion)
    ensures
        r == line_region_spec(*t),
    no_unwind
{
    if t.d_is_zero {
        LineRegion::VertexA
    } else if t.d_is_negative {
        LineRegion::VertexA
    } else {
        LineRegion::Segment
    }
}

// ---------------------------------------------------------------------------
// Triangle (C = slot 0, B = slot 1, A = slot 2, A newest)
// ---------------------------------------------------------------------------

/// The comparisons that decide the projection of the origin onto a triangle ABC,
/// with `ab = B - A`, `ac = C - A`, `abc = ab x ac` and `a0 = -A`.
#[derive(PartialEq, Eq, Structural, Clone, Copy, Debug)]
pub struct TriangleTests {
    /// `(abc x ac) . a0 >= 0`: the origin is beyond edge AC.
    pub beyond_ac: bool,
    /// `ac . a0 >= 0`.
    pub toward_c: bool,
    /// `ab . a0 < 0`.
    pub away_from_b: bool,
    /// `(ab x abc) . a0 >= 0`: the origin is beyond edge AB.
    pub beyond_ab: bool,
    /// The side of the plane of ABC on which the origin lies (`abc . a0`).
    pub face: FaceSide,
}

/// The part of a triangle ABC that is closest to the origin.
#[derive(PartialEq, Eq, Structural, Clone, Copy, Debug)]
pub enum TriangleRegion {
    VertexA,
    EdgeAB,
    EdgeAC,
    Face,
}

pub open spec fn triangle_region_spec(t: TriangleTests) -> TriangleRegion {
    if t.beyond_ac {
        if t.toward_c {
            TriangleRegion::EdgeAC
        } else if t.away_from_b {
            TriangleRegion::VertexA
        } else {
            TriangleRegion::EdgeAB
        }
    } else if t.beyond_ab {
        if t.away_from_b {
            TriangleRegion::VertexA
        } else {
            TriangleRegion::EdgeAB
        }
    } else {
        TriangleRegion::Face
    }
}

/// The origin is found to lie in the simplex: only when it lies in the plane of the face
/// and the face region was chosen.
pub open spec fn triangle_encloses_spec(t: TriangleTests) -> bool {
    triangle_region_spec(t) == TriangleRegion::Face && t.face == FaceSide::OnPlane
}

/// The three vertices of a kept face A (newest), B, C, ordered by the side of the origin:
/// `[C, B, A]` unless the origin is below the face, then `[B, C, A]`. The moves are made
/// one after the other in the slots of the simplex.
pub open spec fn face_kept_spec<T>(s: Seq<T>, a: int, b: int, c: int, side: FaceSide) -> Seq<T> {
    if side == FaceSide::Below {
        triple_after_moves(s, b, c, a)
    } else {
        triple_after_moves(s, c, b, a)
    }
}

/// The simplex that is kept for a triangle region.
pub open spec fn triangle_kept_spec<T>(s: Seq<T>, r: TriangleRegion, side: FaceSide) -> Seq<T> {
    match r {
        TriangleRegion::VertexA => seq![s[2]],
        TriangleRegion::EdgeAB => pair_after_moves(s, 1, 2),
        TriangleRegion::EdgeAC => pair_after_moves(s, 0, 2),
        TriangleRegion::Face => face_kept_spec(s, 2, 1, 0, side),
    }
}

pub fn triangle_region(t: &TriangleTests) -> (r: TriangleRegion)
    ensures
        r == triangle_region_spec(*t),
    no_unwind
{
    if t.beyond_ac {
        if t.toward_c {
            TriangleRegion::EdgeAC
        } else if t.away_from_b {
            TriangleRegion::VertexA
        } else {
            TriangleRegion::EdgeAB
        }
    } else if t.beyond_ab {
        if t.away_from_b {
            TriangleRegion::VertexA
        } else {
            TriangleRegion::EdgeAB
        }
    } else {
        TriangleRegion::Face
    }
}

// ---------------------------------------------------------------------------
// Tetrahedron (D = slot 0, C = slot 1, B = slot 2, A = slot 3, A newest)
// ---------------------------------------------------------------------------

/// The comparisons that decide the projection of the origin onto a tetrahedron ABCD.
///
/// With `xy` the dot product of the vertices X and Y (`aa = A . A`, `ba = B . A`, ...),
/// each field is true when the named quantity is `<= 0`, and false when it is greater
/// than zero or not comparable with zero.
#[derive(PartialEq, Eq, Structural, Clone, Copy, Debug)]
pub struct TetraTests {
    /// `ba - aa`.
    pub ba_aa: bool,
    /// `ca - aa`.
    pub ca_aa: bool,
    /// `da - aa`.
    pub da_aa: bool,
    /// `-(D . (A x B))`.
    pub neg_d_ab: bool,
    /// `C . (A x B)`.
    pub c_ab: bool,
    /// `D . (A x C)`.
    pub d_ac: bool,
    /// `ba * (da - ba) + bd * (ba - aa) - bb * (da - aa)`.
    pub ab_toward_d: bool,
    /// `ba * (ba - ca) + bb * (ca - aa) - bc * (ba - aa)`.
    pub ab_toward_c: bool,
    /// `ca * (ba - ca) + cb * (ca - aa) - cc * (ba - aa)`.
    pub ac_toward_b: bool,
    /// `ca * (ca - da) + cc * (da - aa) - cd * (ca - aa)`.
    pub ac_toward_d: bool,
    /// `da * (da - ba) + dd * (ba - aa) - db * (da - aa)`.
    pub ad_toward_b: bool,
    /// `da * (ca - da) + dc * (da - aa) - dd * (ca - aa)`.
    pub ad_toward_c: bool,
    /// Side of the origin for face ABC (`-(C . (A x B))`).
    pub side_abc: FaceSide,
    /// Side of the origin for face ACD (`-(D . (A x C))`).
    pub side_acd: FaceSide,
    /// Side of the origin for face ADB (`D . (A x B)`).
    pub side_adb: FaceSide,
}

/// The part of a tetrahedron ABCD that is closest to the origin.
#[derive(PartialEq, Eq, Structural, Clone, Copy, Debug)]
pub enum TetraRegion {
    Inside,
    FaceABC,
    FaceACD,
    FaceADB,
    EdgeAB,
    EdgeAC,
    EdgeAD,
    VertexA,
}

/// The decision tree over the comparisons of `TetraTests`.
pub open spec fn tetra_region_spec(t: TetraTests) -> TetraRegion {
    if t.ba_aa {
        if t.neg_d_ab {
            if t.ab_toward_d {
                if t.da_aa {
                    if t.ab_toward_c {
                        TetraRegion::FaceABC
                    } else {
                        TetraRegion::EdgeAB
                    }
                } else if t.ab_toward_c {
                    if t.ac_toward_b {
                        if t.ac_toward_d {
                            TetraRegion::FaceACD
                        } else {
                            TetraRegion::EdgeAC
                        }
                    } else {
                        TetraRegion::FaceABC
                    }
                } else {
                    TetraRegion::EdgeAB
                }
            } else if t.ad_toward_b {
                TetraRegion::FaceADB
            } else if t.ac_toward_d {
                if t.ad_toward_c {
                    TetraRegion::EdgeAD
                } else {
                    TetraRegion::FaceACD
                }
            } else if t.ad_toward_c {
                TetraRegion::EdgeAD
            } else {
                TetraRegion::EdgeAC
            }
        } else if t.c_ab {
            if t.ab_toward_c {
                if t.ac_toward_b {
                    if t.ac_toward_d {
                        TetraRegion::FaceACD
                    } else {
                        TetraRegion::EdgeAC
                    }
                } else {
                    TetraRegion::FaceABC
                }
            } else {
                TetraRegion::EdgeAD
            }
        } else if t.d_ac {
            if t.ac_toward_d {
                if t.ad_toward_c {
                    TetraRegion::EdgeAD
                } else {
                    TetraRegion::FaceACD
                }
            } else if t.ca_aa {
                TetraRegion::EdgeAC
            } else {
                TetraRegion::EdgeAD
            }
        } else {
            TetraRegion::Inside
        }
    } else if t.ca_aa {
        if t.d_ac {
            if t.da_aa {
                if t.ac_toward_d {
                    if t.ad_toward_c {
                        if t.ad_toward_b {
                            TetraRegion::FaceADB
                        } else {
                            TetraRegion::EdgeAD
                        }
                    } else {
                        TetraRegion::FaceACD
                    }
                } else if t.ac_toward_b {
                    TetraRegion::EdgeAC
                } else {
                    TetraRegion::FaceABC
                }
            } else if t.ac_toward_b {
                if t.ac_toward_d {
                    TetraRegion::FaceACD
                } else {
                    TetraRegion::EdgeAC
                }
            } else if t.c_ab {
                TetraRegion::FaceABC
            } else {
                TetraRegion::FaceACD
            }
        } else if t.c_ab {
            if t.ac_toward_b {
                TetraRegion::EdgeAC
            } else {
                TetraRegion::FaceABC
            }
        } else if t.neg_d_ab {
            if t.ad_toward_b {
                TetraRegion::FaceADB
            } else {
                TetraRegion::EdgeAD
            }
        } else {
            TetraRegion::Inside
        }
    } else if t.da_aa {
        if t.neg_d_ab {
            if t.ad_toward_c {
                if t.ad_toward_b {
                    TetraRegion::FaceADB
                } else {
                    TetraRegion::EdgeAD
                }
            } else if t.d_ac {
                TetraRegion::FaceACD
            } else {
                TetraRegion::FaceADB
            }
        } else if t.d_ac {
            if t.ad_toward_c {
                TetraRegion::EdgeAD
            } else {
                TetraRegion::FaceACD
            }
        } else {
            TetraRegion::Inside
        }
    } else {
        TetraRegion::VertexA
    }
}

/// The origin is found to lie in the simplex: the inside region was chosen, or a face
/// region whose plane holds the origin.
pub open spec fn tetra_encloses_spec(t: TetraTests) -> bool {
    match tetra_region_spec(t) {
        TetraRegion::Inside => true,
        TetraRegion::FaceABC => t.side_abc == FaceSide::OnPlane,
        TetraRegion::FaceACD => t.side_acd == FaceSide::OnPlane,
        TetraRegion::FaceADB => t.side_adb == FaceSide::OnPlane,
        _ => false,
    }
}

/// The simplex that is kept for a tetrahedron region. For the inside region the
/// simplex is left as it is.
pub open spec fn tetra_kept_spec<T>(s: Seq<T>, t: TetraTests) -> Seq<T> {
    match tetra_region_spec(t) {
        TetraRegion::Inside => s,
        TetraRegion::FaceABC => face_kept_spec(s, 3, 2, 1, t.side_abc),
        TetraRegion::FaceACD => face_kept_spec(s, 3, 1, 0, t.side_acd),
        TetraRegion::FaceADB => face_kept_spec(s, 3, 0, 2, t.side_adb),
        TetraRegion::EdgeAB => pair_after_moves(s, 2, 3),
        TetraRegion::EdgeAC => pair_after_moves(s, 1, 3),
        TetraRegion::EdgeAD => pair_after_moves(s, 0, 3),
        TetraRegion::VertexA => seq![s[3]],
    }
}

pub fn tetra_region(t: &TetraTests) -> (r: TetraRegion)
    ensures
        r == tetra_region_spec(*t),
    no_unwind
{
    if t.ba_aa {
        if t.neg_d_ab {
            if t.ab_toward_d {
                if t.da_aa {
                    if t.ab_toward_c {
                        TetraRegion::FaceABC
                    } else {
                        TetraRegion::EdgeAB
                    }
                } else if t.ab_toward_c {
                    if t.ac_toward_b {
                        if t.ac_toward_d {
                            TetraRegion::FaceACD
                        } else {
                            TetraRegion::EdgeAC
                        }
                    } else {
                        TetraRegion::FaceABC
                    }
                } else {
                    TetraRegion::EdgeAB
                }
            } else if t.ad_toward_b {
                TetraRegion::FaceADB
            } else if t.ac_toward_d {
                if t.ad_toward_c {
                    TetraRegion::EdgeAD
                } else {
                    TetraRegion::FaceACD
                }
            } else if t.ad_toward_c {
                TetraRegion::EdgeAD
            } else {
                TetraRegion::EdgeAC
            }
        } else if t.c_ab {
            if t.ab_toward_c {
                if t.ac_toward_b {
                    if t.ac_toward_d {
                        TetraRegion::FaceACD
                    } else {
                        TetraRegion::EdgeAC
                    }
                } else {
                    TetraRegion::FaceABC
                }
            } else {
                TetraRegion::EdgeAD
            }
        } else if t.d_ac {
            if t.ac_toward_d {
                if t.ad_toward_c {
                    TetraRegion::EdgeAD
                } else {
                    TetraRegion::FaceACD
                }
            } else if t.ca_aa {
                TetraRegion::EdgeAC
            } else {
                TetraRegion::EdgeAD
            }
        } else {
            TetraRegion::Inside
        }
    } else if t.ca_aa {
        if t.d_ac {
            if t.da_aa {
                if t.ac_toward_d {
                    if t.ad_toward_c {
                        if t.ad_toward_b {
                            TetraRegion::FaceADB
                        } else {
                            TetraRegion::EdgeAD
                        }
                    } else {
                        TetraRegion::FaceACD
                    }
                } else if t.ac_toward_b {
                    TetraRegion::EdgeAC
                } else {
                    TetraRegion::FaceABC
                }
            } else if t.ac_toward_b {
                if t.ac_toward_d {
                    TetraRegion::FaceACD
                } else {
                    TetraRegion::EdgeAC
                }
            } else if t.c_ab {
                TetraRegion::FaceABC
            } else {
                TetraRegion::FaceACD
            }
        } else if t.c_ab {
            if t.ac_toward_b {
                TetraRegion::EdgeAC
            } else {
                TetraRegion::FaceABC
            }
        } else if t.neg_d_ab {
            if t.ad_toward_b {
                TetraRegion::FaceADB
            } else {
                TetraRegion::EdgeAD
            }
        } else {
            TetraRegion::Inside
        }
    } else if t.da_aa {
        if t.neg_d_ab {
            if t.ad_toward_c {
                if t.ad_toward_b {
                    TetraRegion::FaceADB
                } else {
                    TetraRegion::EdgeAD
                }
            } else if t.d_ac {
                TetraRegion::FaceACD
            } else {
                TetraRegion::FaceADB
            }
        } else if t.d_ac {
            if t.ad_toward_c {
                TetraRegion::EdgeAD
            } else {
                TetraRegion::FaceACD
            }
        } else {
            TetraRegion::Inside
        }
    } else {
        TetraRegion::VertexA
    }
}


// ---------------------------------------------------------------------------
// Laws of the projections
// ---------------------------------------------------------------------------

/// The vertex region of A is chosen exactly when the origin lies beyond A with respect
/// to all three edges AB, AC and AD.
pub proof fn lemma_tetra_vertex_region(t: TetraTests)
    ensures
        (tetra_region_spec(t) == TetraRegion::VertexA) <==> (!t.ba_aa && !t.ca_aa && !t.da_aa),
{
}

/// The inside region is chosen only when the origin lies strictly on the inner side of
/// the faces ADB and ACD.
pub proof fn lemma_tetra_inside_region(t: TetraTests)
    requires
        tetra_region_spec(t) == TetraRegion::Inside,
    ensures
        !t.neg_d_ab,
        !t.d_ac,
        (t.ba_aa || t.ca_aa) ==> !t.c_ab,
{
}

/// When the origin lies strictly behind the three faces ABC, ACD and ADB that meet at the
/// newest vertex, and not in the vertex region of A, the inside region is chosen. The
/// inside region is never chosen when the origin is beyond face ADB or ACD, nor beyond face
/// ABC while it lies toward B or C from A.
pub proof fn lemma_tetra_inside_exactly(t: TetraTests)
    ensures
        (!t.neg_d_ab && !t.c_ab && !t.d_ac && (t.ba_aa || t.ca_aa || t.da_aa))
            ==> tetra_region_spec(t) == TetraRegion::Inside,
        tetra_region_spec(t) == TetraRegion::Inside ==> !t.neg_d_ab && !t.d_ac && ((t.ba_aa
            || t.ca_aa) ==> !t.c_ab),
        tetra_region_spec(t) == TetraRegion::Inside ==> (t.ba_aa || t.ca_aa || t.da_aa),
{
}

/// Necessary conditions of the face and edge regions: a region of the tetrahedron other
/// than the vertex A is chosen only when the origin lies toward one of the other vertices,
/// face ABC and edge AC need B or C, face ADB needs the origin beyond face ADB or toward AD
/// from B, face ACD needs it beyond face ACD or toward AC from D, and edge AD is not chosen
/// when the origin lies beyond face ADB and toward AD from B.
pub proof fn lemma_tetra_region_conditions(t: TetraTests)
    ensures
        tetra_region_spec(t) != TetraRegion::VertexA ==> (t.ba_aa || t.ca_aa || t.da_aa),
        tetra_region_spec(t) == TetraRegion::FaceABC ==> (t.ba_aa || t.ca_aa) && (t.ab_toward_c
            || !t.ac_toward_b),
        tetra_region_spec(t) == TetraRegion::EdgeAC ==> (t.ba_aa || t.ca_aa) && (t.ac_toward_b
            || !t.ac_toward_d),
        tetra_region_spec(t) == TetraRegion::FaceADB ==> (t.neg_d_ab || t.ad_toward_b) && (
        t.neg_d_ab || t.d_ac),
        tetra_region_spec(t) == TetraRegion::FaceACD ==> (t.d_ac || t.ac_toward_d) && (t.ba_aa
            || t.d_ac),
        tetra_region_spec(t) == TetraRegion::EdgeAD ==> !(t.neg_d_ab && t.ad_toward_b),
{
}

/// The edge region AB is chosen only when the origin lies toward B from A, beyond face
/// ADB, toward AB rather than D, and not toward C.
pub proof fn lemma_tetra_edge_ab_region(t: TetraTests)
    ensures
        tetra_region_spec(t) == TetraRegion::EdgeAB ==> t.ba_aa && t.neg_d_ab && t.ab_toward_d
            && !t.ab_toward_c,
{
}

/// The segment keeps only the newest vertex exactly when the origin does not lie strictly
/// toward B from A; the origin is found enclosed only when A is the origin.
pub proof fn lemma_line_regions(t: LineTests)
    ensures
        (line_region_spec(t) == LineRegion::VertexA) <==> (t.d_is_zero || t.d_is_negative),
        line_encloses_spec(t) <==> (t.d_is_zero && t.a_is_origin),
{
}

/// The face of a triangle is chosen exactly when the origin lies beyond neither edge AB
/// nor edge AC; edge AC exactly when it lies beyond AC and toward C; otherwise A or AB,
/// by whether the origin lies away from B. The origin is found enclosed exactly when the
/// face is chosen and the origin lies in its plane.
pub proof fn lemma_triangle_regions(t: TriangleTests)
    ensures
        (triangle_region_spec(t) == TriangleRegion::Face) <==> (!t.beyond_ac && !t.beyond_ab),
        (triangle_region_spec(t) == TriangleRegion::EdgeAC) <==> (t.beyond_ac && t.toward_c),
        (triangle_region_spec(t) == TriangleRegion::VertexA) <==> (((t.beyond_ac && !t.toward_c)
            || (!t.beyond_ac && t.beyond_ab)) && t.away_from_b),
        (triangle_region_spec(t) == TriangleRegion::EdgeAB) <==> (((t.beyond_ac && !t.toward_c)
            || (!t.beyond_ac && t.beyond_ab)) && !t.away_from_b),
        triangle_encloses_spec(t) <==> (!t.beyond_ac && !t.beyond_ab && t.face
            == FaceSide::OnPlane),
{
}

/// Every reduction keeps only vertices of the simplex, and keeps the newest one last.
pub proof fn lemma_line_keeps_newest<T>(s: Seq<T>, t: LineTests)
    requires
        s.len() == 2,
    ensures
        ({
            let k = line_kept_spec(s, line_region_spec(t));
            &&& 1 <= k.len() <= 2
            &&& k.last() == s.last()
            &&& forall|i: int| 0 <= i < k.len() ==> s.contains(#[trigger] k[i])
        }),
{
    let k = line_kept_spec(s, line_region_spec(t));
    assert forall|i: int| 0 <= i < k.len() implies s.contains(#[trigger] k[i]) by {
        let j = choose|j: int| 0 <= j < 2 && s[j] == k[i];
        assert(s[j] == k[i]);
    }
}

/// See `lemma_line_keeps_newest`.
pub proof fn lemma_triangle_keeps_newest<T>(s: Seq<T>, t: TriangleTests)
    requires
        s.len() == 3,
    ensures
        ({
            let k = triangle_kept_spec(s, triangle_region_spec(t), t.face);
            &&& 1 <= k.len() <= 3
            &&& k.last() == s.last()
            &&& forall|i: int| 0 <= i < k.len() ==> s.contains(#[trigger] k[i])
        }),
{
    let k = triangle_kept_spec(s, triangle_region_spec(t), t.face);
    assert forall|i: int| 0 <= i < k.len() implies s.contains(#[trigger] k[i]) by {
        let j = choose|j: int| 0 <= j < 3 && s[j] == k[i];
        assert(s[j] == k[i]);
    }
}

/// See `lemma_line_keeps_newest`. The tetrahedron is left whole only for the inside
/// region; every other region keeps at most three vertices.
pub proof fn lemma_tetra_keeps_newest<T>(s: Seq<T>, t: TetraTests)
    requires
        s.len() == 4,
    ensures
        ({
            let k = tetra_kept_spec(s, t);
            &&& 1 <= k.len() <= 4
            &&& (k.len() == 4 <==> tetra_region_spec(t) == TetraRegion::Inside)
            &&& k.last() == s.last()
            &&& forall|i: int| 0 <= i < k.len() ==> s.contains(#[trigger] k[i])
        }),
{
    let k = tetra_kept_spec(s, t);
    assert forall|i: int| 0 <= i < k.len() implies s.contains(#[trigger] k[i]) by {
        let j = choose|j: int| 0 <= j < 4 && s[j] == k[i];
        assert(s[j] == k[i]);
    }
}

pub proof fn lemma_triangle_kept_length<T>(s: Seq<T>, t: TriangleTests)
    requires
        s.len() == 3,
    ensures
        1 <= triangle_kept_spec(s, triangle_region_spec(t), t.face).len() <= 3,
{
}

pub proof fn lemma_tetra_kept_shrinks<T>(s: Seq<T>, t: TetraTests)
    requires
        s.len() == 4,
    ensures
        tetra_kept_spec(s, t).len() <= 3 || tetra_encloses_spec(t),
{
}

/// A kept face holds the three vertices of the face, once each, as `[C, B, A]` when the
/// origin is not below the face and as `[B, C, A]` when it is, unless the second move reads
/// slot 0 after the first move has overwritten it (see `lemma_face_loses_slot_zero`).
pub proof fn lemma_face_vertices<T>(s: Seq<T>, a: int, b: int, c: int, side: FaceSide)
    requires
        (if side == FaceSide::Below { c } else { b }) != 0,
        a != 0,
        a != 1,
    ensures
        face_kept_spec(s, a, b, c, side) == (if side == FaceSide::Below {
            seq![s[b], s[c], s[a]]
        } else {
            seq![s[c], s[b], s[a]]
        }),
{
}

/// When the second move reads slot 0, that slot already holds the vertex of the first
/// move: this vertex is kept twice and the vertex that was in slot 0 is lost.
pub proof fn lemma_face_loses_slot_zero<T>(s: Seq<T>, a: int, b: int, c: int, side: FaceSide)
    requires
        (if side == FaceSide::Below { c } else { b }) == 0,
        a != 0,
        a != 1,
    ensures
        face_kept_spec(s, a, b, c, side) == (if side == FaceSide::Below {
            seq![s[b], s[b], s[a]]
        } else {
            seq![s[c], s[c], s[a]]
        }),
{
}

/// The face of a triangle is kept as `[C, B, A]` when the origin is not below it. When it
/// is below, C is lost and B kept twice: `[B, B, A]`.
pub proof fn lemma_triangle_face_vertices<T>(s: Seq<T>, t: TriangleTests)
    requires
        s.len() == 3,
        triangle_region_spec(t) == TriangleRegion::Face,
    ensures
        triangle_kept_spec(s, TriangleRegion::Face, t.face) == (if t.face == FaceSide::Below {
            seq![s[1], s[1], s[2]]
        } else {
            seq![s[0], s[1], s[2]]
        }),
{
}

/// A face kept from a tetrahedron holds the three vertices of that face, once each:
/// ABC as `[C, B, A]` (origin not below) or `[B, C, A]` (below); ACD as `[D, C, A]`
/// (not below); ADB as `[D, B, A]` (below). For ACD with the origin below and for ADB
/// with the origin not below, D is lost: see `lemma_tetra_face_drops_d`.
pub proof fn lemma_tetra_face_vertices<T>(s: Seq<T>, t: TetraTests)
    requires
        s.len() == 4,
        !(tetra_region_spec(t) == TetraRegion::FaceACD && t.side_acd == FaceSide::Below),
        !(tetra_region_spec(t) == TetraRegion::FaceADB && t.side_adb != FaceSide::Below),
    ensures
        tetra_region_spec(t) == TetraRegion::FaceABC ==> tetra_kept_spec(s, t) == (if t.side_abc
            == FaceSide::Below {
            seq![s[2], s[1], s[3]]
        } else {
            seq![s[1], s[2], s[3]]
        }),
        tetra_region_spec(t) == TetraRegion::FaceACD ==> tetra_kept_spec(s, t) == seq![
            s[0],
            s[1],
            s[3],
        ],
        tetra_region_spec(t) == TetraRegion::FaceADB ==> tetra_kept_spec(s, t) == seq![
            s[0],
            s[2],
            s[3],
        ],
{
}

/// For the face ACD with the origin below it, and for the face ADB with the origin not
/// below it, the vertex D (slot 0) is lost and the other old vertex is kept twice.
pub proof fn lemma_tetra_face_drops_d<T>(s: Seq<T>, t: TetraTests)
    requires
        s.len() == 4,
        (tetra_region_spec(t) == TetraRegion::FaceACD && t.side_acd == FaceSide::Below) || (
        tetra_region_spec(t) == TetraRegion::FaceADB && t.side_adb != FaceSide::Below),
    ensures
        tetra_region_spec(t) == TetraRegion::FaceACD ==> tetra_kept_spec(s, t) == seq![
            s[1],
            s[1],
            s[3],
        ],
        tetra_region_spec(t) == TetraRegion::FaceADB ==> tetra_kept_spec(s, t) == seq![
            s[2],
            s[2],
            s[3],
        ],
{
}

/// Edge and vertex regions keep the vertices of the edge, or the vertex, in the order
/// `[X, A]`.
pub proof fn lemma_tetra_edge_vertices<T>(s: Seq<T>, t: TetraTests)
    requires
        s.len() == 4,
    ensures
        tetra_region_spec(t) == TetraRegion::EdgeAB ==> tetra_kept_spec(s, t) == seq![s[2], s[3]],
        tetra_region_spec(t) == TetraRegion::EdgeAC ==> tetra_kept_spec(s, t) == seq![s[1], s[3]],
        tetra_region_spec(t) == TetraRegion::EdgeAD ==> tetra_kept_spec(s, t) == seq![s[0], s[3]],
        tetra_region_spec(t) == TetraRegion::VertexA ==> tetra_kept_spec(s, t) == seq![s[3]],
{
}

// ---------------------------------------------------------------------------
// Reducing a simplex to the part closest to the origin
// ---------------------------------------------------------------------------

/// Keeps the face A, B, C (given by positions), ordered by the side of the origin,
/// and tells whether the origin lies in its plane.
fn keep_face<T: Copy>(
    s: &mut Simplex<T>,
    a: usize,
    b: usize,
    c: usize,
    side: FaceSide,
) -> (enclosed: bool)
    requires
        a < old(s)@.len(),
        b < old(s)@.len(),
        c < old(s)@.len(),
    ensures
        final(s)@ == face_kept_spec(old(s)@, a as int, b as int, c as int, side),
        enclosed == (side == FaceSide::OnPlane),
    no_unwind
{
    match side {
        FaceSide::Below => {
            s.keep_triple(b, c, a);
            false
        },
        FaceSide::Above => {
            s.keep_triple(c, b, a);
            false
        },
        FaceSide::OnPlane => {
            s.keep_triple(c, b, a);
            true
        },
    }
}

/// Reduces a segment to its part closest to the origin.
pub fn reduce_line<T: Copy>(s: &mut Simplex<T>, t: &LineTests) -> (res: (LineRegion, bool))
    requires
        old(s)@.len() == 2,
    ensures
        res.0 == line_region_spec(*t),
        res.1 == line_encloses_spec(*t),
        final(s)@ == line_kept_spec(old(s)@, res.0),
        res.1 <==> (t.d_is_zero && t.a_is_origin),
        res.0 == LineRegion::VertexA ==> final(s)@ == seq![old(s)@[1]],
        res.0 == LineRegion::Segment ==> final(s)@ == old(s)@,
    no_unwind
{
    let r = line_region(t);
    match r {
        LineRegion::VertexA => {
            s.keep_point(1);
            (r, t.d_is_zero && t.a_is_origin)
        },
        LineRegion::Segment => {
            s.keep_pair(0, 1);
            (r, false)
        },
    }
}

/// Reduces a triangle to its part closest to the origin.
pub fn reduce_triangle<T: Copy>(s: &mut Simplex<T>, t: &TriangleTests) -> (res: (
    TriangleRegion,
    bool,
))
    requires
        old(s)@.len() == 3,
    ensures
        res.0 == triangle_region_spec(*t),
        res.1 == triangle_encloses_spec(*t),
        final(s)@ == triangle_kept_spec(old(s)@, res.0, t.face),
        res.1 <==> (res.0 == TriangleRegion::Face && t.face == FaceSide::OnPlane),
        res.0 == TriangleRegion::Face <==> (!t.beyond_ac && !t.beyond_ab),
    no_unwind
{
    let r = triangle_region(t);
    match r {
        TriangleRegion::VertexA => {
            s.keep_point(2);
            (r, false)
        },
        TriangleRegion::EdgeAB => {
            s.keep_pair(1, 2);
            (r, false)
        },
        TriangleRegion::EdgeAC => {
            s.keep_pair(0, 2);
            (r, false)
        },
        TriangleRegion::Face => {
            let enclosed = keep_face(s, 2, 1, 0, t.face);
            (r, enclosed)
        },
    }
}

/// Reduces a tetrahedron to its part closest to the origin.
pub fn reduce_tetra<T: Copy>(s: &mut Simplex<T>, t: &TetraTests) -> (res: (TetraRegion, bool))
    requires
        old(s)@.len() == 4,
    ensures
        res.0 == tetra_region_spec(*t),
        res.1 == tetra_encloses_spec(*t),
        final(s)@ == tetra_kept_spec(old(s)@, *t),
        res.1 <==> (res.0 == TetraRegion::Inside || (res.0 == TetraRegion::FaceABC && t.side_abc
            == FaceSide::OnPlane) || (res.0 == TetraRegion::FaceACD && t.side_acd
            == FaceSide::OnPlane) || (res.0 == TetraRegion::FaceADB && t.side_adb
            == FaceSide::OnPlane)),
        res.0 == TetraRegion::Inside ==> final(s)@ == old(s)@,
        res.0 != TetraRegion::Inside ==> final(s)@.len() <= 3 && final(s)@.last() == old(s)@.last(),
        res.0 == TetraRegion::Inside ==> !t.neg_d_ab && !t.d_ac && ((t.ba_aa || t.ca_aa)
            ==> !t.c_ab),
        (!t.neg_d_ab && !t.c_ab && !t.d_ac && (t.ba_aa || t.ca_aa || t.da_aa)) ==> res.0
            == TetraRegion::Inside,
        (res.0 == TetraRegion::VertexA) <==> (!t.ba_aa && !t.ca_aa && !t.da_aa),
    no_unwind
{
    let r = tetra_region(t);
    match r {
        TetraRegion::Inside => (r, true),
        TetraRegion::FaceABC => {
            let enclosed = keep_face(s, 3, 2, 1, t.side_abc);
            (r, enclosed)
        },
        TetraRegion::FaceACD => {
            let enclosed = keep_face(s, 3, 1, 0, t.side_acd);
            (r, enclosed)
        },
        TetraRegion::FaceADB => {
            let enclosed = keep_face(s, 3, 0, 2, t.side_adb);
            (r, enclosed)
        },
        TetraRegion::EdgeAB => {
            s.keep_pair(2, 3);
            (r, false)
        },
        TetraRegion::EdgeAC => {
            s.keep_pair(1, 3);
            (r, false)
        },
        TetraRegion::EdgeAD => {
            s.keep_pair(0, 3);
            (r, false)
        },
        TetraRegion::VertexA => {
            s.keep_point(3);
            (r, false)
        },
    }
}

} // verus!
