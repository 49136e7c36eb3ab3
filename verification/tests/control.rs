use gjk::control::{Action, Controller, Event, Outcome, RayUpdate, Stop};
use gjk::regions::{FaceSide, LineRegion, LineTests, TriangleTests};

fn contents(c: &Controller<u32>) -> Vec<u32> {
    let s = c.simplex();
    (0..s.len()).map(|i| s.get(i)).collect()
}

#[test]
fn no_iterations_finishes_at_once() {
    let mut c = Controller::new(0u32);
    let a = c.begin(0);
    assert_eq!(a, Action::Finish(Outcome { stop: Stop::IterationsExhausted, iterations: 0 }));
}

#[test]
fn short_ray_stops_first_iteration() {
    let mut c = Controller::new(0u32);
    assert_eq!(c.begin(5), Action::CheckRayLength);
    let a = c.advance(Event::RayLength { below_tolerance: true });
    assert_eq!(a, Action::Finish(Outcome { stop: Stop::RayBelowTolerance, iterations: 0 }));
    // a finished query ignores further reports
    let again = c.advance(Event::RayLength { below_tolerance: false });
    assert_eq!(again, a);
}

#[test]
fn unanswered_report_repeats_request() {
    let mut c = Controller::new(0u32);
    c.begin(5);
    let a = c.advance(Event::Support(7));
    assert_eq!(a, Action::CheckRayLength);
    assert_eq!(contents(&c), Vec::<u32>::new());
}

#[test]
fn full_iteration_with_projection() {
    let mut c = Controller::new(0u32);
    c.begin(10);
    assert_eq!(
        c.advance(Event::RayLength { below_tolerance: false }),
        Action::ComputeSupport { accelerate: true }
    );
    assert_eq!(c.advance(Event::Support(1)), Action::CheckSupportBound);
    assert_eq!(c.advance(Event::SupportBound { exceeded: false }), Action::CheckDualityGap);
    assert_eq!(c.advance(Event::DualityGap { closed: false }), Action::CheckConvergence);
    // the convergence test is ignored in the first iteration
    assert_eq!(
        c.advance(Event::Convergence { passed: true }),
        Action::UpdateRay { update: RayUpdate::ToSupport, enclosed: false }
    );
    assert_eq!(c.advance(Event::RayUpdated { vanished: false }), Action::CheckRayLength);
    assert_eq!(c.iteration(), 1);

    c.advance(Event::RayLength { below_tolerance: false });
    c.advance(Event::Support(2));
    c.advance(Event::SupportBound { exceeded: false });
    c.advance(Event::DualityGap { closed: false });
    assert_eq!(c.advance(Event::Convergence { passed: false }), Action::ProjectLine);
    assert_eq!(contents(&c), vec![1, 2]);
    let a = c.advance(Event::Line(LineTests { d_is_zero: false, d_is_negative: true, a_is_origin: false }));
    assert_eq!(a, Action::UpdateRay { update: RayUpdate::Line(LineRegion::VertexA), enclosed: false });
    assert_eq!(contents(&c), vec![2]);
    assert_eq!(c.advance(Event::RayUpdated { vanished: true }),
        Action::Finish(Outcome { stop: Stop::OriginEnclosed, iterations: 1 }));
}

#[test]
fn duality_gap_turns_acceleration_off() {
    let mut c = Controller::new(0u32);
    c.begin(10);
    c.advance(Event::RayLength { below_tolerance: false });
    c.advance(Event::Support(1));
    c.advance(Event::SupportBound { exceeded: false });
    assert_eq!(c.advance(Event::DualityGap { closed: true }), Action::CheckRayLength);
    assert_eq!(contents(&c), Vec::<u32>::new());
    assert_eq!(c.iteration(), 1);
    assert_eq!(
        c.advance(Event::RayLength { below_tolerance: false }),
        Action::ComputeSupport { accelerate: false }
    );
    c.advance(Event::Support(5));
    // without acceleration the duality gap is not checked
    assert_eq!(c.advance(Event::SupportBound { exceeded: false }), Action::CheckConvergence);
    assert_eq!(
        c.advance(Event::Convergence { passed: true }),
        Action::Finish(Outcome { stop: Stop::Converged, iterations: 1 })
    );
    assert_eq!(contents(&c), Vec::<u32>::new());
}

#[test]
fn convergence_with_acceleration_continues() {
    let mut c = Controller::new(0u32);
    c.begin(10);
    c.advance(Event::RayLength { below_tolerance: false });
    c.advance(Event::Support(1));
    c.advance(Event::SupportBound { exceeded: false });
    c.advance(Event::DualityGap { closed: false });
    c.advance(Event::Convergence { passed: false });
    c.advance(Event::RayUpdated { vanished: false });
    c.advance(Event::RayLength { below_tolerance: false });
    c.advance(Event::Support(2));
    c.advance(Event::SupportBound { exceeded: false });
    c.advance(Event::DualityGap { closed: false });
    assert_eq!(c.advance(Event::Convergence { passed: true }), Action::CheckRayLength);
    assert_eq!(contents(&c), vec![1]);
    assert_eq!(
        c.advance(Event::RayLength { below_tolerance: false }),
        Action::ComputeSupport { accelerate: false }
    );
}

#[test]
fn support_beyond_bound_stops() {
    let mut c = Controller::new(0u32);
    c.begin(3);
    c.advance(Event::RayLength { below_tolerance: false });
    c.advance(Event::Support(9));
    assert_eq!(
        c.advance(Event::SupportBound { exceeded: true }),
        Action::Finish(Outcome { stop: Stop::SupportBeyondBound, iterations: 0 })
    );
}

#[test]
fn iterations_run_out() {
    let mut c = Controller::new(0u32);
    c.begin(1);
    c.advance(Event::RayLength { below_tolerance: false });
    c.advance(Event::Support(1));
    c.advance(Event::SupportBound { exceeded: false });
    c.advance(Event::DualityGap { closed: false });
    c.advance(Event::Convergence { passed: false });
    assert_eq!(
        c.advance(Event::RayUpdated { vanished: false }),
        Action::Finish(Outcome { stop: Stop::IterationsExhausted, iterations: 0 })
    );
}

#[test]
fn triangle_face_on_plane_encloses() {
    let mut c = Controller::new(0u32);
    c.begin(10);
    for v in 1..=3u32 {
        c.advance(Event::RayLength { below_tolerance: false });
        c.advance(Event::Support(v));
        c.advance(Event::SupportBound { exceeded: false });
        c.advance(Event::DualityGap { closed: false });
        let a = c.advance(Event::Convergence { passed: false });
        if v == 3 {
            assert_eq!(a, Action::ProjectTriangle);
            break;
        }
        if v == 2 {
            c.advance(Event::Line(LineTests { d_is_zero: false, d_is_negative: false, a_is_origin: false }));
        }
        c.advance(Event::RayUpdated { vanished: false });
    }
    let t = TriangleTests { beyond_ac: false, toward_c: false, away_from_b: false, beyond_ab: false, face: FaceSide::OnPlane };
    let a = c.advance(Event::Triangle(t));
    assert!(matches!(a, Action::UpdateRay { enclosed: true, .. }));
    assert_eq!(
        c.advance(Event::RayUpdated { vanished: false }),
        Action::Finish(Outcome { stop: Stop::OriginEnclosed, iterations: 2 })
    );
}

fn iterate(c: &mut Controller<u32>, v: u32) -> Action {
    c.advance(Event::RayLength { below_tolerance: false });
    c.advance(Event::Support(v));
    c.advance(Event::SupportBound { exceeded: false });
    c.advance(Event::DualityGap { closed: false });
    c.advance(Event::Convergence { passed: false })
}

#[test]
fn reused_controller_with_full_simplex() {
    let mut c = Controller::new(0u32);
    c.begin(10);
    iterate(&mut c, 1);
    c.advance(Event::RayUpdated { vanished: false });
    iterate(&mut c, 2);
    c.advance(Event::Line(LineTests { d_is_zero: false, d_is_negative: false, a_is_origin: false }));
    c.advance(Event::RayUpdated { vanished: false });
    iterate(&mut c, 3);
    let t = TriangleTests { beyond_ac: false, toward_c: false, away_from_b: false, beyond_ab: false, face: FaceSide::Above };
    c.advance(Event::Triangle(t));
    c.advance(Event::RayUpdated { vanished: false });
    assert_eq!(iterate(&mut c, 4), Action::ProjectTetrahedron);
    assert_eq!(contents(&c), vec![1, 2, 3, 4]);
    let inside = gjk::regions::TetraTests {
        ba_aa: true, ca_aa: false, da_aa: false, neg_d_ab: false, c_ab: false, d_ac: false,
        ab_toward_d: false, ab_toward_c: false, ac_toward_b: false, ac_toward_d: false,
        ad_toward_b: false, ad_toward_c: false,
        side_abc: FaceSide::Above, side_acd: FaceSide::Above, side_adb: FaceSide::Above,
    };
    let a = c.advance(Event::Tetrahedron(inside));
    assert!(matches!(a, Action::UpdateRay { enclosed: true, .. }));
    assert_eq!(
        c.advance(Event::RayUpdated { vanished: false }),
        Action::Finish(Outcome { stop: Stop::OriginEnclosed, iterations: 3 })
    );
    // the simplex is kept for the next query, which finds it full
    c.begin(10);
    c.advance(Event::RayLength { below_tolerance: false });
    assert_eq!(
        c.advance(Event::Support(5)),
        Action::Finish(Outcome { stop: Stop::SimplexFull, iterations: 0 })
    );
}
