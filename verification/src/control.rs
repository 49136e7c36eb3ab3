use vstd::prelude::*;

use crate::regions::{
    line_encloses_spec, line_kept_spec, line_region_spec, reduce_line, reduce_tetra,
    reduce_triangle, tetra_encloses_spec, tetra_kept_spec, tetra_region_spec,
    triangle_encloses_spec, triangle_kept_spec, triangle_region_spec, LineRegion, LineTests,
    TetraRegion, TetraTests, TriangleRegion, TriangleTests,
};
use crate::simplex::Simplex;

verus! {

/// Why a distance query stopped.
#[derive(PartialEq, Eq, Structural, Clone, Copy, Debug)]
pub enum Stop {
    /// The ray was shorter than the tolerance at the start of an iteration.
    RayBelowTolerance,
    /// The support point lies beyond the upper bound in the search direction.
    SupportBeyondBound,
    /// The convergence test passed without acceleration.
    Converged,
    /// The origin was found inside the simplex, or the ray became zero.
    OriginEnclosed,
    /// All iterations were used.
    IterationsExhausted,
    /// A support point was delivered while the simplex already held four vertices.
    SimplexFull,
}

/// How a query ended, and the index of the last iteration that was entered.
#[derive(PartialEq, Eq, Structural, Clone, Copy, Debug)]
pub struct Outcome {
    pub stop: Stop,
    pub iterations: usize,
}

/// How the ray (the point of the simplex closest to the origin) must be recomputed.
#[derive(PartialEq, Eq, Structural, Clone, Copy, Debug)]
pub enum RayUpdate {
    /// The ray becomes the newest support point.
    ToSupport,
    /// The ray is left as it is.
    Unchanged,
    /// Projection onto the segment region that was chosen.
    Line(LineRegion),
    /// Projection onto the triangle region that was chosen.
    Triangle(TriangleRegion),
    /// Projection onto the tetrahedron region that was chosen.
    Tetra(TetraRegion),
}

/// What the caller must do next.
#[derive(PartialEq, Eq, Structural, Clone, Copy, Debug)]
pub enum Action {
    /// Report whether the length of the ray is below the tolerance (`Event::RayLength`).
    CheckRayLength,
    /// Compute the search direction (with or without momentum) and the support point of
    /// the Minkowski difference in that direction (`Event::Support`).
    ComputeSupport { accelerate: bool },
    /// Report whether the support value exceeds the upper bound (`Event::SupportBound`).
    CheckSupportBound,
    /// Report whether the Frank-Wolfe duality gap is closed (`Event::DualityGap`).
    CheckDualityGap,
    /// Run the convergence test and report its result (`Event::Convergence`).
    CheckConvergence,
    /// Report the comparisons for the segment held by the simplex (`Event::Line`).
    ProjectLine,
    /// Report the comparisons for the triangle held by the simplex (`Event::Triangle`).
    ProjectTriangle,
    /// Report the comparisons for the tetrahedron held by the simplex (`Event::Tetrahedron`).
    ProjectTetrahedron,
    /// Recompute the ray; unless `enclosed`, recompute its length, and report whether it
    /// is zero (`Event::RayUpdated`).
    UpdateRay { update: RayUpdate, enclosed: bool },
    /// The query is over.
    Finish(Outcome),
}

/// What the caller reports back.
pub enum Event<T> {
    RayLength { below_tolerance: bool },
    Support(T),
    SupportBound { exceeded: bool },
    DualityGap { closed: bool },
    Convergence { passed: bool },
    Line(LineTests),
    Triangle(TriangleTests),
    Tetrahedron(TetraTests),
    RayUpdated { vanished: bool },
}

/// The abstract state of a query.
pub struct ControlState<T> {
    pub simplex: Seq<T>,
    pub accelerate: bool,
    pub iteration: usize,
    pub max_iterations: usize,
    pub pending: Action,
}

pub open spec fn is_finish(a: Action) -> bool {
    a is Finish
}

/// Whether `e` is the kind of report that `a` asks for.
pub open spec fn answers<T>(a: Action, e: Event<T>) -> bool {
    match a {
        Action::CheckRayLength => e is RayLength,
        Action::ComputeSupport { .. } => e is Support,
        Action::CheckSupportBound => e is SupportBound,
        Action::CheckDualityGap => e is DualityGap,
        Action::CheckConvergence => e is Convergence,
        Action::ProjectLine => e is Line,
        Action::ProjectTriangle => e is Triangle,
        Action::ProjectTetrahedron => e is Tetrahedron,
        Action::UpdateRay { .. } => e is RayUpdated,
        Action::Finish(_) => false,
    }
}

pub open spec fn with_pending<T>(s: ControlState<T>, a: Action) -> ControlState<T> {
    ControlState { pending: a, ..s }
}

pub open spec fn finished<T>(s: ControlState<T>, stop: Stop) -> ControlState<T> {
    with_pending(s, Action::Finish(Outcome { stop, iterations: s.iteration }))
}

/// Ends an iteration: the next one starts, or the query ends when none is left.
pub open spec fn next_iteration<T>(s: ControlState<T>) -> ControlState<T> {
    if s.iteration + 1 < s.max_iterations {
        ControlState {
            iteration: (s.iteration + 1) as usize,
            pending: Action::CheckRayLength,
            ..s
        }
    } else {
        finished(s, Stop::IterationsExhausted)
    }
}

/// What is asked after a failed convergence test, by the number of vertices.
pub open spec fn projection_request(len: nat) -> Action {
    if len == 1 {
        Action::UpdateRay { update: RayUpdate::ToSupport, enclosed: false }
    } else if len == 2 {
        Action::ProjectLine
    } else if len == 3 {
        Action::ProjectTriangle
    } else if len == 4 {
        Action::ProjectTetrahedron
    } else {
        Action::UpdateRay { update: RayUpdate::Unchanged, enclosed: false }
    }
}

/// One step of a query: the state after `e` answers the pending request.
/// A report that does not answer the pending request leaves the state unchanged.
pub open spec fn step<T>(s: ControlState<T>, e: Event<T>) -> ControlState<T> {
    match s.pending {
        Action::CheckRayLength => match e {
            Event::RayLength { below_tolerance } => {
                if below_tolerance {
                    finished(s, Stop::RayBelowTolerance)
                } else {
                    with_pending(s, Action::ComputeSupport { accelerate: s.accelerate })
                }
            },
            _ => s,
        },
        Action::ComputeSupport { .. } => match e {
            Event::Support(v) => {
                if s.simplex.len() >= 4 {
                    finished(s, Stop::SimplexFull)
                } else {
                    ControlState {
                        simplex: s.simplex.push(v),
                        pending: Action::CheckSupportBound,
                        ..s
                    }
                }
            },
            _ => s,
        },
        Action::CheckSupportBound => match e {
            Event::SupportBound { exceeded } => {
                if exceeded {
                    finished(s, Stop::SupportBeyondBound)
                } else if s.accelerate {
                    with_pending(s, Action::CheckDualityGap)
                } else {
                    with_pending(s, Action::CheckConvergence)
                }
            },
            _ => s,
        },
        Action::CheckDualityGap => match e {
            Event::DualityGap { closed } => {
                if closed {
                    next_iteration(
                        ControlState { accelerate: false, simplex: s.simplex.drop_last(), ..s },
                    )
                } else {
                    with_pending(s, Action::CheckConvergence)
                }
            },
            _ => s,
        },
        Action::CheckConvergence => match e {
            Event::Convergence { passed } => {
                if s.iteration > 0 && passed {
                    let t = ControlState { simplex: s.simplex.drop_last(), ..s };
                    if s.accelerate {
                        next_iteration(ControlState { accelerate: false, ..t })
                    } else {
                        finished(t, Stop::Converged)
                    }
                } else {
                    with_pending(s, projection_request(s.simplex.len()))
                }
            },
            _ => s,
        },
        Action::ProjectLine => match e {
            Event::Line(t) => ControlState {
                simplex: line_kept_spec(s.simplex, line_region_spec(t)),
                pending: Action::UpdateRay {
                    update: RayUpdate::Line(line_region_spec(t)),
                    enclosed: line_encloses_spec(t),
                },
                ..s
            },
            _ => s,
        },
        Action::ProjectTriangle => match e {
            Event::Triangle(t) => ControlState {
                simplex: triangle_kept_spec(s.simplex, triangle_region_spec(t), t.face),
                pending: Action::UpdateRay {
                    update: RayUpdate::Triangle(triangle_region_spec(t)),
                    enclosed: triangle_encloses_spec(t),
                },
                ..s
            },
            _ => s,
        },
        Action::ProjectTetrahedron => match e {
            Event::Tetrahedron(t) => ControlState {
                simplex: tetra_kept_spec(s.simplex, t),
                pending: Action::UpdateRay {
                    update: RayUpdate::Tetra(tetra_region_spec(t)),
                    enclosed: tetra_encloses_spec(t),
                },
                ..s
            },
            _ => s,
        },
        Action::UpdateRay { enclosed, .. } => match e {
            Event::RayUpdated { vanished } => {
                if enclosed || vanished {
                    finished(s, Stop::OriginEnclosed)
                } else {
                    next_iteration(s)
                }
            },
            _ => s,
        },
        Action::Finish(_) => s,
    }
}

/// The state at the start of a query with `max_iterations` iterations. The simplex is
/// kept from the previous query.
pub open spec fn start<T>(s: ControlState<T>, max_iterations: usize) -> ControlState<T> {
    ControlState {
        simplex: s.simplex,
        accelerate: true,
        iteration: 0,
        max_iterations,
        pending: if max_iterations == 0 {
            Action::Finish(Outcome { stop: Stop::IterationsExhausted, iterations: 0 })
        } else {
            Action::CheckRayLength
        },
    }
}

/// The shape of a state that the controller keeps at all times.
pub open spec fn consistent<T>(s: ControlState<T>) -> bool {
    &&& s.simplex.len() <= 4
    &&& !is_finish(s.pending) ==> s.iteration < s.max_iterations
    &&& s.pending == Action::ProjectLine ==> s.simplex.len() == 2
    &&& s.pending == Action::ProjectTriangle ==> s.simplex.len() == 3
    &&& s.pending == Action::ProjectTetrahedron ==> s.simplex.len() == 4
    &&& (s.pending == Action::CheckSupportBound || s.pending == Action::CheckDualityGap
        || s.pending == Action::CheckConvergence) ==> s.simplex.len() >= 1
}


// ---------------------------------------------------------------------------
// Laws of a query
// ---------------------------------------------------------------------------

/// The simplex has room for the next support point whenever one is asked for.
pub open spec fn has_room<T>(s: ControlState<T>) -> bool {
    &&& consistent(s)
    &&& (s.pending == Action::CheckRayLength || s.pending is ComputeSupport) ==> s.simplex.len()
        <= 3
    &&& (s.pending matches Action::UpdateRay { enclosed, .. } && !enclosed) ==> s.simplex.len()
        <= 3
    &&& !(s.pending matches Action::Finish(o) && o.stop == Stop::SimplexFull)
}

/// How much work is left at most: one unit per phase, nine per iteration.
pub open spec fn phase_rank(a: Action) -> nat {
    match a {
        Action::CheckRayLength => 8,
        Action::ComputeSupport { .. } => 7,
        Action::CheckSupportBound => 6,
        Action::CheckDualityGap => 5,
        Action::CheckConvergence => 4,
        Action::ProjectLine => 3,
        Action::ProjectTriangle => 3,
        Action::ProjectTetrahedron => 3,
        Action::UpdateRay { .. } => 2,
        Action::Finish(_) => 0,
    }
}

pub open spec fn remaining_work<T>(s: ControlState<T>) -> int {
    (s.max_iterations - s.iteration) * 9 + phase_rank(s.pending)
}

/// Every step keeps the state consistent.
pub proof fn lemma_step_keeps_consistency<T>(s: ControlState<T>, e: Event<T>)
    requires
        consistent(s),
    ensures
        consistent(step(s, e)),
{
}

/// A query that starts with at most three vertices in its simplex never finds the
/// simplex full: the room is there at the start and every step keeps it.
pub proof fn lemma_start_has_room<T>(s: ControlState<T>, max_iterations: usize)
    requires
        consistent(s),
        s.simplex.len() <= 3,
    ensures
        has_room(start(s, max_iterations)),
{
}

/// See `lemma_start_has_room`.
pub proof fn lemma_step_keeps_room<T>(s: ControlState<T>, e: Event<T>)
    requires
        has_room(s),
    ensures
        has_room(step(s, e)),
{
    match s.pending {
        Action::ProjectTetrahedron => {
            if let Event::Tetrahedron(t) = e {
                crate::regions::lemma_tetra_kept_shrinks(s.simplex, t);
            }
        },
        Action::ProjectTriangle => {
            if let Event::Triangle(t) = e {
                crate::regions::lemma_triangle_kept_length(s.simplex, t);
            }
        },
        _ => {},
    }
}

/// Once acceleration is switched off during a query, it stays off.
pub proof fn lemma_acceleration_never_resumes<T>(s: ControlState<T>, e: Event<T>)
    requires
        !s.accelerate,
    ensures
        !step(s, e).accelerate,
{
}

/// A report that does not answer the pending request changes nothing, and a finished
/// query stays finished.
pub proof fn lemma_unanswered_report_changes_nothing<T>(s: ControlState<T>, e: Event<T>)
    requires
        !answers(s.pending, e),
    ensures
        step(s, e) == s,
{
}

/// Every answer either finishes the query or strictly lowers the work that is left,
/// which is never negative: a query always finishes.
pub proof fn lemma_answer_makes_progress<T>(s: ControlState<T>, e: Event<T>)
    requires
        consistent(s),
        answers(s.pending, e),
    ensures
        is_finish(step(s, e).pending) || (0 <= remaining_work(step(s, e)) < remaining_work(s)),
{
}

/// When a query finishes, it reports the index of the iteration it was in, which is
/// below the number of iterations it was given.
pub proof fn lemma_outcome_reports_current_iteration<T>(s: ControlState<T>, e: Event<T>)
    requires
        consistent(s),
        !is_finish(s.pending),
        step(s, e).pending is Finish,
    ensures
        step(s, e).pending->Finish_0.iterations == s.iteration,
        s.iteration < s.max_iterations,
{
}

/// An iteration that ends without a stop is followed by the next one whenever iterations
/// are left: a query runs all of its `max_iterations` iterations unless another stop comes
/// first. It ends with `IterationsExhausted` only after its last iteration.
pub proof fn lemma_iterations_run_to_the_end<T>(s: ControlState<T>, e: Event<T>)
    requires
        consistent(s),
        (s.pending matches Action::UpdateRay { enclosed, .. } && !enclosed && e
            == (Event::<T>::RayUpdated { vanished: false })) || (s.pending == Action::CheckDualityGap
            && e == (Event::<T>::DualityGap { closed: true })),
    ensures
        s.iteration + 1 < s.max_iterations ==> step(s, e).iteration == s.iteration + 1
            && step(s, e).pending == Action::CheckRayLength && step(s, e).max_iterations
            == s.max_iterations,
        s.iteration + 1 >= s.max_iterations ==> step(s, e).pending == Action::Finish(
            (Outcome { stop: Stop::IterationsExhausted, iterations: s.iteration }),
        ),
{
}

/// A query ends because its iterations are used up only in its last iteration, and an
/// iteration count changes only by one, to start the next iteration.
pub proof fn lemma_exhausted_only_at_last_iteration<T>(s: ControlState<T>, e: Event<T>)
    requires
        consistent(s),
        !is_finish(s.pending),
    ensures
        (step(s, e).pending matches Action::Finish(o) && o.stop == Stop::IterationsExhausted)
            ==> s.iteration + 1 == s.max_iterations,
        step(s, e).iteration != s.iteration ==> step(s, e).iteration == s.iteration + 1
            && step(s, e).pending == Action::CheckRayLength,
        step(s, e).max_iterations == s.max_iterations,
{
}

/// A query started with a positive number of iterations starts its first iteration.
pub proof fn lemma_start_first_iteration<T>(s: ControlState<T>, max_iterations: usize)
    ensures
        max_iterations > 0 ==> start(s, max_iterations).pending == Action::CheckRayLength
            && start(s, max_iterations).iteration == 0,
        max_iterations == 0 ==> start(s, max_iterations).pending == Action::Finish(
            (Outcome { stop: Stop::IterationsExhausted, iterations: 0 }),
        ),
{
}

/// What each report decides, in terms of the report: a short ray or a support value beyond
/// the bound ends the query in the current iteration; a support point is added as the
/// newest vertex; with acceleration the duality gap is checked before convergence, without
/// it only convergence; a failed convergence test (or any in the first iteration) asks for
/// the projection that fits the number of vertices.
pub proof fn lemma_reports_decide<T>(s: ControlState<T>, e: Event<T>)
    requires
        consistent(s),
    ensures
        (s.pending == Action::CheckRayLength && e == (Event::<T>::RayLength {
            below_tolerance: true,
        })) ==> step(s, e).pending == Action::Finish(
            (Outcome { stop: Stop::RayBelowTolerance, iterations: s.iteration }),
        ),
        (s.pending == Action::CheckRayLength && e == (Event::<T>::RayLength {
            below_tolerance: false,
        })) ==> step(s, e).pending == (Action::ComputeSupport { accelerate: s.accelerate }),
        (s.pending is ComputeSupport && e is Support && s.simplex.len() < 4) ==> step(
            s,
            e,
        ).simplex == s.simplex.push(e->Support_0) && step(s, e).pending
            == Action::CheckSupportBound,
        (s.pending == Action::CheckSupportBound && e == (Event::<T>::SupportBound {
            exceeded: true,
        })) ==> step(s, e).pending == Action::Finish(
            (Outcome { stop: Stop::SupportBeyondBound, iterations: s.iteration }),
        ),
        (s.pending == Action::CheckSupportBound && e == (Event::<T>::SupportBound {
            exceeded: false,
        })) ==> step(s, e).pending == (if s.accelerate {
            Action::CheckDualityGap
        } else {
            Action::CheckConvergence
        }),
        (s.pending == Action::CheckDualityGap && e == (Event::<T>::DualityGap { closed: false }))
            ==> step(s, e).pending == Action::CheckConvergence && step(s, e).simplex
            == s.simplex,
        (s.pending == Action::CheckDualityGap && e == (Event::<T>::DualityGap { closed: true }))
            ==> !step(s, e).accelerate && step(s, e).simplex == s.simplex.drop_last(),
        (s.pending == Action::CheckConvergence && e is Convergence && (s.iteration == 0
            || !e->passed)) ==> step(s, e).simplex == s.simplex && step(s, e).pending == (if s.simplex.len() == 1 {
            (Action::UpdateRay { update: RayUpdate::ToSupport, enclosed: false })
        } else if s.simplex.len() == 2 {
            Action::ProjectLine
        } else if s.simplex.len() == 3 {
            Action::ProjectTriangle
        } else {
            Action::ProjectTetrahedron
        }),
        (s.pending matches Action::UpdateRay { enclosed, .. } && enclosed && e is RayUpdated)
            ==> step(s, e).pending == Action::Finish(
            (Outcome { stop: Stop::OriginEnclosed, iterations: s.iteration }),
        ),
        (s.pending is UpdateRay && e == (Event::<T>::RayUpdated { vanished: true })) ==> step(
            s,
            e,
        ).pending == Action::Finish(
            (Outcome { stop: Stop::OriginEnclosed, iterations: s.iteration }),
        ),
{
}

/// A projection keeps only vertices of the simplex, and keeps the newest support point
/// as its newest vertex.
pub proof fn lemma_projection_keeps_newest<T>(s: ControlState<T>, e: Event<T>)
    requires
        consistent(s),
        s.pending == Action::ProjectLine || s.pending == Action::ProjectTriangle || s.pending
            == Action::ProjectTetrahedron,
        answers(s.pending, e),
    ensures
        step(s, e).simplex.len() >= 1,
        step(s, e).simplex.last() == s.simplex.last(),
        forall|i: int|
            0 <= i < step(s, e).simplex.len() ==> s.simplex.contains(#[trigger] step(s, e).simplex[i]),
{
    match e {
        Event::Line(t) => crate::regions::lemma_line_keeps_newest(s.simplex, t),
        Event::Triangle(t) => crate::regions::lemma_triangle_keeps_newest(s.simplex, t),
        Event::Tetrahedron(t) => crate::regions::lemma_tetra_keeps_newest(s.simplex, t),
        _ => {},
    }
}

/// The convergence test ends a query only after the first iteration and only once
/// acceleration is off; the newest support point is then dropped from the simplex.
pub proof fn lemma_convergence_stop<T>(s: ControlState<T>, e: Event<T>)
    requires
        !is_finish(s.pending),
        step(s, e).pending matches Action::Finish(o) && o.stop == Stop::Converged,
    ensures
        s.pending == Action::CheckConvergence,
        s.iteration > 0,
        !s.accelerate,
        step(s, e).simplex == s.simplex.drop_last(),
{
}

/// Drives one distance query of the accelerated GJK algorithm: it decides, from the
/// comparisons that the caller reports, what is done next, and keeps the simplex.
pub struct Controller<T> {
    simplex: Simplex<T>,
    accelerate: bool,
    iteration: usize,
    max_iterations: usize,
    pending: Action,
}

impl<T> Controller<T> {
    pub closed spec fn view(&self) -> ControlState<T> {
        ControlState {
            simplex: self.simplex@,
            accelerate: self.accelerate,
            iteration: self.iteration,
            max_iterations: self.max_iterations,
            pending: self.pending,
        }
    }

    #[verifier::type_invariant]
    closed spec fn keeps_consistent(self) -> bool {
        consistent(self@)
    }
}

impl<T: Copy> Controller<T> {
    /// A controller with an empty simplex (slots filled with `fill`), before any query.
    pub fn new(fill: T) -> (c: Self)
        ensures
            c@.simplex == Seq::<T>::empty(),
            c@.accelerate,
            c@.iteration == 0,
            c@.max_iterations == 0,
            c@.pending == Action::Finish(
                Outcome { stop: Stop::IterationsExhausted, iterations: 0 },
            ),
    {
        Controller {
            simplex: Simplex::new(fill),
            accelerate: true,
            iteration: 0,
            max_iterations: 0,
            pending: Action::Finish(Outcome { stop: Stop::IterationsExhausted, iterations: 0 }),
        }
    }

    /// The simplex as it stands.
    pub fn simplex(&self) -> (s: &Simplex<T>)
        ensures
            s@ == self@.simplex,
    {
        &self.simplex
    }

    /// The index of the current iteration.
    pub fn iteration(&self) -> (i: usize)
        ensures
            i == self@.iteration,
    {
        self.iteration
    }

    /// The request that waits for an answer.
    pub fn pending(&self) -> (a: Action)
        ensures
            a == self@.pending,
    {
        self.pending
    }

    /// Starts a query of at most `max_iterations` iterations and returns the first request.
    pub fn begin(&mut self, max_iterations: usize) -> (a: Action)
        ensures
            final(self)@ == start(old(self)@, max_iterations),
            a == final(self)@.pending,
    {
        proof {
            use_type_invariant(&*self);
        }
        self.pending = Action::Finish(Outcome { stop: Stop::IterationsExhausted, iterations: 0 });
        self.accelerate = true;
        self.iteration = 0;
        self.max_iterations = max_iterations;
        if max_iterations != 0 {
            self.pending = Action::CheckRayLength;
        }
        self.pending
    }

    fn finish(&mut self, stop: Stop) -> (a: Action)
        requires
            old(self)@.simplex.len() <= 4,
        ensures
            final(self)@ == finished(old(self)@, stop),
            a == final(self)@.pending,
    {
        self.pending = Action::Finish(Outcome { stop, iterations: self.iteration });
        self.pending
    }

    fn next(&mut self) -> (a: Action)
        requires
            old(self)@.pending == Action::CheckRayLength || old(self)@.pending is UpdateRay,
            old(self)@.iteration < old(self)@.max_iterations,
            old(self)@.simplex.len() <= 4,
        ensures
            final(self)@ == next_iteration(old(self)@),
            a == final(self)@.pending,
    {
        proof {
            use_type_invariant(&*self);
        }
        if self.iteration + 1 < self.max_iterations {
            self.iteration = self.iteration + 1;
            self.pending = Action::CheckRayLength;
        } else {
            self.pending = Action::Finish(
                Outcome { stop: Stop::IterationsExhausted, iterations: self.iteration },
            );
        }
        self.pending
    }

    /// Takes the caller's report and returns the next request.
    pub fn advance(&mut self, e: Event<T>) -> (a: Action)
        ensures
            final(self)@ == step(old(self)@, e),
            a == final(self)@.pending,
    {
        match self.pending {
            Action::CheckRayLength => self.on_ray_length(e),
            Action::ComputeSupport { .. } => self.on_support(e),
            Action::CheckSupportBound => self.on_support_bound(e),
            Action::CheckDualityGap => self.on_duality_gap(e),
            Action::CheckConvergence => self.on_convergence(e),
            Action::ProjectLine => self.on_line(e),
            Action::ProjectTriangle => self.on_triangle(e),
            Action::ProjectTetrahedron => self.on_tetra(e),
            Action::UpdateRay { .. } => self.on_ray_updated(e),
            Action::Finish(_) => self.pending,
        }
    }

    fn on_ray_length(&mut self, e: Event<T>) -> (a: Action)
        requires
            old(self)@.pending is CheckRayLength,
        ensures
            final(self)@ == step(old(self)@, e),
            a == final(self)@.pending,
    {
        proof {
            use_type_invariant(&*self);
        }
        match e {
            Event::RayLength { below_tolerance } => {
                if below_tolerance {
                    self.finish(Stop::RayBelowTolerance)
                } else {
                    self.pending = Action::ComputeSupport { accelerate: self.accelerate };
                    self.pending
                }
            },
            _ => self.pending,
        }
    }

    fn on_support(&mut self, e: Event<T>) -> (a: Action)
        requires
            old(self)@.pending is ComputeSupport,
        ensures
            final(self)@ == step(old(self)@, e),
            a == final(self)@.pending,
    {
        proof {
            use_type_invariant(&*self);
        }
        match e {
            Event::Support(v) => {
                if self.simplex.len() >= 4 {
                    self.finish(Stop::SimplexFull)
                } else {
                    self.simplex.push(v);
                    self.pending = Action::CheckSupportBound;
                    self.pending
                }
            },
            _ => self.pending,
        }
    }

    fn on_support_bound(&mut self, e: Event<T>) -> (a: Action)
        requires
            old(self)@.pending is CheckSupportBound,
        ensures
            final(self)@ == step(old(self)@, e),
            a == final(self)@.pending,
    {
        proof {
            use_type_invariant(&*self);
        }
        match e {
            Event::SupportBound { exceeded } => {
                if exceeded {
                    self.finish(Stop::SupportBeyondBound)
                } else if self.accelerate {
                    self.pending = Action::CheckDualityGap;
                    self.pending
                } else {
                    self.pending = Action::CheckConvergence;
                    self.pending
                }
            },
            _ => self.pending,
        }
    }

    fn on_duality_gap(&mut self, e: Event<T>) -> (a: Action)
        requires
            old(self)@.pending is CheckDualityGap,
        ensures
            final(self)@ == step(old(self)@, e),
            a == final(self)@.pending,
    {
        proof {
            use_type_invariant(&*self);
        }
        match e {
            Event::DualityGap { closed } => {
                if closed {
                    self.pending = Action::CheckRayLength;
                    self.accelerate = false;
                    self.simplex.pop();
                    self.next()
                } else {
                    self.pending = Action::CheckConvergence;
                    self.pending
                }
            },
            _ => self.pending,
        }
    }

    fn on_convergence(&mut self, e: Event<T>) -> (a: Action)
        requires
            old(self)@.pending is CheckConvergence,
        ensures
            final(self)@ == step(old(self)@, e),
            a == final(self)@.pending,
    {
        proof {
            use_type_invariant(&*self);
        }
        match e {
            Event::Convergence { passed } => {
                if self.iteration > 0 && passed {
                    self.pending = Action::CheckRayLength;
                    self.simplex.pop();
                    if self.accelerate {
                        self.accelerate = false;
                        self.next()
                    } else {
                        self.finish(Stop::Converged)
                    }
                } else {
                    let n = self.simplex.len();
                    self.pending =
                        if n == 1 {
                            Action::UpdateRay { update: RayUpdate::ToSupport, enclosed: false }
                        } else if n == 2 {
                            Action::ProjectLine
                        } else if n == 3 {
                            Action::ProjectTriangle
                        } else if n == 4 {
                            Action::ProjectTetrahedron
                        } else {
                            Action::UpdateRay { update: RayUpdate::Unchanged, enclosed: false }
                        };
                    self.pending
                }
            },
            _ => self.pending,
        }
    }

    fn on_line(&mut self, e: Event<T>) -> (a: Action)
        requires
            old(self)@.pending is ProjectLine,
        ensures
            final(self)@ == step(old(self)@, e),
            a == final(self)@.pending,
    {
        proof {
            use_type_invariant(&*self);
        }
        match e {
            Event::Line(t) => {
                self.pending = Action::CheckRayLength;
                let (r, enclosed) = reduce_line(&mut self.simplex, &t);
                self.pending = Action::UpdateRay { update: RayUpdate::Line(r), enclosed };
                self.pending
            },
            _ => self.pending,
        }
    }

    fn on_triangle(&mut self, e: Event<T>) -> (a: Action)
        requires
            old(self)@.pending is ProjectTriangle,
        ensures
            final(self)@ == step(old(self)@, e),
            a == final(self)@.pending,
    {
        proof {
            use_type_invariant(&*self);
        }
        match e {
            Event::Triangle(t) => {
                self.pending = Action::CheckRayLength;
                let (r, enclosed) = reduce_triangle(&mut self.simplex, &t);
                self.pending = Action::UpdateRay { update: RayUpdate::Triangle(r), enclosed };
                self.pending
            },
            _ => self.pending,
        }
    }

    fn on_tetra(&mut self, e: Event<T>) -> (a: Action)
        requires
            old(self)@.pending is ProjectTetrahedron,
        ensures
            final(self)@ == step(old(self)@, e),
            a == final(self)@.pending,
    {
        proof {
            use_type_invariant(&*self);
        }
        match e {
            Event::Tetrahedron(t) => {
                self.pending = Action::CheckRayLength;
                let (r, enclosed) = reduce_tetra(&mut self.simplex, &t);
                self.pending = Action::UpdateRay { update: RayUpdate::Tetra(r), enclosed };
                self.pending
            },
            _ => self.pending,
        }
    }

    fn on_ray_updated(&mut self, e: Event<T>) -> (a: Action)
        requires
            old(self)@.pending is UpdateRay,
        ensures
            final(self)@ == step(old(self)@, e),
            a == final(self)@.pending,
    {
        proof {
            use_type_invariant(&*self);
        }
        let enclosed = match self.pending { Action::UpdateRay { enclosed, .. } => enclosed, _ => false };
        match e {
            Event::RayUpdated { vanished } => {
                if enclosed || vanished {
                    self.finish(Stop::OriginEnclosed)
                } else {
                    self.next()
                }
            },
            _ => self.pending,
        }
    }
}

} // verus!
