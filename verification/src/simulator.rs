//! The simulator: live parameters, a start point and the trail.
//!
//! The simulator never computes a point itself. [`Simulator::step`] is handed
//! the integrator, calls it on the newest point of the trail with the current
//! coefficients and time step, and records what comes back. Its contract
//! says which calls were made and what became of the results.
use crate::trail::{keep_newest, lemma_record_after_eviction, Trail};
use vstd::prelude::*;

verus! {

/// The trail bound that a new simulator starts with.
pub const DEFAULT_TAIL_LENGTH: usize = 5000;

/// The number of integration steps per frame that a new simulator starts
/// with.
pub const DEFAULT_STEPS_PER_FRAME: usize = 10;

/// The three coefficients of the vector field.
#[derive(Debug)]
pub struct Coefficients<S> {
    pub sigma: S,
    pub beta: S,
    pub rho: S,
}

impl<S: Copy> Clone for Coefficients<S> {
    fn clone(&self) -> (copy: Self)
        ensures
            copy == *self,
    {
        *self
    }
}

impl<S: Copy> Copy for Coefficients<S> {

}

/// The live parameters of a simulation. A front end may change any of them
/// between two frames.
#[derive(Debug)]
pub struct SimulationParameters<S> {
    pub sigma: S,
    pub beta: S,
    pub rho: S,
    /// The fixed integration time step.
    pub dt: S,
    /// The most points that the trail keeps after a step.
    pub tail_length: usize,
    /// The number of integration steps that one frame makes.
    pub steps_per_frame: usize,
}

impl<S: Copy> Clone for SimulationParameters<S> {
    fn clone(&self) -> (copy: Self)
        ensures
            copy == *self,
    {
        *self
    }
}

impl<S: Copy> Copy for SimulationParameters<S> {

}

/// What a simulator holds, with the trail as a sequence, oldest point first.
pub struct SimulatorView<S, P> {
    pub params: SimulationParameters<S>,
    pub defaults: Coefficients<S>,
    pub start: P,
    pub trail: Seq<P>,
}

/// A simulation in progress.
pub struct Simulator<S, P> {
    params: SimulationParameters<S>,
    defaults: Coefficients<S>,
    start: P,
    trail: Trail<P>,
}

impl<S, P> View for Simulator<S, P> {
    type V = SimulatorView<S, P>;

    closed spec fn view(&self) -> SimulatorView<S, P> {
        SimulatorView {
            params: self.params,
            defaults: self.defaults,
            start: self.start,
            trail: self.trail@,
        }
    }
}

/// Whether `points` is what repeated integration gives from `from`: each
/// entry is a result of `integrate` on the entry before it (the first one on
/// `from`) with the coefficients and time step of `params`.
pub open spec fn is_trajectory<S, P, F: Fn(&P, S, S, S, S) -> P>(
    integrate: F,
    params: SimulationParameters<S>,
    from: P,
    points: Seq<P>,
) -> bool {
    forall|i: int|
        0 <= i < points.len() ==> call_ensures(
            integrate,
            (
                &(if i == 0 {
                    from
                } else {
                    points[i - 1]
                }),
                params.sigma,
                params.beta,
                params.rho,
                params.dt,
            ),
            #[trigger] points[i],
        )
}

/// The trail after `points` have been recorded one by one onto `trail`
/// under the bound `limit`: the newest `limit` entries of the two joined,
/// in their order. With nothing recorded the trail is as it was.
pub open spec fn advanced<P>(trail: Seq<P>, points: Seq<P>, limit: nat) -> Seq<P> {
    if points.len() == 0 {
        trail
    } else {
        keep_newest(trail + points, limit)
    }
}

/// Recording one point more onto an advanced trail, with eviction after the
/// append, advances the trail by that point: `advanced` is what recording
/// point by point gives.
pub proof fn lemma_advanced_by_one_more<P>(trail: Seq<P>, points: Seq<P>, point: P, limit: nat)
    ensures
        advanced(trail, points.push(point), limit) == keep_newest(
            advanced(trail, points, limit).push(point),
            limit,
        ),
{
    assert(trail + points.push(point) =~= (trail + points).push(point));
    if points.len() == 0 {
        assert(trail + points =~= trail);
    } else {
        lemma_record_after_eviction(trail + points, point, limit);
    }
}

/// After at least one point has been recorded under a bound of at least
/// one, the trail holds between one and `limit` points, and the point
/// recorded last is its newest.
pub proof fn lemma_advanced_is_bounded_and_ends_with_newest<P>(
    trail: Seq<P>,
    points: Seq<P>,
    limit: nat,
)
    requires
        points.len() >= 1,
        limit >= 1,
    ensures
        1 <= advanced(trail, points, limit).len() <= limit,
        advanced(trail, points, limit).last() == points.last(),
{
}

/// With an integrator that gives one result for each input, a trajectory
/// of a given length from a given point is unique: a step then leaves one
/// possible trail.
pub proof fn lemma_trajectory_is_unique<S, P, F: Fn(&P, S, S, S, S) -> P>(
    integrate: F,
    params: SimulationParameters<S>,
    from: P,
    first: Seq<P>,
    second: Seq<P>,
)
    requires
        forall|input: (&P, S, S, S, S), a: P, b: P|
            call_ensures(integrate, input, a) && call_ensures(integrate, input, b) ==> a == b,
        is_trajectory(integrate, params, from, first),
        is_trajectory(integrate, params, from, second),
        first.len() == second.len(),
    ensures
        first == second,
{
    assert forall|i: int| 0 <= i < first.len() implies first[i] == second[i] by {
        lemma_trajectories_agree(integrate, params, from, first, second, i);
    }
    assert(first =~= second);
}

proof fn lemma_trajectories_agree<S, P, F: Fn(&P, S, S, S, S) -> P>(
    integrate: F,
    params: SimulationParameters<S>,
    from: P,
    first: Seq<P>,
    second: Seq<P>,
    i: int,
)
    requires
        forall|input: (&P, S, S, S, S), a: P, b: P|
            call_ensures(integrate, input, a) && call_ensures(integrate, input, b) ==> a == b,
        is_trajectory(integrate, params, from, first),
        is_trajectory(integrate, params, from, second),
        first.len() == second.len(),
        0 <= i < first.len(),
    ensures
        first[i] == second[i],
    decreases i,
{
    if i > 0 {
        lemma_trajectories_agree(integrate, params, from, first, second, i - 1);
    }
    let prev = if i == 0 {
        from
    } else {
        first[i - 1]
    };
    let input = (&prev, params.sigma, params.beta, params.rho, params.dt);
    assert(call_ensures(integrate, input, first[i]));
    assert(call_ensures(integrate, input, second[i]));
}

impl<S: Copy, P: Copy> Simulator<S, P> {
    /// A simulator whose trail holds `start` alone. The coefficients given
    /// here are also the defaults that [`Simulator::reset_parameters`]
    /// restores.
    pub fn new(sigma: S, beta: S, rho: S, dt: S, start: P) -> (sim: Self)
        ensures
            sim@.params == (SimulationParameters {
                sigma,
                beta,
                rho,
                dt,
                tail_length: DEFAULT_TAIL_LENGTH,
                steps_per_frame: DEFAULT_STEPS_PER_FRAME,
            }),
            sim@.defaults == (Coefficients { sigma, beta, rho }),
            sim@.start == start,
            sim@.trail == seq![start],
    {
        Simulator {
            params: SimulationParameters {
                sigma,
                beta,
                rho,
                dt,
                tail_length: DEFAULT_TAIL_LENGTH,
                steps_per_frame: DEFAULT_STEPS_PER_FRAME,
            },
            defaults: Coefficients { sigma, beta, rho },
            start,
            trail: Trail::new(start),
        }
    }

    /// The live parameters.
    pub fn params(&self) -> (params: SimulationParameters<S>)
        ensures
            params == self@.params,
    {
        self.params
    }

    /// Replaces the live parameters, which the next step reads. The trail,
    /// the start point and the defaults stay as they are.
    pub fn set_params(&mut self, params: SimulationParameters<S>)
        ensures
            final(self)@.params == params,
            final(self)@.trail == old(self)@.trail,
            final(self)@.defaults == old(self)@.defaults,
            final(self)@.start == old(self)@.start,
    {
        self.params = params;
    }

    /// The trail, oldest point first.
    pub fn trail(&self) -> (trail: &Trail<P>)
        ensures
            trail@ == self@.trail,
    {
        &self.trail
    }

    /// The point that the trajectory starts from, and restarts from after
    /// [`Simulator::reset_position`].
    pub fn start(&self) -> (start: P)
        ensures
            start == self@.start,
    {
        self.start
    }

    /// The coefficients that [`Simulator::reset_parameters`] restores.
    pub fn defaults(&self) -> (defaults: Coefficients<S>)
        ensures
            defaults == self@.defaults,
    {
        self.defaults
    }

    /// Advances the trajectory by one frame: `steps_per_frame` times over,
    /// integrates from the newest point of the trail and records the
    /// result, discarding the oldest points after every append until no
    /// more than `tail_length` are left.
    ///
    /// The trail must hold a point to integrate from, the bound must leave
    /// room for one, and `integrate` must accept every point.
    pub fn step<F: Fn(&P, S, S, S, S) -> P>(&mut self, integrate: F)
        requires
            old(self)@.trail.len() >= 1,
            old(self)@.params.tail_length >= 1,
            forall|p: P|
                call_requires(
                    integrate,
                    (
                        &p,
                        old(self)@.params.sigma,
                        old(self)@.params.beta,
                        old(self)@.params.rho,
                        old(self)@.params.dt,
                    ),
                ),
        ensures
            final(self)@.params == old(self)@.params,
            final(self)@.defaults == old(self)@.defaults,
            final(self)@.start == old(self)@.start,
            exists|points: Seq<P>|
                {
                    &&& points.len() == old(self)@.params.steps_per_frame
                    &&& is_trajectory(
                        integrate,
                        old(self)@.params,
                        old(self)@.trail.last(),
                        points,
                    )
                    &&& final(self)@.trail == advanced(
                        old(self)@.trail,
                        points,
                        old(self)@.params.tail_length as nat,
                    )
                    &&& points.len() >= 1 ==> final(self)@.trail.last() == points.last()
                },
            final(self)@.trail.len() >= 1,
            old(self)@.params.steps_per_frame >= 1 ==> final(self)@.trail.len() <= old(
                self,
            )@.params.tail_length,
    {
        let limit: usize = self.params.tail_length;
        let steps: usize = self.params.steps_per_frame;
        let ghost before = self.trail@;
        let ghost params = self.params;
        let ghost defaults = self.defaults;
        let ghost start = self.start;
        let ghost mut points: Seq<P> = Seq::empty();
        let mut done: usize = 0;
        while done < steps
            invariant
                done <= steps,
                limit >= 1,
                before.len() >= 1,
                self.params == params,
                self.defaults == defaults,
                self.start == start,
                points.len() == done,
                is_trajectory(integrate, params, before.last(), points),
                self.trail@ == advanced(before, points, limit as nat),
                forall|p: P|
                    call_requires(
                        integrate,
                        (&p, params.sigma, params.beta, params.rho, params.dt),
                    ),
            decreases steps - done,
        {
            proof {
                if done > 0 {
                    lemma_advanced_is_bounded_and_ends_with_newest(before, points, limit as nat);
                }
            }
            let from = self.trail.last().unwrap();
            let next = integrate(
                &from,
                self.params.sigma,
                self.params.beta,
                self.params.rho,
                self.params.dt,
            );
            self.trail.record(next, limit);
            proof {
                lemma_advanced_by_one_more(before, points, next, limit as nat);
                points = points.push(next);
            }
            done += 1;
        }
        proof {
            if steps > 0 {
                lemma_advanced_is_bounded_and_ends_with_newest(before, points, limit as nat);
            }
        }
    }

    /// Clears the trail and reseeds it with the start point. Nothing else
    /// changes.
    pub fn reset_position(&mut self)
        ensures
            final(self)@.trail == seq![old(self)@.start],
            final(self)@.params == old(self)@.params,
            final(self)@.defaults == old(self)@.defaults,
            final(self)@.start == old(self)@.start,
    {
        self.trail.reset(self.start);
    }

    /// Restores the three coefficients to their defaults. The time step, the
    /// trail bound, the steps per frame, the start point and the trail stay
    /// as they are.
    pub fn reset_parameters(&mut self)
        ensures
            final(self)@.params == (SimulationParameters {
                sigma: old(self)@.defaults.sigma,
                beta: old(self)@.defaults.beta,
                rho: old(self)@.defaults.rho,
                dt: old(self)@.params.dt,
                tail_length: old(self)@.params.tail_length,
                steps_per_frame: old(self)@.params.steps_per_frame,
            }),
            final(self)@.trail == old(self)@.trail,
            final(self)@.defaults == old(self)@.defaults,
            final(self)@.start == old(self)@.start,
    {
        self.params.sigma = self.defaults.sigma;
        self.params.beta = self.defaults.beta;
        self.params.rho = self.defaults.rho;
    }
}

} // verus!
