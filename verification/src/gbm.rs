use vstd::prelude::*;

use crate::distributions::StandardNormal;
use crate::field::Scalar;
use crate::monte_carlo::PathGenerator;
use crate::rng::{draw_standard_normals, draws_spec, SeedRng};

verus! {

/// Model params for the SDE
/// `dS_t / S_t = mu dt + sigma dW_t`, where `dW_t ~ N(0, sqrt(dt))`.
///
/// Path construction uses the Euler-Maruyama discretisation throughout (the
/// `step` rule); the exact log-normal update is available separately as
/// `step_analytic`.  The two rules agree only in the limit `dt -> 0`, so one
/// of them has to be held fixed: every path this model generates is built
/// from `step`.
pub struct GeometricBrownianMotion<T> {
    pub initial_value: T,
    /// drift term
    pub mu: T,
    /// volatility
    pub sigma: T,
    /// change in time
    pub dt: T,
}

impl<T: Scalar> GeometricBrownianMotion<T> {
    pub fn new(initial_value: T, drift: T, vola: T, dt: T) -> (r: Self)
        ensures
            r.initial_value == initial_value,
            r.mu == drift,
            r.sigma == vola,
            r.dt == dt,
    {
        Self { initial_value, mu: drift, sigma: vola, dt }
    }

    /// The base randomness this model consumes: one standard-normal draw per
    /// step.
    pub fn base_distribution(&self) -> (r: StandardNormal)
        ensures
            r == StandardNormal,
    {
        StandardNormal
    }

    /// The Euler-Maruyama update:
    /// `S_{t+1} = S_t + S_t * (mu * dt + sigma * sqrt(dt) * z)`.
    pub open spec fn step_spec(self, st: T, z: T) -> T {
        st.add_spec(
            st.mul_spec(
                self.mu.mul_spec(self.dt).add_spec(self.sigma.mul_spec(self.dt.sqrt_spec()).mul_spec(z)),
            ),
        )
    }

    /// Advance the state `st` by one Euler-Maruyama step driven by the
    /// standard-normal draw `z`.
    pub fn step(&self, st: T, z: T) -> (r: T)
        ensures
            r == self.step_spec(st, z),
    {
        let d_st = st.mul(self.mu.mul(self.dt).add(self.sigma.mul(self.dt.sqrt()).mul(z)));
        st.add(d_st)
    }

    /// The exact log-normal update:
    /// `S_{t+1} = S_t * exp(dt * (mu - sigma^2 / 2) + sigma * sqrt(dt) * z)`.
    pub open spec fn step_analytic_spec(self, st: T, z: T) -> T {
        st.mul_spec(
            self.dt.mul_spec(
                self.mu.sub_spec(self.sigma.mul_spec(self.sigma).div_spec(T::from_count_spec(2))),
            ).add_spec(self.dt.sqrt_spec().mul_spec(self.sigma).mul_spec(z)).exp_spec(),
        )
    }

    /// Advance the state `st` by one exact log-normal step driven by the
    /// standard-normal draw `z`.
    pub fn step_analytic(&self, st: T, z: T) -> (r: T)
        ensures
            r == self.step_analytic_spec(st, z),
    {
        let ret = self.dt.mul(
            self.mu.sub(self.sigma.mul(self.sigma).div(T::from_count(2))),
        ).add(self.dt.sqrt().mul(self.sigma).mul(z));
        st.mul(ret.exp())
    }

    /// The price path grown from `initial_value` by one `step` per draw:
    /// `nr_draws + 1` states, state 0 being `initial_value`.
    pub open spec fn path_spec(self, initial_value: T, zs: Seq<T>) -> Seq<T>
        decreases zs.len(),
    {
        if zs.len() == 0 {
            seq![initial_value]
        } else {
            let prefix = self.path_spec(initial_value, zs.drop_last());
            prefix.push(self.step_spec(prefix.last(), zs.last()))
        }
    }

    pub proof fn lemma_path_spec_len(self, initial_value: T, zs: Seq<T>)
        ensures
            self.path_spec(initial_value, zs).len() == zs.len() + 1,
            self.path_spec(initial_value, zs)[0] == initial_value,
        decreases zs.len(),
    {
        if zs.len() > 0 {
            self.lemma_path_spec_len(initial_value, zs.drop_last());
        }
    }

    /// Each state of the path follows from the one before it by `step`.
    pub proof fn lemma_path_spec_index(self, initial_value: T, zs: Seq<T>, i: int)
        requires
            0 <= i < zs.len(),
        ensures
            self.path_spec(initial_value, zs)[i + 1] == self.step_spec(
                self.path_spec(initial_value, zs)[i],
                zs[i],
            ),
        decreases zs.len(),
    {
        self.lemma_path_spec_len(initial_value, zs);
        if i + 1 < zs.len() {
            self.lemma_path_spec_index(initial_value, zs.drop_last(), i);
            self.lemma_path_spec_len(initial_value, zs.drop_last());
        } else {
            self.lemma_path_spec_len(initial_value, zs.drop_last());
        }
    }

    /// Materialise a new path buffer from a pre-existing sequence of
    /// standard-normal draws: `|draws| + 1` states, index 0 being
    /// `initial_value`, each later state one `step` after the one before.
    pub fn generate_path(&self, initial_value: T, standard_normals: &Vec<T>) -> (path: Vec<T>)
        ensures
            path@ == self.path_spec(initial_value, standard_normals@),
            path@.len() == standard_normals@.len() + 1,
            path@[0] == initial_value,
    {
        let mut path: Vec<T> = Vec::new();
        let mut curr_p = initial_value;
        path.push(curr_p);
        let mut i: usize = 0;
        while i < standard_normals.len()
            invariant
                i <= standard_normals@.len(),
                path@.len() == i + 1,
                path@ == self.path_spec(initial_value, standard_normals@.subrange(0, i as int)),
                curr_p == path@.last(),
            decreases standard_normals@.len() - i,
        {
            proof {
                assert(standard_normals@.subrange(0, i + 1 as int).drop_last()
                    =~= standard_normals@.subrange(0, i as int));
            }
            curr_p = self.step(curr_p, standard_normals[i]);
            path.push(curr_p);
            i += 1;
        }
        proof {
            assert(standard_normals@.subrange(0, standard_normals@.len() as int) =~= standard_normals@);
            self.lemma_path_spec_len(initial_value, standard_normals@);
        }
        path
    }

    /// The contents of a draw buffer after the in-place transform: state
    /// `i` of the price path grown from the model's own initial value,
    /// without the initial state itself (the buffer keeps its length).
    pub open spec fn in_place_spec(self, zs: Seq<T>) -> Seq<T>
        decreases zs.len(),
    {
        if zs.len() == 0 {
            Seq::<T>::empty()
        } else {
            let prefix = self.in_place_spec(zs.drop_last());
            let prev = if prefix.len() == 0 {
                self.initial_value
            } else {
                prefix.last()
            };
            prefix.push(self.step_spec(prev, zs.last()))
        }
    }

    pub proof fn lemma_in_place_spec_len(self, zs: Seq<T>)
        ensures
            self.in_place_spec(zs).len() == zs.len(),
        decreases zs.len(),
    {
        if zs.len() > 0 {
            self.lemma_in_place_spec_len(zs.drop_last());
        }
    }

    /// Overwrite a caller-owned buffer of standard-normal draws with the
    /// price path they drive, step by step, avoiding a second allocation.
    pub fn generate_in_place(&self, standard_normals: &mut Vec<T>)
        ensures
            final(standard_normals)@ == self.in_place_spec(old(standard_normals)@),
            final(standard_normals)@.len() == old(standard_normals)@.len(),
    {
        let mut curr_p = self.initial_value;
        let mut i: usize = 0;
        while i < standard_normals.len()
            invariant
                i <= standard_normals@.len(),
                standard_normals@.len() == old(standard_normals)@.len(),
                standard_normals@.subrange(0, i as int)
                    == self.in_place_spec(old(standard_normals)@.subrange(0, i as int)),
                forall|k: int|
                    i <= k < standard_normals@.len()
                        ==> standard_normals@[k] == old(standard_normals)@[k],
                curr_p == (if i == 0 {
                    self.initial_value
                } else {
                    self.in_place_spec(old(standard_normals)@.subrange(0, i as int)).last()
                }),
            decreases standard_normals@.len() - i,
        {
            proof {
                self.lemma_in_place_spec_len(old(standard_normals)@.subrange(0, i as int));
                assert(old(standard_normals)@.subrange(0, i + 1 as int).drop_last()
                    =~= old(standard_normals)@.subrange(0, i as int));
            }
            let z = standard_normals[i];
            curr_p = self.step(curr_p, z);
            let ghost before = standard_normals@;
            standard_normals[i] = curr_p;
            proof {
                assert(standard_normals@.subrange(0, i + 1 as int)
                    =~= before.subrange(0, i as int).push(curr_p));
                assert(standard_normals@.subrange(0, i + 1 as int)
                    == self.in_place_spec(old(standard_normals)@.subrange(0, i + 1 as int)));
            }
            i += 1;
        }
        proof {
            assert(standard_normals@.subrange(0, standard_normals@.len() as int) =~= standard_normals@);
            assert(old(standard_normals)@.subrange(0, old(standard_normals)@.len() as int)
                =~= old(standard_normals)@);
        }
    }
}

/// In-place and allocating path construction agree: for identical input
/// draws, the buffer left by `generate_in_place` holds exactly the states
/// `1 ..` of the path built by `generate_path` from the model's initial
/// value (state 0 of the allocating form is that initial value itself).
pub proof fn lemma_in_place_matches_generate_path<T: Scalar>(
    gbm: GeometricBrownianMotion<T>,
    zs: Seq<T>,
)
    ensures
        gbm.in_place_spec(zs) == gbm.path_spec(gbm.initial_value, zs).subrange(
            1,
            zs.len() as int + 1,
        ),
    decreases zs.len(),
{
    gbm.lemma_path_spec_len(gbm.initial_value, zs);
    gbm.lemma_in_place_spec_len(zs);
    if zs.len() == 0 {
        assert(gbm.in_place_spec(zs) =~= gbm.path_spec(gbm.initial_value, zs).subrange(
            1,
            zs.len() as int + 1,
        ));
    } else {
        lemma_in_place_matches_generate_path(gbm, zs.drop_last());
        gbm.lemma_path_spec_len(gbm.initial_value, zs.drop_last());
        gbm.lemma_in_place_spec_len(zs.drop_last());
        assert(gbm.in_place_spec(zs) =~= gbm.path_spec(gbm.initial_value, zs).subrange(
            1,
            zs.len() as int + 1,
        ));
    }
}

impl<T: Scalar, S: SeedRng<T>> PathGenerator<T, S, Vec<T>> for GeometricBrownianMotion<T> {
    /// A model path: `nr_samples` standard-normal draws grown into
    /// `nr_samples + 1` states from the model's initial value.
    open spec fn sample_path_spec(&self, rng: S, nr_samples: usize) -> (Seq<T>, S) {
        let d = draws_spec::<T, S>(rng, nr_samples as nat);
        (self.path_spec(self.initial_value, d.0), d.1)
    }

    open spec fn sample_path_requires(&self, nr_samples: usize) -> bool {
        true
    }

    fn sample_path(&self, rn_generator: &mut S, nr_samples: usize) -> (path: Vec<T>) {
        let standard_normals = draw_standard_normals(rn_generator, nr_samples);
        self.generate_path(self.initial_value, &standard_normals)
    }
}

} // verus!
