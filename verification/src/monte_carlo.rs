use vstd::prelude::*;

use crate::field::Scalar;
use crate::rng::SeedRng;

verus! {

/// A process model or sampler that can draw one whole path from a random
/// stream.
///
/// Every implementation fixes, through `sample_path_spec`, the abstract value
/// of the path obtained from a given stream state together with the state
/// handed back, so that path generation is a deterministic function of the
/// stream.
pub trait PathGenerator<T, S: SeedRng<T>, Path: View> {
    /// The view of the path drawn from stream state `rng`, together with the
    /// state left behind.
    spec fn sample_path_spec(&self, rng: S, nr_samples: usize) -> (<Path as View>::V, S);

    /// What `sample_path` needs to draw `nr_samples` base samples: shape
    /// well-formedness of the generator and machine limits, nothing else.
    spec fn sample_path_requires(&self, nr_samples: usize) -> bool;

    /// Draw one path of `nr_samples` base samples from `rn_generator`.
    fn sample_path(&self, rn_generator: &mut S, nr_samples: usize) -> (path: Path)
        requires
            self.sample_path_requires(nr_samples),
        ensures
            path@ == self.sample_path_spec(*old(rn_generator), nr_samples).0,
            *final(rn_generator) == self.sample_path_spec(*old(rn_generator), nr_samples).1,
    ;
}

/// The stream state after `nr_done` whole paths have been drawn from
/// `rng`, each of `nr_steps` base samples.
pub open spec fn stream_after<T, S: SeedRng<T>, Path: View, G: PathGenerator<T, S, Path>>(
    generator: G,
    rng: S,
    nr_done: nat,
    nr_steps: usize,
) -> S
    decreases nr_done,
{
    if nr_done == 0 {
        rng
    } else {
        let prev = stream_after::<T, S, Path, G>(generator, rng, (nr_done - 1) as nat, nr_steps);
        generator.sample_path_spec(prev, nr_steps).1
    }
}

/// The view of the path with index `idx` (0-based) in the run that draws
/// consecutive paths from `rng`.  Path `idx` consumes the slice of the
/// stream that paths `0..idx` leave behind, so the whole run is a pure
/// function of the seed.
pub open spec fn nth_path<T, S: SeedRng<T>, Path: View, G: PathGenerator<T, S, Path>>(
    generator: G,
    rng: S,
    idx: nat,
    nr_steps: usize,
) -> <Path as View>::V {
    generator.sample_path_spec(stream_after::<T, S, Path, G>(generator, rng, idx, nr_steps), nr_steps).0
}

/// Reproducibility: any two path collections that satisfy the contract of
/// `simulate_paths` for one and the same configuration `(seed, nr_paths,
/// nr_steps, generator)` hold identical paths.  Two independent runs of the
/// simulator therefore return the same collection.
pub proof fn lemma_runs_with_equal_configuration_agree<
    T,
    S: SeedRng<T>,
    Path: View,
    G: PathGenerator<T, S, Path>,
>(
    generator: G,
    seed: u64,
    nr_paths: usize,
    nr_steps: usize,
    first: Seq<Path>,
    second: Seq<Path>,
)
    requires
        first.len() == nr_paths,
        second.len() == nr_paths,
        forall|i: int|
            0 <= i < nr_paths ==> (#[trigger] first[i])@ == nth_path::<T, S, Path, G>(
                generator,
                S::seeded_spec(seed),
                i as nat,
                nr_steps,
            ),
        forall|i: int|
            0 <= i < nr_paths ==> (#[trigger] second[i])@ == nth_path::<T, S, Path, G>(
                generator,
                S::seeded_spec(seed),
                i as nat,
                nr_steps,
            ),
    ensures
        first.len() == second.len(),
        forall|i: int| 0 <= i < nr_paths ==> (#[trigger] first[i])@ == second[i]@,
{
}

/// Orchestrates `nr_paths` independent path generations from one seeded
/// stream, drawing sequentially: path `i + 1` starts at the stream state
/// path `i` leaves behind.
pub struct MonteCarloPathSimulator {
    pub nr_paths: usize,
    pub nr_steps: usize,
}

impl MonteCarloPathSimulator {
    pub fn new(nr_paths: usize, nr_steps: usize) -> (r: Self)
        ensures
            r.nr_paths == nr_paths,
            r.nr_steps == nr_steps,
    {
        Self { nr_paths, nr_steps }
    }

    /// Materialise every path of the run started by `seed`.
    ///
    /// The result is a pure function of `(seed, nr_paths, nr_steps,
    /// generator)`: two runs with equal configuration return path collections
    /// with equal contents.  A run with `nr_paths == 0` returns an empty
    /// collection.
    pub fn simulate_paths<T, S: SeedRng<T>, Path: View, G: PathGenerator<T, S, Path>>(
        &self,
        seed: u64,
        generator: &G,
    ) -> (paths: Vec<Path>)
        requires
            generator.sample_path_requires(self.nr_steps),
        ensures
            paths@.len() == self.nr_paths,
            forall|i: int|
                0 <= i < self.nr_paths ==> (#[trigger] paths@[i])@ == nth_path::<T, S, Path, G>(
                    *generator,
                    S::seeded_spec(seed),
                    i as nat,
                    self.nr_steps,
                ),
    {
        let mut paths: Vec<Path> = Vec::new();
        let mut rn_generator: S = S::seed_from_u64(seed);
        let mut i: usize = 0;
        while i < self.nr_paths
            invariant
                i <= self.nr_paths,
                generator.sample_path_requires(self.nr_steps),
                paths@.len() == i,
                rn_generator == stream_after::<T, S, Path, G>(
                    *generator,
                    S::seeded_spec(seed),
                    i as nat,
                    self.nr_steps,
                ),
                forall|j: int|
                    0 <= j < i ==> (#[trigger] paths@[j])@ == nth_path::<T, S, Path, G>(
                        *generator,
                        S::seeded_spec(seed),
                        j as nat,
                        self.nr_steps,
                    ),
            decreases self.nr_paths - i,
        {
            let path = generator.sample_path(&mut rn_generator, self.nr_steps);
            paths.push(path);
            i += 1;
        }
        paths
    }

    /// Draw every base path of the run started by `seed`, and hand each to
    /// `path_fn` to produce its final representation (for instance a process
    /// model's transform).  Keeping the raw draws behind a caller transform
    /// lets several derived computations reuse one set of randomness.
    pub fn simulate_paths_with<T, S: SeedRng<T>, PathB: View, G: PathGenerator<T, S, PathB>, PathR, F: Fn(&PathB) -> PathR>(
        &self,
        seed: u64,
        generator: &G,
        path_fn: F,
    ) -> (paths: Vec<PathR>)
        requires
            generator.sample_path_requires(self.nr_steps),
            forall|i: nat, p: PathB|
                #![trigger call_requires(path_fn, (&p,)), nth_path::<T, S, PathB, G>(*generator, S::seeded_spec(seed), i, self.nr_steps)]
                i < self.nr_paths && p@ == nth_path::<T, S, PathB, G>(
                    *generator,
                    S::seeded_spec(seed),
                    i,
                    self.nr_steps,
                ) ==> call_requires(path_fn, (&p,)),
        ensures
            paths@.len() == self.nr_paths,
            exists|raws: Seq<PathB>|
                {
                    &&& raws.len() == self.nr_paths
                    &&& (forall|i: int|
                        0 <= i < self.nr_paths ==> (#[trigger] raws[i])@ == nth_path::<T, S, PathB, G>(
                            *generator,
                            S::seeded_spec(seed),
                            i as nat,
                            self.nr_steps,
                        ))
                    &&& (forall|i: int|
                        0 <= i < self.nr_paths ==> call_ensures(path_fn, (&raws[i],), #[trigger] paths@[i]))
                },
    {
        let mut paths: Vec<PathR> = Vec::new();
        let mut rn_generator: S = S::seed_from_u64(seed);
        let mut i: usize = 0;
        let ghost mut raws: Seq<PathB> = Seq::empty();
        while i < self.nr_paths
            invariant
                i <= self.nr_paths,
                generator.sample_path_requires(self.nr_steps),
                paths@.len() == i,
                raws.len() == i,
                rn_generator == stream_after::<T, S, PathB, G>(
                    *generator,
                    S::seeded_spec(seed),
                    i as nat,
                    self.nr_steps,
                ),
                forall|k: nat, p: PathB|
                    #![trigger call_requires(path_fn, (&p,)), nth_path::<T, S, PathB, G>(*generator, S::seeded_spec(seed), k, self.nr_steps)]
                    k < self.nr_paths && p@ == nth_path::<T, S, PathB, G>(
                        *generator,
                        S::seeded_spec(seed),
                        k,
                        self.nr_steps,
                    ) ==> call_requires(path_fn, (&p,)),
                forall|j: int|
                    0 <= j < i ==> (#[trigger] raws[j])@ == nth_path::<T, S, PathB, G>(
                        *generator,
                        S::seeded_spec(seed),
                        j as nat,
                        self.nr_steps,
                    ),
                forall|j: int|
                    0 <= j < i ==> call_ensures(path_fn, (&raws[j],), #[trigger] paths@[j]),
            decreases self.nr_paths - i,
        {
            let path = generator.sample_path(&mut rn_generator, self.nr_steps);
            proof {
                assert(path@ == nth_path::<T, S, PathB, G>(*generator, S::seeded_spec(seed), i as nat, self.nr_steps));
            }
            let v = path_fn(&path);
            proof {
                raws = raws.push(path);
            }
            paths.push(v);
            i += 1;
        }
        proof {
            assert(raws.len() == self.nr_paths && (forall|j: int|
                0 <= j < self.nr_paths ==> (#[trigger] raws[j])@ == nth_path::<T, S, PathB, G>(
                    *generator,
                    S::seeded_spec(seed),
                    j as nat,
                    self.nr_steps,
                )) && (forall|j: int|
                0 <= j < self.nr_paths ==> call_ensures(path_fn, (&raws[j],), #[trigger] paths@[j])));
        }
        paths
    }

    /// As [`Self::simulate_paths_with`], but the transform consumes the raw
    /// draw buffer and hands back the finished path in its place, so that no
    /// second buffer needs to be allocated.  For identical input draws it is
    /// behaviourally identical to the allocating variant.
    pub fn simulate_paths_apply_in_place<T, S: SeedRng<T>, PathB: View, G: PathGenerator<T, S, PathB>, F: Fn(PathB) -> PathB>(
        &self,
        seed: u64,
        generator: &G,
        apply_in_place_fn: F,
    ) -> (paths: Vec<PathB>)
        requires
            generator.sample_path_requires(self.nr_steps),
            forall|i: nat, p: PathB|
                #![trigger call_requires(apply_in_place_fn, (p,)), nth_path::<T, S, PathB, G>(*generator, S::seeded_spec(seed), i, self.nr_steps)]
                i < self.nr_paths && p@ == nth_path::<T, S, PathB, G>(
                    *generator,
                    S::seeded_spec(seed),
                    i,
                    self.nr_steps,
                ) ==> call_requires(apply_in_place_fn, (p,)),
        ensures
            paths@.len() == self.nr_paths,
            exists|raws: Seq<PathB>|
                {
                    &&& raws.len() == self.nr_paths
                    &&& (forall|i: int|
                        0 <= i < self.nr_paths ==> (#[trigger] raws[i])@ == nth_path::<T, S, PathB, G>(
                            *generator,
                            S::seeded_spec(seed),
                            i as nat,
                            self.nr_steps,
                        ))
                    &&& (forall|i: int|
                        0 <= i < self.nr_paths ==> call_ensures(
                            apply_in_place_fn,
                            (raws[i],),
                            #[trigger] paths@[i],
                        ))
                },
    {
        let mut paths: Vec<PathB> = Vec::new();
        let mut rn_generator: S = S::seed_from_u64(seed);
        let mut i: usize = 0;
        let ghost mut raws: Seq<PathB> = Seq::empty();
        while i < self.nr_paths
            invariant
                i <= self.nr_paths,
                generator.sample_path_requires(self.nr_steps),
                paths@.len() == i,
                raws.len() == i,
                rn_generator == stream_after::<T, S, PathB, G>(
                    *generator,
                    S::seeded_spec(seed),
                    i as nat,
                    self.nr_steps,
                ),
                forall|k: nat, p: PathB|
                    #![trigger call_requires(apply_in_place_fn, (p,)), nth_path::<T, S, PathB, G>(*generator, S::seeded_spec(seed), k, self.nr_steps)]
                    k < self.nr_paths && p@ == nth_path::<T, S, PathB, G>(
                        *generator,
                        S::seeded_spec(seed),
                        k,
                        self.nr_steps,
                    ) ==> call_requires(apply_in_place_fn, (p,)),
                forall|j: int|
                    0 <= j < i ==> (#[trigger] raws[j])@ == nth_path::<T, S, PathB, G>(
                        *generator,
                        S::seeded_spec(seed),
                        j as nat,
                        self.nr_steps,
                    ),
                forall|j: int|
                    0 <= j < i ==> call_ensures(apply_in_place_fn, (raws[j],), #[trigger] paths@[j]),
            decreases self.nr_paths - i,
        {
            let path = generator.sample_path(&mut rn_generator, self.nr_steps);
            proof {
                raws = raws.push(path);
                assert(path@ == nth_path::<T, S, PathB, G>(*generator, S::seeded_spec(seed), i as nat, self.nr_steps));
            }
            let transformed = apply_in_place_fn(path);
            paths.push(transformed);
            i += 1;
        }
        proof {
            assert(raws.len() == self.nr_paths && (forall|j: int|
                0 <= j < self.nr_paths ==> (#[trigger] raws[j])@ == nth_path::<T, S, PathB, G>(
                    *generator,
                    S::seeded_spec(seed),
                    j as nat,
                    self.nr_steps,
                )) && (forall|j: int|
                0 <= j < self.nr_paths ==> call_ensures(apply_in_place_fn, (raws[j],), #[trigger] paths@[j])));
        }
        paths
    }
}

/// The left fold the evaluator uses to sum the defined payoff values: an
/// undefined value leaves the accumulator alone, a defined one is added to
/// it (to the additive unit where it is the first).
pub open spec fn sum_defined_spec<T: Scalar>(vals: Seq<Option<T>>) -> Option<T>
    decreases vals.len(),
{
    if vals.len() == 0 {
        None
    } else {
        let prefix = sum_defined_spec(vals.drop_last());
        match vals.last() {
            Some(v) => Some(
                match prefix {
                    Some(acc) => acc.add_spec(v),
                    None => T::zero_spec().add_spec(v),
                },
            ),
            None => prefix,
        }
    }
}

/// The evaluator's average: `None` for an empty collection and for one with
/// no defined value; otherwise the sum of the defined values divided by the
/// **total** value count.  An undefined value is excluded from the numerator
/// but still counts in the denominator.
pub open spec fn average_spec<T: Scalar>(vals: Seq<Option<T>>) -> Option<T> {
    if vals.len() == 0 {
        None
    } else {
        match sum_defined_spec(vals) {
            Some(total) => Some(total.div_spec(T::from_count_spec(vals.len() as usize))),
            None => None,
        }
    }
}

/// Average a collection of optional payoff values under the evaluator's
/// semantics: sum the defined ones, divide by the total count.
pub fn average_of<T: Scalar>(values: &Vec<Option<T>>) -> (r: Option<T>)
    ensures
        r == average_spec(values@),
{
    if values.len() == 0 {
        return None;
    }
    let mut total: Option<T> = None;
    let mut i: usize = 0;
    while i < values.len()
        invariant
            i <= values.len(),
            total == sum_defined_spec(values@.subrange(0, i as int)),
        decreases values.len() - i,
    {
        proof {
            assert(values@.subrange(0, i + 1 as int).drop_last() =~= values@.subrange(0, i as int));
        }
        match values[i] {
            Some(path_value) => {
                let acc = match total {
                    Some(acc) => acc,
                    None => T::zero(),
                };
                total = Some(acc.add(path_value));
            },
            None => {},
        }
        i += 1;
    }
    proof {
        assert(values@.subrange(0, values@.len() as int) =~= values@);
    }
    match total {
        Some(t) => Some(t.div(T::from_count(values.len()))),
        None => None,
    }
}

/// Reduces a collection of paths under a caller-supplied payoff function,
/// either to the per-path optional values or to their average.
pub struct PathEvaluator<Path> {
    pub paths: Vec<Path>,
}

impl<Path> PathEvaluator<Path> {
    pub fn new(paths: Vec<Path>) -> (r: Self)
        ensures
            r.paths == paths,
    {
        Self { paths }
    }

    /// Apply `path_fn` to every path in order.
    pub fn evaluate<T: Scalar, F: Fn(&Path) -> Option<T>>(&self, path_fn: F) -> (r: Vec<Option<T>>)
        requires
            forall|i: int|
                0 <= i < self.paths@.len() ==> #[trigger] call_requires(path_fn, (&self.paths@[i],)),
        ensures
            r@.len() == self.paths@.len(),
            forall|i: int|
                0 <= i < self.paths@.len() ==> call_ensures(path_fn, (&self.paths@[i],), #[trigger] r@[i]),
    {
        let mut r: Vec<Option<T>> = Vec::new();
        let mut i: usize = 0;
        while i < self.paths.len()
            invariant
                i <= self.paths@.len(),
                r@.len() == i,
                forall|k: int|
                    0 <= k < self.paths@.len() ==> #[trigger] call_requires(path_fn, (&self.paths@[k],)),
                forall|j: int|
                    0 <= j < i ==> call_ensures(path_fn, (&self.paths@[j],), #[trigger] r@[j]),
            decreases self.paths@.len() - i,
        {
            let v = path_fn(&self.paths[i]);
            r.push(v);
            i += 1;
        }
        r
    }

    /// Average the payoff over all paths: the sum of the defined payoff
    /// values divided by the **total** path count, `None` for an empty
    /// collection and for one on which no payoff is defined.
    pub fn evaluate_average<T: Scalar, F: Fn(&Path) -> Option<T>>(&self, path_fn: F) -> (r: Option<T>)
        requires
            forall|i: int|
                0 <= i < self.paths@.len() ==> #[trigger] call_requires(path_fn, (&self.paths@[i],)),
        ensures
            exists|vals: Seq<Option<T>>|
                {
                    &&& vals.len() == self.paths@.len()
                    &&& (forall|i: int|
                        0 <= i < self.paths@.len() ==> call_ensures(
                            path_fn,
                            (&self.paths@[i],),
                            #[trigger] vals[i],
                        ))
                    &&& r == average_spec(vals)
                },
    {
        let values = self.evaluate(path_fn);
        let r = average_of(&values);
        proof {
            assert(values@.len() == self.paths@.len() && (forall|i: int|
                0 <= i < self.paths@.len() ==> call_ensures(
                    path_fn,
                    (&self.paths@[i],),
                    #[trigger] values@[i],
                )) && r == average_spec(values@));
        }
        r
    }
}

} // verus!
