use vstd::prelude::*;

use crate::error::SimulationError;
use crate::field::Scalar;
use crate::linalg::{cols_of, column_spec, dot, dot_spec, extract_column, is_matrix, mat_view, transpose, Matrix, VectorPath};
use crate::monte_carlo::PathGenerator;
use crate::rng::{draw_rows, draw_rows_spec, SeedRng};

verus! {

/// Geometric Brownian motion for a basket of correlated assets: the state is
/// a vector of `dim` prices, and one step moves every price by its own drift
/// and by the correlated diffusion `C * z`.
///
/// As for the univariate model, paths are built with the Euler-Maruyama
/// update.  That the Cholesky factor is actually triangular is a
/// precondition on the caller and is not validated here.
pub struct MultivariateGeometricBrownianMotion<T> {
    pub initial_values: Vec<T>,
    /// drift terms
    pub drifts: Vec<T>,
    /// correlation structure via a Cholesky factor of the target covariance
    pub cholesky_factor: Vec<Vec<T>>,
    /// change in time
    pub dt: T,
}

/// The standard-normal vectors that drive the steps of a path held as a
/// matrix: its columns `1 ..`, read in order (column 0 is overwritten by the
/// initial prices and drives nothing).
pub open spec fn driving_columns<T>(m: Seq<Seq<T>>, cols: nat) -> Seq<Seq<T>> {
    Seq::new((cols - 1) as nat, |j: int| column_spec(m, j + 1))
}

impl<T: Scalar> MultivariateGeometricBrownianMotion<T> {
    /// Shapes agree: drifts and initial values have the same length `dim`,
    /// and the factor is a `dim x dim` matrix.
    pub open spec fn wf(self) -> bool {
        &&& self.drifts@.len() == self.initial_values@.len()
        &&& is_matrix(mat_view(self.cholesky_factor), self.initial_values@.len(), self.initial_values@.len())
    }

    /// Build the model, rejecting vectors and a factor whose shapes
    /// disagree.
    pub fn new(initial_values: Vec<T>, drifts: Vec<T>, cholesky_factor: Vec<Vec<T>>, dt: T) -> (r:
        Result<Self, SimulationError>)
        ensures
            r is Ok <==> (drifts@.len() == initial_values@.len() && is_matrix(
                mat_view(cholesky_factor),
                initial_values@.len(),
                initial_values@.len(),
            )),
            r matches Ok(m) ==> m.initial_values == initial_values && m.drifts == drifts
                && m.cholesky_factor == cholesky_factor && m.dt == dt && m.wf(),
            r matches Err(e) ==> e == SimulationError::InvalidDimension,
    {
        if initial_values.len() != drifts.len() {
            return Err(SimulationError::InvalidDimension);
        }
        if cholesky_factor.len() != drifts.len() {
            return Err(SimulationError::InvalidDimension);
        }
        let mut i: usize = 0;
        while i < cholesky_factor.len()
            invariant
                i <= cholesky_factor@.len(),
                cholesky_factor@.len() == drifts@.len(),
                drifts@.len() == initial_values@.len(),
                forall|k: int|
                    0 <= k < i ==> (#[trigger] mat_view(cholesky_factor)[k]).len() == drifts@.len(),
            decreases cholesky_factor@.len() - i,
        {
            if cholesky_factor[i].len() != drifts.len() {
                proof {
                    assert(mat_view(cholesky_factor)[i as int].len() != initial_values@.len());
                }
                return Err(SimulationError::InvalidDimension);
            }
            i += 1;
        }
        Ok(Self { initial_values, drifts, cholesky_factor, dt })
    }

    /// The dimension of the basket.
    pub fn dim(&self) -> (r: usize)
        ensures
            r == self.initial_values@.len(),
    {
        self.initial_values.len()
    }

    /// The Euler-Maruyama update per asset:
    /// `S_{t+1} = S_t + S_t * (dt * drifts + sqrt(dt) * C * z)`.
    pub open spec fn step_spec(self, st: Seq<T>, z: Seq<T>) -> Seq<T> {
        Seq::new(
            self.initial_values@.len(),
            |i: int| st[i].add_spec(
                st[i].mul_spec(
                    self.dt.mul_spec(self.drifts@[i]).add_spec(
                        self.dt.sqrt_spec().mul_spec(dot_spec(mat_view(self.cholesky_factor)[i], z)),
                    ),
                ),
            ),
        )
    }

    /// Advance the price vector `st` by one step driven by the
    /// standard-normal vector `std_normal_vec`.
    pub fn step(&self, st: &Vec<T>, std_normal_vec: &Vec<T>) -> (r: Vec<T>)
        requires
            self.wf(),
            st@.len() == self.initial_values@.len(),
            std_normal_vec@.len() == self.initial_values@.len(),
        ensures
            r@ == self.step_spec(st@, std_normal_vec@),
            r@.len() == self.initial_values@.len(),
    {
        let mut r: Vec<T> = Vec::new();
        let mut i: usize = 0;
        while i < self.initial_values.len()
            invariant
                i <= self.initial_values@.len(),
                r@.len() == i,
                self.wf(),
                st@.len() == self.initial_values@.len(),
                std_normal_vec@.len() == self.initial_values@.len(),
                forall|j: int| 0 <= j < i ==> r@[j] == self.step_spec(st@, std_normal_vec@)[j],
            decreases self.initial_values@.len() - i,
        {
            proof {
                assert(mat_view(self.cholesky_factor)[i as int] == self.cholesky_factor@[i as int]@);
                assert(mat_view(self.cholesky_factor)[i as int].len() == self.initial_values@.len());
            }
            let diffusion = self.dt.sqrt().mul(dot(&self.cholesky_factor[i], std_normal_vec));
            let d_st = self.dt.mul(self.drifts[i]).add(diffusion);
            let v = st[i].add(st[i].mul(d_st));
            r.push(v);
            i += 1;
        }
        proof {
            assert(r@ =~= self.step_spec(st@, std_normal_vec@));
        }
        r
    }

    /// The path grown from the initial price vector by one `step` per
    /// driving vector: `|zs| + 1` states, state 0 being the initial prices.
    pub open spec fn path_spec(self, zs: Seq<Seq<T>>) -> Seq<Seq<T>>
        decreases zs.len(),
    {
        if zs.len() == 0 {
            seq![self.initial_values@]
        } else {
            let prefix = self.path_spec(zs.drop_last());
            prefix.push(self.step_spec(prefix.last(), zs.last()))
        }
    }

    pub proof fn lemma_path_spec_dims(self, zs: Seq<Seq<T>>)
        ensures
            self.path_spec(zs).len() == zs.len() + 1,
            self.path_spec(zs)[0] == self.initial_values@,
            forall|j: int|
                0 <= j < self.path_spec(zs).len()
                    ==> (#[trigger] self.path_spec(zs)[j]).len() == self.initial_values@.len(),
        decreases zs.len(),
    {
        if zs.len() > 0 {
            self.lemma_path_spec_dims(zs.drop_last());
        }
    }

    /// Materialise the whole path for a pre-existing sequence of
    /// standard-normal vectors, one state per step plus the initial state.
    pub fn generate_path(&self, standard_normals: &VectorPath<T>) -> (path: VectorPath<T>)
        requires
            self.wf(),
            forall|j: int|
                0 <= j < standard_normals@.len()
                    ==> (#[trigger] standard_normals@[j]).len() == self.initial_values@.len(),
        ensures
            path@ == self.path_spec(standard_normals@),
            path@.len() == standard_normals@.len() + 1,
    {
        let mut states: Vec<Vec<T>> = Vec::new();
        let mut curr_p: Vec<T> = Vec::new();
        let mut k: usize = 0;
        while k < self.initial_values.len()
            invariant
                k <= self.initial_values@.len(),
                curr_p@ == self.initial_values@.subrange(0, k as int),
            decreases self.initial_values@.len() - k,
        {
            let v = self.initial_values[k];
            curr_p.push(v);
            proof {
                assert(curr_p@ =~= self.initial_values@.subrange(0, k + 1 as int));
            }
            k += 1;
        }
        proof {
            assert(self.initial_values@.subrange(0, self.initial_values@.len() as int)
                =~= self.initial_values@);
        }
        states.push(curr_p);
        let mut j: usize = 0;
        while j < standard_normals.states.len()
            invariant
                j <= standard_normals@.len(),
                self.wf(),
                forall|l: int|
                    0 <= l < standard_normals@.len()
                        ==> (#[trigger] standard_normals@[l]).len() == self.initial_values@.len(),
                states@.len() == j + 1,
                mat_view(states) == self.path_spec(standard_normals@.subrange(0, j as int)),
                states@[j as int]@ == mat_view(states).last(),
            decreases standard_normals@.len() - j,
        {
            proof {
                self.lemma_path_spec_dims(standard_normals@.subrange(0, j as int));
                assert(standard_normals@.subrange(0, j + 1 as int).drop_last()
                    =~= standard_normals@.subrange(0, j as int));
                assert(standard_normals@[j as int] == standard_normals.states@[j as int]@);
            }
            let next = self.step(&states[j], &standard_normals.states[j]);
            let ghost states_before = states;
            states.push(next);
            proof {
                assert(mat_view(states) =~= mat_view(states_before).push(next@));
            }
            j += 1;
        }
        proof {
            assert(standard_normals@.subrange(0, standard_normals@.len() as int)
                =~= standard_normals@);
            self.lemma_path_spec_dims(standard_normals@);
        }
        VectorPath::new(states)
    }

    /// The dense form of the same path: row `i`, column `j` of the result is
    /// asset `i` in state `j` of the step-wise path driven by columns `1 ..`
    /// of `m`.
    pub open spec fn transform_path_spec(self, m: Seq<Seq<T>>, cols: nat) -> Seq<Seq<T>> {
        Seq::new(
            self.initial_values@.len(),
            |i: int| Seq::new(cols, |j: int| self.path_spec(driving_columns(m, cols))[j][i]),
        )
    }

    /// Turn a matrix whose columns `1 ..` hold standard-normal draw vectors
    /// into the dense price path: column 0 becomes the initial prices, and
    /// each later column is one `step` after the column before it.
    pub fn transform_path(&self, sample_matrix: &Matrix<T>, nr_samples: usize) -> (r: Matrix<T>)
        requires
            self.wf(),
            self.initial_values@.len() > 0,
            nr_samples == cols_of(sample_matrix@),
            nr_samples >= 1,
            is_matrix(sample_matrix@, self.initial_values@.len(), cols_of(sample_matrix@)),
        ensures
            r@ == self.transform_path_spec(sample_matrix@, nr_samples as nat),
            is_matrix(r@, self.initial_values@.len(), nr_samples as nat),
    {
        let ghost ztail = driving_columns(sample_matrix@, nr_samples as nat);
        let mut states: Vec<Vec<T>> = Vec::new();
        let mut initial: Vec<T> = Vec::new();
        let mut k: usize = 0;
        while k < self.initial_values.len()
            invariant
                k <= self.initial_values@.len(),
                initial@ == self.initial_values@.subrange(0, k as int),
            decreases self.initial_values@.len() - k,
        {
            let v = self.initial_values[k];
            initial.push(v);
            proof {
                assert(initial@ =~= self.initial_values@.subrange(0, k + 1 as int));
            }
            k += 1;
        }
        proof {
            assert(self.initial_values@.subrange(0, self.initial_values@.len() as int)
                =~= self.initial_values@);
        }
        states.push(initial);
        let mut j: usize = 1;
        while j < nr_samples
            invariant
                1 <= j <= nr_samples,
                self.wf(),
                self.initial_values@.len() > 0,
                nr_samples == cols_of(sample_matrix@),
                is_matrix(sample_matrix@, self.initial_values@.len(), cols_of(sample_matrix@)),
                ztail == driving_columns(sample_matrix@, nr_samples as nat),
                states@.len() == j,
                mat_view(states) == self.path_spec(ztail.subrange(0, j - 1)),
                states@[j - 1]@ == mat_view(states).last(),
            decreases nr_samples - j,
        {
            proof {
                self.lemma_path_spec_dims(ztail.subrange(0, j - 1));
                assert(ztail.subrange(0, j as int).drop_last() =~= ztail.subrange(0, j - 1));
                assert(ztail.subrange(0, j as int).last() == column_spec(sample_matrix@, j as int));
                assert forall|k2: int|
                    0 <= k2 < sample_matrix.rows@.len()
                        implies j < (#[trigger] sample_matrix.rows@[k2])@.len() by {
                    assert(sample_matrix@[k2] == sample_matrix.rows@[k2]@);
                    assert(sample_matrix@[k2].len() == cols_of(sample_matrix@));
                }
            }
            let z = extract_column(&sample_matrix.rows, j);
            proof {
                assert(z@ == column_spec(sample_matrix@, j as int));
                assert(column_spec(sample_matrix@, j as int).len() == self.initial_values@.len());
            }
            let next = self.step(&states[j - 1], &z);
            let ghost states_before = states;
            states.push(next);
            proof {
                assert(mat_view(states) =~= mat_view(states_before).push(next@));
            }
            j += 1;
        }
        proof {
            assert(ztail.subrange(0, nr_samples - 1) =~= ztail);
            self.lemma_path_spec_dims(ztail);
        }
        let out = transpose(&states, self.initial_values.len());
        proof {
            assert forall|i: int, j: int|
                0 <= i < self.initial_values@.len() && 0 <= j < nr_samples
                    implies #[trigger] mat_view(out)[i][j] == self.path_spec(ztail)[j][i] by {
                assert(mat_view(out)[i][j] == mat_view(states)[j][i]);
            }
            assert(mat_view(out) =~~= self.transform_path_spec(sample_matrix@, nr_samples as nat));
        }
        Matrix::new(out)
    }
}

/// The dense and the step-wise representation of a multivariate path carry
/// the same numbers: column `j` of the dense path equals state `j` of the
/// step-wise path driven by the same standard-normal vectors.
pub proof fn lemma_dense_path_matches_vector_path<T: Scalar>(
    model: MultivariateGeometricBrownianMotion<T>,
    m: Seq<Seq<T>>,
    cols: nat,
    j: int,
)
    requires
        0 <= j < cols,
    ensures
        column_spec(model.transform_path_spec(m, cols), j) == model.path_spec(
            driving_columns(m, cols),
        )[j],
{
    model.lemma_path_spec_dims(driving_columns(m, cols));
    assert(column_spec(model.transform_path_spec(m, cols), j) =~= model.path_spec(
        driving_columns(m, cols),
    )[j]);
}

impl<T: Scalar, S: SeedRng<T>> PathGenerator<T, S, VectorPath<T>> for MultivariateGeometricBrownianMotion<T> {
    /// The step-wise representation: `nr_samples` consecutive blocks of
    /// `dim` draws, grown into `nr_samples + 1` states from the initial
    /// prices.
    open spec fn sample_path_spec(&self, rng: S, nr_samples: usize) -> (Seq<Seq<T>>, S) {
        let d = draw_rows_spec::<T, S>(rng, nr_samples as nat, self.initial_values@.len() as usize);
        (self.path_spec(d.0), d.1)
    }

    open spec fn sample_path_requires(&self, nr_samples: usize) -> bool {
        self.wf()
    }

    fn sample_path(&self, rn_generator: &mut S, nr_samples: usize) -> (path: VectorPath<T>) {
        let zs = draw_rows(rn_generator, nr_samples, self.initial_values.len());
        let raw = VectorPath::new(zs);
        self.generate_path(&raw)
    }
}

impl<T: Scalar, S: SeedRng<T>> PathGenerator<T, S, Matrix<T>> for MultivariateGeometricBrownianMotion<T> {
    /// The dense representation: a `dim x (nr_samples + 1)` matrix drawn
    /// row-major from the stream, whose column 0 is then replaced by the
    /// initial prices and whose later columns are transformed step by step.
    open spec fn sample_path_spec(&self, rng: S, nr_samples: usize) -> (Seq<Seq<T>>, S) {
        let d = draw_rows_spec::<T, S>(
            rng,
            self.initial_values@.len(),
            ((nr_samples + 1) as usize),
        );
        (self.transform_path_spec(d.0, (nr_samples + 1) as usize as nat), d.1)
    }

    open spec fn sample_path_requires(&self, nr_samples: usize) -> bool {
        self.wf() && self.initial_values@.len() > 0 && nr_samples < usize::MAX
    }

    fn sample_path(&self, rn_generator: &mut S, nr_samples: usize) -> (path: Matrix<T>) {
        let cols = nr_samples + 1;
        let raw_rows = draw_rows(rn_generator, self.initial_values.len(), cols);
        let raw = Matrix::new(raw_rows);
        proof {
            assert(cols_of(raw@) == cols);
        }
        self.transform_path(&raw, cols)
    }
}

} // verus!
