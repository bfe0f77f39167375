use vstd::prelude::*;

use crate::error::SimulationError;
use crate::field::Scalar;
use crate::linalg::{cols_of, column_spec, dot, dot_column, dot_spec, is_matrix, mat_view, Matrix, VectorPath};
use crate::monte_carlo::PathGenerator;
use crate::rng::{draw_rows, draw_rows_spec, draw_standard_normals, draws_spec, SeedRng};

verus! {

/// The standard normal distribution as a path sampler: a path is the raw
/// draws of the stream, untransformed.
pub struct StandardNormal;

impl<T, S: SeedRng<T>> PathGenerator<T, S, Vec<T>> for StandardNormal {
    open spec fn sample_path_spec(&self, rng: S, nr_samples: usize) -> (Seq<T>, S) {
        draws_spec::<T, S>(rng, nr_samples as nat)
    }

    open spec fn sample_path_requires(&self, nr_samples: usize) -> bool {
        true
    }

    fn sample_path(&self, rn_generator: &mut S, nr_samples: usize) -> (path: Vec<T>) {
        draw_standard_normals(rn_generator, nr_samples)
    }
}

/// A general normal distribution: each sample is `mean + std_dev * z` for a
/// standard-normal draw `z`.
pub struct Normal<T> {
    pub mean: T,
    pub std_dev: T,
}

impl<T: Scalar> Normal<T> {
    pub fn new(mean: T, std_dev: T) -> (r: Self)
        ensures
            r.mean == mean,
            r.std_dev == std_dev,
    {
        Self { mean, std_dev }
    }

    /// The sample built from the standard-normal draw `z`.
    pub open spec fn from_zscore_spec(self, z: T) -> T {
        self.mean.add_spec(self.std_dev.mul_spec(z))
    }

    /// Turn a standard-normal draw into a draw of this distribution.
    pub fn from_zscore(&self, z: T) -> (r: T)
        ensures
            r == self.from_zscore_spec(z),
    {
        self.mean.add(self.std_dev.mul(z))
    }
}

impl<T: Scalar, S: SeedRng<T>> PathGenerator<T, S, Vec<T>> for Normal<T> {
    open spec fn sample_path_spec(&self, rng: S, nr_samples: usize) -> (Seq<T>, S) {
        let d = draws_spec::<T, S>(rng, nr_samples as nat);
        (Seq::new(d.0.len(), |i: int| self.from_zscore_spec(d.0[i])), d.1)
    }

    open spec fn sample_path_requires(&self, nr_samples: usize) -> bool {
        true
    }

    fn sample_path(&self, rn_generator: &mut S, nr_samples: usize) -> (path: Vec<T>) {
        let zs = draw_standard_normals(rn_generator, nr_samples);
        let mut path: Vec<T> = Vec::new();
        let mut i: usize = 0;
        while i < zs.len()
            invariant
                i <= zs@.len(),
                path@.len() == i,
                forall|j: int| 0 <= j < i ==> path@[j] == self.from_zscore_spec(zs@[j]),
            decreases zs@.len() - i,
        {
            let v = self.from_zscore(zs[i]);
            path.push(v);
            i += 1;
        }
        proof {
            assert(path@ =~= Seq::new(zs@.len(), |j: int| self.from_zscore_spec(zs@[j])));
        }
        path
    }
}

/// A correlated multivariate normal distribution, given by its mean vector
/// `mu` and a Cholesky factor `C` of the target covariance (`C^T * C =
/// Sigma`): a sample is `mu + C * z` for a vector `z` of independent
/// standard-normal draws.
///
/// That the factor is actually triangular is a precondition on the caller:
/// it is not validated here, and no contract depends on it.
pub struct MultivariateNormalDistribution<T> {
    pub mu: Vec<T>,
    pub cholesky_factor: Vec<Vec<T>>,
}

impl<T: Scalar> MultivariateNormalDistribution<T> {
    /// Shapes agree: the factor is a `dim x dim` matrix for `dim = |mu|`.
    pub open spec fn wf(self) -> bool {
        is_matrix(mat_view(self.cholesky_factor), self.mu@.len(), self.mu@.len())
    }

    /// Build the distribution, rejecting a factor whose shape does not match
    /// the mean vector.
    pub fn new(mu: Vec<T>, cholesky_factor: Vec<Vec<T>>) -> (r: Result<Self, SimulationError>)
        ensures
            r is Ok <==> is_matrix(mat_view(cholesky_factor), mu@.len(), mu@.len()),
            r matches Ok(d) ==> d.mu == mu && d.cholesky_factor == cholesky_factor && d.wf(),
            r matches Err(e) ==> e == SimulationError::InvalidDimension,
    {
        if cholesky_factor.len() != mu.len() {
            return Err(SimulationError::InvalidDimension);
        }
        let mut i: usize = 0;
        while i < cholesky_factor.len()
            invariant
                i <= cholesky_factor@.len(),
                cholesky_factor@.len() == mu@.len(),
                forall|k: int| 0 <= k < i ==> (#[trigger] mat_view(cholesky_factor)[k]).len() == mu@.len(),
            decreases cholesky_factor@.len() - i,
        {
            if cholesky_factor[i].len() != mu.len() {
                proof {
                    assert(mat_view(cholesky_factor)[i as int].len() != mu@.len());
                }
                return Err(SimulationError::InvalidDimension);
            }
            i += 1;
        }
        Ok(Self { mu, cholesky_factor })
    }

    /// The dimension of the distribution.
    pub fn dim(&self) -> (r: usize)
        ensures
            r == self.mu@.len(),
    {
        self.mu.len()
    }

    /// The sample `mu + C * z` built from the standard-normal vector `z`.
    pub open spec fn transform_sample_spec(self, z: Seq<T>) -> Seq<T> {
        Seq::new(
            self.mu@.len(),
            |i: int| self.mu@[i].add_spec(dot_spec(mat_view(self.cholesky_factor)[i], z)),
        )
    }

    /// Impose mean and correlation structure on one vector of independent
    /// standard-normal draws: `mu + C * z`.
    pub fn transform_sample(&self, standard_normals: &Vec<T>) -> (r: Vec<T>)
        requires
            self.wf(),
            standard_normals@.len() == self.mu@.len(),
        ensures
            r@ == self.transform_sample_spec(standard_normals@),
            r@.len() == self.mu@.len(),
    {
        let mut r: Vec<T> = Vec::new();
        let mut i: usize = 0;
        while i < self.mu.len()
            invariant
                i <= self.mu@.len(),
                r@.len() == i,
                self.wf(),
                standard_normals@.len() == self.mu@.len(),
                forall|j: int|
                    0 <= j < i ==> r@[j] == self.mu@[j].add_spec(
                        dot_spec(mat_view(self.cholesky_factor)[j], standard_normals@),
                    ),
            decreases self.mu@.len() - i,
        {
            proof {
                assert(mat_view(self.cholesky_factor)[i as int] == self.cholesky_factor@[i as int]@);
                assert(mat_view(self.cholesky_factor)[i as int].len() == self.mu@.len());
            }
            let v = self.mu[i].add(dot(&self.cholesky_factor[i], standard_normals));
            r.push(v);
            i += 1;
        }
        proof {
            assert(r@ =~= self.transform_sample_spec(standard_normals@));
        }
        r
    }

    /// Draw one correlated sample: `dim` independent standard normals,
    /// transformed by `mu + C * z`.
    pub fn sample<S: SeedRng<T>>(&self, rn_generator: &mut S) -> (r: Vec<T>)
        requires
            self.wf(),
        ensures
            r@ == self.transform_sample_spec(
                draws_spec::<T, S>(*old(rn_generator), self.mu@.len()).0,
            ),
            *final(rn_generator) == draws_spec::<T, S>(*old(rn_generator), self.mu@.len()).1,
    {
        let zs = draw_standard_normals(rn_generator, self.mu.len());
        self.transform_sample(&zs)
    }

    /// The per-column transform of a whole path: column `j` of the result is
    /// `mu + C * (column j of m)`.  The mean is added once per column, never
    /// accumulated across columns.
    pub open spec fn transform_path_spec(self, m: Seq<Seq<T>>, cols: nat) -> Seq<Seq<T>> {
        Seq::new(
            self.mu@.len(),
            |i: int| Seq::new(
                cols,
                |j: int| self.mu@[i].add_spec(dot_spec(mat_view(self.cholesky_factor)[i], column_spec(m, j))),
            ),
        )
    }

    /// Impose mean and correlation structure on a matrix whose columns are
    /// vectors of independent standard-normal draws, column by column,
    /// without changing the shape.
    pub fn transform_path(&self, standard_normals_matrix: &Matrix<T>) -> (r: Matrix<T>)
        requires
            self.wf(),
            is_matrix(standard_normals_matrix@, self.mu@.len(), cols_of(standard_normals_matrix@)),
        ensures
            r@ == self.transform_path_spec(standard_normals_matrix@, cols_of(standard_normals_matrix@)),
            is_matrix(r@, self.mu@.len(), cols_of(standard_normals_matrix@)),
    {
        let m = &standard_normals_matrix.rows;
        let cols: usize = if m.len() > 0 {
            m[0].len()
        } else {
            0
        };
        let mut out: Vec<Vec<T>> = Vec::new();
        let mut i: usize = 0;
        while i < self.mu.len()
            invariant
                i <= self.mu@.len(),
                out@.len() == i,
                self.wf(),
                m == &standard_normals_matrix.rows,
                is_matrix(standard_normals_matrix@, self.mu@.len(), cols_of(standard_normals_matrix@)),
                cols == cols_of(standard_normals_matrix@),
                forall|a: int|
                    0 <= a < i ==> (#[trigger] mat_view(out)[a]) == Seq::new(
                        cols as nat,
                        |j: int| self.mu@[a].add_spec(
                            dot_spec(mat_view(self.cholesky_factor)[a], column_spec(standard_normals_matrix@, j)),
                        ),
                    ),
            decreases self.mu@.len() - i,
        {
            let mut row: Vec<T> = Vec::new();
            let mut j: usize = 0;
            proof {
                assert(mat_view(self.cholesky_factor)[i as int] == self.cholesky_factor@[i as int]@);
            }
            while j < cols
                invariant
                    j <= cols,
                    i < self.mu@.len(),
                    row@.len() == j,
                    self.wf(),
                    m == &standard_normals_matrix.rows,
                    is_matrix(standard_normals_matrix@, self.mu@.len(), cols_of(standard_normals_matrix@)),
                    cols == cols_of(standard_normals_matrix@),
                    forall|b: int|
                        0 <= b < j ==> row@[b] == self.mu@[i as int].add_spec(
                            dot_spec(mat_view(self.cholesky_factor)[i as int], column_spec(standard_normals_matrix@, b)),
                        ),
                decreases cols - j,
            {
                proof {
                    assert(mat_view(self.cholesky_factor)[i as int].len() == self.mu@.len());
                    assert forall|k: int| 0 <= k < m@.len() implies j < (#[trigger] m@[k])@.len() by {
                        assert(standard_normals_matrix@[k] == m@[k]@);
                        assert(standard_normals_matrix@[k].len() == cols_of(standard_normals_matrix@));
                    }
                }
                let v = self.mu[i].add(dot_column(&self.cholesky_factor[i], m, j));
                proof {
                    assert(column_spec(mat_view(*m), j as int) == column_spec(standard_normals_matrix@, j as int));
                }
                row.push(v);
                j += 1;
            }
            let ghost out_before = out;
            out.push(row);
            proof {
                assert(mat_view(out) =~= mat_view(out_before).push(row@));
                assert(row@ =~= Seq::new(
                    cols as nat,
                    |j: int| self.mu@[i as int].add_spec(
                        dot_spec(mat_view(self.cholesky_factor)[i as int], column_spec(standard_normals_matrix@, j)),
                    ),
                ));
            }
            i += 1;
        }
        proof {
            assert(mat_view(out) =~= self.transform_path_spec(
                standard_normals_matrix@,
                cols_of(standard_normals_matrix@),
            ));
        }
        Matrix::new(out)
    }
}

/// The additive unit of the scalar type absorbs multiplication on its left
/// and leaves addition on its right alone.  Machine floats satisfy both for
/// every finite value; a not-a-number draw breaks absorption, a negative
/// zero breaks neutrality.
pub open spec fn zero_obeys_ring_laws<T: Scalar>() -> bool {
    &&& forall|x: T| #[trigger] T::zero_spec().mul_spec(x) == T::zero_spec()
    &&& forall|x: T| #[trigger] x.add_spec(T::zero_spec()) == x
}

pub proof fn lemma_dot_spec_zero_row<T: Scalar>(row: Seq<T>, z: Seq<T>)
    requires
        row.len() == z.len(),
        forall|j: int| 0 <= j < row.len() ==> row[j] == T::zero_spec(),
        zero_obeys_ring_laws::<T>(),
    ensures
        dot_spec(row, z) == T::zero_spec(),
    decreases row.len(),
{
    if row.len() > 0 {
        lemma_dot_spec_zero_row(row.drop_last(), z.drop_last());
    }
}

/// Zero-correlation/zero-volatility degeneracy: a multivariate normal whose
/// Cholesky factor is all zero returns exactly `mu` for every sample — no
/// randomness leaks through.  Stated for scalars whose additive unit obeys
/// the ring laws above.
pub proof fn lemma_zero_cholesky_returns_mu<T: Scalar>(
    d: MultivariateNormalDistribution<T>,
    z: Seq<T>,
)
    requires
        d.wf(),
        z.len() == d.mu@.len(),
        zero_obeys_ring_laws::<T>(),
        forall|i: int, j: int|
            0 <= i < d.mu@.len() && 0 <= j < d.mu@.len()
                ==> #[trigger] mat_view(d.cholesky_factor)[i][j] == T::zero_spec(),
    ensures
        d.transform_sample_spec(z) == d.mu@,
{
    assert forall|i: int| 0 <= i < d.mu@.len()
        implies #[trigger] d.transform_sample_spec(z)[i] == d.mu@[i] by {
        assert(mat_view(d.cholesky_factor)[i].len() == d.mu@.len());
        assert(forall|j: int|
            0 <= j < d.mu@.len() ==> #[trigger] mat_view(d.cholesky_factor)[i][j]
                == T::zero_spec());
        lemma_dot_spec_zero_row(mat_view(d.cholesky_factor)[i], z);
        assert(d.mu@[i].add_spec(T::zero_spec()) == d.mu@[i]);
    }
    assert(d.transform_sample_spec(z) =~= d.mu@);
}

/// The transform of a whole path acts on each column exactly as
/// `transform_sample` acts on one vector: column `j` of the transformed
/// matrix is `mu + C * (column j)`, with the mean added once per column.
pub proof fn lemma_transform_path_is_columnwise<T: Scalar>(
    d: MultivariateNormalDistribution<T>,
    m: Seq<Seq<T>>,
    cols: nat,
    j: int,
)
    requires
        0 <= j < cols,
    ensures
        column_spec(d.transform_path_spec(m, cols), j) == d.transform_sample_spec(column_spec(m, j)),
{
    assert(column_spec(d.transform_path_spec(m, cols), j) =~= d.transform_sample_spec(column_spec(m, j)));
}

impl<T: Scalar, S: SeedRng<T>> PathGenerator<T, S, Matrix<T>> for MultivariateNormalDistribution<T> {
    /// The dense representation: a `dim x nr_samples` matrix drawn row-major
    /// from the stream, then transformed column by column.
    open spec fn sample_path_spec(&self, rng: S, nr_samples: usize) -> (Seq<Seq<T>>, S) {
        let d = draw_rows_spec::<T, S>(rng, self.mu@.len(), nr_samples);
        (self.transform_path_spec(d.0, nr_samples as nat), d.1)
    }

    open spec fn sample_path_requires(&self, nr_samples: usize) -> bool {
        self.wf()
    }

    fn sample_path(&self, rn_generator: &mut S, nr_samples: usize) -> (path: Matrix<T>) {
        let raw_rows = draw_rows(rn_generator, self.mu.len(), nr_samples);
        let raw = Matrix::new(raw_rows);
        let out = self.transform_path(&raw);
        proof {
            if self.mu@.len() > 0 {
                assert(cols_of(raw@) == nr_samples);
            } else {
                assert(out@ =~= self.transform_path_spec(raw@, nr_samples as nat));
            }
        }
        out
    }
}

impl<T: Scalar, S: SeedRng<T>> PathGenerator<T, S, VectorPath<T>> for MultivariateNormalDistribution<T> {
    /// The sequence-of-vectors representation: `nr_samples` consecutive
    /// blocks of `dim` draws, each transformed into one correlated sample.
    open spec fn sample_path_spec(&self, rng: S, nr_samples: usize) -> (Seq<Seq<T>>, S) {
        let d = draw_rows_spec::<T, S>(rng, nr_samples as nat, self.mu@.len() as usize);
        (Seq::new(nr_samples as nat, |j: int| self.transform_sample_spec(d.0[j])), d.1)
    }

    open spec fn sample_path_requires(&self, nr_samples: usize) -> bool {
        self.wf()
    }

    fn sample_path(&self, rn_generator: &mut S, nr_samples: usize) -> (path: VectorPath<T>) {
        let zs = draw_rows(rn_generator, nr_samples, self.mu.len());
        let mut states: Vec<Vec<T>> = Vec::new();
        let mut j: usize = 0;
        while j < nr_samples
            invariant
                j <= nr_samples,
                states@.len() == j,
                self.wf(),
                zs@.len() == nr_samples,
                is_matrix(mat_view(zs), nr_samples as nat, self.mu@.len()),
                forall|b: int|
                    0 <= b < j ==> (#[trigger] mat_view(states)[b]) == self.transform_sample_spec(mat_view(zs)[b]),
            decreases nr_samples - j,
        {
            proof {
                assert(mat_view(zs)[j as int] == zs@[j as int]@);
                assert(mat_view(zs)[j as int].len() == self.mu@.len());
            }
            let state = self.transform_sample(&zs[j]);
            let ghost states_before = states;
            states.push(state);
            proof {
                assert(mat_view(states) =~= mat_view(states_before).push(state@));
            }
            j += 1;
        }
        proof {
            assert(mat_view(states) =~= Seq::new(
                nr_samples as nat,
                |b: int| self.transform_sample_spec(
                    draw_rows_spec::<T, S>(*old(rn_generator), nr_samples as nat, self.mu@.len() as usize).0[b],
                ),
            ));
        }
        VectorPath::new(states)
    }
}

} // verus!
