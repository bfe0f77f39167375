use vstd::prelude::*;

use crate::field::Scalar;

verus! {

/// The view of a vector of vectors, with every inner vector abstracted to
/// its own view.
pub open spec fn mat_view<T>(m: Vec<Vec<T>>) -> Seq<Seq<T>> {
    m@.map_values(|row: Vec<T>| row@)
}

/// Whether `m` is a rectangular matrix with `rows` rows and `cols` columns.
pub open spec fn is_matrix<T>(m: Seq<Seq<T>>, rows: nat, cols: nat) -> bool {
    m.len() == rows && forall|i: int| 0 <= i < m.len() ==> (#[trigger] m[i]).len() == cols
}

/// The common row length of `m`, read off its first row.
pub open spec fn cols_of<T>(m: Seq<Seq<T>>) -> nat {
    if m.len() > 0 {
        m[0].len()
    } else {
        0
    }
}

/// Column `j` of `m`, read top to bottom.
pub open spec fn column_spec<T>(m: Seq<Seq<T>>, j: int) -> Seq<T> {
    Seq::new(m.len(), |i: int| m[i][j])
}

/// The dot product of `row` and `z`, accumulated left to right from the
/// additive unit.
pub open spec fn dot_spec<T: Scalar>(row: Seq<T>, z: Seq<T>) -> T
    decreases row.len(),
{
    if row.len() == 0 {
        T::zero_spec()
    } else {
        dot_spec(row.drop_last(), z.drop_last()).add_spec(row.last().mul_spec(z.last()))
    }
}

/// The dot product of two equally long vectors.
pub fn dot<T: Scalar>(row: &Vec<T>, z: &Vec<T>) -> (r: T)
    requires
        row@.len() == z@.len(),
    ensures
        r == dot_spec(row@, z@),
{
    let mut acc = T::zero();
    let mut k: usize = 0;
    while k < row.len()
        invariant
            k <= row@.len(),
            row@.len() == z@.len(),
            acc == dot_spec(row@.subrange(0, k as int), z@.subrange(0, k as int)),
        decreases row@.len() - k,
    {
        proof {
            assert(row@.subrange(0, k + 1 as int).drop_last() =~= row@.subrange(0, k as int));
            assert(z@.subrange(0, k + 1 as int).drop_last() =~= z@.subrange(0, k as int));
        }
        acc = acc.add(row[k].mul(z[k]));
        k += 1;
    }
    proof {
        assert(row@.subrange(0, row@.len() as int) =~= row@);
        assert(z@.subrange(0, z@.len() as int) =~= z@);
    }
    acc
}

/// The dot product of `row` with column `j` of the matrix `m`.
pub fn dot_column<T: Scalar>(row: &Vec<T>, m: &Vec<Vec<T>>, j: usize) -> (r: T)
    requires
        row@.len() == m@.len(),
        forall|k: int| 0 <= k < m@.len() ==> j < (#[trigger] m@[k])@.len(),
    ensures
        r == dot_spec(row@, column_spec(mat_view(*m), j as int)),
{
    let mut acc = T::zero();
    let mut k: usize = 0;
    while k < row.len()
        invariant
            k <= row@.len(),
            row@.len() == m@.len(),
            forall|l: int| 0 <= l < m@.len() ==> j < (#[trigger] m@[l])@.len(),
            acc == dot_spec(
                row@.subrange(0, k as int),
                column_spec(mat_view(*m), j as int).subrange(0, k as int),
            ),
        decreases row@.len() - k,
    {
        proof {
            assert(row@.subrange(0, k + 1 as int).drop_last() =~= row@.subrange(0, k as int));
            assert(column_spec(mat_view(*m), j as int).subrange(0, k + 1 as int).drop_last()
                =~= column_spec(mat_view(*m), j as int).subrange(0, k as int));
            assert(column_spec(mat_view(*m), j as int).subrange(0, k + 1 as int).last()
                == mat_view(*m)[k as int][j as int]);
        }
        acc = acc.add(row[k].mul(m[k][j]));
        k += 1;
    }
    proof {
        assert(column_spec(mat_view(*m), j as int).subrange(0, row@.len() as int)
            =~= column_spec(mat_view(*m), j as int));
        assert(row@.subrange(0, row@.len() as int) =~= row@);
    }
    acc
}

/// Copy column `j` out of the matrix `m`.
pub fn extract_column<T: Copy>(m: &Vec<Vec<T>>, j: usize) -> (c: Vec<T>)
    requires
        forall|k: int| 0 <= k < m@.len() ==> j < (#[trigger] m@[k])@.len(),
    ensures
        c@ == column_spec(mat_view(*m), j as int),
{
    let mut c: Vec<T> = Vec::new();
    let mut k: usize = 0;
    while k < m.len()
        invariant
            k <= m@.len(),
            c@.len() == k,
            forall|l: int| 0 <= l < m@.len() ==> j < (#[trigger] m@[l])@.len(),
            forall|l: int| 0 <= l < k ==> c@[l] == mat_view(*m)[l][j as int],
        decreases m@.len() - k,
    {
        proof {
            assert(mat_view(*m)[k as int] == m@[k as int]@);
        }
        let v = m[k][j];
        c.push(v);
        k += 1;
    }
    proof {
        assert(c@ =~= column_spec(mat_view(*m), j as int));
    }
    c
}

/// The transpose of a rectangular matrix with rows of length `row_len`.
pub fn transpose<T: Copy>(m: &Vec<Vec<T>>, row_len: usize) -> (t: Vec<Vec<T>>)
    requires
        is_matrix(mat_view(*m), m@.len(), row_len as nat),
    ensures
        is_matrix(mat_view(t), row_len as nat, m@.len()),
        forall|i: int, j: int|
            0 <= i < row_len && 0 <= j < m@.len()
                ==> #[trigger] mat_view(t)[i][j] == mat_view(*m)[j][i],
{
    let mut t: Vec<Vec<T>> = Vec::new();
    let mut i: usize = 0;
    while i < row_len
        invariant
            i <= row_len,
            t@.len() == i,
            is_matrix(mat_view(*m), m@.len(), row_len as nat),
            forall|a: int|
                0 <= a < i ==> (#[trigger] mat_view(t)[a]) == column_spec(mat_view(*m), a),
        decreases row_len - i,
    {
        proof {
            assert forall|k: int| 0 <= k < m@.len() implies i < (#[trigger] m@[k])@.len() by {
                assert(mat_view(*m)[k] == m@[k]@);
                assert(mat_view(*m)[k].len() == row_len as nat);
            }
        }
        let col = extract_column(m, i);
        let ghost t_before = t;
        t.push(col);
        proof {
            assert(mat_view(t) =~= mat_view(t_before).push(col@));
        }
        i += 1;
    }
    proof {
        assert(forall|a: int|
            0 <= a < row_len ==> (#[trigger] mat_view(t)[a]).len() == m@.len());
    }
    t
}

/// A dense rectangular matrix held as a vector of equally long rows.  For a
/// multivariate path this is the representation whose rows are assets and
/// whose columns are time steps, favourable for bulk linear algebra.
pub struct Matrix<T> {
    pub rows: Vec<Vec<T>>,
}

impl<T> View for Matrix<T> {
    type V = Seq<Seq<T>>;

    open spec fn view(&self) -> Seq<Seq<T>> {
        mat_view(self.rows)
    }
}

impl<T> Matrix<T> {
    pub fn new(rows: Vec<Vec<T>>) -> (r: Self)
        ensures
            r@ == mat_view(rows),
    {
        Self { rows }
    }
}

/// A multivariate path held as the sequence of its states, one vector per
/// time step: the representation favourable for step-wise composition.
pub struct VectorPath<T> {
    pub states: Vec<Vec<T>>,
}

impl<T> View for VectorPath<T> {
    type V = Seq<Seq<T>>;

    open spec fn view(&self) -> Seq<Seq<T>> {
        mat_view(self.states)
    }
}

impl<T> VectorPath<T> {
    pub fn new(states: Vec<Vec<T>>) -> (r: Self)
        ensures
            r@ == mat_view(states),
    {
        Self { states }
    }
}

} // verus!
