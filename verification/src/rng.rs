use vstd::prelude::*;

use crate::linalg::{is_matrix, mat_view};

verus! {

/// A seedable, deterministic random stream handing out standard-normal
/// draws of the scalar type `T`.
///
/// Contract: the stream a seed starts is a pure function of that seed, and
/// each draw together with the state it leaves behind is a pure function of
/// the state before it.  Two streams built from the same seed therefore
/// produce identical output for identical consumption order; this is the
/// reproducibility contract every simulation result rests on.
///
/// Implementations are supplied by callers (for instance a counter-based or
/// a stream-cipher generator feeding a normal transform) and live outside
/// the verified crate, so their conformance to this contract is trusted.
pub trait SeedRng<T>: Sized {
    /// The stream state that seed `seed` starts.
    spec fn seeded_spec(seed: u64) -> Self;

    /// The next draw, together with the state it leaves behind.
    spec fn next_spec(self) -> (T, Self);

    /// Build the stream deterministically from `seed`.
    fn seed_from_u64(seed: u64) -> (rng: Self)
        ensures
            rng == Self::seeded_spec(seed),
    ;

    /// Hand out the next standard-normal draw, advancing the stream.
    fn next_standard_normal(&mut self) -> (z: T)
        ensures
            z == (*old(self)).next_spec().0,
            *final(self) == (*old(self)).next_spec().1,
    ;
}

/// The sequence of the first `n` draws of `rng`, paired with the stream
/// state left behind after them.
pub open spec fn draws_spec<T, S: SeedRng<T>>(rng: S, n: nat) -> (Seq<T>, S)
    decreases n,
{
    if n == 0 {
        (Seq::<T>::empty(), rng)
    } else {
        let prefix = draws_spec::<T, S>(rng, (n - 1) as nat);
        let step = prefix.1.next_spec();
        (prefix.0.push(step.0), step.1)
    }
}

pub proof fn lemma_draws_spec_len<T, S: SeedRng<T>>(rng: S, n: nat)
    ensures
        draws_spec::<T, S>(rng, n).0.len() == n,
    decreases n,
{
    if n > 0 {
        lemma_draws_spec_len::<T, S>(rng, (n - 1) as nat);
    }
}

/// Draw `n` standard-normal scalars from `rng`, advancing it `n` times.
pub fn draw_standard_normals<T, S: SeedRng<T>>(rng: &mut S, n: usize) -> (zs: Vec<T>)
    ensures
        zs@ == draws_spec::<T, S>(*old(rng), n as nat).0,
        zs@.len() == n,
        *final(rng) == draws_spec::<T, S>(*old(rng), n as nat).1,
{
    let mut zs: Vec<T> = Vec::new();
    let mut i: usize = 0;
    while i < n
        invariant
            i <= n,
            zs@ == draws_spec::<T, S>(*old(rng), i as nat).0,
            zs@.len() == i,
            *rng == draws_spec::<T, S>(*old(rng), i as nat).1,
        decreases n - i,
    {
        let z = rng.next_standard_normal();
        zs.push(z);
        i += 1;
    }
    zs
}

/// The first `rows` runs of `cols` draws each, as the rows of a matrix,
/// paired with the stream state left behind.  Row `i + 1` is drawn right
/// after row `i`: the matrix reads the stream in row-major order.
pub open spec fn draw_rows_spec<T, S: SeedRng<T>>(rng: S, rows: nat, cols: usize) -> (Seq<Seq<T>>, S)
    decreases rows,
{
    if rows == 0 {
        (Seq::<Seq<T>>::empty(), rng)
    } else {
        let prefix = draw_rows_spec::<T, S>(rng, (rows - 1) as nat, cols);
        let d = draws_spec::<T, S>(prefix.1, cols as nat);
        (prefix.0.push(d.0), d.1)
    }
}

pub proof fn lemma_draw_rows_spec_dims<T, S: SeedRng<T>>(rng: S, rows: nat, cols: usize)
    ensures
        is_matrix(draw_rows_spec::<T, S>(rng, rows, cols).0, rows, cols as nat),
    decreases rows,
{
    if rows > 0 {
        lemma_draw_rows_spec_dims::<T, S>(rng, (rows - 1) as nat, cols);
        lemma_draws_spec_len::<T, S>(draw_rows_spec::<T, S>(rng, (rows - 1) as nat, cols).1, cols as nat);
    }
}

/// Draw a `rows` by `cols` matrix of standard-normal scalars from `rng` in
/// row-major order.
pub fn draw_rows<T, S: SeedRng<T>>(rng: &mut S, rows: usize, cols: usize) -> (m: Vec<Vec<T>>)
    ensures
        mat_view(m) == draw_rows_spec::<T, S>(*old(rng), rows as nat, cols).0,
        is_matrix(mat_view(m), rows as nat, cols as nat),
        *final(rng) == draw_rows_spec::<T, S>(*old(rng), rows as nat, cols).1,
{
    let mut m: Vec<Vec<T>> = Vec::new();
    let mut i: usize = 0;
    while i < rows
        invariant
            i <= rows,
            mat_view(m) == draw_rows_spec::<T, S>(*old(rng), i as nat, cols).0,
            m@.len() == i,
            *rng == draw_rows_spec::<T, S>(*old(rng), i as nat, cols).1,
        decreases rows - i,
    {
        let row = draw_standard_normals(rng, cols);
        let ghost m_before = m;
        m.push(row);
        proof {
            assert(mat_view(m) =~= mat_view(m_before).push(row@));
        }
        i += 1;
    }
    proof {
        lemma_draw_rows_spec_dims::<T, S>(*old(rng), rows as nat, cols);
    }
    m
}

} // verus!
