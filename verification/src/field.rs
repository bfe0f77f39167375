use vstd::prelude::*;

verus! {

/// Mimic the key features of a field.
///
/// The risk figures and the simulation engine never touch a concrete number
/// type: every scalar they work with comes through this trait.  Callers
/// supply the implementation (machine floats, arbitrary-precision decimals,
/// ...).  Each executable operation promises to return exactly the value of
/// its specification-level mirror, i.e. to be a deterministic function of its
/// operands; this determinism is what the reproducibility contract of the
/// simulator rests on.  Implementations live outside the verified crate and
/// are therefore trusted to honour these contracts.
pub trait PseudoField: Sized {
    /// The value of `add`.
    spec fn add_spec(self, other: Self) -> Self;

    /// The value of `sub`.
    spec fn sub_spec(self, other: Self) -> Self;

    /// The value of `mul`.
    spec fn mul_spec(self, other: Self) -> Self;

    /// The value of `div`.
    spec fn div_spec(self, other: Self) -> Self;

    /// The value of `is_divisible`.
    spec fn divisible_spec(self, threshold: Option<Self>) -> bool;

    fn add(self, other: Self) -> (r: Self)
        ensures
            r == self.add_spec(other),
    ;

    fn sub(self, other: Self) -> (r: Self)
        ensures
            r == self.sub_spec(other),
    ;

    fn mul(self, other: Self) -> (r: Self)
        ensures
            r == self.mul_spec(other),
    ;

    fn div(self, other: Self) -> (r: Self)
        ensures
            r == self.div_spec(other),
    ;

    /// Whether dividing by `self` is acceptable: `self` is at least
    /// `threshold` in magnitude, or nonzero where no threshold is given.
    fn is_divisible(&self, threshold: Option<Self>) -> (r: bool)
        ensures
            r == self.divisible_spec(threshold),
    ;
}

/// The scalar operations the simulation engine needs beyond the field
/// arithmetic: the additive unit, square root and exponential (for the
/// discretisation rules), and the embedding of a path count (for averages).
///
/// As with [`PseudoField`], implementations come from callers and each
/// executable operation is trusted to return exactly its specification-level
/// mirror.
pub trait Scalar: PseudoField + Copy {
    /// The value of `zero`.
    spec fn zero_spec() -> Self;

    /// The value of `sqrt`.
    spec fn sqrt_spec(self) -> Self;

    /// The value of `exp`.
    spec fn exp_spec(self) -> Self;

    /// The value of `from_count`.
    spec fn from_count_spec(n: usize) -> Self;

    /// The additive unit.
    fn zero() -> (r: Self)
        ensures
            r == Self::zero_spec(),
    ;

    /// The square root of `self`.
    fn sqrt(self) -> (r: Self)
        ensures
            r == self.sqrt_spec(),
    ;

    /// The exponential of `self`.
    fn exp(self) -> (r: Self)
        ensures
            r == self.exp_spec(),
    ;

    /// The scalar standing for a count of `n` items.
    fn from_count(n: usize) -> (r: Self)
        ensures
            r == Self::from_count_spec(n),
    ;
}

} // verus!
