use vstd::prelude::*;

use crate::error::RiskError;
use crate::field::PseudoField;

verus! {

/// The excess return `asset_return - benchmark_return` divided by
/// `excess_std`.
pub open spec fn ratio_spec<Numeric: PseudoField>(
    asset_return: Numeric,
    benchmark_return: Numeric,
    excess_std: Numeric,
) -> Numeric {
    asset_return.sub_spec(benchmark_return).div_spec(excess_std)
}

/// The ratio of an asset's excess return over a benchmark to the risk
/// (standard deviation) of that excess, guarded against division by a
/// divisor that fails the divisibility test.
pub fn asset_bmk_ratio<Numeric: PseudoField>(
    asset_return: Numeric,
    benchmark_return: Numeric,
    excess_std: Numeric,
    threshold: Option<Numeric>,
) -> (r: Result<Numeric, RiskError>)
    ensures
        r == (if excess_std.divisible_spec(threshold) {
            Result::<Numeric, RiskError>::Ok(ratio_spec(asset_return, benchmark_return, excess_std))
        } else {
            Result::<Numeric, RiskError>::Err(RiskError::ZeroDivision)
        }),
{
    if !(excess_std.is_divisible(threshold)) {
        return Err(RiskError::ZeroDivision);
    }
    let ratio = asset_return.sub(benchmark_return).div(excess_std);
    Ok(ratio)
}

/// The ratio of the expected value of the excess of the asset returns and
/// the risk-free rates, over the 'risk' (standard deviation) of the excess
/// of asset and the risk-free-rate rates.  Use the threshold for the
/// division by 'risk'.
pub fn sharpe_ratio<Numeric: PseudoField>(
    asset_return: Numeric,
    riskfree_rate: Numeric,
    excess_std: Numeric,
    threshold: Option<Numeric>,
) -> (r: Result<Numeric, RiskError>)
    ensures
        r == (if excess_std.divisible_spec(threshold) {
            Result::<Numeric, RiskError>::Ok(ratio_spec(asset_return, riskfree_rate, excess_std))
        } else {
            Result::<Numeric, RiskError>::Err(RiskError::ZeroDivision)
        }),
{
    asset_bmk_ratio(asset_return, riskfree_rate, excess_std, threshold)
}

/// The ratio of the expected value of the excess of the asset returns and
/// the benchmark returns, over the 'risk' (standard deviation) of the excess
/// of asset and the benchmark returns.  Use the threshold for the division
/// by 'risk'.
pub fn information_ratio<Numeric: PseudoField>(
    asset_return: Numeric,
    benchmark_return: Numeric,
    excess_std: Numeric,
    threshold: Option<Numeric>,
) -> (r: Result<Numeric, RiskError>)
    ensures
        r == (if excess_std.divisible_spec(threshold) {
            Result::<Numeric, RiskError>::Ok(ratio_spec(asset_return, benchmark_return, excess_std))
        } else {
            Result::<Numeric, RiskError>::Err(RiskError::ZeroDivision)
        }),
{
    asset_bmk_ratio(asset_return, benchmark_return, excess_std, threshold)
}

} // verus!
