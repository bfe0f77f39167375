use bigdecimal::BigDecimal;
use bigdecimal::FromPrimitive;
use bigdecimal::Zero;

use pricing::error::RiskError;
use pricing::field::PseudoField;
use pricing::risk_figures::{asset_bmk_ratio, information_ratio, sharpe_ratio};

#[derive(Clone, Copy, Debug, PartialEq)]
struct F32(f32);

impl PseudoField for F32 {
    fn add_spec(self, other: Self) -> Self {
        F32(self.0 + other.0)
    }

    fn sub_spec(self, other: Self) -> Self {
        F32(self.0 - other.0)
    }

    fn mul_spec(self, other: Self) -> Self {
        F32(self.0 * other.0)
    }

    fn div_spec(self, other: Self) -> Self {
        F32(self.0 / other.0)
    }

    fn divisible_spec(self, threshold: Option<Self>) -> bool {
        self.is_divisible(threshold)
    }

    fn add(self, other: Self) -> Self {
        F32(self.0 + other.0)
    }

    fn sub(self, other: Self) -> Self {
        F32(self.0 - other.0)
    }

    fn mul(self, other: Self) -> Self {
        F32(self.0 * other.0)
    }

    fn div(self, other: Self) -> Self {
        F32(self.0 / other.0)
    }

    fn is_divisible(&self, tolerance: Option<Self>) -> bool {
        match tolerance {
            Some(tol) => self.0.abs() >= tol.0,
            None => self.0.abs() != 0.0,
        }
    }
}

#[derive(Clone, Copy, Debug, PartialEq)]
struct F64(f64);

impl PseudoField for F64 {
    fn add_spec(self, other: Self) -> Self {
        F64(self.0 + other.0)
    }

    fn sub_spec(self, other: Self) -> Self {
        F64(self.0 - other.0)
    }

    fn mul_spec(self, other: Self) -> Self {
        F64(self.0 * other.0)
    }

    fn div_spec(self, other: Self) -> Self {
        F64(self.0 / other.0)
    }

    fn divisible_spec(self, threshold: Option<Self>) -> bool {
        self.is_divisible(threshold)
    }

    fn add(self, other: Self) -> Self {
        F64(self.0 + other.0)
    }

    fn sub(self, other: Self) -> Self {
        F64(self.0 - other.0)
    }

    fn mul(self, other: Self) -> Self {
        F64(self.0 * other.0)
    }

    fn div(self, other: Self) -> Self {
        F64(self.0 / other.0)
    }

    fn is_divisible(&self, tolerance: Option<Self>) -> bool {
        match tolerance {
            Some(tol) => self.0.abs() >= tol.0,
            None => self.0.abs() != 0.0,
        }
    }
}

#[derive(Clone, Debug, PartialEq)]
struct Big(BigDecimal);

impl PseudoField for Big {
    fn add_spec(self, other: Self) -> Self {
        Big(self.0 + other.0)
    }

    fn sub_spec(self, other: Self) -> Self {
        Big(self.0 - other.0)
    }

    fn mul_spec(self, other: Self) -> Self {
        Big(self.0 * other.0)
    }

    fn div_spec(self, other: Self) -> Self {
        Big(self.0 / other.0)
    }

    fn divisible_spec(self, threshold: Option<Self>) -> bool {
        self.is_divisible(threshold)
    }

    fn add(self, other: Self) -> Self {
        Big(self.0 + other.0)
    }

    fn sub(self, other: Self) -> Self {
        Big(self.0 - other.0)
    }

    fn mul(self, other: Self) -> Self {
        Big(self.0 * other.0)
    }

    fn div(self, other: Self) -> Self {
        Big(self.0 / other.0)
    }

    fn is_divisible(&self, tolerance: Option<Self>) -> bool {
        match tolerance {
            Some(tol) => self.0.abs() >= tol.0,
            None => self.0.abs() != BigDecimal::zero(),
        }
    }
}

fn big(x: f64) -> Big {
    Big(BigDecimal::from_f64(x).unwrap())
}

#[test]
fn asset_bmk_ratio_f32() {
    assert_eq!(
        asset_bmk_ratio(F32(0.2), F32(0.1), F32(1.0), None).unwrap(),
        F32(0.1)
    );
    assert_eq!(
        asset_bmk_ratio(F32(0.2), F32(0.1), F32(0.01), None).unwrap(),
        F32(10.0)
    );

    assert!(asset_bmk_ratio(F32(0.2), F32(0.1), F32(0.01), Some(F32(0.05))).is_err());
    assert!(asset_bmk_ratio(F32(0.2), F32(0.1), F32(0.01), Some(F32(0.01))).is_ok());
}

#[test]
fn asset_bmk_ratio_f64() {
    assert_eq!(
        asset_bmk_ratio(F64(0.2), F64(0.1), F64(1.0), None).unwrap(),
        F64(0.1)
    );
    assert_eq!(
        asset_bmk_ratio(F64(0.2), F64(0.1), F64(0.01), None).unwrap(),
        F64(10.0)
    );

    assert!(asset_bmk_ratio(F64(0.2), F64(0.1), F64(0.01), Some(F64(0.05))).is_err());
    assert!(asset_bmk_ratio(F64(0.2), F64(0.1), F64(0.01), Some(F64(0.01))).is_ok());
}

#[test]
fn asset_bmk_ratio_bigdecimal() {
    assert_eq!(
        asset_bmk_ratio(big(0.2), big(0.1), big(1.0), None).unwrap(),
        big(0.1)
    );

    assert!(asset_bmk_ratio(big(0.2), big(0.1), big(0.01), Some(big(0.05))).is_err());

    assert!(asset_bmk_ratio(big(0.2), big(0.1), big(0.01), Some(big(0.01))).is_ok());
}

#[test]
fn sharpe_ratio_matches_excess_over_risk() {
    assert_eq!(
        sharpe_ratio(F64(0.3), F64(0.1), F64(0.5), None).unwrap(),
        F64((0.3_f64 - 0.1) / 0.5)
    );
    assert!(matches!(
        sharpe_ratio(F64(0.3), F64(0.1), F64(0.0), None),
        Err(RiskError::ZeroDivision)
    ));
}

#[test]
fn information_ratio_matches_excess_over_risk() {
    assert_eq!(
        information_ratio(F64(0.3), F64(0.2), F64(0.25), None).unwrap(),
        F64((0.3_f64 - 0.2) / 0.25)
    );
    assert!(matches!(
        information_ratio(F64(0.3), F64(0.2), F64(0.001), Some(F64(0.01))),
        Err(RiskError::ZeroDivision)
    ));
}

#[test]
fn risk_error_message() {
    assert_eq!(RiskError::ZeroDivision.message(), "division by 0");
}
