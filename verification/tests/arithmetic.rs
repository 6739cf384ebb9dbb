use numerics::arithmetic::gcd;
use numerics::arithmetic::round_plan;
use numerics::arithmetic::RoundPlan;

#[test]
fn gcd_of_15_50() {
    assert_eq!(5, gcd(15, 50).unwrap());
}

#[test]
fn gcd_of_50_15() {
    assert_eq!(gcd(50, 15).unwrap(), gcd(15, 50).unwrap());
}

#[test]
fn gcd_both_zero() {
    assert!(gcd(0, 0).is_err());
}

#[test]
fn gcd_zero_message() {
    assert_eq!("GCD of 0 with 0 is ill-defined.", gcd(0, 0).unwrap_err());
}

#[test]
fn gcd_with_one_zero() {
    assert_eq!(7, gcd(0, 7).unwrap());
    assert_eq!(7, gcd(7, 0).unwrap());
}

#[test]
fn gcd_more_pairs() {
    assert_eq!(6, gcd(12, 18).unwrap());
    assert_eq!(1, gcd(35, 64).unwrap());
    assert_eq!(21, gcd(1071, 462).unwrap());
}

#[test]
fn round_plan_five_places() {
    match round_plan("0.123456789101112", 5) {
        Some(RoundPlan::RoundUp(prefix)) => {
            assert_eq!("0.12345", prefix);
            let rounded: f64 = prefix.parse::<f64>().unwrap() + 1.0 * 10.0_f64.powi(-5);
            assert_eq!(0.12346, rounded);
        }
        _ => panic!("expected a round-up plan"),
    }
}

#[test]
fn round_plan_precision_exceeds_digits() {
    assert!(matches!(round_plan("0.5", 5), Some(RoundPlan::KeepAsIs)));
}

#[test]
fn round_plan_truncates_low_digit() {
    match round_plan("0.12341234", 4) {
        Some(RoundPlan::Truncate(prefix)) => assert_eq!("0.1234", prefix),
        _ => panic!("expected a truncation plan"),
    }
}

#[test]
fn round_plan_rejects_non_digit() {
    assert!(round_plan("0.12345e-9", 5).is_none());
}
