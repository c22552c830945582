use belgian_spot_tariff_calculator::Dec;

#[test]
fn decimals_compare_by_value() {
    assert_eq!(Dec::new(25, 1), Dec::new(250, 2));
    assert_ne!(Dec::new(25, 1), Dec::new(25, 2));
    assert!(Dec::new(0, 5).is_zero());
    assert!(Dec::new(0, 0).same_value(&Dec::zero()));
    assert_eq!(Dec::one(), Dec::new(100, 2));
}

#[test]
fn decimal_arithmetic_is_exact_where_it_fits() {
    assert_eq!(
        Dec::new(15, 1).checked_add(Dec::new(25, 2)).unwrap(),
        Dec::new(175, 2)
    );
    assert_eq!(
        Dec::new(15, 1).checked_mul(Dec::new(-2, 0)).unwrap(),
        Dec::new(-3, 0)
    );
    assert_eq!(
        Dec::new(1, 0).checked_div(Dec::new(8, 0)).unwrap(),
        Dec::new(125, 3)
    );
    assert_eq!(Dec::new(7, 0).checked_add(Dec::zero()).unwrap().scale(), 0);
    assert!(Dec::new(1, 0).checked_div(Dec::zero()).is_none());
    let zero_quotient = Dec::zero().checked_div(Dec::new(3, 0)).unwrap();
    assert_eq!((zero_quotient.mantissa(), zero_quotient.scale()), (0, 0));
}

#[test]
fn decimal_arithmetic_reports_overflow() {
    let max = Dec::from_parts(79228162514264337593543950335, 0).unwrap();
    assert!(max.checked_add(Dec::one()).is_none());
    assert!(max.checked_mul(Dec::new(2, 0)).is_none());
    assert!(max.checked_div(Dec::new(1, 1)).is_none());
    assert!(Dec::from_parts(79228162514264337593543950336, 0).is_none());
    assert!(Dec::from_parts(1, 29).is_none());
}

#[test]
fn decimals_round_half_to_even() {
    assert_eq!(Dec::new(25, 1).round_dp(0), Dec::new(2, 0));
    assert_eq!(Dec::new(35, 1).round_dp(0), Dec::new(4, 0));
    assert_eq!(Dec::new(-12345, 3).round_dp(2), Dec::new(-1234, 2));
    assert_eq!(Dec::new(12346, 3).round_dp(2), Dec::new(1235, 2));
    assert_eq!(Dec::new(12, 1).round_dp(6), Dec::new(12, 1));
    assert_eq!(Dec::new(12, 1).round_dp(6).scale(), 1);
}

#[test]
fn whole_numbers_are_read_from_decimals() {
    assert_eq!(Dec::new(2026, 0).to_whole(65535), Some(2026));
    assert_eq!(Dec::new(2026000, 3).to_whole(65535), Some(2026));
    assert_eq!(Dec::new(20265, 1).to_whole(65535), None);
    assert_eq!(Dec::new(-1, 0).to_whole(255), None);
    assert_eq!(Dec::new(256, 0).to_whole(255), None);
    assert_eq!(Dec::from_count(12).mantissa(), 12);
}

#[test]
fn exact_results_keep_their_representation() {
    let product = Dec::new(95, 3).checked_mul(Dec::new(40, 0)).unwrap();
    assert_eq!((product.mantissa(), product.scale()), (3800, 3));
    let sum = Dec::new(15, 1).checked_add(Dec::new(25, 2)).unwrap();
    assert_eq!((sum.mantissa(), sum.scale()), (175, 2));
    let quotient = Dec::new(120, 0).checked_div(Dec::new(4, 0)).unwrap();
    assert_eq!((quotient.mantissa(), quotient.scale()), (30, 0));
    let scaled = Dec::new(2100, 2).checked_div(Dec::new(7, 1)).unwrap();
    assert_eq!((scaled.mantissa(), scaled.scale()), (300, 1));
    assert!(Dec::new(6, 0).checked_div(Dec::new(100, 0)).is_some());
}
