use slot_distro::{chi_square, ChiSquare, ChiSquareError};

#[test]
fn uniform_counts_give_zero_statistic() {
    let s = chi_square(&vec![24u32; 24]).unwrap();
    assert_eq!(s.numerator, 0);
    assert_eq!(s.denominator, 24 * 576);
    assert_eq!(s.numerator as f64 / s.denominator as f64, 0.0);
}

#[test]
fn all_mass_in_one_bucket() {
    let mut c = vec![0u32; 24];
    c[0] = 576;
    let s = chi_square(&c).unwrap();
    // (552^2 + 23 * 24^2) / 24 = 13248
    assert_eq!(s, ChiSquare { numerator: 183_140_352, denominator: 13_824 });
    assert_eq!(s.numerator / s.denominator, 13_248);
    assert_eq!(s.numerator % s.denominator, 0);
    let (x2, p) = rv::misc::x2_test(&c, &vec![1.0 / 24.0; 24]);
    assert!((x2 - 13_248.0).abs() < 1e-6);
    assert!(p >= 0.0 && p < 1e-12);
}

#[test]
fn empty_sample_is_rejected() {
    assert_eq!(chi_square(&vec![0u32; 24]), Err(ChiSquareError::EmptySample));
}

#[test]
fn statistic_matches_real_valued_formula() {
    let c: Vec<u32> = (1u32..=24).collect();
    let s = chi_square(&c).unwrap();
    let t: f64 = c.iter().map(|&v| v as f64).sum();
    let e = t / 24.0;
    let direct: f64 = c.iter().map(|&v| (v as f64 - e).powi(2) / e).sum();
    let exact = s.numerator as f64 / s.denominator as f64;
    assert!((exact - direct).abs() < 1e-9);
    let (x2, p) = rv::misc::x2_test(&c, &vec![1.0 / 24.0; 24]);
    assert!((exact - x2).abs() < 1e-6);
    assert!((0.0..=1.0).contains(&p));
}

#[test]
fn repeated_evaluation_is_identical() {
    let c: Vec<u32> = (0u32..24).map(|k| (k * 37) % 11 + 3).collect();
    let a = chi_square(&c);
    let b = chi_square(&c);
    assert_eq!(a, b);
}

#[test]
fn largest_counts_do_not_overflow() {
    let mut c = vec![0u32; 24];
    c[3] = u32::MAX;
    let s = chi_square(&c).unwrap();
    let t = u32::MAX as u128;
    let expected = (23 * t) * (23 * t) + 23 * t * t;
    assert_eq!(s.numerator, expected);
    assert_eq!(s.denominator, 24 * t);
    let full = chi_square(&vec![u32::MAX; 24]).unwrap();
    assert_eq!(full.numerator, 0);
}
