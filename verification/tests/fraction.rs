use embedded_time::fraction::Fraction;

#[test]
fn new_keeps_both_parts() {
    let f = Fraction::new(3, 1_000);
    assert_eq!(*f.numerator(), 3);
    assert_eq!(*f.denominator(), 1_000);
    assert_eq!(f, Fraction { numerator: 3, denominator: 1_000 });
}

#[test]
fn fractions_are_not_reduced() {
    assert_ne!(Fraction::new(2, 2_000), Fraction::new(1, 1_000));
}

#[test]
fn fractions_are_copied() {
    let f = Fraction::new(1, 3);
    let g = f;
    assert_eq!(f, g);
    assert_eq!(f.clone(), g);
}

#[test]
fn a_usable_fraction_has_two_positive_parts() {
    assert!(Fraction::new(1, 1).is_usable());
    assert!(Fraction::new(u32::MAX, u32::MAX).is_usable());
    assert!(!Fraction { numerator: 0, denominator: 1 }.is_usable());
    assert!(!Fraction { numerator: 1, denominator: 0 }.is_usable());
    assert!(!Fraction { numerator: 0, denominator: 0 }.is_usable());
}
