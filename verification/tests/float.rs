use jinme::float::Float;

fn float(x: f64) -> Float {
    Float::from_bits(x.to_bits())
}

#[test]
fn add() {
    // arrange
    let input = float(5.0);
    let add = float(2.0);
    // act
    let output = input + add;
    // assert
    assert_eq!(output, float(7.0));
}

#[test]
fn sub() {
    // arrange
    let input = float(5.0);
    let sub = float(2.0);
    // act
    let output = input - sub;
    // assert
    assert_eq!(output, float(3.0));
}

#[test]
fn mul() {
    // arrange
    let input = float(5.0);
    let mul = float(2.0);
    // act
    let output = input * mul;
    // assert
    assert_eq!(output, float(10.0));
}

#[test]
fn div() {
    // arrange
    let input = float(5.0);
    let div = float(2.0);
    // act
    let output = input / div;
    // assert
    assert_eq!(output, float(2.5));
}

#[test]
fn bits_round_trip() {
    for x in [0.0f64, -0.0, 1.5, -2.25, 1e-310, f64::MAX, f64::INFINITY, f64::NEG_INFINITY] {
        assert_eq!(Float::from_bits(x.to_bits()).to_bits(), x.to_bits());
    }
}

#[test]
fn components_of_one() {
    let one = float(1.0);
    assert_eq!(one.mantissa(), float(1.0).mantissa());
    assert_ne!(one.to_bits(), float(2.0).to_bits());
}

#[test]
fn nan_is_not_equal_to_itself() {
    let nan = float(f64::NAN);
    assert_ne!(nan, nan);
}

#[test]
fn zeros_are_equal() {
    assert_eq!(float(0.0), float(-0.0));
}

#[test]
fn rounding_to_nearest() {
    assert_eq!(float(0.1) + float(0.2), float(0.1 + 0.2));
    assert_eq!(float(1.0) / float(3.0), float(1.0 / 3.0));
}

#[test]
fn sum_and_product_fold_from_the_left() {
    let xs = vec![float(1.5), float(2.0), float(-0.5)];
    assert_eq!(Float::sum(&xs), float(3.0));
    assert_eq!(Float::product(&xs), float(-1.5));
    assert_eq!(Float::sum(&vec![]), float(0.0));
    assert_eq!(Float::product(&vec![]), float(1.0));
}
