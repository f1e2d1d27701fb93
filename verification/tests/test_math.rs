use cgrustplot::helper::math::bin_to_u8;
use cgrustplot::helper::math::ciel_div;
use cgrustplot::helper::math::max_always;
use cgrustplot::helper::math::min_always;
use cgrustplot::helper::math::NonNanWrapper;
use cgrustplot::helper::math::subdivide_round;

#[test]
fn ciel_div_test_1() {
    assert_eq!(ciel_div(1, 2), 1);
}

#[test]
fn ciel_div_test_2() {
    assert_eq!(ciel_div(8, 4), 2);
}

#[test]
fn bin_to_u8_test_1() {
    assert_eq!(bin_to_u8(vec![true, true, true, true, true, true, true, true]), 0b11111111);
}

#[test]
fn bin_to_u8_test_2() {
    assert_eq!(bin_to_u8(vec![true, true, true, true]), 0b00001111);
}

#[test]
fn bin_to_u8_test_3() {
    assert_eq!(bin_to_u8(vec![]), 0b00000000);
}

#[test]
fn bin_to_u8_test_4() {
    assert_eq!(bin_to_u8(vec![true, true, true, true, true]), 0b11111);
}

#[test]
fn bin_to_u8_test_5() {
    assert_eq!(bin_to_u8(vec![true, true, true]), 0b111);
}

#[test]
fn bin_to_u8_order() {
    assert_eq!(bin_to_u8(vec![false, true]), 0b10);
    assert_eq!(bin_to_u8(vec![true, false, true]), 0b101);
}

#[test]
fn subdivide_round_spread() {
    assert_eq!(subdivide_round(0, 100, 6), vec![0, 20, 40, 60, 80, 100]);
}

#[test]
fn subdivide_round_rounding() {
    assert_eq!(subdivide_round(0, 9, 4), vec![0, 3, 6, 9]);
    assert_eq!(subdivide_round(0, 1, 3), vec![0, 1, 1]);
}

#[test]
fn subdivide_round_negative() {
    assert_eq!(subdivide_round(-10, 10, 5), vec![-10, -5, 0, 5, 10]);
}

#[test]
fn subdivide_round_degenerate() {
    assert_eq!(subdivide_round(3, 7, 0), Vec::<i32>::new());
    assert_eq!(subdivide_round(3, 7, 1), vec![0]);
    assert_eq!(subdivide_round(5, 5, 3), vec![5, 5, 5]);
}

#[test]
fn min_always_ints() {
    assert_eq!(min_always(&vec![3, 1, 4, 1, 5], 0), 1);
    assert_eq!(min_always(&Vec::<i32>::new(), 7), 7);
}

#[test]
fn max_always_ints() {
    assert_eq!(max_always(&vec![3, 1, 4, 1, 5], 0), 5);
    assert_eq!(max_always(&Vec::<i32>::new(), 7), 7);
}

#[test]
fn min_always_ignores_nan() {
    let result = min_always(&vec![1., 2., 3., -4., f64::NAN], 0.);
    assert_eq!(result, -4.);
}

#[test]
fn max_always_ignores_nan() {
    let result = max_always(&vec![1., 2., 3., -4., f64::NAN], 0.);
    assert_eq!(result, 3.);
}

#[test]
fn min_always_all_nan_gives_default() {
    let result = min_always(&vec![f64::NAN, f64::NAN], 9.);
    assert_eq!(result, 9.);
}

#[test]
fn non_nan_wrapper_test_1() {
    let nn = NonNanWrapper::from(0.);
    assert_eq!(nn.value(), 0.);
}

#[test]
fn non_nan_wrapper_test_2() {
    let nn = NonNanWrapper::from(12);
    assert_eq!(nn.value(), 12);
}

#[test]
fn non_nan_wrapper_test_3() {
    let nn1 = NonNanWrapper::from(0.);
    let nn2 = NonNanWrapper::from(12.);
    assert!(nn1 < nn2);
}
