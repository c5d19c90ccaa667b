use crisp::builtin::{add, div, mul, sub};

#[test]
fn add_sums() {
    assert_eq!(add(&[]), 0);
    assert_eq!(add(&[5]), 5);
    assert_eq!(add(&[1, 2, 3, 4]), 10);
    assert_eq!(add(&[-7, 3]), -4);
}

#[test]
fn add_of_split_arguments() {
    // Adding a run split in two is adding the sums of the parts.
    assert_eq!(add(&[1, 2, 3, 4, 5]), add(&[1, 2]) + add(&[3, 4, 5]));
}

#[test]
fn mul_multiplies() {
    assert_eq!(mul(&[]), 1);
    assert_eq!(mul(&[7]), 7);
    assert_eq!(mul(&[2, 3, 4]), 24);
    assert_eq!(mul(&[-2, 3]), -6);
}

#[test]
fn sub_subtracts() {
    assert_eq!(sub(&[]), 0);
    assert_eq!(sub(&[5]), -5);
    assert_eq!(sub(&[10, 3]), 7);
    assert_eq!(sub(&[10, 3, 2]), 5);
}

#[test]
fn sub_is_first_minus_sum_of_rest() {
    let args = [100, 1, 20, 3];
    assert_eq!(sub(&args), args[0] - add(&args[1..]));
}

#[test]
fn div_divides_towards_zero() {
    assert_eq!(div(&[]), 0);
    assert_eq!(div(&[5]), 5);
    assert_eq!(div(&[100, 5, 2]), 10);
    assert_eq!(div(&[7, 2]), 3);
    assert_eq!(div(&[-7, 2]), -3);
    assert_eq!(div(&[7, -2]), -3);
    assert_eq!(div(&[-7, -2]), 3);
    assert_eq!(div(&[isize::MIN, isize::MIN]), 1);
    assert_eq!(div(&[isize::MAX, isize::MIN]), 0);
}
