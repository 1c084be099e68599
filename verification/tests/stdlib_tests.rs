//! Tests of the built-in function library, driven over the evaluation
//! stack with the machine's floating point as the embedder's arithmetic.
use graze::runtime::{Error, Stack, Value};
use graze::stdlib::scalar::FloatOps;
use graze::stdlib::{basic, point, scalar, vector, Point, Scalar, Vector};

struct HostFloat;

impl FloatOps for HostFloat {
    fn add_bits(&self, a: u64, b: u64) -> u64 {
        (f64::from_bits(a) + f64::from_bits(b)).to_bits()
    }

    fn sub_bits(&self, a: u64, b: u64) -> u64 {
        (f64::from_bits(a) - f64::from_bits(b)).to_bits()
    }

    fn mul_bits(&self, a: u64, b: u64) -> u64 {
        (f64::from_bits(a) * f64::from_bits(b)).to_bits()
    }

    fn div_bits(&self, a: u64, b: u64) -> u64 {
        (f64::from_bits(a) / f64::from_bits(b)).to_bits()
    }

    fn sqrt_bits(&self, a: u64) -> u64 {
        f64::from_bits(a).sqrt().to_bits()
    }

    fn int_to_bits(&self, i: i64) -> u64 {
        (i as f64).to_bits()
    }
}

fn dummy_stack(values: &[Value]) -> Stack {
    let mut stack = Stack::default();
    for value in values {
        stack.push(*value);
    }
    stack
}

fn scalar(value: i64) -> Value {
    Value::Scalar(Scalar::integer(value))
}

fn scalar_f(value: f64) -> Value {
    Value::Scalar(Scalar::from_float_bits(value.to_bits()))
}

fn vector(x: i64, y: i64) -> Value {
    Value::Vector(Vector { x: Scalar::integer(x), y: Scalar::integer(y) })
}

fn vector_f(x: f64, y: f64) -> Value {
    Value::Vector(Vector {
        x: Scalar::from_float_bits(x.to_bits()),
        y: Scalar::from_float_bits(y.to_bits()),
    })
}

fn point(x: i64, y: i64) -> Value {
    Value::Point(Point { x: Scalar::integer(x), y: Scalar::integer(y) })
}

#[test]
fn test_add() {
    let mut stack = dummy_stack(&[
        point(1, 2),
        point(3, 4),
        point(1, 2),
        vector(3, 4),
        vector(1, 2),
        vector(3, 4),
        scalar(1),
        scalar(2),
    ]);

    assert_eq!(basic::add(&mut stack, &HostFloat), Ok(scalar(3)));
    assert_eq!(basic::add(&mut stack, &HostFloat), Ok(vector(4, 6)));
    assert_eq!(basic::add(&mut stack, &HostFloat), Ok(point(4, 6)));
    assert_eq!(basic::add(&mut stack, &HostFloat), Err(Error::TypeError));
}

#[test]
fn test_sub() {
    let mut stack = dummy_stack(&[
        point(1, 2),
        point(3, 4),
        point(1, 2),
        vector(3, 4),
        vector(1, 2),
        vector(3, 4),
        scalar(1),
        scalar(2),
    ]);

    assert_eq!(basic::sub(&mut stack, &HostFloat), Ok(scalar(-1)));
    assert_eq!(basic::sub(&mut stack, &HostFloat), Ok(vector(-2, -2)));
    assert_eq!(basic::sub(&mut stack, &HostFloat), Ok(point(-2, -2)));
    assert_eq!(basic::sub(&mut stack, &HostFloat), Ok(vector(-2, -2)));
}

#[test]
fn test_mul() {
    let mut stack = dummy_stack(&[
        vector(1, 2),
        scalar(3),
        scalar(1),
        vector(3, 4),
        scalar(1),
        scalar(2),
    ]);

    assert_eq!(basic::mul(&mut stack, &HostFloat), Ok(scalar(2)));
    assert_eq!(basic::mul(&mut stack, &HostFloat), Ok(vector(3, 4)));
    assert_eq!(basic::mul(&mut stack, &HostFloat), Ok(vector(3, 6)));
}

#[test]
fn test_div() {
    let mut stack = dummy_stack(&[
        scalar(1),
        vector(3, 4),
        vector(1, 2),
        scalar(3),
        scalar(1),
        scalar(2),
    ]);

    assert_eq!(basic::div(&mut stack, &HostFloat), Ok(scalar_f(0.5)));
    assert_eq!(
        basic::div(&mut stack, &HostFloat),
        Ok(vector_f(1.0 / 3.0, 2.0 / 3.0))
    );
    assert_eq!(basic::div(&mut stack, &HostFloat), Err(Error::TypeError));
}

#[test]
fn test_div_is_integer_exactly_when_it_divides() {
    let mut stack = dummy_stack(&[scalar(-6), scalar(3), scalar(6), scalar(3)]);
    assert_eq!(basic::div(&mut stack, &HostFloat), Ok(scalar(2)));
    assert_eq!(basic::div(&mut stack, &HostFloat), Ok(scalar(-2)));

    let mut inexact = dummy_stack(&[scalar(7), scalar(2)]);
    assert_eq!(basic::div(&mut inexact, &HostFloat), Ok(scalar_f(3.5)));
}

#[test]
fn test_pnt2() {
    let mut stack = dummy_stack(&[scalar(3), vector(4, 5), scalar(1), scalar(2)]);

    assert_eq!(point::pnt2(&mut stack, &HostFloat), Ok(point(1, 2)));
    assert_eq!(point::pnt2(&mut stack, &HostFloat), Err(Error::TypeError));
}

#[test]
fn test_lvec() {
    let mut stack = dummy_stack(&[vector(3, 4), point(1, 2)]);

    assert_eq!(point::lvec(&mut stack, &HostFloat), Ok(vector(1, 2)));
    assert_eq!(point::lvec(&mut stack, &HostFloat), Err(Error::TypeError));
}

#[test]
fn test_x() {
    let mut stack = dummy_stack(&[scalar(1), vector(3, 4), point(1, 2)]);

    assert_eq!(point::x(&mut stack, &HostFloat), Ok(scalar(1)));
    assert_eq!(point::x(&mut stack, &HostFloat), Ok(scalar(3)));
    assert_eq!(point::x(&mut stack, &HostFloat), Err(Error::TypeError));
}

#[test]
fn test_y() {
    let mut stack = dummy_stack(&[scalar(2), vector(3, 4), point(1, 2)]);

    assert_eq!(point::y(&mut stack, &HostFloat), Ok(scalar(2)));
    assert_eq!(point::y(&mut stack, &HostFloat), Ok(scalar(4)));
    assert_eq!(point::y(&mut stack, &HostFloat), Err(Error::TypeError));
}

#[test]
fn test_sqrt() {
    let mut stack = dummy_stack(&[scalar(-10), scalar_f(8.0), scalar(9)]);

    assert_eq!(scalar::sqrt(&mut stack, &HostFloat), Ok(scalar_f(3.0)));
    assert_eq!(
        scalar::sqrt(&mut stack, &HostFloat),
        Ok(scalar_f(f64::sqrt(8.0)))
    );
    assert_eq!(scalar::sqrt(&mut stack, &HostFloat), Err(Error::NonRealResult));
}

#[test]
fn test_sqrt_of_negative_zero_succeeds() {
    // -0.0 compares >= 0.0, and its square root is -0.0 again
    let mut stack = dummy_stack(&[scalar_f(-0.0)]);
    assert_eq!(scalar::sqrt(&mut stack, &HostFloat), Ok(scalar_f(-0.0)));
}

#[test]
fn test_dot() {
    let mut stack = dummy_stack(&[vector(1, 2), vector(3, 4)]);

    assert_eq!(vector::dot(&mut stack, &HostFloat), Ok(scalar(11)));
}

#[test]
fn test_vec2() {
    let mut stack = dummy_stack(&[scalar(1), scalar(2)]);

    assert_eq!(vector::vec2(&mut stack, &HostFloat), Ok(vector(1, 2)));
}

#[test]
fn test_jump() {
    let mut stack = dummy_stack(&[vector(10, 20), point(1, 2), point(1, 2), vector(10, 20)]);

    assert_eq!(point::jump(&mut stack, &HostFloat), Ok(point(11, 22)));
    // a Vector beneath a Point is the wrong way around
    assert_eq!(point::jump(&mut stack, &HostFloat), Err(Error::TypeError));
}

#[test]
fn test_missing_arguments_are_reported() {
    let mut stack = dummy_stack(&[scalar(1)]);
    assert_eq!(basic::add(&mut stack, &HostFloat), Err(Error::MissingArgument));

    let mut empty = dummy_stack(&[]);
    assert_eq!(scalar::sqrt(&mut empty, &HostFloat), Err(Error::MissingArgument));
}

#[test]
fn test_mixed_operands_promote_to_float() {
    let mut stack = dummy_stack(&[scalar(1), scalar_f(2.0)]);
    assert_eq!(basic::add(&mut stack, &HostFloat), Ok(scalar_f(3.0)));

    let mut stack2 = dummy_stack(&[scalar_f(5.0), scalar(2)]);
    assert_eq!(basic::sub(&mut stack2, &HostFloat), Ok(scalar_f(3.0)));
}
