//! Scalars: the numeric promotion union of signed 64-bit integers and
//! IEEE-754 binary64 values, the latter carried as bit patterns.
use vstd::prelude::*;

use crate::runtime::{Error, Runtime, Stack, Value};
use crate::runtime::{res_view, Builtin, SpecError};

verus! {

/// IEEE-754 binary64 arithmetic as a capability. The verified core carries
/// floating-point values only as bit patterns and cannot compute with
/// them, so the embedder supplies the arithmetic; the program driver and
/// the tests implement it with the machine's floating point. Nothing is
/// assumed of the results beyond their being 64-bit patterns.
pub trait FloatOps {
    /// The bits of `a + b`, operands and result given as bit patterns.
    fn add_bits(&self, a: u64, b: u64) -> u64;

    /// The bits of `a - b`.
    fn sub_bits(&self, a: u64, b: u64) -> u64;

    /// The bits of `a * b`.
    fn mul_bits(&self, a: u64, b: u64) -> u64;

    /// The bits of `a / b`.
    fn div_bits(&self, a: u64, b: u64) -> u64;

    /// The bits of the square root of `a`.
    fn sqrt_bits(&self, a: u64) -> u64;

    /// The bit pattern of the 64-bit float nearest to the integer `i`.
    fn int_to_bits(&self, i: i64) -> u64;
}

/// What a scalar holds: an exact integer or float bits.
#[derive(Debug, Clone, Copy, PartialEq, Eq, Structural)]
pub enum ScalarRepr {
    Integer(i64),
    Float(u64),
}

/// A scalar value. Operations between two integers stay integers; as soon
/// as a float is involved, the result is a float.
#[derive(Debug, Clone, Copy, PartialEq, Eq, Structural)]
pub struct Scalar(pub ScalarRepr);

impl Scalar {
    /// An integer scalar.
    pub fn integer(i: i64) -> (s: Scalar)
        ensures
            s == Scalar(ScalarRepr::Integer(i)),
    {
        Scalar(ScalarRepr::Integer(i))
    }

    /// A float scalar from its IEEE-754 binary64 bit pattern.
    pub fn from_float_bits(bits: u64) -> (s: Scalar)
        ensures
            s == Scalar(ScalarRepr::Float(bits)),
    {
        Scalar(ScalarRepr::Float(bits))
    }
}

// --- What the arithmetic promises ----------------------------------------

/// Integer sums wrap; any float operand makes the result a float, whose
/// bits the embedder computed.
pub open spec fn scalar_add_rel(a: Scalar, b: Scalar, r: Scalar) -> bool {
    match (a.0, b.0) {
        (ScalarRepr::Integer(x), ScalarRepr::Integer(y)) => r == Scalar(
            ScalarRepr::Integer(x.wrapping_add(y)),
        ),
        _ => r.0 is Float,
    }
}

pub open spec fn scalar_sub_rel(a: Scalar, b: Scalar, r: Scalar) -> bool {
    match (a.0, b.0) {
        (ScalarRepr::Integer(x), ScalarRepr::Integer(y)) => r == Scalar(
            ScalarRepr::Integer(x.wrapping_sub(y)),
        ),
        _ => r.0 is Float,
    }
}

pub open spec fn scalar_mul_rel(a: Scalar, b: Scalar, r: Scalar) -> bool {
    match (a.0, b.0) {
        (ScalarRepr::Integer(x), ScalarRepr::Integer(y)) => r == Scalar(
            ScalarRepr::Integer(x.wrapping_mul(y)),
        ),
        _ => r.0 is Float,
    }
}

/// The absolute value of an integer.
pub open spec fn magnitude(x: int) -> int {
    if x < 0 {
        x * -1
    } else {
        x
    }
}

/// An integer division is exact when the divisor is nonzero, the pair is
/// not `i64::MIN / -1`, and the remainder is zero.
pub open spec fn exact_int_div(x: i64, y: i64) -> bool {
    y != 0 && !(x == i64::MIN && y == -1) && magnitude(x as int) % magnitude(y as int) == 0
}

/// Division stays an integer only when it is exact; everything else is
/// computed in floating point.
pub open spec fn scalar_div_rel(a: Scalar, b: Scalar, r: Scalar) -> bool {
    match (a.0, b.0) {
        (ScalarRepr::Integer(x), ScalarRepr::Integer(y)) => if exact_int_div(x, y) {
            x.checked_div(y) matches Some(q) && r == Scalar(ScalarRepr::Integer(q))
        } else {
            r.0 is Float
        },
        _ => r.0 is Float,
    }
}

/// A square root is always a float.
pub open spec fn scalar_sqrt_rel(a: Scalar, r: Scalar) -> bool {
    r.0 is Float
}

/// The bit pattern of a NaN: exponent all ones, fraction nonzero.
pub open spec fn float_bits_is_nan(bits: u64) -> bool {
    (bits >> 52) & 0x7ff == 0x7ff && bits & 0xf_ffff_ffff_ffff != 0
}

/// Whether the float with these bits compares `>= 0.0`: sign bit clear and
/// not a NaN, or the negative zero.
pub open spec fn float_bits_nonneg(bits: u64) -> bool {
    (bits >> 63 == 0 && !float_bits_is_nan(bits)) || bits == 0x8000_0000_0000_0000
}

/// Whether a scalar compares `>= 0`; for an integer that is its sign, for
/// float bits the IEEE-754 comparison with zero.
pub open spec fn scalar_nonneg(a: Scalar) -> bool {
    match a.0 {
        ScalarRepr::Integer(x) => x >= 0,
        ScalarRepr::Float(bits) => float_bits_nonneg(bits),
    }
}

// --- What holds of the promotion rules -----------------------------------

/// For integer operands, `add` yields exactly their integer sum whenever
/// that sum is representable.
pub proof fn lemma_integer_add_exact(x: i64, y: i64, r: Scalar)
    requires
        scalar_add_rel(Scalar(ScalarRepr::Integer(x)), Scalar(ScalarRepr::Integer(y)), r),
        i64::MIN <= x + y <= i64::MAX,
    ensures
        r == Scalar(ScalarRepr::Integer((x + y) as i64)),
{
}

/// For integer operands, `sub` yields exactly their integer difference
/// whenever it is representable.
pub proof fn lemma_integer_sub_exact(x: i64, y: i64, r: Scalar)
    requires
        scalar_sub_rel(Scalar(ScalarRepr::Integer(x)), Scalar(ScalarRepr::Integer(y)), r),
        i64::MIN <= x - y <= i64::MAX,
    ensures
        r == Scalar(ScalarRepr::Integer((x - y) as i64)),
{
}

/// For integer operands, `mul` yields exactly their integer product
/// whenever it is representable.
pub proof fn lemma_integer_mul_exact(x: i64, y: i64, r: Scalar)
    requires
        scalar_mul_rel(Scalar(ScalarRepr::Integer(x)), Scalar(ScalarRepr::Integer(y)), r),
        i64::MIN <= x * y <= i64::MAX,
    ensures
        r == Scalar(ScalarRepr::Integer((x * y) as i64)),
{
}

/// Promotion is closed: as soon as either operand of an arithmetic
/// operation is a float, the result is a float.
pub proof fn lemma_float_operand_promotes(a: Scalar, b: Scalar, r: Scalar)
    requires
        a.0 is Float || b.0 is Float,
        scalar_add_rel(a, b, r) || scalar_sub_rel(a, b, r) || scalar_mul_rel(a, b, r)
            || scalar_div_rel(a, b, r),
    ensures
        r.0 is Float,
{
}

/// For integer operands with a sensible divisor, division yields an
/// integer exactly when the divisor divides the dividend; otherwise it is
/// computed in floating point.
pub proof fn lemma_integer_div_exactness(x: i64, y: i64, r: Scalar)
    requires
        scalar_div_rel(Scalar(ScalarRepr::Integer(x)), Scalar(ScalarRepr::Integer(y)), r),
        y != 0,
        !(x == i64::MIN && y == -1),
    ensures
        (r.0 is Integer) <==> (exists|k: int| x as int == #[trigger] (y as int * k)),
{
    let xi = x as int;
    let di = y as int;
    let p = magnitude(xi);
    let q = magnitude(di);
    if exact_int_div(x, y) {
        // the remainder of the magnitudes is zero, so q divides p, and
        // with the signs put back, y divides x
        assert(p % q == 0);
        vstd::arithmetic::div_mod::lemma_fundamental_div_mod(p, q);
        let k = p / q;
        assert(p == q * k);
        if (xi < 0) == (di < 0) {
            assert(xi == di * k) by (nonlinear_arith)
                requires
                    p == q * k,
                    p == magnitude(xi),
                    q == magnitude(di),
                    (xi < 0) == (di < 0),
            ;
        } else {
            assert(xi == di * (k * -1)) by (nonlinear_arith)
                requires
                    p == q * k,
                    p == magnitude(xi),
                    q == magnitude(di),
                    (xi < 0) != (di < 0),
            ;
        }
    }
    if exists|k: int| xi == #[trigger] (di * k) {
        let k = choose|k: int| xi == #[trigger] (di * k);
        let kp = if k < 0 { k * -1 } else { k };
        assert(p == kp * q) by (nonlinear_arith)
            requires
                xi == di * k,
                di != 0,
                p == magnitude(xi),
                q == magnitude(di),
                kp == (if k < 0 { k * -1 } else { k }),
        ;
        vstd::arithmetic::div_mod::lemma_mod_multiples_basic(kp, q);
        assert(p % q == 0);
        assert(exact_int_div(x, y));
    }
}

/// When the divisor is nonzero and the pair is not `i64::MIN / -1`, the
/// truncated quotient is representable, so `checked_div` cannot fail.
proof fn lemma_exact_quotient_representable(x: i64, y: i64)
    requires
        y != 0,
        !(x == i64::MIN && y == -1),
    ensures
        x.checked_div(y) is Some,
{
    let xi = x as int;
    let di = y as int;
    if xi == 0 {
    } else if xi > 0 && di > 0 {
        vstd::arithmetic::div_mod::lemma_div_pos_is_pos(xi, di);
        vstd::arithmetic::div_mod::lemma_div_nonincreasing(xi, di);
    } else if xi < 0 && di < 0 {
        vstd::arithmetic::div_mod::lemma_div_pos_is_pos(xi * -1, di * -1);
        vstd::arithmetic::div_mod::lemma_div_nonincreasing(xi * -1, di * -1);
        if xi == i64::MIN as int {
            vstd::arithmetic::div_mod::lemma_div_is_ordered_by_denominator(xi * -1, 2, di * -1);
        }
    } else if xi < 0 {
        vstd::arithmetic::div_mod::lemma_div_pos_is_pos(xi * -1, di);
        vstd::arithmetic::div_mod::lemma_div_nonincreasing(xi * -1, di);
    } else {
        vstd::arithmetic::div_mod::lemma_div_pos_is_pos(xi, di * -1);
        vstd::arithmetic::div_mod::lemma_div_nonincreasing(xi, di * -1);
    }
}

// --- The arithmetic -------------------------------------------------------

impl Scalar {
    pub fn add<F: FloatOps>(self, rhs: Scalar, fl: &F) -> (r: Scalar)
        ensures
            scalar_add_rel(self, rhs, r),
    {
        match (self.0, rhs.0) {
            (ScalarRepr::Integer(a), ScalarRepr::Integer(b)) => Scalar(
                ScalarRepr::Integer(a.wrapping_add(b)),
            ),
            (ScalarRepr::Float(a), ScalarRepr::Float(b)) => Scalar(
                ScalarRepr::Float(fl.add_bits(a, b)),
            ),
            (ScalarRepr::Integer(a), ScalarRepr::Float(b)) => Scalar(
                ScalarRepr::Float(fl.add_bits(fl.int_to_bits(a), b)),
            ),
            (ScalarRepr::Float(a), ScalarRepr::Integer(b)) => Scalar(
                ScalarRepr::Float(fl.add_bits(a, fl.int_to_bits(b))),
            ),
        }
    }

    pub fn sub<F: FloatOps>(self, rhs: Scalar, fl: &F) -> (r: Scalar)
        ensures
            scalar_sub_rel(self, rhs, r),
    {
        match (self.0, rhs.0) {
            (ScalarRepr::Integer(a), ScalarRepr::Integer(b)) => Scalar(
                ScalarRepr::Integer(a.wrapping_sub(b)),
            ),
            (ScalarRepr::Float(a), ScalarRepr::Float(b)) => Scalar(
                ScalarRepr::Float(fl.sub_bits(a, b)),
            ),
            (ScalarRepr::Integer(a), ScalarRepr::Float(b)) => Scalar(
                ScalarRepr::Float(fl.sub_bits(fl.int_to_bits(a), b)),
            ),
            (ScalarRepr::Float(a), ScalarRepr::Integer(b)) => Scalar(
                ScalarRepr::Float(fl.sub_bits(a, fl.int_to_bits(b))),
            ),
        }
    }

    pub fn mul<F: FloatOps>(self, rhs: Scalar, fl: &F) -> (r: Scalar)
        ensures
            scalar_mul_rel(self, rhs, r),
    {
        match (self.0, rhs.0) {
            (ScalarRepr::Integer(a), ScalarRepr::Integer(b)) => Scalar(
                ScalarRepr::Integer(a.wrapping_mul(b)),
            ),
            (ScalarRepr::Float(a), ScalarRepr::Float(b)) => Scalar(
                ScalarRepr::Float(fl.mul_bits(a, b)),
            ),
            (ScalarRepr::Integer(a), ScalarRepr::Float(b)) => Scalar(
                ScalarRepr::Float(fl.mul_bits(fl.int_to_bits(a), b)),
            ),
            (ScalarRepr::Float(a), ScalarRepr::Integer(b)) => Scalar(
                ScalarRepr::Float(fl.mul_bits(a, fl.int_to_bits(b))),
            ),
        }
    }

    pub fn div<F: FloatOps>(self, rhs: Scalar, fl: &F) -> (r: Scalar)
        ensures
            scalar_div_rel(self, rhs, r),
    {
        match (self.0, rhs.0) {
            (ScalarRepr::Integer(a), ScalarRepr::Integer(b)) => {
                match a.checked_rem(b) {
                    Some(0i64) => {
                        match a.checked_div(b) {
                            Some(q) => Scalar(ScalarRepr::Integer(q)),
                            None => {
                                proof {
                                    lemma_exact_quotient_representable(a, b);
                                }
                                Scalar(
                                    ScalarRepr::Float(
                                        fl.div_bits(fl.int_to_bits(a), fl.int_to_bits(b)),
                                    ),
                                )
                            },
                        }
                    },
                    _ => Scalar(
                        ScalarRepr::Float(fl.div_bits(fl.int_to_bits(a), fl.int_to_bits(b))),
                    ),
                }
            },
            (ScalarRepr::Float(a), ScalarRepr::Float(b)) => Scalar(
                ScalarRepr::Float(fl.div_bits(a, b)),
            ),
            (ScalarRepr::Integer(a), ScalarRepr::Float(b)) => Scalar(
                ScalarRepr::Float(fl.div_bits(fl.int_to_bits(a), b)),
            ),
            (ScalarRepr::Float(a), ScalarRepr::Integer(b)) => Scalar(
                ScalarRepr::Float(fl.div_bits(a, fl.int_to_bits(b))),
            ),
        }
    }

    /// The square root, always in floating point; callers gate the sign.
    pub fn sqrt<F: FloatOps>(self, fl: &F) -> (r: Scalar)
        ensures
            scalar_sqrt_rel(self, r),
    {
        match self.0 {
            ScalarRepr::Integer(i) => Scalar(ScalarRepr::Float(fl.sqrt_bits(fl.int_to_bits(i)))),
            ScalarRepr::Float(f) => Scalar(ScalarRepr::Float(fl.sqrt_bits(f))),
        }
    }

    /// Whether this scalar compares `>= 0`, decided on the representation.
    pub fn is_nonneg(self) -> (b: bool)
        ensures
            b == scalar_nonneg(self),
    {
        match self.0 {
            ScalarRepr::Integer(x) => x >= 0,
            ScalarRepr::Float(bits) => {
                let is_nan = (bits >> 52) & 0x7ff == 0x7ff && bits & 0xf_ffff_ffff_ffff != 0;
                (bits >> 63 == 0 && !is_nan) || bits == 0x8000_0000_0000_0000
            },
        }
    }
}

/// The `sqrt` built-in: one Scalar operand; fails with `NonRealResult` on
/// a negative operand and with `TypeError` on anything else.
#[verifier::rlimit(50)]
#[verifier::spinoff_prover]
pub fn sqrt<F: FloatOps>(stack: &mut Stack, fl: &F) -> (r: Result<Value, Error>)
    ensures
        crate::stdlib::builtin_rel(
            Builtin::Sqrt,
            old(stack)@,
            final(stack)@,
            res_view(r),
        ),
{
    let x = match stack.pop() {
        Ok(v) => v,
        Err(_) => {
            return Err(Error::MissingArgument);
        },
    };
    match x {
        Value::Scalar(scalar) => {
            if scalar.is_nonneg() {
                Ok(Value::Scalar(scalar.sqrt(fl)))
            } else {
                Err(Error::NonRealResult)
            }
        },
        _ => Err(Error::TypeError),
    }
}

pub fn register(runtime: &mut Runtime)
    ensures
        final(runtime).funcs() == old(runtime).funcs().insert("sqrt"@, Builtin::Sqrt),
        final(runtime).vars() == old(runtime).vars(),
        final(runtime).eval_stack() == old(runtime).eval_stack(),
        final(runtime).emitted() == old(runtime).emitted(),
{
    runtime.define_fn("sqrt", Builtin::Sqrt);
}

} // verus!
