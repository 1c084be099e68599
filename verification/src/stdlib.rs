//! The built-in function library: what each built-in does to the stack,
//! and the registration of the whole set into a runtime.
use vstd::prelude::*;

pub mod basic;
pub mod point;
pub mod scalar;
pub mod vector;

pub use point::Point;
pub use scalar::Scalar;
pub use vector::Vector;

use crate::runtime::{res_view, Builtin, Error, Runtime, SpecError, Stack, Value};
use crate::stdlib::point::{point_add_vec_rel, point_sub_point_rel, point_sub_vec_rel};
use crate::stdlib::scalar::{
    scalar_add_rel, scalar_div_rel, scalar_mul_rel, scalar_nonneg, scalar_sqrt_rel,
    scalar_sub_rel, FloatOps,
};
use crate::stdlib::vector::{
    dot_rel, vector_add_rel, vector_div_rel, vector_scale_rel, vector_sub_rel,
};

verus! {

// --- What each built-in does to the stack ---------------------------------
//
// Operands are popped from the top: for a two-operand built-in the operand
// declared last is popped first, so `a` is the deeper value and `b` the
// top. Too few operands fail with `MissingArgument` after the available
// ones are consumed.

/// A built-in of two operands: both popped, then the value relation
/// decides the result.
pub open spec fn two_op_rel(
    pre: Seq<Value>,
    post: Seq<Value>,
    r: Result<Value, SpecError>,
    vrel: spec_fn(Value, Value, Result<Value, SpecError>) -> bool,
) -> bool {
    if pre.len() < 2 {
        post == Seq::<Value>::empty() && r == Err::<Value, SpecError>(SpecError::MissingArgument)
    } else {
        post == pre.take(pre.len() - 2) && vrel(pre[pre.len() - 2], pre.last(), r)
    }
}

/// A built-in of one operand.
pub open spec fn one_op_rel(
    pre: Seq<Value>,
    post: Seq<Value>,
    r: Result<Value, SpecError>,
    vrel: spec_fn(Value, Result<Value, SpecError>) -> bool,
) -> bool {
    if pre.len() < 1 {
        post == pre && r == Err::<Value, SpecError>(SpecError::MissingArgument)
    } else {
        post == pre.drop_last() && vrel(pre.last(), r)
    }
}

pub open spec fn add_vrel(a: Value, b: Value, r: Result<Value, SpecError>) -> bool {
    match (a, b) {
        (Value::Scalar(x), Value::Scalar(y)) => r matches Ok(Value::Scalar(z))
            && scalar_add_rel(x, y, z),
        (Value::Vector(x), Value::Vector(y)) => r matches Ok(Value::Vector(z))
            && vector_add_rel(x, y, z),
        (Value::Vector(v), Value::Point(p)) => r matches Ok(Value::Point(q)) && point_add_vec_rel(
            p,
            v,
            q,
        ),
        (Value::Point(p), Value::Vector(v)) => r matches Ok(Value::Point(q)) && point_add_vec_rel(
            p,
            v,
            q,
        ),
        _ => r == Err::<Value, SpecError>(SpecError::TypeError),
    }
}

pub open spec fn sub_vrel(a: Value, b: Value, r: Result<Value, SpecError>) -> bool {
    match (a, b) {
        (Value::Scalar(x), Value::Scalar(y)) => r matches Ok(Value::Scalar(z))
            && scalar_sub_rel(x, y, z),
        (Value::Vector(x), Value::Vector(y)) => r matches Ok(Value::Vector(z))
            && vector_sub_rel(x, y, z),
        (Value::Point(x), Value::Point(y)) => r matches Ok(Value::Vector(z))
            && point_sub_point_rel(x, y, z),
        (Value::Point(p), Value::Vector(v)) => r matches Ok(Value::Point(q)) && point_sub_vec_rel(
            p,
            v,
            q,
        ),
        _ => r == Err::<Value, SpecError>(SpecError::TypeError),
    }
}

pub open spec fn mul_vrel(a: Value, b: Value, r: Result<Value, SpecError>) -> bool {
    match (a, b) {
        (Value::Scalar(x), Value::Scalar(y)) => r matches Ok(Value::Scalar(z))
            && scalar_mul_rel(x, y, z),
        (Value::Vector(v), Value::Scalar(s)) => r matches Ok(Value::Vector(z))
            && vector_scale_rel(v, s, z),
        (Value::Scalar(s), Value::Vector(v)) => r matches Ok(Value::Vector(z))
            && vector_scale_rel(v, s, z),
        _ => r == Err::<Value, SpecError>(SpecError::TypeError),
    }
}

pub open spec fn div_vrel(a: Value, b: Value, r: Result<Value, SpecError>) -> bool {
    match (a, b) {
        (Value::Scalar(x), Value::Scalar(y)) => r matches Ok(Value::Scalar(z))
            && scalar_div_rel(x, y, z),
        (Value::Vector(v), Value::Scalar(s)) => r matches Ok(Value::Vector(z)) && vector_div_rel(
            v,
            s,
            z,
        ),
        _ => r == Err::<Value, SpecError>(SpecError::TypeError),
    }
}

pub open spec fn pnt2_vrel(a: Value, b: Value, r: Result<Value, SpecError>) -> bool {
    match (a, b) {
        (Value::Scalar(x), Value::Scalar(y)) => r == Ok::<Value, SpecError>(
            Value::Point(Point { x, y }),
        ),
        _ => r == Err::<Value, SpecError>(SpecError::TypeError),
    }
}

pub open spec fn vec2_vrel(a: Value, b: Value, r: Result<Value, SpecError>) -> bool {
    match (a, b) {
        (Value::Scalar(x), Value::Scalar(y)) => r == Ok::<Value, SpecError>(
            Value::Vector(Vector { x, y }),
        ),
        _ => r == Err::<Value, SpecError>(SpecError::TypeError),
    }
}

pub open spec fn lvec_vrel(v: Value, r: Result<Value, SpecError>) -> bool {
    match v {
        Value::Point(p) => r == Ok::<Value, SpecError>(Value::Vector(Vector { x: p.x, y: p.y })),
        _ => r == Err::<Value, SpecError>(SpecError::TypeError),
    }
}

pub open spec fn coord_x_vrel(v: Value, r: Result<Value, SpecError>) -> bool {
    match v {
        Value::Point(p) => r == Ok::<Value, SpecError>(Value::Scalar(p.x)),
        Value::Vector(w) => r == Ok::<Value, SpecError>(Value::Scalar(w.x)),
        _ => r == Err::<Value, SpecError>(SpecError::TypeError),
    }
}

pub open spec fn coord_y_vrel(v: Value, r: Result<Value, SpecError>) -> bool {
    match v {
        Value::Point(p) => r == Ok::<Value, SpecError>(Value::Scalar(p.y)),
        Value::Vector(w) => r == Ok::<Value, SpecError>(Value::Scalar(w.y)),
        _ => r == Err::<Value, SpecError>(SpecError::TypeError),
    }
}

/// `sqrt` succeeds exactly on operands that compare `>= 0`.
pub open spec fn sqrt_vrel(v: Value, r: Result<Value, SpecError>) -> bool {
    match v {
        Value::Scalar(s) => if scalar_nonneg(s) {
            r matches Ok(Value::Scalar(z)) && scalar_sqrt_rel(s, z)
        } else {
            r == Err::<Value, SpecError>(SpecError::NonRealResult)
        },
        _ => r == Err::<Value, SpecError>(SpecError::TypeError),
    }
}

pub open spec fn dot_vrel(a: Value, b: Value, r: Result<Value, SpecError>) -> bool {
    match (a, b) {
        (Value::Vector(x), Value::Vector(y)) => r matches Ok(Value::Scalar(z)) && dot_rel(
            x,
            y,
            z,
        ),
        _ => r == Err::<Value, SpecError>(SpecError::TypeError),
    }
}

/// `line` takes two Points and yields the Line from the first through the
/// second, kept as origin and direction.
pub open spec fn line_vrel(a: Value, b: Value, r: Result<Value, SpecError>) -> bool {
    match (a, b) {
        (Value::Point(p1), Value::Point(p2)) => r matches Ok(Value::Line(o, d)) && o == p1
            && point_sub_point_rel(p2, p1, d),
        _ => r == Err::<Value, SpecError>(SpecError::TypeError),
    }
}

/// `jump` takes a Point beneath a Vector and yields the Point displaced
/// by the Vector.
pub open spec fn jump_vrel(a: Value, b: Value, r: Result<Value, SpecError>) -> bool {
    match (a, b) {
        (Value::Point(p), Value::Vector(v)) => r matches Ok(Value::Point(q))
            && point_add_vec_rel(p, v, q),
        _ => r == Err::<Value, SpecError>(SpecError::TypeError),
    }
}

/// What each built-in does: the stack before and after, and the result.
pub open spec fn builtin_rel(
    f: Builtin,
    pre: Seq<Value>,
    post: Seq<Value>,
    r: Result<Value, SpecError>,
) -> bool {
    match f {
        Builtin::Add => two_op_rel(pre, post, r, |a: Value, b: Value, rr| add_vrel(a, b, rr)),
        Builtin::Sub => two_op_rel(pre, post, r, |a: Value, b: Value, rr| sub_vrel(a, b, rr)),
        Builtin::Mul => two_op_rel(pre, post, r, |a: Value, b: Value, rr| mul_vrel(a, b, rr)),
        Builtin::Div => two_op_rel(pre, post, r, |a: Value, b: Value, rr| div_vrel(a, b, rr)),
        Builtin::Pnt2 => two_op_rel(pre, post, r, |a: Value, b: Value, rr| pnt2_vrel(a, b, rr)),
        Builtin::Vec2 => two_op_rel(pre, post, r, |a: Value, b: Value, rr| vec2_vrel(a, b, rr)),
        Builtin::Lvec => one_op_rel(pre, post, r, |v: Value, rr| lvec_vrel(v, rr)),
        Builtin::CoordX => one_op_rel(pre, post, r, |v: Value, rr| coord_x_vrel(v, rr)),
        Builtin::CoordY => one_op_rel(pre, post, r, |v: Value, rr| coord_y_vrel(v, rr)),
        Builtin::Jump => two_op_rel(pre, post, r, |a: Value, b: Value, rr| jump_vrel(a, b, rr)),
        Builtin::Dot => two_op_rel(pre, post, r, |a: Value, b: Value, rr| dot_vrel(a, b, rr)),
        Builtin::Sqrt => one_op_rel(pre, post, r, |v: Value, rr| sqrt_vrel(v, rr)),
        Builtin::Line => two_op_rel(pre, post, r, |a: Value, b: Value, rr| line_vrel(a, b, rr)),
    }
}

/// The `line` built-in, available for registration with `define_fn`; the
/// default table leaves it out because no built-in of the current
/// language produces a drawable Line.
#[verifier::rlimit(50)]
#[verifier::spinoff_prover]
pub fn line<F: FloatOps>(stack: &mut Stack, fl: &F) -> (r: Result<Value, Error>)
    ensures
        builtin_rel(Builtin::Line, old(stack)@, final(stack)@, res_view(r)),
{
    let b = match stack.pop() {
        Ok(v) => v,
        Err(_) => {
            proof {
                assert(stack@ =~= Seq::<Value>::empty());
            }
            return Err(Error::MissingArgument);
        },
    };
    let a = match stack.pop() {
        Ok(v) => v,
        Err(_) => {
            proof {
                assert(stack@ =~= Seq::<Value>::empty());
            }
            return Err(Error::MissingArgument);
        },
    };
    proof {
        assert(stack@ =~= old(stack)@.take(old(stack)@.len() - 2));
    }
    match (a, b) {
        (Value::Point(p1), Value::Point(p2)) => Ok(Value::Line(p1, p2.sub_point(p1, fl))),
        _ => Err(Error::TypeError),
    }
}

/// Run one built-in on the stack.
pub fn call_builtin<F: FloatOps>(function: Builtin, stack: &mut Stack, fl: &F) -> (r: Result<
    Value,
    Error,
>)
    ensures
        builtin_rel(function, old(stack)@, final(stack)@, res_view(r)),
{
    match function {
        Builtin::Add => basic::add(stack, fl),
        Builtin::Sub => basic::sub(stack, fl),
        Builtin::Mul => basic::mul(stack, fl),
        Builtin::Div => basic::div(stack, fl),
        Builtin::Pnt2 => point::pnt2(stack, fl),
        Builtin::Vec2 => vector::vec2(stack, fl),
        Builtin::Lvec => point::lvec(stack, fl),
        Builtin::CoordX => point::x(stack, fl),
        Builtin::CoordY => point::y(stack, fl),
        Builtin::Jump => point::jump(stack, fl),
        Builtin::Dot => vector::dot(stack, fl),
        Builtin::Sqrt => scalar::sqrt(stack, fl),
        Builtin::Line => line(stack, fl),
    }
}

/// The function table the whole library registers.
pub open spec fn spec_stdlib_table() -> Map<Seq<char>, Builtin> {
    Map::<Seq<char>, Builtin>::empty().insert("add"@, Builtin::Add).insert(
        "sub"@,
        Builtin::Sub,
    ).insert("mul"@, Builtin::Mul).insert("div"@, Builtin::Div).insert(
        "dot"@,
        Builtin::Dot,
    ).insert("vec2"@, Builtin::Vec2).insert("pnt2"@, Builtin::Pnt2).insert(
        "lvec"@,
        Builtin::Lvec,
    ).insert("x"@, Builtin::CoordX).insert("y"@, Builtin::CoordY).insert(
        "jump"@,
        Builtin::Jump,
    ).insert("sqrt"@, Builtin::Sqrt)
}

/// Register every built-in of the library into a runtime.
pub fn register(runtime: &mut Runtime)
    ensures
        final(runtime).funcs() == old(runtime).funcs().union_prefer_right(spec_stdlib_table()),
        final(runtime).vars() == old(runtime).vars(),
        final(runtime).eval_stack() == old(runtime).eval_stack(),
        final(runtime).emitted() == old(runtime).emitted(),
{
    basic::register(runtime);
    vector::register(runtime);
    point::register(runtime);
    scalar::register(runtime);
    proof {
        assert(runtime.funcs() =~= old(runtime).funcs().union_prefer_right(
            spec_stdlib_table(),
        ));
    }
}

} // verus!
