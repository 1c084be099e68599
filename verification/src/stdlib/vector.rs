//! Vectors: displacements in the plane, two scalar components.
use vstd::prelude::*;

use crate::runtime::{res_view, Builtin, Error, Runtime, Stack, Value};
use crate::stdlib::scalar::{
    scalar_add_rel, scalar_div_rel, scalar_mul_rel, scalar_sub_rel, FloatOps, Scalar,
};

verus! {

/// A displacement with two scalar components.
#[derive(Debug, Clone, Copy, PartialEq, Eq, Structural)]
pub struct Vector {
    pub x: Scalar,
    pub y: Scalar,
}

pub open spec fn vector_add_rel(a: Vector, b: Vector, r: Vector) -> bool {
    scalar_add_rel(a.x, b.x, r.x) && scalar_add_rel(a.y, b.y, r.y)
}

pub open spec fn vector_sub_rel(a: Vector, b: Vector, r: Vector) -> bool {
    scalar_sub_rel(a.x, b.x, r.x) && scalar_sub_rel(a.y, b.y, r.y)
}

/// Scaling multiplies each component by the scalar.
pub open spec fn vector_scale_rel(a: Vector, s: Scalar, r: Vector) -> bool {
    scalar_mul_rel(a.x, s, r.x) && scalar_mul_rel(a.y, s, r.y)
}

pub open spec fn vector_div_rel(a: Vector, s: Scalar, r: Vector) -> bool {
    scalar_div_rel(a.x, s, r.x) && scalar_div_rel(a.y, s, r.y)
}

/// The dot product: the sum of the componentwise products.
pub open spec fn dot_rel(a: Vector, b: Vector, r: Scalar) -> bool {
    exists|mx: Scalar, my: Scalar|
        {
            &&& #[trigger] scalar_mul_rel(a.x, b.x, mx)
            &&& #[trigger] scalar_mul_rel(a.y, b.y, my)
            &&& scalar_add_rel(mx, my, r)
        }
}

impl Vector {
    pub fn add<F: FloatOps>(self, rhs: Vector, fl: &F) -> (r: Vector)
        ensures
            vector_add_rel(self, rhs, r),
    {
        Vector { x: self.x.add(rhs.x, fl), y: self.y.add(rhs.y, fl) }
    }

    pub fn sub<F: FloatOps>(self, rhs: Vector, fl: &F) -> (r: Vector)
        ensures
            vector_sub_rel(self, rhs, r),
    {
        Vector { x: self.x.sub(rhs.x, fl), y: self.y.sub(rhs.y, fl) }
    }

    pub fn mul<F: FloatOps>(self, rhs: Scalar, fl: &F) -> (r: Vector)
        ensures
            vector_scale_rel(self, rhs, r),
    {
        Vector { x: self.x.mul(rhs, fl), y: self.y.mul(rhs, fl) }
    }

    pub fn div<F: FloatOps>(self, rhs: Scalar, fl: &F) -> (r: Vector)
        ensures
            vector_div_rel(self, rhs, r),
    {
        Vector { x: self.x.div(rhs, fl), y: self.y.div(rhs, fl) }
    }
}

/// The `dot` built-in: two Vector operands, their dot product.
#[verifier::rlimit(50)]
#[verifier::spinoff_prover]
pub fn dot<F: FloatOps>(stack: &mut Stack, fl: &F) -> (r: Result<Value, Error>)
    ensures
        crate::stdlib::builtin_rel(Builtin::Dot, old(stack)@, final(stack)@, res_view(r)),
{
    let rhs = match stack.pop() {
        Ok(v) => v,
        Err(_) => {
            proof {
                assert(stack@ =~= Seq::<Value>::empty());
            }
            return Err(Error::MissingArgument);
        },
    };
    let lhs = match stack.pop() {
        Ok(v) => v,
        Err(_) => {
            proof {
                assert(stack@ =~= Seq::<Value>::empty());
            }
            return Err(Error::MissingArgument);
        },
    };
    proof {
        assert(stack@ =~= old(stack)@.take(old(stack)@.len() - 2));
    }
    match (lhs, rhs) {
        (Value::Vector(a), Value::Vector(b)) => {
            let mx = a.x.mul(b.x, fl);
            let my = a.y.mul(b.y, fl);
            Ok(Value::Scalar(mx.add(my, fl)))
        },
        _ => Err(Error::TypeError),
    }
}

/// The `vec2` built-in: two Scalar operands x and y, the vector (x, y).
#[verifier::rlimit(50)]
#[verifier::spinoff_prover]
pub fn vec2<F: FloatOps>(stack: &mut Stack, fl: &F) -> (r: Result<Value, Error>)
    ensures
        crate::stdlib::builtin_rel(Builtin::Vec2, old(stack)@, final(stack)@, res_view(r)),
{
    let y = match stack.pop() {
        Ok(v) => v,
        Err(_) => {
            proof {
                assert(stack@ =~= Seq::<Value>::empty());
            }
            return Err(Error::MissingArgument);
        },
    };
    let x = match stack.pop() {
        Ok(v) => v,
        Err(_) => {
            proof {
                assert(stack@ =~= Seq::<Value>::empty());
            }
            return Err(Error::MissingArgument);
        },
    };
    proof {
        assert(stack@ =~= old(stack)@.take(old(stack)@.len() - 2));
    }
    match (x, y) {
        (Value::Scalar(x), Value::Scalar(y)) => Ok(Value::Vector(Vector { x, y })),
        _ => Err(Error::TypeError),
    }
}

pub fn register(runtime: &mut Runtime)
    ensures
        final(runtime).funcs() == old(runtime).funcs().insert("dot"@, Builtin::Dot).insert(
            "vec2"@,
            Builtin::Vec2,
        ),
        final(runtime).vars() == old(runtime).vars(),
        final(runtime).eval_stack() == old(runtime).eval_stack(),
        final(runtime).emitted() == old(runtime).emitted(),
{
    runtime.define_fn("dot", Builtin::Dot);
    runtime.define_fn("vec2", Builtin::Vec2);
}

} // verus!
