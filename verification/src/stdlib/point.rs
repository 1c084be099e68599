//! Points: positions in the plane, two scalar coordinates.
use vstd::prelude::*;

use crate::runtime::{res_view, Builtin, Error, Runtime, Stack, Value};
use crate::stdlib::scalar::{scalar_add_rel, scalar_sub_rel, FloatOps, Scalar};
use crate::stdlib::vector::Vector;

verus! {

/// A position with two scalar coordinates.
#[derive(Debug, Clone, Copy, PartialEq, Eq, Structural)]
pub struct Point {
    pub x: Scalar,
    pub y: Scalar,
}

/// A point displaced by a vector is a point.
pub open spec fn point_add_vec_rel(p: Point, v: Vector, r: Point) -> bool {
    scalar_add_rel(p.x, v.x, r.x) && scalar_add_rel(p.y, v.y, r.y)
}

/// A point moved back by a vector is a point.
pub open spec fn point_sub_vec_rel(p: Point, v: Vector, r: Point) -> bool {
    scalar_sub_rel(p.x, v.x, r.x) && scalar_sub_rel(p.y, v.y, r.y)
}

/// The difference of two points is the vector from the second to the
/// first.
pub open spec fn point_sub_point_rel(a: Point, b: Point, r: Vector) -> bool {
    scalar_sub_rel(a.x, b.x, r.x) && scalar_sub_rel(a.y, b.y, r.y)
}

impl Point {
    pub fn add<F: FloatOps>(self, rhs: Vector, fl: &F) -> (r: Point)
        ensures
            point_add_vec_rel(self, rhs, r),
    {
        Point { x: self.x.add(rhs.x, fl), y: self.y.add(rhs.y, fl) }
    }

    pub fn sub<F: FloatOps>(self, rhs: Vector, fl: &F) -> (r: Point)
        ensures
            point_sub_vec_rel(self, rhs, r),
    {
        Point { x: self.x.sub(rhs.x, fl), y: self.y.sub(rhs.y, fl) }
    }

    pub fn sub_point<F: FloatOps>(self, rhs: Point, fl: &F) -> (r: Vector)
        ensures
            point_sub_point_rel(self, rhs, r),
    {
        Vector { x: self.x.sub(rhs.x, fl), y: self.y.sub(rhs.y, fl) }
    }
}

/// The `pnt2` built-in: two Scalar operands x and y, the point (x, y).
#[verifier::rlimit(50)]
#[verifier::spinoff_prover]
pub fn pnt2<F: FloatOps>(stack: &mut Stack, fl: &F) -> (r: Result<Value, Error>)
    ensures
        crate::stdlib::builtin_rel(Builtin::Pnt2, old(stack)@, final(stack)@, res_view(r)),
{
    let y = match stack.pop() {
        Ok(v) => v,
        Err(_) => {
            proof {
                assert(stack@ =~= Seq::<Value>::empty());
            }
            return Err(Error::MissingArgument);
        },
    };
    let x = match stack.pop() {
        Ok(v) => v,
        Err(_) => {
            proof {
                assert(stack@ =~= Seq::<Value>::empty());
            }
            return Err(Error::MissingArgument);
        },
    };
    proof {
        assert(stack@ =~= old(stack)@.take(old(stack)@.len() - 2));
    }
    match (x, y) {
        (Value::Scalar(x), Value::Scalar(y)) => Ok(Value::Point(Point { x, y })),
        _ => Err(Error::TypeError),
    }
}

/// The `lvec` built-in: one Point operand, the vector with its
/// coordinates.
#[verifier::rlimit(50)]
#[verifier::spinoff_prover]
pub fn lvec<F: FloatOps>(stack: &mut Stack, fl: &F) -> (r: Result<Value, Error>)
    ensures
        crate::stdlib::builtin_rel(Builtin::Lvec, old(stack)@, final(stack)@, res_view(r)),
{
    let pnt = match stack.pop() {
        Ok(v) => v,
        Err(_) => {
            return Err(Error::MissingArgument);
        },
    };
    match pnt {
        Value::Point(pnt) => Ok(Value::Vector(Vector { x: pnt.x, y: pnt.y })),
        _ => Err(Error::TypeError),
    }
}

/// The `x` built-in: the first coordinate of a Point or Vector.
#[verifier::rlimit(50)]
#[verifier::spinoff_prover]
pub fn x<F: FloatOps>(stack: &mut Stack, fl: &F) -> (r: Result<Value, Error>)
    ensures
        crate::stdlib::builtin_rel(Builtin::CoordX, old(stack)@, final(stack)@, res_view(r)),
{
    let pnt = match stack.pop() {
        Ok(v) => v,
        Err(_) => {
            return Err(Error::MissingArgument);
        },
    };
    match pnt {
        Value::Point(pnt) => Ok(Value::Scalar(pnt.x)),
        Value::Vector(vec) => Ok(Value::Scalar(vec.x)),
        _ => Err(Error::TypeError),
    }
}

/// The `y` built-in: the second coordinate of a Point or Vector.
#[verifier::rlimit(50)]
#[verifier::spinoff_prover]
pub fn y<F: FloatOps>(stack: &mut Stack, fl: &F) -> (r: Result<Value, Error>)
    ensures
        crate::stdlib::builtin_rel(Builtin::CoordY, old(stack)@, final(stack)@, res_view(r)),
{
    let pnt = match stack.pop() {
        Ok(v) => v,
        Err(_) => {
            return Err(Error::MissingArgument);
        },
    };
    match pnt {
        Value::Point(pnt) => Ok(Value::Scalar(pnt.y)),
        Value::Vector(vec) => Ok(Value::Scalar(vec.y)),
        _ => Err(Error::TypeError),
    }
}

/// The `jump` built-in: a Point beneath a Vector, the Vector on top; the
/// Point displaced by the Vector.
#[verifier::rlimit(50)]
#[verifier::spinoff_prover]
pub fn jump<F: FloatOps>(stack: &mut Stack, fl: &F) -> (r: Result<Value, Error>)
    ensures
        crate::stdlib::builtin_rel(Builtin::Jump, old(stack)@, final(stack)@, res_view(r)),
{
    let vec = match stack.pop() {
        Ok(v) => v,
        Err(_) => {
            proof {
                assert(stack@ =~= Seq::<Value>::empty());
            }
            return Err(Error::MissingArgument);
        },
    };
    let previous = match stack.pop() {
        Ok(v) => v,
        Err(_) => {
            proof {
                assert(stack@ =~= Seq::<Value>::empty());
            }
            return Err(Error::MissingArgument);
        },
    };
    proof {
        assert(stack@ =~= old(stack)@.take(old(stack)@.len() - 2));
    }
    match (previous, vec) {
        (Value::Point(previous), Value::Vector(vec)) => Ok(Value::Point(previous.add(vec, fl))),
        _ => Err(Error::TypeError),
    }
}

pub fn register(runtime: &mut Runtime)
    ensures
        final(runtime).funcs() == old(runtime).funcs().insert("pnt2"@, Builtin::Pnt2).insert(
            "lvec"@,
            Builtin::Lvec,
        ).insert("x"@, Builtin::CoordX).insert("y"@, Builtin::CoordY).insert(
            "jump"@,
            Builtin::Jump,
        ),
        final(runtime).vars() == old(runtime).vars(),
        final(runtime).eval_stack() == old(runtime).eval_stack(),
        final(runtime).emitted() == old(runtime).emitted(),
{
    runtime.define_fn("pnt2", Builtin::Pnt2);
    runtime.define_fn("lvec", Builtin::Lvec);
    runtime.define_fn("x", Builtin::CoordX);
    runtime.define_fn("y", Builtin::CoordY);
    runtime.define_fn("jump", Builtin::Jump);
}

} // verus!
