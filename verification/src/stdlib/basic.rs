//! The arithmetic built-ins: add, sub, mul, div over scalars, points and
//! vectors, with the promotion rules of the value model.
use vstd::prelude::*;

use crate::runtime::{res_view, Builtin, Error, Runtime, Stack, Value};
use crate::stdlib::scalar::FloatOps;

verus! {

/// The `add` built-in: Scalar+Scalar, Vector+Vector, and Point+Vector in
/// either order.
#[verifier::rlimit(50)]
#[verifier::spinoff_prover]
pub fn add<F: FloatOps>(stack: &mut Stack, fl: &F) -> (r: Result<Value, Error>)
    ensures
        crate::stdlib::builtin_rel(Builtin::Add, old(stack)@, final(stack)@, res_view(r)),
{
    let b = match stack.pop() {
        Ok(v) => v,
        Err(_) => {
            proof {
                assert(stack@ =~= Seq::<Value>::empty());
            }
            return Err(Error::MissingArgument);
        },
    };
    let a = match stack.pop() {
        Ok(v) => v,
        Err(_) => {
            proof {
                assert(stack@ =~= Seq::<Value>::empty());
            }
            return Err(Error::MissingArgument);
        },
    };
    proof {
        assert(stack@ =~= old(stack)@.take(old(stack)@.len() - 2));
    }
    match (a, b) {
        (Value::Scalar(x), Value::Scalar(y)) => Ok(Value::Scalar(x.add(y, fl))),
        (Value::Vector(x), Value::Vector(y)) => Ok(Value::Vector(x.add(y, fl))),
        (Value::Vector(vec), Value::Point(pnt)) => Ok(Value::Point(pnt.add(vec, fl))),
        (Value::Point(pnt), Value::Vector(vec)) => Ok(Value::Point(pnt.add(vec, fl))),
        _ => Err(Error::TypeError),
    }
}

/// The `sub` built-in: Scalar-Scalar, Vector-Vector, Point-Point (a
/// vector), and Point-Vector.
#[verifier::rlimit(50)]
#[verifier::spinoff_prover]
pub fn sub<F: FloatOps>(stack: &mut Stack, fl: &F) -> (r: Result<Value, Error>)
    ensures
        crate::stdlib::builtin_rel(Builtin::Sub, old(stack)@, final(stack)@, res_view(r)),
{
    let b = match stack.pop() {
        Ok(v) => v,
        Err(_) => {
            proof {
                assert(stack@ =~= Seq::<Value>::empty());
            }
            return Err(Error::MissingArgument);
        },
    };
    let a = match stack.pop() {
        Ok(v) => v,
        Err(_) => {
            proof {
                assert(stack@ =~= Seq::<Value>::empty());
            }
            return Err(Error::MissingArgument);
        },
    };
    proof {
        assert(stack@ =~= old(stack)@.take(old(stack)@.len() - 2));
    }
    match (a, b) {
        (Value::Scalar(x), Value::Scalar(y)) => Ok(Value::Scalar(x.sub(y, fl))),
        (Value::Vector(x), Value::Vector(y)) => Ok(Value::Vector(x.sub(y, fl))),
        (Value::Point(x), Value::Point(y)) => Ok(Value::Vector(x.sub_point(y, fl))),
        (Value::Point(pnt), Value::Vector(vec)) => Ok(Value::Point(pnt.sub(vec, fl))),
        _ => Err(Error::TypeError),
    }
}

/// The `mul` built-in: Scalar*Scalar, and Vector*Scalar in either order
/// (scaling).
#[verifier::rlimit(50)]
#[verifier::spinoff_prover]
pub fn mul<F: FloatOps>(stack: &mut Stack, fl: &F) -> (r: Result<Value, Error>)
    ensures
        crate::stdlib::builtin_rel(Builtin::Mul, old(stack)@, final(stack)@, res_view(r)),
{
    let b = match stack.pop() {
        Ok(v) => v,
        Err(_) => {
            proof {
                assert(stack@ =~= Seq::<Value>::empty());
            }
            return Err(Error::MissingArgument);
        },
    };
    let a = match stack.pop() {
        Ok(v) => v,
        Err(_) => {
            proof {
                assert(stack@ =~= Seq::<Value>::empty());
            }
            return Err(Error::MissingArgument);
        },
    };
    proof {
        assert(stack@ =~= old(stack)@.take(old(stack)@.len() - 2));
    }
    match (a, b) {
        (Value::Scalar(x), Value::Scalar(y)) => Ok(Value::Scalar(x.mul(y, fl))),
        (Value::Vector(vec), Value::Scalar(s)) => Ok(Value::Vector(vec.mul(s, fl))),
        (Value::Scalar(s), Value::Vector(vec)) => Ok(Value::Vector(vec.mul(s, fl))),
        _ => Err(Error::TypeError),
    }
}

/// The `div` built-in: Scalar/Scalar, and Vector/Scalar.
#[verifier::rlimit(50)]
#[verifier::spinoff_prover]
pub fn div<F: FloatOps>(stack: &mut Stack, fl: &F) -> (r: Result<Value, Error>)
    ensures
        crate::stdlib::builtin_rel(Builtin::Div, old(stack)@, final(stack)@, res_view(r)),
{
    let b = match stack.pop() {
        Ok(v) => v,
        Err(_) => {
            proof {
                assert(stack@ =~= Seq::<Value>::empty());
            }
            return Err(Error::MissingArgument);
        },
    };
    let a = match stack.pop() {
        Ok(v) => v,
        Err(_) => {
            proof {
                assert(stack@ =~= Seq::<Value>::empty());
            }
            return Err(Error::MissingArgument);
        },
    };
    proof {
        assert(stack@ =~= old(stack)@.take(old(stack)@.len() - 2));
    }
    match (a, b) {
        (Value::Scalar(x), Value::Scalar(y)) => Ok(Value::Scalar(x.div(y, fl))),
        (Value::Vector(vec), Value::Scalar(s)) => Ok(Value::Vector(vec.div(s, fl))),
        _ => Err(Error::TypeError),
    }
}

pub fn register(runtime: &mut Runtime)
    ensures
        final(runtime).funcs() == old(runtime).funcs().insert("add"@, Builtin::Add).insert(
            "sub"@,
            Builtin::Sub,
        ).insert("mul"@, Builtin::Mul).insert("div"@, Builtin::Div),
        final(runtime).vars() == old(runtime).vars(),
        final(runtime).eval_stack() == old(runtime).eval_stack(),
        final(runtime).emitted() == old(runtime).emitted(),
{
    runtime.define_fn("add", Builtin::Add);
    runtime.define_fn("sub", Builtin::Sub);
    runtime.define_fn("mul", Builtin::Mul);
    runtime.define_fn("div", Builtin::Div);
}

} // verus!
