//! The stack evaluator: walks a parsed program, keeps an evaluation stack,
//! a variable environment and a function table, and buffers the draw
//! commands that drawable results produce.
use vstd::prelude::*;

use crate::ast::{
    lemma_view_args_props, view_arg, view_args, view_content, view_expr, view_exprs,
    view_instruction, view_program, Argument, ExpressionContent, Instruction, Literal, Program,
    SpecArgument, SpecContent, SpecExpression,
};
use crate::output::{spec_draw_command, value_to_draw_command, DrawCommand};
use crate::stdlib;
use crate::stdlib::builtin_rel;
use crate::stdlib::scalar::{FloatOps, Scalar, ScalarRepr};
use crate::stdlib::{Point, Vector};
use crate::token::Number;

verus! {

/// A runtime value. `Void` is the absence of a value and is never pushed
/// onto the evaluation stack.
#[derive(Debug, Clone, Copy, PartialEq, Eq, Structural)]
pub enum Value {
    Void,
    Scalar(Scalar),
    Point(Point),
    Vector(Vector),
    Line(Point, Vector),
}

/// The closed set of built-in operations a function table can hold,
/// dispatched by one evaluator switch.
#[derive(Debug, Clone, Copy, PartialEq, Eq, Structural)]
pub enum Builtin {
    Add,
    Sub,
    Mul,
    Div,
    Pnt2,
    Vec2,
    Lvec,
    CoordX,
    CoordY,
    Jump,
    Dot,
    Sqrt,
    Line,
}

/// The ways evaluation can fail. Evaluation errors carry no source
/// position.
#[derive(Debug, PartialEq, Eq)]
pub enum Error {
    StackUnderflow,
    InvalidArgument,
    VariableNotFound(String),
    FunctionNotFound(String),
    TypeError,
    IntLiteralTooLarge,
    MissingArgument,
    NonRealResult,
}

/// The evaluation errors as contracts see them.
pub ghost enum SpecError {
    StackUnderflow,
    InvalidArgument,
    VariableNotFound(Seq<char>),
    FunctionNotFound(Seq<char>),
    TypeError,
    IntLiteralTooLarge,
    MissingArgument,
    NonRealResult,
}

impl View for Error {
    type V = SpecError;

    open spec fn view(&self) -> SpecError {
        match self {
            Error::StackUnderflow => SpecError::StackUnderflow,
            Error::InvalidArgument => SpecError::InvalidArgument,
            Error::VariableNotFound(name) => SpecError::VariableNotFound(name@),
            Error::FunctionNotFound(name) => SpecError::FunctionNotFound(name@),
            Error::TypeError => SpecError::TypeError,
            Error::IntLiteralTooLarge => SpecError::IntLiteralTooLarge,
            Error::MissingArgument => SpecError::MissingArgument,
            Error::NonRealResult => SpecError::NonRealResult,
        }
    }
}

pub open spec fn res_view(r: Result<Value, Error>) -> Result<Value, SpecError> {
    match r {
        Ok(v) => Ok(v),
        Err(e) => Err(e@),
    }
}

pub open spec fn unit_view(r: Result<(), Error>) -> Result<(), SpecError> {
    match r {
        Ok(_) => Ok(()),
        Err(e) => Err(e@),
    }
}

// --- The evaluation stack -------------------------------------------------

/// The evaluation stack: values passed into function calls and consumed
/// by `let` without an initializer.
pub struct Stack {
    stack: Vec<Value>,
}

impl View for Stack {
    type V = Seq<Value>;

    closed spec fn view(&self) -> Seq<Value> {
        self.stack@
    }
}

/// What pushing does: `Void` is dropped, anything else lands on top.
pub open spec fn spec_push(st: Seq<Value>, v: Value) -> Seq<Value> {
    if v is Void {
        st
    } else {
        st.push(v)
    }
}

impl Default for Stack {
    fn default() -> (s: Self)
        ensures
            s@ == Seq::<Value>::empty(),
    {
        Stack { stack: Vec::new() }
    }
}

impl Stack {
    /// Push a value; `Void` is never pushed.
    pub fn push(&mut self, value: Value)
        ensures
            final(self)@ == spec_push(old(self)@, value),
    {
        if let Value::Void = value {
            return ;
        }
        self.stack.push(value);
    }

    /// Pop the top value, or fail with `StackUnderflow`.
    pub fn pop(&mut self) -> (r: Result<Value, Error>)
        ensures
            old(self)@.len() == 0 ==> final(self)@ == old(self)@ && (r matches Err(e)
                && e@ == SpecError::StackUnderflow),
            old(self)@.len() > 0 ==> final(self)@ == old(self)@.drop_last() && r == Ok::<
                Value,
                Error,
            >(old(self)@.last()),
    {
        match self.stack.pop() {
            Some(v) => Ok(v),
            None => Err(Error::StackUnderflow),
        }
    }

    fn clear(&mut self)
        ensures
            final(self)@ == Seq::<Value>::empty(),
    {
        self.stack.clear();
    }
}

// --- Name tables ----------------------------------------------------------

/// The mapping an association list denotes: later entries win.
pub open spec fn assoc_map<T>(pairs: Seq<(String, T)>) -> Map<Seq<char>, T>
    decreases pairs.len(),
{
    if pairs.len() == 0 {
        Map::empty()
    } else {
        assoc_map(pairs.drop_last()).insert(pairs.last().0@, pairs.last().1)
    }
}

/// Look a name up: the value of the last entry bearing it.
fn assoc_lookup<T: Copy>(pairs: &Vec<(String, T)>, name: &str) -> (r: Option<T>)
    ensures
        match r {
            Some(v) => assoc_map(pairs@).contains_key(name@) && assoc_map(pairs@)[name@] == v,
            None => !assoc_map(pairs@).contains_key(name@),
        },
{
    let name_string: String = name.to_owned();
    let mut i = pairs.len();
    proof {
        assert(pairs@.take(i as int) =~= pairs@);
    }
    loop
        invariant
            i <= pairs.len(),
            name_string@ == name@,
            assoc_map(pairs@).contains_key(name@) == assoc_map(
                pairs@.take(i as int),
            ).contains_key(name@),
            assoc_map(pairs@).contains_key(name@) ==> assoc_map(pairs@)[name@] == assoc_map(
                pairs@.take(i as int),
            )[name@],
        decreases i,
    {
        if i == 0 {
            proof {
                assert(pairs@.take(0) =~= Seq::<(String, T)>::empty());
            }
            return None;
        }
        i = i - 1;
        proof {
            assert(pairs@.take(i + 1).drop_last() =~= pairs@.take(i as int));
            assert(pairs@.take(i + 1).last() == pairs@[i as int]);
        }
        if pairs[i].0 == name_string {
            return Some(pairs[i].1);
        }
    }
}

// --- What evaluation does, relationally ------------------------------------
//
// Floating-point results come from the embedder's FloatOps and are pinned
// down only to the kind of value they are, so evaluation is specified as a
// relation between the state before, the state after, and the result: every
// clause that does not involve float bits is exact.

/// The three pieces of state evaluation touches: the stack, the variable
/// environment, and the draw commands emitted so far.
pub ghost struct EvalState {
    pub stack: Seq<Value>,
    pub vars: Map<Seq<char>, Value>,
    pub cmds: Seq<DrawCommand>,
}

/// A trigger anchor: names the intermediate state and result of one
/// evaluation step inside the quantifiers below, so that proofs can pick
/// the step out again.
pub open spec fn arg_step(mid: EvalState, ar: Result<Value, SpecError>) -> bool {
    true
}

/// A trigger anchor like `arg_step`, for steps that yield no value.
pub open spec fn unit_step(mid: EvalState, r: Result<(), SpecError>) -> bool {
    true
}

/// The value of a literal: an integer literal must fit in a signed 64-bit
/// integer; float bits pass through.
pub open spec fn spec_literal_value(l: Literal) -> Result<Value, SpecError> {
    match l {
        Literal::Number(n) => match n {
            Number::Integer(u) => if u > i64::MAX as u64 {
                Err(SpecError::IntLiteralTooLarge)
            } else {
                Ok(Value::Scalar(Scalar(ScalarRepr::Integer(u as i64))))
            },
            Number::Float(bits) => Ok(Value::Scalar(Scalar(ScalarRepr::Float(bits)))),
        },
    }
}

/// Looking a variable up yields its last-assigned value, or fails.
pub open spec fn spec_lookup(vars: Map<Seq<char>, Value>, name: Seq<char>) -> Result<
    Value,
    SpecError,
> {
    if vars.contains_key(name) {
        Ok(vars[name])
    } else {
        Err(SpecError::VariableNotFound(name))
    }
}

/// Evaluating one argument.
pub open spec fn eval_arg_rel(
    funcs: Map<Seq<char>, Builtin>,
    a: SpecArgument,
    pre: EvalState,
    post: EvalState,
    r: Result<Value, SpecError>,
) -> bool
    decreases a,
{
    match a {
        SpecArgument::Variable(name) => post == pre && r == spec_lookup(pre.vars, name),
        SpecArgument::Literal(l) => post == pre && r == spec_literal_value(l),
        SpecArgument::Parenthesized(c) => eval_content_rel(funcs, *c, pre, post, r),
    }
}

/// Evaluating a list of arguments left to right, pushing each value onto
/// the stack (`Void` is not pushed); the first failure stops the list.
pub open spec fn eval_args_rel(
    funcs: Map<Seq<char>, Builtin>,
    args: Seq<SpecArgument>,
    pre: EvalState,
    post: EvalState,
    r: Result<(), SpecError>,
) -> bool
    decreases args,
{
    if args.len() == 0 {
        post == pre && r == Ok::<(), SpecError>(())
    } else {
        exists|mid: EvalState, ar: Result<Value, SpecError>|
            {
                &&& #[trigger] arg_step(mid, ar)
                &&& eval_arg_rel(funcs, args.first(), pre, mid, ar)
                &&& match ar {
                    Err(e) => post == mid && r == Err::<(), SpecError>(e),
                    Ok(v) => eval_args_rel(
                        funcs,
                        args.drop_first(),
                        EvalState { stack: spec_push(mid.stack, v), vars: mid.vars, cmds: mid.cmds },
                        post,
                        r,
                    ),
                }
            }
    }
}

/// Evaluating one expression content.
pub open spec fn eval_content_rel(
    funcs: Map<Seq<char>, Builtin>,
    c: SpecContent,
    pre: EvalState,
    post: EvalState,
    r: Result<Value, SpecError>,
) -> bool
    decreases c,
{
    match c {
        SpecContent::Literal(l) => post == pre && r == spec_literal_value(l),
        SpecContent::Variable(name) => post == pre && r == spec_lookup(pre.vars, name),
        SpecContent::FunctionCall { name, args } => exists|
            mid: EvalState,
            ar: Result<(), SpecError>,
        |
            {
                &&& #[trigger] unit_step(mid, ar)
                &&& eval_args_rel(funcs, args, pre, mid, ar)
                &&& match ar {
                    Err(e) => post == mid && r == Err::<Value, SpecError>(e),
                    Ok(_) => if !funcs.contains_key(name) {
                        post == mid && r == Err::<Value, SpecError>(
                            SpecError::FunctionNotFound(name),
                        )
                    } else {
                        exists|st2: Seq<Value>|
                            {
                                &&& #[trigger] builtin_rel(funcs[name], mid.stack, st2, r)
                                &&& post == (EvalState {
                                    stack: st2,
                                    vars: mid.vars,
                                    cmds: mid.cmds,
                                })
                            }
                    },
                }
            },
        SpecContent::Let { name, init } => match init {
            Some(a) => exists|mid: EvalState, ar: Result<Value, SpecError>|
                {
                    &&& #[trigger] arg_step(mid, ar)
                    &&& eval_arg_rel(funcs, a, pre, mid, ar)
                    &&& match ar {
                        Err(e) => post == mid && r == Err::<Value, SpecError>(e),
                        Ok(v) => post == (EvalState {
                            stack: mid.stack,
                            vars: mid.vars.insert(name, v),
                            cmds: mid.cmds,
                        }) && r == Ok::<Value, SpecError>(v),
                    }
                },
            None => if pre.stack.len() == 0 {
                post == pre && r == Err::<Value, SpecError>(SpecError::StackUnderflow)
            } else {
                post == (EvalState {
                    stack: pre.stack.drop_last(),
                    vars: pre.vars.insert(name, pre.stack.last()),
                    cmds: pre.cmds,
                }) && r == Ok::<Value, SpecError>(pre.stack.last())
            },
        },
        SpecContent::Screen(a1, a2) => exists|mid1: EvalState, ar1: Result<Value, SpecError>|
            {
                &&& #[trigger] arg_step(mid1, ar1)
                &&& eval_arg_rel(funcs, a1, pre, mid1, ar1)
                &&& match ar1 {
                    Err(e) => post == mid1 && r == Err::<Value, SpecError>(e),
                    Ok(v1) => exists|mid2: EvalState, ar2: Result<Value, SpecError>|
                        {
                            &&& #[trigger] arg_step(mid2, ar2)
                            &&& eval_arg_rel(funcs, a2, mid1, mid2, ar2)
                            &&& match ar2 {
                                Err(e) => post == mid2 && r == Err::<Value, SpecError>(e),
                                Ok(v2) => match (v1, v2) {
                                    (Value::Scalar(x), Value::Scalar(y)) => post == (EvalState {
                                        stack: mid2.stack,
                                        vars: mid2.vars,
                                        cmds: mid2.cmds.push(DrawCommand::Resize { x, y }),
                                    }) && r == Ok::<Value, SpecError>(Value::Void),
                                    _ => post == mid2 && r == Err::<Value, SpecError>(
                                        SpecError::InvalidArgument,
                                    ),
                                },
                            }
                        },
                }
            },
    }
}

/// Evaluating one expression of an instruction: its value is pushed, and,
/// when its draw flag is set and the value is drawable, a command is
/// emitted.
pub open spec fn eval_expr_rel(
    funcs: Map<Seq<char>, Builtin>,
    e: SpecExpression,
    pre: EvalState,
    post: EvalState,
    r: Result<(), SpecError>,
) -> bool {
    exists|mid: EvalState, cr: Result<Value, SpecError>|
        {
            &&& #[trigger] arg_step(mid, cr)
            &&& eval_content_rel(funcs, e.content, pre, mid, cr)
            &&& match cr {
                Err(err) => post == mid && r == Err::<(), SpecError>(err),
                Ok(v) => {
                    let stacked = EvalState {
                        stack: spec_push(mid.stack, v),
                        vars: mid.vars,
                        cmds: mid.cmds,
                    };
                    &&& r == Ok::<(), SpecError>(())
                    &&& post == (if e.draw_result && spec_draw_command(v) is Some {
                        EvalState {
                            stack: stacked.stack,
                            vars: stacked.vars,
                            cmds: stacked.cmds.push(spec_draw_command(v)->Some_0),
                        }
                    } else {
                        stacked
                    })
                },
            }
        }
}

/// Evaluating the expressions of one instruction in order; the first
/// failure stops.
pub open spec fn eval_exprs_rel(
    funcs: Map<Seq<char>, Builtin>,
    es: Seq<SpecExpression>,
    pre: EvalState,
    post: EvalState,
    r: Result<(), SpecError>,
) -> bool
    decreases es.len(),
{
    if es.len() == 0 {
        post == pre && r == Ok::<(), SpecError>(())
    } else {
        exists|mid: EvalState, r1: Result<(), SpecError>|
            {
                &&& #[trigger] unit_step(mid, r1)
                &&& eval_expr_rel(funcs, es.first(), pre, mid, r1)
                &&& match r1 {
                    Err(e) => post == mid && r == Err::<(), SpecError>(e),
                    Ok(_) => eval_exprs_rel(funcs, es.drop_first(), mid, post, r),
                }
            }
    }
}

/// Evaluating one instruction: its expressions, then the stack is cleared
/// on success; the variable environment is never cleared.
pub open spec fn eval_instruction_rel(
    funcs: Map<Seq<char>, Builtin>,
    es: Seq<SpecExpression>,
    pre: EvalState,
    post: EvalState,
    r: Result<(), SpecError>,
) -> bool {
    exists|mid: EvalState|
        {
            &&& #[trigger] unit_step(mid, r)
            &&& eval_exprs_rel(funcs, es, pre, mid, r)
            &&& post == (match r {
                Ok(_) => EvalState { stack: Seq::empty(), vars: mid.vars, cmds: mid.cmds },
                Err(_) => mid,
            })
        }
}

/// Running a whole program: instructions in order, stopping at the first
/// error.
pub open spec fn eval_program_rel(
    funcs: Map<Seq<char>, Builtin>,
    prog: Seq<Seq<SpecExpression>>,
    pre: EvalState,
    post: EvalState,
    r: Result<(), SpecError>,
) -> bool
    decreases prog.len(),
{
    if prog.len() == 0 {
        post == pre && r == Ok::<(), SpecError>(())
    } else {
        exists|mid: EvalState, r1: Result<(), SpecError>|
            {
                &&& #[trigger] unit_step(mid, r1)
                &&& eval_instruction_rel(funcs, prog.first(), pre, mid, r1)
                &&& match r1 {
                    Err(e) => post == mid && r == Err::<(), SpecError>(e),
                    Ok(_) => eval_program_rel(funcs, prog.drop_first(), mid, post, r),
                }
            }
    }
}

// --- Composing the relations over loop iterations --------------------------

proof fn lemma_eval_args_compose(
    funcs: Map<Seq<char>, Builtin>,
    a1: Seq<SpecArgument>,
    a2: Seq<SpecArgument>,
    pre: EvalState,
    mid: EvalState,
    post: EvalState,
    r: Result<(), SpecError>,
)
    requires
        eval_args_rel(funcs, a1, pre, mid, Ok(())),
        eval_args_rel(funcs, a2, mid, post, r),
    ensures
        eval_args_rel(funcs, a1 + a2, pre, post, r),
    decreases a1.len(),
{
    if a1.len() == 0 {
        assert(a1 + a2 =~= a2);
        assert(pre == mid);
    } else {
        let (m0, ar) = choose|m0: EvalState, ar: Result<Value, SpecError>|
            {
                &&& #[trigger] arg_step(m0, ar)
                &&& eval_arg_rel(funcs, a1.first(), pre, m0, ar)
                &&& match ar {
                    Err(e) => mid == m0 && Ok::<(), SpecError>(()) == Err::<(), SpecError>(e),
                    Ok(v) => eval_args_rel(
                        funcs,
                        a1.drop_first(),
                        EvalState { stack: spec_push(m0.stack, v), vars: m0.vars, cmds: m0.cmds },
                        mid,
                        Ok(()),
                    ),
                }
            };
        let v = ar->Ok_0;
        let pushed = EvalState { stack: spec_push(m0.stack, v), vars: m0.vars, cmds: m0.cmds };
        lemma_eval_args_compose(funcs, a1.drop_first(), a2, pushed, mid, post, r);
        assert((a1 + a2).first() == a1.first());
        assert((a1 + a2).drop_first() =~= a1.drop_first() + a2);
        assert(eval_arg_rel(funcs, (a1 + a2).first(), pre, m0, ar));
    }
}

proof fn lemma_eval_exprs_compose(
    funcs: Map<Seq<char>, Builtin>,
    e1: Seq<SpecExpression>,
    e2: Seq<SpecExpression>,
    pre: EvalState,
    mid: EvalState,
    post: EvalState,
    r: Result<(), SpecError>,
)
    requires
        eval_exprs_rel(funcs, e1, pre, mid, Ok(())),
        eval_exprs_rel(funcs, e2, mid, post, r),
    ensures
        eval_exprs_rel(funcs, e1 + e2, pre, post, r),
    decreases e1.len(),
{
    if e1.len() == 0 {
        assert(e1 + e2 =~= e2);
        assert(pre == mid);
    } else {
        let (m0, r1) = choose|m0: EvalState, r1: Result<(), SpecError>|
            {
                &&& #[trigger] unit_step(m0, r1)
                &&& eval_expr_rel(funcs, e1.first(), pre, m0, r1)
                &&& match r1 {
                    Err(e) => mid == m0 && Ok::<(), SpecError>(()) == Err::<(), SpecError>(e),
                    Ok(_) => eval_exprs_rel(funcs, e1.drop_first(), m0, mid, Ok(())),
                }
            };
        lemma_eval_exprs_compose(funcs, e1.drop_first(), e2, m0, mid, post, r);
        assert((e1 + e2).first() == e1.first());
        assert((e1 + e2).drop_first() =~= e1.drop_first() + e2);
        assert(eval_expr_rel(funcs, (e1 + e2).first(), pre, m0, r1));
    }
}

proof fn lemma_eval_program_compose(
    funcs: Map<Seq<char>, Builtin>,
    p1: Seq<Seq<SpecExpression>>,
    p2: Seq<Seq<SpecExpression>>,
    pre: EvalState,
    mid: EvalState,
    post: EvalState,
    r: Result<(), SpecError>,
)
    requires
        eval_program_rel(funcs, p1, pre, mid, Ok(())),
        eval_program_rel(funcs, p2, mid, post, r),
    ensures
        eval_program_rel(funcs, p1 + p2, pre, post, r),
    decreases p1.len(),
{
    if p1.len() == 0 {
        assert(p1 + p2 =~= p2);
        assert(pre == mid);
    } else {
        let (m0, r1) = choose|m0: EvalState, r1: Result<(), SpecError>|
            {
                &&& #[trigger] unit_step(m0, r1)
                &&& eval_instruction_rel(funcs, p1.first(), pre, m0, r1)
                &&& match r1 {
                    Err(e) => mid == m0 && Ok::<(), SpecError>(()) == Err::<(), SpecError>(e),
                    Ok(_) => eval_program_rel(funcs, p1.drop_first(), m0, mid, Ok(())),
                }
            };
        lemma_eval_program_compose(funcs, p1.drop_first(), p2, m0, mid, post, r);
        assert((p1 + p2).first() == p1.first());
        assert((p1 + p2).drop_first() =~= p1.drop_first() + p2);
        assert(eval_instruction_rel(funcs, (p1 + p2).first(), pre, m0, r1));
    }
}

// --- What holds of evaluation ----------------------------------------------

/// Evaluation can only grow the state: whatever a step does, every
/// variable binding that existed before still exists after (a `let` may
/// overwrite, never drop), and the commands emitted before are a prefix
/// of those emitted after (commands are only appended, in order).
pub open spec fn state_extends(pre: EvalState, post: EvalState) -> bool {
    pre.vars.dom().subset_of(post.vars.dom()) && pre.cmds.is_prefix_of(post.cmds)
}

proof fn lemma_state_extends_trans(a: EvalState, b: EvalState, c: EvalState)
    requires
        state_extends(a, b),
        state_extends(b, c),
    ensures
        state_extends(a, c),
{
    assert forall|i: int| 0 <= i < a.cmds.len() implies a.cmds[i] == c.cmds[i] by {
        assert(a.cmds[i] == b.cmds[i]);
        assert(b.cmds[i] == c.cmds[i]);
    }
    assert(a.cmds =~= c.cmds.subrange(0, a.cmds.len() as int));
}

proof fn lemma_arg_extends(
    funcs: Map<Seq<char>, Builtin>,
    a: SpecArgument,
    pre: EvalState,
    post: EvalState,
    r: Result<Value, SpecError>,
)
    requires
        eval_arg_rel(funcs, a, pre, post, r),
    ensures
        state_extends(pre, post),
    decreases a,
{
    match a {
        SpecArgument::Variable(_) => {
        },
        SpecArgument::Literal(_) => {
        },
        SpecArgument::Parenthesized(c) => {
            lemma_content_extends(funcs, *c, pre, post, r);
        },
    }
}

proof fn lemma_args_extends(
    funcs: Map<Seq<char>, Builtin>,
    args: Seq<SpecArgument>,
    pre: EvalState,
    post: EvalState,
    r: Result<(), SpecError>,
)
    requires
        eval_args_rel(funcs, args, pre, post, r),
    ensures
        state_extends(pre, post),
    decreases args,
{
    if args.len() == 0 {
    } else {
        let (mid, ar) = choose|mid: EvalState, ar: Result<Value, SpecError>|
            {
                &&& #[trigger] arg_step(mid, ar)
                &&& eval_arg_rel(funcs, args.first(), pre, mid, ar)
                &&& match ar {
                    Err(e) => post == mid && r == Err::<(), SpecError>(e),
                    Ok(v) => eval_args_rel(
                        funcs,
                        args.drop_first(),
                        EvalState { stack: spec_push(mid.stack, v), vars: mid.vars, cmds: mid.cmds },
                        post,
                        r,
                    ),
                }
            };
        lemma_arg_extends(funcs, args.first(), pre, mid, ar);
        match ar {
            Err(_) => {
            },
            Ok(v) => {
                let pushed = EvalState {
                    stack: spec_push(mid.stack, v),
                    vars: mid.vars,
                    cmds: mid.cmds,
                };
                lemma_args_extends(funcs, args.drop_first(), pushed, post, r);
                lemma_state_extends_trans(pre, pushed, post);
            },
        }
    }
}

proof fn lemma_content_extends(
    funcs: Map<Seq<char>, Builtin>,
    c: SpecContent,
    pre: EvalState,
    post: EvalState,
    r: Result<Value, SpecError>,
)
    requires
        eval_content_rel(funcs, c, pre, post, r),
    ensures
        state_extends(pre, post),
    decreases c,
{
    match c {
        SpecContent::Literal(_) => {
        },
        SpecContent::Variable(_) => {
        },
        SpecContent::FunctionCall { name, args } => {
            let (mid, ar) = choose|mid: EvalState, ar: Result<(), SpecError>|
                {
                    &&& #[trigger] unit_step(mid, ar)
                    &&& eval_args_rel(funcs, args, pre, mid, ar)
                    &&& match ar {
                        Err(e) => post == mid && r == Err::<Value, SpecError>(e),
                        Ok(_) => if !funcs.contains_key(name) {
                            post == mid && r == Err::<Value, SpecError>(
                                SpecError::FunctionNotFound(name),
                            )
                        } else {
                            exists|st2: Seq<Value>|
                                {
                                    &&& #[trigger] builtin_rel(funcs[name], mid.stack, st2, r)
                                    &&& post == (EvalState {
                                        stack: st2,
                                        vars: mid.vars,
                                        cmds: mid.cmds,
                                    })
                                }
                        },
                    }
                };
            lemma_args_extends(funcs, args, pre, mid, ar);
            assert(post.vars == mid.vars && post.cmds == mid.cmds);
        },
        SpecContent::Let { name, init } => {
            match init {
                Some(a) => {
                    let (mid, ar) = choose|mid: EvalState, ar: Result<Value, SpecError>|
                        {
                            &&& #[trigger] arg_step(mid, ar)
                            &&& eval_arg_rel(funcs, a, pre, mid, ar)
                            &&& match ar {
                                Err(e) => post == mid && r == Err::<Value, SpecError>(e),
                                Ok(v) => post == (EvalState {
                                    stack: mid.stack,
                                    vars: mid.vars.insert(name, v),
                                    cmds: mid.cmds,
                                }) && r == Ok::<Value, SpecError>(v),
                            }
                        };
                    lemma_arg_extends(funcs, a, pre, mid, ar);
                },
                None => {
                },
            }
        },
        SpecContent::Screen(a1, a2) => {
            let (mid1, ar1) = choose|mid1: EvalState, ar1: Result<Value, SpecError>|
                {
                    &&& #[trigger] arg_step(mid1, ar1)
                    &&& eval_arg_rel(funcs, a1, pre, mid1, ar1)
                    &&& match ar1 {
                        Err(e) => post == mid1 && r == Err::<Value, SpecError>(e),
                        Ok(v1) => exists|mid2: EvalState, ar2: Result<Value, SpecError>|
                            {
                                &&& #[trigger] arg_step(mid2, ar2)
                                &&& eval_arg_rel(funcs, a2, mid1, mid2, ar2)
                                &&& match ar2 {
                                    Err(e) => post == mid2 && r == Err::<Value, SpecError>(e),
                                    Ok(v2) => match (v1, v2) {
                                        (Value::Scalar(x), Value::Scalar(y)) => post
                                            == (EvalState {
                                            stack: mid2.stack,
                                            vars: mid2.vars,
                                            cmds: mid2.cmds.push(
                                                DrawCommand::Resize { x, y },
                                            ),
                                        }) && r == Ok::<Value, SpecError>(Value::Void),
                                        _ => post == mid2 && r == Err::<Value, SpecError>(
                                            SpecError::InvalidArgument,
                                        ),
                                    },
                                }
                            },
                    }
                };
            lemma_arg_extends(funcs, a1, pre, mid1, ar1);
            match ar1 {
                Err(_) => {
                },
                Ok(v1) => {
                    let (mid2, ar2) = choose|mid2: EvalState, ar2: Result<Value, SpecError>|
                        {
                            &&& #[trigger] arg_step(mid2, ar2)
                            &&& eval_arg_rel(funcs, a2, mid1, mid2, ar2)
                            &&& match ar2 {
                                Err(e) => post == mid2 && r == Err::<Value, SpecError>(e),
                                Ok(v2) => match (v1, v2) {
                                    (Value::Scalar(x), Value::Scalar(y)) => post == (EvalState {
                                        stack: mid2.stack,
                                        vars: mid2.vars,
                                        cmds: mid2.cmds.push(DrawCommand::Resize { x, y }),
                                    }) && r == Ok::<Value, SpecError>(Value::Void),
                                    _ => post == mid2 && r == Err::<Value, SpecError>(
                                        SpecError::InvalidArgument,
                                    ),
                                },
                            }
                        };
                    lemma_arg_extends(funcs, a2, mid1, mid2, ar2);
                    lemma_state_extends_trans(pre, mid1, mid2);
                    assert(mid2.cmds.is_prefix_of(post.cmds));
                    lemma_state_extends_trans(pre, mid2, post);
                },
            }
        },
    }
}

proof fn lemma_expr_extends(
    funcs: Map<Seq<char>, Builtin>,
    e: SpecExpression,
    pre: EvalState,
    post: EvalState,
    r: Result<(), SpecError>,
)
    requires
        eval_expr_rel(funcs, e, pre, post, r),
    ensures
        state_extends(pre, post),
{
    let (mid, cr) = choose|mid: EvalState, cr: Result<Value, SpecError>|
        {
            &&& #[trigger] arg_step(mid, cr)
            &&& eval_content_rel(funcs, e.content, pre, mid, cr)
            &&& match cr {
                Err(err) => post == mid && r == Err::<(), SpecError>(err),
                Ok(v) => {
                    let stacked = EvalState {
                        stack: spec_push(mid.stack, v),
                        vars: mid.vars,
                        cmds: mid.cmds,
                    };
                    &&& r == Ok::<(), SpecError>(())
                    &&& post == (if e.draw_result && spec_draw_command(v) is Some {
                        EvalState {
                            stack: stacked.stack,
                            vars: stacked.vars,
                            cmds: stacked.cmds.push(spec_draw_command(v)->Some_0),
                        }
                    } else {
                        stacked
                    })
                },
            }
        };
    lemma_content_extends(funcs, e.content, pre, mid, cr);
    assert(mid.cmds.is_prefix_of(post.cmds));
    lemma_state_extends_trans(pre, mid, post);
}

proof fn lemma_exprs_extends(
    funcs: Map<Seq<char>, Builtin>,
    es: Seq<SpecExpression>,
    pre: EvalState,
    post: EvalState,
    r: Result<(), SpecError>,
)
    requires
        eval_exprs_rel(funcs, es, pre, post, r),
    ensures
        state_extends(pre, post),
    decreases es.len(),
{
    if es.len() == 0 {
    } else {
        let (mid, r1) = choose|mid: EvalState, r1: Result<(), SpecError>|
            {
                &&& #[trigger] unit_step(mid, r1)
                &&& eval_expr_rel(funcs, es.first(), pre, mid, r1)
                &&& match r1 {
                    Err(e) => post == mid && r == Err::<(), SpecError>(e),
                    Ok(_) => eval_exprs_rel(funcs, es.drop_first(), mid, post, r),
                }
            };
        lemma_expr_extends(funcs, es.first(), pre, mid, r1);
        match r1 {
            Err(_) => {
            },
            Ok(_) => {
                lemma_exprs_extends(funcs, es.drop_first(), mid, post, r);
                lemma_state_extends_trans(pre, mid, post);
            },
        }
    }
}

proof fn lemma_instruction_extends(
    funcs: Map<Seq<char>, Builtin>,
    es: Seq<SpecExpression>,
    pre: EvalState,
    post: EvalState,
    r: Result<(), SpecError>,
)
    requires
        eval_instruction_rel(funcs, es, pre, post, r),
    ensures
        state_extends(pre, post),
{
    let mid = choose|mid: EvalState|
        {
            &&& #[trigger] unit_step(mid, r)
            &&& eval_exprs_rel(funcs, es, pre, mid, r)
            &&& post == (match r {
                Ok(_) => EvalState { stack: Seq::empty(), vars: mid.vars, cmds: mid.cmds },
                Err(_) => mid,
            })
        };
    lemma_exprs_extends(funcs, es, pre, mid, r);
}

/// Running a program never drops a variable binding, and it only ever
/// appends draw commands: what was bound before is still bound after, and
/// the commands emitted before are a prefix of those emitted after, in
/// their original order.
pub proof fn lemma_program_only_extends_state(
    funcs: Map<Seq<char>, Builtin>,
    prog: Seq<Seq<SpecExpression>>,
    pre: EvalState,
    post: EvalState,
    r: Result<(), SpecError>,
)
    requires
        eval_program_rel(funcs, prog, pre, post, r),
    ensures
        state_extends(pre, post),
    decreases prog.len(),
{
    if prog.len() == 0 {
    } else {
        let (mid, r1) = choose|mid: EvalState, r1: Result<(), SpecError>|
            {
                &&& #[trigger] unit_step(mid, r1)
                &&& eval_instruction_rel(funcs, prog.first(), pre, mid, r1)
                &&& match r1 {
                    Err(e) => post == mid && r == Err::<(), SpecError>(e),
                    Ok(_) => eval_program_rel(funcs, prog.drop_first(), mid, post, r),
                }
            };
        lemma_instruction_extends(funcs, prog.first(), pre, mid, r1);
        match r1 {
            Err(_) => {
            },
            Ok(_) => {
                lemma_program_only_extends_state(funcs, prog.drop_first(), mid, post, r);
                lemma_state_extends_trans(pre, mid, post);
            },
        }
    }
}

/// Binding a variable and then referencing it returns the exact value the
/// binding stored: a `let` that evaluated to a value leaves the
/// environment so that a reference to its name evaluates to that value,
/// from the very state the `let` left behind.
pub proof fn lemma_let_then_reference(
    funcs: Map<Seq<char>, Builtin>,
    name: Seq<char>,
    init: Option<SpecArgument>,
    pre: EvalState,
    post: EvalState,
    v: Value,
)
    requires
        eval_content_rel(funcs, SpecContent::Let { name, init }, pre, post, Ok(v)),
    ensures
        eval_content_rel(funcs, SpecContent::Variable(name), post, post, Ok(v)),
{
    match init {
        Some(a) => {
            let (mid, ar) = choose|mid: EvalState, ar: Result<Value, SpecError>|
                {
                    &&& #[trigger] arg_step(mid, ar)
                    &&& eval_arg_rel(funcs, a, pre, mid, ar)
                    &&& match ar {
                        Err(e) => post == mid && Ok::<Value, SpecError>(v) == Err::<
                            Value,
                            SpecError,
                        >(e),
                        Ok(w) => post == (EvalState {
                            stack: mid.stack,
                            vars: mid.vars.insert(name, w),
                            cmds: mid.cmds,
                        }) && Ok::<Value, SpecError>(v) == Ok::<Value, SpecError>(w),
                    }
                };
            assert(post.vars == mid.vars.insert(name, v));
        },
        None => {
            assert(post.vars == pre.vars.insert(name, v));
        },
    }
    assert(spec_lookup(post.vars, name) == Ok::<Value, SpecError>(v));
}

/// Instructions are isolated through the stack and connected through the
/// environment: when an instruction completes, the stack is empty, while
/// the variable bindings and the emitted commands are exactly those its
/// expressions left behind.
pub proof fn lemma_instruction_boundary(
    funcs: Map<Seq<char>, Builtin>,
    es: Seq<SpecExpression>,
    pre: EvalState,
    post: EvalState,
)
    requires
        eval_instruction_rel(funcs, es, pre, post, Ok(())),
    ensures
        post.stack == Seq::<Value>::empty(),
        exists|mid: EvalState|
            {
                &&& #[trigger] unit_step(mid, Ok::<(), SpecError>(()))
                &&& eval_exprs_rel(funcs, es, pre, mid, Ok(()))
                &&& post.vars == mid.vars
                &&& post.cmds == mid.cmds
            },
{
    let mid = choose|mid: EvalState|
        {
            &&& #[trigger] unit_step(mid, Ok::<(), SpecError>(()))
            &&& eval_exprs_rel(funcs, es, pre, mid, Ok(()))
            &&& post == (EvalState { stack: Seq::empty(), vars: mid.vars, cmds: mid.cmds })
        };
    assert(unit_step(mid, Ok::<(), SpecError>(())));
}

// --- The runtime -----------------------------------------------------------

/// A runtime: the evaluation stack, the variable environment, the function
/// table, and the draw commands buffered so far. `finish` hands the
/// commands to the caller, who forwards them to a rendering backend.
pub struct Runtime {
    stack: Stack,
    variables: Vec<(String, Value)>,
    functions: Vec<(String, Builtin)>,
    commands: Vec<DrawCommand>,
}

impl Runtime {
    /// The evaluation stack, as a sequence with the top last.
    pub closed spec fn eval_stack(&self) -> Seq<Value> {
        self.stack@
    }

    /// The variable environment: name to last-assigned value.
    pub closed spec fn vars(&self) -> Map<Seq<char>, Value> {
        assoc_map(self.variables@)
    }

    /// The function table: name to built-in.
    pub closed spec fn funcs(&self) -> Map<Seq<char>, Builtin> {
        assoc_map(self.functions@)
    }

    /// The draw commands emitted so far, in order.
    pub closed spec fn emitted(&self) -> Seq<DrawCommand> {
        self.commands@
    }

    /// The evaluation state the relations speak about.
    pub open spec fn st(&self) -> EvalState {
        EvalState { stack: self.eval_stack(), vars: self.vars(), cmds: self.emitted() }
    }

    /// Bind a name in the function table, overwriting any earlier binding.
    pub fn define_fn(&mut self, name: &str, function: Builtin)
        ensures
            final(self).funcs() == old(self).funcs().insert(name@, function),
            final(self).vars() == old(self).vars(),
            final(self).eval_stack() == old(self).eval_stack(),
            final(self).emitted() == old(self).emitted(),
    {
        self.functions.push((name.to_owned(), function));
        proof {
            assert(self.functions@.drop_last() =~= old(self).functions@);
        }
    }

    fn literal_value(literal: &Literal) -> (r: Result<Value, Error>)
        ensures
            res_view(r) == spec_literal_value(*literal),
    {
        match literal {
            Literal::Number(n) => match n {
                Number::Integer(u) => {
                    if *u > i64::MAX as u64 {
                        Err(Error::IntLiteralTooLarge)
                    } else {
                        Ok(Value::Scalar(Scalar(ScalarRepr::Integer(*u as i64))))
                    }
                },
                Number::Float(bits) => Ok(Value::Scalar(Scalar(ScalarRepr::Float(*bits)))),
            },
        }
    }

    fn lookup_variable(&self, name: &String) -> (r: Result<Value, Error>)
        ensures
            res_view(r) == spec_lookup(self.vars(), name@),
    {
        match assoc_lookup(&self.variables, name.as_str()) {
            Some(v) => Ok(v),
            None => Err(Error::VariableNotFound(name.clone())),
        }
    }

    /// Evaluate one argument to a value.
    #[verifier::loop_isolation(false)]
    fn execute_argument<F: FloatOps>(&mut self, argument: &Argument, fl: &F) -> (r: Result<
        Value,
        Error,
    >)
        ensures
            final(self).funcs() == old(self).funcs(),
            eval_arg_rel(
                old(self).funcs(),
                view_arg(*argument),
                old(self).st(),
                final(self).st(),
                res_view(r),
            ),
        decreases *argument,
    {
        match argument {
            Argument::Variable(name) => self.lookup_variable(name),
            Argument::Literal(literal) => Self::literal_value(literal),
            Argument::Parenthesized(content) => self.execute_expression(&**content, fl),
        }
    }

    /// Evaluate one expression content to a value.
    #[verifier::rlimit(100)]
    #[verifier::spinoff_prover]
    #[verifier::loop_isolation(false)]
    fn execute_expression<F: FloatOps>(&mut self, expression: &ExpressionContent, fl: &F) -> (r:
        Result<Value, Error>)
        ensures
            final(self).funcs() == old(self).funcs(),
            eval_content_rel(
                old(self).funcs(),
                view_content(*expression),
                old(self).st(),
                final(self).st(),
                res_view(r),
            ),
        decreases *expression,
    {
        let ghost funcs0 = self.funcs();
        let ghost pre = self.st();
        match expression {
            ExpressionContent::Literal(literal) => Self::literal_value(literal),
            ExpressionContent::Variable(name) => self.lookup_variable(name),
            ExpressionContent::FunctionCall { name, args } => {
                let ghost sargs = view_args(args@);
                proof {
                    lemma_view_args_props(args@);
                    assert(sargs.take(0) =~= Seq::<SpecArgument>::empty());
                }
                let mut idx: usize = 0;
                while idx < args.len()
                    invariant
                        idx <= args.len(),
                        self.funcs() == funcs0,
                        eval_args_rel(funcs0, sargs.take(idx as int), pre, self.st(), Ok(())),
                    decreases args.len() - idx,
                {
                    let ghost cur = self.st();
                    let arg_result = self.execute_argument(&args[idx], fl);
                    match arg_result {
                        Err(e) => {
                            proof {
                                let now = self.st();
                                assert(arg_step(now, Err(e@)));
                                assert(unit_step(now, Err::<(), SpecError>(e@)));
                                assert(sargs.skip(idx as int).first() == view_arg(
                                    args@[idx as int],
                                ));
                                assert(eval_args_rel(
                                    funcs0,
                                    sargs.skip(idx as int),
                                    cur,
                                    now,
                                    Err(e@),
                                ));
                                lemma_eval_args_compose(
                                    funcs0,
                                    sargs.take(idx as int),
                                    sargs.skip(idx as int),
                                    pre,
                                    cur,
                                    now,
                                    Err(e@),
                                );
                                assert(sargs.take(idx as int) + sargs.skip(idx as int) =~= sargs);
                            }
                            return Err(e);
                        },
                        Ok(v) => {
                            let ghost argpost = self.st();
                            self.stack.push(v);
                            proof {
                                let now = self.st();
                                assert(arg_step(argpost, Ok(v)));
                                assert(now == (EvalState {
                                    stack: spec_push(argpost.stack, v),
                                    vars: argpost.vars,
                                    cmds: argpost.cmds,
                                }));
                                assert(sargs.skip(idx as int).first() == view_arg(
                                    args@[idx as int],
                                ));
                                assert(sargs.skip(idx as int).take(1).first() == view_arg(
                                    args@[idx as int],
                                ));
                                assert(sargs.skip(idx as int).take(1).drop_first()
                                    =~= Seq::<SpecArgument>::empty());
                                assert(eval_args_rel(
                                    funcs0,
                                    sargs.skip(idx as int).take(1).drop_first(),
                                    now,
                                    now,
                                    Ok(()),
                                ));
                                assert(eval_args_rel(
                                    funcs0,
                                    sargs.skip(idx as int).take(1),
                                    cur,
                                    now,
                                    Ok(()),
                                ));
                                lemma_eval_args_compose(
                                    funcs0,
                                    sargs.take(idx as int),
                                    sargs.skip(idx as int).take(1),
                                    pre,
                                    cur,
                                    now,
                                    Ok(()),
                                );
                                assert(sargs.take(idx as int) + sargs.skip(idx as int).take(1)
                                    =~= sargs.take(idx + 1));
                            }
                            idx = idx + 1;
                        },
                    }
                }
                proof {
                    assert(sargs.take(args.len() as int) =~= sargs);
                }
                proof {
                    assert(unit_step(self.st(), Ok(())));
                }
                let function = match assoc_lookup(&self.functions, name.as_str()) {
                    Some(f) => f,
                    None => {
                        return Err(Error::FunctionNotFound(name.clone()));
                    },
                };
                let ghost mid = self.st();
                let result = stdlib::call_builtin(function, &mut self.stack, fl);
                proof {
                    assert(builtin_rel(
                        funcs0[name@],
                        mid.stack,
                        self.st().stack,
                        res_view(result),
                    ));
                    assert(self.st() == (EvalState {
                        stack: self.st().stack,
                        vars: mid.vars,
                        cmds: mid.cmds,
                    }));
                }
                result
            },
            ExpressionContent::Let { name, init } => {
                let value = match init {
                    Some(init_arg) => {
                        match self.execute_argument(init_arg, fl) {
                            Err(e) => {
                                proof {
                                    assert(arg_step(self.st(), Err(e@)));
                                }
                                return Err(e);
                            },
                            Ok(v) => v,
                        }
                    },
                    None => {
                        match self.stack.pop() {
                            Ok(v) => v,
                            Err(e) => {
                                return Err(e);
                            },
                        }
                    },
                };
                let ghost before_bind = self.st();
                let ghost pairs_before = self.variables@;
                self.variables.push((name.clone(), value));
                proof {
                    assert(arg_step(before_bind, Ok(value)));
                    assert(self.variables@.drop_last() =~= pairs_before);
                    assert(self.vars() == before_bind.vars.insert(name@, value));
                }
                Ok(value)
            },
            ExpressionContent::Screen(a1, a2) => {
                let v1 = match self.execute_argument(a1, fl) {
                    Err(e) => {
                        proof {
                            assert(arg_step(self.st(), Err(e@)));
                        }
                        return Err(e);
                    },
                    Ok(v) => v,
                };
                let ghost mid1 = self.st();
                let v2 = match self.execute_argument(a2, fl) {
                    Err(e) => {
                        proof {
                            assert(arg_step(mid1, Ok(v1)));
                            assert(arg_step(self.st(), Err(e@)));
                        }
                        return Err(e);
                    },
                    Ok(v) => v,
                };
                let ghost mid2 = self.st();
                proof {
                    assert(arg_step(mid1, Ok(v1)));
                    assert(arg_step(mid2, Ok(v2)));
                }
                match (v1, v2) {
                    (Value::Scalar(x), Value::Scalar(y)) => {
                        self.commands.push(DrawCommand::Resize { x, y });
                        Ok(Value::Void)
                    },
                    _ => Err(Error::InvalidArgument),
                }
            },
        }
    }

    /// Run one instruction: evaluate each expression, push its value, and
    /// emit a draw command for drawable values whose draw flag is set;
    /// afterwards the stack is cleared, the variables are not.
    #[verifier::rlimit(100)]
    #[verifier::spinoff_prover]
    #[verifier::loop_isolation(false)]
    fn execute_instruction<F: FloatOps>(&mut self, instruction: &Instruction, fl: &F) -> (r:
        Result<(), Error>)
        ensures
            final(self).funcs() == old(self).funcs(),
            eval_instruction_rel(
                old(self).funcs(),
                view_instruction(*instruction),
                old(self).st(),
                final(self).st(),
                unit_view(r),
            ),
    {
        let ghost funcs0 = self.funcs();
        let ghost pre = self.st();
        let ghost sexprs = view_exprs(instruction.expressions@);
        proof {
            assert(sexprs.take(0) =~= Seq::<SpecExpression>::empty());
        }
        let mut idx: usize = 0;
        while idx < instruction.expressions.len()
            invariant
                idx <= instruction.expressions.len(),
                self.funcs() == funcs0,
                eval_exprs_rel(funcs0, sexprs.take(idx as int), pre, self.st(), Ok(())),
            decreases instruction.expressions.len() - idx,
        {
            let expression = &instruction.expressions[idx];
            let ghost cur = self.st();
            let ghost se = sexprs[idx as int];
            let value = match self.execute_expression(&expression.content, fl) {
                Err(e) => {
                    proof {
                        let now = self.st();
                        assert(arg_step(now, Err(e@)));
                        assert(unit_step(now, Err(e@)));
                        assert(eval_expr_rel(funcs0, se, cur, now, Err(e@)));
                        assert(sexprs.skip(idx as int).first() == se);
                        assert(eval_exprs_rel(funcs0, sexprs.skip(idx as int), cur, now, Err(e@)));
                        lemma_eval_exprs_compose(
                            funcs0,
                            sexprs.take(idx as int),
                            sexprs.skip(idx as int),
                            pre,
                            cur,
                            now,
                            Err(e@),
                        );
                        assert(sexprs.take(idx as int) + sexprs.skip(idx as int) =~= sexprs);
                        assert(eval_instruction_rel(funcs0, sexprs, pre, now, Err(e@)));
                    }
                    return Err(e);
                },
                Ok(v) => v,
            };
            let ghost content_post = self.st();
            self.stack.push(value);
            if expression.draw_result {
                match value_to_draw_command(value) {
                    Some(cmd) => {
                        self.commands.push(cmd);
                    },
                    None => {},
                }
            }
            proof {
                let now = self.st();
                assert(arg_step(content_post, Ok(value)));
                assert(unit_step(now, Ok(())));
                assert(eval_expr_rel(funcs0, se, cur, now, Ok(())));
                assert(sexprs.skip(idx as int).take(1).first() == se);
                assert(sexprs.skip(idx as int).take(1).drop_first()
                    =~= Seq::<SpecExpression>::empty());
                assert(eval_exprs_rel(
                    funcs0,
                    sexprs.skip(idx as int).take(1).drop_first(),
                    now,
                    now,
                    Ok(()),
                ));
                assert(eval_exprs_rel(funcs0, sexprs.skip(idx as int).take(1), cur, now, Ok(())));
                lemma_eval_exprs_compose(
                    funcs0,
                    sexprs.take(idx as int),
                    sexprs.skip(idx as int).take(1),
                    pre,
                    cur,
                    now,
                    Ok(()),
                );
                assert(sexprs.take(idx as int) + sexprs.skip(idx as int).take(1) =~= sexprs.take(
                    idx + 1,
                ));
            }
            idx = idx + 1;
        }
        proof {
            assert(sexprs.take(instruction.expressions@.len() as int) =~= sexprs);
        }
        let ghost mid = self.st();
        self.stack.clear();
        proof {
            assert(unit_step(mid, Ok(())));
            assert(self.st() == (EvalState {
                stack: Seq::<Value>::empty(),
                vars: mid.vars,
                cmds: mid.cmds,
            }));
            assert(eval_instruction_rel(funcs0, sexprs, pre, self.st(), Ok(())));
        }
        Ok(())
    }

    /// Run every instruction of a program in order, stopping at the first
    /// error.
    #[verifier::rlimit(100)]
    #[verifier::spinoff_prover]
    #[verifier::loop_isolation(false)]
    pub fn execute<F: FloatOps>(&mut self, program: &Program, fl: &F) -> (r: Result<(), Error>)
        ensures
            final(self).funcs() == old(self).funcs(),
            eval_program_rel(
                old(self).funcs(),
                view_program(*program),
                old(self).st(),
                final(self).st(),
                unit_view(r),
            ),
    {
        let ghost funcs0 = self.funcs();
        let ghost pre = self.st();
        let ghost sprog = view_program(*program);
        proof {
            assert(sprog.take(0) =~= Seq::<Seq<SpecExpression>>::empty());
        }
        let mut idx: usize = 0;
        while idx < program.instructions.len()
            invariant
                idx <= program.instructions.len(),
                self.funcs() == funcs0,
                eval_program_rel(funcs0, sprog.take(idx as int), pre, self.st(), Ok(())),
            decreases program.instructions.len() - idx,
        {
            let ghost cur = self.st();
            let ghost sinstr = sprog[idx as int];
            match self.execute_instruction(&program.instructions[idx], fl) {
                Err(e) => {
                    proof {
                        let now = self.st();
                        assert(unit_step(now, Err(e@)));
                        assert(eval_instruction_rel(funcs0, sinstr, cur, now, Err(e@)));
                        assert(sprog.skip(idx as int).first() == sinstr);
                        assert(eval_program_rel(
                            funcs0,
                            sprog.skip(idx as int),
                            cur,
                            now,
                            Err(e@),
                        ));
                        lemma_eval_program_compose(
                            funcs0,
                            sprog.take(idx as int),
                            sprog.skip(idx as int),
                            pre,
                            cur,
                            now,
                            Err(e@),
                        );
                        assert(sprog.take(idx as int) + sprog.skip(idx as int) =~= sprog);
                    }
                    return Err(e);
                },
                Ok(_) => {
                    proof {
                        let now = self.st();
                        assert(unit_step(now, Ok(())));
                        assert(eval_instruction_rel(funcs0, sinstr, cur, now, Ok(())));
                        assert(sprog.skip(idx as int).take(1).first() == sinstr);
                        assert(sprog.skip(idx as int).take(1).drop_first() =~= Seq::<
                            Seq<SpecExpression>,
                        >::empty());
                        assert(eval_program_rel(
                            funcs0,
                            sprog.skip(idx as int).take(1).drop_first(),
                            now,
                            now,
                            Ok(()),
                        ));
                        assert(eval_program_rel(
                            funcs0,
                            sprog.skip(idx as int).take(1),
                            cur,
                            now,
                            Ok(()),
                        ));
                        lemma_eval_program_compose(
                            funcs0,
                            sprog.take(idx as int),
                            sprog.skip(idx as int).take(1),
                            pre,
                            cur,
                            now,
                            Ok(()),
                        );
                        assert(sprog.take(idx as int) + sprog.skip(idx as int).take(1)
                            =~= sprog.take(idx + 1));
                    }
                },
            }
            idx = idx + 1;
        }
        proof {
            assert(sprog.take(program.instructions@.len() as int) =~= sprog);
        }
        Ok(())
    }

    /// Hand the buffered draw commands over, consuming the runtime; the
    /// caller forwards them to its rendering backend and flushes it.
    pub fn finish(self) -> (commands: Vec<DrawCommand>)
        ensures
            commands@ == self.emitted(),
    {
        self.commands
    }
}

impl Default for Runtime {
    /// A fresh runtime: empty stack, empty environment, no commands, and
    /// the whole built-in library registered.
    fn default() -> (rt: Self)
        ensures
            rt.eval_stack() == Seq::<Value>::empty(),
            rt.vars() == Map::<Seq<char>, Value>::empty(),
            rt.emitted() == Seq::<DrawCommand>::empty(),
            rt.funcs() == stdlib::spec_stdlib_table(),
    {
        let mut runtime = Runtime {
            stack: Stack::default(),
            variables: Vec::new(),
            functions: Vec::new(),
            commands: Vec::new(),
        };
        stdlib::register(&mut runtime);
        proof {
            assert(runtime.funcs() =~= stdlib::spec_stdlib_table());
        }
        runtime
    }
}

} // verus!
