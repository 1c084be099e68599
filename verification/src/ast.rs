//! Syntactic analysis: a recursive-descent parser that pulls tokens from a
//! tokenizer, one token of lookahead, and builds a program of instructions.
use vstd::prelude::*;

use crate::token;
use crate::token::{
    lemma_scan_bounds, spec_scan, Number, Payload, Position, SpecPayload, StringTokenizer,
};

verus! {

broadcast use crate::token::StringTokenizer::lemma_wf_bounds;

/// A whole source file: its instructions in order.
#[derive(Debug, PartialEq)]
pub struct Program {
    pub instructions: Vec<Instruction>,
}

/// One instruction: expressions evaluated left to right over one stack
/// lifetime.
#[derive(Debug, PartialEq)]
pub struct Instruction {
    pub expressions: Vec<Expression>,
}

/// An expression, whether its value is offered to the draw sink, and the
/// position the tokenizer stood at when the expression began.
#[derive(Debug, PartialEq)]
pub struct Expression {
    pub content: ExpressionContent,
    pub draw_result: bool,
    pub position: Position,
}

/// The forms an expression can take.
#[derive(Debug, PartialEq)]
pub enum ExpressionContent {
    Literal(Literal),
    Variable(String),
    FunctionCall { name: String, args: Vec<Argument> },
    Let { name: String, init: Option<Argument> },
    Screen(Argument, Argument),
}

/// The restricted forms usable as a function, let or screen operand.
#[derive(Debug, PartialEq)]
pub enum Argument {
    Variable(String),
    Literal(Literal),
    Parenthesized(Box<ExpressionContent>),
}

/// A literal: currently only numeric.
#[derive(Debug, Clone, Copy, PartialEq, Eq, Structural)]
pub enum Literal {
    Number(Number),
}

/// The ways parsing can fail.
#[derive(Debug, PartialEq)]
pub enum ErrorKind {
    /// The tokenizer failed; its failure is carried along.
    InvalidToken(token::ErrorKind),
    /// A token that fits no grammar rule at this point.
    UnexpectedToken(Payload),
    /// An expression was required and none was found.
    ExpectedExpression,
    /// A parenthesized expression was not closed.
    UnclosedDelimiter,
    /// `let` was not followed by a name.
    ExpectedIdentifier,
}

/// A parse failure and the position of the offending token.
#[derive(Debug, PartialEq)]
pub struct Error {
    pub at: Position,
    pub kind: ErrorKind,
}

impl Error {
    pub fn new(at: Position, kind: ErrorKind) -> (e: Self)
        ensures
            e.at == at,
            e.kind == kind,
    {
        Error { at, kind }
    }
}

// --- Contract-level mirrors of the syntax tree ---------------------------

pub ghost enum SpecContent {
    Literal(Literal),
    Variable(Seq<char>),
    FunctionCall { name: Seq<char>, args: Seq<SpecArgument> },
    Let { name: Seq<char>, init: Option<SpecArgument> },
    Screen(SpecArgument, SpecArgument),
}

pub ghost enum SpecArgument {
    Variable(Seq<char>),
    Literal(Literal),
    Parenthesized(Box<SpecContent>),
}

pub ghost struct SpecExpression {
    pub content: SpecContent,
    pub draw_result: bool,
    pub position: Position,
}

pub ghost enum SpecErrorKind {
    InvalidToken(token::ErrorKind),
    UnexpectedToken(SpecPayload),
    ExpectedExpression,
    UnclosedDelimiter,
    ExpectedIdentifier,
}

pub ghost struct SpecParseError {
    pub at: Position,
    pub kind: SpecErrorKind,
}

pub open spec fn view_arg(a: Argument) -> SpecArgument
    decreases a,
{
    match a {
        Argument::Variable(name) => SpecArgument::Variable(name@),
        Argument::Literal(l) => SpecArgument::Literal(l),
        Argument::Parenthesized(b) => SpecArgument::Parenthesized(Box::new(view_content(*b))),
    }
}

pub open spec fn view_args(args: Seq<Argument>) -> Seq<SpecArgument>
    decreases args,
{
    if args.len() == 0 {
        Seq::empty()
    } else {
        seq![view_arg(args.first())] + view_args(args.drop_first())
    }
}

pub open spec fn view_content(c: ExpressionContent) -> SpecContent
    decreases c,
{
    match c {
        ExpressionContent::Literal(l) => SpecContent::Literal(l),
        ExpressionContent::Variable(name) => SpecContent::Variable(name@),
        ExpressionContent::FunctionCall { name, args } => SpecContent::FunctionCall {
            name: name@,
            args: view_args(args@),
        },
        ExpressionContent::Let { name, init } => SpecContent::Let {
            name: name@,
            init: match init {
                Some(a) => Some(view_arg(a)),
                None => None,
            },
        },
        ExpressionContent::Screen(x, y) => SpecContent::Screen(view_arg(x), view_arg(y)),
    }
}

pub open spec fn view_expr(e: Expression) -> SpecExpression {
    SpecExpression {
        content: view_content(e.content),
        draw_result: e.draw_result,
        position: e.position,
    }
}

pub open spec fn view_exprs(es: Seq<Expression>) -> Seq<SpecExpression> {
    Seq::new(es.len(), |i: int| view_expr(es[i]))
}

pub open spec fn view_instruction(ins: Instruction) -> Seq<SpecExpression> {
    view_exprs(ins.expressions@)
}

pub open spec fn view_instrs(ins: Seq<Instruction>) -> Seq<Seq<SpecExpression>> {
    Seq::new(ins.len(), |i: int| view_instruction(ins[i]))
}

pub open spec fn view_program(p: Program) -> Seq<Seq<SpecExpression>> {
    view_instrs(p.instructions@)
}

impl View for ErrorKind {
    type V = SpecErrorKind;

    open spec fn view(&self) -> SpecErrorKind {
        match self {
            ErrorKind::InvalidToken(k) => SpecErrorKind::InvalidToken(*k),
            ErrorKind::UnexpectedToken(p) => SpecErrorKind::UnexpectedToken(p@),
            ErrorKind::ExpectedExpression => SpecErrorKind::ExpectedExpression,
            ErrorKind::UnclosedDelimiter => SpecErrorKind::UnclosedDelimiter,
            ErrorKind::ExpectedIdentifier => SpecErrorKind::ExpectedIdentifier,
        }
    }
}

impl View for Error {
    type V = SpecParseError;

    open spec fn view(&self) -> SpecParseError {
        SpecParseError { at: self.at, kind: self.kind@ }
    }
}

/// A tokenizer failure surfaced through the parser.
pub open spec fn wrap_token_err(e: token::Error) -> SpecParseError {
    SpecParseError { at: e.at, kind: SpecErrorKind::InvalidToken(e.kind) }
}

// --- The grammar, as specification functions ------------------------------
//
// Each function takes the source characters, an index and the position
// there, and yields its result together with the index and position just
// past everything it consumed. The guards `i < .. <= s.len()` on recursive
// calls only restate that a consumed token moved the scan forward, which
// `lemma_scan_bounds` shows; the branches they cut off are never taken.

pub ghost struct ArgOut {
    pub result: Result<Option<SpecArgument>, SpecParseError>,
    pub end: int,
    pub pos: Position,
}

pub ghost struct ArgsOut {
    pub result: Result<Seq<SpecArgument>, SpecParseError>,
    pub end: int,
    pub pos: Position,
}

pub ghost struct ExprOut {
    pub result: Result<Option<SpecContent>, SpecParseError>,
    pub end: int,
    pub pos: Position,
}

pub ghost struct ItemsOut {
    pub result: Result<Seq<SpecExpression>, SpecParseError>,
    pub end: int,
    pub pos: Position,
}

pub ghost struct InstrOut {
    pub result: Result<Option<Seq<SpecExpression>>, SpecParseError>,
    pub end: int,
    pub pos: Position,
}

pub ghost struct FileOut {
    pub result: Result<Seq<Seq<SpecExpression>>, SpecParseError>,
    pub end: int,
    pub pos: Position,
}

/// One argument: a variable or literal token is consumed as a leaf; `(`
/// opens a parenthesized expression that must close with `)`; any other
/// lookahead means "no argument here" and consumes nothing.
pub open spec fn spec_parse_arg(s: Seq<char>, i: int, pos: Position) -> ArgOut
    decreases s.len() - i, 0int,
{
    let so = spec_scan(s, i, pos);
    match so.result {
        Err(te) => ArgOut { result: Err(wrap_token_err(te)), end: i, pos },
        Ok(t) => match t.payload {
            SpecPayload::Variable(name) => ArgOut {
                result: Ok(Some(SpecArgument::Variable(name))),
                end: so.end,
                pos: so.pos,
            },
            SpecPayload::LitNumber(n) => ArgOut {
                result: Ok(Some(SpecArgument::Literal(Literal::Number(n)))),
                end: so.end,
                pos: so.pos,
            },
            SpecPayload::ParenL => {
                if i < so.end <= s.len() {
                    let e = spec_parse_expr(s, so.end, so.pos);
                    match e.result {
                        Err(err) => ArgOut { result: Err(err), end: e.end, pos: e.pos },
                        Ok(None) => ArgOut {
                            result: Err(
                                SpecParseError {
                                    at: t.position,
                                    kind: SpecErrorKind::ExpectedExpression,
                                },
                            ),
                            end: e.end,
                            pos: e.pos,
                        },
                        Ok(Some(content)) => {
                            let so2 = spec_scan(s, e.end, e.pos);
                            match so2.result {
                                Err(te) => ArgOut {
                                    result: Err(wrap_token_err(te)),
                                    end: e.end,
                                    pos: e.pos,
                                },
                                Ok(t2) => if t2.payload is ParenR {
                                    ArgOut {
                                        result: Ok(
                                            Some(
                                                SpecArgument::Parenthesized(Box::new(content)),
                                            ),
                                        ),
                                        end: so2.end,
                                        pos: so2.pos,
                                    }
                                } else {
                                    ArgOut {
                                        result: Err(
                                            SpecParseError {
                                                at: t.position,
                                                kind: SpecErrorKind::UnclosedDelimiter,
                                            },
                                        ),
                                        end: e.end,
                                        pos: e.pos,
                                    }
                                },
                            }
                        },
                    }
                } else {
                    ArgOut { result: Ok(None), end: i, pos }
                }
            },
            _ => ArgOut { result: Ok(None), end: i, pos },
        },
    }
}

/// Zero or more arguments, collected until the first lookahead that cannot
/// start one.
pub open spec fn spec_parse_args(s: Seq<char>, i: int, pos: Position) -> ArgsOut
    decreases s.len() - i, 1int,
{
    let a = spec_parse_arg(s, i, pos);
    match a.result {
        Err(err) => ArgsOut { result: Err(err), end: a.end, pos: a.pos },
        Ok(None) => ArgsOut { result: Ok(Seq::empty()), end: a.end, pos: a.pos },
        Ok(Some(x)) => {
            if i < a.end <= s.len() {
                let rest = spec_parse_args(s, a.end, a.pos);
                match rest.result {
                    Err(err) => ArgsOut { result: Err(err), end: rest.end, pos: rest.pos },
                    Ok(xs) => ArgsOut {
                        result: Ok(seq![x] + xs),
                        end: rest.end,
                        pos: rest.pos,
                    },
                }
            } else {
                ArgsOut { result: Ok(seq![x]), end: a.end, pos: a.pos }
            }
        },
    }
}

/// One expression: a literal or variable stands alone; a name greedily
/// takes arguments to form a function call, except that the name `screen`
/// demands exactly two arguments; `let` demands a name and takes an
/// optional initializer; a line break or the end of the input with nothing
/// parsed means "no expression"; anything else is an unexpected token.
pub open spec fn spec_parse_expr(s: Seq<char>, i: int, pos: Position) -> ExprOut
    decreases s.len() - i, 2int,
{
    let so = spec_scan(s, i, pos);
    match so.result {
        Err(te) => ExprOut { result: Err(wrap_token_err(te)), end: so.end, pos: so.pos },
        Ok(t) => match t.payload {
            SpecPayload::LitNumber(n) => ExprOut {
                result: Ok(Some(SpecContent::Literal(Literal::Number(n)))),
                end: so.end,
                pos: so.pos,
            },
            SpecPayload::Variable(name) => ExprOut {
                result: Ok(Some(SpecContent::Variable(name))),
                end: so.end,
                pos: so.pos,
            },
            SpecPayload::Name(name) => {
                if i <= so.end <= s.len() {
                    if name == "screen"@ {
                        let a1 = spec_parse_arg(s, so.end, so.pos);
                        match a1.result {
                            Err(err) => ExprOut { result: Err(err), end: a1.end, pos: a1.pos },
                            Ok(None) => ExprOut {
                                result: Err(
                                    SpecParseError {
                                        at: t.position,
                                        kind: SpecErrorKind::ExpectedExpression,
                                    },
                                ),
                                end: a1.end,
                                pos: a1.pos,
                            },
                            Ok(Some(x)) => {
                                if i <= a1.end <= s.len() {
                                    let a2 = spec_parse_arg(s, a1.end, a1.pos);
                                    match a2.result {
                                        Err(err) => ExprOut {
                                            result: Err(err),
                                            end: a2.end,
                                            pos: a2.pos,
                                        },
                                        Ok(None) => ExprOut {
                                            result: Err(
                                                SpecParseError {
                                                    at: t.position,
                                                    kind: SpecErrorKind::ExpectedExpression,
                                                },
                                            ),
                                            end: a2.end,
                                            pos: a2.pos,
                                        },
                                        Ok(Some(y)) => ExprOut {
                                            result: Ok(Some(SpecContent::Screen(x, y))),
                                            end: a2.end,
                                            pos: a2.pos,
                                        },
                                    }
                                } else {
                                    ExprOut { result: Ok(None), end: a1.end, pos: a1.pos }
                                }
                            },
                        }
                    } else {
                        let ar = spec_parse_args(s, so.end, so.pos);
                        match ar.result {
                            Err(err) => ExprOut { result: Err(err), end: ar.end, pos: ar.pos },
                            Ok(args) => ExprOut {
                                result: Ok(Some(SpecContent::FunctionCall { name, args })),
                                end: ar.end,
                                pos: ar.pos,
                            },
                        }
                    }
                } else {
                    ExprOut { result: Ok(None), end: i, pos }
                }
            },
            SpecPayload::Let => {
                let so2 = spec_scan(s, so.end, so.pos);
                match so2.result {
                    Err(te) => ExprOut {
                        result: Err(wrap_token_err(te)),
                        end: so2.end,
                        pos: so2.pos,
                    },
                    Ok(t2) => match t2.payload {
                        SpecPayload::Name(name) => {
                            if i <= so2.end <= s.len() {
                                let a = spec_parse_arg(s, so2.end, so2.pos);
                                match a.result {
                                    Err(err) => ExprOut {
                                        result: Err(err),
                                        end: a.end,
                                        pos: a.pos,
                                    },
                                    Ok(init) => ExprOut {
                                        result: Ok(Some(SpecContent::Let { name, init })),
                                        end: a.end,
                                        pos: a.pos,
                                    },
                                }
                            } else {
                                ExprOut { result: Ok(None), end: so2.end, pos: so2.pos }
                            }
                        },
                        _ => ExprOut {
                            result: Err(
                                SpecParseError {
                                    at: t2.position,
                                    kind: SpecErrorKind::ExpectedIdentifier,
                                },
                            ),
                            end: so2.end,
                            pos: so2.pos,
                        },
                    },
                }
            },
            SpecPayload::Newline => ExprOut { result: Ok(None), end: so.end, pos: so.pos },
            SpecPayload::Eof => ExprOut { result: Ok(None), end: so.end, pos: so.pos },
            _ => ExprOut {
                result: Err(
                    SpecParseError {
                        at: t.position,
                        kind: SpecErrorKind::UnexpectedToken(t.payload),
                    },
                ),
                end: so.end,
                pos: so.pos,
            },
        },
    }
}

/// The expressions of one instruction: after each expression the following
/// token decides whether its value is drawn (`=>` suppresses, `;`, a line
/// break or the end of the input draws) and whether the instruction goes
/// on (`;` and `=>` continue it).
pub open spec fn spec_parse_instr_items(s: Seq<char>, i: int, pos: Position) -> ItemsOut
    decreases s.len() - i, 3int,
{
    let e = spec_parse_expr(s, i, pos);
    match e.result {
        Err(err) => ItemsOut { result: Err(err), end: e.end, pos: e.pos },
        Ok(None) => ItemsOut { result: Ok(Seq::empty()), end: e.end, pos: e.pos },
        Ok(Some(content)) => {
            let so = spec_scan(s, e.end, e.pos);
            match so.result {
                Err(te) => ItemsOut {
                    result: Err(wrap_token_err(te)),
                    end: so.end,
                    pos: so.pos,
                },
                Ok(t) => match t.payload {
                    SpecPayload::Pipe | SpecPayload::Concat => {
                        let x = SpecExpression {
                            content,
                            draw_result: t.payload is Concat,
                            position: pos,
                        };
                        if i < so.end <= s.len() {
                            let rest = spec_parse_instr_items(s, so.end, so.pos);
                            match rest.result {
                                Err(err) => ItemsOut {
                                    result: Err(err),
                                    end: rest.end,
                                    pos: rest.pos,
                                },
                                Ok(xs) => ItemsOut {
                                    result: Ok(seq![x] + xs),
                                    end: rest.end,
                                    pos: rest.pos,
                                },
                            }
                        } else {
                            ItemsOut { result: Ok(seq![x]), end: so.end, pos: so.pos }
                        }
                    },
                    SpecPayload::Newline | SpecPayload::Eof => {
                        let x = SpecExpression { content, draw_result: true, position: pos };
                        ItemsOut { result: Ok(seq![x]), end: so.end, pos: so.pos }
                    },
                    _ => ItemsOut {
                        result: Err(
                            SpecParseError {
                                at: t.position,
                                kind: SpecErrorKind::UnexpectedToken(t.payload),
                            },
                        ),
                        end: so.end,
                        pos: so.pos,
                    },
                },
            }
        },
    }
}

/// One instruction: its expressions, or `None` at the end of the input.
/// A blank line parses no expressions and is skipped by parsing on.
pub open spec fn spec_parse_instruction(s: Seq<char>, i: int, pos: Position) -> InstrOut
    decreases s.len() - i, 4int,
{
    let items = spec_parse_instr_items(s, i, pos);
    match items.result {
        Err(err) => InstrOut { result: Err(err), end: items.end, pos: items.pos },
        Ok(exprs) => {
            if exprs.len() > 0 {
                InstrOut { result: Ok(Some(exprs)), end: items.end, pos: items.pos }
            } else {
                let so = spec_scan(s, items.end, items.pos);
                match so.result {
                    Err(te) => InstrOut {
                        result: Err(wrap_token_err(te)),
                        end: items.end,
                        pos: items.pos,
                    },
                    Ok(t) => if t.payload is Eof {
                        InstrOut { result: Ok(None), end: items.end, pos: items.pos }
                    } else if i < items.end <= s.len() {
                        spec_parse_instruction(s, items.end, items.pos)
                    } else {
                        InstrOut { result: Ok(None), end: items.end, pos: items.pos }
                    },
                }
            }
        },
    }
}

/// A whole file: every instruction before the end of the input.
pub open spec fn spec_parse_file(s: Seq<char>, i: int, pos: Position) -> FileOut
    decreases s.len() - i, 5int,
{
    let r = spec_parse_instruction(s, i, pos);
    match r.result {
        Err(err) => FileOut { result: Err(err), end: r.end, pos: r.pos },
        Ok(None) => FileOut { result: Ok(Seq::empty()), end: r.end, pos: r.pos },
        Ok(Some(instr)) => {
            if i < r.end <= s.len() {
                let rest = spec_parse_file(s, r.end, r.pos);
                match rest.result {
                    Err(err) => FileOut { result: Err(err), end: rest.end, pos: rest.pos },
                    Ok(xs) => FileOut {
                        result: Ok(seq![instr] + xs),
                        end: rest.end,
                        pos: rest.pos,
                    },
                }
            } else {
                FileOut { result: Ok(seq![instr]), end: r.end, pos: r.pos }
            }
        },
    }
}

// --- The executable parser ------------------------------------------------

pub open spec fn arg_matches(
    r: Result<Option<Argument>, Error>,
    sr: Result<Option<SpecArgument>, SpecParseError>,
) -> bool {
    match (r, sr) {
        (Ok(Some(a)), Ok(Some(sa))) => view_arg(a) == sa,
        (Ok(None), Ok(None)) => true,
        (Err(e), Err(se)) => e@ == se,
        _ => false,
    }
}

pub open spec fn expr_matches(
    r: Result<Option<ExpressionContent>, Error>,
    sr: Result<Option<SpecContent>, SpecParseError>,
) -> bool {
    match (r, sr) {
        (Ok(Some(c)), Ok(Some(sc))) => view_content(c) == sc,
        (Ok(None), Ok(None)) => true,
        (Err(e), Err(se)) => e@ == se,
        _ => false,
    }
}

pub open spec fn instruction_matches(
    r: Result<Option<Instruction>, Error>,
    sr: Result<Option<Seq<SpecExpression>>, SpecParseError>,
) -> bool {
    match (r, sr) {
        (Ok(Some(ins)), Ok(Some(sx))) => view_instruction(ins) == sx,
        (Ok(None), Ok(None)) => true,
        (Err(e), Err(se)) => e@ == se,
        _ => false,
    }
}

pub open spec fn program_matches(
    r: Result<Program, Error>,
    sr: Result<Seq<Seq<SpecExpression>>, SpecParseError>,
) -> bool {
    match (r, sr) {
        (Ok(p), Ok(sp)) => view_program(p) == sp,
        (Err(e), Err(se)) => e@ == se,
        _ => false,
    }
}

/// `view_args` maps the sequence pointwise.
pub proof fn lemma_view_args_props(args: Seq<Argument>)
    ensures
        view_args(args).len() == args.len(),
        forall|i: int| 0 <= i < args.len() ==> view_args(args)[i] == view_arg(args[i]),
    decreases args.len(),
{
    if args.len() > 0 {
        lemma_view_args_props(args.drop_first());
    }
}

proof fn lemma_view_args_push(args: Seq<Argument>, x: Argument)
    ensures
        view_args(args.push(x)) == view_args(args) + seq![view_arg(x)],
    decreases args.len(),
{
    if args.len() == 0 {
        assert(args.push(x).drop_first() =~= Seq::empty());
        assert(args.push(x).first() == x);
        assert(view_args(args.push(x).drop_first()) =~= Seq::empty());
        assert(view_args(args.push(x)) =~= seq![view_arg(x)] + Seq::empty());
        assert(view_args(args) =~= Seq::empty());
        assert(view_args(args.push(x)) =~= view_args(args) + seq![view_arg(x)]);
    } else {
        lemma_view_args_push(args.drop_first(), x);
        assert(args.push(x).drop_first() =~= args.drop_first().push(x));
        assert(args.push(x).first() == args.first());
        assert(view_args(args.push(x)) =~= seq![view_arg(args.first())] + (view_args(
            args.drop_first(),
        ) + seq![view_arg(x)]));
        assert(seq![view_arg(args.first())] + (view_args(args.drop_first()) + seq![
            view_arg(x),
        ]) =~= (seq![view_arg(args.first())] + view_args(args.drop_first())) + seq![
            view_arg(x),
        ]);
        assert(view_args(args.push(x)) =~= view_args(args) + seq![view_arg(x)]);
    }
}

/// Parse one argument, if the lookahead can start one: a variable or
/// literal token, or a parenthesized expression that must close.
#[verifier::rlimit(50)]
#[verifier::spinoff_prover]
pub fn parse_arg(source: &mut StringTokenizer) -> (r: Result<Option<Argument>, Error>)
    requires
        old(source).wf(),
    ensures
        final(source).wf(),
        final(source).chars() == old(source).chars(),
        final(source).at() >= old(source).at(),
        r matches Ok(Some(_)) ==> final(source).at() > old(source).at(),
        ({
            let out = spec_parse_arg(old(source).chars(), old(source).at(), old(source).pos());
            &&& final(source).at() == out.end
            &&& final(source).pos() == out.pos
            &&& arg_matches(r, out.result)
        }),
    decreases old(source).chars().len() - old(source).at(), 0int,
{
    let ghost s = source.chars();
    let ghost i0 = source.at();
    let ghost p0 = source.pos();
    proof {
        lemma_scan_bounds(s, i0, p0);
    }
    let start = match source.peek_token() {
        Err(e) => {
            return Err(Error::new(e.at, ErrorKind::InvalidToken(e.kind)));
        },
        Ok(t) => t,
    };
    match start.payload {
        Payload::Variable(name) => {
            let _ = source.read_token();
            Ok(Some(Argument::Variable(name)))
        },
        Payload::LitNumber(n) => {
            let _ = source.read_token();
            Ok(Some(Argument::Literal(Literal::Number(n))))
        },
        Payload::ParenL => {
            let _ = source.read_token();
            match parse_expr(source) {
                Err(e) => Err(e),
                Ok(None) => Err(Error::new(start.position, ErrorKind::ExpectedExpression)),
                Ok(Some(content)) => {
                    proof {
                        lemma_scan_bounds(s, source.at(), source.pos());
                    }
                    let next = match source.peek_token() {
                        Err(e) => {
                            return Err(Error::new(e.at, ErrorKind::InvalidToken(e.kind)));
                        },
                        Ok(t) => t,
                    };
                    match next.payload {
                        Payload::ParenR => {
                            let _ = source.read_token();
                            Ok(Some(Argument::Parenthesized(Box::new(content))))
                        },
                        _ => Err(Error::new(start.position, ErrorKind::UnclosedDelimiter)),
                    }
                },
            }
        },
        _ => Ok(None),
    }
}

/// Parse one expression, or `None` when the line or the input ends here.
#[verifier::rlimit(100)]
#[verifier::spinoff_prover]
#[verifier::loop_isolation(false)]
pub fn parse_expr(source: &mut StringTokenizer) -> (r: Result<
    Option<ExpressionContent>,
    Error,
>)
    requires
        old(source).wf(),
    ensures
        final(source).wf(),
        final(source).chars() == old(source).chars(),
        final(source).at() >= old(source).at(),
        r matches Ok(Some(_)) ==> final(source).at() > old(source).at(),
        ({
            let out = spec_parse_expr(old(source).chars(), old(source).at(), old(source).pos());
            &&& final(source).at() == out.end
            &&& final(source).pos() == out.pos
            &&& expr_matches(r, out.result)
        }),
    decreases old(source).chars().len() - old(source).at(), 2int,
{
    let ghost s = source.chars();
    let ghost i0 = source.at();
    let ghost p0 = source.pos();
    proof {
        lemma_scan_bounds(s, i0, p0);
    }
    let tok = match source.read_token() {
        Err(e) => {
            return Err(Error::new(e.at, ErrorKind::InvalidToken(e.kind)));
        },
        Ok(t) => t,
    };
    match tok.payload {
        Payload::LitNumber(n) => Ok(Some(ExpressionContent::Literal(Literal::Number(n)))),
        Payload::Variable(name) => Ok(Some(ExpressionContent::Variable(name))),
        Payload::Name(name) => {
            let screen_word: String = "screen".to_owned();
            if name == screen_word {
                let x = match parse_arg(source) {
                    Err(e) => {
                        return Err(e);
                    },
                    Ok(None) => {
                        return Err(Error::new(tok.position, ErrorKind::ExpectedExpression));
                    },
                    Ok(Some(a)) => a,
                };
                let y = match parse_arg(source) {
                    Err(e) => {
                        return Err(e);
                    },
                    Ok(None) => {
                        return Err(Error::new(tok.position, ErrorKind::ExpectedExpression));
                    },
                    Ok(Some(a)) => a,
                };
                Ok(Some(ExpressionContent::Screen(x, y)))
            } else {
                let ghost ea = source.at();
                let ghost ep = source.pos();
                let mut args: Vec<Argument> = Vec::new();
                proof {
                    let fr = spec_parse_args(s, ea, ep);
                    if fr.result is Ok {
                        assert(Seq::empty() + fr.result->Ok_0 =~= fr.result->Ok_0);
                    }
                }
                loop
                    invariant
                        source.wf(),
                        source.chars() == s,
                        ea <= source.at() <= s.len(),
                        i0 < source.at(),
                        ({
                            let full = spec_parse_args(s, ea, ep);
                            let rest = spec_parse_args(s, source.at(), source.pos());
                            &&& full.end == rest.end
                            &&& full.pos == rest.pos
                            &&& match (full.result, rest.result) {
                                (Ok(fxs), Ok(xs)) => fxs == view_args(args@) + xs,
                                (Err(e1), Err(e2)) => e1 == e2,
                                _ => false,
                            }
                        }),
                    decreases s.len() - source.at(),
                {
                    let ghost ci = source.at();
                    let ghost cp = source.pos();
                    match parse_arg(source) {
                        Err(e) => {
                            return Err(e);
                        },
                        Ok(None) => {
                            proof {
                                let full = spec_parse_args(s, ea, ep);
                                if full.result is Ok {
                                    assert(view_args(args@) + Seq::empty() =~= view_args(
                                        args@,
                                    ));
                                }
                            }
                            return Ok(Some(ExpressionContent::FunctionCall { name, args }));
                        },
                        Ok(Some(a)) => {
                            proof {
                                lemma_view_args_push(args@, a);
                                let full = spec_parse_args(s, ea, ep);
                                let tail = spec_parse_args(s, source.at(), source.pos());
                                if full.result is Ok && tail.result is Ok {
                                    assert(view_args(args@) + (seq![view_arg(a)]
                                        + tail.result->Ok_0) =~= view_args(args@.push(a))
                                        + tail.result->Ok_0);
                                }
                            }
                            args.push(a);
                        },
                    }
                }
            }
        },
        Payload::Let => {
            proof {
                lemma_scan_bounds(s, source.at(), source.pos());
            }
            let tok2 = match source.read_token() {
                Err(e) => {
                    return Err(Error::new(e.at, ErrorKind::InvalidToken(e.kind)));
                },
                Ok(t) => t,
            };
            match tok2.payload {
                Payload::Name(name) => {
                    let init = match parse_arg(source) {
                        Err(e) => {
                            return Err(e);
                        },
                        Ok(o) => o,
                    };
                    Ok(Some(ExpressionContent::Let { name, init }))
                },
                _ => Err(Error::new(tok2.position, ErrorKind::ExpectedIdentifier)),
            }
        },
        Payload::Newline => Ok(None),
        Payload::Eof => Ok(None),
        other => Err(Error::new(tok.position, ErrorKind::UnexpectedToken(other))),
    }
}

/// Parse one instruction, skipping blank lines; `None` at the end of the
/// input.
#[verifier::rlimit(100)]
#[verifier::spinoff_prover]
#[verifier::loop_isolation(false)]
pub fn parse_instruction(source: &mut StringTokenizer) -> (r: Result<Option<Instruction>, Error>)
    requires
        old(source).wf(),
    ensures
        final(source).wf(),
        final(source).chars() == old(source).chars(),
        final(source).at() >= old(source).at(),
        r matches Ok(Some(_)) ==> final(source).at() > old(source).at(),
        ({
            let out = spec_parse_instruction(
                old(source).chars(),
                old(source).at(),
                old(source).pos(),
            );
            &&& final(source).at() == out.end
            &&& final(source).pos() == out.pos
            &&& instruction_matches(r, out.result)
        }),
    decreases old(source).chars().len() - old(source).at(), 4int,
{
    let ghost s = source.chars();
    let ghost i0 = source.at();
    let ghost p0 = source.pos();
    let mut result: Vec<Expression> = Vec::new();
    proof {
        let fr = spec_parse_instr_items(s, i0, p0);
        if fr.result is Ok {
            assert(Seq::empty() + fr.result->Ok_0 =~= fr.result->Ok_0);
        }
        assert(view_exprs(result@) =~= Seq::empty());
    }
    loop
        invariant
            source.wf(),
            source.chars() == s,
            i0 <= source.at() <= s.len(),
            result@.len() > 0 ==> source.at() > i0,
            ({
                let full = spec_parse_instr_items(s, i0, p0);
                let rest = spec_parse_instr_items(s, source.at(), source.pos());
                &&& full.end == rest.end
                &&& full.pos == rest.pos
                &&& match (full.result, rest.result) {
                    (Ok(fxs), Ok(xs)) => fxs == view_exprs(result@) + xs,
                    (Err(e1), Err(e2)) => e1 == e2,
                    _ => false,
                }
            }),
        decreases s.len() - source.at(),
    {
        let position = source.position();
        let ghost ci = source.at();
        let ghost cp = source.pos();
        let content = match parse_expr(source) {
            Err(e) => {
                return Err(e);
            },
            Ok(None) => {
                proof {
                    let full = spec_parse_instr_items(s, i0, p0);
                    if full.result is Ok {
                        assert(view_exprs(result@) + Seq::empty() =~= view_exprs(result@));
                    }
                    lemma_scan_bounds(s, ci, cp);
                    lemma_scan_bounds(s, source.at(), source.pos());
                }
                if result.len() > 0 {
                    return Ok(Some(Instruction { expressions: result }));
                }
                let peeked = match source.peek_token() {
                    Err(e) => {
                        return Err(Error::new(e.at, ErrorKind::InvalidToken(e.kind)));
                    },
                    Ok(t) => t,
                };
                if let Payload::Eof = peeked.payload {
                    return Ok(None);
                }
                return parse_instruction(source);
            },
            Ok(Some(c)) => c,
        };
        proof {
            lemma_scan_bounds(s, source.at(), source.pos());
        }
        let join_tok = match source.read_token() {
            Err(e) => {
                return Err(Error::new(e.at, ErrorKind::InvalidToken(e.kind)));
            },
            Ok(t) => t,
        };
        let join_position = join_tok.position;
        let mut terminate = false;
        let draw_result = match join_tok.payload {
            Payload::Pipe => false,
            Payload::Concat => true,
            Payload::Newline => {
                terminate = true;
                true
            },
            Payload::Eof => {
                terminate = true;
                true
            },
            other => {
                return Err(Error::new(join_position, ErrorKind::UnexpectedToken(other)));
            },
        };
        let ghost old_result = result@;
        result.push(Expression { content, draw_result, position });
        proof {
            assert(view_exprs(old_result.push(
                Expression { content, draw_result, position },
            )) =~= view_exprs(old_result) + seq![
                view_expr(Expression { content, draw_result, position }),
            ]);
            let full = spec_parse_instr_items(s, i0, p0);
            let rest = spec_parse_instr_items(s, ci, cp);
            let tail = spec_parse_instr_items(s, source.at(), source.pos());
            if full.result is Ok && tail.result is Ok {
                assert(view_exprs(old_result) + (seq![
                    view_expr(Expression { content, draw_result, position }),
                ] + tail.result->Ok_0) =~= view_exprs(old_result.push(
                    Expression { content, draw_result, position },
                )) + tail.result->Ok_0);
            }
        }
        if terminate {
            return Ok(Some(Instruction { expressions: result }));
        }
    }
}

/// Parse a whole file: every instruction found before the end of the
/// input, or the first error.
#[verifier::rlimit(50)]
#[verifier::spinoff_prover]
#[verifier::loop_isolation(false)]
pub fn parse_file(source: &mut StringTokenizer) -> (r: Result<Program, Error>)
    requires
        old(source).wf(),
    ensures
        final(source).wf(),
        final(source).chars() == old(source).chars(),
        ({
            let out = spec_parse_file(old(source).chars(), old(source).at(), old(source).pos());
            &&& final(source).at() == out.end
            &&& final(source).pos() == out.pos
            &&& program_matches(r, out.result)
        }),
{
    let ghost s = source.chars();
    let ghost i0 = source.at();
    let ghost p0 = source.pos();
    let mut instructions: Vec<Instruction> = Vec::new();
    proof {
        let fr = spec_parse_file(s, i0, p0);
        if fr.result is Ok {
            assert(Seq::empty() + fr.result->Ok_0 =~= fr.result->Ok_0);
        }
        assert(view_instrs(instructions@) =~= Seq::empty());
    }
    loop
        invariant
            source.wf(),
            source.chars() == s,
            i0 <= source.at() <= s.len(),
            ({
                let full = spec_parse_file(s, i0, p0);
                let rest = spec_parse_file(s, source.at(), source.pos());
                &&& full.end == rest.end
                &&& full.pos == rest.pos
                &&& match (full.result, rest.result) {
                    (Ok(fxs), Ok(xs)) => fxs == view_instrs(instructions@) + xs,
                    (Err(e1), Err(e2)) => e1 == e2,
                    _ => false,
                }
            }),
        decreases s.len() - source.at(),
    {
        let ghost ci = source.at();
        match parse_instruction(source) {
            Err(e) => {
                return Err(e);
            },
            Ok(None) => {
                proof {
                    let full = spec_parse_file(s, i0, p0);
                    if full.result is Ok {
                        assert(view_instrs(instructions@) + Seq::empty() =~= view_instrs(
                            instructions@,
                        ));
                    }
                }
                return Ok(Program { instructions });
            },
            Ok(Some(ins)) => {
                proof {
                    let ghost vi = view_instruction(ins);
                    assert(view_instrs(instructions@.push(ins)) =~= view_instrs(instructions@)
                        + seq![vi]);
                    let full = spec_parse_file(s, i0, p0);
                    let tail = spec_parse_file(s, source.at(), source.pos());
                    if full.result is Ok && tail.result is Ok {
                        assert(view_instrs(instructions@) + (seq![vi] + tail.result->Ok_0)
                            =~= view_instrs(instructions@.push(ins)) + tail.result->Ok_0);
                    }
                }
                instructions.push(ins);
            },
        }
    }
}

} // verus!
