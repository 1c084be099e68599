//! End-to-end tests of the runtime: programs are parsed and executed with
//! the machine's floating point as the embedder's arithmetic, and the
//! buffered draw commands are inspected.
use graze::ast::parse_file;
use graze::output::DrawCommand;
use graze::runtime::{Builtin, Error, Runtime, Value};
use graze::stdlib::scalar::FloatOps;
use graze::stdlib::{Point, Scalar, Vector};
use graze::token::StringTokenizer;

struct HostFloat;

impl FloatOps for HostFloat {
    fn add_bits(&self, a: u64, b: u64) -> u64 {
        (f64::from_bits(a) + f64::from_bits(b)).to_bits()
    }

    fn sub_bits(&self, a: u64, b: u64) -> u64 {
        (f64::from_bits(a) - f64::from_bits(b)).to_bits()
    }

    fn mul_bits(&self, a: u64, b: u64) -> u64 {
        (f64::from_bits(a) * f64::from_bits(b)).to_bits()
    }

    fn div_bits(&self, a: u64, b: u64) -> u64 {
        (f64::from_bits(a) / f64::from_bits(b)).to_bits()
    }

    fn sqrt_bits(&self, a: u64) -> u64 {
        f64::from_bits(a).sqrt().to_bits()
    }

    fn int_to_bits(&self, i: i64) -> u64 {
        (i as f64).to_bits()
    }
}

fn run(source: &str) -> Result<Vec<DrawCommand>, Error> {
    let mut tokens = StringTokenizer::new(source);
    let program = parse_file(&mut tokens).expect("the test program should parse");
    let mut runtime = Runtime::default();
    runtime.define_fn("line", Builtin::Line);
    runtime.execute(&program, &HostFloat)?;
    Ok(runtime.finish())
}

fn scalar(value: i64) -> Scalar {
    Scalar::integer(value)
}

#[test]
fn test_end_to_end_line_program() {
    // Two points are built and offered to the sink (a Point converts to no
    // command), then `line` consumes both and its Line value is drawn.
    let commands = run("pnt2 10 10; pnt2 20 20; line").unwrap();
    assert_eq!(
        commands,
        vec![DrawCommand::Line {
            origin: Point { x: scalar(10), y: scalar(10) },
            direction: Vector { x: scalar(10), y: scalar(10) },
        }]
    );
}

#[test]
fn test_pipe_suppresses_drawing_concat_draws() {
    // `=>` suppresses the draw of its left expression, so only the second
    // line value is drawn.
    let commands =
        run("pnt2 0 0; pnt2 1 1; line => add 0 0\npnt2 2 2; pnt2 3 3; line").unwrap();
    assert_eq!(commands.len(), 1);
    assert_eq!(
        commands[0],
        DrawCommand::Line {
            origin: Point { x: scalar(2), y: scalar(2) },
            direction: Vector { x: scalar(1), y: scalar(1) },
        }
    );
}

#[test]
fn test_screen_emits_resize() {
    let commands = run("screen 800 600").unwrap();
    assert_eq!(
        commands,
        vec![DrawCommand::Resize { x: scalar(800), y: scalar(600) }]
    );
}

#[test]
fn test_let_round_trip_returns_the_bound_value() {
    // The value bound by the let comes back through the reference, exact:
    // both uses of $s feed the resize command.
    let commands = run("let s 7\nscreen $s $s").unwrap();
    assert_eq!(
        commands,
        vec![DrawCommand::Resize { x: scalar(7), y: scalar(7) }]
    );
}

#[test]
fn test_let_without_initializer_pops_the_piped_value() {
    let commands = run("42 => let x\nscreen $x $x").unwrap();
    assert_eq!(
        commands,
        vec![DrawCommand::Resize { x: scalar(42), y: scalar(42) }]
    );
}

#[test]
fn test_stack_is_cleared_between_instructions() {
    // The first instruction leaves values on the stack; the next one
    // starts from an empty stack, so a bare `let` underflows.
    let result = run("1; 2; 3\nlet x");
    assert_eq!(result, Err(Error::StackUnderflow));
}

#[test]
fn test_environment_persists_across_instructions() {
    let commands = run("let w 320\nlet h 200\nscreen $w $h").unwrap();
    assert_eq!(
        commands,
        vec![DrawCommand::Resize { x: scalar(320), y: scalar(200) }]
    );
}

#[test]
fn test_variable_not_found() {
    let result = run("$nope");
    assert_eq!(result, Err(Error::VariableNotFound(String::from("nope"))));
}

#[test]
fn test_function_not_found() {
    let result = run("frobnicate 1 2");
    assert_eq!(result, Err(Error::FunctionNotFound(String::from("frobnicate"))));
}

#[test]
fn test_int_literal_too_large_for_value() {
    // Fits the tokenizer's unsigned 64 bits but not a signed scalar.
    let result = run("9223372036854775808");
    assert_eq!(result, Err(Error::IntLiteralTooLarge));
    let fits = run("9223372036854775807");
    assert_eq!(fits, Ok(vec![]));
}

#[test]
fn test_nested_arguments_compute_through_the_stack() {
    // add (mul 2 3) 4 == 10; observed through the resize command.
    let commands = run("screen (add (mul 2 3) 4) 1").unwrap();
    assert_eq!(
        commands,
        vec![DrawCommand::Resize { x: scalar(10), y: scalar(1) }]
    );
}

#[test]
fn test_screen_rejects_non_scalar_arguments() {
    let result = run("screen (pnt2 1 2) 3");
    assert_eq!(result, Err(Error::InvalidArgument));
}

#[test]
fn test_sqrt_of_nine_is_float_three() {
    let commands = run("screen (sqrt 9) 1").unwrap();
    assert_eq!(
        commands,
        vec![DrawCommand::Resize {
            x: Scalar::from_float_bits(3.0f64.to_bits()),
            y: scalar(1),
        }]
    );
}

#[test]
fn test_sqrt_of_negative_is_a_non_real_result() {
    let result = run("sqrt (sub 0 9)");
    assert_eq!(result, Err(Error::NonRealResult));
}

#[test]
fn test_execution_stops_at_the_first_error() {
    let result = run("screen 1 1\n$missing\nscreen 2 2");
    assert_eq!(result, Err(Error::VariableNotFound(String::from("missing"))));
}

#[test]
fn test_void_is_not_pushed_onto_the_stack() {
    // The screen resize yields Void, which is not pushed, so the bare
    // `let` on the next line finds nothing to pop.
    let result = run("let v (screen 1 1)\nlet x");
    assert!(matches!(result, Err(Error::StackUnderflow)));
}

#[test]
fn test_last_binding_wins() {
    let commands = run("let a 1\nlet a 2\nscreen $a $a").unwrap();
    assert_eq!(
        commands,
        vec![DrawCommand::Resize { x: scalar(2), y: scalar(2) }]
    );
}

#[test]
fn test_integer_arithmetic_is_exact() {
    let commands = run("screen (sub (add 40 2) 2) (div 84 2)").unwrap();
    assert_eq!(
        commands,
        vec![DrawCommand::Resize { x: scalar(40), y: scalar(42) }]
    );
}

#[test]
fn test_drawn_scalars_produce_no_command() {
    // Every expression here has its draw flag set, but none is a Line.
    let commands = run("1; 2; pnt2 1 2; vec2 3 4").unwrap();
    assert_eq!(commands, vec![]);
}
