//! Draw commands and the sink that consumes them. The runtime buffers
//! commands; the embedder hands them to a `DrawBuffer` and flushes it.
use vstd::prelude::*;

use crate::runtime::Value;
use crate::stdlib::{Point, Scalar, Vector};

verus! {

/// One drawing operation for the rendering backend. Scalars stay in the
/// language's units; the backend converts them to its physical unit.
#[derive(Debug, Clone, Copy, PartialEq, Eq, Structural)]
pub enum DrawCommand {
    /// A line from an origin along a direction.
    Line { origin: Point, direction: Vector },
    /// Reserved: no built-in produces a value that converts to it yet.
    Circle { at: Point, radius: Scalar },
    /// Resize the drawing surface.
    Resize { x: Scalar, y: Scalar },
}

/// A rendering backend: accepts draw commands and finally emits its
/// output. Implemented outside the verified core.
pub trait DrawBuffer {
    /// Clear accumulated output.
    fn reset(&mut self);

    /// Accept one command.
    fn draw(&mut self, command: DrawCommand);

    /// Finalize and emit the output.
    fn flush(&mut self);
}

/// Which values are drawable: only a Line converts to a command; every
/// other value converts to nothing and is silently skipped.
pub open spec fn spec_draw_command(value: Value) -> Option<DrawCommand> {
    match value {
        Value::Line(p, v) => Some(DrawCommand::Line { origin: p, direction: v }),
        _ => None,
    }
}

pub fn value_to_draw_command(value: Value) -> (r: Option<DrawCommand>)
    ensures
        r == spec_draw_command(value),
{
    match value {
        Value::Line(p, v) => Some(DrawCommand::Line { origin: p, direction: v }),
        _ => None,
    }
}

} // verus!
