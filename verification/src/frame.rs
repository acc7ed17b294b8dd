//! Call-stack frames and the throwable result type that exceptions travel
//! through.

use vstd::prelude::*;

use crate::classfile::CodeAttribute;
use crate::value::{stack_wf, JavaValue, JavaValueVec};

verus! {

/// An exception in flight: either it was delivered to a handler (`Handled`)
/// and execution resumes there, or no frame caught it (`Unhandled`). The
/// payload is the heap id of the thrown object.
#[derive(Debug, Clone, Copy, PartialEq, Eq, Structural)]
pub enum JavaThrowable {
    Handled(usize),
    Unhandled(usize),
}

pub type RuntimeResult<T> = Result<T, JavaThrowable>;

/// The mutable part of a frame: program counter, operand stack, locals, and
/// the value a finished callee left for its caller.
#[derive(Debug)]
pub struct CallStackFrameState {
    pub line_number: u32,
    pub instruction_offset: usize,
    pub stack: JavaValueVec,
    pub lvt: JavaValueVec,
    pub return_stack_value: Option<JavaValue>,
}

/// One frame of the call stack.
#[derive(Debug)]
pub struct CallStackFrame {
    pub container_class: String,
    pub container_method: String,
    pub access_flags: u16,
    pub is_native_frame: bool,
    pub metadata: Option<CodeAttribute>,
    pub instructions: Vec<u8>,
    pub state: CallStackFrameState,
}

/// True when a method-plus-descriptor signature names a static initializer.
pub open spec fn is_clinit_signature(s: Seq<char>) -> bool {
    s.len() >= 8 && s.subrange(0, 8) == "<clinit>"@
}

impl CallStackFrame {
    /// The operand-stack capacity this frame was created with: `max_stack`
    /// from its `Code` attribute, or zero for native and synthetic frames
    /// (whose operand stacks stay empty).
    pub open spec fn spec_max_stack(self) -> int {
        match self.metadata {
            Some(c) => c.max_stack as int,
            None => 0,
        }
    }

    /// Frame well-formedness: the operand stack respects the category-2
    /// pairing discipline, never exceeds the declared `max_stack`, and the
    /// program counter stays within the method's code.
    pub open spec fn wf(self) -> bool {
        &&& stack_wf(self.state.stack@)
        &&& self.state.stack@.len() <= self.spec_max_stack()
        &&& self.state.instruction_offset <= self.instructions@.len()
    }

    /// True when this frame is executing a static initializer.
    pub open spec fn is_clinit_frame(self) -> bool {
        is_clinit_signature(self.container_method@)
    }
}

} // verus!
