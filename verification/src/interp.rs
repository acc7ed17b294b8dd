//! The interpreter: fetches one opcode at the current frame's program
//! counter, dispatches to its handler, and manages frame transitions
//! (invocation, return, exception delivery, pending class initialization,
//! and the native-call bridge).

pub mod arith;
pub mod frameops;
pub mod invoke;
pub mod objects;

use vstd::prelude::*;

use crate::floatops::FloatOps;
use crate::frame::{CallStackFrame, CallStackFrameState, JavaThrowable, RuntimeResult};
use crate::jvm::{classes_extend, frames_extended, Jvm};
use crate::value::JavaValue;
use frameops::{
    branch_to, duplicate_state, pop_any, pop_cat1, push_value, state_ok, take_u16, take_u8,
};

verus! {

/// What one executed instruction asks the step loop to do with the current
/// frame.
pub enum Action {
    /// Write the updated state back; execution continues in this frame.
    Continue,
    /// Pop this frame; the payload becomes the caller's pending return value.
    FrameReturn(Option<JavaValue>),
    /// Write the updated state back, then push this callee frame.
    PushFrame(CallStackFrame),
    /// Discard the updated state and re-execute this instruction once the
    /// static initializers that were just pushed have run.
    ReExecute,
}

/// What a step reported to the caller.
#[derive(Debug)]
pub enum StepEvent {
    /// An instruction was executed normally.
    Executed,
    /// An exception was raised and delivered to a catch handler; the payload
    /// is the caught object, now alone on the handler frame's operand stack.
    CaughtException(usize),
    /// The top frame is a native method; the embedder must run the named
    /// native and then call `complete_native` (or raise an exception).
    NativeCall(String),
}

/// Why `step_until_stack_depth` stopped.
#[derive(Debug)]
pub enum RunEvent {
    /// The call-stack depth fell to the requested target.
    ReachedDepth,
    /// The step budget ran out first.
    OutOfFuel,
    /// A native frame is on top; the embedder must service it and resume.
    NativeCall(String),
}

/// What every dispatch arm guarantees about the machine and the scratch
/// frame state it worked on. `max_stack` and `code_len` are the current
/// frame's bounds.
pub open spec fn dispatch_post(
    pre: Jvm,
    post: Jvm,
    post_state: CallStackFrameState,
    r: RuntimeResult<Action>,
    max_stack: int,
    code_len: int,
) -> bool {
    &&& post.wf()
    &&& classes_extend(pre.heap.loaded_classes@, post.heap.loaded_classes@)
    &&& post.classpath == pre.classpath
    &&& (r matches Err(t) ==> crate::jvm::exception_delivered(post, t))
    &&& (r matches Ok(a) ==> match a {
        Action::Continue => post.call_stack_frames@ == pre.call_stack_frames@ && state_ok(
            post_state,
            max_stack,
            code_len,
        ),
        Action::FrameReturn(_) => post.call_stack_frames@ == pre.call_stack_frames@,
        Action::PushFrame(f) => post.call_stack_frames@ == pre.call_stack_frames@ && f.wf()
            && !f.is_clinit_frame() && state_ok(post_state, max_stack, code_len),
        Action::ReExecute => frames_extended(pre.call_stack_frames@, post.call_stack_frames@),
    })
}

/// What a normally executed step guarantees about the machine transition:
/// a pending return value is pushed onto the caller's operand stack before
/// the next fetch, and the wrapping integer arithmetic opcodes replace their
/// operands with the result fixed by `spec_int_binop`/`spec_long_binop`
/// (failing instead of dividing by zero).
pub open spec fn executed_post(pre: Jvm, post: Jvm) -> bool {
    let n = pre.call_stack_frames@.len();
    let f = pre.call_stack_frames@[n - 1];
    &&& !f.is_native_frame
    &&& (f.state.return_stack_value matches Some(v) ==> {
        &&& post.call_stack_frames@.len() == n
        &&& (forall|j: int|
            0 <= j < n - 1 ==> #[trigger] post.call_stack_frames@[j] == pre.call_stack_frames@[j])
        &&& post.call_stack_frames@[n - 1].state.stack@ == crate::value::spec_push(
            f.state.stack@,
            v,
        )
        &&& post.call_stack_frames@[n - 1].state.lvt@ == f.state.lvt@
        &&& post.call_stack_frames@[n - 1].state.instruction_offset == f.state.instruction_offset
        &&& post.call_stack_frames@[n - 1].state.return_stack_value is None
        &&& post.call_stack_frames@[n - 1].instructions == f.instructions
        &&& post.call_stack_frames@[n - 1].container_class == f.container_class
        &&& post.call_stack_frames@[n - 1].container_method == f.container_method
    })
    &&& (f.state.return_stack_value is None && f.state.instruction_offset < f.instructions@.len()
        ==> {
        let opcode = f.instructions@[f.state.instruction_offset as int];
        &&& (arith::is_int_arith(opcode) ==> arith_frame_post(pre, post, opcode, false))
        &&& (arith::is_long_arith(opcode) ==> arith_frame_post(pre, post, opcode, true))
        // the return family pops the frame and hands the popped value (or
        // nothing, for the void form) to the caller as its pending return
        &&& (0xac <= opcode <= 0xb1 ==> {
            &&& post.call_stack_frames@.len() == n - 1
            &&& (forall|j: int|
                0 <= j < n - 2 ==> #[trigger] post.call_stack_frames@[j]
                    == pre.call_stack_frames@[j])
            &&& (n >= 2 ==> {
                let caller = pre.call_stack_frames@[n - 2];
                &&& post.call_stack_frames@[n - 2].state.return_stack_value == (if opcode == 0xb1 {
                    Option::<JavaValue>::None
                } else {
                    Some(crate::value::spec_pop_full(f.state.stack@).1.unwrap())
                })
                &&& post.call_stack_frames@[n - 2] == (CallStackFrame {
                    state: CallStackFrameState {
                        return_stack_value: post.call_stack_frames@[n - 2].state.return_stack_value,
                        ..caller.state
                    },
                    ..caller
                })
            })
        })
    })
}

/// The top frame is about to execute a binary `int` arithmetic opcode over
/// two well-typed operands, with a nonzero divisor where one is consumed:
/// the shape on which a step is owed to succeed.
pub open spec fn int_arith_ready(pre: Jvm) -> bool {
    let n = pre.call_stack_frames@.len();
    let f = pre.call_stack_frames@[n - 1];
    &&& n >= 1
    &&& !f.is_native_frame
    &&& f.metadata is Some
    &&& f.state.return_stack_value is None
    &&& f.state.instruction_offset < f.instructions@.len()
    &&& {
        let opcode = f.instructions@[f.state.instruction_offset as int];
        &&& arith::is_int_arith(opcode)
        &&& f.state.stack@.len() >= 2
        &&& f.state.stack@.last().spec_as_int() is Ok
        &&& f.state.stack@.drop_last().last().spec_as_int() is Ok
        &&& ((opcode == 0x6c || opcode == 0x70) ==> f.state.stack@.last().spec_as_int() != Ok::<
            i32,
            (),
        >(0))
    }
}

/// The top frame is about to divide an `int` by zero (`idiv` or `irem`).
pub open spec fn int_divzero_ready(pre: Jvm) -> bool {
    let n = pre.call_stack_frames@.len();
    let f = pre.call_stack_frames@[n - 1];
    &&& n >= 1
    &&& !f.is_native_frame
    &&& f.metadata is Some
    &&& f.state.return_stack_value is None
    &&& f.state.instruction_offset < f.instructions@.len()
    &&& {
        let opcode = f.instructions@[f.state.instruction_offset as int];
        &&& (opcode == 0x6c || opcode == 0x70)
        &&& f.state.stack@.len() >= 2
        &&& f.state.stack@.last().spec_as_int() == Ok::<i32, ()>(0)
        &&& f.state.stack@.drop_last().last().spec_as_int() is Ok
    }
}

/// An arithmetic opcode stays in its frame: everything below is untouched
/// and the top frame's state changes exactly by the operand-to-result
/// replacement, with the program counter one past the opcode.
pub open spec fn arith_frame_post(pre: Jvm, post: Jvm, opcode: u8, wide: bool) -> bool {
    let n = pre.call_stack_frames@.len();
    let f = pre.call_stack_frames@[n - 1];
    let fetched = CallStackFrameState {
        instruction_offset: (f.state.instruction_offset + 1) as usize,
        ..f.state
    };
    &&& post.call_stack_frames@.len() == n
    &&& (forall|j: int|
        0 <= j < n - 1 ==> #[trigger] post.call_stack_frames@[j] == pre.call_stack_frames@[j])
    &&& post.call_stack_frames@[n - 1].instructions == f.instructions
    &&& post.call_stack_frames@[n - 1].container_class == f.container_class
    &&& post.call_stack_frames@[n - 1].container_method == f.container_method
    &&& (if wide {
        arith::long_arith_effect(fetched, post.call_stack_frames@[n - 1].state, opcode)
    } else {
        arith::int_arith_effect(fetched, post.call_stack_frames@[n - 1].state, opcode)
    })
}

/// Steps frames: fetches an opcode, dispatches, and applies the resulting
/// frame transition.
#[derive(Debug)]
pub struct InstructionExecutor {
    pub instruction_count: u64,
}

impl InstructionExecutor {
    pub fn new() -> (r: InstructionExecutor)
        ensures
            r.instruction_count == 0,
    {
        InstructionExecutor { instruction_count: 0 }
    }

    /// Executes one instruction of the top frame (or reports a pending
    /// native call). A `Handled` exception is delivered to its catch handler
    /// and reported as an executed step; an `Unhandled` one is returned as
    /// the error.
    pub fn step<F: FloatOps>(&mut self, jvm: &mut Jvm, fl: &F) -> (r: RuntimeResult<StepEvent>)
        requires
            old(jvm).wf(),
            old(jvm).call_stack_frames@.len() >= 1,
        ensures
            final(jvm).wf(),
            classes_extend(old(jvm).heap.loaded_classes@, final(jvm).heap.loaded_classes@),
            final(jvm).classpath == old(jvm).classpath,
            r matches Err(t) ==> t is Unhandled,
            r matches Ok(e) ==> match e {
                StepEvent::Executed => executed_post(*old(jvm), *final(jvm)),
                StepEvent::CaughtException(id) => final(jvm).call_stack_frames@.len() >= 1 && final(jvm).call_stack_frames@.last().state.stack@ =~= seq![JavaValue::Object(Some(id))],
                StepEvent::NativeCall(nm) => *final(jvm) == *old(jvm) && old(jvm).call_stack_frames@.last().is_native_frame && native_name_spec(
                    old(jvm).call_stack_frames@.last(),
                    nm@,
                ),
            },
            // Success is owed for a well-typed int arithmetic step.
            int_arith_ready(*old(jvm)) ==> r is Ok && (r matches Ok(e) ==> e is Executed),
            // An int division by zero raises ArithmeticException: it is
            // either caught (and the caught object is an instance of that
            // class) or reported unhandled.
            int_divzero_ready(*old(jvm)) ==> ((r matches Ok(e) ==> (e matches
                StepEvent::CaughtException(id) && crate::jvm::thrown_is_instance_of(
                *final(jvm),
                JavaThrowable::Handled(id),
                crate::jvm::canonical_class_name("java/lang/ArithmeticException"@),
            ))) && (r matches Err(t) ==> (crate::jvm::thrown_is_instance_of(
                *final(jvm),
                t,
                crate::jvm::canonical_class_name("java/lang/ArithmeticException"@),
            ) || t == JavaThrowable::Unhandled(0usize)))),
    {
        match self.step_unchecked(jvm, fl) {
            Ok(e) => Ok(e),
            Err(ex) => match ex {
                JavaThrowable::Handled(id) => Ok(StepEvent::CaughtException(id)),
                JavaThrowable::Unhandled(_) => Err(ex),
            },
        }
    }

    /// Executes one instruction, returning `Handled` exceptions to the
    /// caller.
    fn step_unchecked<F: FloatOps>(&mut self, jvm: &mut Jvm, fl: &F) -> (r: RuntimeResult<
        StepEvent,
    >)
        requires
            old(jvm).wf(),
            old(jvm).call_stack_frames@.len() >= 1,
        ensures
            final(jvm).wf(),
            classes_extend(old(jvm).heap.loaded_classes@, final(jvm).heap.loaded_classes@),
            final(jvm).classpath == old(jvm).classpath,
            r matches Err(t) ==> crate::jvm::exception_delivered(*final(jvm), t),
            r matches Ok(e) ==> match e {
                StepEvent::Executed => executed_post(*old(jvm), *final(jvm)),
                StepEvent::CaughtException(_) => false,
                StepEvent::NativeCall(nm) => *final(jvm) == *old(jvm) && old(jvm).call_stack_frames@.last().is_native_frame && native_name_spec(
                    old(jvm).call_stack_frames@.last(),
                    nm@,
                ),
            },
            int_arith_ready(*old(jvm)) ==> r is Ok && (r matches Ok(e) ==> e is Executed),
            int_divzero_ready(*old(jvm)) ==> (r is Err && (r matches Err(t) ==> (
            crate::jvm::thrown_is_instance_of(
                *final(jvm),
                t,
                crate::jvm::canonical_class_name("java/lang/ArithmeticException"@),
            ) || t == JavaThrowable::Unhandled(0usize)))),
    {
        if self.instruction_count < u64::MAX {
            self.instruction_count = self.instruction_count + 1;
        }
        let t = jvm.call_stack_frames.len() - 1;
        if jvm.call_stack_frames[t].is_native_frame {
            let name = match native_method_name(&jvm.call_stack_frames[t]) {
                Some(n) => n,
                None => {
                    return Err(jvm.throw_exception("java/lang/Error", Some("malformed native method signature")));
                },
            };
            return Ok(StepEvent::NativeCall(name));
        }
        let max_stack: usize = match &jvm.call_stack_frames[t].metadata {
            Some(c) => c.max_stack as usize,
            None => {
                // A synthetic frame with no code has nothing to execute.
                return Err(jvm.throw_exception("java/lang/Error", Some("frame without code")));
            },
        };
        let code_len: usize = jvm.call_stack_frames[t].instructions.len();
        let mut state = duplicate_state(&jvm.call_stack_frames[t].state);
        // A value returned by a finished callee is pushed before the next
        // fetch.
        match state.return_stack_value {
            Some(v) => {
                state.return_stack_value = None;
                if push_value(&mut state, v, max_stack).is_err() {
                    return Err(jvm.throw_exception("java/lang/Error", Some("operand stack overflow")));
                }
                jvm.call_stack_frames[t].state = state;
                return Ok(StepEvent::Executed);
            },
            None => {},
        }
        let instruction_addr = state.instruction_offset;
        if instruction_addr >= code_len {
            return Err(jvm.throw_exception("java/lang/Error", Some("program counter out of range")));
        }
        let opcode = jvm.call_stack_frames[t].instructions[instruction_addr];
        state.instruction_offset = instruction_addr + 1;
        let action = dispatch(jvm, &mut state, t, instruction_addr, opcode, max_stack, fl)?;
        match action {
            Action::Continue => {
                jvm.call_stack_frames[t].state = state;
            },
            Action::FrameReturn(v) => {
                jvm.call_stack_frames.pop();
                let depth = jvm.call_stack_frames.len();
                if depth > 0 {
                    jvm.call_stack_frames[depth - 1].state.return_stack_value = v;
                }
            },
            Action::PushFrame(f) => {
                jvm.call_stack_frames[t].state = state;
                jvm.push_call_stack_frame(f);
            },
            Action::ReExecute => {},
        }
        Ok(StepEvent::Executed)
    }

    /// Runs until the call-stack depth falls to `target_depth`, the step
    /// budget `fuel` runs out, a native frame needs the embedder, or an
    /// exception goes unhandled.
    pub fn step_until_stack_depth<F: FloatOps>(
        &mut self,
        jvm: &mut Jvm,
        target_depth: usize,
        fuel: u64,
        fl: &F,
    ) -> (r: RuntimeResult<RunEvent>)
        requires
            old(jvm).wf(),
        ensures
            final(jvm).wf(),
            classes_extend(old(jvm).heap.loaded_classes@, final(jvm).heap.loaded_classes@),
            final(jvm).classpath == old(jvm).classpath,
            r == Ok::<RunEvent, JavaThrowable>(RunEvent::ReachedDepth) ==> final(jvm).call_stack_frames@.len() <= target_depth,
            // At or below the target nothing runs.
            old(jvm).call_stack_frames@.len() <= target_depth ==> r == Ok::<
                RunEvent,
                JavaThrowable,
            >(RunEvent::ReachedDepth) && *final(jvm) == *old(jvm),
            r == Ok::<RunEvent, JavaThrowable>(RunEvent::OutOfFuel) ==> final(jvm).call_stack_frames@.len() > target_depth,
            r matches Ok(e) ==> (e matches RunEvent::NativeCall(nm) ==> final(jvm).call_stack_frames@.len() > target_depth && final(jvm).call_stack_frames@.last().is_native_frame
                && native_name_spec(final(jvm).call_stack_frames@.last(), nm@)),
            r matches Err(t) ==> t is Unhandled,
    {
        if jvm.call_stack_frames.len() <= target_depth {
            return Ok(RunEvent::ReachedDepth);
        }
        let mut remaining = fuel;
        loop
            invariant
                jvm.wf(),
                classes_extend(old(jvm).heap.loaded_classes@, jvm.heap.loaded_classes@),
                jvm.classpath == old(jvm).classpath,
                old(jvm).call_stack_frames@.len() > target_depth,
            decreases remaining,
        {
            if jvm.call_stack_frames.len() <= target_depth {
                return Ok(RunEvent::ReachedDepth);
            }
            if remaining == 0 {
                return Ok(RunEvent::OutOfFuel);
            }
            remaining = remaining - 1;
            match self.step(jvm, fl) {
                Ok(StepEvent::Executed) => {},
                Ok(StepEvent::CaughtException(_)) => {},
                Ok(StepEvent::NativeCall(name)) => {
                    return Ok(RunEvent::NativeCall(name));
                },
                Err(t) => {
                    return Err(t);
                },
            }
        }
    }
}

/// Frames that only grew and kept their count are unchanged.
pub proof fn lemma_frames_same(pre: Seq<CallStackFrame>, post: Seq<CallStackFrame>)
    requires
        frames_extended(pre, post),
        post.len() == pre.len(),
    ensures
        post == pre,
{
    assert(post.take(pre.len() as int) =~= post);
}

impl InstructionExecutor {
    /// Resolves `main([Ljava/lang/String;)V` on the classpath, pushes its
    /// frame above the synthetic bottom frame, and runs until the program
    /// finishes (depth 1), the budget runs out, or a native frame needs the
    /// embedder.
    pub fn execute_main<F: FloatOps>(&mut self, jvm: &mut Jvm, fuel: u64, fl: &F) -> (r:
        RuntimeResult<RunEvent>)
        requires
            old(jvm).wf(),
        ensures
            final(jvm).wf(),
            final(jvm).classpath == old(jvm).classpath,
            classes_extend(old(jvm).heap.loaded_classes@, final(jvm).heap.loaded_classes@),
            r matches Err(t) ==> t is Unhandled,
            // with no resolvable main on the classpath the run fails
            crate::classpath::spec_find_main(
                old(jvm).classpath.class_files@,
                old(jvm).classpath.class_files@.len() as int,
            ) is None ==> r is Err,
            // a finished program has unwound to (at most) the synthetic
            // bottom frame above the caller's stack
            r == Ok::<RunEvent, JavaThrowable>(RunEvent::ReachedDepth) ==> final(jvm).call_stack_frames@.len() <= old(jvm).call_stack_frames@.len() + 1,
            r matches Ok(e) ==> (e matches RunEvent::NativeCall(nm) ==> final(jvm).call_stack_frames@.len() >= 1 && final(jvm).call_stack_frames@.last().is_native_frame
                && native_name_spec(final(jvm).call_stack_frames@.last(), nm@)),
    {
        match jvm.prepare_main_invocation() {
            Ok(()) => {},
            Err(t) => {
                return Err(match t {
                    JavaThrowable::Handled(id) => JavaThrowable::Unhandled(id),
                    JavaThrowable::Unhandled(id) => JavaThrowable::Unhandled(id),
                });
            },
        }
        let base = jvm.get_stack_depth();
        let target = if base >= 2 {
            base - 2 + 1
        } else {
            0
        };
        self.step_until_stack_depth(jvm, target, fuel, fl)
    }
}

/// The mangled name a native frame surfaces to the embedder.
pub open spec fn native_name_spec(frame: CallStackFrame, nm: Seq<char>) -> bool {
    crate::descriptor::spec_find_from(frame.container_method@, 0, '(') matches Some(p) && nm
        == "Java_"@ + spec_mangle_chars(frame.container_class@) + "_"@ + frame.container_method@.take(p)
}

/// The JNI-style mangled name of the native method a frame stands for:
/// `Java_` + the class name with `/` as `_` and `$` as `_00024` + `_` + the
/// method name (everything before the `(` of the signature).
pub open spec fn spec_mangle_char(c: char) -> Seq<char> {
    if c == '/' {
        seq!['_']
    } else if c == '$' {
        "_00024"@
    } else {
        seq![c]
    }
}

pub open spec fn spec_mangle_chars(s: Seq<char>) -> Seq<char>
    decreases s.len(),
{
    if s.len() == 0 {
        Seq::empty()
    } else {
        spec_mangle_char(s[0]) + spec_mangle_chars(s.skip(1))
    }
}

proof fn lemma_mangle_concat(a: Seq<char>, b: Seq<char>)
    ensures
        spec_mangle_chars(a + b) == spec_mangle_chars(a) + spec_mangle_chars(b),
    decreases a.len(),
{
    if a.len() == 0 {
        assert(a + b =~= b);
        assert(spec_mangle_chars(a) + spec_mangle_chars(b) =~= spec_mangle_chars(b));
    } else {
        lemma_mangle_concat(a.skip(1), b);
        assert((a + b).skip(1) =~= a.skip(1) + b);
        assert(spec_mangle_char((a + b)[0]) + (spec_mangle_chars(a.skip(1)) + spec_mangle_chars(b))
            =~= (spec_mangle_char(a[0]) + spec_mangle_chars(a.skip(1))) + spec_mangle_chars(b));
    }
}

fn mangle_into(out: &mut String, s: &str)
    ensures
        final(out)@ == old(out)@ + spec_mangle_chars(s@),
{
    let len = s.unicode_len();
    let mut i: usize = 0;
    proof {
        assert(s@.take(0) =~= Seq::<char>::empty());
        assert(old(out)@ + Seq::<char>::empty() =~= old(out)@);
    }
    while i < len
        invariant
            i <= len,
            len == s@.len(),
            out@ == old(out)@ + spec_mangle_chars(s@.take(i as int)),
        decreases len - i,
    {
        let c = s.get_char(i);
        if c == '/' {
            crate::strutil::string_push(out, '_');
        } else if c == '$' {
            out.append("_00024");
        } else {
            crate::strutil::string_push(out, c);
        }
        proof {
            assert(s@.take(i + 1) =~= s@.take(i as int) + seq![s@[i as int]]);
            lemma_mangle_concat(s@.take(i as int), seq![s@[i as int]]);
            assert(seq![s@[i as int]].skip(1) =~= Seq::<char>::empty());
            reveal_strlit("_00024");
            assert(seq![s@[i as int]].skip(1) =~= Seq::<char>::empty());
            assert(spec_mangle_chars(Seq::<char>::empty()) =~= Seq::<char>::empty());
            assert(spec_mangle_chars(seq![s@[i as int]]) =~= spec_mangle_char(s@[i as int]));
            assert(out@ =~= old(out)@ + spec_mangle_chars(s@.take(i + 1)));
        }
        i = i + 1;
    }
    proof {
        assert(s@.take(len as int) =~= s@);
    }
}

/// The mangled native name for a frame, or `None` when its signature has no
/// `(`.
pub fn native_method_name(frame: &CallStackFrame) -> (r: Option<String>)
    ensures
        r matches Some(n) ==> (crate::descriptor::spec_find_from(frame.container_method@, 0, '(')
            matches Some(p) && n@ == "Java_"@ + spec_mangle_chars(frame.container_class@) + "_"@
            + frame.container_method@.take(p)),
{
    let p = match crate::strutil::str_find_char(frame.container_method.as_str(), '(') {
        Some(p) => p,
        None => {
            return None;
        },
    };
    let mut out = "Java_".to_owned();
    proof {
        lemma_find_from_characterize(frame.container_method@, p as int, '(');
    }
    mangle_into(&mut out, frame.container_class.as_str());
    out.append("_");
    let method_name = frame.container_method.as_str().substring_char(0, p);
    out.append(method_name);
    proof {
        reveal_strlit("Java_");
        reveal_strlit("_");
        assert(out@ =~= "Java_"@ + spec_mangle_chars(frame.container_class@) + "_"@
            + frame.container_method@.take(p as int));
    }
    Some(out)
}

/// A first-occurrence characterization matches the recursive search.
proof fn lemma_find_from_characterize(s: Seq<char>, p: int, c: char)
    requires
        0 <= p < s.len(),
        s[p] == c,
        forall|j: int| 0 <= j < p ==> s[j] != c,
    ensures
        crate::descriptor::spec_find_from(s, 0, c) == Some(p),
{
    lemma_find_from_step(s, 0, p, c);
}

proof fn lemma_find_from_step(s: Seq<char>, i: int, p: int, c: char)
    requires
        0 <= i <= p < s.len(),
        s[p] == c,
        forall|j: int| i <= j < p ==> s[j] != c,
    ensures
        crate::descriptor::spec_find_from(s, i, c) == Some(p),
    decreases p - i,
{
    if i < p {
        lemma_find_from_step(s, i + 1, p, c);
    }
}

/// Executes the instruction `opcode` whose first immediate byte (if any)
/// sits at `state.instruction_offset`; `instruction_addr` is the opcode's own
/// offset and `t` the frame's index.
fn dispatch<F: FloatOps>(
    jvm: &mut Jvm,
    state: &mut CallStackFrameState,
    t: usize,
    instruction_addr: usize,
    opcode: u8,
    max_stack: usize,
    fl: &F,
) -> (r: RuntimeResult<Action>)
    requires
        old(jvm).wf(),
        t < old(jvm).call_stack_frames@.len(),
        state_ok(*old(state), max_stack as int, old(jvm).call_stack_frames@[t as int].instructions@.len() as int),
        old(state).instruction_offset == instruction_addr + 1,
        instruction_addr < old(jvm).call_stack_frames@[t as int].instructions@.len(),
    ensures
        dispatch_post(
            *old(jvm),
            *final(jvm),
            *final(state),
            r,
            max_stack as int,
            old(jvm).call_stack_frames@[t as int].instructions@.len() as int,
        ),
        r matches Ok(a) ==> ((arith::is_int_arith(opcode) || arith::is_long_arith(opcode))
            ==> a is Continue),
        r matches Ok(a) ==> (arith::is_int_arith(opcode) ==> arith::int_arith_effect(
            *old(state),
            *final(state),
            opcode,
        )),
        r matches Ok(a) ==> (arith::is_long_arith(opcode) ==> arith::long_arith_effect(
            *old(state),
            *final(state),
            opcode,
        )),
        // Success is owed for a binary int arithmetic opcode over well-typed
        // operands with a nonzero divisor.
        (arith::is_int_arith(opcode) && old(state).stack@.len() >= 2 && old(state).stack@.last().spec_as_int() is Ok && old(state).stack@.drop_last().last().spec_as_int() is Ok && ((
        opcode == 0x6c || opcode == 0x70) ==> old(state).stack@.last().spec_as_int() != Ok::<
            i32,
            (),
        >(0))) ==> r is Ok,
        // Division or remainder of ints by zero raises ArithmeticException.
        ((opcode == 0x6c || opcode == 0x70) && old(state).stack@.len() >= 2 && old(state).stack@.last().spec_as_int() == Ok::<i32, ()>(0) && old(state).stack@.drop_last().last().spec_as_int()
            is Ok) ==> (r is Err && (r matches Err(tt) ==> (crate::jvm::thrown_is_instance_of(
            *final(jvm),
            tt,
            crate::jvm::canonical_class_name("java/lang/ArithmeticException"@),
        ) || tt == crate::frame::JavaThrowable::Unhandled(0usize)))),
        // the return family always resolves to a frame return carrying the
        // popped value (nothing for the void form)
        r matches Ok(a) ==> (0xac <= opcode <= 0xb1 ==> (a matches Action::FrameReturn(v) && (
        opcode == 0xb1 ==> v is None) && (opcode != 0xb1 ==> v == Some(
            crate::value::spec_pop_full(old(state).stack@).1.unwrap(),
        )))),
{
    if opcode == 0x00 {
        // nop
        Ok(Action::Continue)
    } else if opcode >= 0x01 && opcode <= 0x14 {
        objects::exec_const(jvm, state, t, opcode, max_stack)
    } else if opcode >= 0x15 && opcode <= 0x35 {
        exec_load(jvm, state, t, opcode, max_stack)
    } else if opcode >= 0x36 && opcode <= 0x56 {
        exec_store(jvm, state, t, opcode, max_stack)
    } else if opcode >= 0x57 && opcode <= 0x5f {
        exec_stack_op(jvm, state, opcode, max_stack)
    } else if opcode >= 0x60 && opcode <= 0x98 {
        arith::exec_arith(jvm, state, t, opcode, max_stack, fl)
    } else if opcode >= 0x99 && opcode <= 0xab {
        exec_branch(jvm, state, t, instruction_addr, opcode, max_stack)
    } else if opcode >= 0xac && opcode <= 0xb1 {
        exec_return(jvm, state, t, opcode)
    } else if opcode >= 0xb2 && opcode <= 0xc1 || opcode == 0xc6 || opcode == 0xc7 {
        objects::exec_object_op(jvm, state, t, instruction_addr, opcode, max_stack)
    } else if opcode == 0xc2 || opcode == 0xc3 {
        // monitorenter / monitorexit: accepted, the receiver is discarded.
        match pop_cat1(state) {
            Ok(_) => Ok(Action::Continue),
            Err(()) => Err(jvm.throw_exception("java/lang/Error", Some("stack underflow"))),
        }
    } else if opcode == 0xc4 {
        exec_wide(jvm, state, t, opcode, max_stack)
    } else {
        Err(
            jvm.throw_exception(
                "webjvm/lang/UnhandledInstructionError",
                Some(crate::strutil::i32_to_string(opcode as i32).as_str()),
            ),
        )
    }
}

/// `{i,l,f,d,a}load` and their `_n` forms, and the array-load family: moves
/// a local (or an array element) onto the operand stack.
fn exec_load(
    jvm: &mut Jvm,
    state: &mut CallStackFrameState,
    t: usize,
    opcode: u8,
    max_stack: usize,
) -> (r: RuntimeResult<Action>)
    requires
        old(jvm).wf(),
        t < old(jvm).call_stack_frames@.len(),
        state_ok(*old(state), max_stack as int, old(jvm).call_stack_frames@[t as int].instructions@.len() as int),
        0x15 <= opcode <= 0x35,
    ensures
        dispatch_post(
            *old(jvm),
            *final(jvm),
            *final(state),
            r,
            max_stack as int,
            old(jvm).call_stack_frames@[t as int].instructions@.len() as int,
        ),
        // the `_n` load forms push the local slot coded by the opcode
        r matches Ok(a) ==> ((0x1a <= opcode <= 0x2d) ==> final(state).stack@
            == crate::value::spec_push(
            old(state).stack@,
            old(state).lvt@[((opcode - 0x1a) % 4) as int],
        ) && final(state).lvt@ == old(state).lvt@),
{
    if opcode >= 0x2e && opcode <= 0x35 {
        return objects::exec_array_load(jvm, state, max_stack);
    }
    let index: usize = if opcode >= 0x15 && opcode <= 0x19 {
        // one-byte local index
        match take_u8(&jvm.call_stack_frames[t].instructions, state) {
            Ok(i) => i as usize,
            Err(()) => {
                return Err(jvm.throw_exception("java/lang/Error", Some("truncated instruction")));
            },
        }
    } else {
        // {i,l,f,d,a}load_n: the index is encoded in the opcode
        ((opcode - 0x1a) % 4) as usize
    };
    load_local(jvm, state, index, max_stack)
}

/// Pushes local `index`; loading an uninitialized or half slot is an error.
fn load_local(
    jvm: &mut Jvm,
    state: &mut CallStackFrameState,
    index: usize,
    max_stack: usize,
) -> (r: RuntimeResult<Action>)
    requires
        old(jvm).wf(),
        crate::value::stack_wf(old(state).stack@),
        old(state).instruction_offset <= usize::MAX,
    ensures
        final(jvm).wf(),
        classes_extend(old(jvm).heap.loaded_classes@, final(jvm).heap.loaded_classes@),
        final(jvm).classpath == old(jvm).classpath,
        r matches Ok(a) ==> a is Continue && final(jvm).call_stack_frames@ == old(jvm).call_stack_frames@ && crate::value::stack_wf(final(state).stack@) && final(state).stack@
            == crate::value::spec_push(old(state).stack@, old(state).lvt@[index as int]) && final(state).stack@.len() <= max_stack && final(state).instruction_offset == old(state).instruction_offset && final(state).lvt@ == old(state).lvt@,
        r matches Err(t) ==> crate::jvm::exception_delivered(*final(jvm), t),
{
    let v = match frameops::lvt_get(state, index) {
        Ok(v) => v,
        Err(()) => {
            return Err(jvm.throw_exception("java/lang/Error", Some("local variable index out of range")));
        },
    };
    if v.is_upper_half_exec() {
        return Err(jvm.throw_exception("java/lang/Error", Some("load of a category-2 upper half")));
    }
    match push_value(state, v, max_stack) {
        Ok(()) => Ok(Action::Continue),
        Err(()) => Err(jvm.throw_exception("java/lang/Error", Some("operand stack overflow"))),
    }
}

/// `{i,l,f,d,a}store` and their `_n` forms, and the array-store family:
/// moves the top of the operand stack into a local (or an array element).
/// Storing a category-2 value also writes the sentinel at `index + 1`.
fn exec_store(
    jvm: &mut Jvm,
    state: &mut CallStackFrameState,
    t: usize,
    opcode: u8,
    max_stack: usize,
) -> (r: RuntimeResult<Action>)
    requires
        old(jvm).wf(),
        t < old(jvm).call_stack_frames@.len(),
        state_ok(*old(state), max_stack as int, old(jvm).call_stack_frames@[t as int].instructions@.len() as int),
        0x36 <= opcode <= 0x56,
    ensures
        dispatch_post(
            *old(jvm),
            *final(jvm),
            *final(state),
            r,
            max_stack as int,
            old(jvm).call_stack_frames@[t as int].instructions@.len() as int,
        ),
        // the `_n` store forms pop one full value into the local slot coded
        // by the opcode
        r matches Ok(a) ==> ((0x3b <= opcode <= 0x4e) ==> ({
            let idx = ((opcode - 0x3b) % 4) as int;
            &&& final(state).stack@ == crate::value::spec_pop_full(old(state).stack@).0
            &&& (crate::value::spec_pop_full(old(state).stack@).1 matches Some(v) ==> final(state).lvt@ == (if v.is_category_2() {
                old(state).lvt@.update(idx, v).update(idx + 1, JavaValue::spec_upper_half())
            } else {
                old(state).lvt@.update(idx, v)
            }))
        })),
{
    if opcode >= 0x4f && opcode <= 0x56 {
        return objects::exec_array_store(jvm, state, max_stack);
    }
    let index: usize = if opcode >= 0x36 && opcode <= 0x3a {
        match take_u8(&jvm.call_stack_frames[t].instructions, state) {
            Ok(i) => i as usize,
            Err(()) => {
                return Err(jvm.throw_exception("java/lang/Error", Some("truncated instruction")));
            },
        }
    } else {
        ((opcode - 0x3b) % 4) as usize
    };
    store_local(jvm, state, index)
}

/// Pops one full value into local `index`.
fn store_local(jvm: &mut Jvm, state: &mut CallStackFrameState, index: usize) -> (r: RuntimeResult<
    Action,
>)
    requires
        old(jvm).wf(),
        crate::value::stack_wf(old(state).stack@),
    ensures
        final(jvm).wf(),
        classes_extend(old(jvm).heap.loaded_classes@, final(jvm).heap.loaded_classes@),
        final(jvm).classpath == old(jvm).classpath,
        r matches Ok(a) ==> a is Continue && final(jvm).call_stack_frames@ == old(jvm).call_stack_frames@ && crate::value::stack_wf(final(state).stack@) && final(state).stack@
            == crate::value::spec_pop_full(old(state).stack@).0 && final(state).stack@.len() <= old(state).stack@.len() && final(state).instruction_offset == old(state).instruction_offset,
        // the popped value lands in slot `index` (category-2 values also
        // mark the slot above), and no other slot moves
        r matches Ok(a) ==> (crate::value::spec_pop_full(old(state).stack@).1 matches Some(v)
            ==> final(state).lvt@ == (if v.is_category_2() {
            old(state).lvt@.update(index as int, v).update(
                index + 1,
                JavaValue::spec_upper_half(),
            )
        } else {
            old(state).lvt@.update(index as int, v)
        })),
        r matches Err(t) ==> crate::jvm::exception_delivered(*final(jvm), t),
{
    let v = match pop_any(state) {
        Ok(v) => v,
        Err(()) => {
            return Err(jvm.throw_exception("java/lang/Error", Some("stack underflow")));
        },
    };
    let res: Result<(), ()> = if v.is_category_2_exec() {
        frameops::lvt_set_wide(state, index, v)
    } else {
        frameops::lvt_set(state, index, v)
    };
    match res {
        Ok(()) => Ok(Action::Continue),
        Err(()) => Err(jvm.throw_exception("java/lang/Error", Some("local variable index out of range"))),
    }
}

/// The category-aware stack shuffles: `pop`, `pop2`, `dup`, `dup_x1`,
/// `dup2`, `swap`.
/// The exact stack transformation of each stack-manipulation opcode, per
/// category form. A category-2 value occupies its value cell plus the
/// upper-half sentinel above it; `spec_push` re-creates that pair.
pub open spec fn stack_op_effect(s: Seq<JavaValue>, f: Seq<JavaValue>, opcode: u8) -> bool {
    if opcode == 0x57 {
        // pop
        s.len() >= 1 && !s.last().is_upper_half() && f == s.drop_last()
    } else if opcode == 0x58 {
        // pop2: one category-2 value or two category-1 cells
        s.len() >= 2 && f == s.take(s.len() - 2)
    } else if opcode == 0x59 {
        // dup
        s.len() >= 1 && !s.last().is_upper_half() && f == s.drop_last().push(s.last()).push(
            s.last(),
        )
    } else if opcode == 0x5a {
        // dup_x1: [b, a] becomes [a, b, a]
        s.len() >= 2 && f == s.take(s.len() - 2).push(s.last()).push(s[s.len() - 2]).push(s.last())
    } else if opcode == 0x5b {
        // dup_x2
        s.len() >= 1 && !s.last().is_upper_half() && {
            let a = s.last();
            let s1 = s.drop_last();
            if s1.len() >= 1 && s1.last().is_upper_half() {
                // a category-2 value sits under the top: [{v}, a] becomes
                // [a, {v}, a]
                s1.len() >= 2 && f == crate::value::spec_push(
                    s1.take(s1.len() - 2).push(a),
                    s1[s1.len() - 2],
                ).push(a)
            } else {
                // three category-1 cells: [c, b, a] becomes [a, c, b, a]
                s1.len() >= 2 && f == s1.take(s1.len() - 2).push(a).push(s1[s1.len() - 2]).push(
                    s1.last(),
                ).push(a)
            }
        }
    } else if opcode == 0x5c {
        // dup2
        s.len() >= 2 && {
            if s.last().is_upper_half() {
                // one category-2 value: [{v}] becomes [{v}, {v}]
                f == crate::value::spec_push(
                    crate::value::spec_push(s.take(s.len() - 2), s[s.len() - 2]),
                    s[s.len() - 2],
                )
            } else {
                // two category-1 cells: [b, a] becomes [b, a, b, a]
                f == s.take(s.len() - 2).push(s[s.len() - 2]).push(s.last()).push(
                    s[s.len() - 2],
                ).push(s.last())
            }
        }
    } else if opcode == 0x5d {
        // dup2_x1
        s.len() >= 2 && {
            if s.last().is_upper_half() {
                // [b, {v}] becomes [{v}, b, {v}]
                let v = s[s.len() - 2];
                let s2 = s.take(s.len() - 2);
                s2.len() >= 1 && !s2.last().is_upper_half() && f == crate::value::spec_push(
                    crate::value::spec_push(s2.drop_last(), v).push(s2.last()),
                    v,
                )
            } else {
                // [c, b, a] becomes [b, a, c, b, a]
                s.len() >= 3 && f == s.take(s.len() - 3).push(s[s.len() - 2]).push(s.last()).push(
                    s[s.len() - 3],
                ).push(s[s.len() - 2]).push(s.last())
            }
        }
    } else if opcode == 0x5e {
        // dup2_x2, all four category forms
        s.len() >= 2 && {
            if s.last().is_upper_half() {
                let v = s[s.len() - 2];
                let s2 = s.take(s.len() - 2);
                s2.len() >= 1 && {
                    if s2.last().is_upper_half() {
                        // [{w}, {v}] becomes [{v}, {w}, {v}]
                        s2.len() >= 2 && f == crate::value::spec_push(
                            crate::value::spec_push(
                                crate::value::spec_push(s2.take(s2.len() - 2), v),
                                s2[s2.len() - 2],
                            ),
                            v,
                        )
                    } else {
                        // [c, b, {v}] becomes [{v}, c, b, {v}]
                        s2.len() >= 2 && f == crate::value::spec_push(
                            crate::value::spec_push(s2.take(s2.len() - 2), v).push(
                                s2[s2.len() - 2],
                            ).push(s2.last()),
                            v,
                        )
                    }
                }
            } else {
                let a = s.last();
                let s1 = s.drop_last();
                s1.len() >= 1 && !s1.last().is_upper_half() && {
                    let b = s1.last();
                    let s2 = s1.drop_last();
                    if s2.len() >= 1 && s2.last().is_upper_half() {
                        // [{w}, b, a] becomes [b, a, {w}, b, a]
                        s2.len() >= 2 && f == crate::value::spec_push(
                            s2.take(s2.len() - 2).push(b).push(a),
                            s2[s2.len() - 2],
                        ).push(b).push(a)
                    } else {
                        // [d, c, b, a] becomes [b, a, d, c, b, a]
                        s2.len() >= 2 && f == s2.take(s2.len() - 2).push(b).push(a).push(
                            s2[s2.len() - 2],
                        ).push(s2.last()).push(b).push(a)
                    }
                }
            }
        }
    } else if opcode == 0x5f {
        // swap
        s.len() >= 2 && f == s.take(s.len() - 2).push(s.last()).push(s[s.len() - 2])
    } else {
        true
    }
}

fn exec_stack_op(
    jvm: &mut Jvm,
    state: &mut CallStackFrameState,
    opcode: u8,
    max_stack: usize,
) -> (r: RuntimeResult<Action>)
    requires
        old(jvm).wf(),
        crate::value::stack_wf(old(state).stack@),
        old(state).stack@.len() <= max_stack,
    ensures
        final(jvm).wf(),
        classes_extend(old(jvm).heap.loaded_classes@, final(jvm).heap.loaded_classes@),
        final(jvm).classpath == old(jvm).classpath,
        r matches Ok(a) ==> a is Continue && final(jvm).call_stack_frames@ == old(jvm).call_stack_frames@ && crate::value::stack_wf(final(state).stack@) && final(state).stack@.len() <= max_stack && final(state).instruction_offset == old(state).instruction_offset,
        // each opcode performs exactly its documented shuffle, and the rest
        // of the frame state is untouched
        r is Ok ==> stack_op_effect(old(state).stack@, final(state).stack@, opcode) && *final(state) == (CallStackFrameState { stack: final(state).stack, ..*old(state) }),
        r matches Err(t) ==> crate::jvm::exception_delivered(*final(jvm), t),
{
    if opcode == 0x57 {
        // pop
        match pop_cat1(state) {
            Ok(_) => Ok(Action::Continue),
            Err(()) => Err(jvm.throw_exception("java/lang/Error", Some("stack underflow"))),
        }
    } else if opcode == 0x58 {
        // pop2: one category-2 value or two category-1 cells
        match pop_any(state) {
            Ok(v) => {
                if v.is_category_2_exec() {
                    Ok(Action::Continue)
                } else {
                    match pop_cat1(state) {
                        Ok(_) => {
                            proof {
                                assert(state.stack@ =~= old(state).stack@.take(
                                    old(state).stack@.len() - 2,
                                ));
                            }
                            Ok(Action::Continue)
                        },
                        Err(()) => Err(jvm.throw_exception("java/lang/Error", Some("stack underflow"))),
                    }
                }
            },
            Err(()) => Err(jvm.throw_exception("java/lang/Error", Some("stack underflow"))),
        }
    } else if opcode == 0x59 {
        // dup
        let v = match pop_cat1(state) {
            Ok(v) => v,
            Err(()) => {
                return Err(jvm.throw_exception("java/lang/Error", Some("stack underflow")));
            },
        };
        if push_value(state, v, max_stack).is_err() || push_value(state, v, max_stack).is_err() {
            return Err(jvm.throw_exception("java/lang/Error", Some("operand stack overflow")));
        }
        Ok(Action::Continue)
    } else if opcode == 0x5a {
        // dup_x1: [b, a] becomes [a, b, a]
        let a = match pop_cat1(state) {
            Ok(v) => v,
            Err(()) => {
                return Err(jvm.throw_exception("java/lang/Error", Some("stack underflow")));
            },
        };
        let b = match pop_cat1(state) {
            Ok(v) => v,
            Err(()) => {
                return Err(jvm.throw_exception("java/lang/Error", Some("stack underflow")));
            },
        };
        proof {
            assert(state.stack@ =~= old(state).stack@.take(old(state).stack@.len() - 2));
        }
        if push_value(state, a, max_stack).is_err() || push_value(state, b, max_stack).is_err()
            || push_value(state, a, max_stack).is_err() {
            return Err(jvm.throw_exception("java/lang/Error", Some("operand stack overflow")));
        }
        Ok(Action::Continue)
    } else if opcode == 0x5c {
        // dup2: one category-2 value or the top two category-1 cells
        let top = match pop_any(state) {
            Ok(v) => v,
            Err(()) => {
                return Err(jvm.throw_exception("java/lang/Error", Some("stack underflow")));
            },
        };
        if top.is_category_2_exec() {
            if push_value(state, top, max_stack).is_err() || push_value(state, top, max_stack).is_err() {
                return Err(jvm.throw_exception("java/lang/Error", Some("operand stack overflow")));
            }
            Ok(Action::Continue)
        } else {
            let under = match pop_cat1(state) {
                Ok(v) => v,
                Err(()) => {
                    return Err(jvm.throw_exception("java/lang/Error", Some("stack underflow")));
                },
            };
            proof {
                assert(state.stack@ =~= old(state).stack@.take(old(state).stack@.len() - 2));
            }
            if push_value(state, under, max_stack).is_err() || push_value(state, top, max_stack).is_err()
                || push_value(state, under, max_stack).is_err() || push_value(state, top, max_stack).is_err() {
                return Err(jvm.throw_exception("java/lang/Error", Some("operand stack overflow")));
            }
            Ok(Action::Continue)
        }
    } else if opcode == 0x5b {
        // dup_x2: [c, b, a] becomes [a, c, b, a]; the pair under the top may
        // be one category-2 value instead
        let a = match pop_cat1(state) {
            Ok(v) => v,
            Err(()) => {
                return Err(jvm.throw_exception("java/lang/Error", Some("stack underflow")));
            },
        };
        let under = match pop_any(state) {
            Ok(v) => v,
            Err(()) => {
                return Err(jvm.throw_exception("java/lang/Error", Some("stack underflow")));
            },
        };
        if under.is_category_2_exec() {
            if push_value(state, a, max_stack).is_err() || push_value(state, under, max_stack).is_err()
                || push_value(state, a, max_stack).is_err() {
                return Err(jvm.throw_exception("java/lang/Error", Some("operand stack overflow")));
            }
        } else {
            let c = match pop_cat1(state) {
                Ok(v) => v,
                Err(()) => {
                    return Err(jvm.throw_exception("java/lang/Error", Some("stack underflow")));
                },
            };
            proof {
                assert(state.stack@ =~= old(state).stack@.drop_last().take(
                    old(state).stack@.drop_last().len() - 2,
                ));
            }
            if push_value(state, a, max_stack).is_err() || push_value(state, c, max_stack).is_err()
                || push_value(state, under, max_stack).is_err() || push_value(state, a, max_stack).is_err() {
                return Err(jvm.throw_exception("java/lang/Error", Some("operand stack overflow")));
            }
        }
        Ok(Action::Continue)
    } else if opcode == 0x5d {
        // dup2_x1: [b, {a}] becomes [{a}, b, {a}] for a category-2 top, or
        // [c, b, a] becomes [b, a, c, b, a] for category-1 cells
        let top = match pop_any(state) {
            Ok(v) => v,
            Err(()) => {
                return Err(jvm.throw_exception("java/lang/Error", Some("stack underflow")));
            },
        };
        if top.is_category_2_exec() {
            let b = match pop_cat1(state) {
                Ok(v) => v,
                Err(()) => {
                    return Err(jvm.throw_exception("java/lang/Error", Some("stack underflow")));
                },
            };
            if push_value(state, top, max_stack).is_err() || push_value(state, b, max_stack).is_err()
                || push_value(state, top, max_stack).is_err() {
                return Err(jvm.throw_exception("java/lang/Error", Some("operand stack overflow")));
            }
        } else {
            let b = match pop_cat1(state) {
                Ok(v) => v,
                Err(()) => {
                    return Err(jvm.throw_exception("java/lang/Error", Some("stack underflow")));
                },
            };
            let c = match pop_cat1(state) {
                Ok(v) => v,
                Err(()) => {
                    return Err(jvm.throw_exception("java/lang/Error", Some("stack underflow")));
                },
            };
            proof {
                assert(state.stack@ =~= old(state).stack@.take(old(state).stack@.len() - 3));
            }
            if push_value(state, b, max_stack).is_err() || push_value(state, top, max_stack).is_err()
                || push_value(state, c, max_stack).is_err() || push_value(state, b, max_stack).is_err()
                || push_value(state, top, max_stack).is_err() {
                return Err(jvm.throw_exception("java/lang/Error", Some("operand stack overflow")));
            }
        }
        Ok(Action::Continue)
    } else if opcode == 0x5e {
        // dup2_x2: the top one-or-two-cell value is duplicated under the
        // next one-or-two-cell value (all four category forms)
        let top = match pop_any(state) {
            Ok(v) => v,
            Err(()) => {
                return Err(jvm.throw_exception("java/lang/Error", Some("stack underflow")));
            },
        };
        if top.is_category_2_exec() {
            let under = match pop_any(state) {
                Ok(v) => v,
                Err(()) => {
                    return Err(jvm.throw_exception("java/lang/Error", Some("stack underflow")));
                },
            };
            if under.is_category_2_exec() {
                if push_value(state, top, max_stack).is_err() || push_value(state, under, max_stack).is_err()
                    || push_value(state, top, max_stack).is_err() {
                    return Err(jvm.throw_exception("java/lang/Error", Some("operand stack overflow")));
                }
            } else {
                let c = match pop_cat1(state) {
                    Ok(v) => v,
                    Err(()) => {
                        return Err(jvm.throw_exception("java/lang/Error", Some("stack underflow")));
                    },
                };
                proof {
                    assert(state.stack@ =~= old(state).stack@.take(old(state).stack@.len() - 2).take(
                        old(state).stack@.take(old(state).stack@.len() - 2).len() - 2,
                    ));
                }
                if push_value(state, top, max_stack).is_err() || push_value(state, c, max_stack).is_err()
                    || push_value(state, under, max_stack).is_err() || push_value(state, top, max_stack).is_err() {
                    return Err(jvm.throw_exception("java/lang/Error", Some("operand stack overflow")));
                }
            }
        } else {
            let b = match pop_cat1(state) {
                Ok(v) => v,
                Err(()) => {
                    return Err(jvm.throw_exception("java/lang/Error", Some("stack underflow")));
                },
            };
            let rest = match pop_any(state) {
                Ok(v) => v,
                Err(()) => {
                    return Err(jvm.throw_exception("java/lang/Error", Some("stack underflow")));
                },
            };
            if rest.is_category_2_exec() {
                if push_value(state, b, max_stack).is_err() || push_value(state, top, max_stack).is_err()
                    || push_value(state, rest, max_stack).is_err() || push_value(state, b, max_stack).is_err()
                    || push_value(state, top, max_stack).is_err() {
                    return Err(jvm.throw_exception("java/lang/Error", Some("operand stack overflow")));
                }
            } else {
                let d = match pop_cat1(state) {
                    Ok(v) => v,
                    Err(()) => {
                        return Err(jvm.throw_exception("java/lang/Error", Some("stack underflow")));
                    },
                };
                proof {
                    assert(state.stack@ =~= old(state).stack@.drop_last().drop_last().take(
                        old(state).stack@.drop_last().drop_last().len() - 2,
                    ));
                }
                if push_value(state, b, max_stack).is_err() || push_value(state, top, max_stack).is_err()
                    || push_value(state, d, max_stack).is_err() || push_value(state, rest, max_stack).is_err()
                    || push_value(state, b, max_stack).is_err() || push_value(state, top, max_stack).is_err() {
                    return Err(jvm.throw_exception("java/lang/Error", Some("operand stack overflow")));
                }
            }
        }
        Ok(Action::Continue)
    } else if opcode == 0x5f {
        // swap
        let a = match pop_cat1(state) {
            Ok(v) => v,
            Err(()) => {
                return Err(jvm.throw_exception("java/lang/Error", Some("stack underflow")));
            },
        };
        let b = match pop_cat1(state) {
            Ok(v) => v,
            Err(()) => {
                return Err(jvm.throw_exception("java/lang/Error", Some("stack underflow")));
            },
        };
        proof {
            assert(state.stack@ =~= old(state).stack@.take(old(state).stack@.len() - 2));
        }
        if push_value(state, a, max_stack).is_err() || push_value(state, b, max_stack).is_err() {
            return Err(jvm.throw_exception("java/lang/Error", Some("operand stack overflow")));
        }
        Ok(Action::Continue)
    } else {
        Err(
            jvm.throw_exception(
                "webjvm/lang/UnhandledInstructionError",
                Some(crate::strutil::i32_to_string(opcode as i32).as_str()),
            ),
        )
    }
}

/// Whether an `if<cond>` comparison of one int against zero takes its
/// branch.
pub open spec fn spec_if_taken(opcode: u8, a: i32) -> bool {
    if opcode == 0x99 {
        a == 0
    } else if opcode == 0x9a {
        a != 0
    } else if opcode == 0x9b {
        a < 0
    } else if opcode == 0x9c {
        a >= 0
    } else if opcode == 0x9d {
        a > 0
    } else {
        a <= 0
    }
}

/// Whether an `if_icmp<cond>` comparison of two ints takes its branch.
pub open spec fn spec_icmp_taken(opcode: u8, a: i32, b: i32) -> bool {
    if opcode == 0x9f {
        a == b
    } else if opcode == 0xa0 {
        a != b
    } else if opcode == 0xa1 {
        a < b
    } else if opcode == 0xa2 {
        a >= b
    } else if opcode == 0xa3 {
        a > b
    } else {
        a <= b
    }
}

/// Reference equality as `if_acmpeq` sees it: two object references to the
/// same identifier (or both null), or two array references to the same
/// identifier.
pub open spec fn spec_acmp_equal(lhs: JavaValue, rhs: JavaValue) -> bool {
    match (lhs, rhs) {
        (JavaValue::Object(o1), JavaValue::Object(o2)) => o1 == o2,
        (JavaValue::Array(a1), JavaValue::Array(a2)) => a1 == a2,
        _ => false,
    }
}

/// The exact effect of the simple branches: the signed 16-bit offset after
/// the opcode is applied to the opcode's own address when the condition
/// holds, and the program counter otherwise falls through to the next
/// instruction, three bytes on.
pub open spec fn branch_effect(
    pre: CallStackFrameState,
    post: CallStackFrameState,
    code: Seq<u8>,
    addr: int,
    opcode: u8,
) -> bool {
    let offset = crate::parser::be_u16(code, addr + 1) as i16 as int;
    let s = pre.stack@;
    if opcode == 0xa7 {
        // goto
        &&& post.instruction_offset as int == addr + offset
        &&& post == (CallStackFrameState { instruction_offset: post.instruction_offset, ..pre })
    } else if 0x99 <= opcode <= 0x9e {
        // if<cond>
        s.len() >= 1 ==> (s.last().spec_as_int() matches Ok(a) ==> {
            &&& post.stack@ == s.drop_last()
            &&& post.instruction_offset as int == (if spec_if_taken(opcode, a) {
                addr + offset
            } else {
                addr + 3
            })
            &&& post == (CallStackFrameState {
                instruction_offset: post.instruction_offset,
                stack: post.stack,
                ..pre
            })
        })
    } else if 0x9f <= opcode <= 0xa4 {
        // if_icmp<cond>
        s.len() >= 2 ==> (s.last().spec_as_int() matches Ok(b) ==> (s[s.len()
            - 2].spec_as_int() matches Ok(a) ==> {
            &&& post.stack@ == s.take(s.len() - 2)
            &&& post.instruction_offset as int == (if spec_icmp_taken(opcode, a, b) {
                addr + offset
            } else {
                addr + 3
            })
            &&& post == (CallStackFrameState {
                instruction_offset: post.instruction_offset,
                stack: post.stack,
                ..pre
            })
        }))
    } else if opcode == 0xa5 || opcode == 0xa6 {
        // if_acmpeq / if_acmpne
        s.len() >= 2 ==> {
            &&& post.stack@ == s.take(s.len() - 2)
            &&& post.instruction_offset as int == (if (spec_acmp_equal(s[s.len() - 2], s.last())
                == (opcode == 0xa5)) {
                addr + offset
            } else {
                addr + 3
            })
            &&& post == (CallStackFrameState {
                instruction_offset: post.instruction_offset,
                stack: post.stack,
                ..pre
            })
        }
    } else {
        true
    }
}

/// The conditional and unconditional branches, and `lookupswitch` and
/// `tableswitch`.
fn exec_branch(
    jvm: &mut Jvm,
    state: &mut CallStackFrameState,
    t: usize,
    instruction_addr: usize,
    opcode: u8,
    max_stack: usize,
) -> (r: RuntimeResult<Action>)
    requires
        old(jvm).wf(),
        t < old(jvm).call_stack_frames@.len(),
        state_ok(*old(state), max_stack as int, old(jvm).call_stack_frames@[t as int].instructions@.len() as int),
        instruction_addr < old(jvm).call_stack_frames@[t as int].instructions@.len(),
        old(state).instruction_offset == instruction_addr + 1,
    ensures
        dispatch_post(
            *old(jvm),
            *final(jvm),
            *final(state),
            r,
            max_stack as int,
            old(jvm).call_stack_frames@[t as int].instructions@.len() as int,
        ),
        r is Ok ==> branch_effect(
            *old(state),
            *final(state),
            old(jvm).call_stack_frames@[t as int].instructions@,
            instruction_addr as int,
            opcode,
        ),
{
    let code_len = jvm.call_stack_frames[t].instructions.len();
    if opcode >= 0x99 && opcode <= 0x9e {
        // if<cond>: compare one int against zero
        let offset = match take_u16(&jvm.call_stack_frames[t].instructions, state) {
            Ok(v) => v as i16 as i32,
            Err(()) => {
                return Err(jvm.throw_exception("java/lang/Error", Some("truncated instruction")));
            },
        };
        let v = match pop_cat1(state) {
            Ok(v) => v,
            Err(()) => {
                return Err(jvm.throw_exception("java/lang/Error", Some("stack underflow")));
            },
        };
        let a = match v.as_int() {
            Ok(a) => a,
            Err(()) => {
                return Err(jvm.throw_exception("java/lang/Error", Some("integral value expected")));
            },
        };
        let taken = if opcode == 0x99 {
            a == 0
        } else if opcode == 0x9a {
            a != 0
        } else if opcode == 0x9b {
            a < 0
        } else if opcode == 0x9c {
            a >= 0
        } else if opcode == 0x9d {
            a > 0
        } else {
            a <= 0
        };
        if taken {
            if branch_to(state, instruction_addr, offset, code_len).is_err() {
                return Err(jvm.throw_exception("java/lang/Error", Some("branch target out of range")));
            }
        }
        Ok(Action::Continue)
    } else if opcode >= 0x9f && opcode <= 0xa4 {
        // if_icmp<cond>
        let offset = match take_u16(&jvm.call_stack_frames[t].instructions, state) {
            Ok(v) => v as i16 as i32,
            Err(()) => {
                return Err(jvm.throw_exception("java/lang/Error", Some("truncated instruction")));
            },
        };
        let rhs = match pop_cat1(state) {
            Ok(v) => v,
            Err(()) => {
                return Err(jvm.throw_exception("java/lang/Error", Some("stack underflow")));
            },
        };
        let lhs = match pop_cat1(state) {
            Ok(v) => v,
            Err(()) => {
                return Err(jvm.throw_exception("java/lang/Error", Some("stack underflow")));
            },
        };
        proof {
            assert(state.stack@ =~= old(state).stack@.take(old(state).stack@.len() - 2));
        }
        let a = match lhs.as_int() {
            Ok(a) => a,
            Err(()) => {
                return Err(jvm.throw_exception("java/lang/Error", Some("integral value expected")));
            },
        };
        let b = match rhs.as_int() {
            Ok(b) => b,
            Err(()) => {
                return Err(jvm.throw_exception("java/lang/Error", Some("integral value expected")));
            },
        };
        let taken = if opcode == 0x9f {
            a == b
        } else if opcode == 0xa0 {
            a != b
        } else if opcode == 0xa1 {
            a < b
        } else if opcode == 0xa2 {
            a >= b
        } else if opcode == 0xa3 {
            a > b
        } else {
            a <= b
        };
        if taken {
            if branch_to(state, instruction_addr, offset, code_len).is_err() {
                return Err(jvm.throw_exception("java/lang/Error", Some("branch target out of range")));
            }
        }
        Ok(Action::Continue)
    } else if opcode == 0xa5 || opcode == 0xa6 {
        // if_acmpeq / if_acmpne: reference equality
        let offset = match take_u16(&jvm.call_stack_frames[t].instructions, state) {
            Ok(v) => v as i16 as i32,
            Err(()) => {
                return Err(jvm.throw_exception("java/lang/Error", Some("truncated instruction")));
            },
        };
        let rhs = match pop_cat1(state) {
            Ok(v) => v,
            Err(()) => {
                return Err(jvm.throw_exception("java/lang/Error", Some("stack underflow")));
            },
        };
        let lhs = match pop_cat1(state) {
            Ok(v) => v,
            Err(()) => {
                return Err(jvm.throw_exception("java/lang/Error", Some("stack underflow")));
            },
        };
        proof {
            assert(state.stack@ =~= old(state).stack@.take(old(state).stack@.len() - 2));
        }
        let equal: bool = match lhs {
            JavaValue::Object(o1) => match rhs {
                JavaValue::Object(o2) => match (o1, o2) {
                    (Some(a), Some(b)) => a == b,
                    (None, None) => true,
                    _ => false,
                },
                _ => false,
            },
            JavaValue::Array(a1) => match rhs {
                JavaValue::Array(a2) => a1 == a2,
                _ => false,
            },
            _ => false,
        };
        let taken = if opcode == 0xa5 {
            equal
        } else {
            !equal
        };
        if taken {
            if branch_to(state, instruction_addr, offset, code_len).is_err() {
                return Err(jvm.throw_exception("java/lang/Error", Some("branch target out of range")));
            }
        }
        Ok(Action::Continue)
    } else if opcode == 0xa7 {
        // goto
        let offset = match take_u16(&jvm.call_stack_frames[t].instructions, state) {
            Ok(v) => v as i16 as i32,
            Err(()) => {
                return Err(jvm.throw_exception("java/lang/Error", Some("truncated instruction")));
            },
        };
        if branch_to(state, instruction_addr, offset, code_len).is_err() {
            return Err(jvm.throw_exception("java/lang/Error", Some("branch target out of range")));
        }
        Ok(Action::Continue)
    } else if opcode == 0xab {
        exec_lookupswitch(jvm, state, t, instruction_addr, max_stack)
    } else if opcode == 0xaa {
        exec_tableswitch(jvm, state, t, instruction_addr, max_stack)
    } else {
        Err(
            jvm.throw_exception(
                "webjvm/lang/UnhandledInstructionError",
                Some(crate::strutil::i32_to_string(opcode as i32).as_str()),
            ),
        )
    }
}

/// The next four-byte boundary at or after `p` (the switch operand blocks
/// start there), as long as it stays addressable.
pub open spec fn spec_pad4(p: int) -> int {
    if p % 4 == 0 {
        p
    } else if p + (4 - p % 4) <= usize::MAX {
        p + (4 - p % 4)
    } else {
        p
    }
}

/// The branch offset a `lookupswitch` table of `n` (value, offset) rows at
/// `base` selects for `key`: the first row whose value matches, else the
/// default.
pub open spec fn spec_lookup_target(code: Seq<u8>, base: int, n: int, key: i32, default: i32) -> i32
    decreases n,
{
    if n <= 0 {
        default
    } else if crate::parser::be_u32(code, base) as i32 == key {
        crate::parser::be_u32(code, base + 4) as i32
    } else {
        spec_lookup_target(code, base + 8, n - 1, key, default)
    }
}

/// `lookupswitch`: the program counter is padded to a four-byte boundary,
/// then the key is matched against `npairs` (value, offset) rows.
fn exec_lookupswitch(
    jvm: &mut Jvm,
    state: &mut CallStackFrameState,
    t: usize,
    instruction_addr: usize,
    max_stack: usize,
) -> (r: RuntimeResult<Action>)
    requires
        old(jvm).wf(),
        t < old(jvm).call_stack_frames@.len(),
        state_ok(*old(state), max_stack as int, old(jvm).call_stack_frames@[t as int].instructions@.len() as int),
        instruction_addr < old(jvm).call_stack_frames@[t as int].instructions@.len(),
        old(state).instruction_offset == instruction_addr + 1,
    ensures
        dispatch_post(
            *old(jvm),
            *final(jvm),
            *final(state),
            r,
            max_stack as int,
            old(jvm).call_stack_frames@[t as int].instructions@.len() as int,
        ),
        // the key picks the first matching row's offset (else the default),
        // applied to the opcode's own address
        r is Ok ==> ({
            let code = old(jvm).call_stack_frames@[t as int].instructions@;
            let s = old(state).stack@;
            let base = spec_pad4(instruction_addr + 1);
            s.len() >= 1 ==> (s.last().spec_as_int() matches Ok(key) ==> {
                let default = crate::parser::be_u32(code, base) as i32;
                let npairs = crate::parser::be_u32(code, base + 4) as int;
                &&& final(state).stack@ == s.drop_last()
                &&& final(state).instruction_offset as int == instruction_addr
                    + spec_lookup_target(code, base + 8, npairs, key, default)
            })
        }),
{
    let code_len = jvm.call_stack_frames[t].instructions.len();
    let key = match pop_int(jvm, state) {
        Ok(v) => v,
        Err(e) => {
            return Err(e);
        },
    };
    pad_to_four(state, code_len);
    let ghost base = state.instruction_offset as int;
    let (default, npairs) = {
        let d = match frameops::take_u32(&jvm.call_stack_frames[t].instructions, state) {
            Ok(v) => v as i32,
            Err(()) => {
                return Err(jvm.throw_exception("java/lang/Error", Some("truncated instruction")));
            },
        };
        let n = match frameops::take_u32(&jvm.call_stack_frames[t].instructions, state) {
            Ok(v) => v,
            Err(()) => {
                return Err(jvm.throw_exception("java/lang/Error", Some("truncated instruction")));
            },
        };
        (d, n)
    };
    let mut i: u32 = 0;
    while i < npairs
        invariant
            jvm.wf(),
            jvm.call_stack_frames@ == old(jvm).call_stack_frames@,
            jvm.heap == old(jvm).heap,
            jvm.classpath == old(jvm).classpath,
            t < jvm.call_stack_frames@.len(),
            crate::value::stack_wf(state.stack@),
            state.stack@.len() <= max_stack,
            state.instruction_offset <= code_len,
            code_len == jvm.call_stack_frames@[t as int].instructions@.len(),
            instruction_addr <= code_len,
            i <= npairs,
            state.instruction_offset as int == base + 8 + 8 * (i as int),
            base == spec_pad4(instruction_addr + 1),
            default == crate::parser::be_u32(
                jvm.call_stack_frames@[t as int].instructions@,
                base,
            ) as i32,
            npairs as int == crate::parser::be_u32(
                jvm.call_stack_frames@[t as int].instructions@,
                base + 4,
            ) as int,
            old(state).stack@.len() >= 1,
            old(state).stack@.last().spec_as_int() == Ok::<i32, ()>(key),
            state.stack@ == old(state).stack@.drop_last(),
            state.lvt == old(state).lvt,
            state.return_stack_value == old(state).return_stack_value,
            spec_lookup_target(
                jvm.call_stack_frames@[t as int].instructions@,
                base + 8,
                npairs as int,
                key,
                default,
            ) == spec_lookup_target(
                jvm.call_stack_frames@[t as int].instructions@,
                base + 8 + 8 * (i as int),
                npairs - i,
                key,
                default,
            ),
        decreases npairs - i,
    {
        let value = match frameops::take_u32(&jvm.call_stack_frames[t].instructions, state) {
            Ok(v) => v as i32,
            Err(()) => {
                return Err(jvm.throw_exception("java/lang/Error", Some("truncated instruction")));
            },
        };
        let offset = match frameops::take_u32(&jvm.call_stack_frames[t].instructions, state) {
            Ok(v) => v as i32,
            Err(()) => {
                return Err(jvm.throw_exception("java/lang/Error", Some("truncated instruction")));
            },
        };
        if key == value {
            proof {
                assert(spec_lookup_target(
                    jvm.call_stack_frames@[t as int].instructions@,
                    base + 8 + 8 * (i as int),
                    npairs - i,
                    key,
                    default,
                ) == offset);
                assert(spec_lookup_target(
                    jvm.call_stack_frames@[t as int].instructions@,
                    base + 8,
                    npairs as int,
                    key,
                    default,
                ) == offset);
            }
            if branch_to(state, instruction_addr, offset, code_len).is_err() {
                return Err(jvm.throw_exception("java/lang/Error", Some("branch target out of range")));
            }
            return Ok(Action::Continue);
        }
        i = i + 1;
        proof {
            assert(spec_lookup_target(
                jvm.call_stack_frames@[t as int].instructions@,
                base + 8 + 8 * ((i - 1) as int),
                npairs - (i - 1),
                key,
                default,
            ) == spec_lookup_target(
                jvm.call_stack_frames@[t as int].instructions@,
                base + 8 + 8 * (i as int),
                npairs - i,
                key,
                default,
            ));
        }
    }
    if branch_to(state, instruction_addr, default, code_len).is_err() {
        return Err(jvm.throw_exception("java/lang/Error", Some("branch target out of range")));
    }
    Ok(Action::Continue)
}

/// `tableswitch`: the program counter is padded to a four-byte boundary,
/// then the key indexes a dense jump table between `low` and `high`.
fn exec_tableswitch(
    jvm: &mut Jvm,
    state: &mut CallStackFrameState,
    t: usize,
    instruction_addr: usize,
    max_stack: usize,
) -> (r: RuntimeResult<Action>)
    requires
        old(jvm).wf(),
        t < old(jvm).call_stack_frames@.len(),
        state_ok(*old(state), max_stack as int, old(jvm).call_stack_frames@[t as int].instructions@.len() as int),
        instruction_addr < old(jvm).call_stack_frames@[t as int].instructions@.len(),
        old(state).instruction_offset == instruction_addr + 1,
    ensures
        dispatch_post(
            *old(jvm),
            *final(jvm),
            *final(state),
            r,
            max_stack as int,
            old(jvm).call_stack_frames@[t as int].instructions@.len() as int,
        ),
        // an in-range key indexes the dense table; anything else takes the
        // default; either offset applies to the opcode's own address
        r is Ok ==> ({
            let code = old(jvm).call_stack_frames@[t as int].instructions@;
            let s = old(state).stack@;
            let base = spec_pad4(instruction_addr + 1);
            s.len() >= 1 ==> (s.last().spec_as_int() matches Ok(key) ==> {
                let default = crate::parser::be_u32(code, base) as i32;
                let low = crate::parser::be_u32(code, base + 4) as i32;
                let high = crate::parser::be_u32(code, base + 8) as i32;
                &&& final(state).stack@ == s.drop_last()
                &&& (low <= high ==> final(state).instruction_offset as int == instruction_addr + (
                if key < low || high < key {
                    default as int
                } else {
                    crate::parser::be_u32(code, base + 12 + 4 * (key - low)) as i32 as int
                }))
            })
        }),
{
    let code_len = jvm.call_stack_frames[t].instructions.len();
    let key = match pop_int(jvm, state) {
        Ok(v) => v,
        Err(e) => {
            return Err(e);
        },
    };
    pad_to_four(state, code_len);
    let default = match frameops::take_u32(&jvm.call_stack_frames[t].instructions, state) {
        Ok(v) => v as i32,
        Err(()) => {
            return Err(jvm.throw_exception("java/lang/Error", Some("truncated instruction")));
        },
    };
    let low = match frameops::take_u32(&jvm.call_stack_frames[t].instructions, state) {
        Ok(v) => v as i32,
        Err(()) => {
            return Err(jvm.throw_exception("java/lang/Error", Some("truncated instruction")));
        },
    };
    let high = match frameops::take_u32(&jvm.call_stack_frames[t].instructions, state) {
        Ok(v) => v as i32,
        Err(()) => {
            return Err(jvm.throw_exception("java/lang/Error", Some("truncated instruction")));
        },
    };
    if low > high {
        return Err(jvm.throw_exception("java/lang/Error", Some("malformed tableswitch")));
    }
    let offset: i32 = if key < low || key > high {
        default
    } else {
        // Skip to the selected table entry.
        let entry = (key as i64 - low as i64) as u64;
        if entry >= 0x4000_0000 {
            return Err(jvm.throw_exception("java/lang/Error", Some("malformed tableswitch")));
        }
        let skip = (entry as usize) * 4;
        if state.instruction_offset > code_len || code_len - state.instruction_offset < skip {
            return Err(jvm.throw_exception("java/lang/Error", Some("truncated instruction")));
        }
        state.instruction_offset = state.instruction_offset + skip;
        match frameops::take_u32(&jvm.call_stack_frames[t].instructions, state) {
            Ok(v) => v as i32,
            Err(()) => {
                return Err(jvm.throw_exception("java/lang/Error", Some("truncated instruction")));
            },
        }
    };
    if branch_to(state, instruction_addr, offset, code_len).is_err() {
        return Err(jvm.throw_exception("java/lang/Error", Some("branch target out of range")));
    }
    Ok(Action::Continue)
}

/// Pads the program counter to the next four-byte boundary (for the switch
/// instructions' operand blocks).
fn pad_to_four(state: &mut CallStackFrameState, code_len: usize)
    requires
        old(state).instruction_offset <= code_len,
    ensures
        final(state).instruction_offset <= old(state).instruction_offset + 3,
        final(state).instruction_offset >= old(state).instruction_offset,
        final(state).instruction_offset as int == spec_pad4(
            old(state).instruction_offset as int,
        ),
        *final(state) == (CallStackFrameState {
            instruction_offset: final(state).instruction_offset,
            ..*old(state)
        }),
{
    let rem = state.instruction_offset % 4;
    if rem != 0 {
        let pad = 4 - rem;
        if state.instruction_offset <= usize::MAX - pad {
            state.instruction_offset = state.instruction_offset + pad;
        }
    }
}

/// Pops one value and promotes it to a 32-bit int, raising an internal error
/// when the top is not integral.
pub fn pop_int(jvm: &mut Jvm, state: &mut CallStackFrameState) -> (r: RuntimeResult<i32>)
    requires
        old(jvm).wf(),
        crate::value::stack_wf(old(state).stack@),
    ensures
        final(jvm).wf(),
        classes_extend(old(jvm).heap.loaded_classes@, final(jvm).heap.loaded_classes@),
        final(jvm).classpath == old(jvm).classpath,
        r matches Ok(v) ==> *final(jvm) == *old(jvm) && old(state).stack@.len() > 0 && old(state).stack@.last().spec_as_int() == Ok::<i32, ()>(v) && final(state).stack@ == old(state).stack@.drop_last() && crate::value::stack_wf(final(state).stack@) && *final(state) == (
        CallStackFrameState { stack: final(state).stack, ..*old(state) }),
        r is Err ==> (old(state).stack@.len() == 0 || old(state).stack@.last().is_upper_half()
            || old(state).stack@.last().spec_as_int() is Err),
        r is Err ==> crate::jvm::entries_prefix(old(jvm).heap.entries@, final(jvm).heap.entries@),
        r matches Ok(v) ==> *final(jvm) == *old(jvm),
        r matches Err(t) ==> crate::jvm::exception_delivered(*final(jvm), t),
{
    let v = match pop_cat1(state) {
        Ok(v) => v,
        Err(()) => {
            return Err(jvm.throw_exception("java/lang/Error", Some("stack underflow")));
        },
    };
    match v.as_int() {
        Ok(a) => Ok(a),
        Err(()) => Err(jvm.throw_exception("java/lang/Error", Some("integral value expected"))),
    }
}

/// The `wide` prefix: the following load, store or `iinc` takes 16-bit
/// operands.
fn exec_wide(
    jvm: &mut Jvm,
    state: &mut CallStackFrameState,
    t: usize,
    opcode: u8,
    max_stack: usize,
) -> (r: RuntimeResult<Action>)
    requires
        old(jvm).wf(),
        t < old(jvm).call_stack_frames@.len(),
        state_ok(*old(state), max_stack as int, old(jvm).call_stack_frames@[t as int].instructions@.len() as int),
    ensures
        dispatch_post(
            *old(jvm),
            *final(jvm),
            *final(state),
            r,
            max_stack as int,
            old(jvm).call_stack_frames@[t as int].instructions@.len() as int,
        ),
{
    let sub = match take_u8(&jvm.call_stack_frames[t].instructions, state) {
        Ok(v) => v,
        Err(()) => {
            return Err(jvm.throw_exception("java/lang/Error", Some("truncated instruction")));
        },
    };
    let index = match take_u16(&jvm.call_stack_frames[t].instructions, state) {
        Ok(v) => v as usize,
        Err(()) => {
            return Err(jvm.throw_exception("java/lang/Error", Some("truncated instruction")));
        },
    };
    if sub >= 0x15 && sub <= 0x19 {
        load_local(jvm, state, index, max_stack)
    } else if sub >= 0x36 && sub <= 0x3a {
        store_local(jvm, state, index)
    } else if sub == 0x84 {
        let c = match take_u16(&jvm.call_stack_frames[t].instructions, state) {
            Ok(v) => v as i16 as i32,
            Err(()) => {
                return Err(jvm.throw_exception("java/lang/Error", Some("truncated instruction")));
            },
        };
        arith::exec_iinc_at(jvm, state, index, c)
    } else {
        Err(
            jvm.throw_exception(
                "webjvm/lang/UnhandledInstructionError",
                Some(crate::strutil::i32_to_string(sub as i32).as_str()),
            ),
        )
    }
}

/// The return family: pops the return value (for the non-void forms), pops
/// the frame, and leaves the value for the caller.
fn exec_return(jvm: &mut Jvm, state: &mut CallStackFrameState, t: usize, opcode: u8) -> (r:
    RuntimeResult<Action>)
    requires
        old(jvm).wf(),
        t < old(jvm).call_stack_frames@.len(),
        crate::value::stack_wf(old(state).stack@),
    ensures
        final(jvm).wf(),
        classes_extend(old(jvm).heap.loaded_classes@, final(jvm).heap.loaded_classes@),
        final(jvm).classpath == old(jvm).classpath,
        r matches Ok(a) ==> (a matches Action::FrameReturn(v) && final(jvm).call_stack_frames@
            == old(jvm).call_stack_frames@ && (opcode == 0xb1 ==> v is None) && (opcode != 0xb1
            ==> v == Some(crate::value::spec_pop_full(old(state).stack@).1.unwrap()))),
        r matches Err(t) ==> crate::jvm::exception_delivered(*final(jvm), t),
{
    if opcode == 0xb1 {
        // return (void)
        return Ok(Action::FrameReturn(None));
    }
    let v = match pop_any(state) {
        Ok(v) => v,
        Err(()) => {
            return Err(jvm.throw_exception("java/lang/Error", Some("stack underflow")));
        },
    };
    // A non-null object result must conform to the method's declared return
    // type.
    let needs_check = match v {
        JavaValue::Object(Some(_)) => true,
        _ => false,
    };
    if needs_check {
        let return_class: Option<String> = {
            let signature = jvm.call_stack_frames[t].container_method.as_str();
            match crate::descriptor::MethodDescriptor::new(signature) {
                Ok(md) => {
                    let ret = md.return_type.as_str();
                    let n = ret.unicode_len();
                    if n >= 2 && ret.get_char(0) == 'L' {
                        Some(ret.substring_char(1, n - 1).to_owned())
                    } else {
                        None
                    }
                },
                Err(()) => {
                    return Err(jvm.throw_exception("java/lang/Error", Some("malformed method signature")));
                },
            }
        };
        match return_class {
            Some(name) => {
                let conforms = match jvm.is_instance_of(&v, name.as_str()) {
                    Ok(b) => b,
                    Err(()) => {
                        return Err(jvm.throw_exception("java/lang/Error", Some("invalid object reference")));
                    },
                };
                if !conforms {
                    return Err(
                        jvm.throw_exception("java/lang/ClassCastException", Some(name.as_str())),
                    );
                }
            },
            None => {},
        }
    }
    Ok(Action::FrameReturn(Some(v)))
}

} // verus!
