//! Arithmetic, logic, shift, conversion and comparison handlers. Integer
//! math wraps on overflow (two's complement); division and remainder by zero
//! raise `ArithmeticException`; shift amounts are masked to 5 bits for `int`
//! and 6 bits for `long`. Floating-point work is delegated to the embedder's
//! `FloatOps` and nothing is assumed about its results beyond their type.

use vstd::prelude::*;

use crate::floatops::{FloatOps, FLOAT_CMP_UNORDERED};
use crate::frame::{CallStackFrameState, RuntimeResult};
use crate::jvm::{classes_extend, Jvm};
use crate::value::JavaValue;
use super::frameops::{pop_cat1, pop_cat2, push_value, state_ok, take_u8};
use super::{dispatch_post, Action};

verus! {

/// Java `int` division: truncated, with the one overflowing pair wrapping
/// back to `i32::MIN`.
pub open spec fn spec_java_idiv(a: i32, b: i32) -> i32
    recommends
        b != 0,
{
    if b == -1 {
        vstd::wrapping::i32_specs::wrapping_sub(0, a)
    } else if a >= 0 {
        ((a as int) / (b as int)) as i32
    } else {
        (-((-(a as int)) / (b as int))) as i32
    }
}

/// Java `int` remainder: takes the dividend's sign; `a rem -1` is 0.
pub open spec fn spec_java_irem(a: i32, b: i32) -> i32
    recommends
        b != 0,
{
    if b == -1 {
        0
    } else if a >= 0 {
        ((a as int) % (b as int)) as i32
    } else {
        (-((-(a as int)) % (b as int))) as i32
    }
}

/// Java `long` division, as `spec_java_idiv`.
pub open spec fn spec_java_ldiv(a: i64, b: i64) -> i64
    recommends
        b != 0,
{
    if b == -1 {
        vstd::wrapping::i64_specs::wrapping_sub(0, a)
    } else if a >= 0 {
        ((a as int) / (b as int)) as i64
    } else {
        (-((-(a as int)) / (b as int))) as i64
    }
}

/// Java `long` remainder, as `spec_java_irem`.
pub open spec fn spec_java_lrem(a: i64, b: i64) -> i64
    recommends
        b != 0,
{
    if b == -1 {
        0
    } else if a >= 0 {
        ((a as int) % (b as int)) as i64
    } else {
        (-((-(a as int)) % (b as int))) as i64
    }
}

/// The result of the wrapping `int` binary arithmetic opcodes.
pub open spec fn spec_int_binop(opcode: u8, a: i32, b: i32) -> i32 {
    if opcode == 0x60 {
        vstd::wrapping::i32_specs::wrapping_add(a, b)
    } else if opcode == 0x64 {
        vstd::wrapping::i32_specs::wrapping_sub(a, b)
    } else if opcode == 0x68 {
        vstd::wrapping::i32_specs::wrapping_mul(a, b)
    } else if opcode == 0x6c {
        spec_java_idiv(a, b)
    } else {
        spec_java_irem(a, b)
    }
}

/// The result of the wrapping `long` binary arithmetic opcodes.
pub open spec fn spec_long_binop(opcode: u8, a: i64, b: i64) -> i64 {
    if opcode == 0x61 {
        vstd::wrapping::i64_specs::wrapping_add(a, b)
    } else if opcode == 0x65 {
        vstd::wrapping::i64_specs::wrapping_sub(a, b)
    } else if opcode == 0x69 {
        vstd::wrapping::i64_specs::wrapping_mul(a, b)
    } else if opcode == 0x6d {
        spec_java_ldiv(a, b)
    } else {
        spec_java_lrem(a, b)
    }
}

/// The five wrapping binary `int` arithmetic opcodes.
pub open spec fn is_int_arith(opcode: u8) -> bool {
    opcode == 0x60 || opcode == 0x64 || opcode == 0x68 || opcode == 0x6c || opcode == 0x70
}

/// The five wrapping binary `long` arithmetic opcodes.
pub open spec fn is_long_arith(opcode: u8) -> bool {
    opcode == 0x61 || opcode == 0x65 || opcode == 0x69 || opcode == 0x6d || opcode == 0x71
}

/// The effect of a binary `int` arithmetic opcode on a frame state: the two
/// integral operands are replaced by the wrapped result, everything else
/// stays, and division or remainder only succeeds on a nonzero divisor.
pub open spec fn int_arith_effect(
    pre: CallStackFrameState,
    post: CallStackFrameState,
    opcode: u8,
) -> bool {
    &&& (pre.stack@.last().spec_as_int() matches Ok(rhs) ==> (pre.stack@.drop_last().last().spec_as_int() matches Ok(lhs) ==> post.stack@ == pre.stack@.drop_last().drop_last().push(
        JavaValue::Int(spec_int_binop(opcode, lhs, rhs)),
    ) && ((opcode == 0x6c || opcode == 0x70) ==> rhs != 0)))
    &&& post.lvt@ == pre.lvt@
    &&& post.instruction_offset == pre.instruction_offset
    &&& post.return_stack_value == pre.return_stack_value
}

/// The effect of a binary `long` arithmetic opcode on a frame state, as
/// `int_arith_effect` (the operands occupy two cells each).
pub open spec fn long_arith_effect(
    pre: CallStackFrameState,
    post: CallStackFrameState,
    opcode: u8,
) -> bool {
    &&& ({
        let s1 = pre.stack@.take(pre.stack@.len() - 2);
        (pre.stack@[pre.stack@.len() - 2] matches JavaValue::Long(rhs) ==> (s1[s1.len()
            - 2] matches JavaValue::Long(lhs) ==> post.stack@ == s1.take(s1.len() - 2).push(
            JavaValue::Long(spec_long_binop(opcode, lhs, rhs)),
        ).push(JavaValue::spec_upper_half()) && ((opcode == 0x6d || opcode == 0x71) ==> rhs != 0)))
    })
    &&& post.lvt@ == pre.lvt@
    &&& post.instruction_offset == pre.instruction_offset
    &&& post.return_stack_value == pre.return_stack_value
}

/// The value `lcmp` pushes: 1, 0 or -1 as the left operand is greater,
/// equal or less.
pub open spec fn spec_lcmp(a: i64, b: i64) -> i32 {
    if a > b {
        1i32
    } else if a == b {
        0i32
    } else {
        -1i32
    }
}

/// The integer-to-integer conversions: widening to `long`, or narrowing to
/// `byte`, `char` or `short` by truncation.
pub open spec fn spec_int_convert(opcode: u8, v: i32) -> JavaValue {
    if opcode == 0x85 {
        JavaValue::Long(v as i64)
    } else if opcode == 0x91 {
        JavaValue::Byte(v as i8)
    } else if opcode == 0x92 {
        JavaValue::Char(v as u16)
    } else {
        JavaValue::Short(v as i16)
    }
}

/// How a comparison opcode turns the embedder's three-way result into the
/// pushed value: an unordered (NaN) comparison becomes 1 under the `g`
/// suffix and -1 under the `l` suffix; otherwise the sign of the result.
pub open spec fn spec_cmp_outcome(c: i32, greater: bool) -> i32 {
    if c == FLOAT_CMP_UNORDERED {
        if greater {
            1i32
        } else {
            -1i32
        }
    } else if c > 0 {
        1i32
    } else if c < 0 {
        -1i32
    } else {
        0i32
    }
}

/// The post-stack extends the pre-stack (operands already removed) by the
/// mapped image of some raw three-way comparison result.
pub open spec fn cmp_outcome_pushed(below: Seq<JavaValue>, post: Seq<JavaValue>, greater: bool) -> bool {
    exists|c: i32| post == below.push(JavaValue::Int(#[trigger] spec_cmp_outcome(c, greater)))
}

/// Maps a raw comparison result to the value the comparison opcodes push.
pub fn comparison_outcome(c: i32, greater: bool) -> (r: i32)
    ensures
        r == spec_cmp_outcome(c, greater),
{
    if c == FLOAT_CMP_UNORDERED {
        if greater {
            1
        } else {
            -1
        }
    } else if c > 0 {
        1
    } else if c < 0 {
        -1
    } else {
        0
    }
}

/// Pops one full value as a `long`.
fn pop_long(jvm: &mut Jvm, state: &mut CallStackFrameState) -> (r: RuntimeResult<i64>)
    requires
        old(jvm).wf(),
        crate::value::stack_wf(old(state).stack@),
    ensures
        final(jvm).wf(),
        classes_extend(old(jvm).heap.loaded_classes@, final(jvm).heap.loaded_classes@),
        final(jvm).classpath == old(jvm).classpath,
        r matches Ok(v) ==> *final(jvm) == *old(jvm) && old(state).stack@.len() >= 2 && old(state).stack@[old(state).stack@.len() - 2] == JavaValue::Long(v) && final(state).stack@ == old(state).stack@.take(old(state).stack@.len() - 2) && crate::value::stack_wf(final(state).stack@)
            && *final(state) == (CallStackFrameState {
            stack: final(state).stack,
            ..*old(state)
        }),
        r is Err ==> (old(state).stack@.len() < 2 || !old(state).stack@.last().is_upper_half()
            || !(old(state).stack@[old(state).stack@.len() - 2] is Long)),
        r matches Err(t) ==> crate::jvm::exception_delivered(*final(jvm), t),
{
    let v = match pop_cat2(state) {
        Ok(v) => v,
        Err(()) => {
            return Err(jvm.throw_exception("java/lang/Error", Some("stack underflow")));
        },
    };
    match v.as_long() {
        Ok(a) => Ok(a),
        Err(()) => Err(jvm.throw_exception("java/lang/Error", Some("long value expected"))),
    }
}

/// Pops one full value as double-precision bits.
fn pop_double_bits(jvm: &mut Jvm, state: &mut CallStackFrameState) -> (r: RuntimeResult<u64>)
    requires
        old(jvm).wf(),
        crate::value::stack_wf(old(state).stack@),
    ensures
        final(jvm).wf(),
        classes_extend(old(jvm).heap.loaded_classes@, final(jvm).heap.loaded_classes@),
        final(jvm).classpath == old(jvm).classpath,
        r matches Ok(v) ==> *final(jvm) == *old(jvm) && old(state).stack@.len() >= 2 && old(state).stack@[old(state).stack@.len() - 2] == JavaValue::Double(v) && final(state).stack@ == old(state).stack@.take(old(state).stack@.len() - 2) && crate::value::stack_wf(final(state).stack@)
            && *final(state) == (CallStackFrameState {
            stack: final(state).stack,
            ..*old(state)
        }),
        r matches Err(t) ==> crate::jvm::exception_delivered(*final(jvm), t),
{
    let v = match pop_cat2(state) {
        Ok(v) => v,
        Err(()) => {
            return Err(jvm.throw_exception("java/lang/Error", Some("stack underflow")));
        },
    };
    match v.as_double() {
        Ok(a) => Ok(a),
        Err(()) => Err(jvm.throw_exception("java/lang/Error", Some("double value expected"))),
    }
}

/// Pops one value as single-precision bits.
fn pop_float_bits(jvm: &mut Jvm, state: &mut CallStackFrameState) -> (r: RuntimeResult<u32>)
    requires
        old(jvm).wf(),
        crate::value::stack_wf(old(state).stack@),
    ensures
        final(jvm).wf(),
        classes_extend(old(jvm).heap.loaded_classes@, final(jvm).heap.loaded_classes@),
        final(jvm).classpath == old(jvm).classpath,
        r matches Ok(v) ==> *final(jvm) == *old(jvm) && old(state).stack@.len() > 0 && old(state).stack@.last() == JavaValue::Float(v) && final(state).stack@ == old(state).stack@.drop_last() && crate::value::stack_wf(final(state).stack@) && *final(state) == (
        CallStackFrameState { stack: final(state).stack, ..*old(state) }),
        r matches Err(t) ==> crate::jvm::exception_delivered(*final(jvm), t),
{
    let v = match pop_cat1(state) {
        Ok(v) => v,
        Err(()) => {
            return Err(jvm.throw_exception("java/lang/Error", Some("stack underflow")));
        },
    };
    match v.as_float() {
        Ok(a) => Ok(a),
        Err(()) => Err(jvm.throw_exception("java/lang/Error", Some("float value expected"))),
    }
}

/// Pushes a value, raising an internal error on operand-stack overflow.
fn push_or_err(
    jvm: &mut Jvm,
    state: &mut CallStackFrameState,
    v: JavaValue,
    max_stack: usize,
) -> (r: RuntimeResult<Action>)
    requires
        old(jvm).wf(),
        crate::value::stack_wf(old(state).stack@),
    ensures
        final(jvm).wf(),
        classes_extend(old(jvm).heap.loaded_classes@, final(jvm).heap.loaded_classes@),
        final(jvm).classpath == old(jvm).classpath,
        r matches Ok(a) ==> a is Continue && *final(jvm) == *old(jvm) && final(state).stack@
            == crate::value::spec_push(old(state).stack@, v) && crate::value::stack_wf(
            final(state).stack@,
        ) && final(state).stack@.len() <= max_stack && *final(state) == (CallStackFrameState {
            stack: final(state).stack,
            ..*old(state)
        }),
        r is Err ==> (v.is_upper_half() || old(state).stack@.len() + (if v.is_category_2() {
            2int
        } else {
            1int
        }) > max_stack),
        r matches Err(t) ==> crate::jvm::exception_delivered(*final(jvm), t),
{
    match push_value(state, v, max_stack) {
        Ok(()) => Ok(Action::Continue),
        Err(()) => Err(jvm.throw_exception("java/lang/Error", Some("operand stack overflow"))),
    }
}

/// `iinc`: adds a constant to an integral local, wrapping on overflow.
pub fn exec_iinc_at(
    jvm: &mut Jvm,
    state: &mut CallStackFrameState,
    index: usize,
    value: i32,
) -> (r: RuntimeResult<Action>)
    requires
        old(jvm).wf(),
        crate::value::stack_wf(old(state).stack@),
    ensures
        final(jvm).wf(),
        classes_extend(old(jvm).heap.loaded_classes@, final(jvm).heap.loaded_classes@),
        final(jvm).classpath == old(jvm).classpath,
        r matches Ok(a) ==> a is Continue && final(jvm).call_stack_frames@ == old(jvm).call_stack_frames@ && (old(state).lvt@[index as int].spec_as_int() matches Ok(cur)
            && final(state).lvt@ == old(state).lvt@.update(
            index as int,
            JavaValue::Int(vstd::wrapping::i32_specs::wrapping_add(cur, value)),
        )) && final(state).stack@ == old(state).stack@ && final(state).instruction_offset == old(state).instruction_offset,
        r matches Err(t) ==> crate::jvm::exception_delivered(*final(jvm), t),
{
    let v = match super::frameops::lvt_get(state, index) {
        Ok(v) => v,
        Err(()) => {
            return Err(jvm.throw_exception("java/lang/Error", Some("local variable index out of range")));
        },
    };
    let cur = match v.as_int() {
        Ok(a) => a,
        Err(()) => {
            return Err(jvm.throw_exception("java/lang/Error", Some("integral value expected")));
        },
    };
    match super::frameops::lvt_set(state, index, JavaValue::Int(cur.wrapping_add(value))) {
        Ok(()) => Ok(Action::Continue),
        Err(()) => Err(jvm.throw_exception("java/lang/Error", Some("local variable index out of range"))),
    }
}

/// The arithmetic block, opcodes 0x60 through 0x98: binary and shift
/// arithmetic on `int` and `long`, the delegated floating-point operations,
/// `iinc`, the primitive conversions, and the comparisons.
pub fn exec_arith<F: FloatOps>(
    jvm: &mut Jvm,
    state: &mut CallStackFrameState,
    t: usize,
    opcode: u8,
    max_stack: usize,
    fl: &F,
) -> (r: RuntimeResult<Action>)
    requires
        old(jvm).wf(),
        t < old(jvm).call_stack_frames@.len(),
        state_ok(*old(state), max_stack as int, old(jvm).call_stack_frames@[t as int].instructions@.len() as int),
        0x60 <= opcode <= 0x98,
    ensures
        dispatch_post(
            *old(jvm),
            *final(jvm),
            *final(state),
            r,
            max_stack as int,
            old(jvm).call_stack_frames@[t as int].instructions@.len() as int,
        ),
        r matches Ok(a) ==> a is Continue,
        r matches Ok(a) ==> (is_int_arith(opcode) ==> int_arith_effect(
            *old(state),
            *final(state),
            opcode,
        )),
        r matches Ok(a) ==> (is_long_arith(opcode) ==> long_arith_effect(
            *old(state),
            *final(state),
            opcode,
        )),
        (is_int_arith(opcode) && old(state).stack@.len() >= 2 && old(state).stack@.len()
            <= max_stack && old(state).stack@.last().spec_as_int() is Ok && old(state).stack@.drop_last().last().spec_as_int() is Ok && ((opcode == 0x6c || opcode == 0x70)
            ==> old(state).stack@.last().spec_as_int() != Ok::<i32, ()>(0))) ==> r is Ok,
        // lcmp pushes the exact three-way ordering of its long operands.
        r matches Ok(a) ==> (opcode == 0x94 ==> ({
            let s1 = old(state).stack@.take(old(state).stack@.len() - 2);
            (old(state).stack@[old(state).stack@.len() - 2] matches JavaValue::Long(rhs) ==> (s1[
                s1.len() - 2] matches JavaValue::Long(lhs) ==> final(state).stack@ == s1.take(
                s1.len() - 2,
            ).push(JavaValue::Int(spec_lcmp(lhs, rhs)))))
        })),
        // The float and double comparisons push the image of the embedder's
        // raw three-way result under `spec_cmp_outcome`: an unordered
        // comparison becomes 1 under the `g` suffix and -1 under `l`.
        // The float and double comparisons push the image, under the
        // unordered-aware `spec_cmp_outcome` mapping, of some raw embedder
        // comparison result; the `g` suffix (fcmpg, dcmpg) maps unordered
        // to 1 and the `l` suffix to -1.
        r matches Ok(a) ==> ((opcode == 0x95 || opcode == 0x96) ==> (old(state).stack@.last()
            is Float ==> (old(state).stack@.drop_last().last() is Float ==> cmp_outcome_pushed(
            old(state).stack@.drop_last().drop_last(),
            final(state).stack@,
            opcode == 0x96,
        )))),
        r matches Ok(a) ==> ((opcode == 0x97 || opcode == 0x98) ==> ({
            let s1 = old(state).stack@.take(old(state).stack@.len() - 2);
            (old(state).stack@[old(state).stack@.len() - 2] is Double ==> (s1[s1.len() - 2]
                is Double ==> cmp_outcome_pushed(
                s1.take(s1.len() - 2),
                final(state).stack@,
                opcode == 0x98,
            )))
        })),
        // Division or remainder of ints by zero raises ArithmeticException.
        ((opcode == 0x6c || opcode == 0x70) && old(state).stack@.len() >= 2 && old(state).stack@.last().spec_as_int() == Ok::<i32, ()>(0)
            && old(state).stack@.drop_last().last().spec_as_int() is Ok) ==> (r is Err && (
        r matches Err(tt) ==> (crate::jvm::thrown_is_instance_of(
            *final(jvm),
            tt,
            crate::jvm::canonical_class_name("java/lang/ArithmeticException"@),
        ) || tt == crate::frame::JavaThrowable::Unhandled(0usize)))),
{
    if opcode == 0x84 {
        // iinc index const
        let index = match take_u8(&jvm.call_stack_frames[t].instructions, state) {
            Ok(v) => v as usize,
            Err(()) => {
                return Err(jvm.throw_exception("java/lang/Error", Some("truncated instruction")));
            },
        };
        let c = match take_u8(&jvm.call_stack_frames[t].instructions, state) {
            Ok(v) => v as i8 as i32,
            Err(()) => {
                return Err(jvm.throw_exception("java/lang/Error", Some("truncated instruction")));
            },
        };
        return exec_iinc_at(jvm, state, index, c);
    }
    if opcode >= 0x60 && opcode <= 0x73 && (opcode % 4) < 2 {
        // {i,l}{add,sub,mul,div,rem}: even pairs are int, odd are long
        return exec_int_long_arith(jvm, state, opcode, max_stack);
    }
    if opcode >= 0x62 && opcode <= 0x73 {
        // {f,d}{add,sub,mul,div,rem}: delegated to the embedder
        return exec_float_arith(jvm, state, opcode, max_stack, fl);
    }
    if opcode >= 0x78 && opcode <= 0x83 {
        return exec_shift_logic(jvm, state, opcode, max_stack);
    }
    if opcode >= 0x85 && opcode <= 0x93 {
        return exec_convert(jvm, state, opcode, max_stack, fl);
    }
    if opcode == 0x94 {
        // lcmp
        let rhs = pop_long(jvm, state)?;
        let lhs = pop_long(jvm, state)?;
        let c: i32 = if lhs > rhs {
            1
        } else if lhs == rhs {
            0
        } else {
            -1
        };
        proof {
            assert(c == spec_lcmp(lhs, rhs));
        }
        return push_or_err(jvm, state, JavaValue::Int(c), max_stack);
    }
    if opcode == 0x95 || opcode == 0x96 {
        // fcmpl / fcmpg
        let rhs = pop_float_bits(jvm, state)?;
        let lhs = pop_float_bits(jvm, state)?;
        let c = fl.fcmp(lhs, rhs);
        let v: i32 = comparison_outcome(c, opcode == 0x96);
        return push_or_err(jvm, state, JavaValue::Int(v), max_stack);
    }
    if opcode == 0x97 || opcode == 0x98 {
        // dcmpl / dcmpg
        let rhs = pop_double_bits(jvm, state)?;
        let lhs = pop_double_bits(jvm, state)?;
        let c = fl.dcmp(lhs, rhs);
        let v: i32 = comparison_outcome(c, opcode == 0x98);
        return push_or_err(jvm, state, JavaValue::Int(v), max_stack);
    }
    Err(
        jvm.throw_exception(
            "webjvm/lang/UnhandledInstructionError",
            Some(crate::strutil::i32_to_string(opcode as i32).as_str()),
        ),
    )
}

/// `{i,l}{add,sub,mul,div,rem}`: wrapping two's-complement arithmetic;
/// division or remainder by zero raises `ArithmeticException`.
fn exec_int_long_arith(
    jvm: &mut Jvm,
    state: &mut CallStackFrameState,
    opcode: u8,
    max_stack: usize,
) -> (r: RuntimeResult<Action>)
    requires
        old(jvm).wf(),
        crate::value::stack_wf(old(state).stack@),
        0x60 <= opcode <= 0x73,
        (opcode % 4) < 2,
    ensures
        final(jvm).wf(),
        classes_extend(old(jvm).heap.loaded_classes@, final(jvm).heap.loaded_classes@),
        final(jvm).classpath == old(jvm).classpath,
        r matches Ok(a) ==> a is Continue && final(jvm).call_stack_frames@ == old(jvm).call_stack_frames@ && crate::value::stack_wf(final(state).stack@) && final(state).stack@.len() <= max_stack && final(state).instruction_offset == old(state).instruction_offset,
        r matches Err(t) ==> crate::jvm::exception_delivered(*final(jvm), t),
        r matches Ok(a) ==> (opcode % 2 == 0 ==> int_arith_effect(*old(state), *final(state), opcode)),
        r matches Ok(a) ==> (opcode % 2 == 1 ==> long_arith_effect(*old(state), *final(state), opcode)),
        // Success is owed for well-typed operands (and a nonzero divisor)
        // within the declared stack bound.
        ((opcode % 2 == 0) && old(state).stack@.len() >= 2 && old(state).stack@.len() <= max_stack
            && old(state).stack@.last().spec_as_int() is Ok && old(state).stack@.drop_last().last().spec_as_int() is Ok && ((opcode == 0x6c || opcode == 0x70)
            ==> old(state).stack@.last().spec_as_int() != Ok::<i32, ()>(0))) ==> r is Ok,
        // Division or remainder by zero fails, raising ArithmeticException.
        ((opcode == 0x6c || opcode == 0x70) && old(state).stack@.len() >= 2 && old(state).stack@.last().spec_as_int() == Ok::<i32, ()>(0)
            && old(state).stack@.drop_last().last().spec_as_int() is Ok) ==> (r is Err && (
        r matches Err(tt) ==> (crate::jvm::thrown_is_instance_of(
            *final(jvm),
            tt,
            crate::jvm::canonical_class_name("java/lang/ArithmeticException"@),
        ) || tt == crate::frame::JavaThrowable::Unhandled(0usize)))),
        ((opcode == 0x6d || opcode == 0x71) && old(state).stack@.len() >= 4 && old(state).stack@.last().is_upper_half() && old(state).stack@[
            old(state).stack@.len() - 2] == JavaValue::Long(0i64) && old(state).stack@.take(
            old(state).stack@.len() - 2,
        ).last().is_upper_half() && old(state).stack@[old(state).stack@.len() - 4] is Long) ==> (
        r is Err && (r matches Err(tt) ==> (
        crate::jvm::thrown_is_instance_of(
            *final(jvm),
            tt,
            crate::jvm::canonical_class_name("java/lang/ArithmeticException"@),
        ) || tt == crate::frame::JavaThrowable::Unhandled(0usize)))),
{
    if opcode % 2 == 0 {
        // int forms
        let rhs = super::pop_int(jvm, state)?;
        let lhs = super::pop_int(jvm, state)?;
        let v: i32 = if opcode == 0x60 {
            lhs.wrapping_add(rhs)
        } else if opcode == 0x64 {
            lhs.wrapping_sub(rhs)
        } else if opcode == 0x68 {
            lhs.wrapping_mul(rhs)
        } else if opcode == 0x6c {
            if rhs == 0 {
                return Err(jvm.throw_exception("java/lang/ArithmeticException", Some("/ by zero")));
            }
            if rhs == -1 {
                0i32.wrapping_sub(lhs)
            } else {
                lhs / rhs
            }
        } else if opcode == 0x70 {
            if rhs == 0 {
                return Err(jvm.throw_exception("java/lang/ArithmeticException", Some("/ by zero")));
            }
            if rhs == -1 {
                0
            } else {
                lhs % rhs
            }
        } else {
            return Err(
                jvm.throw_exception(
                    "webjvm/lang/UnhandledInstructionError",
                    Some(crate::strutil::i32_to_string(opcode as i32).as_str()),
                ),
            );
        };
        push_or_err(jvm, state, JavaValue::Int(v), max_stack)
    } else {
        // long forms
        let rhs = pop_long(jvm, state)?;
        let lhs = pop_long(jvm, state)?;
        let v: i64 = if opcode == 0x61 {
            lhs.wrapping_add(rhs)
        } else if opcode == 0x65 {
            lhs.wrapping_sub(rhs)
        } else if opcode == 0x69 {
            lhs.wrapping_mul(rhs)
        } else if opcode == 0x6d {
            if rhs == 0 {
                return Err(jvm.throw_exception("java/lang/ArithmeticException", Some("/ by zero")));
            }
            if rhs == -1 {
                0i64.wrapping_sub(lhs)
            } else {
                lhs / rhs
            }
        } else if opcode == 0x71 {
            if rhs == 0 {
                return Err(jvm.throw_exception("java/lang/ArithmeticException", Some("/ by zero")));
            }
            if rhs == -1 {
                0
            } else {
                lhs % rhs
            }
        } else {
            return Err(
                jvm.throw_exception(
                    "webjvm/lang/UnhandledInstructionError",
                    Some(crate::strutil::i32_to_string(opcode as i32).as_str()),
                ),
            );
        };
        push_or_err(jvm, state, JavaValue::Long(v), max_stack)
    }
}

/// `{f,d}{add,sub,mul,div,rem}`: the bits are handed to the embedder's
/// `FloatOps`; any returned bits are pushed.
fn exec_float_arith<F: FloatOps>(
    jvm: &mut Jvm,
    state: &mut CallStackFrameState,
    opcode: u8,
    max_stack: usize,
    fl: &F,
) -> (r: RuntimeResult<Action>)
    requires
        old(jvm).wf(),
        crate::value::stack_wf(old(state).stack@),
        0x62 <= opcode <= 0x73,
    ensures
        final(jvm).wf(),
        classes_extend(old(jvm).heap.loaded_classes@, final(jvm).heap.loaded_classes@),
        final(jvm).classpath == old(jvm).classpath,
        r matches Ok(a) ==> a is Continue && final(jvm).call_stack_frames@ == old(jvm).call_stack_frames@ && crate::value::stack_wf(final(state).stack@) && final(state).stack@.len() <= max_stack && final(state).instruction_offset == old(state).instruction_offset,
        r matches Err(t) ==> crate::jvm::exception_delivered(*final(jvm), t),
{
    if opcode % 4 == 2 {
        // float forms
        let rhs = pop_float_bits(jvm, state)?;
        let lhs = pop_float_bits(jvm, state)?;
        let v: u32 = if opcode == 0x62 {
            fl.fadd(lhs, rhs)
        } else if opcode == 0x66 {
            fl.fsub(lhs, rhs)
        } else if opcode == 0x6a {
            fl.fmul(lhs, rhs)
        } else if opcode == 0x6e {
            fl.fdiv(lhs, rhs)
        } else if opcode == 0x72 {
            fl.frem(lhs, rhs)
        } else {
            return Err(
                jvm.throw_exception(
                    "webjvm/lang/UnhandledInstructionError",
                    Some(crate::strutil::i32_to_string(opcode as i32).as_str()),
                ),
            );
        };
        push_or_err(jvm, state, JavaValue::Float(v), max_stack)
    } else if opcode % 4 == 3 {
        // double forms
        let rhs = pop_double_bits(jvm, state)?;
        let lhs = pop_double_bits(jvm, state)?;
        let v: u64 = if opcode == 0x63 {
            fl.dadd(lhs, rhs)
        } else if opcode == 0x67 {
            fl.dsub(lhs, rhs)
        } else if opcode == 0x6b {
            fl.dmul(lhs, rhs)
        } else if opcode == 0x6f {
            fl.ddiv(lhs, rhs)
        } else if opcode == 0x73 {
            fl.drem(lhs, rhs)
        } else {
            return Err(
                jvm.throw_exception(
                    "webjvm/lang/UnhandledInstructionError",
                    Some(crate::strutil::i32_to_string(opcode as i32).as_str()),
                ),
            );
        };
        push_or_err(jvm, state, JavaValue::Double(v), max_stack)
    } else {
        Err(
            jvm.throw_exception(
                "webjvm/lang/UnhandledInstructionError",
                Some(crate::strutil::i32_to_string(opcode as i32).as_str()),
            ),
        )
    }
}

/// The result of an `int` shift or bitwise opcode: shifts use only the low
/// five bits of the count; `iushr` shifts the bit pattern as unsigned.
pub open spec fn spec_int_shift_logic(opcode: u8, a: i32, s: i32) -> i32 {
    let k = (s & 0x1f) as u32;
    if opcode == 0x78 {
        a << k
    } else if opcode == 0x7a {
        a >> k
    } else if opcode == 0x7c {
        ((a as u32) >> k) as i32
    } else if opcode == 0x7e {
        a & s
    } else if opcode == 0x80 {
        a | s
    } else {
        a ^ s
    }
}

/// The result of a `long` shift or bitwise opcode: shifts use only the low
/// six bits of the count (an `int` on the stack).
pub open spec fn spec_long_shift(opcode: u8, a: i64, s: i32) -> i64 {
    let k = (s & 0x3f) as u32;
    if opcode == 0x79 {
        a << k
    } else if opcode == 0x7b {
        a >> k
    } else {
        ((a as u64) >> k) as i64
    }
}

/// The result of a `long` bitwise opcode.
pub open spec fn spec_long_logic(opcode: u8, a: i64, b: i64) -> i64 {
    if opcode == 0x7f {
        a & b
    } else if opcode == 0x81 {
        a | b
    } else {
        a ^ b
    }
}

/// The shifts (masked to the operand width) and the bitwise and/or/xor.
fn exec_shift_logic(
    jvm: &mut Jvm,
    state: &mut CallStackFrameState,
    opcode: u8,
    max_stack: usize,
) -> (r: RuntimeResult<Action>)
    requires
        old(jvm).wf(),
        crate::value::stack_wf(old(state).stack@),
        0x78 <= opcode <= 0x83,
    ensures
        final(jvm).wf(),
        classes_extend(old(jvm).heap.loaded_classes@, final(jvm).heap.loaded_classes@),
        final(jvm).classpath == old(jvm).classpath,
        r matches Ok(a) ==> a is Continue && final(jvm).call_stack_frames@ == old(jvm).call_stack_frames@ && crate::value::stack_wf(final(state).stack@) && final(state).stack@.len() <= max_stack && final(state).instruction_offset == old(state).instruction_offset,
        // int shifts and bitwise ops: the two integral operands are replaced
        // by the masked-shift or bitwise result
        r matches Ok(a) ==> ((opcode == 0x78 || opcode == 0x7a || opcode == 0x7c || opcode == 0x7e
            || opcode == 0x80 || opcode == 0x82) ==> (old(state).stack@.last().spec_as_int()
            matches Ok(s) ==> (old(state).stack@.drop_last().last().spec_as_int() matches Ok(v)
            ==> final(state).stack@ == old(state).stack@.drop_last().drop_last().push(
            JavaValue::Int(spec_int_shift_logic(opcode, v, s)),
        )))),
        // long shifts: an int count over a long value
        r matches Ok(a) ==> ((opcode == 0x79 || opcode == 0x7b || opcode == 0x7d) ==> (old(state).stack@.last().spec_as_int() matches Ok(s) ==> ({
            let s1 = old(state).stack@.drop_last();
            (s1.len() >= 2 && s1.last().is_upper_half() ==> (s1[s1.len() - 2] matches
                JavaValue::Long(v) ==> final(state).stack@ == s1.take(s1.len() - 2).push(
                JavaValue::Long(spec_long_shift(opcode, v, s)),
            ).push(JavaValue::spec_upper_half())))
        }))),
        // long bitwise ops: both operands are longs
        r matches Ok(a) ==> ((opcode == 0x7f || opcode == 0x81 || opcode == 0x83) ==> ({
            let s0 = old(state).stack@;
            (s0.len() >= 4 && s0.last().is_upper_half() ==> (s0[s0.len() - 2] matches
                JavaValue::Long(b) ==> ({
                let s1 = s0.take(s0.len() - 2);
                (s1.last().is_upper_half() ==> (s1[s1.len() - 2] matches JavaValue::Long(va)
                    ==> final(state).stack@ == s1.take(s1.len() - 2).push(
                    JavaValue::Long(spec_long_logic(opcode, va, b)),
                ).push(JavaValue::spec_upper_half())))
            })))
        })),
        r matches Err(t) ==> crate::jvm::exception_delivered(*final(jvm), t),
{
    if opcode == 0x78 || opcode == 0x7a || opcode == 0x7c {
        // ishl / ishr / iushr: shift amount masked to 5 bits
        let s = super::pop_int(jvm, state)?;
        let a = super::pop_int(jvm, state)?;
        let k: u32 = (s & 0x1f) as u32;
        proof {
            assert((s & 0x1f) < 32 && (s & 0x1f) >= 0) by (bit_vector);
        }
        let v: i32 = if opcode == 0x78 {
            a << k
        } else if opcode == 0x7a {
            a >> k
        } else {
            ((a as u32) >> k) as i32
        };
        push_or_err(jvm, state, JavaValue::Int(v), max_stack)
    } else if opcode == 0x79 || opcode == 0x7b || opcode == 0x7d {
        // lshl / lshr / lushr: shift amount masked to 6 bits
        let s = super::pop_int(jvm, state)?;
        let a = pop_long(jvm, state)?;
        let k: u32 = (s & 0x3f) as u32;
        proof {
            assert((s & 0x3f) < 64 && (s & 0x3f) >= 0) by (bit_vector);
        }
        let v: i64 = if opcode == 0x79 {
            a << k
        } else if opcode == 0x7b {
            a >> k
        } else {
            ((a as u64) >> k) as i64
        };
        push_or_err(jvm, state, JavaValue::Long(v), max_stack)
    } else if opcode == 0x7e || opcode == 0x80 || opcode == 0x82 {
        // iand / ior / ixor
        let rhs = super::pop_int(jvm, state)?;
        let lhs = super::pop_int(jvm, state)?;
        let v: i32 = if opcode == 0x7e {
            lhs & rhs
        } else if opcode == 0x80 {
            lhs | rhs
        } else {
            lhs ^ rhs
        };
        push_or_err(jvm, state, JavaValue::Int(v), max_stack)
    } else {
        // land / lor / lxor
        let rhs = pop_long(jvm, state)?;
        let lhs = pop_long(jvm, state)?;
        let v: i64 = if opcode == 0x7f {
            lhs & rhs
        } else if opcode == 0x81 {
            lhs | rhs
        } else {
            lhs ^ rhs
        };
        push_or_err(jvm, state, JavaValue::Long(v), max_stack)
    }
}

/// The primitive conversions `i2l` through `i2s`: arithmetic casts, with
/// the float and double cases delegated to the embedder.
fn exec_convert<F: FloatOps>(
    jvm: &mut Jvm,
    state: &mut CallStackFrameState,
    opcode: u8,
    max_stack: usize,
    fl: &F,
) -> (r: RuntimeResult<Action>)
    requires
        old(jvm).wf(),
        crate::value::stack_wf(old(state).stack@),
        0x85 <= opcode <= 0x93,
    ensures
        final(jvm).wf(),
        classes_extend(old(jvm).heap.loaded_classes@, final(jvm).heap.loaded_classes@),
        final(jvm).classpath == old(jvm).classpath,
        r matches Ok(a) ==> a is Continue && final(jvm).call_stack_frames@ == old(jvm).call_stack_frames@ && crate::value::stack_wf(final(state).stack@) && final(state).stack@.len() <= max_stack && final(state).instruction_offset == old(state).instruction_offset,
        // the integer-to-integer conversions are exact arithmetic casts
        r matches Ok(a) ==> ((opcode == 0x85 || opcode == 0x91 || opcode == 0x92 || opcode == 0x93)
            ==> (old(state).stack@.last().spec_as_int() matches Ok(v) ==> final(state).stack@
            == crate::value::spec_push(
            old(state).stack@.drop_last(),
            spec_int_convert(opcode, v),
        ))),
        // l2i truncates the long to its low 32 bits
        r matches Ok(a) ==> (opcode == 0x88 ==> ({
            let s0 = old(state).stack@;
            (s0.len() >= 2 && s0.last().is_upper_half() ==> (s0[s0.len() - 2] matches
                JavaValue::Long(v) ==> final(state).stack@ == s0.take(s0.len() - 2).push(
                JavaValue::Int(v as i32),
            )))
        })),
        r matches Err(t) ==> crate::jvm::exception_delivered(*final(jvm), t),
{
    let v: JavaValue = if opcode == 0x85 {
        // i2l
        let a = super::pop_int(jvm, state)?;
        JavaValue::Long(a as i64)
    } else if opcode == 0x86 {
        // i2f
        let a = super::pop_int(jvm, state)?;
        JavaValue::Float(fl.i2f(a))
    } else if opcode == 0x87 {
        // i2d
        let a = super::pop_int(jvm, state)?;
        JavaValue::Double(fl.i2d(a))
    } else if opcode == 0x88 {
        // l2i
        let a = pop_long(jvm, state)?;
        JavaValue::Int(#[verifier::truncate] (a as i32))
    } else if opcode == 0x89 {
        // l2f
        let a = pop_long(jvm, state)?;
        JavaValue::Float(fl.l2f(a))
    } else if opcode == 0x8a {
        // l2d
        let a = pop_long(jvm, state)?;
        JavaValue::Double(fl.l2d(a))
    } else if opcode == 0x8b {
        // f2i
        let a = pop_float_bits(jvm, state)?;
        JavaValue::Int(fl.f2i(a))
    } else if opcode == 0x8c {
        // f2l
        let a = pop_float_bits(jvm, state)?;
        JavaValue::Long(fl.f2l(a))
    } else if opcode == 0x8d {
        // f2d
        let a = pop_float_bits(jvm, state)?;
        JavaValue::Double(fl.f2d(a))
    } else if opcode == 0x8e {
        // d2i
        let a = pop_double_bits(jvm, state)?;
        JavaValue::Int(fl.d2i(a))
    } else if opcode == 0x8f {
        // d2l
        let a = pop_double_bits(jvm, state)?;
        JavaValue::Long(fl.d2l(a))
    } else if opcode == 0x90 {
        // d2f
        let a = pop_double_bits(jvm, state)?;
        JavaValue::Float(fl.d2f(a))
    } else if opcode == 0x91 {
        // i2b
        let a = super::pop_int(jvm, state)?;
        JavaValue::Byte(#[verifier::truncate] (a as i8))
    } else if opcode == 0x92 {
        // i2c
        let a = super::pop_int(jvm, state)?;
        JavaValue::Char(#[verifier::truncate] (a as u16))
    } else {
        // i2s
        let a = super::pop_int(jvm, state)?;
        JavaValue::Short(#[verifier::truncate] (a as i16))
    };
    push_or_err(jvm, state, v, max_stack)
}

} // verus!
