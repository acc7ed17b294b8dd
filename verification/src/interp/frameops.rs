//! Operations on a frame's mutable state: immediate-operand reads that slide
//! the program counter, and the category-aware operand-stack and
//! local-variable operations that maintain the pairing discipline and the
//! `max_stack` bound.

use vstd::prelude::*;

use crate::frame::CallStackFrameState;
use crate::value::{spec_pop_full, spec_push, stack_wf, JavaValue, JavaValueVec};

verus! {

/// The per-frame state invariant the interpreter maintains: the operand
/// stack respects the category-2 pairing discipline, stays within
/// `max_stack`, and the program counter stays within the code.
pub open spec fn state_ok(state: CallStackFrameState, max_stack: int, code_len: int) -> bool {
    &&& stack_wf(state.stack@)
    &&& state.stack@.len() <= max_stack
    &&& state.instruction_offset <= code_len
}

/// Pushing a non-sentinel value (with its sentinel when category-2) keeps
/// the stack well formed.
pub proof fn lemma_stack_wf_push(s: Seq<JavaValue>, v: JavaValue)
    requires
        stack_wf(s),
        !v.is_upper_half(),
    ensures
        stack_wf(spec_push(s, v)),
{
    let t = spec_push(s, v);
    if v.is_category_2() {
        assert forall|i: int|
            0 <= i < t.len() && #[trigger] t[i].is_category_2() implies i + 1 < t.len() && t[i
            + 1].is_upper_half() by {
            if i < s.len() {
                assert(s[i].is_category_2());
            }
        }
        assert forall|i: int|
            0 <= i < t.len() && #[trigger] t[i].is_upper_half() implies i >= 1 && t[i
            - 1].is_category_2() by {
            if i < s.len() {
                assert(s[i].is_upper_half());
            }
        }
    } else {
        assert forall|i: int|
            0 <= i < t.len() && #[trigger] t[i].is_category_2() implies i + 1 < t.len() && t[i
            + 1].is_upper_half() by {
            if i < s.len() {
                assert(s[i].is_category_2());
                assert(i + 1 < s.len());
            }
        }
        assert forall|i: int|
            0 <= i < t.len() && #[trigger] t[i].is_upper_half() implies i >= 1 && t[i
            - 1].is_category_2() by {
            if i < s.len() {
                assert(s[i].is_upper_half());
            }
        }
    }
}

/// Popping the top category-1 cell keeps the stack well formed, and under
/// the pairing discipline that cell is never half of a category-2 value.
pub proof fn lemma_stack_wf_pop(s: Seq<JavaValue>)
    requires
        stack_wf(s),
        s.len() > 0,
        !s.last().is_upper_half(),
    ensures
        !s.last().is_category_2(),
        stack_wf(s.drop_last()),
{
    assert forall|i: int|
        0 <= i < s.drop_last().len() && #[trigger] s.drop_last()[i].is_category_2() implies i + 1
        < s.drop_last().len() && s.drop_last()[i + 1].is_upper_half() by {
        assert(s[i].is_category_2());
        assert(s[i + 1].is_upper_half());
        assert(i + 1 < s.len() - 1 || s.last().is_upper_half());
    }
    assert forall|i: int|
        0 <= i < s.drop_last().len() && #[trigger] s.drop_last()[i].is_upper_half() implies i >= 1
        && s.drop_last()[i - 1].is_category_2() by {
        assert(s[i].is_upper_half());
    }
}

/// Popping a full category-2 value (sentinel plus value) keeps the stack
/// well formed.
pub proof fn lemma_stack_wf_pop_wide(s: Seq<JavaValue>)
    requires
        stack_wf(s),
        s.len() >= 2,
        s.last().is_upper_half(),
    ensures
        s[s.len() - 2].is_category_2(),
        stack_wf(s.take(s.len() - 2)),
{
    let t = s.take(s.len() - 2);
    assert forall|i: int|
        0 <= i < t.len() && #[trigger] t[i].is_category_2() implies i + 1 < t.len() && t[i
        + 1].is_upper_half() by {
        assert(s[i].is_category_2());
        assert(s[i + 1].is_upper_half());
        if i + 1 == s.len() - 2 {
            assert(s[i + 2].is_category_2());
        }
    }
    assert forall|i: int|
        0 <= i < t.len() && #[trigger] t[i].is_upper_half() implies i >= 1 && t[i
        - 1].is_category_2() by {
        assert(s[i].is_upper_half());
    }
}

/// Reads the unsigned byte at the program counter and advances past it.
pub fn take_u8(code: &Vec<u8>, state: &mut CallStackFrameState) -> (r: Result<u8, ()>)
    ensures
        r matches Ok(v) ==> old(state).instruction_offset < code@.len() && v == code@[old(state).instruction_offset as int] && *final(state) == (CallStackFrameState {
            instruction_offset: (old(state).instruction_offset + 1) as usize,
            ..*old(state)
        }),
        r is Err ==> *final(state) == *old(state) && old(state).instruction_offset + 1
            > code@.len(),
{
    if state.instruction_offset < code.len() {
        let v = code[state.instruction_offset];
        state.instruction_offset = state.instruction_offset + 1;
        Ok(v)
    } else {
        Err(())
    }
}

/// Reads the big-endian 16-bit immediate at the program counter.
pub fn take_u16(code: &Vec<u8>, state: &mut CallStackFrameState) -> (r: Result<u16, ()>)
    ensures
        r matches Ok(v) ==> old(state).instruction_offset + 2 <= code@.len() && v
            == crate::parser::be_u16(code@, old(state).instruction_offset as int) && *final(state)
            == (CallStackFrameState {
            instruction_offset: (old(state).instruction_offset + 2) as usize,
            ..*old(state)
        }),
        r is Err ==> *final(state) == *old(state) && old(state).instruction_offset + 2
            > code@.len(),
{
    if state.instruction_offset < code.len() && state.instruction_offset + 1 < code.len() {
        let v: u16 = (code[state.instruction_offset] as u16) * 0x100 + (code[state.instruction_offset
            + 1] as u16);
        state.instruction_offset = state.instruction_offset + 2;
        Ok(v)
    } else {
        Err(())
    }
}

/// Reads the big-endian 32-bit immediate at the program counter.
pub fn take_u32(code: &Vec<u8>, state: &mut CallStackFrameState) -> (r: Result<u32, ()>)
    ensures
        r matches Ok(v) ==> old(state).instruction_offset + 4 <= code@.len() && v
            == crate::parser::be_u32(code@, old(state).instruction_offset as int) && *final(state)
            == (CallStackFrameState {
            instruction_offset: (old(state).instruction_offset + 4) as usize,
            ..*old(state)
        }),
        r is Err ==> *final(state) == *old(state) && old(state).instruction_offset + 4
            > code@.len(),
{
    if code.len() >= 4 && state.instruction_offset <= code.len() - 4 {
        let o = state.instruction_offset;
        let v: u32 = (code[o] as u32) * 0x100_0000 + (code[o + 1] as u32) * 0x1_0000 + (code[o + 2]
            as u32) * 0x100 + (code[o + 3] as u32);
        state.instruction_offset = o + 4;
        Ok(v)
    } else {
        Err(())
    }
}

/// Pushes a value onto the operand stack (a category-2 value gets its
/// sentinel), failing on overflow of `max_stack` or on an attempt to push a
/// bare sentinel.
pub fn push_value(state: &mut CallStackFrameState, v: JavaValue, max_stack: usize) -> (r: Result<
    (),
    (),
>)
    requires
        stack_wf(old(state).stack@),
    ensures
        r matches Ok(()) ==> final(state).stack@ == spec_push(old(state).stack@, v) && stack_wf(
            final(state).stack@,
        ) && final(state).stack@.len() <= max_stack && *final(state) == (CallStackFrameState {
            stack: final(state).stack,
            ..*old(state)
        }),
        r is Err ==> *final(state) == *old(state) && (v.is_upper_half() || old(state).stack@.len()
            + (if v.is_category_2() {
            2int
        } else {
            1int
        }) > max_stack),
{
    if v.is_upper_half_exec() {
        return Err(());
    }
    let needed: usize = if v.is_category_2_exec() {
        2
    } else {
        1
    };
    let len = state.stack.len();
    if len >= max_stack || max_stack - len < needed {
        return Err(());
    }
    proof {
        lemma_stack_wf_push(state.stack@, v);
    }
    state.stack.push(v);
    Ok(())
}

/// Pops the top category-1 cell; fails on an empty stack or when the top is
/// an upper-half sentinel (category-2 values must be popped whole).
pub fn pop_cat1(state: &mut CallStackFrameState) -> (r: Result<JavaValue, ()>)
    requires
        stack_wf(old(state).stack@),
    ensures
        r matches Ok(v) ==> old(state).stack@.len() > 0 && v == old(state).stack@.last()
            && !v.is_upper_half() && !v.is_category_2() && final(state).stack@ == old(state).stack@.drop_last() && stack_wf(final(state).stack@) && *final(state)
            == (CallStackFrameState { stack: final(state).stack, ..*old(state) }),
        r is Err ==> *final(state) == *old(state) && (old(state).stack@.len() == 0 || old(state).stack@.last().is_upper_half()),
{
    match state.stack.last() {
        Some(v) => {
            if v.is_upper_half_exec() {
                return Err(());
            }
        },
        None => {
            return Err(());
        },
    }
    proof {
        lemma_stack_wf_pop(state.stack@);
    }
    match state.stack.pop() {
        Some(v) => Ok(v),
        None => Err(()),
    }
}

/// Pops a full category-2 value: the upper-half sentinel and the value below
/// it. Fails unless the top is a sentinel.
pub fn pop_cat2(state: &mut CallStackFrameState) -> (r: Result<JavaValue, ()>)
    requires
        stack_wf(old(state).stack@),
    ensures
        r matches Ok(v) ==> old(state).stack@.len() >= 2 && v == old(state).stack@[old(state).stack@.len() - 2] && v.is_category_2() && final(state).stack@ == old(state).stack@.take(
            old(state).stack@.len() - 2,
        ) && stack_wf(final(state).stack@) && *final(state) == (CallStackFrameState {
            stack: final(state).stack,
            ..*old(state)
        }),
        r is Err ==> *final(state) == *old(state) && (old(state).stack@.len() == 0 || !old(state).stack@.last().is_upper_half()),
{
    let is_upper = match state.stack.last() {
        Some(v) => v.is_upper_half_exec(),
        None => false,
    };
    if !is_upper {
        return Err(());
    }
    proof {
        lemma_stack_wf_pop_wide(state.stack@);
    }
    match state.stack.pop_full() {
        Some(v) => Ok(v),
        None => Err(()),
    }
}

/// Pops one full value of either category: a category-2 value is popped with
/// its sentinel, a category-1 value alone.
pub fn pop_any(state: &mut CallStackFrameState) -> (r: Result<JavaValue, ()>)
    requires
        stack_wf(old(state).stack@),
    ensures
        r matches Ok(v) ==> (final(state).stack@, Some(v)) == spec_pop_full(old(state).stack@)
            && !v.is_upper_half() && stack_wf(final(state).stack@) && *final(state)
            == (CallStackFrameState { stack: final(state).stack, ..*old(state) }),
        r is Err ==> *final(state) == *old(state) && spec_pop_full(old(state).stack@).1 is None,
{
    let is_upper = match state.stack.last() {
        Some(v) => v.is_upper_half_exec(),
        None => {
            return Err(());
        },
    };
    if is_upper {
        pop_cat2(state)
    } else {
        pop_cat1(state)
    }
}

/// Reads local-variable slot `index`.
pub fn lvt_get(state: &CallStackFrameState, index: usize) -> (r: Result<JavaValue, ()>)
    ensures
        r matches Ok(v) ==> index < state.lvt@.len() && v == state.lvt@[index as int],
        r is Err ==> index >= state.lvt@.len(),
{
    if index < state.lvt.len() {
        Ok(*state.lvt.get(index))
    } else {
        Err(())
    }
}

/// Writes a category-1 value to local-variable slot `index`.
pub fn lvt_set(state: &mut CallStackFrameState, index: usize, v: JavaValue) -> (r: Result<(), ()>)
    ensures
        r matches Ok(()) ==> index < old(state).lvt@.len() && final(state).lvt@ == old(state).lvt@.update(index as int, v) && *final(state) == (CallStackFrameState {
            lvt: final(state).lvt,
            ..*old(state)
        }),
        r is Err ==> *final(state) == *old(state),
{
    if index < state.lvt.len() {
        state.lvt.set(index, v);
        Ok(())
    } else {
        Err(())
    }
}

/// Writes a category-2 value to local-variable slots `index` (the value) and
/// `index + 1` (its upper-half sentinel).
pub fn lvt_set_wide(state: &mut CallStackFrameState, index: usize, v: JavaValue) -> (r: Result<
    (),
    (),
>)
    ensures
        r matches Ok(()) ==> index + 1 < old(state).lvt@.len() && final(state).lvt@ == old(state).lvt@.update(index as int, v).update(index + 1, JavaValue::spec_upper_half()) && *final(state) == (CallStackFrameState { lvt: final(state).lvt, ..*old(state) }),
        r is Err ==> *final(state) == *old(state),
{
    if index < usize::MAX && index + 1 < state.lvt.len() {
        state.lvt.set(index, v);
        state.lvt.set(index + 1, JavaValue::upper_half());
        Ok(())
    } else {
        Err(())
    }
}

/// Redirects the program counter to `instruction_addr + offset`; fails when
/// the target lies outside the method's code.
pub fn branch_to(
    state: &mut CallStackFrameState,
    instruction_addr: usize,
    offset: i32,
    code_len: usize,
) -> (r: Result<(), ()>)
    requires
        instruction_addr <= code_len,
    ensures
        r matches Ok(()) ==> instruction_addr + offset == final(state).instruction_offset && final(state).instruction_offset <= code_len && *final(state) == (CallStackFrameState {
            instruction_offset: final(state).instruction_offset,
            ..*old(state)
        }),
        r is Err ==> *final(state) == *old(state) && (instruction_addr + offset < 0
            || instruction_addr + offset > code_len),
{
    if offset >= 0 {
        let off = offset as usize;
        if instruction_addr <= code_len && code_len - instruction_addr >= off {
            state.instruction_offset = instruction_addr + off;
            Ok(())
        } else {
            Err(())
        }
    } else {
        proof {
            assert(0 < -(offset as int) <= 0x8000_0000);
        }
        let mag = (-(offset as i64)) as usize;
        proof {
            assert(mag == -(offset as int));
        }
        if instruction_addr >= mag {
            state.instruction_offset = instruction_addr - mag;
            Ok(())
        } else {
            Err(())
        }
    }
}

impl JavaValue {
    /// Executable category test.
    pub fn is_category_2_exec(&self) -> (r: bool)
        ensures
            r == self.is_category_2(),
    {
        matches!(self, JavaValue::Long(_) | JavaValue::Double(_))
    }

    /// Executable upper-half-sentinel test.
    pub fn is_upper_half_exec(&self) -> (r: bool)
        ensures
            r == self.is_upper_half(),
    {
        match self {
            JavaValue::Internal { is_higher_bits, .. } => *is_higher_bits,
            _ => false,
        }
    }
}

/// A deep copy of a frame state (values are plain data).
pub fn duplicate_state(state: &CallStackFrameState) -> (r: CallStackFrameState)
    ensures
        r.line_number == state.line_number,
        r.instruction_offset == state.instruction_offset,
        r.stack@ == state.stack@,
        r.lvt@ == state.lvt@,
        r.return_stack_value == state.return_stack_value,
{
    CallStackFrameState {
        line_number: state.line_number,
        instruction_offset: state.instruction_offset,
        stack: duplicate_values(&state.stack),
        lvt: duplicate_values(&state.lvt),
        return_stack_value: state.return_stack_value,
    }
}

fn duplicate_values(v: &JavaValueVec) -> (r: JavaValueVec)
    ensures
        r@ == v@,
{
    let n = v.len();
    let mut out = JavaValueVec::with_capacity(n);
    let mut i: usize = 0;
    while i < n
        invariant
            i <= n,
            n == v@.len(),
            out@ == v@.take(i as int),
        decreases n - i,
    {
        out.push_exact(*v.get(i));
        proof {
            assert(v@.take(i + 1) =~= v@.take(i as int).push(v@[i as int]));
        }
        i = i + 1;
    }
    proof {
        assert(v@.take(n as int) =~= v@);
    }
    out
}

} // verus!
