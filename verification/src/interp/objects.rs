//! Handlers that touch the heap and the constant pool: constants and `ldc`,
//! array creation and access, instance and static fields, object creation,
//! `athrow`, `checkcast`, `instanceof`, and the null-test branches.

use vstd::prelude::*;

use crate::classfile::ConstantInfo;
use crate::frame::{CallStackFrameState, RuntimeResult};
use crate::heap::JavaArrayType;
use crate::jvm::{classes_extend, Jvm};
use crate::value::JavaValue;
use super::frameops::{branch_to, pop_any, pop_cat1, push_value, state_ok, take_u16, take_u8};
use super::{dispatch_post, Action};

verus! {

/// One resolved `ldc` operand.
enum LdcConstant {
    IntConst(i32),
    FloatConst(u32),
    LongConst(i64),
    DoubleConst(u64),
    StringConst(String),
    ClassConst(String),
}

/// Reads the `ldc`-relevant view of pool entry `index` of frame `t`'s
/// class.
fn read_ldc_constant(jvm: &Jvm, t: usize, index: u16) -> (r: Result<LdcConstant, ()>)
    requires
        t < jvm.call_stack_frames@.len(),
{
    let cf = match jvm.classpath.get_classpath_entry(
        jvm.call_stack_frames[t].container_class.as_str(),
    ) {
        Some(cf) => cf,
        None => {
            return Err(());
        },
    };
    if index < 1 || index as usize > cf.const_pool.len() {
        return Err(());
    }
    match &cf.const_pool[index as usize - 1] {
        ConstantInfo::Integer(v) => Ok(LdcConstant::IntConst(*v)),
        ConstantInfo::Float(v) => Ok(LdcConstant::FloatConst(*v)),
        ConstantInfo::Long(v) => Ok(LdcConstant::LongConst(*v)),
        ConstantInfo::Double(v) => Ok(LdcConstant::DoubleConst(*v)),
        ConstantInfo::StringRef { string_index } => {
            match crate::util::try_get_constant_string(&cf.const_pool, *string_index) {
                Some(s) => Ok(LdcConstant::StringConst(s.clone())),
                None => Err(()),
            }
        },
        ConstantInfo::ClassRef { name_index } => {
            match crate::util::try_get_constant_string(&cf.const_pool, *name_index) {
                Some(s) => Ok(LdcConstant::ClassConst(s.clone())),
                None => Err(()),
            }
        },
        _ => Err(()),
    }
}

/// The value a one-byte constant opcode pushes: null, the small ints and
/// longs, and the IEEE-754 bit patterns of the float and double literals.
pub open spec fn spec_const_value(opcode: u8) -> JavaValue {
    if opcode == 0x01 {
        JavaValue::Object(None)
    } else if 0x02 <= opcode <= 0x08 {
        JavaValue::Int((opcode - 3) as i32)
    } else if opcode == 0x09 || opcode == 0x0a {
        JavaValue::Long((opcode - 9) as i64)
    } else if opcode == 0x0b {
        JavaValue::Float(0)
    } else if opcode == 0x0c {
        JavaValue::Float(0x3f80_0000)
    } else if opcode == 0x0d {
        JavaValue::Float(0x4000_0000)
    } else if opcode == 0x0e {
        JavaValue::Double(0)
    } else {
        JavaValue::Double(0x3ff0_0000_0000_0000)
    }
}

/// The constants block, opcodes 0x01 through 0x14: typed literal pushes,
/// `bipush`, `sipush`, and the `ldc` family. `ldc` of a string constant
/// materializes an interned `java.lang.String`; `ldc` of a class constant
/// materializes the class's mirror object.
pub fn exec_const(
    jvm: &mut Jvm,
    state: &mut CallStackFrameState,
    t: usize,
    opcode: u8,
    max_stack: usize,
) -> (r: RuntimeResult<Action>)
    requires
        old(jvm).wf(),
        t < old(jvm).call_stack_frames@.len(),
        state_ok(*old(state), max_stack as int, old(jvm).call_stack_frames@[t as int].instructions@.len() as int),
        0x01 <= opcode <= 0x14,
    ensures
        dispatch_post(
            *old(jvm),
            *final(jvm),
            *final(state),
            r,
            max_stack as int,
            old(jvm).call_stack_frames@[t as int].instructions@.len() as int,
        ),
        // the typed literal pushes put exactly their coded constant on top
        r matches Ok(a) ==> ((0x01 <= opcode <= 0x0f) ==> final(state).stack@
            == crate::value::spec_push(old(state).stack@, spec_const_value(opcode)) && *final(jvm)
            == *old(jvm)),
        // bipush pushes the sign-extended operand byte; sipush the
        // sign-extended operand pair
        r matches Ok(a) ==> ((opcode == 0x10 && old(state).instruction_offset < old(jvm).call_stack_frames@[t as int].instructions@.len()) ==> final(state).stack@
            == crate::value::spec_push(
            old(state).stack@,
            JavaValue::Int(
                old(jvm).call_stack_frames@[t as int].instructions@[old(state).instruction_offset as int] as i8 as i32,
            ),
        )),
        r matches Ok(a) ==> (opcode == 0x11 ==> final(state).stack@ == crate::value::spec_push(
            old(state).stack@,
            JavaValue::Int(
                crate::parser::be_u16(
                    old(jvm).call_stack_frames@[t as int].instructions@,
                    old(state).instruction_offset as int,
                ) as i16 as i32,
            ),
        )),
{
    let v: JavaValue = if opcode == 0x01 {
        JavaValue::Object(None)
    } else if opcode >= 0x02 && opcode <= 0x08 {
        // iconst_m1 .. iconst_5
        JavaValue::Int(opcode as i32 - 3)
    } else if opcode == 0x09 || opcode == 0x0a {
        JavaValue::Long(opcode as i64 - 9)
    } else if opcode == 0x0b {
        JavaValue::Float(0)
    } else if opcode == 0x0c {
        // 1.0f
        JavaValue::Float(0x3f80_0000)
    } else if opcode == 0x0d {
        // 2.0f
        JavaValue::Float(0x4000_0000)
    } else if opcode == 0x0e {
        JavaValue::Double(0)
    } else if opcode == 0x0f {
        // 1.0d
        JavaValue::Double(0x3ff0_0000_0000_0000)
    } else if opcode == 0x10 {
        // bipush
        let b = match take_u8(&jvm.call_stack_frames[t].instructions, state) {
            Ok(v) => v,
            Err(()) => {
                return Err(jvm.throw_exception("java/lang/Error", Some("truncated instruction")));
            },
        };
        JavaValue::Int(b as i8 as i32)
    } else if opcode == 0x11 {
        // sipush
        let s = match take_u16(&jvm.call_stack_frames[t].instructions, state) {
            Ok(v) => v,
            Err(()) => {
                return Err(jvm.throw_exception("java/lang/Error", Some("truncated instruction")));
            },
        };
        JavaValue::Int(s as i16 as i32)
    } else {
        // ldc / ldc_w / ldc2_w
        let index: u16 = if opcode == 0x12 {
            match take_u8(&jvm.call_stack_frames[t].instructions, state) {
                Ok(v) => v as u16,
                Err(()) => {
                    return Err(jvm.throw_exception("java/lang/Error", Some("truncated instruction")));
                },
            }
        } else {
            match take_u16(&jvm.call_stack_frames[t].instructions, state) {
                Ok(v) => v,
                Err(()) => {
                    return Err(jvm.throw_exception("java/lang/Error", Some("truncated instruction")));
                },
            }
        };
        let c = match read_ldc_constant(jvm, t, index) {
            Ok(c) => c,
            Err(()) => {
                return Err(jvm.throw_exception("java/lang/Error", Some("unusable constant pool entry")));
            },
        };
        match c {
            LdcConstant::IntConst(v) => JavaValue::Int(v),
            LdcConstant::FloatConst(v) => JavaValue::Float(v),
            LdcConstant::LongConst(v) => JavaValue::Long(v),
            LdcConstant::DoubleConst(v) => JavaValue::Double(v),
            LdcConstant::StringConst(s) => {
                let id = jvm.create_string_object(s.as_str(), true)?;
                JavaValue::Object(Some(id))
            },
            LdcConstant::ClassConst(name) => {
                let depth = jvm.call_stack_frames.len();
                let class_id = jvm.ensure_class_loaded(name.as_str(), true)?;
                if jvm.call_stack_frames.len() != depth {
                    return Ok(Action::ReExecute);
                }
                proof {
                    super::lemma_frames_same(
                        old(jvm).call_stack_frames@,
                        jvm.call_stack_frames@,
                    );
                }
                JavaValue::Object(Some(jvm.heap.loaded_classes[class_id].class_object_id))
            },
        }
    };
    match push_value(state, v, max_stack) {
        Ok(()) => Ok(Action::Continue),
        Err(()) => Err(jvm.throw_exception("java/lang/Error", Some("operand stack overflow"))),
    }
}

/// The array-load family (`iaload` through `saload`): pops index and array
/// reference and pushes the element; a null reference raises
/// `NullPointerException` and a bad index raises
/// `ArrayIndexOutOfBoundsException` carrying the index.
pub fn exec_array_load(jvm: &mut Jvm, state: &mut CallStackFrameState, max_stack: usize) -> (r:
    RuntimeResult<Action>)
    requires
        old(jvm).wf(),
        crate::value::stack_wf(old(state).stack@),
        old(state).stack@.len() <= max_stack,
    ensures
        final(jvm).wf(),
        classes_extend(old(jvm).heap.loaded_classes@, final(jvm).heap.loaded_classes@),
        final(jvm).classpath == old(jvm).classpath,
        r matches Ok(a) ==> a is Continue && final(jvm).call_stack_frames@ == old(jvm).call_stack_frames@ && crate::value::stack_wf(final(state).stack@) && final(state).stack@.len() <= max_stack && final(state).instruction_offset == old(state).instruction_offset,
        // On success the index and array reference are replaced by the
        // in-range element.
        r matches Ok(a) ==> ({
            let s = old(state).stack@;
            (s.last().spec_as_int() matches Ok(idx) ==> (s.drop_last().last() matches
                JavaValue::Array(aid) ==> (old(jvm).heap.entries@[aid as int] matches
                crate::heap::HeapEntry::ArrayEntry(arr) && 0 <= idx < arr.values@.len() && final(state).stack@ == crate::value::spec_push(
                s.drop_last().drop_last(),
                arr.values@[idx as int],
            ) && *final(jvm) == *old(jvm))))
        }),
        r matches Err(t) ==> crate::jvm::exception_delivered(*final(jvm), t),
        // a failed load leaves every existing heap entry in place
        r is Err ==> crate::jvm::entries_prefix(old(jvm).heap.entries@, final(jvm).heap.entries@),
        // an out-of-range index over a live array raises
        // ArrayIndexOutOfBoundsException
        ({
            let s = old(state).stack@;
            s.len() >= 2 && (s.last().spec_as_int() matches Ok(idx) && (s.drop_last().last()
                matches JavaValue::Array(aid) && aid < old(jvm).heap.entries@.len() && (old(
                jvm,
            ).heap.entries@[aid as int] matches crate::heap::HeapEntry::ArrayEntry(b) && (idx < 0
                || idx >= b.values@.len()))))
        }) ==> (r is Err && (r matches Err(t) ==> (crate::jvm::thrown_is_instance_of(
            *final(jvm),
            t,
            crate::jvm::canonical_class_name("java/lang/ArrayIndexOutOfBoundsException"@),
        ) || t == crate::frame::JavaThrowable::Unhandled(0usize)))),
{
    let index = super::pop_int(jvm, state)?;
    let array_id: usize = match pop_cat1(state) {
        Ok(JavaValue::Array(id)) => id,
        Ok(JavaValue::Object(None)) => {
            return Err(jvm.throw_npe());
        },
        Ok(_) => {
            return Err(jvm.throw_exception("java/lang/Error", Some("array reference expected")));
        },
        Err(()) => {
            return Err(jvm.throw_exception("java/lang/Error", Some("stack underflow")));
        },
    };
    let v: JavaValue = {
        let arr = match jvm.heap.get_array(array_id) {
            Some(a) => a,
            None => {
                return Err(jvm.throw_exception("java/lang/Error", Some("invalid array reference")));
            },
        };
        if index < 0 || index as usize >= arr.values.len() {
            let msg = crate::strutil::i32_to_string(index);
            return Err(
                jvm.throw_exception("java/lang/ArrayIndexOutOfBoundsException", Some(msg.as_str())),
            );
        }
        arr.values[index as usize]
    };
    match push_value(state, v, max_stack) {
        Ok(()) => Ok(Action::Continue),
        Err(()) => Err(jvm.throw_exception("java/lang/Error", Some("operand stack overflow"))),
    }
}

/// The array-store family (`iastore` through `sastore`): pops value, index
/// and array reference and overwrites the element; null and range failures
/// raise as in the load family.
pub fn exec_array_store(jvm: &mut Jvm, state: &mut CallStackFrameState, max_stack: usize) -> (r:
    RuntimeResult<Action>)
    requires
        old(jvm).wf(),
        crate::value::stack_wf(old(state).stack@),
        old(state).stack@.len() <= max_stack,
    ensures
        final(jvm).wf(),
        classes_extend(old(jvm).heap.loaded_classes@, final(jvm).heap.loaded_classes@),
        final(jvm).classpath == old(jvm).classpath,
        r matches Ok(a) ==> a is Continue && final(jvm).call_stack_frames@ == old(jvm).call_stack_frames@ && crate::value::stack_wf(final(state).stack@) && final(state).stack@.len() <= max_stack && final(state).instruction_offset == old(state).instruction_offset,
        // On success the popped value landed in the in-range cell the popped
        // index names, in the popped array.
        r matches Ok(a) ==> ({
            let s = old(state).stack@;
            (crate::value::spec_pop_full(s).1 matches Some(value) ==> ({
                let s1 = crate::value::spec_pop_full(s).0;
                (s1.last().spec_as_int() matches Ok(idx) ==> (s1.drop_last().last() matches
                    JavaValue::Array(aid) ==> (0 <= idx && (final(jvm).heap.entries@[aid as int]
                    matches crate::heap::HeapEntry::ArrayEntry(na) && (old(jvm).heap.entries@[
                    aid as int] matches crate::heap::HeapEntry::ArrayEntry(oa) && idx
                    < oa.values@.len() && na.values@ == oa.values@.update(idx as int, value)))
                    && final(state).stack@ == s1.drop_last().drop_last())))
            }))
        }),
        r matches Err(t) ==> crate::jvm::exception_delivered(*final(jvm), t),
        // a failed store leaves every existing heap entry in place; in
        // particular the target array is unchanged
        r is Err ==> crate::jvm::entries_prefix(old(jvm).heap.entries@, final(jvm).heap.entries@),
        // an out-of-range index over a live array raises
        // ArrayIndexOutOfBoundsException
        ({
            let s = old(state).stack@;
            crate::value::spec_pop_full(s).1 matches Some(value) && ({
                let s1 = crate::value::spec_pop_full(s).0;
                s1.len() >= 2 && (s1.last().spec_as_int() matches Ok(idx) && (s1.drop_last().last()
                    matches JavaValue::Array(aid) && aid < old(jvm).heap.entries@.len() && (old(
                    jvm,
                ).heap.entries@[aid as int] matches crate::heap::HeapEntry::ArrayEntry(b) && (idx
                    < 0 || idx >= b.values@.len()))))
            })
        }) ==> (r is Err && (r matches Err(t) ==> (crate::jvm::thrown_is_instance_of(
            *final(jvm),
            t,
            crate::jvm::canonical_class_name("java/lang/ArrayIndexOutOfBoundsException"@),
        ) || t == crate::frame::JavaThrowable::Unhandled(0usize)))),
{
    let value = match pop_any(state) {
        Ok(v) => v,
        Err(()) => {
            return Err(jvm.throw_exception("java/lang/Error", Some("stack underflow")));
        },
    };
    let index = super::pop_int(jvm, state)?;
    let array_id: usize = match pop_cat1(state) {
        Ok(JavaValue::Array(id)) => id,
        Ok(JavaValue::Object(None)) => {
            return Err(jvm.throw_npe());
        },
        Ok(_) => {
            return Err(jvm.throw_exception("java/lang/Error", Some("array reference expected")));
        },
        Err(()) => {
            return Err(jvm.throw_exception("java/lang/Error", Some("stack underflow")));
        },
    };
    match jvm.set_array_element_checked(array_id, index, value) {
        Ok(()) => Ok(Action::Continue),
        Err(e) => Err(e),
    }
}

/// Object, field and type-test handlers (0xb2 through 0xc1, and the
/// null-test branches 0xc6/0xc7).
pub fn exec_object_op(
    jvm: &mut Jvm,
    state: &mut CallStackFrameState,
    t: usize,
    instruction_addr: usize,
    opcode: u8,
    max_stack: usize,
) -> (r: RuntimeResult<Action>)
    requires
        old(jvm).wf(),
        t < old(jvm).call_stack_frames@.len(),
        state_ok(*old(state), max_stack as int, old(jvm).call_stack_frames@[t as int].instructions@.len() as int),
        instruction_addr < old(jvm).call_stack_frames@[t as int].instructions@.len(),
        old(state).instruction_offset == instruction_addr + 1,
    ensures
        dispatch_post(
            *old(jvm),
            *final(jvm),
            *final(state),
            r,
            max_stack as int,
            old(jvm).call_stack_frames@[t as int].instructions@.len() as int,
        ),
        // ifnull / ifnonnull pop one reference and branch by the signed
        // 16-bit offset exactly when the null test (or its negation) holds
        r matches Ok(a) ==> ((opcode == 0xc6 || opcode == 0xc7) ==> ({
            let s = old(state).stack@;
            let code = old(jvm).call_stack_frames@[t as int].instructions@;
            let offset = crate::parser::be_u16(code, instruction_addr + 1) as i16 as int;
            s.len() >= 1 ==> ((s.last() is Object || s.last() is Array) ==> {
                let isnull = s.last() == JavaValue::Object(Option::<usize>::None);
                &&& final(state).stack@ == s.drop_last()
                &&& final(state).instruction_offset as int == (if (isnull == (opcode == 0xc6)) {
                    instruction_addr + offset
                } else {
                    instruction_addr + 3
                })
            })
        })),
        // instanceof on a non-null object pushes its assignability to the
        // named type; checkcast leaves the stack alone and succeeds only
        // when the value conforms (null always passes).
        r matches Ok(a) ==> ((opcode == 0xc0 || opcode == 0xc1) ==> type_test_post(
            *old(jvm),
            *old(state),
            *final(state),
            t,
            opcode,
        )),
        // athrow never falls through: it delivers the popped reference (the
        // very object a handler then receives), or NullPointerException for
        // a null one
        opcode == 0xbf ==> r is Err,
        r matches Err(tt) ==> ((opcode == 0xbf && old(state).stack@.len() >= 1) ==> (old(state).stack@.last() matches JavaValue::Object(oid) ==> (oid matches Some(rid) ==> ((rid < old(
            jvm,
        ).heap.entries@.len() && (old(jvm).heap.entries@[rid as int] matches
            crate::heap::HeapEntry::ObjectEntry(o) && o.class_id < old(jvm).heap.loaded_classes@.len())) ==> (tt matches crate::frame::JavaThrowable::Handled(hid) ==> hid == rid))))),
        (opcode == 0xbf && old(state).stack@.len() >= 1 && old(state).stack@.last()
            == JavaValue::Object(Option::<usize>::None)) ==> (r matches Err(tt) ==> (
        crate::jvm::thrown_is_instance_of(
            *final(jvm),
            tt,
            crate::jvm::canonical_class_name("java/lang/NullPointerException"@),
        ) || tt == crate::frame::JavaThrowable::Unhandled(0usize))),
        // a checkcast over a non-conforming non-null value fails, raising
        // ClassCastException
        (opcode == 0xc0 && checkcast_must_fail(*old(jvm), *old(state), t)) ==> (r is Err && (
        r matches Err(tt) ==> (crate::jvm::thrown_is_instance_of(
            *final(jvm),
            tt,
            crate::jvm::canonical_class_name("java/lang/ClassCastException"@),
        ) || tt == crate::frame::JavaThrowable::Unhandled(0usize)))),
        // arraylength replaces a live array reference by its element count
        r matches Ok(a) ==> (opcode == 0xbe ==> (old(state).stack@.len() >= 1 ==> (old(state).stack@.last() matches JavaValue::Array(aid) ==> (old(jvm).heap.entries@[aid as int] matches
            crate::heap::HeapEntry::ArrayEntry(arr) ==> final(state).stack@ == old(state).stack@.drop_last().push(JavaValue::Int(arr.values@.len() as i32)))))),
        // arraylength on a null reference raises NullPointerException
        (opcode == 0xbe && old(state).stack@.len() >= 1 && old(state).stack@.last()
            == JavaValue::Object(None)) ==> (r is Err && (r matches Err(tt) ==> (
        crate::jvm::thrown_is_instance_of(
            *final(jvm),
            tt,
            crate::jvm::canonical_class_name("java/lang/NullPointerException"@),
        ) || tt == crate::frame::JavaThrowable::Unhandled(0usize)))),
        // newarray allocates a fresh array of the coded primitive element
        // type, with the popped non-negative length and type-default cells
        r matches Ok(a) ==> ((opcode == 0xbc && old(state).instruction_offset < old(jvm).call_stack_frames@[t as int].instructions@.len()) ==> ({
            let kind = old(jvm).call_stack_frames@[t as int].instructions@[old(state).instruction_offset as int];
            let aid = old(jvm).heap.entries@.len();
            (4 <= kind <= 11 && old(state).stack@.len() >= 1) ==> (old(state).stack@.last().spec_as_int() matches Ok(n) ==> (n >= 0 ==> {
                &&& final(state).stack@ == old(state).stack@.drop_last().push(
                    JavaValue::Array(aid as usize),
                )
                &&& final(jvm).heap.entries@.len() == aid + 1
                &&& (final(jvm).heap.entries@[aid as int] matches
                    crate::heap::HeapEntry::ArrayEntry(arr) && arr.array_type
                    == spec_newarray_type(kind) && arr.values@.len() == n && (forall|i: int|
                    0 <= i < n ==> arr.values@[i] == spec_newarray_type(kind).spec_default_cell()))
            }))
        })),
        // anewarray pushes a fresh array of the popped non-negative length
        // whose element class carries the resolved target name
        r matches Ok(a) ==> ((opcode == 0xbd && a is Continue) ==> (old(state).stack@.len() >= 1
            ==> (old(state).stack@.last().spec_as_int() matches Ok(n) ==> (n >= 0 ==> (final(state).stack@.last() matches JavaValue::Array(aid) ==> (final(jvm).heap.entries@[
            aid as int] matches crate::heap::HeapEntry::ArrayEntry(arr) && arr.values@.len() == n
            && final(state).stack@ == old(state).stack@.drop_last().push(
            JavaValue::Array(aid),
        ) && (arr.array_type matches crate::heap::JavaArrayType::Object(tid) && tid
            < final(jvm).heap.loaded_classes@.len()))))))),
{
    let code_len = jvm.call_stack_frames[t].instructions.len();
    if opcode >= 0xb6 && opcode <= 0xb9 {
        return super::invoke::exec_invoke(jvm, state, t, opcode, max_stack);
    }
    if opcode == 0xb2 || opcode == 0xb3 {
        return exec_static_field(jvm, state, t, opcode, max_stack);
    }
    if opcode == 0xb4 || opcode == 0xb5 {
        return exec_instance_field(jvm, state, t, opcode, max_stack);
    }
    if opcode == 0xbb {
        // new: allocate an instance with type-default fields
        let index = match take_u16(&jvm.call_stack_frames[t].instructions, state) {
            Ok(v) => v,
            Err(()) => {
                return Err(jvm.throw_exception("java/lang/Error", Some("truncated instruction")));
            },
        };
        let type_str = match read_pool_class_name(jvm, t, index) {
            Ok(s) => s,
            Err(()) => {
                return Err(jvm.throw_exception("java/lang/Error", Some("unusable constant pool entry")));
            },
        };
        let depth = jvm.call_stack_frames.len();
        let class_id = jvm.ensure_class_loaded(type_str.as_str(), true)?;
        if jvm.call_stack_frames.len() != depth {
            return Ok(Action::ReExecute);
        }
        proof {
            super::lemma_frames_same(old(jvm).call_stack_frames@, jvm.call_stack_frames@);
        }
        let instance = match jvm.new_instance(class_id) {
            Ok(o) => o,
            Err(()) => {
                return Err(jvm.throw_exception("java/lang/Error", Some("invalid class id")));
            },
        };
        let id = jvm.heap_store_instance(instance);
        return push_or_overflow(jvm, state, JavaValue::Object(Some(id)), max_stack);
    }
    if opcode == 0xbc {
        // newarray: primitive element kind from the operand code 4..11
        let kind = match take_u8(&jvm.call_stack_frames[t].instructions, state) {
            Ok(v) => v,
            Err(()) => {
                return Err(jvm.throw_exception("java/lang/Error", Some("truncated instruction")));
            },
        };
        let array_type: JavaArrayType = if kind == 4 {
            JavaArrayType::Boolean
        } else if kind == 5 {
            JavaArrayType::Char
        } else if kind == 6 {
            JavaArrayType::Float
        } else if kind == 7 {
            JavaArrayType::Double
        } else if kind == 8 {
            JavaArrayType::Byte
        } else if kind == 9 {
            JavaArrayType::Short
        } else if kind == 10 {
            JavaArrayType::Int
        } else if kind == 11 {
            JavaArrayType::Long
        } else {
            return Err(jvm.throw_exception("java/lang/Error", Some("invalid array type code")));
        };
        let length = super::pop_int(jvm, state)?;
        if length < 0 {
            let msg = crate::strutil::i32_to_string(length);
            return Err(
                jvm.throw_exception("java/lang/NegativeArraySizeException", Some(msg.as_str())),
            );
        }
        let id = jvm.create_empty_array(array_type, length as usize);
        return push_or_overflow(jvm, state, JavaValue::Array(id), max_stack);
    }
    if opcode == 0xbd {
        // anewarray: object element type
        let index = match take_u16(&jvm.call_stack_frames[t].instructions, state) {
            Ok(v) => v,
            Err(()) => {
                return Err(jvm.throw_exception("java/lang/Error", Some("truncated instruction")));
            },
        };
        let type_str = match read_pool_class_name(jvm, t, index) {
            Ok(s) => s,
            Err(()) => {
                return Err(jvm.throw_exception("java/lang/Error", Some("unusable constant pool entry")));
            },
        };
        let depth = jvm.call_stack_frames.len();
        let type_id = jvm.ensure_class_loaded(type_str.as_str(), true)?;
        if jvm.call_stack_frames.len() != depth {
            return Ok(Action::ReExecute);
        }
        proof {
            super::lemma_frames_same(old(jvm).call_stack_frames@, jvm.call_stack_frames@);
        }
        let length = super::pop_int(jvm, state)?;
        if length < 0 {
            let msg = crate::strutil::i32_to_string(length);
            return Err(
                jvm.throw_exception("java/lang/NegativeArraySizeException", Some(msg.as_str())),
            );
        }
        let id = jvm.create_empty_array(JavaArrayType::Object(type_id), length as usize);
        return push_or_overflow(jvm, state, JavaValue::Array(id), max_stack);
    }
    if opcode == 0xbe {
        // arraylength
        let v = match pop_cat1(state) {
            Ok(v) => v,
            Err(()) => {
                return Err(jvm.throw_exception("java/lang/Error", Some("stack underflow")));
            },
        };
        let array_id: usize = match v {
            JavaValue::Array(id) => id,
            JavaValue::Object(None) => {
                return Err(jvm.throw_npe());
            },
            _ => {
                return Err(jvm.throw_exception("java/lang/Error", Some("array reference expected")));
            },
        };
        let len: usize = match jvm.heap.get_array(array_id) {
            Some(a) => a.values.len(),
            None => {
                return Err(jvm.throw_exception("java/lang/Error", Some("invalid array reference")));
            },
        };
        if len > 0x7fff_ffff {
            return Err(jvm.throw_exception("java/lang/Error", Some("array too large")));
        }
        return push_or_overflow(jvm, state, JavaValue::Int(len as i32), max_stack);
    }
    if opcode == 0xbf {
        // athrow
        let v = match pop_cat1(state) {
            Ok(v) => v,
            Err(()) => {
                return Err(jvm.throw_exception("java/lang/Error", Some("stack underflow")));
            },
        };
        return match v {
            JavaValue::Object(Some(id)) => Err(jvm.throw_exception_ref(id)),
            JavaValue::Object(None) => Err(jvm.throw_npe()),
            _ => Err(jvm.throw_exception("java/lang/Error", Some("object reference expected"))),
        };
    }
    if opcode == 0xc0 {
        // checkcast: a null reference always passes; otherwise the value
        // must be assignable to the named type.
        let index = match take_u16(&jvm.call_stack_frames[t].instructions, state) {
            Ok(v) => v,
            Err(()) => {
                return Err(jvm.throw_exception("java/lang/Error", Some("truncated instruction")));
            },
        };
        let type_str = match read_pool_class_name(jvm, t, index) {
            Ok(s) => s,
            Err(()) => {
                return Err(jvm.throw_exception("java/lang/Error", Some("unusable constant pool entry")));
            },
        };
        let test: JavaValue = match state.stack.last() {
            Some(v) => *v,
            None => {
                return Err(jvm.throw_exception("java/lang/Error", Some("stack underflow")));
            },
        };
        let passes: bool = match test {
            JavaValue::Object(None) => true,
            JavaValue::Object(Some(_)) | JavaValue::Array(_) => {
                match jvm.is_instance_of(&test, type_str.as_str()) {
                    Ok(b) => b,
                    Err(()) => {
                        return Err(jvm.throw_exception("java/lang/Error", Some("invalid object reference")));
                    },
                }
            },
            _ => {
                return Err(jvm.throw_exception("java/lang/Error", Some("object reference expected")));
            },
        };
        if !passes {
            return Err(
                jvm.throw_exception("java/lang/ClassCastException", Some(type_str.as_str())),
            );
        }
        return Ok(Action::Continue);
    }
    if opcode == 0xc1 {
        // instanceof: pushes 1 when the value is a non-null instance of the
        // named type, 0 otherwise (null is an instance of nothing).
        let index = match take_u16(&jvm.call_stack_frames[t].instructions, state) {
            Ok(v) => v,
            Err(()) => {
                return Err(jvm.throw_exception("java/lang/Error", Some("truncated instruction")));
            },
        };
        let type_str = match read_pool_class_name(jvm, t, index) {
            Ok(s) => s,
            Err(()) => {
                return Err(jvm.throw_exception("java/lang/Error", Some("unusable constant pool entry")));
            },
        };
        let test = match pop_cat1(state) {
            Ok(v) => v,
            Err(()) => {
                return Err(jvm.throw_exception("java/lang/Error", Some("stack underflow")));
            },
        };
        let res: bool = match test {
            JavaValue::Object(None) => false,
            JavaValue::Object(Some(_)) | JavaValue::Array(_) => {
                match jvm.is_instance_of(&test, type_str.as_str()) {
                    Ok(b) => b,
                    Err(()) => {
                        return Err(jvm.throw_exception("java/lang/Error", Some("invalid object reference")));
                    },
                }
            },
            _ => {
                return Err(jvm.throw_exception("java/lang/Error", Some("object reference expected")));
            },
        };
        return push_or_overflow(jvm, state, JavaValue::Boolean(res), max_stack);
    }
    if opcode == 0xc6 || opcode == 0xc7 {
        // ifnull / ifnonnull
        let offset = match take_u16(&jvm.call_stack_frames[t].instructions, state) {
            Ok(v) => v as i16 as i32,
            Err(()) => {
                return Err(jvm.throw_exception("java/lang/Error", Some("truncated instruction")));
            },
        };
        let v = match pop_cat1(state) {
            Ok(v) => v,
            Err(()) => {
                return Err(jvm.throw_exception("java/lang/Error", Some("stack underflow")));
            },
        };
        let is_null: bool = match v {
            JavaValue::Object(ptr) => ptr.is_none(),
            // arrays are never null in this representation
            JavaValue::Array(_) => false,
            _ => {
                return Err(jvm.throw_exception("java/lang/Error", Some("object reference expected")));
            },
        };
        let taken = if opcode == 0xc6 {
            is_null
        } else {
            !is_null
        };
        if taken {
            if branch_to(state, instruction_addr, offset, code_len).is_err() {
                return Err(jvm.throw_exception("java/lang/Error", Some("branch target out of range")));
            }
        }
        return Ok(Action::Continue);
    }
    Err(
        jvm.throw_exception(
            "webjvm/lang/UnhandledInstructionError",
            Some(crate::strutil::i32_to_string(opcode as i32).as_str()),
        ),
    )
}

/// The primitive element type selected by a `newarray` kind code.
pub open spec fn spec_newarray_type(kind: u8) -> crate::heap::JavaArrayType {
    if kind == 4 {
        crate::heap::JavaArrayType::Boolean
    } else if kind == 5 {
        crate::heap::JavaArrayType::Char
    } else if kind == 6 {
        crate::heap::JavaArrayType::Float
    } else if kind == 7 {
        crate::heap::JavaArrayType::Double
    } else if kind == 8 {
        crate::heap::JavaArrayType::Byte
    } else if kind == 9 {
        crate::heap::JavaArrayType::Short
    } else if kind == 10 {
        crate::heap::JavaArrayType::Int
    } else {
        crate::heap::JavaArrayType::Long
    }
}

/// A `checkcast` that is owed to fail: the pool names a resolvable target
/// type and the non-null value at the top of the stack does not conform to
/// it.
pub open spec fn checkcast_must_fail(pre_jvm: Jvm, pre: CallStackFrameState, t: usize) -> bool {
    let frame = pre_jvm.call_stack_frames@[t as int];
    &&& pre.instruction_offset + 2 <= frame.instructions@.len()
    &&& crate::classpath::spec_find_entry(
        pre_jvm.classpath.class_files@,
        frame.container_class@,
    ) matches Some(fi) && {
        let pool = pre_jvm.classpath.class_files@[fi].const_pool@;
        let index = crate::parser::be_u16(frame.instructions@, pre.instruction_offset as int);
        let target = crate::util::spec_constant_string(pool, index as u16);
        &&& crate::util::constant_string_resolves(pool, index as u16)
        &&& pre.stack@.len() >= 1
        &&& match pre.stack@.last() {
            JavaValue::Object(oid) => oid matches Some(id) && id < pre_jvm.heap.entries@.len() && (
            pre_jvm.heap.entries@[id as int] matches crate::heap::HeapEntry::ObjectEntry(o)
                && o.class_id < pre_jvm.heap.loaded_classes@.len()
                && !crate::jvm::spec_assignable(
                pre_jvm.heap.loaded_classes@,
                target,
                o.class_id as int,
            )),
            JavaValue::Array(_) => !crate::jvm::array_type_assignable(target),
            _ => false,
        }
    }
}

/// The outcome of `checkcast`/`instanceof` over a non-null object at the
/// top of the stack: the target name is the string behind the pool entry
/// named by the 16-bit immediate, and assignability over the loaded-class
/// registry decides the result. (`checkcast` only peeks; `instanceof`
/// replaces the reference with the boolean answer.)
pub open spec fn type_test_post(
    pre_jvm: Jvm,
    pre: CallStackFrameState,
    post: CallStackFrameState,
    t: usize,
    opcode: u8,
) -> bool {
    let frame = pre_jvm.call_stack_frames@[t as int];
    crate::classpath::spec_find_entry(
        pre_jvm.classpath.class_files@,
        frame.container_class@,
    ) matches Some(fi) ==> ({
        let pool = pre_jvm.classpath.class_files@[fi].const_pool@;
        let index = crate::parser::be_u16(frame.instructions@, pre.instruction_offset as int);
        let target = crate::util::spec_constant_string(pool, index as u16);
        &&& (opcode == 0xc1 ==> (pre.stack@.last() matches JavaValue::Object(oid) ==> (match oid {
            Some(id) => (pre_jvm.heap.entries@[id as int] matches
                crate::heap::HeapEntry::ObjectEntry(o) ==> post.stack@
                == pre.stack@.drop_last().push(
                JavaValue::Boolean(
                    crate::jvm::spec_assignable(
                        pre_jvm.heap.loaded_classes@,
                        target,
                        o.class_id as int,
                    ),
                ),
            )),
            None => post.stack@ == pre.stack@.drop_last().push(JavaValue::Boolean(false)),
        })))
        &&& (opcode == 0xc1 ==> (pre.stack@.last() matches JavaValue::Array(_) ==> post.stack@
            == pre.stack@.drop_last().push(
            JavaValue::Boolean(crate::jvm::array_type_assignable(target)),
        )))
        &&& (opcode == 0xc0 ==> post.stack@ == pre.stack@ && (pre.stack@.last() matches
            JavaValue::Object(oid2) ==> (oid2 matches Some(id2) ==> (pre_jvm.heap.entries@[
            id2 as int] matches crate::heap::HeapEntry::ObjectEntry(o2)
            ==> crate::jvm::spec_assignable(
            pre_jvm.heap.loaded_classes@,
            target,
            o2.class_id as int,
        )))))
        &&& (opcode == 0xc0 ==> (pre.stack@.last() matches JavaValue::Array(_)
            ==> crate::jvm::array_type_assignable(target)))
    })
}

/// Pushes, raising an internal error on overflow.
fn push_or_overflow(
    jvm: &mut Jvm,
    state: &mut CallStackFrameState,
    v: JavaValue,
    max_stack: usize,
) -> (r: RuntimeResult<Action>)
    requires
        old(jvm).wf(),
        crate::value::stack_wf(old(state).stack@),
    ensures
        final(jvm).wf(),
        classes_extend(old(jvm).heap.loaded_classes@, final(jvm).heap.loaded_classes@),
        final(jvm).classpath == old(jvm).classpath,
        r matches Ok(a) ==> a is Continue && *final(jvm) == *old(jvm) && final(state).stack@
            == crate::value::spec_push(old(state).stack@, v) && crate::value::stack_wf(
            final(state).stack@,
        ) && final(state).stack@.len() <= max_stack && *final(state) == (CallStackFrameState {
            stack: final(state).stack,
            ..*old(state)
        }),
        r matches Err(t) ==> crate::jvm::exception_delivered(*final(jvm), t),
{
    match push_value(state, v, max_stack) {
        Ok(()) => Ok(Action::Continue),
        Err(()) => Err(jvm.throw_exception("java/lang/Error", Some("operand stack overflow"))),
    }
}

/// The class name behind pool entry `index` of frame `t`'s class.
pub fn read_pool_class_name(jvm: &Jvm, t: usize, index: u16) -> (r: Result<String, ()>)
    requires
        t < jvm.call_stack_frames@.len(),
    ensures
        r matches Ok(s) ==> (crate::classpath::spec_find_entry(
            jvm.classpath.class_files@,
            jvm.call_stack_frames@[t as int].container_class@,
        ) matches Some(fi) && crate::util::constant_string_resolves(
            jvm.classpath.class_files@[fi].const_pool@,
            index,
        ) && s@ == crate::util::spec_constant_string(
            jvm.classpath.class_files@[fi].const_pool@,
            index,
        )),
        r is Err ==> (crate::classpath::spec_find_entry(
            jvm.classpath.class_files@,
            jvm.call_stack_frames@[t as int].container_class@,
        ) is None || (crate::classpath::spec_find_entry(
            jvm.classpath.class_files@,
            jvm.call_stack_frames@[t as int].container_class@,
        ) matches Some(fi) && !crate::util::constant_string_resolves(
            jvm.classpath.class_files@[fi].const_pool@,
            index,
        ))),
{
    let cf = match jvm.classpath.get_classpath_entry(
        jvm.call_stack_frames[t].container_class.as_str(),
    ) {
        Some(cf) => cf,
        None => {
            return Err(());
        },
    };
    match crate::util::try_get_constant_string(&cf.const_pool, index) {
        Some(s) => Ok(s.clone()),
        None => Err(()),
    }
}

/// The (class, name, descriptor) triple behind a `FieldRef` pool entry of
/// frame `t`'s class.
/// What a resolvable field-ref pool entry of frame `t`'s class says: the
/// named class, field name and descriptor strings.
pub open spec fn field_ref_strings(
    jvm: Jvm,
    t: usize,
    index: u16,
    class_str: Seq<char>,
    name: Seq<char>,
    descriptor: Seq<char>,
) -> bool {
    crate::classpath::spec_find_entry(
        jvm.classpath.class_files@,
        jvm.call_stack_frames@[t as int].container_class@,
    ) matches Some(fi) && ({
        let pool = jvm.classpath.class_files@[fi].const_pool@;
        &&& 1 <= index <= pool.len()
        &&& (match pool[index - 1] {
            ConstantInfo::FieldRef { class_index, name_and_type_index } => {
                &&& crate::util::constant_string_resolves(pool, class_index)
                &&& class_str == crate::util::spec_constant_string(pool, class_index)
                &&& crate::util::constant_name_and_type_resolves(pool, name_and_type_index)
                &&& name == crate::util::spec_constant_name(pool, name_and_type_index)
                &&& descriptor == crate::util::spec_constant_type(pool, name_and_type_index)
            },
            _ => false,
        })
    })
}

fn read_field_ref(jvm: &Jvm, t: usize, index: u16) -> (r: Result<(String, String, String), ()>)
    requires
        t < jvm.call_stack_frames@.len(),
    ensures
        r matches Ok(p) ==> field_ref_strings(*jvm, t, index, p.0@, p.1@, p.2@),
{
    let cf = match jvm.classpath.get_classpath_entry(
        jvm.call_stack_frames[t].container_class.as_str(),
    ) {
        Some(cf) => cf,
        None => {
            return Err(());
        },
    };
    let (class_index, nat_index) = {
        if index < 1 || index as usize > cf.const_pool.len() {
            return Err(());
        }
        match &cf.const_pool[index as usize - 1] {
            ConstantInfo::FieldRef { class_index, name_and_type_index } => (
                *class_index,
                *name_and_type_index,
            ),
            _ => {
                return Err(());
            },
        }
    };
    let class_str = match crate::util::try_get_constant_string(&cf.const_pool, class_index) {
        Some(s) => s.clone(),
        None => {
            return Err(());
        },
    };
    match crate::util::try_get_constant_name_and_type(&cf.const_pool, nat_index) {
        Some((n, d)) => Ok((class_str, n.clone(), d.clone())),
        None => Err(()),
    }
}

/// `getstatic` / `putstatic`: the declaring class is initialized on first
/// touch, and the static slot is found by walking the superclass chain.
fn exec_static_field(
    jvm: &mut Jvm,
    state: &mut CallStackFrameState,
    t: usize,
    opcode: u8,
    max_stack: usize,
) -> (r: RuntimeResult<Action>)
    requires
        old(jvm).wf(),
        t < old(jvm).call_stack_frames@.len(),
        state_ok(*old(state), max_stack as int, old(jvm).call_stack_frames@[t as int].instructions@.len() as int),
    ensures
        dispatch_post(
            *old(jvm),
            *final(jvm),
            *final(state),
            r,
            max_stack as int,
            old(jvm).call_stack_frames@[t as int].instructions@.len() as int,
        ),
        // getstatic pushes the nearest declarer's current slot value;
        // putstatic pops one full value into that slot
        r matches Ok(a) ==> (a is Continue ==> ({
            let code = old(jvm).call_stack_frames@[t as int].instructions@;
            let index = crate::parser::be_u16(code, old(state).instruction_offset as int) as u16;
            forall|cs: Seq<char>, fname: Seq<char>, fdesc: Seq<char>|
                #[trigger] field_ref_strings(*old(jvm), t, index, cs, fname, fdesc) ==> ({
                    &&& (opcode == 0xb2 ==> exists|cid: int|
                        0 <= cid < final(jvm).heap.loaded_classes@.len() && (
                        #[trigger] final(jvm).heap.loaded_classes@[cid]).java_type@
                            == crate::jvm::canonical_class_name(cs) && (
                        crate::jvm::spec_static_declarer(
                            final(jvm).heap.loaded_classes@,
                            cid,
                            fname,
                        ) matches Some(d) && (crate::heap::spec_field_find(
                            final(jvm).heap.loaded_classes@[d].static_fields@,
                            fname,
                        ) matches Some(v) && final(state).stack@ == crate::value::spec_push(
                            old(state).stack@,
                            v,
                        ))))
                    &&& (opcode == 0xb3 ==> exists|cid: int|
                        0 <= cid < final(jvm).heap.loaded_classes@.len() && (
                        #[trigger] final(jvm).heap.loaded_classes@[cid]).java_type@
                            == crate::jvm::canonical_class_name(cs) && (
                        crate::jvm::spec_static_declarer(
                            final(jvm).heap.loaded_classes@,
                            cid,
                            fname,
                        ) matches Some(d) && crate::heap::spec_field_find(
                            final(jvm).heap.loaded_classes@[d].static_fields@,
                            fname,
                        ) == Some(crate::value::spec_pop_full(old(state).stack@).1.unwrap())
                            && final(state).stack@ == crate::value::spec_pop_full(
                            old(state).stack@,
                        ).0))
                })
        })),
{
    let index = match take_u16(&jvm.call_stack_frames[t].instructions, state) {
        Ok(v) => v,
        Err(()) => {
            return Err(jvm.throw_exception("java/lang/Error", Some("truncated instruction")));
        },
    };
    let (class_str, field_name, _) = match read_field_ref(jvm, t, index) {
        Ok(p) => p,
        Err(()) => {
            return Err(jvm.throw_exception("java/lang/Error", Some("unusable constant pool entry")));
        },
    };
    let depth = jvm.call_stack_frames.len();
    let class_id = jvm.ensure_class_loaded(class_str.as_str(), true)?;
    if jvm.call_stack_frames.len() != depth {
        return Ok(Action::ReExecute);
    }
    proof {
        super::lemma_frames_same(old(jvm).call_stack_frames@, jvm.call_stack_frames@);
    }
    let declarer = match jvm.find_static_declarer(class_id, field_name.as_str()) {
        Some(d) => d,
        None => {
            let mut msg = class_str;
            msg.append(".");
            msg.append(field_name.as_str());
            return Err(jvm.throw_exception("java/lang/NoSuchFieldError", Some(msg.as_str())));
        },
    };
    if opcode == 0xb2 {
        let v = match crate::heap::field_find(
            &jvm.heap.loaded_classes[declarer].static_fields,
            field_name.as_str(),
        ) {
            Some(v) => v,
            None => {
                return Err(jvm.throw_exception("java/lang/Error", Some("static field lookup failed")));
            },
        };
        push_or_overflow(jvm, state, v, max_stack)
    } else {
        let v = match pop_any(state) {
            Ok(v) => v,
            Err(()) => {
                return Err(jvm.throw_exception("java/lang/Error", Some("stack underflow")));
            },
        };
        let ghost classes_m = jvm.heap.loaded_classes@;
        match jvm.set_static_field_at(declarer, field_name.as_str(), v) {
            Ok(()) => {
                proof {
                    crate::jvm::lemma_static_declarer_after_write(
                        classes_m,
                        jvm.heap.loaded_classes@,
                        class_id as int,
                        field_name@,
                        declarer as int,
                    );
                }
                Ok(Action::Continue)
            },
            Err(()) => Err(jvm.throw_exception("java/lang/Error", Some("static field lookup failed"))),
        }
    }
}

/// `getfield` / `putfield`: a null receiver raises `NullPointerException`,
/// a missing field `NoSuchFieldError`.
fn exec_instance_field(
    jvm: &mut Jvm,
    state: &mut CallStackFrameState,
    t: usize,
    opcode: u8,
    max_stack: usize,
) -> (r: RuntimeResult<Action>)
    requires
        old(jvm).wf(),
        t < old(jvm).call_stack_frames@.len(),
        state_ok(*old(state), max_stack as int, old(jvm).call_stack_frames@[t as int].instructions@.len() as int),
    ensures
        dispatch_post(
            *old(jvm),
            *final(jvm),
            *final(state),
            r,
            max_stack as int,
            old(jvm).call_stack_frames@[t as int].instructions@.len() as int,
        ),
        // getfield replaces a live receiver by its declared field's value;
        // putfield writes the popped value into the receiver's field
        r matches Ok(a) ==> ({
            let code = old(jvm).call_stack_frames@[t as int].instructions@;
            let index = crate::parser::be_u16(code, old(state).instruction_offset as int) as u16;
            let s = old(state).stack@;
            forall|cs: Seq<char>, fname: Seq<char>, fdesc: Seq<char>|
                #[trigger] field_ref_strings(*old(jvm), t, index, cs, fname, fdesc) ==> ({
                    &&& ((opcode == 0xb4 && s.len() >= 1) ==> (s.last() matches JavaValue::Object(
                        oid,
                    ) ==> (oid matches Some(iid) ==> (old(jvm).heap.entries@[iid as int] matches
                        crate::heap::HeapEntry::ObjectEntry(o) ==> (crate::heap::spec_field_find(
                        o.instance_fields@,
                        fname,
                    ) matches Some(v) ==> final(state).stack@ == crate::value::spec_push(
                        s.drop_last(),
                        v,
                    ) && *final(jvm) == *old(jvm))))))
                    &&& (opcode == 0xb5 ==> (crate::value::spec_pop_full(s).1 matches Some(value)
                        ==> ({
                        let s1 = crate::value::spec_pop_full(s).0;
                        s1.len() >= 1 ==> (s1.last() matches JavaValue::Object(oid2) ==> (
                        oid2 matches Some(iid2) ==> (final(jvm).heap.entries@[iid2 as int] matches
                            crate::heap::HeapEntry::ObjectEntry(no)
                            && crate::heap::spec_field_find(no.instance_fields@, fname) == Some(
                            value,
                        ) && final(state).stack@ == s1.drop_last())))
                    })))
                })
        }),
{
    let index = match take_u16(&jvm.call_stack_frames[t].instructions, state) {
        Ok(v) => v,
        Err(()) => {
            return Err(jvm.throw_exception("java/lang/Error", Some("truncated instruction")));
        },
    };
    let (_, field_name, _) = match read_field_ref(jvm, t, index) {
        Ok(p) => p,
        Err(()) => {
            return Err(jvm.throw_exception("java/lang/Error", Some("unusable constant pool entry")));
        },
    };
    if opcode == 0xb4 {
        // getfield
        let instance_id = match pop_cat1(state) {
            Ok(JavaValue::Object(Some(id))) => id,
            Ok(JavaValue::Object(None)) => {
                return Err(jvm.throw_npe());
            },
            Ok(_) => {
                return Err(jvm.throw_exception("java/lang/Error", Some("object reference expected")));
            },
            Err(()) => {
                return Err(jvm.throw_exception("java/lang/Error", Some("stack underflow")));
            },
        };
        let v = {
            let obj = match jvm.heap.get_object(instance_id) {
                Some(o) => o,
                None => {
                    return Err(jvm.throw_exception("java/lang/Error", Some("invalid object reference")));
                },
            };
            match obj.get_field(field_name.as_str()) {
                Ok(v) => v,
                Err(()) => {
                    return Err(
                        jvm.throw_exception("java/lang/NoSuchFieldError", Some(field_name.as_str())),
                    );
                },
            }
        };
        push_or_overflow(jvm, state, v, max_stack)
    } else {
        // putfield
        let value = match pop_any(state) {
            Ok(v) => v,
            Err(()) => {
                return Err(jvm.throw_exception("java/lang/Error", Some("stack underflow")));
            },
        };
        let instance_id = match pop_cat1(state) {
            Ok(JavaValue::Object(Some(id))) => id,
            Ok(JavaValue::Object(None)) => {
                return Err(jvm.throw_npe());
            },
            Ok(_) => {
                return Err(jvm.throw_exception("java/lang/Error", Some("object reference expected")));
            },
            Err(()) => {
                return Err(jvm.throw_exception("java/lang/Error", Some("stack underflow")));
            },
        };
        match jvm.set_object_field(instance_id, field_name.as_str(), value) {
            Ok(()) => Ok(Action::Continue),
            Err(e) => Err(e),
        }
    }
}

} // verus!
