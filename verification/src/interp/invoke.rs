//! The four invocation opcodes: parse the method reference, load the target
//! class, pop the arguments per the parsed descriptor (`J` and `D` take two
//! stack slots), resolve the method under the invocation mode, and build the
//! callee frame with the arguments in its locals.

use vstd::prelude::*;

use crate::classfile::ConstantInfo;
use crate::classpath::InvokeType;
use crate::frame::{CallStackFrame, CallStackFrameState, RuntimeResult};
use crate::jvm::{classes_extend, FrameError, Jvm};
use crate::value::{JavaValue, JavaValueVec};
use super::frameops::{pop_any, pop_cat1, state_ok, take_u16};
use super::{dispatch_post, Action};

verus! {

/// What a resolvable method-ref pool entry of frame `t`'s class says: the
/// named class, method name and descriptor strings.
pub open spec fn method_ref_strings(
    jvm: Jvm,
    t: usize,
    index: u16,
    class_str: Seq<char>,
    name: Seq<char>,
    descriptor: Seq<char>,
) -> bool {
    crate::classpath::spec_find_entry(
        jvm.classpath.class_files@,
        jvm.call_stack_frames@[t as int].container_class@,
    ) matches Some(fi) && ({
        let pool = jvm.classpath.class_files@[fi].const_pool@;
        &&& 1 <= index <= pool.len()
        &&& (match pool[index - 1] {
            ConstantInfo::MethodRef { class_index, name_and_type_index } => {
                &&& crate::util::constant_string_resolves(pool, class_index)
                &&& class_str == crate::util::spec_constant_string(pool, class_index)
                &&& crate::util::constant_name_and_type_resolves(pool, name_and_type_index)
                &&& name == crate::util::spec_constant_name(pool, name_and_type_index)
                &&& descriptor == crate::util::spec_constant_type(pool, name_and_type_index)
            },
            ConstantInfo::InterfaceMethodRef { class_index, name_and_type_index } => {
                &&& crate::util::constant_string_resolves(pool, class_index)
                &&& class_str == crate::util::spec_constant_string(pool, class_index)
                &&& crate::util::constant_name_and_type_resolves(pool, name_and_type_index)
                &&& name == crate::util::spec_constant_name(pool, name_and_type_index)
                &&& descriptor == crate::util::spec_constant_type(pool, name_and_type_index)
            },
            _ => false,
        })
    })
}

/// The (class, name, descriptor) triple behind a `MethodRef` (or, when
/// allowed, `InterfaceMethodRef`) pool entry of frame `t`'s class.
fn read_method_ref(jvm: &Jvm, t: usize, index: u16, allow_interface: bool) -> (r: Result<
    (String, String, String),
    (),
>)
    requires
        t < jvm.call_stack_frames@.len(),
    ensures
        r matches Ok(p) ==> method_ref_strings(*jvm, t, index, p.0@, p.1@, p.2@),
{
    let cf = match jvm.classpath.get_classpath_entry(
        jvm.call_stack_frames[t].container_class.as_str(),
    ) {
        Some(cf) => cf,
        None => {
            return Err(());
        },
    };
    let (class_index, nat_index) = {
        if index < 1 || index as usize > cf.const_pool.len() {
            return Err(());
        }
        match &cf.const_pool[index as usize - 1] {
            ConstantInfo::MethodRef { class_index, name_and_type_index } => (
                *class_index,
                *name_and_type_index,
            ),
            ConstantInfo::InterfaceMethodRef { class_index, name_and_type_index } => {
                if !allow_interface {
                    return Err(());
                }
                (*class_index, *name_and_type_index)
            },
            _ => {
                return Err(());
            },
        }
    };
    let class_str = match crate::util::try_get_constant_string(&cf.const_pool, class_index) {
        Some(s) => s.clone(),
        None => {
            return Err(());
        },
    };
    match crate::util::try_get_constant_name_and_type(&cf.const_pool, nat_index) {
        Some((n, d)) => Ok((class_str, n.clone(), d.clone())),
        None => Err(()),
    }
}

/// The virtual-dispatch law for `invokevirtual` over a plain method
/// reference: the frame that gets pushed runs the method resolved from the
/// *receiver's runtime class* (not the reference's declared class), walking
/// its superclass chain, and bears the referenced name and descriptor.
pub open spec fn invoke_virtual_target(
    pre_jvm: Jvm,
    pre: CallStackFrameState,
    f: CallStackFrame,
    t: usize,
) -> bool {
    let files = pre_jvm.classpath.class_files@;
    let classes = pre_jvm.heap.loaded_classes@;
    let frame = pre_jvm.call_stack_frames@[t as int];
    crate::classpath::spec_find_entry(files, frame.container_class@) matches Some(fi) ==> ({
        let pool = files[fi].const_pool@;
        let index = crate::parser::be_u16(frame.instructions@, pre.instruction_offset as int);
        (1 <= index <= pool.len() ==> (pool[index - 1] matches ConstantInfo::MethodRef {
            class_index,
            name_and_type_index,
        } ==> ({
            let name = crate::util::spec_constant_name(pool, name_and_type_index);
            let descriptor = crate::util::spec_constant_type(pool, name_and_type_index);
            crate::descriptor::spec_parse_descriptor(descriptor) matches Some(pd) ==> ({
                let slots = crate::descriptor::spec_arg_slots(pd.0);
                (0 <= slots && slots + 1 <= pre.stack@.len() ==> (pre.stack@[pre.stack@.len() - 1
                    - slots] matches JavaValue::Object(Some(rid)) ==> (rid
                    < pre_jvm.heap.entries@.len() ==> (pre_jvm.heap.entries@[
                    rid as int] matches crate::heap::HeapEntry::ObjectEntry(o) ==> (o.class_id
                    < classes.len() ==> (crate::classpath::spec_find_entry(
                    files,
                    classes[o.class_id as int].java_type@,
                ) matches Some(ri) ==> (crate::classpath::spec_resolve(
                    files,
                    files[ri],
                    name,
                    descriptor,
                    false,
                    files.len() as nat,
                ) matches Some(p) ==> (f.container_class@ == crate::classpath::spec_classfile_name(
                    p.0,
                ) && f.container_method@ == name + descriptor))))))))
            })
        })))
    })
}

/// `invokestatic`, `invokespecial`, `invokevirtual` and `invokeinterface`.
pub fn exec_invoke(
    jvm: &mut Jvm,
    state: &mut CallStackFrameState,
    t: usize,
    opcode: u8,
    max_stack: usize,
) -> (r: RuntimeResult<Action>)
    requires
        old(jvm).wf(),
        t < old(jvm).call_stack_frames@.len(),
        state_ok(*old(state), max_stack as int, old(jvm).call_stack_frames@[t as int].instructions@.len() as int),
        0xb6 <= opcode <= 0xb9,
    ensures
        dispatch_post(
            *old(jvm),
            *final(jvm),
            *final(state),
            r,
            max_stack as int,
            old(jvm).call_stack_frames@[t as int].instructions@.len() as int,
        ),
        r matches Ok(a) ==> (a matches Action::PushFrame(f) ==> (opcode == 0xb6
            ==> invoke_virtual_target(*old(jvm), *old(state), f, t))),
{
    let index = match take_u16(&jvm.call_stack_frames[t].instructions, state) {
        Ok(v) => v,
        Err(()) => {
            return Err(jvm.throw_exception("java/lang/Error", Some("truncated instruction")));
        },
    };
    if opcode == 0xb9 {
        // invokeinterface carries a count byte and a zero byte
        match take_u16(&jvm.call_stack_frames[t].instructions, state) {
            Ok(_) => {},
            Err(()) => {
                return Err(jvm.throw_exception("java/lang/Error", Some("truncated instruction")));
            },
        }
    }
    let is_static = opcode == 0xb8;
    let allow_interface = opcode == 0xb6 || opcode == 0xb9;
    let (class_str, method_name, method_descriptor) = match read_method_ref(
        jvm,
        t,
        index,
        allow_interface,
    ) {
        Ok(p) => p,
        Err(()) => {
            return Err(jvm.throw_exception("java/lang/Error", Some("unusable constant pool entry")));
        },
    };
    // Loading (and initializing) the named class may queue static
    // initializers; they run first and this instruction re-executes.
    let depth = jvm.call_stack_frames.len();
    match jvm.ensure_class_loaded(class_str.as_str(), true) {
        Ok(_) => {},
        Err(e) => {
            return Err(e);
        },
    }
    if jvm.call_stack_frames.len() != depth {
        return Ok(Action::ReExecute);
    }
    proof {
        super::lemma_frames_same(old(jvm).call_stack_frames@, jvm.call_stack_frames@);
    }
    let md = match crate::descriptor::MethodDescriptor::new(method_descriptor.as_str()) {
        Ok(md) => md,
        Err(()) => {
            return Err(jvm.throw_exception("java/lang/Error", Some("malformed method descriptor")));
        },
    };
    let args_len = match md.arg_slots() {
        Ok(n) => n,
        Err(()) => {
            return Err(jvm.throw_exception("java/lang/Error", Some("malformed method descriptor")));
        },
    };
    // Pop the argument slots, last argument first.
    let mut args = JavaValueVec::new();
    let mut slots: usize = 0;
    proof {
        assert(old(state).stack@.take(old(state).stack@.len() as int) =~= old(state).stack@);
    }
    while slots < args_len
        invariant
            jvm.wf(),
            crate::value::stack_wf(state.stack@),
            state.stack@.len() <= max_stack,
            slots <= args_len,
            slots <= old(state).stack@.len(),
            state.stack@ == old(state).stack@.take(old(state).stack@.len() - slots),
            state.instruction_offset <= old(jvm).call_stack_frames@[t as int].instructions@.len(),
            jvm.call_stack_frames@ == old(jvm).call_stack_frames@,
            jvm.classpath == old(jvm).classpath,
            classes_extend(old(jvm).heap.loaded_classes@, jvm.heap.loaded_classes@),
            crate::jvm::entries_prefix(old(jvm).heap.entries@, jvm.heap.entries@),
        decreases args_len - slots,
    {
        let v = match pop_any(state) {
            Ok(v) => v,
            Err(()) => {
                return Err(jvm.throw_exception("java/lang/Error", Some("stack underflow")));
            },
        };
        let width: usize = if v.is_category_2_exec() {
            2
        } else {
            1
        };
        if args_len - slots < width {
            return Err(jvm.throw_exception("java/lang/Error", Some("argument category mismatch")));
        }
        proof {
            let ghost pre_len = old(state).stack@.len() as int;
            if v.is_category_2() {
                assert(old(state).stack@.take(pre_len - slots).take(pre_len - slots - 2)
                    =~= old(state).stack@.take(pre_len - (slots + 2)));
            } else {
                assert(old(state).stack@.take(pre_len - slots).drop_last() =~= old(state).stack@.take(pre_len - (slots + 1)));
            }
        }
        args.push_exact(v);
        slots = slots + width;
    }
    // The receiver, for the three instance modes.
    let receiver: Option<JavaValue> = if is_static {
        None
    } else {
        let v = match pop_cat1(state) {
            Ok(v) => v,
            Err(()) => {
                return Err(jvm.throw_exception("java/lang/Error", Some("stack underflow")));
            },
        };
        match v {
            JavaValue::Object(Some(_)) => {},
            JavaValue::Object(None) => {
                return Err(jvm.throw_npe());
            },
            JavaValue::Array(_) => {},
            _ => {
                return Err(jvm.throw_exception("java/lang/Error", Some("object reference expected")));
            },
        }
        Some(v)
    };
    // Dispatch: virtual and interface calls start at the receiver's runtime
    // class; special and static calls at the named class.
    let invoke_type: InvokeType = if is_static {
        InvokeType::Static
    } else if opcode == 0xb7 {
        InvokeType::Special
    } else {
        InvokeType::Virtual
    };
    proof {
        assert(jvm.heap.entries@.take(old(jvm).heap.entries@.len() as int) == old(jvm).heap.entries@);
    }
    let declaring_name: String = if opcode == 0xb6 || opcode == 0xb9 {
        match receiver {
            Some(JavaValue::Object(Some(iid))) => {
                let class_id = match jvm.heap.get_object(iid) {
                    Some(o) => o.class_id,
                    None => {
                        return Err(jvm.throw_exception("java/lang/Error", Some("invalid object reference")));
                    },
                };
                if class_id >= jvm.heap.loaded_classes.len() {
                    return Err(jvm.throw_exception("java/lang/Error", Some("invalid class id")));
                }
                jvm.get_class_name_from_id(class_id)
            },
            _ => "java/lang/Object".to_owned(),
        }
    } else {
        class_str.clone()
    };
    // Resolve and build the callee frame.
    let frame_result: Result<CallStackFrame, FrameError> = {
        let declaring_class = match jvm.classpath.get_classpath_entry(declaring_name.as_str()) {
            Some(cf) => cf,
            None => {
                return Err(
                    jvm.throw_exception(
                        "java/lang/NoClassDefFoundError",
                        Some(declaring_name.as_str()),
                    ),
                );
            },
        };
        match jvm.classpath.get_method(
            invoke_type,
            declaring_class,
            method_name.as_str(),
            method_descriptor.as_str(),
        ) {
            Some((method_class, method)) => {
                proof {
                    crate::classpath::lemma_resolve_matches(
                        jvm.classpath.class_files@,
                        *declaring_class,
                        method_name@,
                        method_descriptor@,
                        invoke_type == InvokeType::Static,
                        jvm.classpath.class_files@.len() as nat,
                    );
                }
                Jvm::create_stack_frame(method_class, method)
            },
            None => {
                let mut msg = declaring_name.clone();
                msg.append(".");
                msg.append(method_name.as_str());
                msg.append(method_descriptor.as_str());
                return Err(jvm.throw_exception("java/lang/NoSuchMethodError", Some(msg.as_str())));
            },
        }
    };
    let mut frame = match frame_result {
        Ok(f) => f,
        Err(FrameError::AbstractMethod) => {
            let mut msg = declaring_name.clone();
            msg.append(".");
            msg.append(method_name.as_str());
            return Err(jvm.throw_exception("java/lang/AbstractMethodError", Some(msg.as_str())));
        },
        Err(_) => {
            return Err(jvm.throw_exception("java/lang/Error", Some("malformed method")));
        },
    };
    // Static initializers are never an invocation target.
    if frame.container_method.as_str().unicode_len() >= 8 {
        let head = frame.container_method.as_str().substring_char(0, 8);
        if crate::strutil::str_eq(head, "<clinit>") {
            return Err(
                jvm.throw_exception("java/lang/Error", Some("static initializers cannot be invoked")),
            );
        }
    }
    proof {
        reveal_strlit("<clinit>");
        assert(!frame.is_clinit_frame());
    }
    // Deposit receiver and arguments into the callee's locals; the arguments
    // were popped in reverse.
    let mut lvt_index: usize = 0;
    if !is_static {
        let rec = match receiver {
            Some(v) => v,
            None => JavaValue::Object(None),
        };
        match super::frameops::lvt_set(&mut frame.state, 0, rec) {
            Ok(()) => {},
            Err(()) => {
                return Err(jvm.throw_exception("java/lang/Error", Some("local variable table too small")));
            },
        }
        lvt_index = 1;
    }
    let n = args.len();
    let mut k: usize = n;
    let ghost frame0 = frame;
    proof {
        if opcode == 0xb6 && !is_static && old(state).stack@.len() > args_len {
            assert(old(state).stack@.take(old(state).stack@.len() - args_len).last()
                == old(state).stack@[old(state).stack@.len() - args_len - 1]);
        }
        if opcode == 0xb6 {
            assert(invoke_virtual_target(*old(jvm), *old(state), frame0, t));
        }
    }
    while k > 0
        invariant
            k <= n,
            n == args@.len(),
            lvt_index <= usize::MAX,
            opcode == 0xb6 ==> invoke_virtual_target(*old(jvm), *old(state), frame0, t),
            jvm.wf(),
            t < old(jvm).call_stack_frames@.len(),
            jvm.call_stack_frames@ == old(jvm).call_stack_frames@,
            jvm.classpath == old(jvm).classpath,
            classes_extend(old(jvm).heap.loaded_classes@, jvm.heap.loaded_classes@),
            crate::value::stack_wf(state.stack@),
            state.stack@.len() <= max_stack,
            state.instruction_offset <= old(jvm).call_stack_frames@[t as int].instructions@.len(),
            frame.container_class == frame0.container_class,
            frame.container_method == frame0.container_method,
            frame.access_flags == frame0.access_flags,
            frame.is_native_frame == frame0.is_native_frame,
            frame.metadata == frame0.metadata,
            frame.instructions == frame0.instructions,
            frame.state.stack == frame0.state.stack,
            frame.state.instruction_offset == frame0.state.instruction_offset,
            frame.state.return_stack_value == frame0.state.return_stack_value,
        decreases k,
    {
        k = k - 1;
        let v = *args.get(k);
        if v.is_category_2_exec() {
            match super::frameops::lvt_set_wide(&mut frame.state, lvt_index, v) {
                Ok(()) => {},
                Err(()) => {
                    return Err(jvm.throw_exception("java/lang/Error", Some("local variable table too small")));
                },
            }
            if lvt_index >= usize::MAX - 2 {
                return Err(jvm.throw_exception("java/lang/Error", Some("local variable table too small")));
            }
            lvt_index = lvt_index + 2;
        } else {
            match super::frameops::lvt_set(&mut frame.state, lvt_index, v) {
                Ok(()) => {},
                Err(()) => {
                    return Err(jvm.throw_exception("java/lang/Error", Some("local variable table too small")));
                },
            }
            if lvt_index >= usize::MAX - 1 {
                return Err(jvm.throw_exception("java/lang/Error", Some("local variable table too small")));
            }
            lvt_index = lvt_index + 1;
        }
    }
    proof {
        assert(frame.wf());
        if opcode == 0xb6 {
            assert(invoke_virtual_target(*old(jvm), *old(state), frame, t));
        }
    }
    Ok(Action::PushFrame(frame))
}

} // verus!
