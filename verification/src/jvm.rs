//! The machine itself: class loading and initialization, assignability,
//! object and string creation, exception raising and unwinding, and the call
//! stack.

use vstd::prelude::*;

use crate::classfile::{
    flag_set, spec_flag_set, ClassFile, MethodInfo, FIELD_ACC_STATIC, METHOD_ACC_ABSTRACT,
    METHOD_ACC_NATIVE, METHOD_ACC_STATIC,
};
use crate::classpath::{Classpath, InvokeType};
use crate::descriptor::MethodDescriptor;
use crate::frame::{CallStackFrame, CallStackFrameState, JavaThrowable, RuntimeResult};
use crate::heap::{classes_wf, Heap, JavaClass, JavaObject};
use crate::value::{JavaValue, JavaValueVec};

verus! {

/// The whole machine: the immutable classpath, the call stack, and the heap.
#[derive(Debug)]
pub struct Jvm {
    pub classpath: Classpath,
    pub call_stack_frames: Vec<CallStackFrame>,
    pub heap: Heap,
    /// The rendered stack trace of the last exception that no frame caught.
    pub last_unhandled_trace: Option<String>,
}

/// What a `Handled` throwable means for the machine: the catch frame is on
/// top and its operand stack holds exactly the delivered reference.
pub open spec fn exception_delivered(post: Jvm, t: JavaThrowable) -> bool {
    t matches JavaThrowable::Handled(id) ==> post.call_stack_frames@.len() >= 1
        && post.call_stack_frames@.last().state.stack@ =~= seq![JavaValue::Object(Some(id))]
}

/// Every frame on the call stack is well-formed.
pub open spec fn frames_wf(frames: Seq<CallStackFrame>) -> bool {
    forall|i: int| 0 <= i < frames.len() ==> (#[trigger] frames[i]).wf()
}

/// A class's `initialized` flag is true whenever one of its static
/// initializers is on the call stack.
pub open spec fn clinit_frames_ok(frames: Seq<CallStackFrame>, classes: Seq<JavaClass>) -> bool {
    forall|i: int|
        0 <= i < frames.len() && (#[trigger] frames[i]).is_clinit_frame() ==> exists|c: int|
            0 <= c < classes.len() && (#[trigger] classes[c]).java_type@ == frames[i]
                .container_class@ && classes[c].is_initialized
}

/// The registry only ever grows, existing classes keep their identity and
/// topology, and the `initialized` flag never goes back to false.
pub open spec fn classes_extend(pre: Seq<JavaClass>, post: Seq<JavaClass>) -> bool {
    &&& post.len() >= pre.len()
    &&& forall|i: int|
        0 <= i < pre.len() ==> {
            &&& (#[trigger] post[i]).java_type@ == pre[i].java_type@
            &&& post[i].class_id == pre[i].class_id
            &&& post[i].superclass_id == pre[i].superclass_id
            &&& post[i].instance_field_template == pre[i].instance_field_template
            &&& post[i].access_flags == pre[i].access_flags
            &&& post[i].is_array_type == pre[i].is_array_type
            &&& post[i].is_primitive_type == pre[i].is_primitive_type
            &&& post[i].direct_interfaces == pre[i].direct_interfaces
            &&& post[i].static_fields@.len() == pre[i].static_fields@.len()
            &&& (pre[i].is_initialized ==> post[i].is_initialized)
        }
}

pub proof fn lemma_clinit_frames_ok_extend(
    frames: Seq<CallStackFrame>,
    pre: Seq<JavaClass>,
    post: Seq<JavaClass>,
)
    requires
        clinit_frames_ok(frames, pre),
        classes_extend(pre, post),
    ensures
        clinit_frames_ok(frames, post),
{
    assert forall|i: int|
        0 <= i < frames.len() && (#[trigger] frames[i]).is_clinit_frame() implies exists|c: int|
        0 <= c < post.len() && (#[trigger] post[c]).java_type@ == frames[i].container_class@
            && post[c].is_initialized by {
        let c = choose|c: int|
            0 <= c < pre.len() && (#[trigger] pre[c]).java_type@ == frames[i].container_class@
                && pre[c].is_initialized;
        assert(0 <= c < post.len() && post[c].java_type@ == frames[i].container_class@ && post[c]
            .is_initialized);
    }
}

/// Assignability over the loaded-class registry: walking up from the class
/// with id `id`, does some class on the superclass chain either bear the
/// name `target` or declare it among its direct interfaces? A chain that
/// runs out matches only `java/lang/Object`.
pub open spec fn interface_at(classes: Seq<JavaClass>, id: int, k: int) -> Seq<char> {
    (classes[id].direct_interfaces@[k])@
}

pub open spec fn spec_assignable(classes: Seq<JavaClass>, target: Seq<char>, id: int) -> bool
    decreases id,
    when 0 <= id < classes.len() && classes_wf(classes)
{
    if classes[id].java_type@ == target {
        true
    } else if exists|k: int|
        0 <= k < classes[id].direct_interfaces@.len() && #[trigger] interface_at(classes, id, k)
            == target {
        true
    } else {
        match classes[id].superclass_id {
            Some(s) => spec_assignable(classes, target, s as int),
            None => target == "java/lang/Object"@,
        }
    }
}

/// The nearest class on the superclass walk from `root` that declares the
/// static field `name`.
pub open spec fn spec_static_declarer(classes: Seq<JavaClass>, root: int, name: Seq<char>) -> Option<int>
    decreases root,
    when 0 <= root < classes.len() && classes_wf(classes)
{
    if crate::heap::assoc_find(classes[root].static_fields@, name) is Some {
        Some(root)
    } else {
        match classes[root].superclass_id {
            Some(s) => spec_static_declarer(classes, s as int, name),
            None => None,
        }
    }
}

/// Overwriting one static slot of the declaring class (keeping the field
/// present) does not move the nearest-declarer walk.
pub proof fn lemma_static_declarer_after_write(
    pre: Seq<JavaClass>,
    post: Seq<JavaClass>,
    root: int,
    name: Seq<char>,
    d: int,
)
    requires
        classes_wf(pre),
        classes_wf(post),
        post.len() == pre.len(),
        0 <= root < pre.len(),
        0 <= d < pre.len(),
        forall|j: int| 0 <= j < pre.len() && j != d ==> #[trigger] post[j] == pre[j],
        post[d].superclass_id == pre[d].superclass_id,
        crate::heap::assoc_find(post[d].static_fields@, name) is Some,
        spec_static_declarer(pre, root, name) == Some(d),
    ensures
        spec_static_declarer(post, root, name) == Some(d),
    decreases root,
{
    if crate::heap::assoc_find(pre[root].static_fields@, name) is Some {
    } else {
        match pre[root].superclass_id {
            Some(s) => {
                lemma_static_declarer_after_write(pre, post, s as int, name, d);
            },
            None => {},
        }
    }
}

/// The assignability approximation for array references: an array is an
/// instance of `java/lang/Object`, of the two implicit array interfaces,
/// and of any array type.
pub open spec fn array_type_assignable(target: Seq<char>) -> bool {
    target == "java/lang/Object"@ || target == "java/io/Serializable"@ || target
        == "java/lang/Cloneable"@ || (target.len() > 0 && target[0] == '[')
}

/// Instance-of reflexivity: every loaded class is assignable to its own
/// name.
pub proof fn lemma_assignable_reflexive(classes: Seq<JavaClass>, id: int)
    requires
        classes_wf(classes),
        0 <= id < classes.len(),
    ensures
        spec_assignable(classes, classes[id].java_type@, id),
{
}

/// Everything is assignable to `java/lang/Object`: the walk from any loaded
/// class either meets a class named `java/lang/Object` or runs out at the
/// root, and the root case matches exactly that name.
pub proof fn lemma_assignable_to_object(classes: Seq<JavaClass>, id: int)
    requires
        classes_wf(classes),
        0 <= id < classes.len(),
    ensures
        spec_assignable(classes, "java/lang/Object"@, id),
    decreases id,
{
    if classes[id].java_type@ != "java/lang/Object"@ {
        match classes[id].superclass_id {
            Some(s) => {
                lemma_assignable_to_object(classes, s as int);
            },
            None => {},
        }
    }
}

/// True when handler-table row `e` of `frame` catches an in-flight instance
/// of the loaded class `exception_class_id`: the frame's program counter
/// lies in the row's half-open range, the catch type is 0 (catch-all) or
/// resolves to a class assignable from the thrown one, and the handler
/// target fits the frame (its offset within the code, one stack slot
/// available for the delivered reference).
pub open spec fn spec_entry_catches(
    files: Seq<ClassFile>,
    classes: Seq<JavaClass>,
    frame: CallStackFrame,
    e: crate::classfile::ExceptionTableEntry,
    exception_class_id: int,
) -> bool {
    &&& e.start_pc <= frame.state.instruction_offset < e.end_pc
    &&& (e.catch_type == 0 || (crate::classpath::spec_find_entry(files, frame.container_class@)
        matches Some(i) && crate::util::constant_string_resolves(
        files[i].const_pool@,
        e.catch_type,
    ) && spec_assignable(
        classes,
        crate::util::spec_constant_string(files[i].const_pool@, e.catch_type),
        exception_class_id,
    )))
    &&& e.handler_pc <= frame.instructions@.len()
    &&& frame.spec_max_stack() >= 1
}

/// True when some row of `frame`'s handler table catches the exception.
pub open spec fn spec_frame_catches(
    files: Seq<ClassFile>,
    classes: Seq<JavaClass>,
    frame: CallStackFrame,
    exception_class_id: int,
) -> bool {
    frame.metadata matches Some(m) && exists|k: int|
        0 <= k < m.exception_table@.len() && spec_entry_catches(
            files,
            classes,
            frame,
            #[trigger] m.exception_table@[k],
            exception_class_id,
        )
}

impl Jvm {
    /// Machine well-formedness: the registry ordering invariant, frame
    /// well-formedness (operand-stack pairing and bounds), and the
    /// static-initializer flag invariant.
    pub open spec fn wf(self) -> bool {
        &&& classes_wf(self.heap.loaded_classes@)
        &&& frames_wf(self.call_stack_frames@)
        &&& clinit_frames_ok(self.call_stack_frames@, self.heap.loaded_classes@)
    }

    pub fn new(classpath: Classpath) -> (r: Jvm)
        ensures
            r.wf(),
            r.classpath == classpath,
            r.call_stack_frames@ == Seq::<CallStackFrame>::empty(),
            r.heap.loaded_classes@ == Seq::<JavaClass>::empty(),
            r.heap.entries@ == Seq::<crate::heap::HeapEntry>::empty(),
    {
        Jvm {
            classpath,
            call_stack_frames: Vec::new(),
            heap: Heap::new(),
            last_unhandled_trace: None,
        }
    }

    pub fn get_stack_depth(&self) -> (r: usize)
        ensures
            r == self.call_stack_frames@.len(),
    {
        self.call_stack_frames.len()
    }

    /// Pushes a frame. The frame must be well-formed, and a static
    /// initializer frame may only be pushed for a class already flagged
    /// initialized.
    pub fn push_call_stack_frame(&mut self, frame: CallStackFrame)
        requires
            old(self).wf(),
            frame.wf(),
            frame.is_clinit_frame() ==> exists|c: int|
                0 <= c < old(self).heap.loaded_classes@.len() && (#[trigger] old(self).heap.loaded_classes@[c]).java_type@ == frame.container_class@ && old(self).heap.loaded_classes@[c].is_initialized,
        ensures
            final(self).wf(),
            final(self).call_stack_frames@ == old(self).call_stack_frames@.push(frame),
            final(self).heap == old(self).heap,
            final(self).classpath == old(self).classpath,
    {
        self.call_stack_frames.push(frame);
    }

    /// The name of the loaded class with id `id`.
    pub fn get_class_name_from_id(&self, id: usize) -> (r: String)
        requires
            id < self.heap.loaded_classes@.len(),
        ensures
            r@ == self.heap.loaded_classes@[id as int].java_type@,
    {
        self.heap.loaded_classes[id].java_type.clone()
    }

    /// Whether the class named `superclass` is assignable from the loaded
    /// class with id `subclass_id`: the registry walk up the superclass
    /// chain, checking the declared name and each direct interface.
    pub fn is_assignable_from(&self, superclass: &str, subclass_id: usize) -> (r: Result<bool, ()>)
        requires
            self.wf(),
        ensures
            r matches Ok(b) ==> subclass_id < self.heap.loaded_classes@.len() && b
                == spec_assignable(self.heap.loaded_classes@, superclass@, subclass_id as int),
            r is Err ==> subclass_id >= self.heap.loaded_classes@.len(),
    {
        if subclass_id >= self.heap.loaded_classes.len() {
            return Err(());
        }
        let mut result: bool = false;
        let mut current: usize = subclass_id;
        loop
            invariant_except_break
                self.wf(),
                current < self.heap.loaded_classes@.len(),
                subclass_id < self.heap.loaded_classes@.len(),
                spec_assignable(self.heap.loaded_classes@, superclass@, subclass_id as int)
                    == spec_assignable(self.heap.loaded_classes@, superclass@, current as int),
            ensures
                result == spec_assignable(
                    self.heap.loaded_classes@,
                    superclass@,
                    subclass_id as int,
                ),
            decreases current,
        {
            let cls = &self.heap.loaded_classes[current];
            if crate::strutil::str_eq(cls.java_type.as_str(), superclass) {
                result = true;
                break ;
            }
            let n = cls.direct_interfaces.len();
            let mut k: usize = 0;
            let mut found: bool = false;
            while k < n
                invariant
                    k <= n,
                    current < self.heap.loaded_classes@.len(),
                    *cls == self.heap.loaded_classes@[current as int],
                    n == cls.direct_interfaces@.len(),
                    found == exists|j: int|
                        0 <= j < k && #[trigger] interface_at(
                            self.heap.loaded_classes@,
                            current as int,
                            j,
                        ) == superclass@,
                decreases n - k,
            {
                proof {
                    assert(interface_at(self.heap.loaded_classes@, current as int, k as int) == (
                    cls.direct_interfaces@[k as int])@);
                }
                if crate::strutil::str_eq(cls.direct_interfaces[k].as_str(), superclass) {
                    found = true;
                }
                k = k + 1;
            }
            if found {
                result = true;
                break ;
            }
            match cls.superclass_id {
                Some(s) => {
                    current = s;
                },
                None => {
                    result = crate::strutil::str_eq(superclass, "java/lang/Object");
                    break ;
                },
            }
        }
        Ok(result)
    }
    /// Renders the live frames as a stack trace, innermost frame first.
    pub fn render_stack_trace(&self) -> (r: String) {
        let mut trace = String::new();
        let n = self.call_stack_frames.len();
        let mut i: usize = 0;
        while i < n
            invariant
                i <= n,
                n == self.call_stack_frames@.len(),
            decreases n - i,
        {
            let frame = &self.call_stack_frames[n - 1 - i];
            trace.append("    at ");
            trace.append(frame.container_class.as_str());
            trace.append(".");
            trace.append(frame.container_method.as_str());
            if frame.is_native_frame {
                trace.append(":<native method>\n");
            } else {
                trace.append(":<unknown source>\n");
            }
            i = i + 1;
        }
        trace
    }

    /// Unwinds the thrown object `exception_id` (an instance of the loaded
    /// class `exception_class_id`) against the live frames' handler tables,
    /// innermost first. On a match the frame's program counter moves to the
    /// handler, its operand stack is cleared and the thrown reference is
    /// pushed; unmatched frames are popped, and the bottom frame is never
    /// popped.
    pub fn unwind(&mut self, exception_id: usize, exception_class_id: usize) -> (r: JavaThrowable)
        requires
            old(self).wf(),
            exception_class_id < old(self).heap.loaded_classes@.len(),
        ensures
            final(self).wf(),
            final(self).heap == old(self).heap,
            final(self).classpath == old(self).classpath,
            r matches JavaThrowable::Handled(id) ==> id == exception_id && final(self).call_stack_frames@.len() >= 1 && final(self).call_stack_frames@.last().state.stack@
                =~= seq![JavaValue::Object(Some(exception_id))],
            r matches JavaThrowable::Unhandled(id) ==> id == exception_id,
            // An exception goes unhandled exactly when no live frame above
            // the bottom one has a covering handler; otherwise the nearest
            // (innermost) catching frame stays, the frames above it are
            // popped, and its program counter moves to a catching row's
            // handler offset.
            r matches JavaThrowable::Unhandled(id) ==> forall|j: int|
                1 <= j < old(self).call_stack_frames@.len() ==> !spec_frame_catches(
                    old(self).classpath.class_files@,
                    old(self).heap.loaded_classes@,
                    #[trigger] old(self).call_stack_frames@[j],
                    exception_class_id as int,
                ),
            r matches JavaThrowable::Handled(id) ==> ({
                let n = final(self).call_stack_frames@.len();
                let caught_frame = old(self).call_stack_frames@[n - 1];
                &&& n <= old(self).call_stack_frames@.len()
                &&& (forall|j: int|
                    0 <= j < n - 1 ==> #[trigger] final(self).call_stack_frames@[j] == old(self).call_stack_frames@[j])
                &&& (forall|j: int|
                    n <= j < old(self).call_stack_frames@.len() ==> !spec_frame_catches(
                        old(self).classpath.class_files@,
                        old(self).heap.loaded_classes@,
                        #[trigger] old(self).call_stack_frames@[j],
                        exception_class_id as int,
                    ))
                &&& spec_frame_catches(
                    old(self).classpath.class_files@,
                    old(self).heap.loaded_classes@,
                    caught_frame,
                    exception_class_id as int,
                )
                &&& (caught_frame.metadata matches Some(m) && exists|k: int|
                    0 <= k < m.exception_table@.len() && spec_entry_catches(
                        old(self).classpath.class_files@,
                        old(self).heap.loaded_classes@,
                        caught_frame,
                        #[trigger] m.exception_table@[k],
                        exception_class_id as int,
                    ) && final(self).call_stack_frames@[n - 1].state.instruction_offset
                        == m.exception_table@[k].handler_pc)
                &&& final(self).call_stack_frames@[n - 1].container_class
                    == caught_frame.container_class
                &&& final(self).call_stack_frames@[n - 1].container_method
                    == caught_frame.container_method
                &&& final(self).call_stack_frames@[n - 1].instructions == caught_frame.instructions
            }),
    {
        let ghost frames0 = self.call_stack_frames@;
        let mut caught: Option<usize> = None;
        proof {
            assert(frames0.take(frames0.len() as int) =~= frames0);
        }
        loop
            invariant_except_break
                self.wf(),
                self.heap == old(self).heap,
                self.classpath == old(self).classpath,
                exception_class_id < self.heap.loaded_classes@.len(),
                frames0 == old(self).call_stack_frames@,
                self.call_stack_frames@.len() <= frames0.len(),
                self.call_stack_frames@ == frames0.take(self.call_stack_frames@.len() as int),
                forall|j: int|
                    self.call_stack_frames@.len() <= j < frames0.len() ==> !spec_frame_catches(
                        old(self).classpath.class_files@,
                        old(self).heap.loaded_classes@,
                        #[trigger] frames0[j],
                        exception_class_id as int,
                    ),
            ensures
                self.wf(),
                self.heap == old(self).heap,
                self.classpath == old(self).classpath,
                caught matches Some(id) ==> id == exception_id && self.call_stack_frames@.len() >= 1
                    && self.call_stack_frames@.last().state.stack@ =~= seq![
                    JavaValue::Object(Some(exception_id)),
                ],
                caught is None ==> forall|j: int|
                    1 <= j < frames0.len() ==> !spec_frame_catches(
                        old(self).classpath.class_files@,
                        old(self).heap.loaded_classes@,
                        #[trigger] frames0[j],
                        exception_class_id as int,
                    ),
                caught is Some ==> ({
                    let n = self.call_stack_frames@.len();
                    let caught_frame = frames0[n - 1];
                    &&& n <= frames0.len()
                    &&& (forall|j: int|
                        0 <= j < n - 1 ==> #[trigger] self.call_stack_frames@[j] == frames0[j])
                    &&& (forall|j: int|
                        n <= j < frames0.len() ==> !spec_frame_catches(
                            old(self).classpath.class_files@,
                            old(self).heap.loaded_classes@,
                            #[trigger] frames0[j],
                            exception_class_id as int,
                        ))
                    &&& spec_frame_catches(
                        old(self).classpath.class_files@,
                        old(self).heap.loaded_classes@,
                        caught_frame,
                        exception_class_id as int,
                    )
                    &&& (caught_frame.metadata matches Some(m) && exists|k: int|
                        0 <= k < m.exception_table@.len() && spec_entry_catches(
                            old(self).classpath.class_files@,
                            old(self).heap.loaded_classes@,
                            caught_frame,
                            #[trigger] m.exception_table@[k],
                            exception_class_id as int,
                        ) && self.call_stack_frames@[n - 1].state.instruction_offset
                            == m.exception_table@[k].handler_pc)
                    &&& self.call_stack_frames@[n - 1].container_class
                        == caught_frame.container_class
                    &&& self.call_stack_frames@[n - 1].container_method
                        == caught_frame.container_method
                    &&& self.call_stack_frames@[n - 1].instructions == caught_frame.instructions
                }),
            decreases self.call_stack_frames@.len(),
        {
            if self.call_stack_frames.len() <= 1 {
                caught = None;
                break ;
            }
            let t = self.call_stack_frames.len() - 1;
            let matched: Option<u16> = self.find_handler(t, exception_class_id);
            match matched {
                Some(handler_pc) => {
                    proof {
                        assert(self.call_stack_frames@[t as int] == frames0[t as int]);
                    }
                    let mut stack = JavaValueVec::with_capacity(1);
                    stack.push(JavaValue::Object(Some(exception_id)));
                    self.call_stack_frames[t].state.stack = stack;
                    self.call_stack_frames[t].state.instruction_offset = handler_pc as usize;
                    caught = Some(exception_id);
                    break ;
                },
                None => {
                    proof {
                        assert(self.call_stack_frames@[t as int] == frames0[t as int]);
                    }
                    self.call_stack_frames.pop();
                    proof {
                        assert(self.call_stack_frames@ =~= frames0.take(
                            self.call_stack_frames@.len() as int,
                        ));
                    }
                },
            }
        }
        match caught {
            Some(id) => JavaThrowable::Handled(id),
            None => JavaThrowable::Unhandled(exception_id),
        }
    }

    /// Scans frame `t`'s handler table for an entry covering the frame's
    /// program counter whose catch type is 0 or assignable from the thrown
    /// class, and whose handler target fits the frame. Returns its
    /// handler offset.
    fn find_handler(&self, t: usize, exception_class_id: usize) -> (r: Option<u16>)
        requires
            self.wf(),
            t < self.call_stack_frames@.len(),
            exception_class_id < self.heap.loaded_classes@.len(),
        ensures
            r matches Some(h) ==> {
                let frame = self.call_stack_frames@[t as int];
                &&& spec_frame_catches(
                    self.classpath.class_files@,
                    self.heap.loaded_classes@,
                    frame,
                    exception_class_id as int,
                )
                &&& (frame.metadata matches Some(m) && exists|k: int|
                    0 <= k < m.exception_table@.len() && spec_entry_catches(
                        self.classpath.class_files@,
                        self.heap.loaded_classes@,
                        frame,
                        #[trigger] m.exception_table@[k],
                        exception_class_id as int,
                    ) && h == m.exception_table@[k].handler_pc)
                &&& h as int <= frame.instructions@.len()
                &&& frame.spec_max_stack() >= 1
            },
            r is None ==> !spec_frame_catches(
                self.classpath.class_files@,
                self.heap.loaded_classes@,
                self.call_stack_frames@[t as int],
                exception_class_id as int,
            ),
    {
        let frame = &self.call_stack_frames[t];
        let meta = match &frame.metadata {
            Some(m) => m,
            None => {
                return None;
            },
        };
        let pc = frame.state.instruction_offset;
        let n = meta.exception_table.len();
        let mut k: usize = 0;
        while k < n
            invariant
                k <= n,
                self.wf(),
                t < self.call_stack_frames@.len(),
                exception_class_id < self.heap.loaded_classes@.len(),
                *frame == self.call_stack_frames@[t as int],
                frame.metadata matches Some(m) && *meta == m,
                n == meta.exception_table@.len(),
                pc == frame.state.instruction_offset,
                forall|j: int|
                    0 <= j < k ==> !spec_entry_catches(
                        self.classpath.class_files@,
                        self.heap.loaded_classes@,
                        self.call_stack_frames@[t as int],
                        #[trigger] meta.exception_table@[j],
                        exception_class_id as int,
                    ),
            decreases n - k,
        {
            let entry = &meta.exception_table[k];
            if pc >= entry.start_pc as usize && pc < entry.end_pc as usize {
                let applies: bool = if entry.catch_type == 0 {
                    true
                } else {
                    match self.classpath.get_classpath_entry(frame.container_class.as_str()) {
                        Some(cf) => {
                            match crate::util::try_get_constant_string(
                                &cf.const_pool,
                                entry.catch_type,
                            ) {
                                Some(catch_name) => {
                                    match self.is_assignable_from(
                                        catch_name.as_str(),
                                        exception_class_id,
                                    ) {
                                        Ok(b) => b,
                                        Err(()) => false,
                                    }
                                },
                                None => false,
                            }
                        },
                        None => false,
                    }
                };
                if applies && entry.handler_pc as usize <= frame.instructions.len()
                    && meta.max_stack >= 1 {
                    return Some(entry.handler_pc);
                }
            }
            proof {
                assert(!spec_entry_catches(
                    self.classpath.class_files@,
                    self.heap.loaded_classes@,
                    self.call_stack_frames@[t as int],
                    meta.exception_table@[k as int],
                    exception_class_id as int,
                ));
            }
            k = k + 1;
        }
        None
    }
}

/// Why a frame could not be built.
#[derive(Debug, Clone, Copy, PartialEq, Eq, Structural)]
pub enum FrameError {
    /// A pool string (class name, method name or descriptor) did not resolve.
    UnresolvedName,
    /// The method is abstract and has no code.
    AbstractMethod,
    /// The method descriptor is malformed.
    BadDescriptor,
    /// A non-native, non-abstract method has no usable `Code` attribute.
    MissingCode,
}

/// Why a class could not be loaded or initialized. `ensure_class_loaded`
/// turns these into raised Java exceptions.
#[derive(Debug)]
pub enum LoadFailure {
    /// No class of this name is on the classpath.
    NoClassDef(String),
    /// A malformed class file, descriptor or frame, or a superclass chain
    /// that never bottoms out.
    Internal(String),
}

/// The name a class registers under: the canonical human name for the eight
/// single-letter primitive sigils, the name itself otherwise.
pub open spec fn canonical_class_name(name: Seq<char>) -> Seq<char> {
    if name == "B"@ {
        "byte"@
    } else if name == "S"@ {
        "short"@
    } else if name == "I"@ {
        "int"@
    } else if name == "J"@ {
        "long"@
    } else if name == "F"@ {
        "float"@
    } else if name == "D"@ {
        "double"@
    } else if name == "C"@ {
        "char"@
    } else if name == "Z"@ {
        "boolean"@
    } else {
        name
    }
}

/// Frames are only added on top; the existing frames are untouched.
pub open spec fn frames_extended(pre: Seq<CallStackFrame>, post: Seq<CallStackFrame>) -> bool {
    &&& post.len() >= pre.len()
    &&& post.take(pre.len() as int) == pre
}

/// What a successful `load` guarantees, relating the machine before and
/// after: the returned id names the requested class; the registry only grew;
/// if initialization was requested the flag is set; frames were only added
/// (static initializers to run); and a load of an already-loaded,
/// already-initialized class changes nothing at all.
pub open spec fn load_ok_post(pre: Jvm, name: Seq<char>, initialize: bool, post: Jvm, id: int) -> bool {
    &&& 0 <= id < post.heap.loaded_classes@.len()
    &&& post.heap.loaded_classes@[id].java_type@ == canonical_class_name(name)
    &&& Heap::spec_find_class(post.heap.loaded_classes@, canonical_class_name(name)) == Some(id)
    &&& (initialize ==> post.heap.loaded_classes@[id].is_initialized)
    &&& classes_extend(pre.heap.loaded_classes@, post.heap.loaded_classes@)
    &&& post.classpath == pre.classpath
    &&& frames_extended(pre.call_stack_frames@, post.call_stack_frames@)
    &&& (!initialize ==> post.call_stack_frames@ == pre.call_stack_frames@)
    &&& (Heap::spec_find_class(pre.heap.loaded_classes@, canonical_class_name(name)) matches Some(
        pid,
    ) ==> ((initialize ==> pre.heap.loaded_classes@[pid].is_initialized) ==> post == pre && id
        == pid))
    // a freshly loaded primitive pseudo-class: flagged primitive, born
    // initialized, bare of members
    &&& ((Heap::spec_find_class(pre.heap.loaded_classes@, canonical_class_name(name)) is None
        && name.len() == 1 && (name[0] == 'B' || name[0] == 'S' || name[0] == 'I' || name[0] == 'J'
        || name[0] == 'F' || name[0] == 'D' || name[0] == 'C' || name[0] == 'Z')) ==> ({
        let c = post.heap.loaded_classes@[id];
        &&& c.is_primitive_type
        &&& !c.is_array_type
        &&& c.is_initialized
        &&& c.superclass_id is None
        &&& c.direct_interfaces@.len() == 0
        &&& c.static_fields@.len() == 0
        &&& c.instance_field_template@.len() == 0
    }))
    // a freshly loaded array pseudo-class: flagged array, born initialized,
    // no superclass entry, implicitly serializable and cloneable
    &&& ((Heap::spec_find_class(pre.heap.loaded_classes@, canonical_class_name(name)) is None
        && name.len() > 0 && name[0] == '[') ==> ({
        let c = post.heap.loaded_classes@[id];
        &&& c.is_array_type
        &&& !c.is_primitive_type
        &&& c.is_initialized
        &&& c.superclass_id is None
        &&& c.direct_interfaces@.len() == 2
        &&& c.direct_interfaces@[0]@ == "java/io/Serializable"@
        &&& c.direct_interfaces@[1]@ == "java/lang/Cloneable"@
        &&& c.static_fields@.len() == 0
    }))
}

/// Idempotence of class loading: loading the same name twice (with
/// initialization) yields the same class id, and the second load changes
/// nothing -- in particular it pushes no static-initializer frame, so
/// `<clinit>` cannot run again.
pub proof fn lemma_load_idempotent(
    s0: Jvm,
    s1: Jvm,
    s2: Jvm,
    name: Seq<char>,
    id1: int,
    id2: int,
)
    requires
        load_ok_post(s0, name, true, s1, id1),
        load_ok_post(s1, name, true, s2, id2),
    ensures
        id2 == id1,
        s2 == s1,
{
}

impl Jvm {
    /// Builds a frame for one method: native frames get an argument-sized
    /// local table and no code; bytecode frames get the `Code` attribute's
    /// bytecode, `max_locals` unset locals and an empty operand stack.
    pub fn create_stack_frame(cls: &ClassFile, method: &MethodInfo) -> (r: Result<
        CallStackFrame,
        FrameError,
    >)
        ensures
            r matches Ok(f) ==> {
                &&& f.wf()
                &&& crate::classpath::classfile_name_resolves(*cls)
                &&& f.container_class@ == crate::classpath::spec_classfile_name(*cls)
                &&& crate::util::constant_string_resolves(cls.const_pool@, method.name_index)
                &&& f.container_method@ == crate::util::spec_constant_string(
                    cls.const_pool@,
                    method.name_index,
                ) + crate::util::spec_constant_string(cls.const_pool@, method.descriptor_index)
                &&& f.access_flags == method.access_flags
                &&& f.is_native_frame == spec_flag_set(method.access_flags, METHOD_ACC_NATIVE)
                &&& f.state.stack@ == Seq::<JavaValue>::empty()
                &&& f.state.return_stack_value is None
                &&& f.state.instruction_offset == 0
                &&& (!f.is_native_frame ==> f.metadata is Some)
                &&& (f.metadata matches Some(c) ==> f.instructions@ == c.code@)
                &&& (f.is_native_frame ==> f.metadata is None)
            },
            // AbstractMethodError's cause, both ways: a resolvable, non-native
            // abstract method has no code to frame.
            r == Err::<CallStackFrame, FrameError>(FrameError::AbstractMethod) ==> spec_flag_set(
                method.access_flags,
                METHOD_ACC_ABSTRACT,
            ) && !spec_flag_set(method.access_flags, METHOD_ACC_NATIVE),
            (crate::classpath::classfile_name_resolves(*cls) && crate::util::constant_string_resolves(
                cls.const_pool@,
                method.name_index,
            ) && crate::util::constant_string_resolves(cls.const_pool@, method.descriptor_index)
                && !spec_flag_set(method.access_flags, METHOD_ACC_NATIVE) && spec_flag_set(
                method.access_flags,
                METHOD_ACC_ABSTRACT,
            )) ==> r == Err::<CallStackFrame, FrameError>(FrameError::AbstractMethod),
            // A name failure is exactly an unresolvable pool string.
            r == Err::<CallStackFrame, FrameError>(FrameError::UnresolvedName) <==> !(
            crate::classpath::classfile_name_resolves(*cls) && crate::util::constant_string_resolves(
                cls.const_pool@,
                method.name_index,
            ) && crate::util::constant_string_resolves(cls.const_pool@, method.descriptor_index)),
    {
        let container_class = match crate::util::try_get_constant_string(
            &cls.const_pool,
            cls.this_class,
        ) {
            Some(s) => s.clone(),
            None => {
                return Err(FrameError::UnresolvedName);
            },
        };
        let method_name = match crate::util::try_get_constant_string(
            &cls.const_pool,
            method.name_index,
        ) {
            Some(s) => s.clone(),
            None => {
                return Err(FrameError::UnresolvedName);
            },
        };
        let method_descriptor = match crate::util::try_get_constant_string(
            &cls.const_pool,
            method.descriptor_index,
        ) {
            Some(s) => s,
            None => {
                return Err(FrameError::UnresolvedName);
            },
        };
        let container_method = method_name.concat(method_descriptor.as_str());
        if flag_set(method.access_flags, METHOD_ACC_NATIVE) {
            let md = match MethodDescriptor::new(method_descriptor.as_str()) {
                Ok(md) => md,
                Err(()) => {
                    return Err(FrameError::BadDescriptor);
                },
            };
            let arg_slots = match md.arg_slots() {
                Ok(n) => n,
                Err(()) => {
                    return Err(FrameError::BadDescriptor);
                },
            };
            if arg_slots >= usize::MAX {
                return Err(FrameError::BadDescriptor);
            }
            let lvt_len: usize = if flag_set(method.access_flags, METHOD_ACC_STATIC) {
                arg_slots
            } else {
                arg_slots + 1
            };
            return Ok(
                CallStackFrame {
                    container_class,
                    container_method,
                    access_flags: method.access_flags,
                    is_native_frame: true,
                    metadata: None,
                    instructions: Vec::new(),
                    state: CallStackFrameState {
                        line_number: 0,
                        instruction_offset: 0,
                        stack: JavaValueVec::new(),
                        lvt: Self::unset_locals(lvt_len),
                        return_stack_value: None,
                    },
                },
            );
        }
        if flag_set(method.access_flags, METHOD_ACC_ABSTRACT) {
            return Err(FrameError::AbstractMethod);
        }
        let code_info = match Self::find_code_attribute(cls, method) {
            Some(a) => a,
            None => {
                return Err(FrameError::MissingCode);
            },
        };
        let code_attribute = match crate::parser::code_attribute_parser(code_info.info.as_slice()) {
            Ok(c) => c,
            Err(_) => {
                return Err(FrameError::MissingCode);
            },
        };
        let instructions = crate::parser::copy_bytes(&code_attribute.code);
        let max_locals = code_attribute.max_locals as usize;
        Ok(
            CallStackFrame {
                container_class,
                container_method,
                access_flags: method.access_flags,
                is_native_frame: false,
                metadata: Some(code_attribute),
                instructions,
                state: CallStackFrameState {
                    line_number: 0,
                    instruction_offset: 0,
                    stack: JavaValueVec::new(),
                    lvt: Self::unset_locals(max_locals),
                    return_stack_value: None,
                },
            },
        )
    }

    /// A fresh local-variable table of `n` unset slots.
    fn unset_locals(n: usize) -> (r: JavaValueVec)
        ensures
            r@.len() == n,
            forall|i: int| 0 <= i < n ==> r@[i] == JavaValue::spec_unset(),
    {
        let mut lvt = JavaValueVec::with_capacity(n);
        let mut i: usize = 0;
        while i < n
            invariant
                i <= n,
                lvt@.len() == i,
                forall|j: int| 0 <= j < i ==> lvt@[j] == JavaValue::spec_unset(),
            decreases n - i,
        {
            lvt.push_exact(JavaValue::unset());
            i = i + 1;
        }
        lvt
    }

    /// The first attribute of `method` whose name is `Code`.
    fn find_code_attribute<'a>(cls: &ClassFile, method: &'a MethodInfo) -> (r: Option<
        &'a crate::classfile::AttributeInfo,
    >)
        ensures
            r matches Some(a) ==> crate::util::constant_string_resolves(
                cls.const_pool@,
                a.attribute_name_index,
            ) && crate::util::spec_constant_string(cls.const_pool@, a.attribute_name_index)
                == "Code"@,
    {
        let n = method.attributes.len();
        let mut i: usize = 0;
        while i < n
            invariant
                i <= n,
                n == method.attributes@.len(),
            decreases n - i,
        {
            let a = &method.attributes[i];
            match crate::util::try_get_constant_string(&cls.const_pool, a.attribute_name_index) {
                Some(name) => {
                    if crate::strutil::str_eq(name.as_str(), "Code") {
                        return Some(a);
                    }
                },
                None => {},
            }
            i = i + 1;
        }
        None
    }
}

impl Jvm {
    /// Appends a freshly built class entry to the registry and returns its
    /// id. The name must not be registered yet, and the superclass (if any)
    /// must already be registered.
    fn register_class(
        &mut self,
        java_type: String,
        access_flags: u16,
        superclass_id: Option<usize>,
        direct_interfaces: Vec<String>,
        is_array_type: bool,
        is_primitive_type: bool,
        static_fields: Vec<(String, JavaValue)>,
        is_initialized: bool,
        instance_field_template: Vec<(String, JavaValue)>,
    ) -> (id: usize)
        requires
            old(self).wf(),
            superclass_id matches Some(s) ==> s < old(self).heap.loaded_classes@.len(),
            Heap::spec_find_class(old(self).heap.loaded_classes@, java_type@) is None,
        ensures
            final(self).wf(),
            id == old(self).heap.loaded_classes@.len(),
            final(self).heap.loaded_classes@.len() == id + 1,
            final(self).heap.loaded_classes@[id as int].java_type@ == java_type@,
            final(self).heap.loaded_classes@[id as int].is_initialized == is_initialized,
            final(self).heap.loaded_classes@[id as int].superclass_id == superclass_id,
            final(self).heap.loaded_classes@[id as int].access_flags == access_flags,
            final(self).heap.loaded_classes@[id as int].is_array_type == is_array_type,
            final(self).heap.loaded_classes@[id as int].is_primitive_type == is_primitive_type,
            final(self).heap.loaded_classes@[id as int].direct_interfaces == direct_interfaces,
            final(self).heap.loaded_classes@[id as int].static_fields == static_fields,
            final(self).heap.loaded_classes@[id as int].instance_field_template
                == instance_field_template,
            final(self).heap.loaded_classes@[id as int].class_id == id,
            Heap::spec_find_class(final(self).heap.loaded_classes@, java_type@) == Some(id as int),
            forall|m: Seq<char>|
                m != java_type@ ==> #[trigger] Heap::spec_find_class(
                    final(self).heap.loaded_classes@,
                    m,
                ) == Heap::spec_find_class(old(self).heap.loaded_classes@, m),
            classes_extend(old(self).heap.loaded_classes@, final(self).heap.loaded_classes@),
            final(self).call_stack_frames == old(self).call_stack_frames,
            final(self).classpath == old(self).classpath,
            final(self).heap.entries == old(self).heap.entries,
            final(self).heap.interned_strings == old(self).heap.interned_strings,
    {
        let id = self.heap.loaded_classes.len();
        let entry = JavaClass {
            java_type,
            access_flags,
            class_id: id,
            superclass_id,
            direct_interfaces,
            is_array_type,
            is_primitive_type,
            static_fields,
            class_object_id: 0,
            is_initialized,
            instance_field_template,
        };
        proof {
            crate::heap::lemma_find_class_push(self.heap.loaded_classes@, entry);
        }
        self.heap.loaded_classes.push(entry);
        proof {
            lemma_clinit_frames_ok_extend(
                self.call_stack_frames@,
                old(self).heap.loaded_classes@,
                self.heap.loaded_classes@,
            );
        }
        id
    }

    /// Initializes the loaded class `class_id`: sets its `initialized` flag,
    /// pushes its `<clinit>` frame (if it has one), and then does the same
    /// up the superclass chain, so that the outermost superclass's
    /// initializer runs first. Already-initialized classes (and array and
    /// primitive pseudo-classes, which are born initialized) are left
    /// untouched.
    fn initialize_class_quiet(&mut self, class_id: usize) -> (r: Result<(), LoadFailure>)
        requires
            old(self).wf(),
            class_id < old(self).heap.loaded_classes@.len(),
        ensures
            final(self).wf(),
            final(self).heap.loaded_classes@.len() == old(self).heap.loaded_classes@.len(),
            classes_extend(old(self).heap.loaded_classes@, final(self).heap.loaded_classes@),
            frames_extended(old(self).call_stack_frames@, final(self).call_stack_frames@),
            final(self).classpath == old(self).classpath,
            final(self).heap.entries == old(self).heap.entries,
            final(self).heap.interned_strings == old(self).heap.interned_strings,
            r is Ok ==> final(self).heap.loaded_classes@[class_id as int].is_initialized,
            old(self).heap.loaded_classes@[class_id as int].is_initialized ==> *final(self) == *old(self) && r is Ok,
            // Only static-initializer frames are queued, and when this class
            // declares one it is queued first (deepest), so the superclass
            // initializers stacked above it run before it.
            forall|j: int|
                old(self).call_stack_frames@.len() <= j < final(self).call_stack_frames@.len()
                    ==> (#[trigger] final(self).call_stack_frames@[j]).is_clinit_frame(),
            r is Ok && !old(self).heap.loaded_classes@[class_id as int].is_initialized ==> (
            crate::classpath::spec_find_entry(
                old(self).classpath.class_files@,
                old(self).heap.loaded_classes@[class_id as int].java_type@,
            ) matches Some(fi) ==> (crate::classpath::spec_find_method(
                old(self).classpath.class_files@[fi].methods@,
                old(self).classpath.class_files@[fi],
                "<clinit>"@,
                "()V"@,
                true,
            ) is Some ==> (final(self).call_stack_frames@.len() > old(self).call_stack_frames@.len() && final(self).call_stack_frames@[old(self).call_stack_frames@.len() as int].container_class@ == old(self).heap.loaded_classes@[class_id as int].java_type@))),
        decreases class_id,
    {
        proof {
            lemma_frames_extended_refl(old(self).call_stack_frames@);
        }
        if self.heap.loaded_classes[class_id].is_initialized {
            return Ok(());
        }
        let name = self.heap.loaded_classes[class_id].java_type.clone();
        // Build the <clinit> frame, if the class declares one, before any
        // mutation.
        let frame: Option<CallStackFrame> = {
            let cf = match self.classpath.get_classpath_entry(name.as_str()) {
                Some(cf) => cf,
                None => {
                    return Err(LoadFailure::NoClassDef(name));
                },
            };
            proof {
                crate::classpath::lemma_find_entry_matches(self.classpath.class_files@, name@);
            }
            // A static initializer belongs to its class alone: the lookup
            // does not walk the superclass chain.
            match Classpath::find_method_in(cf, "<clinit>", "()V", true) {
                Some(m) => {
                    match Jvm::create_stack_frame(cf, m) {
                        Ok(f) => {
                            proof {
                                crate::classpath::lemma_find_method_matches(
                                    cf.methods@,
                                    *cf,
                                    "<clinit>"@,
                                    "()V"@,
                                    true,
                                );
                                assert(f.container_class@ == name@);
                                assert(f.container_method@ =~= "<clinit>"@ + "()V"@);
                            }
                            Some(f)
                        },
                        Err(_) => {
                            return Err(LoadFailure::Internal(name));
                        },
                    }
                },
                None => None,
            }
        };
        // Flag first, to guard against re-entrant initialization, then push
        // the initializer frame.
        self.heap.loaded_classes[class_id].is_initialized = true;
        proof {
            lemma_clinit_frames_ok_extend(
                self.call_stack_frames@,
                old(self).heap.loaded_classes@,
                self.heap.loaded_classes@,
            );
        }
        match frame {
            Some(f) => {
                proof {
                    reveal_strlit("<clinit>");
                    reveal_strlit("()V");
                    assert(f.container_method@.len() >= 8);
                    assert(f.container_method@.subrange(0, 8) =~= "<clinit>"@);
                    assert(f.is_clinit_frame());
                    assert(self.heap.loaded_classes@[class_id as int].java_type@
                        == f.container_class@);
                }
                self.push_call_stack_frame(f);
            },
            None => {},
        }
        let ghost frames_mid = self.call_stack_frames@;
        proof {
            assert(frames_mid.take(old(self).call_stack_frames@.len() as int) =~= old(self).call_stack_frames@);
        }
        // The superclass's initializer is pushed above, so it runs first.
        let superclass_id = self.heap.loaded_classes[class_id].superclass_id;
        let r = match superclass_id {
            Some(s) => self.initialize_class_quiet(s),
            None => Ok(()),
        };
        proof {
            lemma_frames_extended_refl(frames_mid);
            lemma_frames_extended_trans(
                old(self).call_stack_frames@,
                frames_mid,
                self.call_stack_frames@,
            );
            assert(self.call_stack_frames@.take(frames_mid.len() as int) == frames_mid);
            assert forall|j: int|
                old(self).call_stack_frames@.len() <= j
                    < self.call_stack_frames@.len() implies (#[trigger] self.call_stack_frames@[j]).is_clinit_frame() by {
                if j < frames_mid.len() {
                    assert(self.call_stack_frames@[j] == self.call_stack_frames@.take(
                        frames_mid.len() as int,
                    )[j]);
                }
            }
            if frames_mid.len() > old(self).call_stack_frames@.len() {
                let ghost base = old(self).call_stack_frames@.len() as int;
                assert(self.call_stack_frames@[base] == self.call_stack_frames@.take(
                    frames_mid.len() as int,
                )[base]);
            }
        }
        r
    }

    /// Initializes the loaded class `class_id`, raising `NoClassDefError`
    /// when its class file has gone missing.
    pub fn initialize_class(&mut self, class_id: usize) -> (r: RuntimeResult<()>)
        requires
            old(self).wf(),
            class_id < old(self).heap.loaded_classes@.len(),
        ensures
            final(self).wf(),
            final(self).classpath == old(self).classpath,
            classes_extend(old(self).heap.loaded_classes@, final(self).heap.loaded_classes@),
            r is Ok ==> final(self).heap.loaded_classes@[class_id as int].is_initialized
                && frames_extended(old(self).call_stack_frames@, final(self).call_stack_frames@),
            // An already-initialized class is a no-op success.
            old(self).heap.loaded_classes@[class_id as int].is_initialized ==> r == Ok::<
                (),
                JavaThrowable,
            >(()) && *final(self) == *old(self),
            // Only static-initializer frames are queued; when this class
            // declares one it sits deepest, so the superclass initializers
            // queued above it run first.
            r is Ok ==> forall|j: int|
                old(self).call_stack_frames@.len() <= j < final(self).call_stack_frames@.len()
                    ==> (#[trigger] final(self).call_stack_frames@[j]).is_clinit_frame(),
            r is Ok && !old(self).heap.loaded_classes@[class_id as int].is_initialized ==> (
            crate::classpath::spec_find_entry(
                old(self).classpath.class_files@,
                old(self).heap.loaded_classes@[class_id as int].java_type@,
            ) matches Some(fi) ==> (crate::classpath::spec_find_method(
                old(self).classpath.class_files@[fi].methods@,
                old(self).classpath.class_files@[fi],
                "<clinit>"@,
                "()V"@,
                true,
            ) is Some ==> (final(self).call_stack_frames@.len() > old(self).call_stack_frames@.len() && final(self).call_stack_frames@[old(self).call_stack_frames@.len() as int].container_class@ == old(self).heap.loaded_classes@[class_id as int].java_type@))),
            r matches Err(t) ==> exception_delivered(*final(self), t),
    {
        match self.initialize_class_quiet(class_id) {
            Ok(()) => Ok(()),
            Err(e) => Err(self.throw_load_failure(e)),
        }
    }

    /// Raises the Java error corresponding to a load failure.
    fn throw_load_failure(&mut self, e: LoadFailure) -> (r: JavaThrowable)
        requires
            old(self).wf(),
        ensures
            final(self).wf(),
            final(self).classpath == old(self).classpath,
            classes_extend(old(self).heap.loaded_classes@, final(self).heap.loaded_classes@),
            exception_delivered(*final(self), r),
    {
        match e {
            LoadFailure::NoClassDef(name) => self.throw_exception(
                "java/lang/NoClassDefError",
                Some(name.as_str()),
            ),
            LoadFailure::Internal(name) => self.throw_exception(
                "java/lang/Error",
                Some(name.as_str()),
            ),
        }
    }
}

/// The heap arena only grows: ids handed out stay valid and their entries
/// keep their values (in-place field updates are stated separately by the
/// functions that make them).
pub open spec fn entries_prefix(
    pre: Seq<crate::heap::HeapEntry>,
    post: Seq<crate::heap::HeapEntry>,
) -> bool {
    &&& post.len() >= pre.len()
    &&& post.take(pre.len() as int) == pre
}

pub proof fn lemma_entries_prefix_refl(entries: Seq<crate::heap::HeapEntry>)
    ensures
        entries_prefix(entries, entries),
{
    assert(entries.take(entries.len() as int) =~= entries);
}

pub proof fn lemma_entries_prefix_trans(
    a: Seq<crate::heap::HeapEntry>,
    b: Seq<crate::heap::HeapEntry>,
    c: Seq<crate::heap::HeapEntry>,
)
    requires
        entries_prefix(a, b),
        entries_prefix(b, c),
    ensures
        entries_prefix(a, c),
{
    assert(c.take(a.len() as int) =~= c.take(b.len() as int).take(a.len() as int));
}

pub proof fn lemma_frames_extended_refl(frames: Seq<CallStackFrame>)
    ensures
        frames_extended(frames, frames),
{
    assert(frames.take(frames.len() as int) =~= frames);
}

pub proof fn lemma_frames_extended_trans(
    a: Seq<CallStackFrame>,
    b: Seq<CallStackFrame>,
    c: Seq<CallStackFrame>,
)
    requires
        frames_extended(a, b),
        frames_extended(b, c),
    ensures
        frames_extended(a, c),
{
    assert(c.take(a.len() as int) =~= c.take(b.len() as int).take(a.len() as int));
}

/// Growing the registry never changes where an already-registered name is
/// found.
pub proof fn lemma_find_class_extend(pre: Seq<JavaClass>, post: Seq<JavaClass>, name: Seq<char>)
    requires
        classes_extend(pre, post),
        Heap::spec_find_class(pre, name) is Some,
    ensures
        Heap::spec_find_class(post, name) == Heap::spec_find_class(pre, name),
    decreases pre.len(),
{
    if pre.len() > 0 {
        assert(pre[0].java_type@ == post[0].java_type@);
        if pre[0].java_type@ != name {
            assert(classes_extend(pre.skip(1), post.skip(1)));
            lemma_find_class_extend(pre.skip(1), post.skip(1), name);
        }
    }
}

impl Jvm {
    /// The registered form of a class name: the canonical human name for a
    /// single-letter primitive sigil, the name itself otherwise.
    fn canonical_of(cls: &str) -> (r: &str)
        ensures
            r@ == canonical_class_name(cls@),
    {
        proof {
            reveal_strlit("B");
            reveal_strlit("S");
            reveal_strlit("I");
            reveal_strlit("J");
            reveal_strlit("F");
            reveal_strlit("D");
            reveal_strlit("C");
            reveal_strlit("Z");
        }
        if cls.unicode_len() != 1 {
            proof {
                assert(cls@ != "B"@ && cls@ != "S"@ && cls@ != "I"@ && cls@ != "J"@ && cls@ != "F"@
                    && cls@ != "D"@ && cls@ != "C"@ && cls@ != "Z"@);
            }
            return cls;
        }
        let c = cls.get_char(0);
        proof {
            assert(cls@ =~= seq![cls@[0]]);
        }
        match c {
            'B' => {
                proof {
                    assert(cls@ =~= "B"@);
                }
                "byte"
            },
            'S' => {
                proof {
                    assert(cls@ =~= "S"@);
                }
                "short"
            },
            'I' => {
                proof {
                    assert(cls@ =~= "I"@);
                }
                "int"
            },
            'J' => {
                proof {
                    assert(cls@ =~= "J"@);
                }
                "long"
            },
            'F' => {
                proof {
                    assert(cls@ =~= "F"@);
                }
                "float"
            },
            'D' => {
                proof {
                    assert(cls@ =~= "D"@);
                }
                "double"
            },
            'C' => {
                proof {
                    assert(cls@ =~= "C"@);
                }
                "char"
            },
            'Z' => {
                proof {
                    assert(cls@ =~= "Z"@);
                }
                "boolean"
            },
            _ => {
                proof {
                    assert(cls@ != "B"@ && cls@ != "S"@ && cls@ != "I"@ && cls@ != "J"@ && cls@
                        != "F"@ && cls@ != "D"@ && cls@ != "C"@ && cls@ != "Z"@);
                }
                cls
            },
        }
    }

    /// A recursion budget comfortably above any acyclic superclass chain on
    /// this classpath.
    fn load_fuel(&self) -> (r: usize)
        ensures
            r >= 1,
    {
        let n = self.classpath.class_files.len();
        if n < usize::MAX / 2 - 8 {
            n * 2 + 8
        } else {
            n
        }
    }

    /// Loads the class named `cls` (registering it, its superclasses and its
    /// `java/lang/Class` mirror object), and initializes it when requested by
    /// flagging it and pushing its pending `<clinit>` frames.
    fn load_rec(&mut self, cls: &str, initialize: bool, fuel: usize) -> (r: Result<
        usize,
        LoadFailure,
    >)
        requires
            old(self).wf(),
        ensures
            final(self).wf(),
            final(self).classpath == old(self).classpath,
            classes_extend(old(self).heap.loaded_classes@, final(self).heap.loaded_classes@),
            frames_extended(old(self).call_stack_frames@, final(self).call_stack_frames@),
            !initialize ==> final(self).call_stack_frames@ == old(self).call_stack_frames@,
            final(self).heap.interned_strings == old(self).heap.interned_strings,
            entries_prefix(old(self).heap.entries@, final(self).heap.entries@),
            r matches Ok(id) ==> load_ok_post(*old(self), cls@, initialize, *final(self), id as int),
            (Heap::spec_find_class(old(self).heap.loaded_classes@, canonical_class_name(cls@))
                matches Some(pid) ==> ((initialize ==> (#[trigger] old(
                self,
            ).heap.loaded_classes@[pid]).is_initialized) ==> r == Ok::<usize, LoadFailure>(
                pid as usize,
            ))),
            (fuel >= 1 && Heap::spec_find_class(
                old(self).heap.loaded_classes@,
                canonical_class_name(cls@),
            ) is None && cls@.len() > 1 && cls@[0] != '['
                && crate::classpath::spec_find_entry(old(self).classpath.class_files@, cls@)
                is None) ==> r is Err,
        decreases fuel, 1int,
    {
        proof {
            lemma_frames_extended_refl(old(self).call_stack_frames@);
            lemma_entries_prefix_refl(old(self).heap.entries@);
        }
        let canonical = Self::canonical_of(cls);
        match self.heap.find_class(canonical) {
            Some(id) => {
                if initialize && !self.heap.loaded_classes[id].is_initialized {
                    match self.initialize_class_quiet(id) {
                        Ok(()) => {},
                        Err(e) => {
                            return Err(e);
                        },
                    }
                    proof {
                        lemma_find_class_extend(
                            old(self).heap.loaded_classes@,
                            self.heap.loaded_classes@,
                            canonical_class_name(cls@),
                        );
                    }
                }
                return Ok(id);
            },
            None => {},
        }
        if fuel == 0 {
            return Err(LoadFailure::Internal(cls.to_owned()));
        }
        if cls.unicode_len() == 0 {
            return Err(LoadFailure::NoClassDef(cls.to_owned()));
        }
        let first = cls.get_char(0);
        let is_sigil = cls.unicode_len() == 1 && (first == 'B' || first == 'S' || first == 'I'
            || first == 'J' || first == 'F' || first == 'D' || first == 'C' || first == 'Z');
        if is_sigil {
            // Primitive pseudo-class, registered under its canonical name,
            // born initialized.
            let id = self.register_class(
                canonical.to_owned(),
                crate::classfile::CLASS_ACC_PUBLIC,
                None,
                Vec::new(),
                false,
                true,
                Vec::new(),
                true,
                Vec::new(),
            );
            let ghost after_reg = self.heap.loaded_classes@;
            let ghost entries_r = self.heap.entries@;
            match self.create_mirror(id, fuel) {
                Ok(()) => {},
                Err(e) => {
                    proof {
                        lemma_entries_prefix_trans(
                            old(self).heap.entries@,
                            entries_r,
                            self.heap.entries@,
                        );
                    }
                    return Err(e);
                },
            }
            proof {
                lemma_find_class_extend(
                    after_reg,
                    self.heap.loaded_classes@,
                    canonical_class_name(cls@),
                );
                lemma_entries_prefix_trans(
                    old(self).heap.entries@,
                    entries_r,
                    self.heap.entries@,
                );
            }
            return Ok(id);
        }
        if first == '[' {
            // Array pseudo-class: implicitly serializable and cloneable, no
            // superclass entry, born initialized.
            let mut interfaces: Vec<String> = Vec::new();
            interfaces.push("java/io/Serializable".to_owned());
            interfaces.push("java/lang/Cloneable".to_owned());
            let id = self.register_class(
                canonical.to_owned(),
                crate::classfile::CLASS_ACC_PUBLIC,
                None,
                interfaces,
                true,
                false,
                Vec::new(),
                true,
                Vec::new(),
            );
            let ghost after_reg = self.heap.loaded_classes@;
            let ghost entries_r = self.heap.entries@;
            match self.create_mirror(id, fuel) {
                Ok(()) => {},
                Err(e) => {
                    proof {
                        lemma_entries_prefix_trans(
                            old(self).heap.entries@,
                            entries_r,
                            self.heap.entries@,
                        );
                    }
                    return Err(e);
                },
            }
            proof {
                lemma_find_class_extend(
                    after_reg,
                    self.heap.loaded_classes@,
                    canonical_class_name(cls@),
                );
                lemma_entries_prefix_trans(
                    old(self).heap.entries@,
                    entries_r,
                    self.heap.entries@,
                );
            }
            return Ok(id);
        }
        // A class file on the classpath: collect what registration needs,
        // then release the borrow.
        let parts = {
            let cf = match self.classpath.get_classpath_entry(cls) {
                Some(f) => f,
                None => {
                    return Err(LoadFailure::NoClassDef(cls.to_owned()));
                },
            };
            match Self::extract_class_parts(cf) {
                Ok(p) => p,
                Err(()) => {
                    return Err(LoadFailure::Internal(cls.to_owned()));
                },
            }
        };
        let (super_name, access_flags, interfaces, static_fields, own_fields) = parts;
        // Load the whole superclass chain first (without initializing).
        let superclass_id: Option<usize> = match super_name {
            Some(sn) => {
                match self.load_rec(sn.as_str(), false, fuel - 1) {
                    Ok(sid) => Some(sid),
                    Err(e) => {
                        return Err(e);
                    },
                }
            },
            None => None,
        };
        let ghost frames_a = self.call_stack_frames@;
        let ghost entries_a = self.heap.entries@;
        // Loading the superclass chain may have loaded this class as part of
        // a mirror bootstrap; check the cache once more.
        match self.heap.find_class(canonical) {
            Some(id) => {
                if initialize && !self.heap.loaded_classes[id].is_initialized {
                    let ghost classes_a = self.heap.loaded_classes@;
                    match self.initialize_class_quiet(id) {
                        Ok(()) => {},
                        Err(e) => {
                            proof {
                                lemma_frames_extended_trans(
                                    old(self).call_stack_frames@,
                                    frames_a,
                                    self.call_stack_frames@,
                                );
                                lemma_entries_prefix_refl(entries_a);
                                lemma_entries_prefix_trans(
                                    old(self).heap.entries@,
                                    entries_a,
                                    self.heap.entries@,
                                );
                            }
                            return Err(e);
                        },
                    }
                    proof {
                        lemma_frames_extended_trans(
                            old(self).call_stack_frames@,
                            frames_a,
                            self.call_stack_frames@,
                        );
                        lemma_entries_prefix_refl(entries_a);
                        lemma_entries_prefix_trans(
                            old(self).heap.entries@,
                            entries_a,
                            self.heap.entries@,
                        );
                        lemma_find_class_extend(
                            classes_a,
                            self.heap.loaded_classes@,
                            canonical_class_name(cls@),
                        );
                    }
                }
                proof {
                    crate::heap::lemma_find_class_matches(
                        self.heap.loaded_classes@,
                        canonical_class_name(cls@),
                    );
                    lemma_frames_extended_trans(
                        old(self).call_stack_frames@,
                        frames_a,
                        self.call_stack_frames@,
                    );
                    lemma_entries_prefix_refl(entries_a);
                    lemma_entries_prefix_trans(
                        old(self).heap.entries@,
                        entries_a,
                        self.heap.entries@,
                    );
                }
                return Ok(id);
            },
            None => {},
        }
        // The instance-field template: this class's own fields, then every
        // inherited field.
        let mut template = own_fields;
        match superclass_id {
            Some(sid) => {
                let inherited = crate::heap::clone_fields(
                    &self.heap.loaded_classes[sid].instance_field_template,
                );
                let mut k: usize = 0;
                let n = inherited.len();
                while k < n
                    invariant
                        k <= n,
                        n == inherited@.len(),
                    decreases n - k,
                {
                    let key = inherited[k].0.clone();
                    template.push((key, inherited[k].1));
                    k = k + 1;
                }
            },
            None => {},
        }
        let id = self.register_class(
            canonical.to_owned(),
            access_flags,
            superclass_id,
            interfaces,
            false,
            false,
            static_fields,
            false,
            template,
        );
        let ghost after_reg = self.heap.loaded_classes@;
        let ghost entries_r = self.heap.entries@;
        match self.create_mirror(id, fuel) {
            Ok(()) => {},
            Err(e) => {
                proof {
                    lemma_entries_prefix_trans(
                        old(self).heap.entries@,
                        entries_r,
                        self.heap.entries@,
                    );
                }
                return Err(e);
            },
        }
        proof {
            lemma_find_class_extend(
                after_reg,
                self.heap.loaded_classes@,
                canonical_class_name(cls@),
            );
            lemma_entries_prefix_trans(old(self).heap.entries@, entries_r, self.heap.entries@);
        }
        let ghost frames_b = self.call_stack_frames@;
        if initialize {
            let ghost before_init = self.heap.loaded_classes@;
            match self.initialize_class_quiet(id) {
                Ok(()) => {},
                Err(e) => {
                    proof {
                        lemma_frames_extended_trans(
                            old(self).call_stack_frames@,
                            frames_b,
                            self.call_stack_frames@,
                        );
                        lemma_entries_prefix_refl(entries_a);
                        lemma_entries_prefix_trans(
                            old(self).heap.entries@,
                            entries_a,
                            self.heap.entries@,
                        );
                    }
                    return Err(e);
                },
            }
            proof {
                lemma_find_class_extend(
                    before_init,
                    self.heap.loaded_classes@,
                    canonical_class_name(cls@),
                );
                lemma_frames_extended_trans(
                    old(self).call_stack_frames@,
                    frames_b,
                    self.call_stack_frames@,
                );
                lemma_entries_prefix_refl(entries_a);
                lemma_entries_prefix_trans(
                    old(self).heap.entries@,
                    entries_a,
                    self.heap.entries@,
                );
            }
        }
        proof {
            lemma_entries_prefix_refl(entries_a);
            lemma_entries_prefix_trans(old(self).heap.entries@, entries_a, self.heap.entries@);
        }
        Ok(id)
    }

    /// Pulls everything class registration needs out of a class file: the
    /// superclass name (if any), the access flags, the direct interface
    /// names, the static fields with their type defaults, and the declared
    /// instance fields with their type defaults.
    fn extract_class_parts(cf: &ClassFile) -> (r: Result<
        (
            Option<String>,
            u16,
            Vec<String>,
            Vec<(String, JavaValue)>,
            Vec<(String, JavaValue)>,
        ),
        (),
    >)
        ensures
            r matches Ok(p) ==> {
                &&& (p.0 is None <==> cf.super_class == 0)
                &&& (p.0 matches Some(sn) ==> crate::util::constant_string_resolves(
                    cf.const_pool@,
                    cf.super_class,
                ) && sn@ == crate::util::spec_constant_string(cf.const_pool@, cf.super_class))
                &&& p.1 == cf.access_flags
                &&& p.2@.len() == cf.interfaces@.len()
                &&& (forall|i: int|
                    0 <= i < cf.interfaces@.len() ==> (#[trigger] p.2@[i])@
                        == crate::util::spec_constant_string(cf.const_pool@, cf.interfaces@[i]))
                &&& p.3@.len() + p.4@.len() == cf.fields@.len()
            },
    {
        let super_name: Option<String> = if cf.super_class == 0 {
            None
        } else {
            match crate::util::try_get_constant_string(&cf.const_pool, cf.super_class) {
                Some(s) => Some(s.clone()),
                None => {
                    return Err(());
                },
            }
        };
        let mut interfaces: Vec<String> = Vec::new();
        let mut i: usize = 0;
        let n = cf.interfaces.len();
        while i < n
            invariant
                i <= n,
                n == cf.interfaces@.len(),
                interfaces@.len() == i,
                forall|j: int|
                    0 <= j < i ==> (#[trigger] interfaces@[j])@
                        == crate::util::spec_constant_string(cf.const_pool@, cf.interfaces@[j]),
            decreases n - i,
        {
            match crate::util::try_get_constant_string(&cf.const_pool, cf.interfaces[i]) {
                Some(s) => interfaces.push(s.clone()),
                None => {
                    return Err(());
                },
            }
            i = i + 1;
        }
        let mut static_fields: Vec<(String, JavaValue)> = Vec::new();
        let mut own_fields: Vec<(String, JavaValue)> = Vec::new();
        let mut i: usize = 0;
        let n = cf.fields.len();
        while i < n
            invariant
                i <= n,
                n == cf.fields@.len(),
                static_fields@.len() + own_fields@.len() == i,
            decreases n - i,
        {
            let field = &cf.fields[i];
            let name = match crate::util::try_get_constant_string(&cf.const_pool, field.name_index) {
                Some(s) => s.clone(),
                None => {
                    return Err(());
                },
            };
            let descriptor = match crate::util::try_get_constant_string(
                &cf.const_pool,
                field.descriptor_index,
            ) {
                Some(s) => s,
                None => {
                    return Err(());
                },
            };
            let default = match JavaValue::default(descriptor.as_str()) {
                Ok(v) => v,
                Err(()) => {
                    return Err(());
                },
            };
            if flag_set(field.access_flags, FIELD_ACC_STATIC) {
                static_fields.push((name, default));
            } else {
                own_fields.push((name, default));
            }
            i = i + 1;
        }
        Ok((super_name, cf.access_flags, interfaces, static_fields, own_fields))
    }

    /// Creates the `java/lang/Class` mirror object for the loaded class
    /// `id`: a fresh instance of `java/lang/Class` carrying the class's id
    /// and name in its host-only metadata.
    fn create_mirror(&mut self, id: usize, fuel: usize) -> (r: Result<(), LoadFailure>)
        requires
            old(self).wf(),
            id < old(self).heap.loaded_classes@.len(),
            fuel >= 1,
        ensures
            final(self).wf(),
            final(self).classpath == old(self).classpath,
            classes_extend(old(self).heap.loaded_classes@, final(self).heap.loaded_classes@),
            final(self).call_stack_frames@ == old(self).call_stack_frames@,
            final(self).heap.interned_strings == old(self).heap.interned_strings,
            entries_prefix(old(self).heap.entries@, final(self).heap.entries@),
            // On success the class points at a fresh java/lang/Class mirror
            // whose host metadata carries the class's id and name.
            r is Ok ==> ({
                let c = final(self).heap.loaded_classes@[id as int];
                &&& c.class_object_id < final(self).heap.entries@.len()
                &&& (final(self).heap.entries@[c.class_object_id as int] matches
                    crate::heap::HeapEntry::ObjectEntry(o) && {
                    &&& o.class_id < final(self).heap.loaded_classes@.len()
                    &&& final(self).heap.loaded_classes@[o.class_id as int].java_type@
                        == "java/lang/Class"@
                    &&& crate::heap::spec_meta_find(o.internal_metadata@, "class_id"@) == Some(
                        crate::heap::InternalMetadata::Numeric(id),
                    )
                    &&& (crate::heap::spec_meta_find(o.internal_metadata@, "class_name"@) matches
                        Some(m) && m matches crate::heap::InternalMetadata::Text(nm) && nm@ == old(
                        self,
                    ).heap.loaded_classes@[id as int].java_type@)
                })
            }),
        decreases fuel, 0int,
    {
        let lang_class_id = match self.load_rec("java/lang/Class", false, fuel - 1) {
            Ok(i) => i,
            Err(e) => {
                return Err(e);
            },
        };
        let ghost entries_m = self.heap.entries@;
        let mut obj = match self.new_instance(lang_class_id) {
            Ok(o) => o,
            Err(()) => {
                return Err(LoadFailure::Internal("java/lang/Class".to_owned()));
            },
        };
        obj.set_internal_metadata("class_id", crate::heap::InternalMetadata::Numeric(id));
        let name = self.heap.loaded_classes[id].java_type.clone();
        obj.set_internal_metadata("class_name", crate::heap::InternalMetadata::Text(name));
        let oid = self.heap.store_instance(obj);
        self.heap.loaded_classes[id].class_object_id = oid;
        proof {
            reveal_strlit("java/lang/Class");
            reveal_strlit("class_id");
            reveal_strlit("class_name");
            assert("class_id"@.len() != "class_name"@.len());
            assert("class_id"@ != "class_name"@);
            reveal_strlit("B");
            reveal_strlit("S");
            reveal_strlit("I");
            reveal_strlit("J");
            reveal_strlit("F");
            reveal_strlit("D");
            reveal_strlit("C");
            reveal_strlit("Z");
            assert(canonical_class_name("java/lang/Class"@) == "java/lang/Class"@);
            lemma_clinit_frames_ok_extend(
                self.call_stack_frames@,
                old(self).heap.loaded_classes@,
                self.heap.loaded_classes@,
            );
            assert(self.heap.entries@.take(entries_m.len() as int) =~= entries_m);
            lemma_entries_prefix_trans(old(self).heap.entries@, entries_m, self.heap.entries@);
        }
        Ok(())
    }

    /// Loads (and optionally initializes) the class named `cls`, returning
    /// its id; failures are raised as Java errors.
    pub fn ensure_class_loaded(&mut self, cls: &str, initialize: bool) -> (r: RuntimeResult<usize>)
        requires
            old(self).wf(),
        ensures
            final(self).wf(),
            final(self).classpath == old(self).classpath,
            classes_extend(old(self).heap.loaded_classes@, final(self).heap.loaded_classes@),
            r is Ok ==> entries_prefix(old(self).heap.entries@, final(self).heap.entries@),
            r matches Ok(id) ==> load_ok_post(*old(self), cls@, initialize, *final(self), id as int),
            // Success is owed for a class that is already loaded (and, when
            // initialization is requested, already initialized).
            (Heap::spec_find_class(old(self).heap.loaded_classes@, canonical_class_name(cls@))
                matches Some(pid) ==> ((initialize ==> (#[trigger] old(
                self,
            ).heap.loaded_classes@[pid]).is_initialized) ==> r == Ok::<usize, JavaThrowable>(
                pid as usize,
            ))),
            // A fresh class-form name that the classpath does not hold fails.
            (Heap::spec_find_class(old(self).heap.loaded_classes@, canonical_class_name(cls@))
                is None && cls@.len() > 1 && cls@[0] != '['
                && crate::classpath::spec_find_entry(old(self).classpath.class_files@, cls@)
                is None) ==> r is Err,
            r matches Err(t) ==> exception_delivered(*final(self), t),
    {
        let fuel = self.load_fuel();
        match self.load_rec(cls, initialize, fuel) {
            Ok(id) => Ok(id),
            Err(e) => Err(self.throw_load_failure(e)),
        }
    }

    /// A fresh instance of the loaded class `root_class_id`, its fields
    /// pre-populated from the class's instance-field template (its own and
    /// every superclass's fields, at their type defaults).
    pub fn new_instance(&self, root_class_id: usize) -> (r: Result<JavaObject, ()>)
        ensures
            r matches Ok(o) ==> {
                &&& root_class_id < self.heap.loaded_classes@.len()
                &&& o.class_id == root_class_id
                &&& crate::heap::fields_equiv(
                    o.instance_fields@,
                    self.heap.loaded_classes@[root_class_id as int].instance_field_template@,
                )
                &&& o.internal_metadata@ == Seq::<(String, crate::heap::InternalMetadata)>::empty()
            },
            r is Err ==> root_class_id >= self.heap.loaded_classes@.len(),
    {
        if root_class_id >= self.heap.loaded_classes.len() {
            return Err(());
        }
        let instance_fields = crate::heap::clone_fields(
            &self.heap.loaded_classes[root_class_id].instance_field_template,
        );
        Ok(
            JavaObject {
                class_id: root_class_id,
                internal_metadata: Vec::new(),
                instance_fields,
            },
        )
    }

    /// Stores an object and returns its handle.
    pub fn heap_store_instance(&mut self, instance: JavaObject) -> (id: usize)
        requires
            old(self).wf(),
        ensures
            final(self).wf(),
            id == old(self).heap.entries@.len(),
            final(self).heap.entries@ == old(self).heap.entries@.push(
                crate::heap::HeapEntry::ObjectEntry(instance),
            ),
            final(self).heap.loaded_classes == old(self).heap.loaded_classes,
            final(self).heap.interned_strings == old(self).heap.interned_strings,
            final(self).call_stack_frames == old(self).call_stack_frames,
            final(self).classpath == old(self).classpath,
    {
        self.heap.store_instance(instance)
    }

    /// Stores an array and returns its handle.
    pub fn heap_store_array(&mut self, array: crate::heap::JavaArray) -> (id: usize)
        requires
            old(self).wf(),
        ensures
            final(self).wf(),
            id == old(self).heap.entries@.len(),
            final(self).heap.entries@ == old(self).heap.entries@.push(
                crate::heap::HeapEntry::ArrayEntry(array),
            ),
            final(self).heap.loaded_classes == old(self).heap.loaded_classes,
            final(self).heap.interned_strings == old(self).heap.interned_strings,
            final(self).call_stack_frames == old(self).call_stack_frames,
            final(self).classpath == old(self).classpath,
    {
        self.heap.store_array(array)
    }

    /// Stores an array with the given element type and cells.
    pub fn create_constant_array(
        &mut self,
        array_type: crate::heap::JavaArrayType,
        values: Vec<JavaValue>,
    ) -> (id: usize)
        requires
            old(self).wf(),
        ensures
            final(self).wf(),
            id == old(self).heap.entries@.len(),
            final(self).heap.entries@ == old(self).heap.entries@.push(
                crate::heap::HeapEntry::ArrayEntry(
                    crate::heap::JavaArray { array_type, values },
                ),
            ),
            final(self).heap.loaded_classes == old(self).heap.loaded_classes,
            final(self).heap.interned_strings == old(self).heap.interned_strings,
            final(self).call_stack_frames == old(self).call_stack_frames,
            final(self).classpath == old(self).classpath,
    {
        self.heap.store_array(crate::heap::JavaArray { array_type, values })
    }

    /// Stores an array of `length` cells, each at the element type's default
    /// value.
    pub fn create_empty_array(
        &mut self,
        array_type: crate::heap::JavaArrayType,
        length: usize,
    ) -> (id: usize)
        requires
            old(self).wf(),
        ensures
            final(self).wf(),
            id == old(self).heap.entries@.len(),
            final(self).heap.entries@.len() == old(self).heap.entries@.len() + 1,
            (final(self).heap.entries@[id as int] matches crate::heap::HeapEntry::ArrayEntry(a)
                && a.array_type == array_type && a.values@.len() == length && (forall|i: int|
                0 <= i < length ==> a.values@[i] == array_type.spec_default_cell())),
            final(self).heap.loaded_classes == old(self).heap.loaded_classes,
            final(self).heap.interned_strings == old(self).heap.interned_strings,
            final(self).call_stack_frames == old(self).call_stack_frames,
            final(self).classpath == old(self).classpath,
    {
        let cell = array_type.default_cell();
        let mut values: Vec<JavaValue> = Vec::with_capacity(length);
        let mut i: usize = 0;
        while i < length
            invariant
                i <= length,
                values@.len() == i,
                forall|j: int| 0 <= j < i ==> values@[j] == cell,
            decreases length - i,
        {
            values.push(cell);
            i = i + 1;
        }
        self.heap.store_array(crate::heap::JavaArray { array_type, values })
    }
}

/// The payload of `t` is a heap object whose class bears the name `name`.
pub open spec fn thrown_is_instance_of(post: Jvm, t: JavaThrowable, name: Seq<char>) -> bool {
    let id = match t {
        JavaThrowable::Handled(i) => i,
        JavaThrowable::Unhandled(i) => i,
    };
    &&& id < post.heap.entries@.len()
    &&& (post.heap.entries@[id as int] matches crate::heap::HeapEntry::ObjectEntry(o) && o.class_id
        < post.heap.loaded_classes@.len() && post.heap.loaded_classes@[
        o.class_id as int].java_type@ == name)
}

/// The UTF-16 code units held by the `value` array of the string object at
/// heap handle `id`, when that structure is present.
pub open spec fn string_value_units(entries: Seq<crate::heap::HeapEntry>, id: int) -> Option<
    Seq<u16>,
> {
    if 0 <= id < entries.len() {
        match entries[id] {
            crate::heap::HeapEntry::ObjectEntry(o) => match crate::heap::spec_field_find(
                o.instance_fields@,
                "value"@,
            ) {
                Some(JavaValue::Array(aid)) => {
                    if 0 <= aid < entries.len() {
                        match entries[aid as int] {
                            crate::heap::HeapEntry::ArrayEntry(a) => {
                                if forall|i: int|
                                    0 <= i < a.values@.len() ==> (#[trigger] a.values@[i]) is Char {
                                    Some(
                                        a.values@.map_values(
                                            |v: JavaValue|
                                                match v {
                                                    JavaValue::Char(u) => u,
                                                    _ => 0u16,
                                                },
                                        ),
                                    )
                                } else {
                                    None
                                }
                            },
                            _ => None,
                        }
                    } else {
                        None
                    }
                },
                _ => None,
            },
            _ => None,
        }
    } else {
        None
    }
}

/// True when heap handle `id` is a `java.lang.String` whose `value` array
/// holds exactly the UTF-16 encoding of `chars`.
pub open spec fn is_string_object(entries: Seq<crate::heap::HeapEntry>, id: int, chars: Seq<char>) -> bool {
    &&& 0 <= id < entries.len()
    &&& entries[id] matches crate::heap::HeapEntry::ObjectEntry(o)
        && (crate::heap::spec_field_find(o.instance_fields@, "value"@) matches Some(v) && v matches
        JavaValue::Array(aid) && 0 <= aid < entries.len() && (entries[aid as int] matches
        crate::heap::HeapEntry::ArrayEntry(a) && a.values@ =~= crate::strutil::utf16_encode(
            chars,
        ).map_values(|u: u16| JavaValue::Char(u))))
}

/// When the object at handle `id` belongs to a class whose field template
/// declares `detailMessage`, that field refers to a `java.lang.String`
/// holding exactly `m`.
pub open spec fn exception_message_is(jvm: Jvm, id: int, m: Seq<char>) -> bool {
    0 <= id < jvm.heap.entries@.len() ==> (jvm.heap.entries@[id] matches
        crate::heap::HeapEntry::ObjectEntry(o) ==> (o.class_id < jvm.heap.loaded_classes@.len()
        && crate::heap::spec_field_find(
        jvm.heap.loaded_classes@[o.class_id as int].instance_field_template@,
        "detailMessage"@,
    ) is Some ==> (crate::heap::spec_field_find(o.instance_fields@, "detailMessage"@) matches Some(
        dv,
    ) && dv matches JavaValue::Object(so) && so matches Some(sid) && is_string_object(
        jvm.heap.entries@,
        sid as int,
        m,
    ))))
}

/// A string object survives any extension of the heap that keeps the
/// existing entries in place.
pub proof fn lemma_string_object_prefix(
    pre: Seq<crate::heap::HeapEntry>,
    post: Seq<crate::heap::HeapEntry>,
    id: int,
    chars: Seq<char>,
)
    requires
        entries_prefix(pre, post),
        is_string_object(pre, id, chars),
    ensures
        is_string_object(post, id, chars),
{
    assert(forall|i: int| 0 <= i < pre.len() ==> post[i] == #[trigger] pre[i]) by {
        assert(forall|i: int|
            0 <= i < pre.len() ==> post.take(pre.len() as int)[i] == #[trigger] pre[i]);
    }
}

impl Jvm {
    /// Allocates an instance of the exception class `class` (loading it if
    /// necessary, without initialization), sets its `detailMessage` to the
    /// given message when both are present, and records the current stack
    /// trace in its host metadata. Returns the object's handle and class id.
    fn allocate_exception(&mut self, class: &str, message: Option<&str>) -> (r: Result<
        (usize, usize),
        LoadFailure,
    >)
        requires
            old(self).wf(),
        ensures
            final(self).wf(),
            final(self).classpath == old(self).classpath,
            classes_extend(old(self).heap.loaded_classes@, final(self).heap.loaded_classes@),
            final(self).call_stack_frames@ == old(self).call_stack_frames@,
            r matches Ok((id, cid)) ==> cid < final(self).heap.loaded_classes@.len() && id < final(self).heap.entries@.len() && (final(self).heap.entries@[id as int] matches
                crate::heap::HeapEntry::ObjectEntry(o) && o.class_id == cid) && final(self).heap.loaded_classes@[cid as int].java_type@ == canonical_class_name(class@),
            entries_prefix(old(self).heap.entries@, final(self).heap.entries@),
            // Allocation is owed when the class is already loaded and any
            // message string can be built over the loaded String class.
            (Heap::spec_find_class(old(self).heap.loaded_classes@, canonical_class_name(class@))
                is Some && (message is Some ==> (Heap::spec_find_class(
                old(self).heap.loaded_classes@,
                "java/lang/String"@,
            ) matches Some(sid) && crate::heap::spec_field_find(
                old(self).heap.loaded_classes@[sid as int].instance_field_template@,
                "value"@,
            ) is Some))) ==> r is Ok,
            // The message, when given and declared by the class, lands in
            // `detailMessage` as a string with exactly those characters.
            r matches Ok((id, cid)) ==> (message matches Some(m) ==> exception_message_is(
                *final(self),
                id as int,
                m@,
            )),
    {
        let class_id = match self.load_rec(class, false, self.load_fuel()) {
            Ok(i) => i,
            Err(e) => {
                return Err(e);
            },
        };
        let ghost entries_a = self.heap.entries@;
        proof {
            if Heap::spec_find_class(old(self).heap.loaded_classes@, "java/lang/String"@)
                is Some {
                lemma_find_class_extend(
                    old(self).heap.loaded_classes@,
                    self.heap.loaded_classes@,
                    "java/lang/String"@,
                );
            }
        }
        let msg_sid: Option<usize> = match message {
            Some(msg) => {
                match self.create_string_quiet(msg, false) {
                    Ok(i) => Some(i),
                    Err(e) => {
                        proof {
                            lemma_entries_prefix_trans(
                                old(self).heap.entries@,
                                entries_a,
                                self.heap.entries@,
                            );
                        }
                        return Err(e);
                    },
                }
            },
            None => None,
        };
        let ghost entries_b = self.heap.entries@;
        let ghost classes_b = self.heap.loaded_classes@;
        proof {
            lemma_entries_prefix_refl(entries_a);
            lemma_entries_prefix_trans(old(self).heap.entries@, entries_a, entries_b);
        }
        let mut obj = match self.new_instance(class_id) {
            Ok(o) => o,
            Err(()) => {
                return Err(LoadFailure::Internal(class.to_owned()));
            },
        };
        match msg_sid {
            Some(sid) => {
                proof {
                    crate::heap::lemma_fields_equiv_find(
                        obj.instance_fields@,
                        classes_b[class_id as int].instance_field_template@,
                        "detailMessage"@,
                    );
                }
                // Set detailMessage when the class declares it; an exception
                // class without the field just loses the message.
                match obj.set_field("detailMessage", JavaValue::Object(Some(sid))) {
                    Ok(()) => {},
                    Err(()) => {},
                }
            },
            None => {},
        }
        let trace = self.render_stack_trace();
        obj.set_internal_metadata("backtrace", crate::heap::InternalMetadata::Text(trace));
        let id = self.heap.store_instance(obj);
        proof {
            assert(self.heap.entries@.take(entries_b.len() as int) =~= entries_b);
            lemma_entries_prefix_trans(old(self).heap.entries@, entries_b, self.heap.entries@);
            match (message, msg_sid) {
                (Some(m), Some(sid)) => {
                    if is_string_object(entries_b, sid as int, m@) {
                        lemma_string_object_prefix(
                            entries_b,
                            self.heap.entries@,
                            sid as int,
                            m@,
                        );
                    }
                },
                _ => {},
            }
        }
        Ok((id, class_id))
    }

    /// Raises an exception of class `exception_class` with an optional
    /// detail message: allocates the exception object and unwinds the call
    /// stack against the handler tables. When no frame catches it, the
    /// rendered stack trace is kept in `last_unhandled_trace`.
    pub fn throw_exception(&mut self, exception_class: &str, message: Option<&str>) -> (r:
        JavaThrowable)
        requires
            old(self).wf(),
        ensures
            final(self).wf(),
            final(self).classpath == old(self).classpath,
            classes_extend(old(self).heap.loaded_classes@, final(self).heap.loaded_classes@),
            exception_delivered(*final(self), r),
            r matches JavaThrowable::Unhandled(id) ==> final(self).last_unhandled_trace is Some,
            thrown_is_instance_of(*final(self), r, canonical_class_name(exception_class@)) || r
                == JavaThrowable::Unhandled(0usize),
            // With the class already loaded and no message, a real object is
            // always thrown.
            (Heap::spec_find_class(
                old(self).heap.loaded_classes@,
                canonical_class_name(exception_class@),
            ) is Some && message is None) ==> thrown_is_instance_of(
                *final(self),
                r,
                canonical_class_name(exception_class@),
            ),
            // The exception goes unhandled exactly when no live frame above
            // the bottom one has a covering handler for the thrown class;
            // otherwise the nearest catching frame received it.
            r matches JavaThrowable::Unhandled(id) ==> (id == 0 || (exists|cid: int|
                0 <= cid < final(self).heap.loaded_classes@.len() && (#[trigger] final(self).heap.loaded_classes@[cid]).java_type@ == canonical_class_name(exception_class@)
                    && (forall|j: int|
                    1 <= j < old(self).call_stack_frames@.len() ==> !spec_frame_catches(
                        old(self).classpath.class_files@,
                        final(self).heap.loaded_classes@,
                        #[trigger] old(self).call_stack_frames@[j],
                        cid,
                    )))),
            r matches JavaThrowable::Handled(id) ==> (exists|cid: int|
                0 <= cid < final(self).heap.loaded_classes@.len() && (#[trigger] final(self).heap.loaded_classes@[cid]).java_type@ == canonical_class_name(exception_class@)
                    && spec_frame_catches(
                    old(self).classpath.class_files@,
                    final(self).heap.loaded_classes@,
                    old(self).call_stack_frames@[final(self).call_stack_frames@.len() - 1],
                    cid,
                )),
            entries_prefix(old(self).heap.entries@, final(self).heap.entries@),
            // With the exception class and java.lang.String both loaded, the
            // message travels with the thrown object whenever its class
            // declares `detailMessage`.
            message matches Some(m) ==> ((Heap::spec_find_class(
                old(self).heap.loaded_classes@,
                canonical_class_name(exception_class@),
            ) is Some && (Heap::spec_find_class(
                old(self).heap.loaded_classes@,
                "java/lang/String"@,
            ) matches Some(sid) && crate::heap::spec_field_find(
                old(self).heap.loaded_classes@[sid as int].instance_field_template@,
                "value"@,
            ) is Some)) ==> match r {
                JavaThrowable::Handled(id) => exception_message_is(*final(self), id as int, m@),
                JavaThrowable::Unhandled(id) => exception_message_is(*final(self), id as int, m@),
            }),
    {
        let trace = self.render_stack_trace();
        match self.allocate_exception(exception_class, message) {
            Ok((id, class_id)) => {
                let ghost classes_after_alloc = self.heap.loaded_classes@;
                let outcome = self.unwind(id, class_id);
                proof {
                    match outcome {
                        JavaThrowable::Handled(_) => {
                            assert(0 <= (class_id as int) < self.heap.loaded_classes@.len()
                                && self.heap.loaded_classes@[class_id as int].java_type@
                                == canonical_class_name(exception_class@) && spec_frame_catches(
                                old(self).classpath.class_files@,
                                self.heap.loaded_classes@,
                                old(self).call_stack_frames@[self.call_stack_frames@.len() - 1],
                                class_id as int,
                            ));
                        },
                        JavaThrowable::Unhandled(_) => {
                            assert(0 <= (class_id as int) < self.heap.loaded_classes@.len()
                                && self.heap.loaded_classes@[class_id as int].java_type@
                                == canonical_class_name(exception_class@));
                        },
                    }
                }
                match outcome {
                    JavaThrowable::Handled(_) => {},
                    JavaThrowable::Unhandled(_) => {
                        self.last_unhandled_trace = Some(trace);
                    },
                }
                outcome
            },
            Err(_) => {
                // The exception class itself cannot be built; surface the
                // failure as an unhandled throw with no object.
                self.last_unhandled_trace = Some(trace);
                JavaThrowable::Unhandled(0)
            },
        }
    }

    /// Raises a `NullPointerException`.
    pub fn throw_npe(&mut self) -> (r: JavaThrowable)
        requires
            old(self).wf(),
        ensures
            final(self).wf(),
            final(self).classpath == old(self).classpath,
            classes_extend(old(self).heap.loaded_classes@, final(self).heap.loaded_classes@),
            exception_delivered(*final(self), r),
            thrown_is_instance_of(
                *final(self),
                r,
                canonical_class_name("java/lang/NullPointerException"@),
            ) || r == JavaThrowable::Unhandled(0usize),
            entries_prefix(old(self).heap.entries@, final(self).heap.entries@),
    {
        self.throw_exception("java/lang/NullPointerException", None)
    }

    /// Rethrows the existing exception object `reference` (the `athrow`
    /// path): unwinds with that very object, so the reference a handler
    /// receives is the one that was thrown.
    pub fn throw_exception_ref(&mut self, reference: usize) -> (r: JavaThrowable)
        requires
            old(self).wf(),
        ensures
            final(self).wf(),
            final(self).classpath == old(self).classpath,
            classes_extend(old(self).heap.loaded_classes@, final(self).heap.loaded_classes@),
            exception_delivered(*final(self), r),
            (reference < old(self).heap.entries@.len() && (old(self).heap.entries@[
                reference as int] matches crate::heap::HeapEntry::ObjectEntry(o) && o.class_id
                < old(self).heap.loaded_classes@.len())) ==> (r matches JavaThrowable::Handled(id)
                ==> id == reference),
            // For a live thrown object the unwind is fully characterized by
            // its class: it goes unhandled exactly when no live frame above
            // the bottom one has a covering handler; otherwise the nearest
            // catching frame stays, the frames above it are popped, its
            // program counter moves to a covering row's handler offset, and
            // its operand stack holds exactly the thrown reference.
            old(self).heap.entries@[reference as int] matches crate::heap::HeapEntry::ObjectEntry(
                o,
            ) ==> ((reference < old(self).heap.entries@.len() && o.class_id < old(self).heap.loaded_classes@.len()) ==> ({
                &&& final(self).heap == old(self).heap
                &&& (r matches JavaThrowable::Unhandled(id) ==> id == reference && final(self).last_unhandled_trace is Some && (forall|j: int|
                    1 <= j < old(self).call_stack_frames@.len() ==> !spec_frame_catches(
                        old(self).classpath.class_files@,
                        old(self).heap.loaded_classes@,
                        #[trigger] old(self).call_stack_frames@[j],
                        o.class_id as int,
                    )))
                &&& (r matches JavaThrowable::Handled(id) ==> id == reference && final(self).call_stack_frames@.len() >= 1 && final(self).call_stack_frames@.last().state.stack@
                    =~= seq![JavaValue::Object(Some(reference))])
                &&& (r matches JavaThrowable::Handled(id) ==> ({
                    let n = final(self).call_stack_frames@.len();
                    let caught_frame = old(self).call_stack_frames@[n - 1];
                    &&& n <= old(self).call_stack_frames@.len()
                    &&& (forall|j: int|
                        0 <= j < n - 1 ==> #[trigger] final(self).call_stack_frames@[j] == old(self).call_stack_frames@[j])
                    &&& (forall|j: int|
                        n <= j < old(self).call_stack_frames@.len() ==> !spec_frame_catches(
                            old(self).classpath.class_files@,
                            old(self).heap.loaded_classes@,
                            #[trigger] old(self).call_stack_frames@[j],
                            o.class_id as int,
                        ))
                    &&& spec_frame_catches(
                        old(self).classpath.class_files@,
                        old(self).heap.loaded_classes@,
                        caught_frame,
                        o.class_id as int,
                    )
                    &&& (caught_frame.metadata matches Some(m) && exists|k: int|
                        0 <= k < m.exception_table@.len() && spec_entry_catches(
                            old(self).classpath.class_files@,
                            old(self).heap.loaded_classes@,
                            caught_frame,
                            #[trigger] m.exception_table@[k],
                            o.class_id as int,
                        ) && final(self).call_stack_frames@[n - 1].state.instruction_offset
                            == m.exception_table@[k].handler_pc)
                }))
            })),
    {
        let trace = self.render_stack_trace();
        let class_id = match self.heap.get_object(reference) {
            Some(o) => o.class_id,
            None => {
                return self.throw_exception("java/lang/Error", Some("invalid object reference"));
            },
        };
        if class_id >= self.heap.loaded_classes.len() {
            return self.throw_exception("java/lang/Error", Some("invalid object reference"));
        }
        let outcome = self.unwind(reference, class_id);
        match outcome {
            JavaThrowable::Handled(_) => {},
            JavaThrowable::Unhandled(_) => {
                self.last_unhandled_trace = Some(trace);
            },
        }
        outcome
    }

    /// Builds a `java.lang.String` whose `value` array holds the UTF-16
    /// encoding of `inner`. With `intern`, an existing interned object for
    /// equal contents is returned unchanged, and a fresh one is recorded in
    /// the intern table.
    fn create_string_quiet(&mut self, inner: &str, intern: bool) -> (r: Result<usize, LoadFailure>)
        requires
            old(self).wf(),
        ensures
            final(self).wf(),
            final(self).classpath == old(self).classpath,
            classes_extend(old(self).heap.loaded_classes@, final(self).heap.loaded_classes@),
            final(self).call_stack_frames@ == old(self).call_stack_frames@,
            r matches Ok(id) ==> {
                &&& (intern ==> (crate::heap::assoc_find(old(self).heap.interned_strings@, inner@)
                    matches Some(eid) ==> id == eid && *final(self) == *old(self)))
                &&& (intern ==> crate::heap::assoc_find(final(self).heap.interned_strings@, inner@)
                    == Some(id))
                &&& (crate::heap::assoc_find(old(self).heap.interned_strings@, inner@) is None
                    || !intern ==> is_string_object(final(self).heap.entries@, id as int, inner@))
            },
            !intern ==> final(self).heap.interned_strings == old(self).heap.interned_strings,
            entries_prefix(old(self).heap.entries@, final(self).heap.entries@),
            (Heap::spec_find_class(old(self).heap.loaded_classes@, "java/lang/String"@) matches
                Some(sid) ==> (crate::heap::spec_field_find(
                old(self).heap.loaded_classes@[sid].instance_field_template@,
                "value"@,
            ) is Some ==> r is Ok)),
    {
        if intern {
            match crate::heap::intern_find(&self.heap.interned_strings, inner) {
                Some(id) => {
                    proof {
                        lemma_entries_prefix_refl(self.heap.entries@);
                    }
                    return Ok(id);
                },
                None => {},
            }
        }
        proof {
            reveal_strlit("java/lang/String");
            reveal_strlit("B");
            reveal_strlit("S");
            reveal_strlit("I");
            reveal_strlit("J");
            reveal_strlit("F");
            reveal_strlit("D");
            reveal_strlit("C");
            reveal_strlit("Z");
            assert(canonical_class_name("java/lang/String"@) == "java/lang/String"@);
        }
        let string_class = match self.load_rec("java/lang/String", false, self.load_fuel()) {
            Ok(i) => i,
            Err(e) => {
                return Err(e);
            },
        };
        let mut instance = match self.new_instance(string_class) {
            Ok(o) => o,
            Err(()) => {
                return Err(LoadFailure::Internal("java/lang/String".to_owned()));
            },
        };
        let units = crate::strutil::encode_utf16_str(inner);
        let mut cells: Vec<JavaValue> = Vec::with_capacity(units.len());
        let mut i: usize = 0;
        let n = units.len();
        while i < n
            invariant
                i <= n,
                n == units@.len(),
                cells@.len() == i,
                forall|j: int| 0 <= j < i ==> cells@[j] == JavaValue::Char(units@[j]),
            decreases n - i,
        {
            cells.push(JavaValue::Char(units[i]));
            i = i + 1;
        }
        let ghost entries_a = self.heap.entries@;
        let array_id = self.heap.store_array(
            crate::heap::JavaArray { array_type: crate::heap::JavaArrayType::Char, values: cells },
        );
        proof {
            assert(self.heap.entries@.take(entries_a.len() as int) =~= entries_a);
            lemma_entries_prefix_trans(old(self).heap.entries@, entries_a, self.heap.entries@);
            crate::heap::lemma_fields_equiv_find(
                instance.instance_fields@,
                self.heap.loaded_classes@[string_class as int].instance_field_template@,
                "value"@,
            );
        }
        match instance.set_field("value", JavaValue::Array(array_id)) {
            Ok(()) => {},
            Err(()) => {
                return Err(LoadFailure::Internal("java/lang/String".to_owned()));
            },
        }
        let ghost entries_b = self.heap.entries@;
        let id = self.heap.store_instance(instance);
        proof {
            assert(self.heap.entries@.take(entries_b.len() as int) =~= entries_b);
            lemma_entries_prefix_trans(old(self).heap.entries@, entries_b, self.heap.entries@);
            assert(self.heap.entries@[array_id as int] == crate::heap::HeapEntry::ArrayEntry(
                crate::heap::JavaArray {
                    array_type: crate::heap::JavaArrayType::Char,
                    values: cells,
                },
            ));
        }
        if intern {
            proof {
                crate::heap::lemma_assoc_index_find(self.heap.interned_strings@, inner@);
            }
            let key = inner.to_owned();
            proof {
                crate::heap::lemma_assoc_push(self.heap.interned_strings@, (key, id));
            }
            self.heap.interned_strings.push((key, id));
        }
        proof {
            assert(crate::strutil::utf16_encode(inner@).map_values(|u: u16| JavaValue::Char(u))
                =~= cells@);
        }
        Ok(id)
    }

    /// Builds a `java.lang.String` object for `inner`, interning it when
    /// requested; failures (no `java/lang/String` on the classpath, or one
    /// without a `value` field) are raised as Java errors.
    pub fn create_string_object(&mut self, inner: &str, intern: bool) -> (r: RuntimeResult<usize>)
        requires
            old(self).wf(),
        ensures
            final(self).wf(),
            final(self).classpath == old(self).classpath,
            classes_extend(old(self).heap.loaded_classes@, final(self).heap.loaded_classes@),
            r matches Ok(id) ==> {
                &&& (intern ==> (crate::heap::assoc_find(old(self).heap.interned_strings@, inner@)
                    matches Some(eid) ==> id == eid && *final(self) == *old(self)))
                &&& (intern ==> crate::heap::assoc_find(final(self).heap.interned_strings@, inner@)
                    == Some(id))
                &&& ((!intern || crate::heap::assoc_find(old(self).heap.interned_strings@, inner@)
                    is None) ==> is_string_object(final(self).heap.entries@, id as int, inner@))
            },
            r is Ok ==> final(self).call_stack_frames@ == old(self).call_stack_frames@,
            // Success is owed once java/lang/String is loaded with its value
            // field in the instance template.
            (Heap::spec_find_class(old(self).heap.loaded_classes@, "java/lang/String"@) matches
                Some(sid) ==> (crate::heap::spec_field_find(
                old(self).heap.loaded_classes@[sid].instance_field_template@,
                "value"@,
            ) is Some ==> r is Ok)),
            r matches Err(t) ==> exception_delivered(*final(self), t),
    {
        match self.create_string_quiet(inner, intern) {
            Ok(id) => Ok(id),
            Err(e) => Err(self.throw_load_failure(e)),
        }
    }

    /// Decodes a `java.lang.String` object: reads its `value` char array and
    /// decodes the UTF-16 code units.
    pub fn get_string(&self, str_id: usize) -> (r: Result<String, ()>)
        ensures
            r matches Ok(s) ==> (string_value_units(self.heap.entries@, str_id as int) matches Some(
                units,
            ) && crate::strutil::utf16_decode(units) == Some(s@)),
            // Success is owed for every well-formed string object.
            (string_value_units(self.heap.entries@, str_id as int) matches Some(units) ==> (
            crate::strutil::utf16_decode(units) is Some ==> r is Ok)),
    {
        let obj = match self.heap.get_object(str_id) {
            Some(o) => o,
            None => {
                return Err(());
            },
        };
        let value = match obj.get_field("value") {
            Ok(v) => v,
            Err(()) => {
                return Err(());
            },
        };
        let array_id = match value {
            JavaValue::Array(a) => a,
            _ => {
                return Err(());
            },
        };
        let arr = match self.heap.get_array(array_id) {
            Some(a) => a,
            None => {
                return Err(());
            },
        };
        let n = arr.values.len();
        let mut units: Vec<u16> = Vec::with_capacity(n);
        let mut i: usize = 0;
        while i < n
            invariant
                i <= n,
                n == arr.values@.len(),
                units@.len() == i,
                forall|j: int| 0 <= j < i ==> arr.values@[j] == JavaValue::Char(units@[j]),
                str_id < self.heap.entries@.len(),
                self.heap.entries@[str_id as int] matches crate::heap::HeapEntry::ObjectEntry(o)
                    && crate::heap::spec_field_find(o.instance_fields@, "value"@) == Some(
                    JavaValue::Array(array_id),
                ),
                array_id < self.heap.entries@.len(),
                self.heap.entries@[array_id as int] == crate::heap::HeapEntry::ArrayEntry(*arr),
            decreases n - i,
        {
            match arr.values[i] {
                JavaValue::Char(u) => units.push(u),
                _ => {
                    proof {
                        assert(!(arr.values@[i as int] is Char));
                        assert(string_value_units(self.heap.entries@, str_id as int) is None);
                    }
                    return Err(());
                },
            }
            i = i + 1;
        }
        proof {
            assert(arr.values@.map_values(
                |v: JavaValue|
                    match v {
                        JavaValue::Char(u) => u,
                        _ => 0u16,
                    },
            ) =~= units@);
        }
        let s = match crate::strutil::decode_utf16_units(&units) {
            Some(s) => s,
            None => {
                return Err(());
            },
        };
        Ok(s)
    }
}

impl Jvm {
    /// Whether `val` is an instance of the type named `compare_type`: a null
    /// reference and an object of an assignable class match; an array
    /// reference matches `java/lang/Object`, its implicit interfaces, and any
    /// array type.
    pub fn is_instance_of(&self, val: &JavaValue, compare_type: &str) -> (r: Result<bool, ()>)
        requires
            self.wf(),
        ensures
            r matches Ok(b) ==> match *val {
                JavaValue::Object(Some(id)) => (self.heap.entries@[id as int] matches
                    crate::heap::HeapEntry::ObjectEntry(o) && b == spec_assignable(
                    self.heap.loaded_classes@,
                    compare_type@,
                    o.class_id as int,
                )),
                JavaValue::Object(None) => b == true,
                JavaValue::Array(_) => b == array_type_assignable(compare_type@),
                _ => true,
            },
            r is Err ==> match *val {
                JavaValue::Object(oid) => oid matches Some(id) && (id >= self.heap.entries@.len()
                    || !(self.heap.entries@[id as int] is ObjectEntry) || (self.heap.entries@[
                    id as int] matches crate::heap::HeapEntry::ObjectEntry(o) && o.class_id
                    >= self.heap.loaded_classes@.len())),
                JavaValue::Array(_) => false,
                _ => true,
            },
    {
        match val {
            JavaValue::Object(instance) => match instance {
                Some(instance_id) => {
                    let class_id = match self.heap.get_object(*instance_id) {
                        Some(o) => o.class_id,
                        None => {
                            return Err(());
                        },
                    };
                    self.is_assignable_from(compare_type, class_id)
                },
                None => Ok(true),
            },
            JavaValue::Array(_) => {
                let b = crate::strutil::str_eq(compare_type, "java/lang/Object")
                    || crate::strutil::str_eq(compare_type, "java/io/Serializable")
                    || crate::strutil::str_eq(compare_type, "java/lang/Cloneable") || (
                compare_type.unicode_len() > 0 && compare_type.get_char(0) == '[');
                Ok(b)
            },
            _ => Err(()),
        }
    }

    /// The class (starting from `root` and walking the superclass chain)
    /// that declares a static field named `name`, if any.
    pub fn find_static_declarer(&self, root: usize, name: &str) -> (r: Option<usize>)
        requires
            self.wf(),
            root < self.heap.loaded_classes@.len(),
        ensures
            r matches Some(d) ==> d < self.heap.loaded_classes@.len() && crate::heap::assoc_find(
                self.heap.loaded_classes@[d as int].static_fields@,
                name@,
            ) is Some,
            // exactly the nearest declarer on the superclass walk
            match r {
                Some(d) => spec_static_declarer(self.heap.loaded_classes@, root as int, name@)
                    == Some(d as int),
                None => spec_static_declarer(self.heap.loaded_classes@, root as int, name@)
                    is None,
            },
    {
        let mut current: usize = root;
        let mut res: Option<usize> = None;
        loop
            invariant_except_break
                self.wf(),
                current < self.heap.loaded_classes@.len(),
                spec_static_declarer(self.heap.loaded_classes@, root as int, name@)
                    == spec_static_declarer(self.heap.loaded_classes@, current as int, name@),
            ensures
                res matches Some(d) ==> d < self.heap.loaded_classes@.len()
                    && crate::heap::assoc_find(
                    self.heap.loaded_classes@[d as int].static_fields@,
                    name@,
                ) is Some,
                match res {
                    Some(d) => spec_static_declarer(self.heap.loaded_classes@, root as int, name@)
                        == Some(d as int),
                    None => spec_static_declarer(self.heap.loaded_classes@, root as int, name@)
                        is None,
                },
            decreases current,
        {
            match crate::heap::field_find(&self.heap.loaded_classes[current].static_fields, name) {
                Some(_) => {
                    res = Some(current);
                    break ;
                },
                None => {},
            }
            match self.heap.loaded_classes[current].superclass_id {
                Some(s) => {
                    current = s;
                },
                None => {
                    res = None;
                    break ;
                },
            }
        }
        res
    }

    /// Overwrites the static field `name` of the loaded class `declarer`.
    pub fn set_static_field_at(&mut self, declarer: usize, name: &str, val: JavaValue) -> (r:
        Result<(), ()>)
        requires
            old(self).wf(),
            declarer < old(self).heap.loaded_classes@.len(),
        ensures
            final(self).wf(),
            final(self).classpath == old(self).classpath,
            final(self).call_stack_frames == old(self).call_stack_frames,
            final(self).heap.entries == old(self).heap.entries,
            classes_extend(old(self).heap.loaded_classes@, final(self).heap.loaded_classes@),
            r matches Ok(()) ==> crate::heap::spec_field_find(
                final(self).heap.loaded_classes@[declarer as int].static_fields@,
                name@,
            ) == Some(val),
            // Only the one slot of the one class moves.
            forall|j: int|
                0 <= j < old(self).heap.loaded_classes@.len() && j != declarer ==> (#[trigger] final(self).heap.loaded_classes@[j]) == old(self).heap.loaded_classes@[j],
            r matches Ok(()) ==> forall|m: Seq<char>|
                m != name@ ==> #[trigger] crate::heap::spec_field_find(
                    final(self).heap.loaded_classes@[declarer as int].static_fields@,
                    m,
                ) == crate::heap::spec_field_find(
                    old(self).heap.loaded_classes@[declarer as int].static_fields@,
                    m,
                ),
            final(self).heap.loaded_classes@.len() == old(self).heap.loaded_classes@.len(),
            // The write fails exactly when the class does not declare the
            // field, and then nothing moves.
            r is Err <==> crate::heap::spec_field_find(
                old(self).heap.loaded_classes@[declarer as int].static_fields@,
                name@,
            ) is None,
            r is Err ==> final(self).heap.loaded_classes@ == old(self).heap.loaded_classes@,
    {
        let r = crate::heap::field_update(
            &mut self.heap.loaded_classes[declarer].static_fields,
            name,
            val,
        );
        proof {
            crate::heap::lemma_assoc_index_find(
                old(self).heap.loaded_classes@[declarer as int].static_fields@,
                name@,
            );
            if r is Err {
                assert(self.heap.loaded_classes@[declarer as int] == old(self).heap.loaded_classes@[declarer as int]);
                assert(self.heap.loaded_classes@ =~= old(self).heap.loaded_classes@);
            }
            lemma_clinit_frames_ok_extend(
                self.call_stack_frames@,
                old(self).heap.loaded_classes@,
                self.heap.loaded_classes@,
            );
        }
        r
    }

    /// Overwrites field `name` of the object `instance_id`, raising
    /// `NoSuchFieldError` when the object has no such field and an internal
    /// error for an invalid reference.
    pub fn set_object_field(&mut self, instance_id: usize, name: &str, val: JavaValue) -> (r:
        RuntimeResult<()>)
        requires
            old(self).wf(),
        ensures
            final(self).wf(),
            final(self).classpath == old(self).classpath,
            classes_extend(old(self).heap.loaded_classes@, final(self).heap.loaded_classes@),
            r matches Ok(()) ==> final(self).call_stack_frames == old(self).call_stack_frames
                && final(self).heap.loaded_classes == old(self).heap.loaded_classes && (final(self).heap.entries@[instance_id as int] matches crate::heap::HeapEntry::ObjectEntry(o)
                && crate::heap::spec_field_find(o.instance_fields@, name@) == Some(val)),
            // A valid object without the field raises NoSuchFieldError.
            r is Err ==> !(old(self).heap.entries@.len() > instance_id && (old(self).heap.entries@[
                instance_id as int] matches crate::heap::HeapEntry::ObjectEntry(o)
                && crate::heap::spec_field_find(o.instance_fields@, name@) is Some)),
            r matches Err(t) ==> exception_delivered(*final(self), t),
    {
        if instance_id >= self.heap.entries.len() {
            return Err(self.throw_exception("java/lang/Error", Some("invalid object reference")));
        }
        let set: Result<(), ()> = match &mut self.heap.entries[instance_id] {
            crate::heap::HeapEntry::ObjectEntry(o) => o.set_field(name, val),
            _ => {
                return Err(self.throw_exception("java/lang/Error", Some("invalid object reference")));
            },
        };
        match set {
            Ok(()) => Ok(()),
            Err(()) => Err(self.throw_exception("java/lang/NoSuchFieldError", Some(name))),
        }
    }

    /// Overwrites element `index` of the array `array_id`, raising
    /// `ArrayIndexOutOfBoundsException` (carrying the index) when the index
    /// is out of range.
    pub fn set_array_element_checked(&mut self, array_id: usize, index: i32, val: JavaValue) -> (r:
        RuntimeResult<()>)
        requires
            old(self).wf(),
        ensures
            final(self).wf(),
            final(self).classpath == old(self).classpath,
            classes_extend(old(self).heap.loaded_classes@, final(self).heap.loaded_classes@),
            r matches Ok(()) ==> final(self).call_stack_frames == old(self).call_stack_frames
                && final(self).heap.loaded_classes == old(self).heap.loaded_classes && 0 <= index
                && (final(self).heap.entries@[array_id as int] matches
                crate::heap::HeapEntry::ArrayEntry(a) && (old(self).heap.entries@[array_id as int]
                matches crate::heap::HeapEntry::ArrayEntry(b) && (index as int)
                < b.values@.len() && a.values@ == b.values@.update(index as int, val))),
            // A store into a real array fails exactly on a bad index, with
            // ArrayIndexOutOfBoundsException carrying the index in decimal.
            (old(self).heap.entries@.len() > array_id && (old(self).heap.entries@[array_id as int]
                matches crate::heap::HeapEntry::ArrayEntry(b))) ==> (r is Err <==> (index < 0
                || index >= (match old(self).heap.entries@[array_id as int] {
                crate::heap::HeapEntry::ArrayEntry(b2) => b2.values@.len() as int,
                _ => 0,
            }))),
            (old(self).heap.entries@.len() > array_id && (old(self).heap.entries@[array_id as int]
                matches crate::heap::HeapEntry::ArrayEntry(b))) ==> (r matches Err(t) ==> (
            thrown_is_instance_of(
                *final(self),
                t,
                canonical_class_name("java/lang/ArrayIndexOutOfBoundsException"@),
            ) || t == JavaThrowable::Unhandled(0usize))),
            // A failed store leaves every existing heap entry in place (the
            // raise only appends the exception object).
            r is Err ==> entries_prefix(old(self).heap.entries@, final(self).heap.entries@),
            // The exception carries the offending index in decimal.
            (old(self).heap.entries@.len() > array_id && (old(self).heap.entries@[array_id as int]
                is ArrayEntry) && Heap::spec_find_class(
                old(self).heap.loaded_classes@,
                canonical_class_name("java/lang/ArrayIndexOutOfBoundsException"@),
            ) is Some && (Heap::spec_find_class(old(self).heap.loaded_classes@, "java/lang/String"@)
                matches Some(sid) && crate::heap::spec_field_find(
                old(self).heap.loaded_classes@[sid as int].instance_field_template@,
                "value"@,
            ) is Some)) ==> (r matches Err(t) ==> match t {
                JavaThrowable::Handled(id) => exception_message_is(
                    *final(self),
                    id as int,
                    crate::strutil::spec_i32_string(index),
                ),
                JavaThrowable::Unhandled(id) => exception_message_is(
                    *final(self),
                    id as int,
                    crate::strutil::spec_i32_string(index),
                ),
            }),
            r matches Err(t) ==> exception_delivered(*final(self), t),
    {
        if array_id >= self.heap.entries.len() {
            return Err(self.throw_exception("java/lang/Error", Some("invalid array reference")));
        }
        let in_range: bool = match &self.heap.entries[array_id] {
            crate::heap::HeapEntry::ArrayEntry(a) => index >= 0 && (index as usize) < a.values.len(),
            _ => {
                return Err(self.throw_exception("java/lang/Error", Some("invalid array reference")));
            },
        };
        if !in_range {
            let msg = crate::strutil::i32_to_string(index);
            return Err(
                self.throw_exception("java/lang/ArrayIndexOutOfBoundsException", Some(msg.as_str())),
            );
        }
        match &mut self.heap.entries[array_id] {
            crate::heap::HeapEntry::ArrayEntry(a) => {
                a.values[index as usize] = val;
            },
            _ => {
                return Err(self.throw_exception("java/lang/Error", Some("invalid array reference")));
            },
        }
        Ok(())
    }
}

impl Jvm {
    /// Builds a fresh (non-interned) `java.lang.String` for native code.
    pub fn new_string(&mut self, s: &str) -> (r: RuntimeResult<usize>)
        requires
            old(self).wf(),
        ensures
            final(self).wf(),
            final(self).classpath == old(self).classpath,
            classes_extend(old(self).heap.loaded_classes@, final(self).heap.loaded_classes@),
            r matches Ok(id) ==> is_string_object(final(self).heap.entries@, id as int, s@),
            r matches Err(t) ==> exception_delivered(*final(self), t),
    {
        self.create_string_object(s, false)
    }

    /// Builds or reuses the interned `java.lang.String` for `s`.
    pub fn new_interned_string(&mut self, s: &str) -> (r: RuntimeResult<usize>)
        requires
            old(self).wf(),
        ensures
            final(self).wf(),
            final(self).classpath == old(self).classpath,
            classes_extend(old(self).heap.loaded_classes@, final(self).heap.loaded_classes@),
            // Interning keys on the decoded text: a hit returns the recorded
            // object untouched, and the table afterwards maps the text to
            // the returned id.
            r matches Ok(id) ==> (crate::heap::assoc_find(old(self).heap.interned_strings@, s@)
                matches Some(eid) ==> id == eid && *final(self) == *old(self)),
            r matches Ok(id) ==> crate::heap::assoc_find(final(self).heap.interned_strings@, s@)
                == Some(id),
            r matches Err(t) ==> exception_delivered(*final(self), t),
    {
        self.create_string_object(s, true)
    }

    /// The number of cells of the array behind `array_id`.
    pub fn get_array_length(&self, array_id: usize) -> (r: Result<usize, ()>)
        ensures
            r matches Ok(n) ==> (self.heap.entries@[array_id as int] matches
                crate::heap::HeapEntry::ArrayEntry(a) && n == a.values@.len()),
    {
        match self.heap.get_array(array_id) {
            Some(a) => Ok(a.values.len()),
            None => Err(()),
        }
    }

    /// Reads one array cell.
    pub fn get_array_element(&self, array_id: usize, index: usize) -> (r: Result<JavaValue, ()>)
        ensures
            r matches Ok(v) ==> (self.heap.entries@[array_id as int] matches
                crate::heap::HeapEntry::ArrayEntry(a) && index < a.values@.len() && v == a.values@[
                index as int]),
    {
        match self.heap.get_array(array_id) {
            Some(a) => {
                if index < a.values.len() {
                    Ok(a.values[index])
                } else {
                    Err(())
                }
            },
            None => Err(()),
        }
    }

    /// Overwrites one array cell.
    pub fn set_array_element(&mut self, array_id: usize, index: usize, value: JavaValue) -> (r:
        Result<(), ()>)
        requires
            old(self).wf(),
        ensures
            final(self).wf(),
            final(self).classpath == old(self).classpath,
            final(self).call_stack_frames == old(self).call_stack_frames,
            final(self).heap.loaded_classes == old(self).heap.loaded_classes,
            r matches Ok(()) ==> (final(self).heap.entries@[array_id as int] matches
                crate::heap::HeapEntry::ArrayEntry(a) && index < a.values@.len() && a.values@[
                index as int] == value),
    {
        if array_id >= self.heap.entries.len() {
            return Err(());
        }
        match &mut self.heap.entries[array_id] {
            crate::heap::HeapEntry::ArrayEntry(a) => {
                if index < a.values.len() {
                    a.values[index] = value;
                    Ok(())
                } else {
                    Err(())
                }
            },
            _ => Err(()),
        }
    }

    /// The id of the object standing for the main thread.
    pub fn get_main_thread(&self) -> (r: usize)
        ensures
            r == self.heap.main_thread_object,
    {
        self.heap.main_thread_object
    }

    /// Records the object standing for the main thread.
    pub fn set_main_thread(&mut self, id: usize)
        requires
            old(self).wf(),
        ensures
            final(self).wf(),
            final(self).classpath == old(self).classpath,
            final(self).call_stack_frames == old(self).call_stack_frames,
            final(self).heap.main_thread_object == id,
            final(self).heap.loaded_classes == old(self).heap.loaded_classes,
            final(self).heap.entries == old(self).heap.entries,
    {
        self.heap.main_thread_object = id;
    }

    /// The superclass id of the loaded class `class_id`.
    pub fn get_superclass(&self, class_id: usize) -> (r: Result<Option<usize>, ()>)
        ensures
            r matches Ok(s) ==> class_id < self.heap.loaded_classes@.len() && s == self
                .heap.loaded_classes@[class_id as int].superclass_id,
    {
        if class_id < self.heap.loaded_classes.len() {
            Ok(self.heap.loaded_classes[class_id].superclass_id)
        } else {
            Err(())
        }
    }

    /// The `java.lang.Class` mirror object of the loaded class `class_id`.
    pub fn get_class_object(&self, class_id: usize) -> (r: Result<usize, ()>)
        ensures
            r matches Ok(o) ==> class_id < self.heap.loaded_classes@.len() && o == self
                .heap.loaded_classes@[class_id as int].class_object_id,
    {
        if class_id < self.heap.loaded_classes.len() {
            Ok(self.heap.loaded_classes[class_id].class_object_id)
        } else {
            Err(())
        }
    }

    /// The class name of the object behind `instance_id`.
    pub fn get_object_type_name(&self, instance_id: usize) -> (r: Result<String, ()>)
        ensures
            r matches Ok(n) ==> (self.heap.entries@[instance_id as int] matches
                crate::heap::HeapEntry::ObjectEntry(o) && o.class_id
                < self.heap.loaded_classes@.len() && n@ == self.heap.loaded_classes@[o.class_id as int].java_type@),
    {
        let class_id = match self.heap.get_object(instance_id) {
            Some(o) => o.class_id,
            None => {
                return Err(());
            },
        };
        if class_id < self.heap.loaded_classes.len() {
            Ok(self.heap.loaded_classes[class_id].java_type.clone())
        } else {
            Err(())
        }
    }

    /// Reads field `name` of the object behind `instance_id`.
    pub fn get_field(&self, instance_id: usize, name: &str) -> (r: Result<JavaValue, ()>)
        ensures
            r matches Ok(v) ==> (self.heap.entries@[instance_id as int] matches
                crate::heap::HeapEntry::ObjectEntry(o) && crate::heap::spec_field_find(
                o.instance_fields@,
                name@,
            ) == Some(v)),
    {
        match self.heap.get_object(instance_id) {
            Some(o) => o.get_field(name),
            None => Err(()),
        }
    }

    /// Attaches (or overwrites) a host-only metadata entry on an object.
    pub fn set_internal_metadata(
        &mut self,
        instance_id: usize,
        name: &str,
        value: crate::heap::InternalMetadata,
    ) -> (r: Result<(), ()>)
        requires
            old(self).wf(),
        ensures
            final(self).wf(),
            final(self).classpath == old(self).classpath,
            final(self).call_stack_frames == old(self).call_stack_frames,
            final(self).heap.loaded_classes == old(self).heap.loaded_classes,
    {
        if instance_id >= self.heap.entries.len() {
            return Err(());
        }
        match &mut self.heap.entries[instance_id] {
            crate::heap::HeapEntry::ObjectEntry(o) => {
                o.set_internal_metadata(name, value);
                Ok(())
            },
            _ => Err(()),
        }
    }

    /// Reads a host-only metadata entry of an object, as a copy.
    pub fn get_internal_metadata(&self, instance_id: usize, name: &str) -> (r: Option<
        crate::heap::InternalMetadata,
    >)
        ensures
            r matches Some(m) ==> (self.heap.entries@[instance_id as int] matches
                crate::heap::HeapEntry::ObjectEntry(o) && crate::heap::spec_meta_find(
                o.internal_metadata@,
                name@,
            ) == Some(m)),
    {
        match self.heap.get_object(instance_id) {
            Some(o) => match o.get_internal_metadata(name) {
                Some(m) => Some(m.duplicate()),
                None => None,
            },
            None => None,
        }
    }

    /// Removes a host-only metadata entry of an object.
    pub fn remove_internal_metadata(&mut self, instance_id: usize, name: &str) -> (r: Option<
        crate::heap::InternalMetadata,
    >)
        requires
            old(self).wf(),
        ensures
            final(self).wf(),
            final(self).classpath == old(self).classpath,
            final(self).call_stack_frames == old(self).call_stack_frames,
            final(self).heap.loaded_classes == old(self).heap.loaded_classes,
    {
        if instance_id >= self.heap.entries.len() {
            return None;
        }
        match &mut self.heap.entries[instance_id] {
            crate::heap::HeapEntry::ObjectEntry(o) => o.remove_internal_metadata(name),
            _ => None,
        }
    }

    /// Takes the pending return value a finished callee left for the top
    /// frame.
    pub fn take_return_value(&mut self) -> (r: Option<JavaValue>)
        requires
            old(self).wf(),
        ensures
            final(self).wf(),
            final(self).classpath == old(self).classpath,
            final(self).heap == old(self).heap,
    {
        let depth = self.call_stack_frames.len();
        if depth == 0 {
            return None;
        }
        let r = self.call_stack_frames[depth - 1].state.return_stack_value;
        self.call_stack_frames[depth - 1].state.return_stack_value = None;
        r
    }

    /// Completes a native call: pops the native frame and deposits the
    /// return value for the caller. Fails when the top frame is not native.
    pub fn complete_native(&mut self, return_value: Option<JavaValue>) -> (r: Result<(), ()>)
        requires
            old(self).wf(),
        ensures
            final(self).wf(),
            final(self).classpath == old(self).classpath,
            final(self).heap == old(self).heap,
            r matches Ok(()) ==> final(self).call_stack_frames@.len() == old(
                self,
            ).call_stack_frames@.len() - 1,
    {
        let depth = self.call_stack_frames.len();
        if depth == 0 {
            return Err(());
        }
        if !self.call_stack_frames[depth - 1].is_native_frame {
            return Err(());
        }
        self.call_stack_frames.pop();
        if depth >= 2 {
            self.call_stack_frames[depth - 2].state.return_stack_value = return_value;
        }
        Ok(())
    }

    /// Resolves a method under `invoke_type` starting from the loaded class
    /// `start_class_id` and pushes a frame for it, with the optional
    /// receiver and the arguments laid out in its locals (category-2
    /// arguments take two slots). The interpreter then runs it; the caller
    /// collects the result with `take_return_value` once the depth returns.
    pub fn push_invocation(
        &mut self,
        invoke_type: InvokeType,
        start_class_id: usize,
        receiver: Option<usize>,
        method_name: &str,
        method_descriptor: &str,
        args: &Vec<JavaValue>,
    ) -> (r: RuntimeResult<()>)
        requires
            old(self).wf(),
        ensures
            final(self).wf(),
            final(self).classpath == old(self).classpath,
            classes_extend(old(self).heap.loaded_classes@, final(self).heap.loaded_classes@),
            r is Ok ==> final(self).call_stack_frames@.len() == old(self).call_stack_frames@.len()
                + 1,
            // The pushed frame runs a method with the requested signature.
            r is Ok ==> final(self).call_stack_frames@.last().container_method@ == method_name@
                + method_descriptor@ && !final(self).call_stack_frames@.last().is_clinit_frame()
                && final(self).call_stack_frames@.take(old(self).call_stack_frames@.len() as int)
                == old(self).call_stack_frames@,
            r matches Err(t) ==> exception_delivered(*final(self), t),
    {
        if start_class_id >= self.heap.loaded_classes.len() {
            return Err(self.throw_exception("java/lang/Error", Some("invalid class id")));
        }
        let class_name = self.get_class_name_from_id(start_class_id);
        let frame_result: Result<CallStackFrame, FrameError> = {
            let cf = match self.classpath.get_classpath_entry(class_name.as_str()) {
                Some(cf) => cf,
                None => {
                    return Err(
                        self.throw_exception("java/lang/NoClassDefError", Some(class_name.as_str())),
                    );
                },
            };
            match self.classpath.get_method(invoke_type, cf, method_name, method_descriptor) {
                Some((mc, m)) => {
                    proof {
                        crate::classpath::lemma_resolve_matches(
                            self.classpath.class_files@,
                            *cf,
                            method_name@,
                            method_descriptor@,
                            invoke_type == InvokeType::Static,
                            self.classpath.class_files@.len() as nat,
                        );
                    }
                    Jvm::create_stack_frame(mc, m)
                },
                None => {
                    let mut msg = class_name.clone();
                    msg.append(".");
                    msg.append(method_name);
                    msg.append(method_descriptor);
                    return Err(
                        self.throw_exception("java/lang/NoSuchMethodError", Some(msg.as_str())),
                    );
                },
            }
        };
        let mut frame = match frame_result {
            Ok(f) => f,
            Err(FrameError::AbstractMethod) => {
                let mut msg = class_name.clone();
                msg.append(".");
                msg.append(method_name);
                return Err(
                    self.throw_exception("java/lang/AbstractMethodError", Some(msg.as_str())),
                );
            },
            Err(_) => {
                return Err(self.throw_exception("java/lang/Error", Some("malformed method")));
            },
        };
        if frame.container_method.as_str().unicode_len() >= 8 {
            let head = frame.container_method.as_str().substring_char(0, 8);
            if crate::strutil::str_eq(head, "<clinit>") {
                return Err(
                    self.throw_exception(
                        "java/lang/Error",
                        Some("static initializers cannot be invoked"),
                    ),
                );
            }
        }
        proof {
            reveal_strlit("<clinit>");
            assert(!frame.is_clinit_frame());
        }
        let mut lvt_index: usize = 0;
        match receiver {
            Some(id) => {
                match crate::interp::frameops::lvt_set(
                    &mut frame.state,
                    0,
                    JavaValue::Object(Some(id)),
                ) {
                    Ok(()) => {},
                    Err(()) => {
                        return Err(
                            self.throw_exception("java/lang/Error", Some("local variable table too small")),
                        );
                    },
                }
                lvt_index = 1;
            },
            None => {},
        }
        let n = args.len();
        let mut k: usize = 0;
        let ghost frame0 = frame;
        while k < n
            invariant
                k <= n,
                n == args@.len(),
                self.wf(),
                frame.container_class == frame0.container_class,
                frame.container_method == frame0.container_method,
                frame.access_flags == frame0.access_flags,
                frame.is_native_frame == frame0.is_native_frame,
                frame.metadata == frame0.metadata,
                frame.instructions == frame0.instructions,
                frame.state.stack == frame0.state.stack,
                frame.state.instruction_offset == frame0.state.instruction_offset,
                frame.state.return_stack_value == frame0.state.return_stack_value,
            decreases n - k,
        {
            let v = args[k];
            if lvt_index >= usize::MAX - 2 {
                break ;
            }
            if v.is_category_2_exec() {
                match crate::interp::frameops::lvt_set_wide(&mut frame.state, lvt_index, v) {
                    Ok(()) => {},
                    Err(()) => {},
                }
                lvt_index = lvt_index + 2;
            } else {
                match crate::interp::frameops::lvt_set(&mut frame.state, lvt_index, v) {
                    Ok(()) => {},
                    Err(()) => {},
                }
                lvt_index = lvt_index + 1;
            }
            k = k + 1;
        }
        proof {
            assert(frame.wf());
        }
        self.push_call_stack_frame(frame);
        proof {
            assert(self.call_stack_frames@.take(old(self).call_stack_frames@.len() as int) =~= old(
                self,
            ).call_stack_frames@);
        }
        Ok(())
    }

    /// Pushes the synthetic bottom-of-stack frame that receives the last
    /// return value and stops the unwinder.
    pub fn push_bootstrap_frame(&mut self)
        requires
            old(self).wf(),
        ensures
            final(self).wf(),
            final(self).classpath == old(self).classpath,
            final(self).heap == old(self).heap,
            final(self).call_stack_frames@.len() == old(self).call_stack_frames@.len() + 1,
    {
        let sentinel = CallStackFrame {
            container_class: "webjvm/lang/Main".to_owned(),
            container_method: "main()V".to_owned(),
            access_flags: 0,
            is_native_frame: false,
            metadata: None,
            instructions: Vec::new(),
            state: CallStackFrameState {
                line_number: 0,
                instruction_offset: 0,
                stack: JavaValueVec::new(),
                lvt: JavaValueVec::new(),
                return_stack_value: None,
            },
        };
        proof {
            reveal_strlit("main()V");
            assert(!sentinel.is_clinit_frame());
        }
        self.push_call_stack_frame(sentinel);
    }

    /// Pushes the synthetic bottom-of-stack frame and a frame for the
    /// latest-added `main([Ljava/lang/String;)V` on the classpath. Running
    /// until the depth falls to 1 then executes the whole program.
    pub fn prepare_main_invocation(&mut self) -> (r: RuntimeResult<()>)
        requires
            old(self).wf(),
        ensures
            final(self).wf(),
            final(self).classpath == old(self).classpath,
            classes_extend(old(self).heap.loaded_classes@, final(self).heap.loaded_classes@),
            r is Ok ==> final(self).call_stack_frames@.len() == old(self).call_stack_frames@.len()
                + 2,
            // The top frame runs a resolved main([Ljava/lang/String;)V.
            r is Ok ==> final(self).call_stack_frames@.last().container_method@ == "main"@
                + "([Ljava/lang/String;)V"@,
            // With no resolvable main on the classpath nothing is prepared.
            crate::classpath::spec_find_main(
                old(self).classpath.class_files@,
                old(self).classpath.class_files@.len() as int,
            ) is None ==> r is Err,
            r matches Err(t) ==> exception_delivered(*final(self), t),
    {
        let frame_result: Result<CallStackFrame, FrameError> = {
            match self.classpath.get_main_method() {
                Some((mc, m)) => Jvm::create_stack_frame(mc, m),
                None => {
                    return Err(
                        self.throw_exception("java/lang/Error", Some("no main method on the classpath")),
                    );
                },
            }
        };
        let main_frame = match frame_result {
            Ok(f) => f,
            Err(_) => {
                return Err(self.throw_exception("java/lang/Error", Some("malformed main method")));
            },
        };
        self.push_bootstrap_frame();
        proof {
            reveal_strlit("<clinit>");
        }
        if main_frame.container_method.as_str().unicode_len() >= 8 {
            let head = main_frame.container_method.as_str().substring_char(0, 8);
            if crate::strutil::str_eq(head, "<clinit>") {
                return Err(
                    self.throw_exception("java/lang/Error", Some("malformed main method")),
                );
            }
        }
        proof {
            assert(!main_frame.is_clinit_frame());
        }
        self.push_call_stack_frame(main_frame);
        Ok(())
    }
}

impl JavaClass {
    /// Stores `val` into the static field `name`, found by walking the
    /// superclass chain from the class named `root_class` (loading it first
    /// when needed; initializers queued by the load run on the next steps).
    pub fn set_static_field(jvm: &mut Jvm, root_class: &str, name: &str, val: JavaValue) -> (r:
        RuntimeResult<()>)
        requires
            old(jvm).wf(),
        ensures
            final(jvm).wf(),
            final(jvm).classpath == old(jvm).classpath,
            classes_extend(old(jvm).heap.loaded_classes@, final(jvm).heap.loaded_classes@),
            // The write lands in the static slot of the declaring class on
            // the superclass chain.
            r is Ok ==> exists|d: int|
                0 <= d < final(jvm).heap.loaded_classes@.len() && crate::heap::spec_field_find(
                    (#[trigger] final(jvm).heap.loaded_classes@[d]).static_fields@,
                    name@,
                ) == Some(val),
            // The slot written is the nearest declarer on the superclass
            // walk from the named root class.
            r is Ok ==> exists|cid: int|
                0 <= cid < final(jvm).heap.loaded_classes@.len() && (#[trigger] final(jvm).heap.loaded_classes@[cid]).java_type@ == canonical_class_name(root_class@) && (
                spec_static_declarer(final(jvm).heap.loaded_classes@, cid, name@) matches Some(d)
                    && crate::heap::spec_field_find(
                    final(jvm).heap.loaded_classes@[d].static_fields@,
                    name@,
                ) == Some(val)),
            // For a root class that is already loaded and initialized, the
            // only failure is a missing field: NoSuchFieldError.
            r matches Err(t) ==> (thrown_is_instance_of(
                *final(jvm),
                t,
                canonical_class_name("java/lang/NoSuchFieldError"@),
            ) || t == JavaThrowable::Unhandled(0usize) || !(Heap::spec_find_class(
                old(jvm).heap.loaded_classes@,
                canonical_class_name(root_class@),
            ) matches Some(pid) && old(jvm).heap.loaded_classes@[pid].is_initialized)),
            r matches Err(t) ==> exception_delivered(*final(jvm), t),
    {
        let class_id = jvm.ensure_class_loaded(root_class, true)?;
        let ghost classes_m = jvm.heap.loaded_classes@;
        match jvm.find_static_declarer(class_id, name) {
            Some(declarer) => match jvm.set_static_field_at(declarer, name, val) {
                Ok(()) => {
                    proof {
                        lemma_static_declarer_after_write(
                            classes_m,
                            jvm.heap.loaded_classes@,
                            class_id as int,
                            name@,
                            declarer as int,
                        );
                    }
                    Ok(())
                },
                Err(()) => Err(jvm.throw_exception("java/lang/Error", Some("static field lookup failed"))),
            },
            None => {
                let mut msg = root_class.to_owned();
                msg.append(".");
                msg.append(name);
                Err(jvm.throw_exception("java/lang/NoSuchFieldError", Some(msg.as_str())))
            },
        }
    }

    /// Reads the static field `name`, found by walking the superclass chain
    /// from the class named `root_class`.
    pub fn get_static_field(jvm: &mut Jvm, root_class: &str, name: &str) -> (r: RuntimeResult<
        JavaValue,
    >)
        requires
            old(jvm).wf(),
        ensures
            final(jvm).wf(),
            final(jvm).classpath == old(jvm).classpath,
            classes_extend(old(jvm).heap.loaded_classes@, final(jvm).heap.loaded_classes@),
            r matches Ok(v) ==> exists|d: int|
                0 <= d < final(jvm).heap.loaded_classes@.len() && crate::heap::spec_field_find(
                    (#[trigger] final(jvm).heap.loaded_classes@[d]).static_fields@,
                    name@,
                ) == Some(v),
            r matches Err(t) ==> exception_delivered(*final(jvm), t),
    {
        let class_id = jvm.ensure_class_loaded(root_class, true)?;
        match jvm.find_static_declarer(class_id, name) {
            Some(declarer) => {
                match crate::heap::field_find(
                    &jvm.heap.loaded_classes[declarer].static_fields,
                    name,
                ) {
                    Some(v) => Ok(v),
                    None => Err(jvm.throw_exception("java/lang/Error", Some("static field lookup failed"))),
                }
            },
            None => {
                let mut msg = root_class.to_owned();
                msg.append(".");
                msg.append(name);
                Err(jvm.throw_exception("java/lang/NoSuchFieldError", Some(msg.as_str())))
            },
        }
    }
}

} // verus!
