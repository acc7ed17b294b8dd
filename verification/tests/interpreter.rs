//! End-to-end interpreter scenarios over synthesized class files.

use webjvm::classpath::{Classpath, InvokeType};
use webjvm::floatops::FloatOps;
use webjvm::frame::JavaThrowable;
use webjvm::heap::field_find;
use webjvm::interp::{InstructionExecutor, RunEvent};
use webjvm::jvm::Jvm;
use webjvm::value::JavaValue;

// ---------------------------------------------------------------------------
// Host floating point for the delegated operations.

struct HostFloat;

impl FloatOps for HostFloat {
    fn fadd(&self, a: u32, b: u32) -> u32 {
        (f32::from_bits(a) + f32::from_bits(b)).to_bits()
    }
    fn fsub(&self, a: u32, b: u32) -> u32 {
        (f32::from_bits(a) - f32::from_bits(b)).to_bits()
    }
    fn fmul(&self, a: u32, b: u32) -> u32 {
        (f32::from_bits(a) * f32::from_bits(b)).to_bits()
    }
    fn fdiv(&self, a: u32, b: u32) -> u32 {
        (f32::from_bits(a) / f32::from_bits(b)).to_bits()
    }
    fn frem(&self, a: u32, b: u32) -> u32 {
        (f32::from_bits(a) % f32::from_bits(b)).to_bits()
    }
    fn dadd(&self, a: u64, b: u64) -> u64 {
        (f64::from_bits(a) + f64::from_bits(b)).to_bits()
    }
    fn dsub(&self, a: u64, b: u64) -> u64 {
        (f64::from_bits(a) - f64::from_bits(b)).to_bits()
    }
    fn dmul(&self, a: u64, b: u64) -> u64 {
        (f64::from_bits(a) * f64::from_bits(b)).to_bits()
    }
    fn ddiv(&self, a: u64, b: u64) -> u64 {
        (f64::from_bits(a) / f64::from_bits(b)).to_bits()
    }
    fn drem(&self, a: u64, b: u64) -> u64 {
        (f64::from_bits(a) % f64::from_bits(b)).to_bits()
    }
    fn fcmp(&self, a: u32, b: u32) -> i32 {
        match f32::from_bits(a).partial_cmp(&f32::from_bits(b)) {
            Some(std::cmp::Ordering::Less) => -1,
            Some(std::cmp::Ordering::Equal) => 0,
            Some(std::cmp::Ordering::Greater) => 1,
            None => 2,
        }
    }
    fn dcmp(&self, a: u64, b: u64) -> i32 {
        match f64::from_bits(a).partial_cmp(&f64::from_bits(b)) {
            Some(std::cmp::Ordering::Less) => -1,
            Some(std::cmp::Ordering::Equal) => 0,
            Some(std::cmp::Ordering::Greater) => 1,
            None => 2,
        }
    }
    fn i2f(&self, v: i32) -> u32 {
        (v as f32).to_bits()
    }
    fn i2d(&self, v: i32) -> u64 {
        (v as f64).to_bits()
    }
    fn l2f(&self, v: i64) -> u32 {
        (v as f32).to_bits()
    }
    fn l2d(&self, v: i64) -> u64 {
        (v as f64).to_bits()
    }
    fn f2i(&self, v: u32) -> i32 {
        f32::from_bits(v) as i32
    }
    fn f2l(&self, v: u32) -> i64 {
        f32::from_bits(v) as i64
    }
    fn f2d(&self, v: u32) -> u64 {
        (f32::from_bits(v) as f64).to_bits()
    }
    fn d2i(&self, v: u64) -> i32 {
        f64::from_bits(v) as i32
    }
    fn d2l(&self, v: u64) -> i64 {
        f64::from_bits(v) as i64
    }
    fn d2f(&self, v: u64) -> u32 {
        (f64::from_bits(v) as f32).to_bits()
    }
}

// ---------------------------------------------------------------------------
// A small class-file assembler.

struct ClassFileBuilder {
    pool: Vec<u8>,
    pool_count: u16,
}

impl ClassFileBuilder {
    fn new() -> ClassFileBuilder {
        ClassFileBuilder { pool: Vec::new(), pool_count: 1 }
    }

    fn utf8(&mut self, s: &str) -> u16 {
        let i = self.pool_count;
        self.pool.push(1);
        self.pool.extend_from_slice(&(s.len() as u16).to_be_bytes());
        self.pool.extend_from_slice(s.as_bytes());
        self.pool_count += 1;
        i
    }

    fn class(&mut self, name: &str) -> u16 {
        let n = self.utf8(name);
        let i = self.pool_count;
        self.pool.push(7);
        self.pool.extend_from_slice(&n.to_be_bytes());
        self.pool_count += 1;
        i
    }

    fn string(&mut self, s: &str) -> u16 {
        let u = self.utf8(s);
        let i = self.pool_count;
        self.pool.push(8);
        self.pool.extend_from_slice(&u.to_be_bytes());
        self.pool_count += 1;
        i
    }

    fn name_and_type(&mut self, name: &str, desc: &str) -> u16 {
        let n = self.utf8(name);
        let d = self.utf8(desc);
        let i = self.pool_count;
        self.pool.push(12);
        self.pool.extend_from_slice(&n.to_be_bytes());
        self.pool.extend_from_slice(&d.to_be_bytes());
        self.pool_count += 1;
        i
    }

    fn field_ref(&mut self, class_idx: u16, name: &str, desc: &str) -> u16 {
        let nat = self.name_and_type(name, desc);
        let i = self.pool_count;
        self.pool.push(9);
        self.pool.extend_from_slice(&class_idx.to_be_bytes());
        self.pool.extend_from_slice(&nat.to_be_bytes());
        self.pool_count += 1;
        i
    }

    fn method_ref(&mut self, class_idx: u16, name: &str, desc: &str) -> u16 {
        let nat = self.name_and_type(name, desc);
        let i = self.pool_count;
        self.pool.push(10);
        self.pool.extend_from_slice(&class_idx.to_be_bytes());
        self.pool.extend_from_slice(&nat.to_be_bytes());
        self.pool_count += 1;
        i
    }
}

struct MethodBlob {
    flags: u16,
    name_idx: u16,
    desc_idx: u16,
    // (max_stack, max_locals, code, exception table rows)
    code: Option<(u16, u16, Vec<u8>, Vec<(u16, u16, u16, u16)>)>,
    code_attr_name: u16,
}

fn finish_class(
    b: ClassFileBuilder,
    this_idx: u16,
    super_idx: u16,
    fields: Vec<(u16, u16, u16)>,
    methods: Vec<MethodBlob>,
) -> Vec<u8> {
    let mut out: Vec<u8> = Vec::new();
    out.extend_from_slice(&0xCAFEBABEu32.to_be_bytes());
    out.extend_from_slice(&0u16.to_be_bytes()); // minor
    out.extend_from_slice(&52u16.to_be_bytes()); // major
    out.extend_from_slice(&b.pool_count.to_be_bytes());
    out.extend_from_slice(&b.pool);
    out.extend_from_slice(&0x0021u16.to_be_bytes()); // ACC_PUBLIC | ACC_SUPER
    out.extend_from_slice(&this_idx.to_be_bytes());
    out.extend_from_slice(&super_idx.to_be_bytes());
    out.extend_from_slice(&0u16.to_be_bytes()); // interfaces
    out.extend_from_slice(&(fields.len() as u16).to_be_bytes());
    for (flags, name_idx, desc_idx) in fields {
        out.extend_from_slice(&flags.to_be_bytes());
        out.extend_from_slice(&name_idx.to_be_bytes());
        out.extend_from_slice(&desc_idx.to_be_bytes());
        out.extend_from_slice(&0u16.to_be_bytes()); // no attributes
    }
    out.extend_from_slice(&(methods.len() as u16).to_be_bytes());
    for m in methods {
        out.extend_from_slice(&m.flags.to_be_bytes());
        out.extend_from_slice(&m.name_idx.to_be_bytes());
        out.extend_from_slice(&m.desc_idx.to_be_bytes());
        match m.code {
            Some((max_stack, max_locals, code, handlers)) => {
                out.extend_from_slice(&1u16.to_be_bytes()); // one attribute
                out.extend_from_slice(&m.code_attr_name.to_be_bytes());
                let mut info: Vec<u8> = Vec::new();
                info.extend_from_slice(&max_stack.to_be_bytes());
                info.extend_from_slice(&max_locals.to_be_bytes());
                info.extend_from_slice(&(code.len() as u32).to_be_bytes());
                info.extend_from_slice(&code);
                info.extend_from_slice(&(handlers.len() as u16).to_be_bytes());
                for (s, e, h, c) in handlers {
                    info.extend_from_slice(&s.to_be_bytes());
                    info.extend_from_slice(&e.to_be_bytes());
                    info.extend_from_slice(&h.to_be_bytes());
                    info.extend_from_slice(&c.to_be_bytes());
                }
                info.extend_from_slice(&0u16.to_be_bytes()); // no code attributes
                out.extend_from_slice(&(info.len() as u32).to_be_bytes());
                out.extend_from_slice(&info);
            }
            None => {
                out.extend_from_slice(&0u16.to_be_bytes());
            }
        }
    }
    out.extend_from_slice(&0u16.to_be_bytes()); // class attributes
    out
}

/// A class with no members.
fn trivial_class(name: &str, super_name: Option<&str>) -> Vec<u8> {
    let mut b = ClassFileBuilder::new();
    let this_idx = b.class(name);
    let super_idx = match super_name {
        Some(s) => b.class(s),
        None => 0,
    };
    finish_class(b, this_idx, super_idx, vec![], vec![])
}

/// java/lang/Throwable with a detailMessage field, a constructor that
/// stores it, and getMessage().
fn throwable_class() -> Vec<u8> {
    let mut b = ClassFileBuilder::new();
    let this_idx = b.class("java/lang/Throwable");
    let super_idx = b.class("java/lang/Object");
    let f_name = b.utf8("detailMessage");
    let f_desc = b.utf8("Ljava/lang/String;");
    let fr = b.field_ref(this_idx, "detailMessage", "Ljava/lang/String;");
    let code_attr = b.utf8("Code");
    let init_name = b.utf8("<init>");
    let init_desc = b.utf8("(Ljava/lang/String;)V");
    let gm_name = b.utf8("getMessage");
    let gm_desc = b.utf8("()Ljava/lang/String;");
    let init_code = vec![
        0x2a, // aload_0
        0x2b, // aload_1
        0xb5, (fr >> 8) as u8, fr as u8, // putfield detailMessage
        0xb1, // return
    ];
    let gm_code = vec![
        0x2a, // aload_0
        0xb4, (fr >> 8) as u8, fr as u8, // getfield detailMessage
        0xb0, // areturn
    ];
    finish_class(
        b,
        this_idx,
        super_idx,
        vec![(0x0002, f_name, f_desc)],
        vec![
            MethodBlob {
                flags: 0x0001,
                name_idx: init_name,
                desc_idx: init_desc,
                code: Some((2, 2, init_code, vec![])),
                code_attr_name: code_attr,
            },
            MethodBlob {
                flags: 0x0001,
                name_idx: gm_name,
                desc_idx: gm_desc,
                code: Some((1, 1, gm_code, vec![])),
                code_attr_name: code_attr,
            },
        ],
    )
}

/// An exception class with its own constructor that stores the message in
/// the inherited detailMessage field.
fn exception_class(name: &str, super_name: &str) -> Vec<u8> {
    let mut b = ClassFileBuilder::new();
    let this_idx = b.class(name);
    let super_idx = b.class(super_name);
    let fr = b.field_ref(this_idx, "detailMessage", "Ljava/lang/String;");
    let code_attr = b.utf8("Code");
    let init_name = b.utf8("<init>");
    let init_desc = b.utf8("(Ljava/lang/String;)V");
    let init_code = vec![
        0x2a, // aload_0
        0x2b, // aload_1
        0xb5, (fr >> 8) as u8, fr as u8, // putfield detailMessage
        0xb1, // return
    ];
    finish_class(
        b,
        this_idx,
        super_idx,
        vec![],
        vec![MethodBlob {
            flags: 0x0001,
            name_idx: init_name,
            desc_idx: init_desc,
            code: Some((2, 2, init_code, vec![])),
            code_attr_name: code_attr,
        }],
    )
}

/// java/lang/String with its value char-array field.
fn string_class() -> Vec<u8> {
    let mut b = ClassFileBuilder::new();
    let this_idx = b.class("java/lang/String");
    let super_idx = b.class("java/lang/Object");
    let f_name = b.utf8("value");
    let f_desc = b.utf8("[C");
    finish_class(b, this_idx, super_idx, vec![(0x0002, f_name, f_desc)], vec![])
}

/// The runtime classes every scenario needs.
fn base_classpath() -> Classpath {
    let mut cp = Classpath::new();
    cp.add_classpath_entry(&trivial_class("java/lang/Object", None)).unwrap();
    cp.add_classpath_entry(&trivial_class("java/lang/Class", Some("java/lang/Object"))).unwrap();
    cp.add_classpath_entry(&string_class()).unwrap();
    cp.add_classpath_entry(&throwable_class()).unwrap();
    cp.add_classpath_entry(&trivial_class("java/lang/Exception", Some("java/lang/Throwable")))
        .unwrap();
    cp.add_classpath_entry(&exception_class("java/lang/RuntimeException", "java/lang/Exception"))
        .unwrap();
    cp.add_classpath_entry(&trivial_class(
        "java/lang/ArithmeticException",
        Some("java/lang/RuntimeException"),
    ))
    .unwrap();
    cp.add_classpath_entry(&trivial_class(
        "java/lang/ArrayIndexOutOfBoundsException",
        Some("java/lang/RuntimeException"),
    ))
    .unwrap();
    cp.add_classpath_entry(&trivial_class(
        "java/lang/NegativeArraySizeException",
        Some("java/lang/RuntimeException"),
    ))
    .unwrap();
    cp.add_classpath_entry(&trivial_class(
        "java/lang/NullPointerException",
        Some("java/lang/RuntimeException"),
    ))
    .unwrap();
    cp.add_classpath_entry(&trivial_class("java/lang/Error", Some("java/lang/Throwable")))
        .unwrap();
    for linkage in [
        "java/lang/NoClassDefError",
        "java/lang/NoClassDefFoundError",
        "java/lang/NoSuchMethodError",
        "java/lang/NoSuchFieldError",
        "java/lang/AbstractMethodError",
        "java/lang/UnsatisfiedLinkError",
        "java/lang/ClassCastException",
    ] {
        cp.add_classpath_entry(&trivial_class(linkage, Some("java/lang/Error"))).unwrap();
    }
    cp
}

/// A class holding one static test method.
fn static_method_class(
    name: &str,
    method: &str,
    desc: &str,
    max_stack: u16,
    max_locals: u16,
    build: impl FnOnce(&mut ClassFileBuilder) -> (Vec<u8>, Vec<(u16, u16, u16, u16)>),
) -> Vec<u8> {
    let mut b = ClassFileBuilder::new();
    let this_idx = b.class(name);
    let super_idx = b.class("java/lang/Object");
    let code_attr = b.utf8("Code");
    let m_name = b.utf8(method);
    let m_desc = b.utf8(desc);
    let (code, handlers) = build(&mut b);
    finish_class(
        b,
        this_idx,
        super_idx,
        vec![],
        vec![MethodBlob {
            flags: 0x0009, // public static
            name_idx: m_name,
            desc_idx: m_desc,
            code: Some((max_stack, max_locals, code, handlers)),
            code_attr_name: code_attr,
        }],
    )
}

fn run_static(
    jvm: &mut Jvm,
    exec: &mut InstructionExecutor,
    class: &str,
    method: &str,
    desc: &str,
    args: Vec<JavaValue>,
) -> Result<Option<JavaValue>, JavaThrowable> {
    if jvm.get_stack_depth() == 0 {
        jvm.push_bootstrap_frame();
    }
    let d0 = jvm.get_stack_depth();
    let cid = jvm.ensure_class_loaded(class, true)?;
    let ev = exec.step_until_stack_depth(jvm, d0, 1_000_000, &HostFloat).map_err(|t| {
        println!("raised: {}", exception_class_name(jvm, &t));
        t
    })?;
    assert!(matches!(ev, RunEvent::ReachedDepth), "static initializers did not finish");
    jvm.push_invocation(InvokeType::Static, cid, None, method, desc, &args)?;
    let ev = exec.step_until_stack_depth(jvm, d0, 1_000_000, &HostFloat).map_err(|t| {
        println!("raised: {}", exception_class_name(jvm, &t));
        t
    })?;
    assert!(matches!(ev, RunEvent::ReachedDepth), "method did not finish");
    Ok(jvm.take_return_value())
}

fn exception_class_name(jvm: &Jvm, t: &JavaThrowable) -> String {
    let id = match t {
        JavaThrowable::Handled(id) => *id,
        JavaThrowable::Unhandled(id) => *id,
    };
    let mut name =
        jvm.get_object_type_name(id).unwrap_or_else(|()| "<no exception object>".to_string());
    if let Ok(JavaValue::Object(Some(sid))) = jvm.get_field(id, "detailMessage") {
        if let Ok(msg) = jvm.get_string(sid) {
            name.push_str(": ");
            name.push_str(&msg);
        }
    }
    name
}

// ---------------------------------------------------------------------------
// Scenarios.

#[test]
fn irem_computes_remainder() {
    let mut cp = base_classpath();
    cp.add_classpath_entry(&static_method_class("T", "go", "()I", 2, 0, |_| {
        (
            vec![
                0x10, 7, // bipush 7
                0x10, 3, // bipush 3
                0x70, // irem
                0xac, // ireturn
            ],
            vec![],
        )
    }))
    .unwrap();
    let mut jvm = Jvm::new(cp);
    let mut exec = InstructionExecutor::new();
    let r = run_static(&mut jvm, &mut exec, "T", "go", "()I", vec![]).unwrap();
    assert!(matches!(r, Some(JavaValue::Int(1))));
}

#[test]
fn idiv_by_zero_throws_arithmetic_exception() {
    let mut cp = base_classpath();
    cp.add_classpath_entry(&static_method_class("T", "go", "()I", 2, 0, |_| {
        (
            vec![
                0x08, // iconst_5
                0x03, // iconst_0
                0x6c, // idiv
                0xac, // ireturn
            ],
            vec![],
        )
    }))
    .unwrap();
    let mut jvm = Jvm::new(cp);
    let mut exec = InstructionExecutor::new();
    let err = run_static(&mut jvm, &mut exec, "T", "go", "()I", vec![]).unwrap_err();
    assert_eq!(exception_class_name(&jvm, &err), "java/lang/ArithmeticException: / by zero");
}

#[test]
fn iastore_out_of_bounds_throws_with_index_message() {
    let mut cp = base_classpath();
    cp.add_classpath_entry(&static_method_class("T", "go", "()V", 4, 0, |_| {
        (
            vec![
                0x06, // iconst_3
                0xbc, 10, // newarray int
                0x59, // dup
                0x08, // iconst_5
                0x10, 42, // bipush 42
                0x4f, // iastore
                0xb1, // return
            ],
            vec![],
        )
    }))
    .unwrap();
    let mut jvm = Jvm::new(cp);
    let mut exec = InstructionExecutor::new();
    let err = run_static(&mut jvm, &mut exec, "T", "go", "()V", vec![]).unwrap_err();
    assert_eq!(exception_class_name(&jvm, &err), "java/lang/ArrayIndexOutOfBoundsException: 5");
    let id = match err {
        JavaThrowable::Unhandled(id) => id,
        JavaThrowable::Handled(id) => id,
    };
    let msg = match jvm.get_field(id, "detailMessage").unwrap() {
        JavaValue::Object(Some(sid)) => jvm.get_string(sid).unwrap(),
        other => panic!("unexpected detailMessage {:?}", other),
    };
    assert_eq!(msg, "5");
}

/// Class A declares m()I returning 1; B extends A overriding it to return 2.
fn dispatch_classes() -> (Vec<u8>, Vec<u8>) {
    let mut a = ClassFileBuilder::new();
    let a_this = a.class("VirtA");
    let a_super = a.class("java/lang/Object");
    let a_code_attr = a.utf8("Code");
    let a_m = a.utf8("m");
    let a_md = a.utf8("()I");
    let a_bytes = finish_class(
        a,
        a_this,
        a_super,
        vec![],
        vec![MethodBlob {
            flags: 0x0001,
            name_idx: a_m,
            desc_idx: a_md,
            code: Some((1, 1, vec![0x04, 0xac], vec![])), // iconst_1; ireturn
            code_attr_name: a_code_attr,
        }],
    );
    let mut bb = ClassFileBuilder::new();
    let b_this = bb.class("VirtB");
    let b_super = bb.class("VirtA");
    let b_code_attr = bb.utf8("Code");
    let b_m = bb.utf8("m");
    let b_md = bb.utf8("()I");
    let b_bytes = finish_class(
        bb,
        b_this,
        b_super,
        vec![],
        vec![MethodBlob {
            flags: 0x0001,
            name_idx: b_m,
            desc_idx: b_md,
            code: Some((1, 1, vec![0x05, 0xac], vec![])), // iconst_2; ireturn
            code_attr_name: b_code_attr,
        }],
    );
    (a_bytes, b_bytes)
}

#[test]
fn virtual_dispatch_selects_override() {
    let mut cp = base_classpath();
    let (a_bytes, b_bytes) = dispatch_classes();
    cp.add_classpath_entry(&a_bytes).unwrap();
    cp.add_classpath_entry(&b_bytes).unwrap();
    cp.add_classpath_entry(&static_method_class("T", "go", "()I", 2, 0, |b| {
        let b_cls = b.class("VirtB");
        let a_cls = b.class("VirtA");
        let mref = b.method_ref(a_cls, "m", "()I");
        (
            vec![
                0xbb, (b_cls >> 8) as u8, b_cls as u8, // new B
                0xb6, (mref >> 8) as u8, mref as u8, // invokevirtual VirtA.m()I
                0xac, // ireturn
            ],
            vec![],
        )
    }))
    .unwrap();
    let mut jvm = Jvm::new(cp);
    let mut exec = InstructionExecutor::new();
    let r = run_static(&mut jvm, &mut exec, "T", "go", "()I", vec![]).unwrap();
    assert!(matches!(r, Some(JavaValue::Int(2))));
}

/// A and B carry static initializers; B's records what A.tag held when it
/// ran (so the ordering is observable) and then sets its own tag.
fn clinit_classes() -> (Vec<u8>, Vec<u8>) {
    let mut a = ClassFileBuilder::new();
    let a_this = a.class("CA");
    let a_super = a.class("java/lang/Object");
    let a_code_attr = a.utf8("Code");
    let a_tag_name = a.utf8("tag");
    let a_tag_desc = a.utf8("Ljava/lang/String;");
    let a_tag_ref = a.field_ref(a_this, "tag", "Ljava/lang/String;");
    let a_lit = a.string("A");
    let a_clinit = a.utf8("<clinit>");
    let a_void = a.utf8("()V");
    let a_bytes = finish_class(
        a,
        a_this,
        a_super,
        vec![(0x0009, a_tag_name, a_tag_desc)],
        vec![MethodBlob {
            flags: 0x0009,
            name_idx: a_clinit,
            desc_idx: a_void,
            code: Some((
                1,
                0,
                vec![
                    0x12, a_lit as u8, // ldc "A"
                    0xb3, (a_tag_ref >> 8) as u8, a_tag_ref as u8, // putstatic CA.tag
                    0xb1,
                ],
                vec![],
            )),
            code_attr_name: a_code_attr,
        }],
    );
    let mut bb = ClassFileBuilder::new();
    let b_this = bb.class("CB");
    let b_super = bb.class("CA");
    let b_code_attr = bb.utf8("Code");
    let b_tag_name = bb.utf8("tag");
    let b_copied_name = bb.utf8("copied");
    let b_str_desc = bb.utf8("Ljava/lang/String;");
    let b_tag_ref = bb.field_ref(b_this, "tag", "Ljava/lang/String;");
    let a_cls = bb.class("CA");
    let a_tag_ref = bb.field_ref(a_cls, "tag", "Ljava/lang/String;");
    let b_copied_ref = bb.field_ref(b_this, "copied", "Ljava/lang/String;");
    let b_lit = bb.string("B");
    let b_clinit = bb.utf8("<clinit>");
    let b_void = bb.utf8("()V");
    let b_bytes = finish_class(
        bb,
        b_this,
        b_super,
        vec![(0x0009, b_tag_name, b_str_desc), (0x0009, b_copied_name, b_str_desc)],
        vec![MethodBlob {
            flags: 0x0009,
            name_idx: b_clinit,
            desc_idx: b_void,
            code: Some((
                1,
                0,
                vec![
                    0xb2, (a_tag_ref >> 8) as u8, a_tag_ref as u8, // getstatic CA.tag
                    0xb3, (b_copied_ref >> 8) as u8, b_copied_ref as u8, // putstatic CB.copied
                    0x12, b_lit as u8, // ldc "B"
                    0xb3, (b_tag_ref >> 8) as u8, b_tag_ref as u8, // putstatic CB.tag
                    0xb1,
                ],
                vec![],
            )),
            code_attr_name: b_code_attr,
        }],
    );
    (a_bytes, b_bytes)
}

fn static_string(jvm: &Jvm, class: &str, field: &str) -> String {
    let id = jvm.heap.find_class(class).unwrap();
    match field_find(&jvm.heap.loaded_classes[id].static_fields, field).unwrap() {
        JavaValue::Object(Some(sid)) => jvm.get_string(sid).unwrap(),
        other => panic!("unexpected static value {:?}", other),
    }
}

#[test]
fn static_initializers_run_superclass_first() {
    let mut cp = base_classpath();
    let (a_bytes, b_bytes) = clinit_classes();
    cp.add_classpath_entry(&a_bytes).unwrap();
    cp.add_classpath_entry(&b_bytes).unwrap();
    // Accessing CB triggers CA's initializer, then CB's.
    cp.add_classpath_entry(&static_method_class("T", "go", "()V", 1, 0, |b| {
        let b_cls = b.class("CB");
        let tag_ref = b.field_ref(b_cls, "tag", "Ljava/lang/String;");
        (
            vec![
                0xb2, (tag_ref >> 8) as u8, tag_ref as u8, // getstatic CB.tag
                0x57, // pop
                0xb1,
            ],
            vec![],
        )
    }))
    .unwrap();
    let mut jvm = Jvm::new(cp);
    let mut exec = InstructionExecutor::new();
    run_static(&mut jvm, &mut exec, "T", "go", "()V", vec![]).unwrap();
    assert_eq!(static_string(&jvm, "CA", "tag"), "A");
    assert_eq!(static_string(&jvm, "CB", "tag"), "B");
    // CB's initializer observed CA's tag already set: CA ran first.
    assert_eq!(static_string(&jvm, "CB", "copied"), "A");
    // Loading again neither re-runs the initializers nor changes the tags.
    let id1 = jvm.ensure_class_loaded("CB", true).unwrap();
    let id2 = jvm.ensure_class_loaded("CB", true).unwrap();
    assert_eq!(id1, id2);
    assert_eq!(jvm.get_stack_depth(), 1);
    assert_eq!(static_string(&jvm, "CB", "copied"), "A");
}

#[test]
fn exception_catch_returns_message() {
    let mut cp = base_classpath();
    cp.add_classpath_entry(&static_method_class("T", "go", "()Ljava/lang/String;", 3, 2, |b| {
        let re = b.class("java/lang/RuntimeException");
        let init = b.method_ref(re, "<init>", "(Ljava/lang/String;)V");
        let gm = b.method_ref(re, "getMessage", "()Ljava/lang/String;");
        let lit = b.string("x");
        (
            vec![
                // try {
                0xbb, (re >> 8) as u8, re as u8, // 0: new RuntimeException
                0x59, // 3: dup
                0x12, lit as u8, // 4: ldc "x"
                0xb7, (init >> 8) as u8, init as u8, // 6: invokespecial <init>
                0xbf, // 9: athrow
                // } catch (RuntimeException e) {
                0x4c, // 10: astore_1
                0x2b, // 11: aload_1
                0xb6, (gm >> 8) as u8, gm as u8, // 12: invokevirtual getMessage
                0xb0, // 15: areturn
            ],
            vec![(0, 10, 10, re)],
        )
    }))
    .unwrap();
    let mut jvm = Jvm::new(cp);
    let mut exec = InstructionExecutor::new();
    let r = run_static(&mut jvm, &mut exec, "T", "go", "()Ljava/lang/String;", vec![]).unwrap();
    let sid = match r {
        Some(JavaValue::Object(Some(sid))) => sid,
        other => panic!("unexpected result {:?}", other),
    };
    assert_eq!(jvm.get_string(sid).unwrap(), "x");
}

#[test]
fn thrown_reference_reaches_handler_unchanged() {
    // The handler returns the caught object itself; it must be the very
    // object that was thrown (reference equality over the heap id).
    let mut cp = base_classpath();
    cp.add_classpath_entry(&static_method_class(
        "T",
        "go",
        "(Ljava/lang/RuntimeException;)Ljava/lang/RuntimeException;",
        1,
        2,
        |b| {
            let re = b.class("java/lang/RuntimeException");
            (
                vec![
                    0x2a, // 0: aload_0
                    0xbf, // 1: athrow
                    0xb0, // 2: areturn (handler: caught ref is on the stack)
                ],
                vec![(0, 2, 2, re)],
            )
        },
    ))
    .unwrap();
    let mut jvm = Jvm::new(cp);
    let mut exec = InstructionExecutor::new();
    jvm.push_bootstrap_frame();
    let d0 = jvm.get_stack_depth();
    let cid = jvm.ensure_class_loaded("T", true).unwrap();
    exec.step_until_stack_depth(&mut jvm, d0, 1_000_000, &HostFloat).unwrap();
    let re_id = jvm.ensure_class_loaded("java/lang/RuntimeException", true).unwrap();
    exec.step_until_stack_depth(&mut jvm, d0, 1_000_000, &HostFloat).unwrap();
    let ex_obj = jvm.new_instance(re_id).unwrap();
    let ex_id = jvm.heap_store_instance(ex_obj);
    jvm.push_invocation(
        InvokeType::Static,
        cid,
        None,
        "go",
        "(Ljava/lang/RuntimeException;)Ljava/lang/RuntimeException;",
        &vec![JavaValue::Object(Some(ex_id))],
    )
    .unwrap();
    exec.step_until_stack_depth(&mut jvm, d0, 1_000_000, &HostFloat).unwrap();
    match jvm.take_return_value() {
        Some(JavaValue::Object(Some(id))) => assert_eq!(id, ex_id),
        other => panic!("unexpected result {:?}", other),
    }
}

#[test]
fn ldc_string_interning_yields_one_object() {
    let mut cp = base_classpath();
    cp.add_classpath_entry(&static_method_class("T", "same", "()I", 2, 0, |b| {
        let lit = b.string("hello");
        (
            vec![
                0x12, lit as u8, // 0: ldc "hello"
                0x12, lit as u8, // 2: ldc "hello"
                0xa5, 0, 7, // 4: if_acmpeq -> 11
                0x03, // 7: iconst_0
                0xac, // 8: ireturn
                0x00, 0x00, // padding
                0x04, // 11: iconst_1
                0xac, // 12: ireturn
            ],
            vec![],
        )
    }))
    .unwrap();
    cp.add_classpath_entry(&static_method_class("U", "get", "()Ljava/lang/String;", 1, 0, |b| {
        let lit = b.string("hello");
        (
            vec![
                0x12, lit as u8, // ldc "hello"
                0xb0, // areturn
            ],
            vec![],
        )
    }))
    .unwrap();
    let mut jvm = Jvm::new(cp);
    let mut exec = InstructionExecutor::new();
    let r = run_static(&mut jvm, &mut exec, "T", "same", "()I", vec![]).unwrap();
    assert!(matches!(r, Some(JavaValue::Int(1))));
    // The same literal in a different class resolves to the same object.
    let r2 = run_static(&mut jvm, &mut exec, "U", "get", "()Ljava/lang/String;", vec![]).unwrap();
    let id2 = match r2 {
        Some(JavaValue::Object(Some(id))) => id,
        other => panic!("unexpected result {:?}", other),
    };
    let id3 = jvm.new_interned_string("hello").unwrap();
    assert_eq!(id2, id3);
}

#[test]
fn loop_with_iinc_and_branches_sums() {
    // sum = 0; for (i = 1; i <= 5; i++) sum += i; return sum;
    let mut cp = base_classpath();
    cp.add_classpath_entry(&static_method_class("T", "go", "()I", 2, 2, |_| {
        (
            vec![
                0x03, // 0: iconst_0
                0x3b, // 1: istore_0 (sum)
                0x04, // 2: iconst_1
                0x3c, // 3: istore_1 (i)
                0x1b, // 4: iload_1          <- loop
                0x08, // 5: iconst_5
                0xa3, 0, 13, // 6: if_icmpgt -> 19
                0x1a, // 9: iload_0
                0x1b, // 10: iload_1
                0x60, // 11: iadd
                0x3b, // 12: istore_0
                0x84, 1, 1, // 13: iinc i 1
                0xa7, 0xff, 0xf4, // 16: goto -12 -> 4
                0x1a, // 19: iload_0
                0xac, // 20: ireturn
            ],
            vec![],
        )
    }))
    .unwrap();
    let mut jvm = Jvm::new(cp);
    let mut exec = InstructionExecutor::new();
    let r = run_static(&mut jvm, &mut exec, "T", "go", "()I", vec![]).unwrap();
    assert!(matches!(r, Some(JavaValue::Int(15))));
}

#[test]
fn long_arithmetic_and_comparison() {
    // return (1000000000000 + 500) > 1000000000000 ? 1 : 0, via lcmp
    let mut cp = base_classpath();
    cp.add_classpath_entry(&static_method_class("T", "go", "()I", 4, 0, |b| {
        // ldc2_w needs a Long pool entry: tag 5 occupies two slots
        let i = b.pool_count;
        b.pool.push(5);
        b.pool.extend_from_slice(&1000000000000i64.to_be_bytes());
        b.pool_count += 2;
        let long_idx = i;
        (
            vec![
                0x14, (long_idx >> 8) as u8, long_idx as u8, // ldc2_w 1000000000000
                0x14, (long_idx >> 8) as u8, long_idx as u8, // again
                0x61, // ladd (2e12)
                0x14, (long_idx >> 8) as u8, long_idx as u8, // ldc2_w 1e12
                0x94, // lcmp -> 1
                0xac, // ireturn
            ],
            vec![],
        )
    }))
    .unwrap();
    let mut jvm = Jvm::new(cp);
    let mut exec = InstructionExecutor::new();
    let r = run_static(&mut jvm, &mut exec, "T", "go", "()I", vec![]).unwrap();
    assert!(matches!(r, Some(JavaValue::Int(1))));
}

#[test]
fn execute_main_runs_to_completion() {
    let mut cp = base_classpath();
    cp.add_classpath_entry(&static_method_class("Main", "main", "([Ljava/lang/String;)V", 2, 1, |b| {
        let obj = b.class("java/lang/Object");
        (
            vec![
                0xbb, (obj >> 8) as u8, obj as u8, // new Object
                0x57, // pop
                0xb1, // return
            ],
            vec![],
        )
    }))
    .unwrap();
    let mut jvm = Jvm::new(cp);
    let mut exec = InstructionExecutor::new();
    let ev = exec.execute_main(&mut jvm, 1_000_000, &HostFloat).unwrap();
    assert!(matches!(ev, RunEvent::ReachedDepth));
    assert_eq!(jvm.get_stack_depth(), 1);
}

#[test]
fn native_method_surfaces_mangled_name() {
    let mut cp = base_classpath();
    // A class with a native method m()I, called from a static method.
    let mut b = ClassFileBuilder::new();
    let this_idx = b.class("pkg/Nat$Inner");
    let super_idx = b.class("java/lang/Object");
    let code_attr = b.utf8("Code");
    let n_name = b.utf8("nat");
    let n_desc = b.utf8("()I");
    let go_name = b.utf8("go");
    let go_desc = b.utf8("()I");
    let mref = b.method_ref(this_idx, "nat", "()I");
    let bytes = finish_class(
        b,
        this_idx,
        super_idx,
        vec![],
        vec![
            MethodBlob {
                flags: 0x0109, // static native
                name_idx: n_name,
                desc_idx: n_desc,
                code: None,
                code_attr_name: code_attr,
            },
            MethodBlob {
                flags: 0x0009,
                name_idx: go_name,
                desc_idx: go_desc,
                code: Some((
                    1,
                    0,
                    vec![0xb8, (mref >> 8) as u8, mref as u8, 0xac], // invokestatic nat; ireturn
                    vec![],
                )),
                code_attr_name: code_attr,
            },
        ],
    );
    cp.add_classpath_entry(&bytes).unwrap();
    let mut jvm = Jvm::new(cp);
    let mut exec = InstructionExecutor::new();
    jvm.push_bootstrap_frame();
    let d0 = jvm.get_stack_depth();
    let cid = jvm.ensure_class_loaded("pkg/Nat$Inner", true).unwrap();
    exec.step_until_stack_depth(&mut jvm, d0, 1_000_000, &HostFloat).unwrap();
    jvm.push_invocation(InvokeType::Static, cid, None, "go", "()I", &vec![]).unwrap();
    let ev = exec.step_until_stack_depth(&mut jvm, d0, 1_000_000, &HostFloat).unwrap();
    match ev {
        RunEvent::NativeCall(name) => {
            assert_eq!(name, "Java_pkg_Nat_00024Inner_nat");
        }
        other => panic!("expected a native call, got {:?}", other),
    }
    // The embedder services the call and execution completes.
    jvm.complete_native(Some(JavaValue::Int(77))).unwrap();
    let ev = exec.step_until_stack_depth(&mut jvm, d0, 1_000_000, &HostFloat).unwrap();
    assert!(matches!(ev, RunEvent::ReachedDepth));
    assert!(matches!(jvm.take_return_value(), Some(JavaValue::Int(77))));
}

#[test]
fn iadd_wraps_on_overflow() {
    let mut cp = base_classpath();
    cp.add_classpath_entry(&static_method_class("T", "go", "()I", 2, 0, |b| {
        let max = {
            // an Integer pool constant for i32::MAX
            let i = b.pool_count;
            b.pool.push(3);
            b.pool.extend_from_slice(&i32::MAX.to_be_bytes());
            b.pool_count += 1;
            i
        };
        (
            vec![
                0x12, max as u8, // ldc i32::MAX
                0x04, // iconst_1
                0x60, // iadd
                0xac, // ireturn
            ],
            vec![],
        )
    }))
    .unwrap();
    let mut jvm = Jvm::new(cp);
    let mut exec = InstructionExecutor::new();
    let r = run_static(&mut jvm, &mut exec, "T", "go", "()I", vec![]).unwrap();
    assert!(matches!(r, Some(JavaValue::Int(i32::MIN))));
}

#[test]
fn pushing_beyond_max_stack_is_an_internal_error() {
    // max_stack is declared as 1; the second constant push must not fit.
    let mut cp = base_classpath();
    cp.add_classpath_entry(&static_method_class("T", "go", "()I", 1, 0, |_| {
        (
            vec![
                0x04, // iconst_1
                0x04, // iconst_1
                0x60, // iadd
                0xac, // ireturn
            ],
            vec![],
        )
    }))
    .unwrap();
    let mut jvm = Jvm::new(cp);
    let mut exec = InstructionExecutor::new();
    let err = run_static(&mut jvm, &mut exec, "T", "go", "()I", vec![]).unwrap_err();
    assert_eq!(
        exception_class_name(&jvm, &err),
        "java/lang/Error: operand stack overflow"
    );
}

#[test]
fn category_2_values_cannot_be_split_by_dup() {
    // dup on a long would separate the value from its upper-half sentinel;
    // the machine refuses rather than break the pairing discipline.
    let mut cp = base_classpath();
    cp.add_classpath_entry(&static_method_class("T", "go", "()V", 4, 0, |_| {
        (
            vec![
                0x0a, // lconst_1
                0x59, // dup (invalid on a category-2 value)
                0x58, // pop2
                0xb1, // return
            ],
            vec![],
        )
    }))
    .unwrap();
    let mut jvm = Jvm::new(cp);
    let mut exec = InstructionExecutor::new();
    let err = run_static(&mut jvm, &mut exec, "T", "go", "()V", vec![]).unwrap_err();
    assert_eq!(exception_class_name(&jvm, &err), "java/lang/Error: stack underflow");
}

#[test]
fn assignability_is_reflexive_and_reaches_object() {
    let mut cp = base_classpath();
    let (a_bytes, b_bytes) = dispatch_classes();
    cp.add_classpath_entry(&a_bytes).unwrap();
    cp.add_classpath_entry(&b_bytes).unwrap();
    let mut jvm = Jvm::new(cp);
    let b_id = jvm.ensure_class_loaded("VirtB", false).unwrap();
    let a_id = jvm.ensure_class_loaded("VirtA", false).unwrap();
    // reflexivity, superclass walk, and the implicit root
    assert_eq!(jvm.is_assignable_from("VirtB", b_id), Ok(true));
    assert_eq!(jvm.is_assignable_from("VirtA", a_id), Ok(true));
    assert_eq!(jvm.is_assignable_from("VirtA", b_id), Ok(true));
    assert_eq!(jvm.is_assignable_from("VirtB", a_id), Ok(false));
    assert_eq!(jvm.is_assignable_from("java/lang/Object", b_id), Ok(true));
    assert_eq!(jvm.is_assignable_from("java/lang/Object", a_id), Ok(true));
}

#[test]
fn instanceof_and_checkcast_follow_the_class_chain() {
    let mut cp = base_classpath();
    let (a_bytes, b_bytes) = dispatch_classes();
    cp.add_classpath_entry(&a_bytes).unwrap();
    cp.add_classpath_entry(&b_bytes).unwrap();
    cp.add_classpath_entry(&static_method_class("T", "go", "()I", 2, 0, |b| {
        let b_cls = b.class("VirtB");
        let a_cls = b.class("VirtA");
        (
            vec![
                0xbb, (b_cls >> 8) as u8, b_cls as u8, // new VirtB
                0xc0, (a_cls >> 8) as u8, a_cls as u8, // checkcast VirtA (passes)
                0xc1, (a_cls >> 8) as u8, a_cls as u8, // instanceof VirtA -> 1
                0xac, // ireturn
            ],
            vec![],
        )
    }))
    .unwrap();
    let mut jvm = Jvm::new(cp);
    let mut exec = InstructionExecutor::new();
    let r = run_static(&mut jvm, &mut exec, "T", "go", "()I", vec![]).unwrap();
    // instanceof pushes a boolean truth value (integral 1 under promotion)
    assert!(matches!(r, Some(JavaValue::Boolean(true))));
}

#[test]
fn checkcast_failure_raises_class_cast_exception() {
    let mut cp = base_classpath();
    let (a_bytes, b_bytes) = dispatch_classes();
    cp.add_classpath_entry(&a_bytes).unwrap();
    cp.add_classpath_entry(&b_bytes).unwrap();
    cp.add_classpath_entry(&static_method_class("T", "go", "()V", 2, 0, |b| {
        let b_cls = b.class("VirtB");
        let a_cls = b.class("VirtA");
        (
            vec![
                0xbb, (a_cls >> 8) as u8, a_cls as u8, // new VirtA
                0xc0, (b_cls >> 8) as u8, b_cls as u8, // checkcast VirtB (fails)
                0x57, // pop
                0xb1, // return
            ],
            vec![],
        )
    }))
    .unwrap();
    let mut jvm = Jvm::new(cp);
    let mut exec = InstructionExecutor::new();
    let err = run_static(&mut jvm, &mut exec, "T", "go", "()V", vec![]).unwrap_err();
    assert_eq!(exception_class_name(&jvm, &err), "java/lang/ClassCastException: VirtB");
}

#[test]
fn getfield_on_null_raises_npe() {
    let mut cp = base_classpath();
    cp.add_classpath_entry(&static_method_class("T", "go", "()Ljava/lang/String;", 2, 0, |b| {
        let thr = b.class("java/lang/Throwable");
        let fr = b.field_ref(thr, "detailMessage", "Ljava/lang/String;");
        (
            vec![
                0x01, // aconst_null
                0xb4, (fr >> 8) as u8, fr as u8, // getfield on null
                0xb0, // areturn
            ],
            vec![],
        )
    }))
    .unwrap();
    let mut jvm = Jvm::new(cp);
    let mut exec = InstructionExecutor::new();
    let err = run_static(&mut jvm, &mut exec, "T", "go", "()Ljava/lang/String;", vec![]).unwrap_err();
    assert_eq!(exception_class_name(&jvm, &err), "java/lang/NullPointerException");
}

#[test]
fn negative_array_size_raises() {
    let mut cp = base_classpath();
    cp.add_classpath_entry(&static_method_class("T", "go", "()V", 2, 0, |_| {
        (
            vec![
                0x02, // iconst_m1
                0xbc, 10, // newarray int
                0x57, // pop
                0xb1,
            ],
            vec![],
        )
    }))
    .unwrap();
    let mut jvm = Jvm::new(cp);
    let mut exec = InstructionExecutor::new();
    let err = run_static(&mut jvm, &mut exec, "T", "go", "()V", vec![]).unwrap_err();
    assert_eq!(
        exception_class_name(&jvm, &err),
        "java/lang/NegativeArraySizeException: -1"
    );
}

#[test]
fn lookupswitch_matches_and_defaults() {
    // switch (x) { case 3: return 30; case 7: return 70; default: return -1 }
    let mut cp = base_classpath();
    cp.add_classpath_entry(&static_method_class("T", "go", "(I)I", 1, 1, |_| {
        let mut code = vec![
            0x1a, // 0: iload_0
            0xab, // 1: lookupswitch
            0x00, 0x00, // 2-3: padding to offset 4
        ];
        // offsets are relative to the opcode at 1:
        // default -> 34, npairs 2, pairs (3 -> 28), (7 -> 31)
        code.extend_from_slice(&33i32.to_be_bytes());
        code.extend_from_slice(&2i32.to_be_bytes());
        code.extend_from_slice(&3i32.to_be_bytes());
        code.extend_from_slice(&27i32.to_be_bytes());
        code.extend_from_slice(&7i32.to_be_bytes());
        code.extend_from_slice(&30i32.to_be_bytes());
        // 28: bipush 30; ireturn
        code.extend_from_slice(&[0x10, 30, 0xac]);
        // 31: bipush 70; ireturn
        code.extend_from_slice(&[0x10, 70, 0xac]);
        // 34: iconst_m1; ireturn
        code.extend_from_slice(&[0x02, 0xac]);
        (code, vec![])
    }))
    .unwrap();
    let mut jvm = Jvm::new(cp);
    let mut exec = InstructionExecutor::new();
    let r = run_static(&mut jvm, &mut exec, "T", "go", "(I)I", vec![JavaValue::Int(3)]).unwrap();
    assert!(matches!(r, Some(JavaValue::Int(30))));
    let r = run_static(&mut jvm, &mut exec, "T", "go", "(I)I", vec![JavaValue::Int(7)]).unwrap();
    assert!(matches!(r, Some(JavaValue::Int(70))));
    let r = run_static(&mut jvm, &mut exec, "T", "go", "(I)I", vec![JavaValue::Int(8)]).unwrap();
    assert!(matches!(r, Some(JavaValue::Int(-1))));
}

#[test]
fn tableswitch_indexes_dense_table() {
    // switch (x) { case 5: return 50; case 6: return 60; default: return 0 }
    let mut cp = base_classpath();
    cp.add_classpath_entry(&static_method_class("T", "go", "(I)I", 1, 1, |_| {
        let mut code = vec![
            0x1a, // 0: iload_0
            0xaa, // 1: tableswitch
            0x00, 0x00, // 2-3: padding to offset 4
        ];
        // default -> 30, low 5, high 6, targets (5 -> 24), (6 -> 27)
        code.extend_from_slice(&29i32.to_be_bytes());
        code.extend_from_slice(&5i32.to_be_bytes());
        code.extend_from_slice(&6i32.to_be_bytes());
        code.extend_from_slice(&23i32.to_be_bytes());
        code.extend_from_slice(&26i32.to_be_bytes());
        // 24: bipush 50; ireturn
        code.extend_from_slice(&[0x10, 50, 0xac]);
        // 27: bipush 60; ireturn
        code.extend_from_slice(&[0x10, 60, 0xac]);
        // 30: iconst_0; ireturn
        code.extend_from_slice(&[0x03, 0xac]);
        (code, vec![])
    }))
    .unwrap();
    let mut jvm = Jvm::new(cp);
    let mut exec = InstructionExecutor::new();
    let r = run_static(&mut jvm, &mut exec, "T", "go", "(I)I", vec![JavaValue::Int(5)]).unwrap();
    assert!(matches!(r, Some(JavaValue::Int(50))));
    let r = run_static(&mut jvm, &mut exec, "T", "go", "(I)I", vec![JavaValue::Int(6)]).unwrap();
    assert!(matches!(r, Some(JavaValue::Int(60))));
    let r = run_static(&mut jvm, &mut exec, "T", "go", "(I)I", vec![JavaValue::Int(99)]).unwrap();
    assert!(matches!(r, Some(JavaValue::Int(0))));
}

#[test]
fn static_fields_resolve_through_the_superclass_chain() {
    let mut cp = base_classpath();
    let (a_bytes, b_bytes) = clinit_classes();
    cp.add_classpath_entry(&a_bytes).unwrap();
    cp.add_classpath_entry(&b_bytes).unwrap();
    let mut jvm = Jvm::new(cp);
    let mut exec = InstructionExecutor::new();
    jvm.push_bootstrap_frame();
    let d0 = jvm.get_stack_depth();
    // Asking CB for a field declared only on CA walks the chain; writing
    // back is visible through the declaring class.
    webjvm::heap::JavaClass::set_static_field(
        &mut jvm,
        "CB",
        "tag",
        JavaValue::Int(9),
    )
    .unwrap();
    exec.step_until_stack_depth(&mut jvm, d0, 1_000_000, &HostFloat).unwrap();
    // CB declares its own "tag"; its initializer then overwrote it with "B".
    assert_eq!(static_string(&jvm, "CB", "tag"), "B");
    let v = webjvm::heap::JavaClass::get_static_field(&mut jvm, "CA", "tag").unwrap();
    match v {
        JavaValue::Object(Some(sid)) => assert_eq!(jvm.get_string(sid).unwrap(), "A"),
        other => panic!("unexpected static value {:?}", other),
    }
}

#[test]
fn wide_prefix_iinc_and_load() {
    let mut cp = base_classpath();
    cp.add_classpath_entry(&static_method_class("T", "go", "(I)I", 1, 1, |_| {
        (
            vec![
                0xc4, 0x84, 0x00, 0x00, 0x00, 0x05, // wide iinc local 0 by 5
                0xc4, 0x15, 0x00, 0x00, // wide iload local 0
                0xac, // ireturn
            ],
            vec![],
        )
    }))
    .unwrap();
    let mut jvm = Jvm::new(cp);
    let mut exec = InstructionExecutor::new();
    let r = run_static(&mut jvm, &mut exec, "T", "go", "(I)I", vec![JavaValue::Int(37)]).unwrap();
    assert!(matches!(r, Some(JavaValue::Int(42))));
}

#[test]
fn stack_shuffles_swap_and_dup_x1() {
    // pushes 1 then 2, swaps, duplicates under one: [2, 1] -> [1, 2] ->
    // dup_x1 -> [2, 1, 2]; isub computes 1 - 2, then iadd with the buried 2.
    let mut cp = base_classpath();
    cp.add_classpath_entry(&static_method_class("T", "go", "()I", 3, 0, |_| {
        (
            vec![
                0x04, // iconst_1
                0x05, // iconst_2
                0x5f, // swap         [2, 1]
                0x5a, // dup_x1       [1, 2, 1]
                0x64, // isub         [1, 1]
                0x60, // iadd         [2]
                0xac, // ireturn
            ],
            vec![],
        )
    }))
    .unwrap();
    let mut jvm = Jvm::new(cp);
    let mut exec = InstructionExecutor::new();
    let r = run_static(&mut jvm, &mut exec, "T", "go", "()I", vec![]).unwrap();
    assert!(matches!(r, Some(JavaValue::Int(2))));
}

#[test]
fn shifts_and_conversions() {
    // -8 shifted right arithmetically by 1 is -4; i2b narrows it to a byte.
    let mut cp = base_classpath();
    cp.add_classpath_entry(&static_method_class("T", "go", "()I", 2, 0, |_| {
        (
            vec![
                0x10, 0xf8, // bipush -8
                0x04, // iconst_1
                0x7a, // ishr          -> -4
                0x91, // i2b           -> Byte(-4)
                0xac, // ireturn (promoted back to int by the caller's read)
            ],
            vec![],
        )
    }))
    .unwrap();
    let mut jvm = Jvm::new(cp);
    let mut exec = InstructionExecutor::new();
    let r = run_static(&mut jvm, &mut exec, "T", "go", "()I", vec![]).unwrap();
    assert!(matches!(r, Some(JavaValue::Byte(-4))));
}

#[test]
fn static_and_special_resolution_walk_the_superclass_chain() {
    // Base declares both a static and an instance method; Derived declares
    // neither. Resolution from Derived walks up and finds them.
    let mut cp = base_classpath();
    let mut b = ClassFileBuilder::new();
    let base_this = b.class("Base");
    let base_super = b.class("java/lang/Object");
    let code_attr = b.utf8("Code");
    let s_name = b.utf8("s");
    let s_desc = b.utf8("()I");
    let h_name = b.utf8("h");
    let h_desc = b.utf8("()I");
    let base_bytes = finish_class(
        b,
        base_this,
        base_super,
        vec![],
        vec![
            MethodBlob {
                flags: 0x0009, // public static
                name_idx: s_name,
                desc_idx: s_desc,
                code: Some((1, 0, vec![0x10, 7, 0xac], vec![])), // bipush 7; ireturn
                code_attr_name: code_attr,
            },
            MethodBlob {
                flags: 0x0001, // public instance
                name_idx: h_name,
                desc_idx: h_desc,
                code: Some((1, 1, vec![0x08, 0xac], vec![])), // iconst_5; ireturn
                code_attr_name: code_attr,
            },
        ],
    );
    cp.add_classpath_entry(&base_bytes).unwrap();
    cp.add_classpath_entry(&trivial_class("Derived", Some("Base"))).unwrap();
    cp.add_classpath_entry(&static_method_class("T", "go", "()I", 2, 0, |b| {
        let derived = b.class("Derived");
        let sref = b.method_ref(derived, "s", "()I");
        let href = b.method_ref(derived, "h", "()I");
        (
            vec![
                0xb8, (sref >> 8) as u8, sref as u8, // invokestatic Derived.s (inherited)
                0xbb, (derived >> 8) as u8, derived as u8, // new Derived
                0xb7, (href >> 8) as u8, href as u8, // invokespecial Derived.h (inherited)
                0x60, // iadd
                0xac, // ireturn
            ],
            vec![],
        )
    }))
    .unwrap();
    let mut jvm = Jvm::new(cp);
    let mut exec = InstructionExecutor::new();
    let r = run_static(&mut jvm, &mut exec, "T", "go", "()I", vec![]).unwrap();
    assert!(matches!(r, Some(JavaValue::Int(12))));
}

#[test]
fn dup_x2_and_dup2_x1_shuffle_categories() {
    // dup_x2 over a long: [{1L}, 9] becomes [9, {1L}, 9]; popping the copy
    // and narrowing the long leaves 9 + 1.
    let mut cp = base_classpath();
    cp.add_classpath_entry(&static_method_class("T", "go", "()I", 6, 0, |_| {
        (
            vec![
                0x0a, // lconst_1            [{1L}]
                0x10, 9, // bipush 9         [{1L}, 9]
                0x5b, // dup_x2              [9, {1L}, 9]
                0x57, // pop                 [9, {1L}]
                0x88, // l2i                 [9, 1]
                0x60, // iadd                [10]
                0xac, // ireturn
            ],
            vec![],
        )
    }))
    .unwrap();
    // dup2_x1 over a long: [3, {1L}] becomes [{1L}, 3, {1L}]; narrowing the
    // top long and adding leaves 4 on top.
    cp.add_classpath_entry(&static_method_class("U", "go", "()I", 6, 0, |_| {
        (
            vec![
                0x10, 3, // bipush 3         [3]
                0x0a, // lconst_1            [3, {1L}]
                0x5d, // dup2_x1             [{1L}, 3, {1L}]
                0x88, // l2i                 [{1L}, 3, 1]
                0x60, // iadd                [{1L}, 4]
                0xac, // ireturn
            ],
            vec![],
        )
    }))
    .unwrap();
    let mut jvm = Jvm::new(cp);
    let mut exec = InstructionExecutor::new();
    let r = run_static(&mut jvm, &mut exec, "T", "go", "()I", vec![]).unwrap();
    assert!(matches!(r, Some(JavaValue::Int(10))));
    let r = run_static(&mut jvm, &mut exec, "U", "go", "()I", vec![]).unwrap();
    assert!(matches!(r, Some(JavaValue::Int(4))));
}

#[test]
fn comparison_outcome_maps_unordered_by_suffix() {
    // unordered (NaN) comparisons take the sign fixed by the g/l suffix
    assert_eq!(webjvm::interp::arith::comparison_outcome(2, true), 1);
    assert_eq!(webjvm::interp::arith::comparison_outcome(2, false), -1);
    // ordered results collapse to their sign
    assert_eq!(webjvm::interp::arith::comparison_outcome(7, false), 1);
    assert_eq!(webjvm::interp::arith::comparison_outcome(-9, true), -1);
    assert_eq!(webjvm::interp::arith::comparison_outcome(0, true), 0);
}

#[test]
fn main_resolution_prefers_latest_added_class() {
    let mut cp = Classpath::new();
    let first = static_method_class("FirstMain", "main", "([Ljava/lang/String;)V", 1, 1, |_b| {
        (vec![0xb1], vec![])
    });
    let second = static_method_class("SecondMain", "main", "([Ljava/lang/String;)V", 1, 1, |_b| {
        (vec![0xb1], vec![])
    });
    cp.add_classpath_entry(first.as_slice()).unwrap();
    cp.add_classpath_entry(second.as_slice()).unwrap();
    let (cf, _m) = cp.get_main_method().expect("a main method resolves");
    let name_idx = cf.this_class;
    let name = webjvm::util::try_get_constant_string(&cf.const_pool, name_idx).unwrap();
    assert_eq!(name.as_str(), "SecondMain");
}
