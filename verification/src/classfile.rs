//! The decoded class-file tree that the runtime consumes: constant pool
//! entries, field and method tables with their attributes, and the `Code`
//! attribute with its exception table.

use vstd::prelude::*;

verus! {

// Class access and property flags.
pub const CLASS_ACC_PUBLIC: u16 = 0x0001;
pub const CLASS_ACC_INTERFACE: u16 = 0x0200;
pub const CLASS_ACC_ABSTRACT: u16 = 0x0400;

// Field access and property flags.
pub const FIELD_ACC_STATIC: u16 = 0x0008;

// Method access and property flags.
pub const METHOD_ACC_STATIC: u16 = 0x0008;
pub const METHOD_ACC_NATIVE: u16 = 0x0100;
pub const METHOD_ACC_ABSTRACT: u16 = 0x0400;

/// True when every bit of `flag` is set in `flags`.
pub open spec fn spec_flag_set(flags: u16, flag: u16) -> bool {
    flags & flag == flag
}

pub fn flag_set(flags: u16, flag: u16) -> (r: bool)
    ensures
        r == spec_flag_set(flags, flag),
{
    flags & flag == flag
}

/// One constant-pool entry. Numeric `Float` and `Double` constants carry
/// their raw IEEE-754 bit patterns. A `Long` or `Double` entry occupies two
/// pool slots; the second slot holds `Unusable`.
#[derive(Debug, Clone)]
pub enum ConstantInfo {
    Utf8(String),
    Integer(i32),
    Float(u32),
    Long(i64),
    Double(u64),
    ClassRef { name_index: u16 },
    StringRef { string_index: u16 },
    FieldRef { class_index: u16, name_and_type_index: u16 },
    MethodRef { class_index: u16, name_and_type_index: u16 },
    InterfaceMethodRef { class_index: u16, name_and_type_index: u16 },
    NameAndType { name_index: u16, descriptor_index: u16 },
    MethodHandle { reference_kind: u8, reference_index: u16 },
    MethodType { descriptor_index: u16 },
    InvokeDynamic { bootstrap_method_attr_index: u16, name_and_type_index: u16 },
    Unusable,
}

#[derive(Debug, Clone)]
pub struct AttributeInfo {
    pub attribute_name_index: u16,
    pub info: Vec<u8>,
}

#[derive(Debug, Clone)]
pub struct FieldInfo {
    pub access_flags: u16,
    pub name_index: u16,
    pub descriptor_index: u16,
    pub attributes: Vec<AttributeInfo>,
}

#[derive(Debug, Clone)]
pub struct MethodInfo {
    pub access_flags: u16,
    pub name_index: u16,
    pub descriptor_index: u16,
    pub attributes: Vec<AttributeInfo>,
}

/// One row of a `Code` attribute's exception-handler table: the handler at
/// `handler_pc` covers offsets in `[start_pc, end_pc)` for the class named by
/// pool entry `catch_type` (0 catches everything).
#[derive(Debug, Clone)]
pub struct ExceptionTableEntry {
    pub start_pc: u16,
    pub end_pc: u16,
    pub handler_pc: u16,
    pub catch_type: u16,
}

#[derive(Debug, Clone)]
pub struct CodeAttribute {
    pub max_stack: u16,
    pub max_locals: u16,
    pub code: Vec<u8>,
    pub exception_table: Vec<ExceptionTableEntry>,
    pub attributes: Vec<AttributeInfo>,
}

#[derive(Debug, Clone)]
pub struct ClassFile {
    pub minor_version: u16,
    pub major_version: u16,
    pub const_pool: Vec<ConstantInfo>,
    pub access_flags: u16,
    pub this_class: u16,
    pub super_class: u16,
    pub interfaces: Vec<u16>,
    pub fields: Vec<FieldInfo>,
    pub methods: Vec<MethodInfo>,
    pub attributes: Vec<AttributeInfo>,
}

} // verus!
