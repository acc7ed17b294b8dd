//! The class-file binary decoder: magic, constant pool, interfaces, field
//! and method tables, attributes, and the `Code` attribute with its
//! exception-handler table. All multi-byte quantities are big-endian.

use vstd::prelude::*;

use crate::classfile::{AttributeInfo, ClassFile, CodeAttribute, ConstantInfo, ExceptionTableEntry, FieldInfo, MethodInfo};
use crate::strutil::string_from_utf8;

verus! {

#[derive(Debug, Clone, Copy, PartialEq, Eq, Structural)]
pub enum ClassParseError {
    /// The input ended before the structure being decoded was complete.
    Truncated,
    /// The first four bytes are not 0xCAFEBABE.
    BadMagic,
    /// A constant-pool entry carries an unknown tag.
    BadConstantTag,
    /// A `Utf8` constant holds bytes that are not valid UTF-8.
    BadUtf8,
}

/// The big-endian 16-bit value at offset `i`.
pub open spec fn be_u16(b: Seq<u8>, i: int) -> int {
    b[i] * 0x100 + b[i + 1]
}

/// The big-endian 32-bit value at offset `i`.
pub open spec fn be_u32(b: Seq<u8>, i: int) -> int {
    b[i] * 0x100_0000 + b[i + 1] * 0x1_0000 + b[i + 2] * 0x100 + b[i + 3]
}

/// The big-endian 64-bit value at offset `i`.
pub open spec fn be_u64(b: Seq<u8>, i: int) -> int {
    be_u32(b, i) * 0x1_0000_0000 + be_u32(b, i + 4)
}

fn read_u8(bytes: &[u8], off: usize) -> (r: Result<(u8, usize), ClassParseError>)
    ensures
        r matches Ok((v, n)) ==> off < bytes@.len() && v == bytes@[off as int] && n == off + 1,
        r is Err ==> off >= bytes@.len(),
{
    if off < bytes.len() {
        Ok((bytes[off], off + 1))
    } else {
        Err(ClassParseError::Truncated)
    }
}

fn read_u16(bytes: &[u8], off: usize) -> (r: Result<(u16, usize), ClassParseError>)
    ensures
        r matches Ok((v, n)) ==> off + 2 <= bytes@.len() && v == be_u16(bytes@, off as int) && n
            == off + 2,
        r is Err ==> off + 2 > bytes@.len(),
{
    if off < bytes.len() && off + 1 < bytes.len() {
        let v: u16 = (bytes[off] as u16) * 0x100 + (bytes[off + 1] as u16);
        Ok((v, off + 2))
    } else {
        Err(ClassParseError::Truncated)
    }
}

fn read_u32(bytes: &[u8], off: usize) -> (r: Result<(u32, usize), ClassParseError>)
    ensures
        r matches Ok((v, n)) ==> off + 4 <= bytes@.len() && v == be_u32(bytes@, off as int) && n
            == off + 4,
        r is Err ==> off + 4 > bytes@.len(),
{
    if bytes.len() >= 4 && off <= bytes.len() - 4 {
        let v: u32 = (bytes[off] as u32) * 0x100_0000 + (bytes[off + 1] as u32) * 0x1_0000 + (
        bytes[off + 2] as u32) * 0x100 + (bytes[off + 3] as u32);
        Ok((v, off + 4))
    } else {
        Err(ClassParseError::Truncated)
    }
}

fn read_u64(bytes: &[u8], off: usize) -> (r: Result<(u64, usize), ClassParseError>)
    ensures
        r matches Ok((v, n)) ==> off + 8 <= bytes@.len() && v == be_u64(bytes@, off as int) && n
            == off + 8,
        r is Err ==> off + 8 > bytes@.len(),
{
    let (hi, off) = match read_u32(bytes, off) {
        Ok(x) => x,
        Err(e) => {
            return Err(e);
        },
    };
    let (lo, off) = match read_u32(bytes, off) {
        Ok(x) => x,
        Err(e) => {
            return Err(e);
        },
    };
    Ok(((hi as u64) * 0x1_0000_0000 + (lo as u64), off))
}

/// Copies `bytes[off .. off + count]` into a fresh vector.
fn read_bytes(bytes: &[u8], off: usize, count: usize) -> (r: Result<
    (Vec<u8>, usize),
    ClassParseError,
>)
    ensures
        r matches Ok((v, n)) ==> off + count <= bytes@.len() && v@ == bytes@.subrange(
            off as int,
            off + count,
        ) && n == off + count,
        r is Err ==> off + count > bytes@.len(),
{
    if off <= bytes.len() && count <= bytes.len() - off {
        let mut v: Vec<u8> = Vec::with_capacity(count);
        let mut i: usize = 0;
        while i < count
            invariant
                i <= count,
                off + count <= bytes@.len(),
                bytes@.len() <= usize::MAX,
                v@ == bytes@.subrange(off as int, off + i),
            decreases count - i,
        {
            v.push(bytes[off + i]);
            proof {
                assert(bytes@.subrange(off as int, off + i + 1) =~= bytes@.subrange(
                    off as int,
                    off + i,
                ).push(bytes@[off + i]));
            }
            i = i + 1;
        }
        Ok((v, off + count))
    } else {
        Err(ClassParseError::Truncated)
    }
}

/// How a decoded constant-pool entry relates to the bytes it was read from:
/// the entry's tag byte sits at `off`, its payload follows, and `next` is the
/// offset one past the entry.
pub open spec fn pool_entry_matches(
    b: Seq<u8>,
    off: int,
    entry: ConstantInfo,
    next: int,
) -> bool {
    &&& 0 <= off < b.len()
    &&& match entry {
        ConstantInfo::Utf8(s) => {
            let len = be_u16(b, off + 1);
            &&& b[off] == 1
            &&& next == off + 3 + len
            &&& next <= b.len()
            &&& vstd::utf8::valid_utf8(b.subrange(off + 3, off + 3 + len))
            &&& s@ == vstd::utf8::decode_utf8(b.subrange(off + 3, off + 3 + len))
        },
        ConstantInfo::Integer(v) => b[off] == 3 && next == off + 5 && v as int
            == (be_u32(b, off + 1) as u32) as i32 as int,
        ConstantInfo::Float(v) => b[off] == 4 && next == off + 5 && v == be_u32(b, off + 1),
        ConstantInfo::Long(v) => b[off] == 5 && next == off + 9 && v as int
            == (be_u64(b, off + 1) as u64) as i64 as int,
        ConstantInfo::Double(v) => b[off] == 6 && next == off + 9 && v == be_u64(b, off + 1),
        ConstantInfo::ClassRef { name_index } => b[off] == 7 && next == off + 3 && name_index
            == be_u16(b, off + 1),
        ConstantInfo::StringRef { string_index } => b[off] == 8 && next == off + 3 && string_index
            == be_u16(b, off + 1),
        ConstantInfo::FieldRef { class_index, name_and_type_index } => b[off] == 9 && next == off
            + 5 && class_index == be_u16(b, off + 1) && name_and_type_index == be_u16(b, off + 3),
        ConstantInfo::MethodRef { class_index, name_and_type_index } => b[off] == 10 && next == off
            + 5 && class_index == be_u16(b, off + 1) && name_and_type_index == be_u16(b, off + 3),
        ConstantInfo::InterfaceMethodRef { class_index, name_and_type_index } => b[off] == 11
            && next == off + 5 && class_index == be_u16(b, off + 1) && name_and_type_index
            == be_u16(b, off + 3),
        ConstantInfo::NameAndType { name_index, descriptor_index } => b[off] == 12 && next == off
            + 5 && name_index == be_u16(b, off + 1) && descriptor_index == be_u16(b, off + 3),
        ConstantInfo::MethodHandle { reference_kind, reference_index } => b[off] == 15 && next
            == off + 4 && reference_kind == b[off + 1] && reference_index == be_u16(b, off + 2),
        ConstantInfo::MethodType { descriptor_index } => b[off] == 16 && next == off + 3
            && descriptor_index == be_u16(b, off + 1),
        ConstantInfo::InvokeDynamic { bootstrap_method_attr_index, name_and_type_index } => b[off]
            == 18 && next == off + 5 && bootstrap_method_attr_index == be_u16(b, off + 1)
            && name_and_type_index == be_u16(b, off + 3),
        ConstantInfo::Unusable => false,
    }
}

/// Every usable slot of a decoded pool was read off the input bytes: some
/// offset holds exactly that entry (an `Unusable` slot is the second half of
/// a `Long` or `Double`).
pub open spec fn pool_decoded(b: Seq<u8>, pool: Seq<ConstantInfo>) -> bool {
    forall|k: int|
        0 <= k < pool.len() ==> ((#[trigger] pool[k]) is Unusable || exists|o: int, n: int|
            pool_entry_matches(b, o, pool[k], n))
}

/// Decodes the constant-pool entry whose tag byte sits at `off`.
#[verifier::rlimit(30)]
fn parse_constant_info(bytes: &[u8], off: usize) -> (r: Result<
    (ConstantInfo, usize),
    ClassParseError,
>)
    ensures
        r matches Ok((e, n)) ==> pool_entry_matches(bytes@, off as int, e, n as int) && off < n
            <= bytes@.len(),
{
    let (tag, off1) = read_u8(bytes, off)?;
    match tag {
        1 => {
            let (len, off2) = read_u16(bytes, off1)?;
            let (raw, off3) = read_bytes(bytes, off2, len as usize)?;
            match string_from_utf8(raw) {
                Some(s) => {
                    let e = ConstantInfo::Utf8(s);
                    proof {
                        assert(pool_entry_matches(bytes@, off as int, e, off3 as int));
                    }
                    Ok((e, off3))
                },
                None => Err(ClassParseError::BadUtf8),
            }
        },
        3 => {
            let (v, off2) = read_u32(bytes, off1)?;
            let e = ConstantInfo::Integer(#[verifier::truncate] (v as i32));
            proof {
                assert(pool_entry_matches(bytes@, off as int, e, off2 as int));
            }
            Ok((e, off2))
        },
        4 => {
            let (v, off2) = read_u32(bytes, off1)?;
            let e = ConstantInfo::Float(v);
            proof {
                assert(pool_entry_matches(bytes@, off as int, e, off2 as int));
            }
            Ok((e, off2))
        },
        5 => {
            let (v, off2) = read_u64(bytes, off1)?;
            let e = ConstantInfo::Long(#[verifier::truncate] (v as i64));
            proof {
                assert(pool_entry_matches(bytes@, off as int, e, off2 as int));
            }
            Ok((e, off2))
        },
        6 => {
            let (v, off2) = read_u64(bytes, off1)?;
            let e = ConstantInfo::Double(v);
            proof {
                assert(pool_entry_matches(bytes@, off as int, e, off2 as int));
            }
            Ok((e, off2))
        },
        7 => {
            let (v, off2) = read_u16(bytes, off1)?;
            let e = ConstantInfo::ClassRef { name_index: v };
            proof {
                assert(pool_entry_matches(bytes@, off as int, e, off2 as int));
            }
            Ok((e, off2))
        },
        8 => {
            let (v, off2) = read_u16(bytes, off1)?;
            let e = ConstantInfo::StringRef { string_index: v };
            proof {
                assert(pool_entry_matches(bytes@, off as int, e, off2 as int));
            }
            Ok((e, off2))
        },
        9 => {
            let (c, off2) = read_u16(bytes, off1)?;
            let (nt, off3) = read_u16(bytes, off2)?;
            let e = ConstantInfo::FieldRef { class_index: c, name_and_type_index: nt };
            proof {
                assert(pool_entry_matches(bytes@, off as int, e, off3 as int));
            }
            Ok((e, off3))
        },
        10 => {
            let (c, off2) = read_u16(bytes, off1)?;
            let (nt, off3) = read_u16(bytes, off2)?;
            let e = ConstantInfo::MethodRef { class_index: c, name_and_type_index: nt };
            proof {
                assert(pool_entry_matches(bytes@, off as int, e, off3 as int));
            }
            Ok((e, off3))
        },
        11 => {
            let (c, off2) = read_u16(bytes, off1)?;
            let (nt, off3) = read_u16(bytes, off2)?;
            let e = ConstantInfo::InterfaceMethodRef { class_index: c, name_and_type_index: nt };
            proof {
                assert(pool_entry_matches(bytes@, off as int, e, off3 as int));
            }
            Ok((e, off3))
        },
        12 => {
            let (n, off2) = read_u16(bytes, off1)?;
            let (d, off3) = read_u16(bytes, off2)?;
            let e = ConstantInfo::NameAndType { name_index: n, descriptor_index: d };
            proof {
                assert(pool_entry_matches(bytes@, off as int, e, off3 as int));
            }
            Ok((e, off3))
        },
        15 => {
            let (k, off2) = read_u8(bytes, off1)?;
            let (i, off3) = read_u16(bytes, off2)?;
            let e = ConstantInfo::MethodHandle { reference_kind: k, reference_index: i };
            proof {
                assert(pool_entry_matches(bytes@, off as int, e, off3 as int));
            }
            Ok((e, off3))
        },
        16 => {
            let (d, off2) = read_u16(bytes, off1)?;
            let e = ConstantInfo::MethodType { descriptor_index: d };
            proof {
                assert(pool_entry_matches(bytes@, off as int, e, off2 as int));
            }
            Ok((e, off2))
        },
        18 => {
            let (bi, off2) = read_u16(bytes, off1)?;
            let (nt, off3) = read_u16(bytes, off2)?;
            let e = ConstantInfo::InvokeDynamic {
                bootstrap_method_attr_index: bi,
                name_and_type_index: nt,
            };
            proof {
                assert(pool_entry_matches(bytes@, off as int, e, off3 as int));
            }
            Ok((e, off3))
        },
        _ => Err(ClassParseError::BadConstantTag),
    }
}

/// Decodes the constant pool: `count - 1` slots, where a `Long` or `Double`
/// entry occupies two slots (the second is `Unusable`).
fn parse_constant_pool(bytes: &[u8], off: usize, count: u16) -> (r: Result<
    (Vec<ConstantInfo>, usize),
    ClassParseError,
>)
    requires
        off <= bytes@.len(),
    ensures
        r matches Ok((pool, n)) ==> (count == 0 || pool@.len() == count - 1) && off <= n
            <= bytes@.len() && pool_decoded(bytes@, pool@),
{
    let mut pool: Vec<ConstantInfo> = Vec::new();
    let mut cur = off;
    let target: usize = if count == 0 {
        0
    } else {
        (count - 1) as usize
    };
    while pool.len() < target
        invariant
            pool@.len() <= target,
            off <= cur <= bytes@.len(),
            pool_decoded(bytes@, pool@),
        decreases target - pool@.len(),
    {
        let (entry, next) = parse_constant_info(bytes, cur)?;
        let two_slots = match &entry {
            ConstantInfo::Long(_) => true,
            ConstantInfo::Double(_) => true,
            _ => false,
        };
        proof {
            assert(pool_entry_matches(bytes@, cur as int, entry, next as int));
        }
        pool.push(entry);
        if two_slots && pool.len() < target {
            pool.push(ConstantInfo::Unusable);
        }
        cur = next;
    }
    Ok((pool, cur))
}

fn parse_attribute(bytes: &[u8], off: usize) -> (r: Result<(AttributeInfo, usize), ClassParseError>)
    ensures
        r matches Ok((a, n)) ==> off < n <= bytes@.len(),
{
    let (name_index, off1) = read_u16(bytes, off)?;
    let (len, off2) = read_u32(bytes, off1)?;
    let (info, off3) = read_bytes(bytes, off2, len as usize)?;
    Ok((AttributeInfo { attribute_name_index: name_index, info }, off3))
}

fn parse_attributes(bytes: &[u8], off: usize, count: u16) -> (r: Result<
    (Vec<AttributeInfo>, usize),
    ClassParseError,
>)
    requires
        off <= bytes@.len(),
    ensures
        r matches Ok((attrs, n)) ==> attrs@.len() == count && off <= n <= bytes@.len(),
{
    let mut attrs: Vec<AttributeInfo> = Vec::new();
    let mut cur = off;
    let mut i: u16 = 0;
    while i < count
        invariant
            i <= count,
            attrs@.len() == i,
            off <= cur <= bytes@.len(),
        decreases count - i,
    {
        let (a, next) = parse_attribute(bytes, cur)?;
        attrs.push(a);
        cur = next;
        i = i + 1;
    }
    Ok((attrs, cur))
}

/// Decodes a field or method table row: access flags, name index,
/// descriptor index, and the attribute list.
fn parse_member(bytes: &[u8], off: usize) -> (r: Result<
    ((u16, u16, u16, Vec<AttributeInfo>), usize),
    ClassParseError,
>)
    ensures
        r matches Ok((m, n)) ==> off < n <= bytes@.len(),
{
    let (access_flags, off1) = read_u16(bytes, off)?;
    let (name_index, off2) = read_u16(bytes, off1)?;
    let (descriptor_index, off3) = read_u16(bytes, off2)?;
    let (attr_count, off4) = read_u16(bytes, off3)?;
    let (attributes, off5) = parse_attributes(bytes, off4, attr_count)?;
    if off5 <= off {
        return Err(ClassParseError::Truncated);
    }
    Ok(((access_flags, name_index, descriptor_index, attributes), off5))
}

/// Parses a class file: magic `0xCAFEBABE`, version, constant pool, access
/// flags, this/super class, interfaces, fields, methods, and attributes.
pub fn parse_class_bytes(class_bytes: &[u8]) -> (r: Result<ClassFile, ClassParseError>)
    ensures
        r matches Ok(cf) ==> {
            &&& class_bytes@.len() >= 10
            &&& be_u32(class_bytes@, 0) == 0xCAFEBABE
            &&& cf.minor_version == be_u16(class_bytes@, 4)
            &&& cf.major_version == be_u16(class_bytes@, 6)
            &&& (be_u16(class_bytes@, 8) == 0 || cf.const_pool@.len() == be_u16(class_bytes@, 8)
                - 1)
            &&& pool_decoded(class_bytes@, cf.const_pool@)
        },
        // the header after the pool is read as laid out: access flags, this
        // and super class, then the contiguous interface table and the
        // field count, at consecutive big-endian positions
        r matches Ok(cf) ==> exists|hoff: int|
            {
                &&& 10 <= hoff
                &&& #[trigger] be_u16(class_bytes@, hoff) == cf.access_flags
                &&& hoff + 10 + 2 * cf.interfaces@.len() <= class_bytes@.len()
                &&& cf.this_class == be_u16(class_bytes@, hoff + 2)
                &&& cf.super_class == be_u16(class_bytes@, hoff + 4)
                &&& cf.interfaces@.len() == be_u16(class_bytes@, hoff + 6)
                &&& (forall|k: int|
                    0 <= k < cf.interfaces@.len() ==> cf.interfaces@[k] == be_u16(
                        class_bytes@,
                        hoff + 8 + 2 * k,
                    ))
                &&& be_u16(class_bytes@, hoff + 8 + 2 * cf.interfaces@.len()) == cf.fields@.len()
            },
{
    let bytes = class_bytes;
    let (magic, off) = read_u32(bytes, 0)?;
    if magic != 0xCAFEBABE {
        return Err(ClassParseError::BadMagic);
    }
    let (minor_version, off) = read_u16(bytes, off)?;
    let (major_version, off) = read_u16(bytes, off)?;
    let (pool_count, off) = read_u16(bytes, off)?;
    let (const_pool, off) = parse_constant_pool(bytes, off, pool_count)?;
    let ghost hoff = off as int;
    let (access_flags, off) = read_u16(bytes, off)?;
    let (this_class, off) = read_u16(bytes, off)?;
    let (super_class, off) = read_u16(bytes, off)?;
    let (interface_count, off) = read_u16(bytes, off)?;
    let mut interfaces: Vec<u16> = Vec::new();
    let mut off = off;
    let mut i: u16 = 0;
    while i < interface_count
        invariant
            off <= bytes@.len(),
            i <= interface_count,
            interfaces@.len() == i,
            hoff >= 10,
            off as int == hoff + 8 + 2 * (i as int),
            forall|k: int|
                0 <= k < i ==> interfaces@[k] == be_u16(bytes@, hoff + 8 + 2 * k),
        decreases interface_count - i,
    {
        let (idx, next) = read_u16(bytes, off)?;
        interfaces.push(idx);
        off = next;
        i = i + 1;
    }
    let ghost n_ifaces = interfaces@.len() as int;
    let (field_count, off1) = read_u16(bytes, off)?;
    let mut fields: Vec<FieldInfo> = Vec::new();
    let mut off = off1;
    let mut i: u16 = 0;
    while i < field_count
        invariant
            off <= bytes@.len(),
            fields@.len() == i,
            i <= field_count,
        decreases field_count - i,
    {
        let ((access_flags, name_index, descriptor_index, attributes), next) = parse_member(
            bytes,
            off,
        )?;
        fields.push(FieldInfo { access_flags, name_index, descriptor_index, attributes });
        off = next;
        i = i + 1;
    }
    let (method_count, off1) = read_u16(bytes, off)?;
    let mut methods: Vec<MethodInfo> = Vec::new();
    let mut off = off1;
    let mut i: u16 = 0;
    while i < method_count
        invariant
            off <= bytes@.len(),
        decreases method_count - i,
    {
        let ((access_flags, name_index, descriptor_index, attributes), next) = parse_member(
            bytes,
            off,
        )?;
        methods.push(MethodInfo { access_flags, name_index, descriptor_index, attributes });
        off = next;
        i = i + 1;
    }
    let (attr_count, off) = read_u16(bytes, off)?;
    let (attributes, _) = parse_attributes(bytes, off, attr_count)?;
    proof {
        assert(be_u16(bytes@, hoff) == access_flags);
    }
    Ok(
        ClassFile {
            minor_version,
            major_version,
            const_pool,
            access_flags,
            this_class,
            super_class,
            interfaces,
            fields,
            methods,
            attributes,
        },
    )
}

/// Decodes a `Code` attribute body: max stack and locals, the bytecode, and
/// the exception-handler table. Each handler-table row is pinned to the
/// eight big-endian bytes it was read from.
pub fn code_attribute_parser(info: &[u8]) -> (r: Result<CodeAttribute, ClassParseError>)
    ensures
        r matches Ok(c) ==> {
            let code_len = be_u32(info@, 4);
            let table_base = 10 + code_len;
            &&& info@.len() >= 8
            &&& c.max_stack == be_u16(info@, 0)
            &&& c.max_locals == be_u16(info@, 2)
            &&& c.code@.len() == code_len
            &&& c.code@ == info@.subrange(8, 8 + code_len)
            &&& c.exception_table@.len() == be_u16(info@, 8 + code_len)
            &&& forall|k: int|
                0 <= k < c.exception_table@.len() ==> {
                    let e = #[trigger] c.exception_table@[k];
                    &&& e.start_pc == be_u16(info@, table_base + 8 * k)
                    &&& e.end_pc == be_u16(info@, table_base + 8 * k + 2)
                    &&& e.handler_pc == be_u16(info@, table_base + 8 * k + 4)
                    &&& e.catch_type == be_u16(info@, table_base + 8 * k + 6)
                }
        },
{
    let (max_stack, off) = read_u16(info, 0)?;
    let (max_locals, off) = read_u16(info, off)?;
    let (code_len, off) = read_u32(info, off)?;
    let (code, off) = read_bytes(info, off, code_len as usize)?;
    let (table_len, off) = read_u16(info, off)?;
    let ghost table_base: int = 10 + code_len;
    let mut exception_table: Vec<ExceptionTableEntry> = Vec::new();
    let mut off = off;
    let mut k: u16 = 0;
    while k < table_len
        invariant
            k <= table_len,
            exception_table@.len() == k,
            off == table_base + 8 * k,
            off <= info@.len(),
            table_base == 10 + be_u32(info@, 4),
            forall|j: int|
                0 <= j < k ==> {
                    let e = #[trigger] exception_table@[j];
                    &&& e.start_pc == be_u16(info@, table_base + 8 * j)
                    &&& e.end_pc == be_u16(info@, table_base + 8 * j + 2)
                    &&& e.handler_pc == be_u16(info@, table_base + 8 * j + 4)
                    &&& e.catch_type == be_u16(info@, table_base + 8 * j + 6)
                },
        decreases table_len - k,
    {
        let (start_pc, o1) = read_u16(info, off)?;
        let (end_pc, o2) = read_u16(info, o1)?;
        let (handler_pc, o3) = read_u16(info, o2)?;
        let (catch_type, o4) = read_u16(info, o3)?;
        exception_table.push(ExceptionTableEntry { start_pc, end_pc, handler_pc, catch_type });
        off = o4;
        k = k + 1;
    }
    let (attr_count, off) = read_u16(info, off)?;
    let (attributes, _) = parse_attributes(info, off, attr_count)?;
    Ok(CodeAttribute { max_stack, max_locals, code, exception_table, attributes })
}

/// Copies a byte vector.
pub fn copy_bytes(src: &Vec<u8>) -> (r: Vec<u8>)
    ensures
        r@ == src@,
{
    let n = src.len();
    let mut out: Vec<u8> = Vec::with_capacity(n);
    let mut i: usize = 0;
    while i < n
        invariant
            i <= n,
            n == src@.len(),
            out@ == src@.take(i as int),
        decreases n - i,
    {
        out.push(src[i]);
        proof {
            assert(src@.take(i + 1) =~= src@.take(i as int).push(src@[i as int]));
        }
        i = i + 1;
    }
    proof {
        assert(src@.take(n as int) =~= src@);
    }
    out
}

} // verus!
