//! Constant-pool accessors. Pool indices are 1-based, as in the class-file
//! format; entry `i` lives at `const_pool[i - 1]`.

use vstd::prelude::*;

use crate::classfile::ConstantInfo;

verus! {

/// True when pool entry `idx` is a `Utf8` constant.
pub open spec fn constant_utf8_resolves(pool: Seq<ConstantInfo>, idx: u16) -> bool {
    &&& 1 <= idx <= pool.len()
    &&& pool[idx - 1] is Utf8
}

/// The characters of the `Utf8` constant at pool entry `idx`.
pub open spec fn spec_constant_utf8(pool: Seq<ConstantInfo>, idx: u16) -> Seq<char> {
    match pool[idx - 1] {
        ConstantInfo::Utf8(s) => s@,
        _ => Seq::empty(),
    }
}

/// True when pool entry `idx` names a string: either a `Utf8` constant
/// itself, or a `ClassRef` or `StringRef` entry whose target is one.
pub open spec fn constant_string_resolves(pool: Seq<ConstantInfo>, idx: u16) -> bool {
    &&& 1 <= idx <= pool.len()
    &&& match pool[idx - 1] {
        ConstantInfo::Utf8(_) => true,
        ConstantInfo::ClassRef { name_index } => constant_utf8_resolves(pool, name_index),
        ConstantInfo::StringRef { string_index } => constant_utf8_resolves(pool, string_index),
        _ => false,
    }
}

/// The string named by pool entry `idx` (see `constant_string_resolves`).
pub open spec fn spec_constant_string(pool: Seq<ConstantInfo>, idx: u16) -> Seq<char> {
    match pool[idx - 1] {
        ConstantInfo::Utf8(s) => s@,
        ConstantInfo::ClassRef { name_index } => spec_constant_utf8(pool, name_index),
        ConstantInfo::StringRef { string_index } => spec_constant_utf8(pool, string_index),
        _ => Seq::empty(),
    }
}

/// Looks up the string named by pool entry `constant_index`: a `Utf8`
/// constant directly, or the name behind a `ClassRef` or `StringRef` entry.
pub fn try_get_constant_string(const_pool: &Vec<ConstantInfo>, constant_index: u16) -> (r: Option<
    &String,
>)
    ensures
        r matches Some(s) ==> constant_string_resolves(const_pool@, constant_index) && s@
            == spec_constant_string(const_pool@, constant_index),
        r is None ==> !constant_string_resolves(const_pool@, constant_index),
{
    if constant_index < 1 || constant_index as usize > const_pool.len() {
        return None;
    }
    let target_index: u16 = match &const_pool[constant_index as usize - 1] {
        ConstantInfo::Utf8(s) => {
            return Some(s);
        },
        ConstantInfo::ClassRef { name_index } => *name_index,
        ConstantInfo::StringRef { string_index } => *string_index,
        _ => {
            return None;
        },
    };
    if target_index < 1 || target_index as usize > const_pool.len() {
        return None;
    }
    match &const_pool[target_index as usize - 1] {
        ConstantInfo::Utf8(s) => Some(s),
        _ => None,
    }
}

/// The string named by pool entry `constant_index`, for pools where the
/// entry is known to resolve.
pub fn get_constant_string(const_pool: &Vec<ConstantInfo>, constant_index: u16) -> (r: &String)
    requires
        constant_string_resolves(const_pool@, constant_index),
    ensures
        r@ == spec_constant_string(const_pool@, constant_index),
{
    match try_get_constant_string(const_pool, constant_index) {
        Some(s) => s,
        None => unreached(),
    }
}

/// True when pool entry `idx` is a `NameAndType` constant whose name and
/// descriptor indices both point at `Utf8` constants.
pub open spec fn constant_name_and_type_resolves(pool: Seq<ConstantInfo>, idx: u16) -> bool {
    &&& 1 <= idx <= pool.len()
    &&& match pool[idx - 1] {
        ConstantInfo::NameAndType { name_index, descriptor_index } => constant_utf8_resolves(
            pool,
            name_index,
        ) && constant_utf8_resolves(pool, descriptor_index),
        _ => false,
    }
}

/// The name half of the `NameAndType` constant at pool entry `idx`.
pub open spec fn spec_constant_name(pool: Seq<ConstantInfo>, idx: u16) -> Seq<char> {
    match pool[idx - 1] {
        ConstantInfo::NameAndType { name_index, .. } => spec_constant_utf8(pool, name_index),
        _ => Seq::empty(),
    }
}

/// The descriptor half of the `NameAndType` constant at pool entry `idx`.
pub open spec fn spec_constant_type(pool: Seq<ConstantInfo>, idx: u16) -> Seq<char> {
    match pool[idx - 1] {
        ConstantInfo::NameAndType { descriptor_index, .. } => spec_constant_utf8(
            pool,
            descriptor_index,
        ),
        _ => Seq::empty(),
    }
}

/// Looks up the `NameAndType` constant at pool entry `name_and_type_index`
/// and returns its name and descriptor strings.
pub fn try_get_constant_name_and_type(
    const_pool: &Vec<ConstantInfo>,
    name_and_type_index: u16,
) -> (r: Option<(&String, &String)>)
    ensures
        r matches Some((n, d)) ==> constant_name_and_type_resolves(const_pool@, name_and_type_index)
            && n@ == spec_constant_name(const_pool@, name_and_type_index) && d@
            == spec_constant_type(const_pool@, name_and_type_index),
        r is None ==> !constant_name_and_type_resolves(const_pool@, name_and_type_index),
{
    if name_and_type_index < 1 || name_and_type_index as usize > const_pool.len() {
        return None;
    }
    let (ni, di): (u16, u16) = match &const_pool[name_and_type_index as usize - 1] {
        ConstantInfo::NameAndType { name_index, descriptor_index } => (
            *name_index,
            *descriptor_index,
        ),
        _ => {
            return None;
        },
    };
    if ni < 1 || ni as usize > const_pool.len() || di < 1 || di as usize > const_pool.len() {
        return None;
    }
    let name = match &const_pool[ni as usize - 1] {
        ConstantInfo::Utf8(s) => s,
        _ => {
            return None;
        },
    };
    let descriptor = match &const_pool[di as usize - 1] {
        ConstantInfo::Utf8(s) => s,
        _ => {
            return None;
        },
    };
    Some((name, descriptor))
}

/// The name and descriptor of the `NameAndType` constant at pool entry
/// `name_and_type_index`, for pools where the entry is known to resolve.
pub fn get_constant_name_and_type(const_pool: &Vec<ConstantInfo>, name_and_type_index: u16) -> (r: (
    &String,
    &String,
))
    requires
        constant_name_and_type_resolves(const_pool@, name_and_type_index),
    ensures
        r.0@ == spec_constant_name(const_pool@, name_and_type_index),
        r.1@ == spec_constant_type(const_pool@, name_and_type_index),
{
    match try_get_constant_name_and_type(const_pool, name_and_type_index) {
        Some(r) => r,
        None => unreached(),
    }
}

} // verus!
