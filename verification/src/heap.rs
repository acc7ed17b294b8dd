//! The runtime heap model: object instances with named fields and a host-only
//! metadata side-table, arrays, loaded-class entries, and the id-indexed
//! arena that holds objects and arrays in one numeric handle space.

use vstd::prelude::*;

use crate::value::JavaValue;

verus! {

/// Looks a name up in an association list of named values; the first match
/// wins (names are kept unique by the update operations).
pub open spec fn assoc_find<V>(s: Seq<(String, V)>, name: Seq<char>) -> Option<V>
    decreases s.len(),
{
    if s.len() == 0 {
        None
    } else if s[0].0@ == name {
        Some(s[0].1)
    } else {
        assoc_find(s.skip(1), name)
    }
}

/// Finds the position of `name` in an association list.
pub open spec fn assoc_index<V>(s: Seq<(String, V)>, name: Seq<char>) -> Option<int>
    decreases s.len(),
{
    if s.len() == 0 {
        None
    } else if s[0].0@ == name {
        Some(0)
    } else {
        match assoc_index(s.skip(1), name) {
            Some(i) => Some(i + 1),
            None => None,
        }
    }
}

pub proof fn lemma_assoc_index_find<V>(s: Seq<(String, V)>, name: Seq<char>)
    ensures
        match assoc_index(s, name) {
            Some(i) => 0 <= i < s.len() && s[i].0@ == name && assoc_find(s, name) == Some(s[i].1),
            None => assoc_find(s, name) is None,
        },
    decreases s.len(),
{
    if s.len() > 0 && s[0].0@ != name {
        lemma_assoc_index_find(s.skip(1), name);
    }
}

/// Updating one slot leaves every other name's lookup unchanged.
pub proof fn lemma_assoc_update<V>(s: Seq<(String, V)>, i: int, v: V, name: Seq<char>)
    requires
        0 <= i < s.len(),
        assoc_index(s, name) == Some(i),
    ensures
        assoc_find(s.update(i, (s[i].0, v)), name) == Some(v),
        forall|m: Seq<char>|
            m != name ==> #[trigger] assoc_find(s.update(i, (s[i].0, v)), m) == assoc_find(s, m),
    decreases s.len(),
{
    lemma_assoc_index_find(s, name);
    if i == 0 {
        assert forall|m: Seq<char>| m != name implies #[trigger] assoc_find(
            s.update(0, (s[0].0, v)),
            m,
        ) == assoc_find(s, m) by {
            assert(s.update(0, (s[0].0, v)).skip(1) =~= s.skip(1));
        }
        assert(s.update(0, (s[0].0, v)).skip(1) =~= s.skip(1));
    } else {
        lemma_assoc_update(s.skip(1), i - 1, v, name);
        assert(s.update(i, (s[i].0, v)).skip(1) =~= s.skip(1).update(i - 1, (s.skip(1)[i - 1].0, v)));
        assert forall|m: Seq<char>| m != name implies #[trigger] assoc_find(
            s.update(i, (s[i].0, v)),
            m,
        ) == assoc_find(s, m) by {
            assert(assoc_find(s.skip(1).update(i - 1, (s.skip(1)[i - 1].0, v)), m) == assoc_find(
                s.skip(1),
                m,
            ));
        }
    }
}

/// Appending a fresh name leaves every other name's lookup unchanged.
pub proof fn lemma_assoc_push<V>(s: Seq<(String, V)>, entry: (String, V))
    requires
        assoc_index(s, entry.0@) is None,
    ensures
        assoc_find(s.push(entry), entry.0@) == Some(entry.1),
        forall|m: Seq<char>|
            m != entry.0@ ==> #[trigger] assoc_find(s.push(entry), m) == assoc_find(s, m),
    decreases s.len(),
{
    lemma_assoc_index_find(s, entry.0@);
    if s.len() == 0 {
        assert forall|m: Seq<char>| m != entry.0@ implies #[trigger] assoc_find(s.push(entry), m)
            == assoc_find(s, m) by {
            assert(s.push(entry).skip(1) =~= s);
        }
        assert(s.push(entry).skip(1) =~= s);
    } else {
        lemma_assoc_push(s.skip(1), entry);
        assert forall|m: Seq<char>| m != entry.0@ implies #[trigger] assoc_find(s.push(entry), m)
            == assoc_find(s, m) by {
            assert(s.push(entry).skip(1) =~= s.skip(1).push(entry));
            assert(assoc_find(s.skip(1).push(entry), m) == assoc_find(s.skip(1), m));
        }
        assert(s.push(entry).skip(1) =~= s.skip(1).push(entry));
    }
}

/// Lookup in an object's Java-visible field table.
pub open spec fn spec_field_find(s: Seq<(String, JavaValue)>, name: Seq<char>) -> Option<
    JavaValue,
> {
    assoc_find(s, name)
}

/// Lookup in an object's metadata side-table.
pub open spec fn spec_meta_find(s: Seq<(String, InternalMetadata)>, name: Seq<char>) -> Option<
    InternalMetadata,
> {
    assoc_find(s, name)
}

/// Finds `name` in an association list of values.
pub fn field_find(fields: &Vec<(String, JavaValue)>, name: &str) -> (r: Option<JavaValue>)
    ensures
        r == spec_field_find(fields@, name@),
{
    let n = fields.len();
    let mut i: usize = 0;
    proof {
        assert(fields@.skip(0) =~= fields@);
    }
    while i < n
        invariant
            i <= n,
            n == fields@.len(),
            spec_field_find(fields@, name@) == spec_field_find(fields@.skip(i as int), name@),
        decreases n - i,
    {
        proof {
            assert(fields@.skip(i as int)[0] == fields@[i as int]);
            assert(fields@.skip(i as int).skip(1) =~= fields@.skip(i + 1));
        }
        if crate::strutil::str_eq(fields[i].0.as_str(), name) {
            return Some(fields[i].1);
        }
        i = i + 1;
    }
    proof {
        assert(fields@.skip(n as int) =~= Seq::<(String, JavaValue)>::empty());
    }
    None
}

/// Finds the position of `name` in an association list of values.
pub fn field_index(fields: &Vec<(String, JavaValue)>, name: &str) -> (r: Option<usize>)
    ensures
        r matches Some(i) ==> assoc_index(fields@, name@) == Some(i as int),
        r is None ==> assoc_index(fields@, name@) is None,
{
    let n = fields.len();
    let mut i: usize = 0;
    proof {
        assert(fields@.skip(0) =~= fields@);
    }
    while i < n
        invariant
            i <= n,
            n == fields@.len(),
            assoc_index(fields@, name@) == (match assoc_index(
                fields@.skip(i as int),
                name@,
            ) {
                Some(k) => Some(k + i),
                None => None::<int>,
            }),
        decreases n - i,
    {
        proof {
            assert(fields@.skip(i as int)[0] == fields@[i as int]);
            assert(fields@.skip(i as int).skip(1) =~= fields@.skip(i + 1));
        }
        if crate::strutil::str_eq(fields[i].0.as_str(), name) {
            return Some(i);
        }
        i = i + 1;
    }
    proof {
        assert(fields@.skip(n as int) =~= Seq::<(String, JavaValue)>::empty());
    }
    None
}

/// Updates the slot named `name`, failing when it is absent.
pub fn field_update(fields: &mut Vec<(String, JavaValue)>, name: &str, val: JavaValue) -> (r:
    Result<(), ()>)
    ensures
        r matches Ok(()) ==> {
            &&& assoc_index(old(fields)@, name@) is Some
            &&& spec_field_find(final(fields)@, name@) == Some(val)
            &&& forall|m: Seq<char>|
                m != name@ ==> #[trigger] spec_field_find(final(fields)@, m) == spec_field_find(
                    old(fields)@,
                    m,
                )
            &&& final(fields)@.len() == old(fields)@.len()
        },
        r is Err ==> assoc_index(old(fields)@, name@) is None && *final(fields) == *old(fields),
{
    match field_index(fields, name) {
        Some(i) => {
            proof {
                lemma_assoc_index_find(fields@, name@);
                lemma_assoc_update(fields@, i as int, val, name@);
            }
            let key = fields[i].0.clone();
            proof {
                assert(fields@.update(i as int, (fields@[i as int].0, val)) =~= fields@.update(
                    i as int,
                    (key, val),
                ));
            }
            fields.set(i, (key, val));
            Ok(())
        },
        None => Err(()),
    }
}

/// Updates the slot named `name`, appending it when absent.
pub fn field_put(fields: &mut Vec<(String, JavaValue)>, name: &str, val: JavaValue)
    ensures
        spec_field_find(final(fields)@, name@) == Some(val),
        forall|m: Seq<char>|
            m != name@ ==> #[trigger] spec_field_find(final(fields)@, m) == spec_field_find(
                old(fields)@,
                m,
            ),
{
    match field_index(fields, name) {
        Some(i) => {
            proof {
                lemma_assoc_index_find(fields@, name@);
                lemma_assoc_update(fields@, i as int, val, name@);
            }
            let key = fields[i].0.clone();
            proof {
                assert(fields@.update(i as int, (fields@[i as int].0, val)) =~= fields@.update(
                    i as int,
                    (key, val),
                ));
            }
            fields.set(i, (key, val));
        },
        None => {
            let key = name.to_owned();
            proof {
                lemma_assoc_push(fields@, (key, val));
            }
            fields.push((key, val));
        },
    }
}

/// Host-only metadata attached to an object, invisible to Java code.
#[derive(Debug)]
pub enum InternalMetadata {
    Text(String),
    Numeric(usize),
}

impl InternalMetadata {
    /// The text payload of a `Text` entry.
    pub fn into_string(self) -> (r: String)
        requires
            self is Text,
        ensures
            self == InternalMetadata::Text(r),
    {
        match self {
            InternalMetadata::Text(val) => val,
            _ => unreached(),
        }
    }

    /// The numeric payload of a `Numeric` entry.
    pub fn into_usize(self) -> (r: usize)
        requires
            self is Numeric,
        ensures
            self == InternalMetadata::Numeric(r),
    {
        match self {
            InternalMetadata::Numeric(val) => val,
            _ => unreached(),
        }
    }

    /// A copy of this entry (`Text` payloads are cloned).
    pub fn duplicate(&self) -> (r: InternalMetadata)
        ensures
            r == self,
    {
        match self {
            InternalMetadata::Text(s) => InternalMetadata::Text(s.clone()),
            InternalMetadata::Numeric(n) => InternalMetadata::Numeric(*n),
        }
    }
}

/// Finds the position of `name` in a metadata side-table.
fn meta_index(metas: &Vec<(String, InternalMetadata)>, name: &str) -> (r: Option<usize>)
    ensures
        r matches Some(i) ==> assoc_index(metas@, name@) == Some(i as int) && i < metas@.len(),
        r is None ==> assoc_index(metas@, name@) is None,
{
    let n = metas.len();
    let mut i: usize = 0;
    proof {
        assert(metas@.skip(0) =~= metas@);
    }
    while i < n
        invariant
            i <= n,
            n == metas@.len(),
            assoc_index(metas@, name@) == (match assoc_index(metas@.skip(i as int), name@) {
                Some(k) => Some(k + i),
                None => None::<int>,
            }),
        decreases n - i,
    {
        proof {
            assert(metas@.skip(i as int)[0] == metas@[i as int]);
            assert(metas@.skip(i as int).skip(1) =~= metas@.skip(i + 1));
        }
        if crate::strutil::str_eq(metas[i].0.as_str(), name) {
            return Some(i);
        }
        i = i + 1;
    }
    proof {
        assert(metas@.skip(n as int) =~= Seq::<(String, InternalMetadata)>::empty());
    }
    None
}

/// An object instance: its class, its Java-visible fields (pre-populated
/// with type defaults for the class and every superclass), and the host-only
/// metadata side-table.
#[derive(Debug)]
pub struct JavaObject {
    pub class_id: usize,
    pub internal_metadata: Vec<(String, InternalMetadata)>,
    pub instance_fields: Vec<(String, JavaValue)>,
}

impl JavaObject {
    /// Overwrites the field named `name`; fails when no such field exists.
    pub fn set_field(&mut self, name: &str, val: JavaValue) -> (r: Result<(), ()>)
        ensures
            r matches Ok(()) ==> {
                &&& spec_field_find(final(self).instance_fields@, name@) == Some(val)
                &&& forall|m: Seq<char>|
                    m != name@ ==> #[trigger] spec_field_find(final(self).instance_fields@, m)
                        == spec_field_find(old(self).instance_fields@, m)
                // the field existed: nothing is appended
                &&& final(self).instance_fields@.len() == old(self).instance_fields@.len()
                &&& final(self).class_id == old(self).class_id
                &&& final(self).internal_metadata == old(self).internal_metadata
            },
            r is Err ==> spec_field_find(old(self).instance_fields@, name@) is None && *final(self)
                == *old(self),
    {
        proof {
            lemma_assoc_index_find(self.instance_fields@, name@);
        }
        field_update(&mut self.instance_fields, name, val)
    }

    /// Reads the field named `name`; fails when no such field exists.
    pub fn get_field(&self, name: &str) -> (r: Result<JavaValue, ()>)
        ensures
            r matches Ok(v) ==> spec_field_find(self.instance_fields@, name@) == Some(v),
            r is Err ==> spec_field_find(self.instance_fields@, name@) is None,
    {
        match field_find(&self.instance_fields, name) {
            Some(v) => Ok(v),
            None => Err(()),
        }
    }

    pub fn get_internal_metadata(&self, name: &str) -> (r: Option<&InternalMetadata>)
        ensures
            r matches Some(m) ==> spec_meta_find(self.internal_metadata@, name@) == Some(*m),
            r is None ==> spec_meta_find(self.internal_metadata@, name@) is None,
    {
        let n = self.internal_metadata.len();
        let mut i: usize = 0;
        proof {
            assert(self.internal_metadata@.skip(0) =~= self.internal_metadata@);
        }
        while i < n
            invariant
                i <= n,
                n == self.internal_metadata@.len(),
                spec_meta_find(self.internal_metadata@, name@) == assoc_find(
                    self.internal_metadata@.skip(i as int),
                    name@,
                ),
            decreases n - i,
        {
            proof {
                assert(self.internal_metadata@.skip(i as int)[0] == self.internal_metadata@[
                    i as int]);
                assert(self.internal_metadata@.skip(i as int).skip(1) =~= self.internal_metadata@
                    .skip(i + 1));
            }
            if crate::strutil::str_eq(self.internal_metadata[i].0.as_str(), name) {
                return Some(&self.internal_metadata[i].1);
            }
            i = i + 1;
        }
        proof {
            assert(self.internal_metadata@.skip(n as int) =~= Seq::<
                (String, InternalMetadata),
            >::empty());
        }
        None
    }

    /// Attaches (or overwrites) a metadata entry.
    pub fn set_internal_metadata(&mut self, name: &str, value: InternalMetadata)
        ensures
            spec_meta_find(final(self).internal_metadata@, name@) == Some(value),
            forall|m: Seq<char>|
                m != name@ ==> #[trigger] spec_meta_find(final(self).internal_metadata@, m)
                    == spec_meta_find(old(self).internal_metadata@, m),
            final(self).class_id == old(self).class_id,
            final(self).instance_fields == old(self).instance_fields,
    {
        match meta_index(&self.internal_metadata, name) {
            Some(i) => {
                proof {
                    lemma_assoc_index_find(self.internal_metadata@, name@);
                    lemma_assoc_update(self.internal_metadata@, i as int, value, name@);
                }
                let key = self.internal_metadata[i].0.clone();
                proof {
                    assert(self.internal_metadata@.update(
                        i as int,
                        (self.internal_metadata@[i as int].0, value),
                    ) =~= self.internal_metadata@.update(i as int, (key, value)));
                }
                self.internal_metadata[i] = (key, value);
            },
            None => {
                let key = name.to_owned();
                proof {
                    lemma_assoc_push(self.internal_metadata@, (key, value));
                }
                self.internal_metadata.push((key, value));
            },
        }
    }

    /// Removes the metadata entry named `name`, returning it if present.
    pub fn remove_internal_metadata(&mut self, name: &str) -> (r: Option<InternalMetadata>)
        ensures
            final(self).class_id == old(self).class_id,
            final(self).instance_fields == old(self).instance_fields,
    {
        let n = self.internal_metadata.len();
        let mut i: usize = 0;
        while i < n
            invariant
                i <= n,
                n == self.internal_metadata@.len(),
                self.internal_metadata == old(self).internal_metadata,
                self.class_id == old(self).class_id,
                self.instance_fields == old(self).instance_fields,
            decreases n - i,
        {
            if crate::strutil::str_eq(self.internal_metadata[i].0.as_str(), name) {
                let (_, m) = self.internal_metadata.remove(i);
                return Some(m);
            }
            i = i + 1;
        }
        None
    }
}

/// The element type of an array: one of the eight primitives, an object
/// reference to a loaded class, or a nested array type.
#[derive(Debug)]
pub enum JavaArrayType {
    Byte,
    Short,
    Int,
    Long,
    Float,
    Double,
    Char,
    Boolean,
    Object(usize),
    Array(Box<JavaArrayType>),
}

impl JavaArrayType {
    /// The type-default value for one cell of an array of this element type.
    pub open spec fn spec_default_cell(self) -> JavaValue {
        match self {
            JavaArrayType::Byte => JavaValue::Byte(0),
            JavaArrayType::Short => JavaValue::Short(0),
            JavaArrayType::Int => JavaValue::Int(0),
            JavaArrayType::Long => JavaValue::Long(0),
            JavaArrayType::Float => JavaValue::Float(0),
            JavaArrayType::Double => JavaValue::Double(0),
            JavaArrayType::Char => JavaValue::Char(0),
            JavaArrayType::Boolean => JavaValue::Boolean(false),
            JavaArrayType::Object(_) => JavaValue::Object(None),
            JavaArrayType::Array(_) => JavaValue::Object(None),
        }
    }

    pub fn default_cell(&self) -> (r: JavaValue)
        ensures
            r == self.spec_default_cell(),
    {
        match self {
            JavaArrayType::Byte => JavaValue::Byte(0),
            JavaArrayType::Short => JavaValue::Short(0),
            JavaArrayType::Int => JavaValue::Int(0),
            JavaArrayType::Long => JavaValue::Long(0),
            JavaArrayType::Float => JavaValue::Float(0),
            JavaArrayType::Double => JavaValue::Double(0),
            JavaArrayType::Char => JavaValue::Char(0),
            JavaArrayType::Boolean => JavaValue::Boolean(false),
            JavaArrayType::Object(_) => JavaValue::Object(None),
            JavaArrayType::Array(_) => JavaValue::Object(None),
        }
    }
}

/// An array instance: element type and cells. Each cell holds one value;
/// category-2 elements occupy a single cell here (the pairing discipline
/// applies only to operand stacks and local-variable tables).
#[derive(Debug)]
pub struct JavaArray {
    pub array_type: JavaArrayType,
    pub values: Vec<JavaValue>,
}

/// A loaded class: its name, topology (superclass, direct interfaces), its
/// static fields, the template its instances' fields are created from, the
/// `java/lang/Class` mirror object's id, and the initialization flag.
#[derive(Debug)]
pub struct JavaClass {
    pub java_type: String,
    pub access_flags: u16,
    pub class_id: usize,
    pub superclass_id: Option<usize>,
    pub direct_interfaces: Vec<String>,
    pub is_array_type: bool,
    pub is_primitive_type: bool,
    pub static_fields: Vec<(String, JavaValue)>,
    pub class_object_id: usize,
    pub is_initialized: bool,
    /// Field names and type defaults for instances of this class, own fields
    /// and every superclass's fields together.
    pub instance_field_template: Vec<(String, JavaValue)>,
}

/// One slot of the heap arena: the numeric handle is the index, and no
/// handle is ever both an object and an array.
#[derive(Debug)]
pub enum HeapEntry {
    ObjectEntry(JavaObject),
    ArrayEntry(JavaArray),
}

/// The registry invariant: each class sits at the index its id names, and a
/// superclass is always registered before (at a smaller id than) its
/// subclasses.
pub open spec fn classes_wf(classes: Seq<JavaClass>) -> bool {
    forall|i: int|
        0 <= i < classes.len() ==> (#[trigger] classes[i]).class_id == i && (match classes[i]
            .superclass_id {
            Some(s) => s < i,
            None => true,
        })
}

/// The heap: loaded classes, the object/array arena, and the interned-string
/// table.
#[derive(Debug)]
pub struct Heap {
    pub loaded_classes: Vec<JavaClass>,
    pub entries: Vec<HeapEntry>,
    pub interned_strings: Vec<(String, usize)>,
    pub main_thread_object: usize,
}

impl Heap {
    pub fn new() -> (r: Heap)
        ensures
            r.loaded_classes@ == Seq::<JavaClass>::empty(),
            r.entries@ == Seq::<HeapEntry>::empty(),
            r.interned_strings@ == Seq::<(String, usize)>::empty(),
            r.main_thread_object == 0,
    {
        Heap {
            loaded_classes: Vec::new(),
            entries: Vec::new(),
            interned_strings: Vec::new(),
            main_thread_object: 0,
        }
    }

    /// The id of the loaded class named `name`, if any.
    pub open spec fn spec_find_class(classes: Seq<JavaClass>, name: Seq<char>) -> Option<int>
        decreases classes.len(),
    {
        if classes.len() == 0 {
            None
        } else if classes[0].java_type@ == name {
            Some(0)
        } else {
            match Heap::spec_find_class(classes.skip(1), name) {
                Some(i) => Some(i + 1),
                None => None,
            }
        }
    }

    /// Looks up a loaded class by name.
    pub fn find_class(&self, name: &str) -> (r: Option<usize>)
        ensures
            r matches Some(i) ==> Heap::spec_find_class(self.loaded_classes@, name@) == Some(
                i as int,
            ) && i < self.loaded_classes@.len() && self.loaded_classes@[i as int].java_type@
                == name@,
            r is None ==> Heap::spec_find_class(self.loaded_classes@, name@) is None,
    {
        let n = self.loaded_classes.len();
        let mut i: usize = 0;
        proof {
            assert(self.loaded_classes@.skip(0) =~= self.loaded_classes@);
        }
        while i < n
            invariant
                i <= n,
                n == self.loaded_classes@.len(),
                Heap::spec_find_class(self.loaded_classes@, name@) == (match Heap::spec_find_class(
                    self.loaded_classes@.skip(i as int),
                    name@,
                ) {
                    Some(k) => Some(k + i),
                    None => None::<int>,
                }),
            decreases n - i,
        {
            proof {
                assert(self.loaded_classes@.skip(i as int)[0] == self.loaded_classes@[i as int]);
                assert(self.loaded_classes@.skip(i as int).skip(1) =~= self.loaded_classes@.skip(
                    i + 1,
                ));
            }
            if crate::strutil::str_eq(self.loaded_classes[i].java_type.as_str(), name) {
                return Some(i);
            }
            i = i + 1;
        }
        proof {
            assert(self.loaded_classes@.skip(n as int) =~= Seq::<JavaClass>::empty());
        }
        None
    }

    /// The object behind handle `id`, if that handle names an object.
    pub fn get_object(&self, id: usize) -> (r: Option<&JavaObject>)
        ensures
            r matches Some(o) ==> id < self.entries@.len() && self.entries@[id as int]
                == HeapEntry::ObjectEntry(*o),
            r is None ==> id >= self.entries@.len() || !(self.entries@[id as int] is ObjectEntry),
    {
        if id < self.entries.len() {
            match &self.entries[id] {
                HeapEntry::ObjectEntry(o) => Some(o),
                _ => None,
            }
        } else {
            None
        }
    }

    /// The array behind handle `id`, if that handle names an array.
    pub fn get_array(&self, id: usize) -> (r: Option<&JavaArray>)
        ensures
            r matches Some(a) ==> id < self.entries@.len() && self.entries@[id as int]
                == HeapEntry::ArrayEntry(*a),
            r is None ==> id >= self.entries@.len() || !(self.entries@[id as int] is ArrayEntry),
    {
        if id < self.entries.len() {
            match &self.entries[id] {
                HeapEntry::ArrayEntry(a) => Some(a),
                _ => None,
            }
        } else {
            None
        }
    }

    /// Stores an object in the arena and returns its fresh handle.
    pub fn store_instance(&mut self, instance: JavaObject) -> (id: usize)
        ensures
            id == old(self).entries@.len(),
            final(self).entries@ == old(self).entries@.push(HeapEntry::ObjectEntry(instance)),
            final(self).loaded_classes == old(self).loaded_classes,
            final(self).interned_strings == old(self).interned_strings,
            final(self).main_thread_object == old(self).main_thread_object,
    {
        let id = self.entries.len();
        self.entries.push(HeapEntry::ObjectEntry(instance));
        id
    }

    /// Stores an array in the arena and returns its fresh handle.
    pub fn store_array(&mut self, array: JavaArray) -> (id: usize)
        ensures
            id == old(self).entries@.len(),
            final(self).entries@ == old(self).entries@.push(HeapEntry::ArrayEntry(array)),
            final(self).loaded_classes == old(self).loaded_classes,
            final(self).interned_strings == old(self).interned_strings,
            final(self).main_thread_object == old(self).main_thread_object,
    {
        let id = self.entries.len();
        self.entries.push(HeapEntry::ArrayEntry(array));
        id
    }
}

} // verus!

verus! {

/// Finds an interned string by contents.
pub fn intern_find(list: &Vec<(String, usize)>, s: &str) -> (r: Option<usize>)
    ensures
        r == assoc_find(list@, s@),
{
    let n = list.len();
    let mut i: usize = 0;
    proof {
        assert(list@.skip(0) =~= list@);
    }
    while i < n
        invariant
            i <= n,
            n == list@.len(),
            assoc_find(list@, s@) == assoc_find(list@.skip(i as int), s@),
        decreases n - i,
    {
        proof {
            assert(list@.skip(i as int)[0] == list@[i as int]);
            assert(list@.skip(i as int).skip(1) =~= list@.skip(i + 1));
        }
        if crate::strutil::str_eq(list[i].0.as_str(), s) {
            return Some(list[i].1);
        }
        i = i + 1;
    }
    proof {
        assert(list@.skip(n as int) =~= Seq::<(String, usize)>::empty());
    }
    None
}

/// Appending a class with a fresh name makes it findable at the old length.
pub proof fn lemma_find_class_push(classes: Seq<JavaClass>, c: JavaClass)
    requires
        Heap::spec_find_class(classes, c.java_type@) is None,
    ensures
        Heap::spec_find_class(classes.push(c), c.java_type@) == Some(classes.len() as int),
        forall|m: Seq<char>|
            m != c.java_type@ ==> #[trigger] Heap::spec_find_class(classes.push(c), m)
                == Heap::spec_find_class(classes, m),
    decreases classes.len(),
{
    if classes.len() == 0 {
        assert forall|m: Seq<char>| m != c.java_type@ implies #[trigger] Heap::spec_find_class(
            classes.push(c),
            m,
        ) == Heap::spec_find_class(classes, m) by {
            assert(classes.push(c).skip(1) =~= classes);
        }
        assert(classes.push(c).skip(1) =~= classes);
    } else {
        lemma_find_class_push(classes.skip(1), c);
        assert(classes.push(c).skip(1) =~= classes.skip(1).push(c));
        assert forall|m: Seq<char>| m != c.java_type@ implies #[trigger] Heap::spec_find_class(
            classes.push(c),
            m,
        ) == Heap::spec_find_class(classes, m) by {
            assert(Heap::spec_find_class(classes.skip(1).push(c), m) == Heap::spec_find_class(
                classes.skip(1),
                m,
            ));
        }
    }
}

/// A found class index really bears the name.
pub proof fn lemma_find_class_matches(classes: Seq<JavaClass>, name: Seq<char>)
    ensures
        Heap::spec_find_class(classes, name) matches Some(i) ==> 0 <= i < classes.len()
            && classes[i].java_type@ == name,
    decreases classes.len(),
{
    if classes.len() > 0 && classes[0].java_type@ != name {
        lemma_find_class_matches(classes.skip(1), name);
    }
}

/// Field tables that agree name-for-name and value-for-value.
pub open spec fn fields_equiv(a: Seq<(String, JavaValue)>, b: Seq<(String, JavaValue)>) -> bool {
    &&& a.len() == b.len()
    &&& forall|i: int|
        0 <= i < a.len() ==> (#[trigger] a[i]).0@ == b[i].0@ && a[i].1 == b[i].1
}

/// Equivalent field tables answer every lookup the same way.
pub proof fn lemma_fields_equiv_find(
    a: Seq<(String, JavaValue)>,
    b: Seq<(String, JavaValue)>,
    name: Seq<char>,
)
    requires
        fields_equiv(a, b),
    ensures
        spec_field_find(a, name) == spec_field_find(b, name),
    decreases a.len(),
{
    if a.len() > 0 {
        assert(fields_equiv(a.skip(1), b.skip(1)));
        lemma_fields_equiv_find(a.skip(1), b.skip(1), name);
    }
}

/// Copies a field table; the copy is name-for-name equivalent.
pub fn clone_fields(src: &Vec<(String, JavaValue)>) -> (r: Vec<(String, JavaValue)>)
    ensures
        fields_equiv(r@, src@),
{
    let n = src.len();
    let mut out: Vec<(String, JavaValue)> = Vec::with_capacity(n);
    let mut i: usize = 0;
    while i < n
        invariant
            i <= n,
            n == src@.len(),
            out@.len() == i,
            forall|j: int| 0 <= j < i ==> (#[trigger] out@[j]).0@ == src@[j].0@ && out@[j].1 == src@[j].1,
        decreases n - i,
    {
        let key = src[i].0.clone();
        let val = src[i].1;
        out.push((key, val));
        i = i + 1;
    }
    out
}

} // verus!
