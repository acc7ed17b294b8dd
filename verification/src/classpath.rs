//! The classpath: a name-addressable store of parsed class files, with
//! method lookup for the static, special and virtual invocation modes, and
//! JAR intake.

use vstd::prelude::*;

use crate::classfile::{spec_flag_set, ClassFile, FieldInfo, MethodInfo, METHOD_ACC_STATIC};
use crate::parser::{parse_class_bytes, ClassParseError};
use crate::strutil::{str_ends_with, str_eq};
use crate::util::{constant_string_resolves, spec_constant_string, try_get_constant_string};

verus! {

/// How a call site selects its target method.
#[derive(Debug, Clone, Copy, PartialEq, Eq, Structural)]
pub enum InvokeType {
    Virtual,
    Static,
    Special,
}

#[derive(Debug, Clone, Copy, PartialEq, Eq, Structural)]
pub enum ClasspathError {
    /// The JAR bytes are not a readable archive.
    InvalidArchive,
    /// A `.class` entry did not decode.
    ClassFile(ClassParseError),
}

/// The name a class file declares for itself (the string behind its
/// `this_class` pool entry).
pub open spec fn spec_classfile_name(cf: ClassFile) -> Seq<char> {
    spec_constant_string(cf.const_pool@, cf.this_class)
}

pub open spec fn classfile_name_resolves(cf: ClassFile) -> bool {
    constant_string_resolves(cf.const_pool@, cf.this_class)
}

/// The first class file in `files` that declares the name `name`.
pub open spec fn spec_find_entry(files: Seq<ClassFile>, name: Seq<char>) -> Option<int>
    decreases files.len(),
{
    if files.len() == 0 {
        None
    } else if classfile_name_resolves(files[0]) && spec_classfile_name(files[0]) == name {
        Some(0)
    } else {
        match spec_find_entry(files.skip(1), name) {
            Some(i) => Some(i + 1),
            None => None,
        }
    }
}

/// True when method `m` of class file `cf` has the requested name and
/// descriptor, and the requested staticness.
pub open spec fn method_matches(
    cf: ClassFile,
    m: MethodInfo,
    name: Seq<char>,
    descriptor: Seq<char>,
    want_static: bool,
) -> bool {
    &&& spec_flag_set(m.access_flags, METHOD_ACC_STATIC) == want_static
    &&& constant_string_resolves(cf.const_pool@, m.name_index)
    &&& spec_constant_string(cf.const_pool@, m.name_index) == name
    &&& constant_string_resolves(cf.const_pool@, m.descriptor_index)
    &&& spec_constant_string(cf.const_pool@, m.descriptor_index) == descriptor
}

/// The first method of `cf` that matches.
pub open spec fn spec_find_method(
    methods: Seq<MethodInfo>,
    cf: ClassFile,
    name: Seq<char>,
    descriptor: Seq<char>,
    want_static: bool,
) -> Option<int>
    decreases methods.len(),
{
    if methods.len() == 0 {
        None
    } else if method_matches(cf, methods[0], name, descriptor, want_static) {
        Some(0)
    } else {
        match spec_find_method(methods.skip(1), cf, name, descriptor, want_static) {
            Some(i) => Some(i + 1),
            None => None,
        }
    }
}

/// True when field `f` of class file `cf` has the requested name and
/// descriptor.
pub open spec fn field_matches(
    cf: ClassFile,
    f: FieldInfo,
    name: Seq<char>,
    descriptor: Seq<char>,
) -> bool {
    &&& constant_string_resolves(cf.const_pool@, f.name_index)
    &&& spec_constant_string(cf.const_pool@, f.name_index) == name
    &&& constant_string_resolves(cf.const_pool@, f.descriptor_index)
    &&& spec_constant_string(cf.const_pool@, f.descriptor_index) == descriptor
}

pub open spec fn spec_find_field(
    fields: Seq<FieldInfo>,
    cf: ClassFile,
    name: Seq<char>,
    descriptor: Seq<char>,
) -> Option<int>
    decreases fields.len(),
{
    if fields.len() == 0 {
        None
    } else if field_matches(cf, fields[0], name, descriptor) {
        Some(0)
    } else {
        match spec_find_field(fields.skip(1), cf, name, descriptor) {
            Some(i) => Some(i + 1),
            None => None,
        }
    }
}

/// Method resolution: the first match on the walk from `cls` up its
/// superclass chain (`declared -> super -> ...`), restricted to static or to
/// instance methods by `want_static`. `fuel` bounds the walk so that a
/// malformed, cyclic superclass chain resolves to `None`.
pub open spec fn spec_resolve(
    files: Seq<ClassFile>,
    cls: ClassFile,
    name: Seq<char>,
    descriptor: Seq<char>,
    want_static: bool,
    fuel: nat,
) -> Option<(ClassFile, int)>
    decreases fuel,
{
    match spec_find_method(cls.methods@, cls, name, descriptor, want_static) {
        Some(i) => Some((cls, i)),
        None => {
            if fuel == 0 || cls.super_class == 0 || !constant_string_resolves(
                cls.const_pool@,
                cls.super_class,
            ) {
                None
            } else {
                match spec_find_entry(files, spec_constant_string(cls.const_pool@, cls.super_class)) {
                    Some(j) => spec_resolve(
                        files,
                        files[j],
                        name,
                        descriptor,
                        want_static,
                        (fuel - 1) as nat,
                    ),
                    None => None,
                }
            }
        },
    }
}

/// A resolved method really matches the request.
pub proof fn lemma_resolve_matches(
    files: Seq<ClassFile>,
    cls: ClassFile,
    name: Seq<char>,
    descriptor: Seq<char>,
    want_static: bool,
    fuel: nat,
)
    ensures
        spec_resolve(files, cls, name, descriptor, want_static, fuel) matches Some(p) ==> 0 <= p.1
            < p.0.methods@.len() && method_matches(
            p.0,
            p.0.methods@[p.1],
            name,
            descriptor,
            want_static,
        ),
    decreases fuel,
{
    match spec_find_method(cls.methods@, cls, name, descriptor, want_static) {
        Some(i) => {
            lemma_find_method_matches(cls.methods@, cls, name, descriptor, want_static);
        },
        None => {
            if !(fuel == 0 || cls.super_class == 0 || !constant_string_resolves(
                cls.const_pool@,
                cls.super_class,
            )) {
                match spec_find_entry(files, spec_constant_string(cls.const_pool@, cls.super_class)) {
                    Some(j) => {
                        lemma_resolve_matches(
                            files,
                            files[j],
                            name,
                            descriptor,
                            want_static,
                            (fuel - 1) as nat,
                        );
                    },
                    None => {},
                }
            }
        },
    }
}

/// The entries of a JAR archive as (name, contents) pairs, in archive
/// order. Decompression is delegated to the zip crate; this names its
/// result, which depends only on the archive bytes.
pub uninterp spec fn jar_entries(bytes: Seq<u8>) -> Option<Seq<(Seq<char>, Seq<u8>)>>;

pub open spec fn entries_view(es: Seq<(String, Vec<u8>)>) -> Seq<(Seq<char>, Seq<u8>)> {
    es.map_values(|e: (String, Vec<u8>)| (e.0@, e.1@))
}

/// True for archive entries that hold a compiled class.
pub open spec fn is_class_entry(name: Seq<char>) -> bool {
    name.len() >= ".class"@.len() && name.skip(name.len() - ".class"@.len()) == ".class"@
}

/// How many entries hold a compiled class.
pub open spec fn spec_count_class_entries(es: Seq<(Seq<char>, Seq<u8>)>) -> int
    decreases es.len(),
{
    if es.len() == 0 {
        0
    } else {
        (if is_class_entry(es[0].0) {
            1int
        } else {
            0int
        }) + spec_count_class_entries(es.skip(1))
    }
}

/// Relies on zip's ZipArchive::new, ZipArchive::len, ZipArchive::by_index,
/// ZipFile::name and std::io::Read::read_to_end: reads the archive's central
/// directory and extracts every entry as a (name, contents) pair, in archive
/// order; fails when the bytes are not a readable archive or an entry does
/// not decompress.
#[verifier::external_body]
fn extract_jar_entries(jar_bytes: &[u8]) -> (r: Option<Vec<(String, Vec<u8>)>>)
    ensures
        r matches Some(es) ==> jar_entries(jar_bytes@) == Some(entries_view(es@)),
        r is None ==> jar_entries(jar_bytes@) is None,
{
    let cursor = std::io::Cursor::new(jar_bytes);
    let mut zip = zip::ZipArchive::new(cursor).ok()?;
    let mut out: Vec<(String, Vec<u8>)> = Vec::new();
    for i in 0..zip.len() {
        let mut file = zip.by_index(i).ok()?;
        let name = file.name().to_owned();
        let mut bytes: Vec<u8> = Vec::new();
        std::io::Read::read_to_end(&mut file, &mut bytes).ok()?;
        out.push((name, bytes));
    }
    Some(out)
}

/// The store of parsed class files.
#[derive(Debug)]
pub struct Classpath {
    pub class_files: Vec<ClassFile>,
}

impl Classpath {
    pub fn new() -> (r: Classpath)
        ensures
            r.class_files@ == Seq::<ClassFile>::empty(),
    {
        Classpath { class_files: Vec::new() }
    }

    /// Parses one class file and appends it to the store.
    pub fn add_classpath_entry(&mut self, class_bytes: &[u8]) -> (r: Result<(), ClassParseError>)
        ensures
            r matches Ok(()) ==> final(self).class_files@.len() == old(self).class_files@.len() + 1
                && final(self).class_files@.take(old(self).class_files@.len() as int) == old(
                self,
            ).class_files@,
            // the appended element is the decoding of exactly these bytes
            r matches Ok(()) ==> ({
                let cf = final(self).class_files@.last();
                &&& class_bytes@.len() >= 10
                &&& crate::parser::be_u32(class_bytes@, 0) == 0xCAFEBABE
                &&& cf.minor_version == crate::parser::be_u16(class_bytes@, 4)
                &&& cf.major_version == crate::parser::be_u16(class_bytes@, 6)
                &&& (crate::parser::be_u16(class_bytes@, 8) == 0 || cf.const_pool@.len()
                    == crate::parser::be_u16(class_bytes@, 8) - 1)
                &&& crate::parser::pool_decoded(class_bytes@, cf.const_pool@)
            }),
            r matches Err(e) ==> *final(self) == *old(self),
    {
        match parse_class_bytes(class_bytes) {
            Ok(cf) => {
                let ghost before = self.class_files@;
                self.class_files.push(cf);
                proof {
                    assert(self.class_files@.take(before.len() as int) =~= before);
                }
                Ok(())
            },
            Err(e) => Err(e),
        }
    }

    /// Adds every `.class` entry of `entries` (a JAR's contents) to the
    /// store, in order; other entries are ignored. On success exactly the
    /// class entries were added.
    pub fn add_entries(&mut self, entries: &Vec<(String, Vec<u8>)>) -> (r: Result<
        (),
        ClassParseError,
    >)
        ensures
            r matches Ok(()) ==> final(self).class_files@.len() == old(self).class_files@.len()
                + spec_count_class_entries(entries_view(entries@)),
    {
        let n = entries.len();
        let mut i: usize = 0;
        let ghost base = self.class_files@.len() as int;
        proof {
            assert(entries_view(entries@).skip(0) =~= entries_view(entries@));
            lemma_count_class_entries_nonneg(entries_view(entries@));
        }
        while i < n
            invariant
                i <= n,
                n == entries@.len(),
                self.class_files@.len() as int == base + spec_count_class_entries(
                    entries_view(entries@),
                ) - spec_count_class_entries(entries_view(entries@).skip(i as int)),
                spec_count_class_entries(entries_view(entries@).skip(i as int)) >= 0,
            decreases n - i,
        {
            proof {
                assert(entries_view(entries@).skip(i as int)[0] == entries_view(entries@)[
                    i as int]);
                assert(entries_view(entries@).skip(i as int).skip(1) =~= entries_view(
                    entries@,
                ).skip(i + 1));
                lemma_count_class_entries_nonneg(entries_view(entries@).skip(i + 1));
            }
            if str_ends_with(entries[i].0.as_str(), ".class") {
                match self.add_classpath_entry(entries[i].1.as_slice()) {
                    Ok(()) => {},
                    Err(e) => {
                        return Err(e);
                    },
                }
            }
            i = i + 1;
        }
        proof {
            assert(entries_view(entries@).skip(n as int) =~= Seq::<(Seq<char>, Seq<u8>)>::empty());
        }
        Ok(())
    }

    /// Unpacks a JAR archive and adds every `.class` entry to the store.
    pub fn add_classpath_jar(&mut self, jar_bytes: &[u8]) -> (r: Result<(), ClasspathError>)
        ensures
            r matches Ok(()) ==> (jar_entries(jar_bytes@) matches Some(es) && final(self).class_files@.len() == old(self).class_files@.len() + spec_count_class_entries(es)),
            // unreadable bytes are rejected as an invalid archive, exactly
            jar_entries(jar_bytes@) is None <==> r == Err::<(), ClasspathError>(
                ClasspathError::InvalidArchive,
            ),
            // a class-file failure can only come from a readable archive
            r matches Err(e) ==> (e is ClassFile ==> jar_entries(jar_bytes@) is Some),
    {
        match extract_jar_entries(jar_bytes) {
            Some(entries) => match self.add_entries(&entries) {
                Ok(()) => Ok(()),
                Err(e) => Err(ClasspathError::ClassFile(e)),
            },
            None => Err(ClasspathError::InvalidArchive),
        }
    }

    /// Looks up the class file that declares `name`.
    pub fn get_classpath_entry(&self, name: &str) -> (r: Option<&ClassFile>)
        ensures
            r matches Some(cf) ==> (spec_find_entry(self.class_files@, name@) matches Some(i)
                && *cf == self.class_files@[i]),
            r is None ==> spec_find_entry(self.class_files@, name@) is None,
    {
        let n = self.class_files.len();
        let mut i: usize = 0;
        proof {
            assert(self.class_files@.skip(0) =~= self.class_files@);
        }
        while i < n
            invariant
                i <= n,
                n == self.class_files@.len(),
                spec_find_entry(self.class_files@, name@) == (match spec_find_entry(
                    self.class_files@.skip(i as int),
                    name@,
                ) {
                    Some(k) => Some(k + i),
                    None => None::<int>,
                }),
            decreases n - i,
        {
            proof {
                assert(self.class_files@.skip(i as int)[0] == self.class_files@[i as int]);
                assert(self.class_files@.skip(i as int).skip(1) =~= self.class_files@.skip(i + 1));
            }
            let cf = &self.class_files[i];
            match try_get_constant_string(&cf.const_pool, cf.this_class) {
                Some(cf_name) => {
                    if str_eq(cf_name.as_str(), name) {
                        return Some(cf);
                    }
                },
                None => {},
            }
            i = i + 1;
        }
        proof {
            assert(self.class_files@.skip(n as int) =~= Seq::<ClassFile>::empty());
        }
        None
    }

    /// Looks up a field of `declaring_class` by name and descriptor.
    pub fn get_field<'a>(
        &self,
        declaring_class: &'a ClassFile,
        field_name: &str,
        field_descriptor: &str,
    ) -> (r: Option<&'a FieldInfo>)
        ensures
            r matches Some(f) ==> (spec_find_field(
                declaring_class.fields@,
                *declaring_class,
                field_name@,
                field_descriptor@,
            ) matches Some(i) && *f == declaring_class.fields@[i]),
            r is None ==> spec_find_field(
                declaring_class.fields@,
                *declaring_class,
                field_name@,
                field_descriptor@,
            ) is None,
    {
        let n = declaring_class.fields.len();
        let mut i: usize = 0;
        proof {
            assert(declaring_class.fields@.skip(0) =~= declaring_class.fields@);
        }
        while i < n
            invariant
                i <= n,
                n == declaring_class.fields@.len(),
                spec_find_field(
                    declaring_class.fields@,
                    *declaring_class,
                    field_name@,
                    field_descriptor@,
                ) == (match spec_find_field(
                    declaring_class.fields@.skip(i as int),
                    *declaring_class,
                    field_name@,
                    field_descriptor@,
                ) {
                    Some(k) => Some(k + i),
                    None => None::<int>,
                }),
            decreases n - i,
        {
            proof {
                assert(declaring_class.fields@.skip(i as int)[0] == declaring_class.fields@[
                    i as int]);
                assert(declaring_class.fields@.skip(i as int).skip(1) =~= declaring_class.fields@
                    .skip(i + 1));
            }
            let f = &declaring_class.fields[i];
            if Self::member_name_matches(
                declaring_class,
                f.name_index,
                f.descriptor_index,
                field_name,
                field_descriptor,
            ) {
                return Some(f);
            }
            i = i + 1;
        }
        proof {
            assert(declaring_class.fields@.skip(n as int) =~= Seq::<FieldInfo>::empty());
        }
        None
    }

    /// True when the pool strings behind `name_index` and `descriptor_index`
    /// match the requested name and descriptor.
    fn member_name_matches(
        cf: &ClassFile,
        name_index: u16,
        descriptor_index: u16,
        name: &str,
        descriptor: &str,
    ) -> (r: bool)
        ensures
            r == (constant_string_resolves(cf.const_pool@, name_index) && spec_constant_string(
                cf.const_pool@,
                name_index,
            ) == name@ && constant_string_resolves(cf.const_pool@, descriptor_index)
                && spec_constant_string(cf.const_pool@, descriptor_index) == descriptor@),
    {
        match try_get_constant_string(&cf.const_pool, name_index) {
            Some(n) => {
                if !str_eq(n.as_str(), name) {
                    return false;
                }
            },
            None => {
                return false;
            },
        }
        match try_get_constant_string(&cf.const_pool, descriptor_index) {
            Some(d) => str_eq(d.as_str(), descriptor),
            None => false,
        }
    }

    /// Scans one class file's own method table for a match (no superclass
    /// walk; static initializers are looked up this way).
    pub(crate) fn find_method_in<'a>(
        declaring_class: &'a ClassFile,
        method_name: &str,
        method_descriptor: &str,
        want_static: bool,
    ) -> (r: Option<&'a MethodInfo>)
        ensures
            r matches Some(m) ==> (spec_find_method(
                declaring_class.methods@,
                *declaring_class,
                method_name@,
                method_descriptor@,
                want_static,
            ) matches Some(i) && *m == declaring_class.methods@[i]),
            r is None ==> spec_find_method(
                declaring_class.methods@,
                *declaring_class,
                method_name@,
                method_descriptor@,
                want_static,
            ) is None,
    {
        let n = declaring_class.methods.len();
        let mut i: usize = 0;
        proof {
            assert(declaring_class.methods@.skip(0) =~= declaring_class.methods@);
        }
        while i < n
            invariant
                i <= n,
                n == declaring_class.methods@.len(),
                spec_find_method(
                    declaring_class.methods@,
                    *declaring_class,
                    method_name@,
                    method_descriptor@,
                    want_static,
                ) == (match spec_find_method(
                    declaring_class.methods@.skip(i as int),
                    *declaring_class,
                    method_name@,
                    method_descriptor@,
                    want_static,
                ) {
                    Some(k) => Some(k + i),
                    None => None::<int>,
                }),
            decreases n - i,
        {
            proof {
                assert(declaring_class.methods@.skip(i as int)[0] == declaring_class.methods@[
                    i as int]);
                assert(declaring_class.methods@.skip(i as int).skip(1) =~= declaring_class.methods@
                    .skip(i + 1));
            }
            let m = &declaring_class.methods[i];
            if crate::classfile::flag_set(m.access_flags, METHOD_ACC_STATIC) == want_static
                && Self::member_name_matches(
                declaring_class,
                m.name_index,
                m.descriptor_index,
                method_name,
                method_descriptor,
            ) {
                return Some(m);
            }
            i = i + 1;
        }
        proof {
            assert(declaring_class.methods@.skip(n as int) =~= Seq::<MethodInfo>::empty());
        }
        None
    }

    /// Resolution under `want_static`: walks from `declaring_class` up the
    /// superclass chain and returns the nearest declaring class and method.
    fn resolve_method<'a>(
        &'a self,
        declaring_class: &'a ClassFile,
        method_name: &str,
        method_descriptor: &str,
        want_static: bool,
    ) -> (r: Option<(&'a ClassFile, &'a MethodInfo)>)
        ensures
            r matches Some((c, m)) ==> (spec_resolve(
                self.class_files@,
                *declaring_class,
                method_name@,
                method_descriptor@,
                want_static,
                self.class_files@.len() as nat,
            ) matches Some(p) && p.0 == *c && 0 <= p.1 < c.methods@.len() && *m == c.methods@[p.1]),
            r is None ==> spec_resolve(
                self.class_files@,
                *declaring_class,
                method_name@,
                method_descriptor@,
                want_static,
                self.class_files@.len() as nat,
            ) is None,
    {
        let fuel = self.class_files.len();
        self.resolve_method_rec(declaring_class, method_name, method_descriptor, want_static, fuel)
    }

    fn resolve_method_rec<'a>(
        &'a self,
        declaring_class: &'a ClassFile,
        method_name: &str,
        method_descriptor: &str,
        want_static: bool,
        fuel: usize,
    ) -> (r: Option<(&'a ClassFile, &'a MethodInfo)>)
        ensures
            r matches Some((c, m)) ==> (spec_resolve(
                self.class_files@,
                *declaring_class,
                method_name@,
                method_descriptor@,
                want_static,
                fuel as nat,
            ) matches Some(p) && p.0 == *c && 0 <= p.1 < c.methods@.len() && *m == c.methods@[p.1]),
            r is None ==> spec_resolve(
                self.class_files@,
                *declaring_class,
                method_name@,
                method_descriptor@,
                want_static,
                fuel as nat,
            ) is None,
        decreases fuel,
    {
        match Self::find_method_in(declaring_class, method_name, method_descriptor, want_static) {
            Some(m) => {
                proof {
                    lemma_find_method_matches(
                        declaring_class.methods@,
                        *declaring_class,
                        method_name@,
                        method_descriptor@,
                        want_static,
                    );
                }
                Some((declaring_class, m))
            },
            None => {
                if fuel == 0 || declaring_class.super_class == 0 {
                    return None;
                }
                let superclass_name = match try_get_constant_string(
                    &declaring_class.const_pool,
                    declaring_class.super_class,
                ) {
                    Some(s) => s,
                    None => {
                        return None;
                    },
                };
                match self.get_classpath_entry(superclass_name.as_str()) {
                    Some(superclass) => self.resolve_method_rec(
                        superclass,
                        method_name,
                        method_descriptor,
                        want_static,
                        fuel - 1,
                    ),
                    None => None,
                }
            },
        }
    }

    /// STATIC resolution: the nearest static method on the walk from
    /// `declaring_class` up its superclass chain.
    pub fn get_static_method<'a>(
        &'a self,
        declaring_class: &'a ClassFile,
        method_name: &str,
        method_descriptor: &str,
    ) -> (r: Option<(&'a ClassFile, &'a MethodInfo)>)
        ensures
            r matches Some((c, m)) ==> (spec_resolve(
                self.class_files@,
                *declaring_class,
                method_name@,
                method_descriptor@,
                true,
                self.class_files@.len() as nat,
            ) matches Some(p) && p.0 == *c && 0 <= p.1 < c.methods@.len() && *m == c.methods@[p.1]),
            r is None ==> spec_resolve(
                self.class_files@,
                *declaring_class,
                method_name@,
                method_descriptor@,
                true,
                self.class_files@.len() as nat,
            ) is None,
    {
        self.resolve_method(declaring_class, method_name, method_descriptor, true)
    }

    /// SPECIAL resolution: the nearest instance method on the walk from the
    /// call site's declared class up its superclass chain; the receiver's
    /// runtime class plays no part.
    pub fn get_special_method<'a>(
        &'a self,
        declaring_class: &'a ClassFile,
        method_name: &str,
        method_descriptor: &str,
    ) -> (r: Option<(&'a ClassFile, &'a MethodInfo)>)
        ensures
            r matches Some((c, m)) ==> (spec_resolve(
                self.class_files@,
                *declaring_class,
                method_name@,
                method_descriptor@,
                false,
                self.class_files@.len() as nat,
            ) matches Some(p) && p.0 == *c && 0 <= p.1 < c.methods@.len() && *m == c.methods@[p.1]),
            r is None ==> spec_resolve(
                self.class_files@,
                *declaring_class,
                method_name@,
                method_descriptor@,
                false,
                self.class_files@.len() as nat,
            ) is None,
    {
        self.resolve_method(declaring_class, method_name, method_descriptor, false)
    }

    /// VIRTUAL resolution: the nearest instance method on the walk from the
    /// receiver's runtime class (the caller passes that class) up its
    /// superclass chain.
    pub fn get_virtual_method<'a>(
        &'a self,
        declaring_class: &'a ClassFile,
        method_name: &str,
        method_descriptor: &str,
    ) -> (r: Option<(&'a ClassFile, &'a MethodInfo)>)
        ensures
            r matches Some((c, m)) ==> (spec_resolve(
                self.class_files@,
                *declaring_class,
                method_name@,
                method_descriptor@,
                false,
                self.class_files@.len() as nat,
            ) matches Some(p) && p.0 == *c && 0 <= p.1 < c.methods@.len() && *m == c.methods@[p.1]),
            r is None ==> spec_resolve(
                self.class_files@,
                *declaring_class,
                method_name@,
                method_descriptor@,
                false,
                self.class_files@.len() as nat,
            ) is None,
    {
        self.resolve_method(declaring_class, method_name, method_descriptor, false)
    }

    /// Resolution under the requested invocation mode: STATIC walks the
    /// chain over static methods; SPECIAL and VIRTUAL walk it over instance
    /// methods (they differ only in which class the caller starts from).
    pub fn get_method<'a>(
        &'a self,
        invoke_type: InvokeType,
        declaring_class: &'a ClassFile,
        method_name: &str,
        method_descriptor: &str,
    ) -> (r: Option<(&'a ClassFile, &'a MethodInfo)>)
        ensures
            ({
                let want_static = invoke_type == InvokeType::Static;
                &&& (r matches Some((c, m)) ==> (spec_resolve(
                    self.class_files@,
                    *declaring_class,
                    method_name@,
                    method_descriptor@,
                    want_static,
                    self.class_files@.len() as nat,
                ) matches Some(p) && p.0 == *c && 0 <= p.1 < c.methods@.len() && *m
                    == c.methods@[p.1]))
                &&& (r is None ==> spec_resolve(
                    self.class_files@,
                    *declaring_class,
                    method_name@,
                    method_descriptor@,
                    want_static,
                    self.class_files@.len() as nat,
                ) is None)
            }),
    {
        match invoke_type {
            InvokeType::Special => self.get_special_method(
                declaring_class,
                method_name,
                method_descriptor,
            ),
            InvokeType::Static => self.get_static_method(
                declaring_class,
                method_name,
                method_descriptor,
            ),
            InvokeType::Virtual => self.get_virtual_method(
                declaring_class,
                method_name,
                method_descriptor,
            ),
        }
    }

    /// The latest-added class file declaring a static
    /// `main([Ljava/lang/String;)V`, with that method.
    pub fn get_main_method(&self) -> (r: Option<(&ClassFile, &MethodInfo)>)
        ensures
            r matches Some((c, m)) ==> exists|k: int|
                0 <= k < c.methods@.len() && *m == #[trigger] c.methods@[k] && method_matches(
                    *c,
                    *m,
                    "main"@,
                    "([Ljava/lang/String;)V"@,
                    true,
                ),
            // exactly the latest-added entry from which main resolves wins
            r is Some <==> spec_find_main(self.class_files@, self.class_files@.len() as int)
                is Some,
            r matches Some((c, m)) ==> (spec_find_main(
                self.class_files@,
                self.class_files@.len() as int,
            ) matches Some(i) && (spec_resolve(
                self.class_files@,
                self.class_files@[i],
                "main"@,
                "([Ljava/lang/String;)V"@,
                true,
                self.class_files@.len() as nat,
            ) matches Some(p) && p.0 == *c && 0 <= p.1 < c.methods@.len() && *m == c.methods@[p.1])),
    {
        let n = self.class_files.len();
        let mut i: usize = n;
        while i > 0
            invariant
                i <= n,
                n == self.class_files@.len(),
                spec_find_main(self.class_files@, n as int) == spec_find_main(
                    self.class_files@,
                    i as int,
                ),
            decreases i,
        {
            i = i - 1;
            let cf = &self.class_files[i];
            match self.get_static_method(cf, "main", "([Ljava/lang/String;)V") {
                Some((c, m)) => {
                    proof {
                        lemma_resolve_matches(
                            self.class_files@,
                            *cf,
                            "main"@,
                            "([Ljava/lang/String;)V"@,
                            true,
                            self.class_files@.len() as nat,
                        );
                    }
                    return Some((c, m));
                },
                None => {},
            }
        }
        None
    }
}

/// The index of the latest-added class file (scanning down from `i`) from
/// which the static `main([Ljava/lang/String;)V` resolves.
pub open spec fn spec_find_main(files: Seq<ClassFile>, i: int) -> Option<int>
    decreases i,
{
    if i <= 0 {
        None
    } else if spec_resolve(
        files,
        files[i - 1],
        "main"@,
        "([Ljava/lang/String;)V"@,
        true,
        files.len() as nat,
    ) is Some {
        Some(i - 1)
    } else {
        spec_find_main(files, i - 1)
    }
}

/// A found method index really matches.
pub proof fn lemma_find_method_matches(
    methods: Seq<MethodInfo>,
    cf: ClassFile,
    name: Seq<char>,
    descriptor: Seq<char>,
    want_static: bool,
)
    ensures
        spec_find_method(methods, cf, name, descriptor, want_static) matches Some(i) ==> 0 <= i
            < methods.len() && method_matches(cf, methods[i], name, descriptor, want_static),
    decreases methods.len(),
{
    if methods.len() > 0 && !method_matches(cf, methods[0], name, descriptor, want_static) {
        lemma_find_method_matches(methods.skip(1), cf, name, descriptor, want_static);
    }
}

/// A found classpath entry really bears the name.
pub proof fn lemma_find_entry_matches(files: Seq<ClassFile>, name: Seq<char>)
    ensures
        spec_find_entry(files, name) matches Some(i) ==> 0 <= i < files.len()
            && classfile_name_resolves(files[i]) && spec_classfile_name(files[i]) == name,
    decreases files.len(),
{
    if files.len() > 0 && !(classfile_name_resolves(files[0]) && spec_classfile_name(files[0])
        == name) {
        lemma_find_entry_matches(files.skip(1), name);
    }
}

proof fn lemma_count_class_entries_nonneg(es: Seq<(Seq<char>, Seq<u8>)>)
    ensures
        spec_count_class_entries(es) >= 0,
    decreases es.len(),
{
    if es.len() > 0 {
        lemma_count_class_entries_nonneg(es.skip(1));
    }
}

} // verus!
