//! Unit tests for the class-file decoder, the constant-pool accessors, the
//! method-descriptor parser, and JAR intake.

use std::io::Write;

use webjvm::classpath::Classpath;
use webjvm::descriptor::MethodDescriptor;
use webjvm::parser::{parse_class_bytes, ClassParseError};
use webjvm::util::{get_constant_string, try_get_constant_string};

/// A minimal class file: `Alpha` extending `Beta` with one static field.
fn sample_class() -> Vec<u8> {
    let mut pool: Vec<u8> = Vec::new();
    let mut count: u16 = 1;
    let utf8 = |pool: &mut Vec<u8>, count: &mut u16, s: &str| -> u16 {
        let i = *count;
        pool.push(1);
        pool.extend_from_slice(&(s.len() as u16).to_be_bytes());
        pool.extend_from_slice(s.as_bytes());
        *count += 1;
        i
    };
    let alpha = utf8(&mut pool, &mut count, "Alpha");
    let beta = utf8(&mut pool, &mut count, "Beta");
    let fname = utf8(&mut pool, &mut count, "counter");
    let fdesc = utf8(&mut pool, &mut count, "I");
    // two Class entries
    let alpha_cls = count;
    pool.push(7);
    pool.extend_from_slice(&alpha.to_be_bytes());
    count += 1;
    let beta_cls = count;
    pool.push(7);
    pool.extend_from_slice(&beta.to_be_bytes());
    count += 1;

    let mut out: Vec<u8> = Vec::new();
    out.extend_from_slice(&0xCAFEBABEu32.to_be_bytes());
    out.extend_from_slice(&3u16.to_be_bytes()); // minor
    out.extend_from_slice(&52u16.to_be_bytes()); // major
    out.extend_from_slice(&count.to_be_bytes());
    out.extend_from_slice(&pool);
    out.extend_from_slice(&0x0021u16.to_be_bytes());
    out.extend_from_slice(&alpha_cls.to_be_bytes());
    out.extend_from_slice(&beta_cls.to_be_bytes());
    out.extend_from_slice(&0u16.to_be_bytes()); // interfaces
    out.extend_from_slice(&1u16.to_be_bytes()); // one field
    out.extend_from_slice(&0x0008u16.to_be_bytes()); // static
    out.extend_from_slice(&fname.to_be_bytes());
    out.extend_from_slice(&fdesc.to_be_bytes());
    out.extend_from_slice(&0u16.to_be_bytes()); // field attributes
    out.extend_from_slice(&0u16.to_be_bytes()); // methods
    out.extend_from_slice(&0u16.to_be_bytes()); // class attributes
    out
}

#[test]
fn parses_header_pool_and_tables() {
    let bytes = sample_class();
    let cf = parse_class_bytes(&bytes).unwrap();
    assert_eq!(cf.minor_version, 3);
    assert_eq!(cf.major_version, 52);
    assert_eq!(get_constant_string(&cf.const_pool, cf.this_class), "Alpha");
    assert_eq!(get_constant_string(&cf.const_pool, cf.super_class), "Beta");
    assert_eq!(cf.fields.len(), 1);
    assert_eq!(cf.methods.len(), 0);
    assert_eq!(
        get_constant_string(&cf.const_pool, cf.fields[0].name_index),
        "counter"
    );
}

#[test]
fn rejects_bad_magic_and_truncation() {
    assert!(matches!(
        parse_class_bytes(&[0, 1, 2, 3, 0, 0, 0, 0]),
        Err(ClassParseError::BadMagic)
    ));
    let bytes = sample_class();
    assert!(matches!(
        parse_class_bytes(&bytes[..bytes.len() - 3]),
        Err(ClassParseError::Truncated)
    ));
    assert!(matches!(parse_class_bytes(&[]), Err(ClassParseError::Truncated)));
}

#[test]
fn pool_lookup_failures_are_none() {
    let bytes = sample_class();
    let cf = parse_class_bytes(&bytes).unwrap();
    assert!(try_get_constant_string(&cf.const_pool, 0).is_none());
    assert!(try_get_constant_string(&cf.const_pool, 999).is_none());
}

#[test]
fn descriptor_parses_arguments_and_return() {
    let d = MethodDescriptor::new("(Ljava/lang/String;I[JD)V").unwrap();
    assert_eq!(d.argument_types, vec!["Ljava/lang/String;", "I", "[J", "D"]);
    assert_eq!(d.return_type, "V");
    assert_eq!(d.arg_slots().unwrap(), 5); // D counts twice, [J once
}

#[test]
fn descriptor_accepts_full_signature_and_rejects_malformed() {
    let d = MethodDescriptor::new("main([Ljava/lang/String;)V").unwrap();
    assert_eq!(d.argument_types, vec!["[Ljava/lang/String;"]);
    assert_eq!(d.return_type, "V");
    assert!(MethodDescriptor::new("no-parenthesis").is_err());
    assert!(MethodDescriptor::new("(Q)V").is_err());
    assert!(MethodDescriptor::new("(I").is_err());
    assert!(MethodDescriptor::new("()").is_err());
}

#[test]
fn classpath_finds_entries_by_declared_name() {
    let mut cp = Classpath::new();
    cp.add_classpath_entry(&sample_class()).unwrap();
    assert!(cp.get_classpath_entry("Alpha").is_some());
    assert!(cp.get_classpath_entry("Beta").is_none());
}

#[test]
fn jar_intake_collects_class_entries() {
    let mut buf: Vec<u8> = Vec::new();
    {
        let mut w = zip::ZipWriter::new(std::io::Cursor::new(&mut buf));
        let opts: zip::write::SimpleFileOptions = Default::default();
        w.start_file("Alpha.class", opts).unwrap();
        w.write_all(&sample_class()).unwrap();
        w.start_file("readme.txt", opts).unwrap();
        w.write_all(b"not a class").unwrap();
        w.finish().unwrap();
    }
    let mut cp = Classpath::new();
    cp.add_classpath_jar(&buf).unwrap();
    assert_eq!(cp.class_files.len(), 1);
    assert!(cp.get_classpath_entry("Alpha").is_some());
    assert!(cp.add_classpath_jar(b"not a zip archive").is_err());
}
