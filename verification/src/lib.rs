//! A verified core of a Java Virtual Machine: a bytecode interpreter that
//! loads compiled class files, manages an object heap, resolves methods
//! polymorphically, and executes the stack-based instruction set with
//! exception propagation and a native-method bridge for the embedder.
//!
//! Floating-point values travel through the machine as raw IEEE-754 bit
//! patterns; the arithmetic on them is delegated to a [`floatops::FloatOps`]
//! implementation supplied by the embedder.

pub mod classfile;
pub mod classpath;
pub mod descriptor;
pub mod floatops;
pub mod frame;
pub mod heap;
pub mod interp;
pub mod jvm;
pub mod parser;
pub mod strutil;
pub mod util;
pub mod value;
