//! Tests of the compiler front end: the once-only guard, flags, sources,
//! invocations, outputs, and the module wire format they share with the
//! runtime.

use eerie::compiler::{
    get_api_version, Compiler, CompilerError, InitGuard, MemBufferOutput, Pipeline,
};
use eerie::diagnostics::{Diagnostic, Diagnostics};
use eerie::module::{Export, FunctionSignature, Module, OP_ELEMENTWISE_MUL};
use eerie::source::Source;

fn mul_module_bytes() -> Vec<u8> {
    let module = Module {
        name: b"arithmetic".to_vec(),
        exports: vec![Export { name: b"simple_mul".to_vec(), op: OP_ELEMENTWISE_MUL }],
    };
    module.serialize()
}

#[test]
fn test_compiler() {
    let mut guard = InitGuard::new();
    let compiler = Compiler::new(&mut guard);
    assert!(compiler.is_ok());
    // A second initialization against the same process guard must fail,
    // and the first compiler stays usable.
    let second = Compiler::new(&mut guard);
    assert!(second.is_err());
    assert!(matches!(second, Err(CompilerError::AlreadyInitialized)));
    let compiler = compiler.unwrap();
    assert!(compiler.get_revision().is_ok());
    let _session = compiler.create_session();
}

#[test]
fn test_get_api_version() {
    let word: u32 = (1 << 16) | 4;
    let (major, minor) = get_api_version(word);
    assert!(major == 1);
    assert!(minor == 4);
}

#[test]
fn get_revision() {
    let mut guard = InitGuard::new();
    let compiler = Compiler::new(&mut guard).unwrap();
    let rev = compiler.get_revision().unwrap();
    assert_eq!(rev, "");
}

#[test]
fn setup_global_cl() {
    let mut guard = InitGuard::new();
    let mut compiler = Compiler::new(&mut guard).unwrap();
    compiler
        .setup_global_cl(vec!["--iree-example-flag=false".to_string()])
        .unwrap();
    // An argument with an embedded NUL cannot cross the C boundary.
    let r = compiler.setup_global_cl(vec!["bad\0flag".to_string()]);
    assert!(matches!(r, Err(CompilerError::NulError)));
}

#[test]
fn get_registered_hal_target_backends() {
    let mut guard = InitGuard::new();
    let compiler = Compiler::new(&mut guard).unwrap();
    let backends = compiler.get_registered_hal_target_backends();
    assert!(backends.is_empty());
}

#[test]
fn get_plugins() {
    let mut guard = InitGuard::new();
    let compiler = Compiler::new(&mut guard).unwrap();
    let plugins = compiler.get_plugins();
    assert!(plugins.is_empty());
}

#[test]
fn compiler_test_session() {
    let mut guard = InitGuard::new();
    let compiler = Compiler::new(&mut guard).unwrap();
    compiler.create_session();
}

#[test]
fn session_set_get_flags() {
    let mut guard = InitGuard::new();
    let compiler = Compiler::new(&mut guard).unwrap();
    let mut session = compiler.create_session();
    session.set_flags(vec!["--iree-input-type=tosa".to_string()]).unwrap();
    let flags = session.get_flags(true);
    assert_eq!(flags, vec!["--iree-input-type=tosa".to_string()]);
    // A flag with an embedded NUL fails and changes nothing.
    let r = session.set_flags(vec!["ok".to_string(), "bad\0".to_string()]);
    assert!(r.is_err());
    assert_eq!(session.get_flags(true).len(), 1);
}

#[test]
fn init_invocation() {
    let mut guard = InitGuard::new();
    let compiler = Compiler::new(&mut guard).unwrap();
    let session = compiler.create_session();
    session.create_invocation();
}

#[test]
fn source_from_cstr() {
    let mut guard = InitGuard::new();
    let compiler = Compiler::new(&mut guard).unwrap();
    let session = compiler.create_session();
    let mut text = b"module contents".to_vec();
    text.push(0);
    let source = session.create_source_from_cstr(&text).unwrap();
    assert_eq!(source.data, b"module contents".to_vec());
    // An embedded NUL, or a missing terminator, is rejected.
    assert!(session.create_source_from_cstr(b"a\0b\0").is_err());
    assert!(session.create_source_from_cstr(b"no terminator").is_err());
}

#[test]
fn source_from_invalid_cstr() {
    let mut guard = InitGuard::new();
    let compiler = Compiler::new(&mut guard).unwrap();
    let session = compiler.create_session();
    let mut text = b"INVALID!!!!".to_vec();
    text.push(0);
    let source = session.create_source_from_cstr(&text).unwrap();
    let mut invocation = session.create_invocation();
    invocation.set_verify_ir(true);
    assert!(invocation.parse_source(source).is_err());
    // The failure left one error diagnostic behind.
    assert_eq!(invocation.diagnostics.len(), 1);
    assert!(matches!(invocation.diagnostics.get(0), Diagnostic::Error(_)));
}

#[test]
fn output_byte_code() {
    let mut guard = InitGuard::new();
    let compiler = Compiler::new(&mut guard).unwrap();
    let mut session = compiler.create_session();
    session
        .set_flags(vec!["--iree-hal-target-backends=llvm-cpu".to_string()])
        .unwrap();
    let mut invocation = session.create_invocation();
    invocation.set_verify_ir(true);
    let blob = mul_module_bytes();
    let source = session.create_source_from_buf(&blob).unwrap();
    let mut output = MemBufferOutput::new(&compiler).unwrap();
    invocation.set_compile_to_phase("end").unwrap();
    invocation.parse_source(source).unwrap();
    invocation.pipeline(Pipeline::Std).unwrap();
    invocation.output_vm_byte_code(&mut output).unwrap();
    let out_buf = output.map_memory().unwrap();
    // The artifact is the module in its wire form, ready for the runtime.
    assert_eq!(*out_buf, blob);
}

#[test]
fn pipeline_without_source_fails() {
    let mut guard = InitGuard::new();
    let compiler = Compiler::new(&mut guard).unwrap();
    let session = compiler.create_session();
    let mut invocation = session.create_invocation();
    assert!(invocation.pipeline(Pipeline::Std).is_err());
    let mut output = MemBufferOutput::new(&compiler).unwrap();
    assert!(invocation.output_ir(&mut output).is_err());
    assert!(invocation.output_vm_byte_code(&mut output).is_err());
    assert!(invocation.output_hal_executable(&mut output).is_err());
    assert!(invocation.run_pass_pipeline("canonicalize").is_err());
}

#[test]
fn source_split() {
    let mut guard = InitGuard::new();
    let compiler = Compiler::new(&mut guard).unwrap();
    let session = compiler.create_session();
    let text = b"first piece\n// -----\nsecond piece\n// -----\nthird";
    let source = session.create_source_from_buf(text).unwrap();
    let pieces = source.split().unwrap();
    assert_eq!(pieces.len(), 3);
    assert_eq!(pieces[0].data, b"first piece".to_vec());
    assert_eq!(pieces[1].data, b"second piece".to_vec());
    assert_eq!(pieces[2].data, b"third".to_vec());
    // A source without the delimiter is one piece.
    let single = Source::from_buf(b"just one").unwrap();
    assert_eq!(single.split().unwrap().len(), 1);
}

#[test]
fn module_wire_round_trip() {
    let blob = mul_module_bytes();
    let parsed = Module::parse(&blob).unwrap();
    assert_eq!(parsed.name, b"arithmetic".to_vec());
    assert_eq!(parsed.exports.len(), 1);
    assert_eq!(parsed.exports[0].name, b"simple_mul".to_vec());
    assert_eq!(parsed.exports[0].op, OP_ELEMENTWISE_MUL);
    assert_eq!(parsed.serialize(), blob);
    // A damaged header is rejected.
    assert!(Module::parse(b"XXXX").is_none());
    let mut bad = blob.clone();
    bad[0] = 0;
    assert!(Module::parse(&bad).is_none());
    let mut truncated = blob.clone();
    truncated.pop();
    assert!(Module::parse(&truncated).is_none());
    // Trailing garbage is rejected too.
    let mut extended = blob.clone();
    extended.push(0);
    assert!(Module::parse(&extended).is_none());
}

#[test]
fn cconv_fragments() {
    let sig = FunctionSignature { cconv: b"0iCiD_rr".to_vec() };
    let (args, results) = sig.get_cconv_fragments().unwrap();
    assert_eq!(args, b"iCiD".to_vec());
    assert_eq!(results, b"rr".to_vec());
    assert!(sig.is_variadic_cconv());

    let sig = FunctionSignature { cconv: b"0v_ir".to_vec() };
    let (args, results) = sig.get_cconv_fragments().unwrap();
    assert_eq!(args, b"".to_vec());
    assert_eq!(results, b"ir".to_vec());
    assert!(!sig.is_variadic_cconv());

    let sig = FunctionSignature { cconv: b"".to_vec() };
    let (args, results) = sig.get_cconv_fragments().unwrap();
    assert!(args.is_empty() && results.is_empty());

    let sig = FunctionSignature { cconv: b"0ri".to_vec() };
    let (args, results) = sig.get_cconv_fragments().unwrap();
    assert_eq!(args, b"ri".to_vec());
    assert!(results.is_empty());

    // An unknown version byte is rejected.
    let sig = FunctionSignature { cconv: b"9ri".to_vec() };
    assert!(sig.get_cconv_fragments().is_err());
}

#[test]
fn diagnostics_capture() {
    let mut log = Diagnostics::new(Vec::new());
    assert_eq!(log.len(), 0);
    let d = Diagnostic::from_severity(2, "bad input".to_string()).unwrap();
    assert!(matches!(d, Diagnostic::Error(_)));
    log.push(d);
    log.push(Diagnostic::from_severity(1, "careful".to_string()).unwrap());
    assert_eq!(log.len(), 2);
    assert!(log.get(0).to_text().contains("bad input"));
    assert!(log.get(1).to_text().starts_with("Warning: "));
    // An unknown severity is refused rather than misclassified.
    assert!(Diagnostic::from_severity(9, "x".to_string()).is_none());
    // The log is cleared before each stage, never accumulated across them.
    log.clear();
    assert_eq!(log.len(), 0);
}
