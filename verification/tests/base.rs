//! Tests of the base layer: the allocator bridge, the packed type
//! descriptors, the element-type wire encoding and the status codes.

use eerie::allocator::{Allocator, AllocatorCommand, AllocatorResponse};
use eerie::hal::ElementType;
use eerie::status::{Status, StatusErrorKind};
use eerie::vmtype::{ValueKind, VmTypeDef};

#[test]
fn allocator_bridge_commands() {
    let mut alloc = Allocator::get_global();
    // Malloc hands out a block whose header remembers the size.
    let p0 = match alloc.ctl(AllocatorCommand::Malloc { size: 64 }).unwrap() {
        AllocatorResponse::Pointer(p) => p,
        _ => panic!("expected a pointer"),
    };
    // Calloc behaves the same for the bookkeeping.
    let p1 = match alloc.ctl(AllocatorCommand::Calloc { size: 16 }).unwrap() {
        AllocatorResponse::Pointer(p) => p,
        _ => panic!("expected a pointer"),
    };
    assert_ne!(p0, p1);
    // Realloc of null degrades to malloc.
    let p2 = match alloc.ctl(AllocatorCommand::Realloc { ptr: None, size: 8 }).unwrap() {
        AllocatorResponse::Pointer(p) => p,
        _ => panic!("expected a pointer"),
    };
    // Realloc retires the old block and serves a fresh one.
    let p3 = match alloc.ctl(AllocatorCommand::Realloc { ptr: Some(p2), size: 128 }).unwrap() {
        AllocatorResponse::Pointer(p) => p,
        _ => panic!("expected a pointer"),
    };
    assert_ne!(p2, p3);
    // Free takes the block back.
    assert_eq!(
        alloc.ctl(AllocatorCommand::Free { ptr: p3 }).unwrap(),
        AllocatorResponse::Released
    );
    assert_eq!(
        alloc.ctl(AllocatorCommand::Free { ptr: p0 }).unwrap(),
        AllocatorResponse::Released
    );
    // An oversized request is rejected as out of range before the host
    // allocator is asked.
    let r = alloc.ctl(AllocatorCommand::Malloc { size: usize::MAX });
    assert!(matches!(
        r.unwrap_err().to_result().unwrap_err().kind(),
        StatusErrorKind::OutOfRange
    ));
}

#[test]
fn null_allocator_accepts_only_free() {
    let mut alloc = Allocator::null_allocator();
    assert_eq!(
        alloc.ctl(AllocatorCommand::Free { ptr: 3 }).unwrap(),
        AllocatorResponse::Released
    );
    let r = alloc.ctl(AllocatorCommand::Malloc { size: 8 });
    assert!(matches!(
        r.unwrap_err().to_result().unwrap_err().kind(),
        StatusErrorKind::Unimplemented
    ));
    let r = alloc.ctl(AllocatorCommand::Realloc { ptr: None, size: 8 });
    assert!(r.is_err());
}

#[test]
fn type_descriptor_packing() {
    let cases = [
        VmTypeDef::Variant,
        VmTypeDef::Value(ValueKind::I8),
        VmTypeDef::Value(ValueKind::I64),
        VmTypeDef::Value(ValueKind::F32),
        VmTypeDef::Ref(1),
        VmTypeDef::Ref(77),
        VmTypeDef::AnyRef,
    ];
    for d in cases {
        let word = d.pack();
        assert_eq!(VmTypeDef::unpack(word), Some(d));
    }
    // Exactly one axis may be set: a word with both is refused.
    assert_eq!(VmTypeDef::unpack((1 << 8) | 3), None);
    // A value byte holding no kind is refused.
    assert_eq!(VmTypeDef::unpack(0xAB), None);
    // The variant placeholder packs to the all-null word.
    assert_eq!(VmTypeDef::Variant.pack(), 0);
    // The registry tag loses its low reference-count bits.
    assert_eq!(VmTypeDef::ref_type_def(8), VmTypeDef::Ref(1));
    assert_eq!(VmTypeDef::ref_type_def(8 * 9), VmTypeDef::Ref(9));
}

#[test]
fn element_type_wire_encoding() {
    let cases = [
        ElementType::NoneType,
        ElementType::Bool8,
        ElementType::Sint8,
        ElementType::Uint16,
        ElementType::Int32,
        ElementType::Sint64,
        ElementType::Float16,
        ElementType::Float32,
        ElementType::Float64,
        ElementType::BFloat16,
        ElementType::ComplexFloat128,
        ElementType::Opaque64,
    ];
    for e in cases {
        let w = e.to_wire();
        assert_eq!(ElementType::from_wire(w), Some(e));
    }
    // The width lives in the low bits: a 32-bit float is a float-class
    // value 32 bits wide.
    assert_eq!(ElementType::Float32.to_wire(), (0x21 << 24) | 32);
    assert_eq!(ElementType::Float32.bit_width(), 32);
    // An unknown class is refused.
    assert_eq!(ElementType::from_wire(0x7F << 24), None);
}

#[test]
fn status_code_mapping() {
    // Codes and kinds name each other consistently for all canonical
    // conditions.
    let kinds = [
        StatusErrorKind::Cancelled,
        StatusErrorKind::Unknown,
        StatusErrorKind::InvalidArgument,
        StatusErrorKind::DeadlineExceeded,
        StatusErrorKind::NotFound,
        StatusErrorKind::AlreadyExists,
        StatusErrorKind::PermissionDenied,
        StatusErrorKind::ResourceExhausted,
        StatusErrorKind::FailedPrecondition,
        StatusErrorKind::Aborted,
        StatusErrorKind::OutOfRange,
        StatusErrorKind::Unimplemented,
        StatusErrorKind::Internal,
        StatusErrorKind::Unavailable,
        StatusErrorKind::DataLoss,
        StatusErrorKind::Unauthenticated,
        StatusErrorKind::Deferred,
    ];
    for (i, k) in kinds.iter().enumerate() {
        let code = k.to_code();
        assert_eq!(code, i + 1);
        assert_eq!(StatusErrorKind::from_code(code), *k);
    }
    // Codes outside the canonical range fall back to the catch-all.
    assert_eq!(StatusErrorKind::from_code(99), StatusErrorKind::UnknownStatus);
    assert_eq!(StatusErrorKind::from_code(0), StatusErrorKind::UnknownStatus);
    // The raw word zero is success; the sentinels are their codes.
    assert!(Status::from_raw(0).is_ok());
    assert!(!Status::from_raw(11).is_ok());
    assert!(matches!(
        Status::from_raw(11).to_result().unwrap_err().kind(),
        StatusErrorKind::OutOfRange
    ));
}
