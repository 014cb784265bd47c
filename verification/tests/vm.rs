//! Tests of the list container, contexts and instances at the level of the
//! virtual machine's own object model.

use eerie::error::RuntimeError;
use eerie::context::Context;
use eerie::hal::{BufferView, ElementType, EncodingType};
use eerie::instance::{Instance, VmRefType};
use eerie::list::List;
use eerie::value::{ToValue, Value, VmValue};
use eerie::vmtype::VmTypeDef;

#[test]
fn new_instance() {
    let a = Instance::default();
    let b = a.clone();
    drop(a);
    drop(b);
}

#[test]
fn new_context() {
    let instance = Instance::default();
    let context = Context::new(&instance).unwrap();
    let context2 = context.clone();
    drop(context);
    drop(context2);
}

#[test]
fn new_list() {
    let mut instance = Instance::default();
    let a = List::create(
        &VmTypeDef::value_type_def::<i32>(),
        1,
        &instance,
    )
    .unwrap();
    let b = a.shallow_clone(&mut instance);
    drop(a);
    drop(b);
}

#[test]
fn list_push() {
    let instance = Instance::default();
    let mut a = List::create(
        &VmTypeDef::value_type_def::<i32>(),
        1,
        &instance,
    )
    .unwrap();
    a.push_value::<i32>(1).unwrap();
    a.push_value::<i32>(2).unwrap();
    a.push_value::<i32>(3).unwrap();
    assert_eq!(a.get_value::<i32>(0).unwrap(), 1);
    assert_eq!(a.get_value::<i32>(1).unwrap(), 2);
    assert_eq!(a.get_value::<i32>(2).unwrap(), 3);
}

#[test]
fn list_set() {
    let mut instance = Instance::default();
    let mut a = List::create(
        &VmTypeDef::value_type_def::<i32>(),
        1,
        &instance,
    )
    .unwrap();
    a.push_value(1).unwrap();
    a.set_value(&mut instance, 0, 2).unwrap();
    assert_eq!(a.get_value::<i32>(0).unwrap(), 2);
}

#[test]
fn type_error() {
    let instance = Instance::default();
    let mut a = List::create(
        &VmTypeDef::value_type_def::<i32>(),
        1,
        &instance,
    )
    .unwrap();
    a.push_value::<i32>(1).unwrap();
    assert!(a.get_value::<i64>(0).is_err());
    assert!(matches!(
        a.get_value::<i64>(0),
        Err(RuntimeError::ValueTypeMismatch)
    ));
}

#[test]
fn context_freeze_is_permanent() {
    let instance = Instance::default();
    let mut context = Context::new(&instance).unwrap();
    assert_eq!(context.module_count(), 0);
    context.register_modules(Vec::new()).unwrap();
    context.freeze().unwrap();
    context.freeze().unwrap();
    assert!(context.register_modules(Vec::new()).is_err());
    assert!(matches!(context.module_at(0), Err(RuntimeError::OutOfBounds(0))));
}

#[test]
fn registry_lookup() {
    let mut instance = Instance::default();
    // The built-in buffer-view type is registered at creation.
    let builtin = instance.lookup_type("hal.buffer_view");
    assert_eq!(builtin, 8);
    // A new type gets a fresh tag; registering it again keeps the tag.
    let tag = instance.register_type("custom.thing".to_string());
    assert_eq!(tag, 16);
    assert_eq!(instance.register_type("custom.thing".to_string()), 16);
    assert_eq!(instance.lookup_type("custom.thing"), 16);
    // An unregistered name resolves to the null tag.
    assert_eq!(instance.lookup_type("missing.type"), 0);
    // The descriptor names the registered type back.
    let descriptor = VmRefType { tag: tag >> 3 };
    assert_eq!(descriptor.name(&instance).unwrap(), "custom.thing");
    let stale = VmRefType { tag: 99 };
    assert!(stale.name(&instance).is_none());
}

#[test]
fn value_wrapper_round_trip() {
    let v = 42i32.to_value();
    assert_eq!(v.get(), 42);
    // Adopting a tagged union read at the right kind succeeds, at a wrong
    // kind it is rejected as a type mismatch.
    assert!(Value::<i32>::from_raw(VmValue::I32(7)).is_ok());
    assert!(matches!(
        Value::<i32>::from_raw(VmValue::I64(7)),
        Err(RuntimeError::ValueTypeMismatch)
    ));
}

#[test]
fn shallow_clone_retains_references() {
    let mut instance = Instance::default();
    let bv = BufferView::new(
        &mut instance,
        &[2],
        EncodingType::DenseRowMajor,
        ElementType::Sint32,
        vec![0u8; 8],
    )
    .unwrap();
    let r = bv.to_ref(&mut instance).unwrap();
    let mut list = List::create(&eerie::vmtype::VmTypeDef::any_ref_type_def(), 0, &instance)
        .unwrap();
    list.push_ref(&mut instance, &r).unwrap();
    assert_eq!(instance.buffer_refcount(bv.obj_id), 3);
    // A shallow clone copies the contents and takes its own handles.
    let clone = list.shallow_clone(&mut instance);
    assert_eq!(clone.size(), 1);
    assert_eq!(instance.buffer_refcount(bv.obj_id), 4);
    // Truncating gives the handles back.
    let mut clone = clone;
    clone.resize(&mut instance, 0);
    assert_eq!(instance.buffer_refcount(bv.obj_id), 3);
}
