//! Tests of the runtime side: instances, sessions, devices, buffer views,
//! reference counting, lists and full invocations against an in-process
//! dummy device driver.

use eerie::hal::{BufferMapping, BufferView, DriverRegistry, ElementType, EncodingType};
use eerie::instance::{Instance, InstanceOptions};
use eerie::list::List;
use eerie::module::{Export, Module, OP_ELEMENTWISE_ADD};
use eerie::session::{BufferContent, Call, Session, SessionOptions};
use eerie::status::{Status, StatusErrorKind};
use eerie::value::{Float32Bits, Float64Bits};
use eerie::vmtype::VmTypeDef;

fn f32s_to_bytes(xs: &[f32]) -> Vec<u8> {
    let mut out = Vec::new();
    for x in xs {
        out.extend_from_slice(&x.to_le_bytes());
    }
    out
}

fn bytes_to_f32s(bs: &[u8]) -> Vec<f32> {
    let mut out = Vec::new();
    for c in bs.chunks(4) {
        out.push(f32::from_le_bytes([c[0], c[1], c[2], c[3]]));
    }
    out
}

/// The in-process dummy device driver: runs one invocation request on the
/// host.
fn dummy_driver_run(req: &eerie::session::InvokeRequest) -> BufferContent {
    assert_eq!(req.op, OP_ELEMENTWISE_ADD);
    let a = bytes_to_f32s(&req.inputs[0].data);
    let b = bytes_to_f32s(&req.inputs[1].data);
    let sum: Vec<f32> = a.iter().zip(b.iter()).map(|(x, y)| x + y).collect();
    BufferContent {
        shape: req.inputs[0].shape.clone(),
        element_type: req.inputs[0].element_type,
        encoding: req.inputs[0].encoding,
        data: f32s_to_bytes(&sum),
    }
}

fn add_module_bytes() -> Vec<u8> {
    let module = Module {
        name: b"arithmetic".to_vec(),
        exports: vec![Export { name: b"simple_add".to_vec(), op: OP_ELEMENTWISE_ADD }],
    };
    module.serialize()
}

#[test]
fn test_instance() {
    let driver_registry = DriverRegistry::new();
    let options = InstanceOptions::new(&driver_registry, 1).use_all_available_drivers();
    Instance::new(&options);
}

#[test]
fn runtime_test_session() {
    let mut driver_registry = DriverRegistry::new();
    driver_registry.register("local-sync".to_string());
    let options = InstanceOptions::new(&driver_registry, 1).use_all_available_drivers();
    let instance = Instance::new(&options);
    let device = instance
        .try_create_default_device("local-sync")
        .expect("Failed to create device");
    let session = Session::create_with_device(&instance, &SessionOptions::default(), &device)
        .expect("Failed to create session");
    session.trim().expect("Failed to trim session");
}

#[test]
fn dynamic_list() {
    let driver_registry = DriverRegistry::new();
    let options = InstanceOptions::new(&driver_registry, 1).use_all_available_drivers();
    let instance = Instance::new(&options);
    let mut list = List::create(&VmTypeDef::value_type_def::<i32>(), 4, &instance).unwrap();
    list.push_value(1).unwrap();
    list.push_value(2).unwrap();
    list.push_value(3).unwrap();
    list.push_value(4).unwrap();
    let val = list.get_value::<i32>(0).unwrap();
    drop(list);
    assert_eq!(val, 1);
}

#[test]
fn ref_list() {
    let mut driver_registry = DriverRegistry::new();
    driver_registry.register("local-sync".to_string());
    let options = InstanceOptions::new(&driver_registry, 1).use_all_available_drivers();
    let mut instance = Instance::new(&options);
    let device = instance
        .try_create_default_device("local-sync")
        .expect("Failed to create device");
    let _session =
        Session::create_with_device(&instance, &SessionOptions::default(), &device).unwrap();
    let mut list = List::create(&VmTypeDef::any_ref_type_def(), 4, &instance).unwrap();
    let buffer = BufferView::new(
        &mut instance,
        &[2, 2],
        EncodingType::DenseRowMajor,
        ElementType::Float32,
        f32s_to_bytes(&[1.0, 2.0, 3.0, 4.0]),
    )
    .unwrap();
    let buffer_ref = buffer.to_ref(&mut instance).unwrap();
    list.push_ref(&mut instance, &buffer_ref).unwrap();
    list.push_ref(&mut instance, &buffer_ref).unwrap();
    let buffer_ref_2 = list.get_ref(&mut instance, 0).unwrap();
    assert_eq!(buffer_ref_2.obj_id, buffer.obj_id);
    let view_2 = BufferView { instance_id: buffer_ref_2.instance_id, obj_id: buffer_ref_2.obj_id };
    let mapping = BufferMapping::new(&instance, &view_2).unwrap();
    assert_eq!(bytes_to_f32s(mapping.data()), vec![1.0, 2.0, 3.0, 4.0]);
}

#[test]
fn push_get_round_trip_all_kinds() {
    let instance = Instance::default();

    let mut l8 = List::create(&VmTypeDef::value_type_def::<i8>(), 0, &instance).unwrap();
    l8.push_value::<i8>(-7).unwrap();
    assert_eq!(l8.get_value::<i8>(0).unwrap(), -7);

    let mut l16 = List::create(&VmTypeDef::value_type_def::<i16>(), 0, &instance).unwrap();
    l16.push_value::<i16>(-300).unwrap();
    assert_eq!(l16.get_value::<i16>(0).unwrap(), -300);

    let mut l32 = List::create(&VmTypeDef::value_type_def::<i32>(), 0, &instance).unwrap();
    l32.push_value::<i32>(123456).unwrap();
    assert_eq!(l32.get_value::<i32>(0).unwrap(), 123456);

    let mut l64 = List::create(&VmTypeDef::value_type_def::<i64>(), 0, &instance).unwrap();
    l64.push_value::<i64>(-9876543210).unwrap();
    assert_eq!(l64.get_value::<i64>(0).unwrap(), -9876543210);

    let mut lf32 = List::create(&VmTypeDef::value_type_def::<Float32Bits>(), 0, &instance)
        .unwrap();
    lf32.push_value(Float32Bits(2.5f32.to_bits())).unwrap();
    assert_eq!(f32::from_bits(lf32.get_value::<Float32Bits>(0).unwrap().0), 2.5);

    let mut lf64 = List::create(&VmTypeDef::value_type_def::<Float64Bits>(), 0, &instance)
        .unwrap();
    lf64.push_value(Float64Bits(6.25f64.to_bits())).unwrap();
    assert_eq!(f64::from_bits(lf64.get_value::<Float64Bits>(0).unwrap().0), 6.25);

    // A mismatched kind must fail with a type-mismatch condition.
    assert!(matches!(
        l32.get_value::<i64>(0),
        Err(eerie::error::RuntimeError::ValueTypeMismatch)
    ));
    assert!(matches!(
        lf32.get_value::<i32>(0),
        Err(eerie::error::RuntimeError::ValueTypeMismatch)
    ));
}

#[test]
fn capacity_and_reserve() {
    let instance = Instance::default();
    let mut list = List::create(&VmTypeDef::value_type_def::<i32>(), 7, &instance).unwrap();
    assert!(list.capacity() >= 7);
    let before = list.capacity();
    list.reserve(3);
    assert!(list.capacity() >= before);
    list.reserve(20);
    assert!(list.capacity() >= 20);
    let before = list.capacity();
    list.reserve(1);
    assert!(list.capacity() >= before);
}

#[test]
fn resize_restores_defaults() {
    let mut instance = Instance::default();
    let mut list = List::create(&VmTypeDef::value_type_def::<i32>(), 0, &instance).unwrap();
    list.push_value::<i32>(1).unwrap();
    list.push_value::<i32>(2).unwrap();
    list.push_value::<i32>(3).unwrap();
    list.resize(&mut instance, 5);
    assert_eq!(list.size(), 5);
    assert_eq!(list.get_value::<i32>(3).unwrap(), 0);
    assert_eq!(list.get_value::<i32>(4).unwrap(), 0);
    // Shrink, then regrow: the regrown region must be default-valued again.
    list.resize(&mut instance, 2);
    assert_eq!(list.size(), 2);
    list.resize(&mut instance, 5);
    assert_eq!(list.get_value::<i32>(0).unwrap(), 1);
    assert_eq!(list.get_value::<i32>(1).unwrap(), 2);
    assert_eq!(list.get_value::<i32>(2).unwrap(), 0);
    assert_eq!(list.get_value::<i32>(3).unwrap(), 0);
    assert_eq!(list.get_value::<i32>(4).unwrap(), 0);
    // Resizing to zero is the same as clearing.
    list.resize(&mut instance, 0);
    assert_eq!(list.size(), 0);
    list.push_value::<i32>(9).unwrap();
    list.clear(&mut instance);
    assert_eq!(list.size(), 0);
}

#[test]
fn refcount_balance() {
    let mut instance = Instance::default();
    let bv = BufferView::new(
        &mut instance,
        &[4],
        EncodingType::DenseRowMajor,
        ElementType::Sint32,
        vec![0u8; 16],
    )
    .unwrap();
    let obj = bv.obj_id;
    assert_eq!(instance.buffer_refcount(obj), 1);
    let r1 = bv.to_ref(&mut instance).unwrap();
    assert_eq!(instance.buffer_refcount(obj), 2);
    let r2 = r1.retain(&mut instance);
    assert_eq!(instance.buffer_refcount(obj), 3);
    // Dropping the original view must not release the object while clones
    // are alive.
    bv.release(&mut instance);
    assert_eq!(instance.buffer_refcount(obj), 2);
    assert!(instance.buffer_is_live(obj));
    r1.release(&mut instance);
    assert_eq!(instance.buffer_refcount(obj), 1);
    assert!(instance.buffer_is_live(obj));
    // Releasing the last handle frees the object exactly once.
    r2.release(&mut instance);
    assert_eq!(instance.buffer_refcount(obj), 0);
    assert!(!instance.buffer_is_live(obj));
}

#[test]
fn status_conversion() {
    // The success sentinel converts to a result without error.
    assert!(Status::ok().to_result().is_ok());
    // Any other sentinel converts to an error whose message is non-empty.
    let err = Status::from_code(StatusErrorKind::NotFound).to_result().unwrap_err();
    assert!(!err.message().is_empty());
    assert!(matches!(err.kind(), StatusErrorKind::NotFound));
    // A detailed diagnostic keeps its message through the conversion path.
    let err = Status::with_message(StatusErrorKind::Internal, "boom".to_string())
        .to_result()
        .unwrap_err();
    let text = err.message();
    assert!(!text.is_empty());
    assert!(text.contains("boom"));
    // Short-circuit composition keeps the first failure.
    let chained = Status::from_code(StatusErrorKind::Aborted).chain(Status::ok());
    assert!(matches!(chained.to_result().unwrap_err().kind(), StatusErrorKind::Aborted));
    let chained = Status::ok().chain(Status::from_code(StatusErrorKind::DataLoss));
    assert!(matches!(chained.to_result().unwrap_err().kind(), StatusErrorKind::DataLoss));
}

#[test]
fn append_module() {
    let mut driver_registry = DriverRegistry::new();
    driver_registry.register("local-sync".to_string());
    let options = InstanceOptions::new(&driver_registry, 1).use_all_available_drivers();
    let mut instance = Instance::new(&options);
    let device = instance
        .try_create_default_device("local-sync")
        .expect("Failed to create device");
    let mut session =
        Session::create_with_device(&instance, &SessionOptions::default(), &device).unwrap();

    let vmfb = add_module_bytes();
    session.append_module_from_memory(&vmfb).unwrap();

    let func = session.lookup_function("arithmetic.simple_add").unwrap();
    let mut call = Call::new(&session, &func).unwrap();

    let input_a = BufferView::new(
        &mut instance,
        &[4],
        EncodingType::DenseRowMajor,
        ElementType::Float32,
        f32s_to_bytes(&[1.0, 2.0, 3.0, 4.0]),
    )
    .unwrap();
    let input_b = BufferView::new(
        &mut instance,
        &[4],
        EncodingType::DenseRowMajor,
        ElementType::Float32,
        f32s_to_bytes(&[1.0, 2.0, 3.0, 4.0]),
    )
    .unwrap();

    call.inputs_push_back_buffer_view(&mut instance, &input_a).unwrap();
    call.inputs_push_back_buffer_view(&mut instance, &input_b).unwrap();

    // Invoke: the library validates and describes the work, the in-process
    // driver computes, and the library installs the result.
    let request = call.invoke_request(&session, &instance).unwrap();
    let result = dummy_driver_run(&request);
    call.invoke_result(&mut instance, result).unwrap();

    let output = call.outputs_pop_front_buffer_view(&instance).unwrap();
    let mapping = BufferMapping::new(&instance, &output).unwrap();
    assert_eq!(bytes_to_f32s(mapping.data()), vec![2.0, 4.0, 6.0, 8.0]);
}

#[test]
fn cross_instance_push_fails() {
    let registry = DriverRegistry::new();
    let mut instance_a = Instance::new(&InstanceOptions::new(&registry, 1));
    let instance_b = Instance::new(&InstanceOptions::new(&registry, 2));

    let buffer = BufferView::new(
        &mut instance_a,
        &[4],
        EncodingType::DenseRowMajor,
        ElementType::Sint32,
        vec![0u8; 16],
    )
    .unwrap();
    let vmref = buffer.to_ref(&mut instance_a).unwrap();

    let types_a = instance_a.types.len();
    let types_b = instance_b.types.len();
    let count_before = instance_a.buffer_refcount(buffer.obj_id);

    // A list bound to instance B must reject a reference from instance A.
    let mut list_b = List::create(&VmTypeDef::any_ref_type_def(), 0, &instance_b).unwrap();
    let mut instance_b = instance_b;
    let r = list_b.push_ref(&mut instance_b, &vmref);
    assert!(matches!(r, Err(eerie::error::RuntimeError::InstanceMismatch(_))));
    assert_eq!(list_b.size(), 0);

    // A call bound to instance B must reject a buffer view from instance A.
    let mut call = Call {
        instance_id: instance_b.id,
        module_index: 0,
        ordinal: 0,
        inputs: List::create(&VmTypeDef::undefined_type_def(), 0, &instance_b).unwrap(),
        outputs: List::create(&VmTypeDef::undefined_type_def(), 0, &instance_b).unwrap(),
    };
    let r = call.inputs_push_back_buffer_view(&mut instance_b, &buffer);
    assert!(matches!(r, Err(eerie::error::RuntimeError::InstanceMismatch(_))));

    // Neither instance's registry nor the counts were corrupted.
    assert_eq!(instance_a.types.len(), types_a);
    assert_eq!(instance_b.types.len(), types_b);
    assert_eq!(instance_a.buffer_refcount(buffer.obj_id), count_before);
    vmref.release(&mut instance_a);
    buffer.release(&mut instance_a);
}

#[test]
fn list_copy_and_swap() {
    let mut instance = Instance::default();
    let mut a = List::create(&VmTypeDef::value_type_def::<i32>(), 0, &instance).unwrap();
    a.push_value::<i32>(10).unwrap();
    a.push_value::<i32>(20).unwrap();
    a.push_value::<i32>(30).unwrap();
    let mut b = List::create(&VmTypeDef::value_type_def::<i32>(), 0, &instance).unwrap();
    b.push_value::<i32>(0).unwrap();
    b.push_value::<i32>(0).unwrap();
    b.push_value::<i32>(0).unwrap();
    eerie::list::list_copy(&a, 1, &mut b, 0, 2, &mut instance).unwrap();
    assert_eq!(b.get_value::<i32>(0).unwrap(), 20);
    assert_eq!(b.get_value::<i32>(1).unwrap(), 30);
    assert_eq!(b.get_value::<i32>(2).unwrap(), 0);
    // Out-of-range and incompatible copies are rejected.
    assert!(eerie::list::list_copy(&a, 2, &mut b, 0, 2, &mut instance).is_err());
    let mut c = List::create(&VmTypeDef::value_type_def::<i64>(), 0, &instance).unwrap();
    c.push_value::<i64>(1).unwrap();
    assert!(eerie::list::list_copy(&a, 0, &mut c, 0, 1, &mut instance).is_err());
    // Swapping exchanges the two lists' storage.
    a.swap_storage(&mut b);
    assert_eq!(a.get_value::<i32>(0).unwrap(), 20);
    assert_eq!(b.get_value::<i32>(0).unwrap(), 10);
    // get_as widens a narrower stored kind to the requested one.
    let mut d = List::create(&VmTypeDef::value_type_def::<i8>(), 0, &instance).unwrap();
    d.push_value::<i8>(-5).unwrap();
    assert_eq!(d.get_as::<i64>(0).unwrap(), -5i64);
    assert!(d.get_as::<Float32Bits>(0).is_err());
}

#[test]
fn call_reset_releases_handles() {
    let driver_registry = DriverRegistry::new();
    let options = InstanceOptions::new(&driver_registry, 1);
    let mut instance = Instance::new(&options);
    let mut session = Session {
        instance_id: instance.id,
        device_name: "local-sync".to_string(),
        modules: Vec::new(),
    };
    session.append_module_from_memory(&add_module_bytes()).unwrap();
    let func = session.lookup_function("arithmetic.simple_add").unwrap();
    let mut call = Call::new(&session, &func).unwrap();
    let bv = BufferView::new(
        &mut instance,
        &[1],
        EncodingType::DenseRowMajor,
        ElementType::Float32,
        f32s_to_bytes(&[1.0]),
    )
    .unwrap();
    call.inputs_push_back_buffer_view(&mut instance, &bv).unwrap();
    assert_eq!(instance.buffer_refcount(bv.obj_id), 2);
    // Reset empties both lists and gives the held handles back.
    call.reset(&mut instance);
    assert_eq!(call.input_list().size(), 0);
    assert_eq!(call.output_list().size(), 0);
    assert_eq!(instance.buffer_refcount(bv.obj_id), 1);
    // An empty output list has nothing to pop.
    assert!(call.outputs_pop_front_buffer_view(&instance).is_err());
}
