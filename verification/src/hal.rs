//! The hardware-abstraction side of the runtime as this layer sees it:
//! driver registries and devices as opaque named capabilities, and buffer
//! views — shaped, typed, reference-counted device buffers — whose shape
//! and element-kind bookkeeping is checked here before any foreign memory
//! would be touched.

use vstd::prelude::*;
use crate::error::RuntimeError;
use crate::instance::{Instance, VmRef};
use crate::status::StatusErrorKind;

verus! {

/// How the elements of a buffer view are laid out.
#[derive(Clone, Copy, PartialEq, Eq, Debug, Structural)]
pub enum EncodingType {
    Opaque,
    DenseRowMajor,
}

impl EncodingType {
    /// The wire value of this encoding in the foreign ABI.
    pub open spec fn wire_spec(self) -> u32 {
        match self {
            EncodingType::Opaque => 0,
            EncodingType::DenseRowMajor => 1,
        }
    }

    pub fn to_wire(self) -> (w: u32)
        ensures
            w == self.wire_spec(),
    {
        match self {
            EncodingType::Opaque => 0,
            EncodingType::DenseRowMajor => 1,
        }
    }
}

/// The element kinds a buffer view can carry.  The wire value packs a
/// numerical-class byte above the element's width in bits.
#[derive(Clone, Copy, PartialEq, Eq, Debug, Structural)]
pub enum ElementType {
    /// No element kind; width zero.
    NoneType,
    Opaque8,
    Opaque16,
    Opaque32,
    Opaque64,
    Bool8,
    Int4,
    Sint4,
    Uint4,
    Int8,
    Sint8,
    Uint8,
    Int16,
    Sint16,
    Uint16,
    Int32,
    Sint32,
    Uint32,
    Int64,
    Sint64,
    Uint64,
    Float16,
    Float32,
    Float64,
    BFloat16,
    ComplexFloat64,
    ComplexFloat128,
}

impl ElementType {
    /// The numerical class of this element kind: unknown, signless or
    /// signed or unsigned integer, boolean, IEEE or brain or complex float.
    pub open spec fn class_spec(self) -> u32 {
        match self {
            ElementType::NoneType => 0x00,
            ElementType::Opaque8 => 0x00,
            ElementType::Opaque16 => 0x00,
            ElementType::Opaque32 => 0x00,
            ElementType::Opaque64 => 0x00,
            ElementType::Bool8 => 0x13,
            ElementType::Int4 => 0x10,
            ElementType::Sint4 => 0x11,
            ElementType::Uint4 => 0x12,
            ElementType::Int8 => 0x10,
            ElementType::Sint8 => 0x11,
            ElementType::Uint8 => 0x12,
            ElementType::Int16 => 0x10,
            ElementType::Sint16 => 0x11,
            ElementType::Uint16 => 0x12,
            ElementType::Int32 => 0x10,
            ElementType::Sint32 => 0x11,
            ElementType::Uint32 => 0x12,
            ElementType::Int64 => 0x10,
            ElementType::Sint64 => 0x11,
            ElementType::Uint64 => 0x12,
            ElementType::Float16 => 0x21,
            ElementType::Float32 => 0x21,
            ElementType::Float64 => 0x21,
            ElementType::BFloat16 => 0x22,
            ElementType::ComplexFloat64 => 0x23,
            ElementType::ComplexFloat128 => 0x23,
        }
    }

    /// Width of one element in bits.
    pub open spec fn bit_width_spec(self) -> u32 {
        match self {
            ElementType::NoneType => 0,
            ElementType::Opaque8 => 8,
            ElementType::Opaque16 => 16,
            ElementType::Opaque32 => 32,
            ElementType::Opaque64 => 64,
            ElementType::Bool8 => 8,
            ElementType::Int4 => 4,
            ElementType::Sint4 => 4,
            ElementType::Uint4 => 4,
            ElementType::Int8 => 8,
            ElementType::Sint8 => 8,
            ElementType::Uint8 => 8,
            ElementType::Int16 => 16,
            ElementType::Sint16 => 16,
            ElementType::Uint16 => 16,
            ElementType::Int32 => 32,
            ElementType::Sint32 => 32,
            ElementType::Uint32 => 32,
            ElementType::Int64 => 64,
            ElementType::Sint64 => 64,
            ElementType::Uint64 => 64,
            ElementType::Float16 => 16,
            ElementType::Float32 => 32,
            ElementType::Float64 => 64,
            ElementType::BFloat16 => 16,
            ElementType::ComplexFloat64 => 64,
            ElementType::ComplexFloat128 => 128,
        }
    }

    pub fn bit_width(self) -> (w: u32)
        ensures
            w == self.bit_width_spec(),
    {
        match self {
            ElementType::NoneType => 0,
            ElementType::Opaque8 => 8,
            ElementType::Opaque16 => 16,
            ElementType::Opaque32 => 32,
            ElementType::Opaque64 => 64,
            ElementType::Bool8 => 8,
            ElementType::Int4 => 4,
            ElementType::Sint4 => 4,
            ElementType::Uint4 => 4,
            ElementType::Int8 => 8,
            ElementType::Sint8 => 8,
            ElementType::Uint8 => 8,
            ElementType::Int16 => 16,
            ElementType::Sint16 => 16,
            ElementType::Uint16 => 16,
            ElementType::Int32 => 32,
            ElementType::Sint32 => 32,
            ElementType::Uint32 => 32,
            ElementType::Int64 => 64,
            ElementType::Sint64 => 64,
            ElementType::Uint64 => 64,
            ElementType::Float16 => 16,
            ElementType::Float32 => 32,
            ElementType::Float64 => 64,
            ElementType::BFloat16 => 16,
            ElementType::ComplexFloat64 => 64,
            ElementType::ComplexFloat128 => 128,
        }
    }

    /// The packed wire value: numerical class in bits 24 and above, element
    /// width in bits below.
    pub open spec fn wire_spec(self) -> u32 {
        (self.class_spec() * 0x0100_0000 + self.bit_width_spec()) as u32
    }

    pub fn to_wire(self) -> (w: u32)
        ensures
            w == self.wire_spec(),
    {
        let class = match self {
            ElementType::NoneType => 0x00u32,
            ElementType::Opaque8 => 0x00,
            ElementType::Opaque16 => 0x00,
            ElementType::Opaque32 => 0x00,
            ElementType::Opaque64 => 0x00,
            ElementType::Bool8 => 0x13,
            ElementType::Int4 => 0x10,
            ElementType::Sint4 => 0x11,
            ElementType::Uint4 => 0x12,
            ElementType::Int8 => 0x10,
            ElementType::Sint8 => 0x11,
            ElementType::Uint8 => 0x12,
            ElementType::Int16 => 0x10,
            ElementType::Sint16 => 0x11,
            ElementType::Uint16 => 0x12,
            ElementType::Int32 => 0x10,
            ElementType::Sint32 => 0x11,
            ElementType::Uint32 => 0x12,
            ElementType::Int64 => 0x10,
            ElementType::Sint64 => 0x11,
            ElementType::Uint64 => 0x12,
            ElementType::Float16 => 0x21,
            ElementType::Float32 => 0x21,
            ElementType::Float64 => 0x21,
            ElementType::BFloat16 => 0x22,
            ElementType::ComplexFloat64 => 0x23,
            ElementType::ComplexFloat128 => 0x23,
        };
        let bits = self.bit_width();
        class * 0x0100_0000 + bits
    }

    /// The element kind a wire value names, if any.
    pub open spec fn from_wire_spec(w: u32) -> Option<ElementType> {
        let class = w / 0x0100_0000;
        let bits = w % 0x0100_0000;
        if class == 0x00 {
            if bits == 0 {
                Some(ElementType::NoneType)
            } else if bits == 8 {
                Some(ElementType::Opaque8)
            } else if bits == 16 {
                Some(ElementType::Opaque16)
            } else if bits == 32 {
                Some(ElementType::Opaque32)
            } else if bits == 64 {
                Some(ElementType::Opaque64)
            } else {
                None
            }
        } else if class == 0x13 {
            if bits == 8 {
                Some(ElementType::Bool8)
            } else {
                None
            }
        } else if class == 0x10 {
            if bits == 4 {
                Some(ElementType::Int4)
            } else if bits == 8 {
                Some(ElementType::Int8)
            } else if bits == 16 {
                Some(ElementType::Int16)
            } else if bits == 32 {
                Some(ElementType::Int32)
            } else if bits == 64 {
                Some(ElementType::Int64)
            } else {
                None
            }
        } else if class == 0x11 {
            if bits == 4 {
                Some(ElementType::Sint4)
            } else if bits == 8 {
                Some(ElementType::Sint8)
            } else if bits == 16 {
                Some(ElementType::Sint16)
            } else if bits == 32 {
                Some(ElementType::Sint32)
            } else if bits == 64 {
                Some(ElementType::Sint64)
            } else {
                None
            }
        } else if class == 0x12 {
            if bits == 4 {
                Some(ElementType::Uint4)
            } else if bits == 8 {
                Some(ElementType::Uint8)
            } else if bits == 16 {
                Some(ElementType::Uint16)
            } else if bits == 32 {
                Some(ElementType::Uint32)
            } else if bits == 64 {
                Some(ElementType::Uint64)
            } else {
                None
            }
        } else if class == 0x21 {
            if bits == 16 {
                Some(ElementType::Float16)
            } else if bits == 32 {
                Some(ElementType::Float32)
            } else if bits == 64 {
                Some(ElementType::Float64)
            } else {
                None
            }
        } else if class == 0x22 {
            if bits == 16 {
                Some(ElementType::BFloat16)
            } else {
                None
            }
        } else if class == 0x23 {
            if bits == 64 {
                Some(ElementType::ComplexFloat64)
            } else if bits == 128 {
                Some(ElementType::ComplexFloat128)
            } else {
                None
            }
        } else {
            None
        }
    }

    pub fn from_wire(w: u32) -> (r: Option<ElementType>)
        ensures
            r == ElementType::from_wire_spec(w),
    {
        let class = w / 0x0100_0000;
        let bits = w % 0x0100_0000;
        if class == 0x00 {
            if bits == 0 {
                Some(ElementType::NoneType)
            } else if bits == 8 {
                Some(ElementType::Opaque8)
            } else if bits == 16 {
                Some(ElementType::Opaque16)
            } else if bits == 32 {
                Some(ElementType::Opaque32)
            } else if bits == 64 {
                Some(ElementType::Opaque64)
            } else {
                None
            }
        } else if class == 0x13 {
            if bits == 8 {
                Some(ElementType::Bool8)
            } else {
                None
            }
        } else if class == 0x10 {
            if bits == 4 {
                Some(ElementType::Int4)
            } else if bits == 8 {
                Some(ElementType::Int8)
            } else if bits == 16 {
                Some(ElementType::Int16)
            } else if bits == 32 {
                Some(ElementType::Int32)
            } else if bits == 64 {
                Some(ElementType::Int64)
            } else {
                None
            }
        } else if class == 0x11 {
            if bits == 4 {
                Some(ElementType::Sint4)
            } else if bits == 8 {
                Some(ElementType::Sint8)
            } else if bits == 16 {
                Some(ElementType::Sint16)
            } else if bits == 32 {
                Some(ElementType::Sint32)
            } else if bits == 64 {
                Some(ElementType::Sint64)
            } else {
                None
            }
        } else if class == 0x12 {
            if bits == 4 {
                Some(ElementType::Uint4)
            } else if bits == 8 {
                Some(ElementType::Uint8)
            } else if bits == 16 {
                Some(ElementType::Uint16)
            } else if bits == 32 {
                Some(ElementType::Uint32)
            } else if bits == 64 {
                Some(ElementType::Uint64)
            } else {
                None
            }
        } else if class == 0x21 {
            if bits == 16 {
                Some(ElementType::Float16)
            } else if bits == 32 {
                Some(ElementType::Float32)
            } else if bits == 64 {
                Some(ElementType::Float64)
            } else {
                None
            }
        } else if class == 0x22 {
            if bits == 16 {
                Some(ElementType::BFloat16)
            } else {
                None
            }
        } else if class == 0x23 {
            if bits == 64 {
                Some(ElementType::ComplexFloat64)
            } else if bits == 128 {
                Some(ElementType::ComplexFloat128)
            } else {
                None
            }
        } else {
            None
        }
    }

    /// The wire encoding loses nothing: reading a packed value back gives
    /// the element kind it was packed from.
    pub proof fn lemma_wire_round_trip(self)
        ensures
            ElementType::from_wire_spec(self.wire_spec()) == Some(self),
    {
    }
}

/// A host type that names the element kind its values occupy in a buffer.
pub trait ToElementType {
    /// The element kind of this type.
    spec fn element_type_spec() -> ElementType;

    fn to_element_type() -> (e: ElementType)
        ensures
            e == Self::element_type_spec(),
    ;
}

impl ToElementType for u8 {
    open spec fn element_type_spec() -> ElementType {
        ElementType::Uint8
    }

    fn to_element_type() -> ElementType {
        ElementType::Uint8
    }
}

impl ToElementType for u16 {
    open spec fn element_type_spec() -> ElementType {
        ElementType::Uint16
    }

    fn to_element_type() -> ElementType {
        ElementType::Uint16
    }
}

impl ToElementType for u32 {
    open spec fn element_type_spec() -> ElementType {
        ElementType::Uint32
    }

    fn to_element_type() -> ElementType {
        ElementType::Uint32
    }
}

impl ToElementType for u64 {
    open spec fn element_type_spec() -> ElementType {
        ElementType::Uint64
    }

    fn to_element_type() -> ElementType {
        ElementType::Uint64
    }
}

impl ToElementType for i8 {
    open spec fn element_type_spec() -> ElementType {
        ElementType::Sint8
    }

    fn to_element_type() -> ElementType {
        ElementType::Sint8
    }
}

impl ToElementType for i16 {
    open spec fn element_type_spec() -> ElementType {
        ElementType::Sint16
    }

    fn to_element_type() -> ElementType {
        ElementType::Sint16
    }
}

impl ToElementType for i32 {
    open spec fn element_type_spec() -> ElementType {
        ElementType::Sint32
    }

    fn to_element_type() -> ElementType {
        ElementType::Sint32
    }
}

impl ToElementType for i64 {
    open spec fn element_type_spec() -> ElementType {
        ElementType::Sint64
    }

    fn to_element_type() -> ElementType {
        ElementType::Sint64
    }
}

impl ToElementType for bool {
    open spec fn element_type_spec() -> ElementType {
        ElementType::Bool8
    }

    fn to_element_type() -> ElementType {
        ElementType::Bool8
    }
}

/// The set of compute backends available to instances created against it,
/// each named by its driver.
pub struct DriverRegistry {
    pub drivers: Vec<String>,
}

impl DriverRegistry {
    /// A registry with no drivers registered yet.
    pub fn new() -> (r: DriverRegistry)
        ensures
            r.drivers@.len() == 0,
    {
        DriverRegistry { drivers: Vec::new() }
    }

    /// Registers one driver under the given name.
    pub fn register(&mut self, name: String)
        ensures
            final(self).drivers@ == old(self).drivers@.push(name),
    {
        self.drivers.push(name);
    }
}

impl Default for DriverRegistry {
    fn default() -> (r: DriverRegistry)
        ensures
            r.drivers@.len() == 0,
    {
        DriverRegistry::new()
    }
}

/// An opaque handle to one compute backend, named by the driver that made
/// it.
pub struct Device {
    pub name: String,
}

/// The number of elements a shape spans: the product of its dimensions.
pub open spec fn shape_element_count(shape: Seq<usize>) -> nat
    decreases shape.len(),
{
    if shape.len() == 0 {
        1
    } else {
        shape_element_count(shape.drop_last()) * (shape.last() as nat)
    }
}

/// A shaped, typed view of a reference-counted device buffer, valid only
/// against the instance whose pool holds the buffer.
#[derive(Debug)]
pub struct BufferView {
    pub instance_id: u64,
    pub obj_id: usize,
}

impl BufferView {
    /// Whether this view names a live buffer of the given instance.
    pub open spec fn valid_in(self, instance: Instance) -> bool {
        &&& self.instance_id == instance.id
        &&& self.obj_id < instance.buffers@.len()
        &&& instance.buffers@[self.obj_id as int].refcount > 0
    }

    /// Whether a shape, element kind and payload agree: the kind is
    /// byte-aligned and the payload holds exactly one element per shape
    /// position.
    pub open spec fn layout_ok(shape: Seq<usize>, element_type: ElementType, data: Seq<u8>) -> bool {
        &&& element_type.bit_width_spec() % 8 == 0
        &&& element_type.bit_width_spec() > 0
        &&& shape_element_count(shape) * (element_type.bit_width_spec() / 8) as nat == data.len()
    }

    /// Allocates a buffer in the instance's pool, copying the payload in.
    /// The shape, element kind and payload length must agree; a request
    /// that does not is rejected as invalid before anything is allocated.
    pub fn new(
        instance: &mut Instance,
        shape: &[usize],
        encoding_type: EncodingType,
        element_type: ElementType,
        data: Vec<u8>,
    ) -> (r: Result<BufferView, RuntimeError>)
        ensures
            Self::layout_ok(shape@, element_type, data@) <==> r is Ok,
            r matches Ok(bv) ==> {
                &&& final(instance).id == old(instance).id
                &&& final(instance).types@ == old(instance).types@
                &&& final(instance).drivers@ == old(instance).drivers@
                &&& bv.obj_id == old(instance).buffers@.len()
                &&& final(instance).buffers@.len() == old(instance).buffers@.len() + 1
                &&& final(instance).buffers@.subrange(0, old(instance).buffers@.len() as int)
                    == old(instance).buffers@
                &&& final(instance).buffers@.last().refcount == 1
                &&& final(instance).buffers@.last().element_type == element_type
                &&& final(instance).buffers@.last().encoding == encoding_type
                &&& final(instance).buffers@.last().shape@ == shape@
                &&& final(instance).buffers@.last().data@ == data@
                &&& bv.instance_id == old(instance).id
                &&& bv.valid_in(*final(instance))
            },
            r is Err ==> *final(instance) == *old(instance),
            r matches Err(e) ==> e matches RuntimeError::StatusError(s)
                && s.kind_spec() == (StatusErrorKind::InvalidArgument),
    {
        let bits = element_type.bit_width();
        if bits == 0 || bits % 8 != 0 {
            return Err(RuntimeError::StatusError(
                crate::status::StatusError::from_kind(StatusErrorKind::InvalidArgument),
            ));
        }
        let width = (bits / 8) as usize;
        let dlen = data.len();
        let mut count: usize = 1;
        let mut i: usize = 0;
        let n = shape.len();
        let mut overflow = false;
        while i < n
            invariant
                0 <= i <= n,
                n == shape@.len(),
                !overflow ==> count == shape_element_count(shape@.subrange(0, i as int)),
                overflow ==> shape_element_count(shape@.subrange(0, i as int)) > usize::MAX,
            decreases n - i,
        {
            let d = *vstd::slice::slice_index_get(shape, i);
            proof {
                assert(shape@.subrange(0, i + 1).drop_last() =~= shape@.subrange(0, i as int));
                assert(shape@.subrange(0, i + 1).last() == shape@[i as int]);
            }
            if overflow {
                proof {
                    vstd::arithmetic::mul::lemma_mul_inequality(
                        (usize::MAX + 1) as int,
                        shape_element_count(shape@.subrange(0, i as int)) as int,
                        1,
                    );
                }
                if d == 0 {
                    overflow = false;
                    count = 0;
                    proof {
                        assert(shape_element_count(shape@.subrange(0, i + 1)) == 0);
                    }
                } else {
                    proof {
                        vstd::arithmetic::mul::lemma_mul_inequality(
                            1,
                            d as int,
                            shape_element_count(shape@.subrange(0, i as int)) as int,
                        );
                        vstd::arithmetic::mul::lemma_mul_is_commutative(
                            d as int,
                            shape_element_count(shape@.subrange(0, i as int)) as int,
                        );
                    }
                }
            } else {
                match count.checked_mul(d) {
                    Some(c) => {
                        count = c;
                    },
                    None => {
                        overflow = true;
                    },
                }
            }
            i = i + 1;
        }
        proof {
            assert(shape@.subrange(0, n as int) =~= shape@);
        }
        if overflow {
            proof {
                vstd::arithmetic::mul::lemma_mul_inequality(
                    1,
                    width as int,
                    shape_element_count(shape@) as int,
                );
                vstd::arithmetic::mul::lemma_mul_is_commutative(
                    width as int,
                    shape_element_count(shape@) as int,
                );
                assert(shape_element_count(shape@) * ((element_type.bit_width_spec() / 8) as nat)
                    > usize::MAX >= dlen);
            }
            return Err(RuntimeError::StatusError(
                crate::status::StatusError::from_kind(StatusErrorKind::InvalidArgument),
            ));
        }
        let byte_len = match count.checked_mul(width) {
            Some(b) => b,
            None => {
                proof {
                    assert(shape_element_count(shape@)
                        * ((element_type.bit_width_spec() / 8) as nat) > usize::MAX >= dlen);
                }
                return Err(RuntimeError::StatusError(
                    crate::status::StatusError::from_kind(StatusErrorKind::InvalidArgument),
                ));
            },
        };
        if byte_len != data.len() {
            return Err(RuntimeError::StatusError(
                crate::status::StatusError::from_kind(StatusErrorKind::InvalidArgument),
            ));
        }
        let shape_vec = vstd::slice::slice_to_vec(shape);
        let obj_id = instance.create_buffer(element_type, encoding_type, shape_vec, data);
        Ok(BufferView { instance_id: instance.id, obj_id })
    }

    /// Length in bytes of the buffer behind this view.
    pub fn byte_length(&self, instance: &Instance) -> (r: usize)
        requires
            self.valid_in(*instance),
        ensures
            r == instance.buffers@[self.obj_id as int].data@.len(),
    {
        instance.buffer_data_len(self.obj_id)
    }

    /// Wraps this view as a counted reference of the registered buffer-view
    /// type, retaining the underlying buffer.
    pub fn to_ref(&self, instance: &mut Instance) -> (r: Result<VmRef, RuntimeError>)
        requires
            old(instance).wf(),
            self.valid_in(*old(instance)),
            old(instance).buffers@[self.obj_id as int].refcount < usize::MAX,
        ensures
            r matches Ok(v) && v == (VmRef {
                instance_id: old(instance).id,
                obj_id: self.obj_id,
                type_tag: crate::instance::buffer_view_type_tag(),
            }),
            final(instance).retains_one_more(*old(instance), self.obj_id as int),
            final(instance).wf(),
    {
        let tag = instance.buffer_view_ref_type();
        instance.retain_object(self.obj_id);
        Ok(VmRef { instance_id: instance.id, obj_id: self.obj_id, type_tag: tag })
    }
}

impl BufferView {
    /// Gives the view's handle on the buffer back to the pool; the buffer
    /// is freed exactly when this was the last handle.
    pub fn release(self, instance: &mut Instance)
        requires
            self.valid_in(*old(instance)),
        ensures
            final(instance).releases_one(*old(instance), self.obj_id as int),
    {
        instance.release_object(self.obj_id);
    }
}

/// A host-visible mapping of a buffer's bytes, copied out of the pool while
/// the buffer is live.
pub struct BufferMapping {
    pub bytes: Vec<u8>,
}

impl BufferMapping {
    /// Maps the buffer behind the view for reading.
    pub fn new(instance: &Instance, buffer_view: &BufferView) -> (r: Result<
        BufferMapping,
        RuntimeError,
    >)
        ensures
            buffer_view.valid_in(*instance) <==> r is Ok,
            r matches Ok(m) ==> m.bytes@ == instance.buffers@[buffer_view.obj_id as int].data@,
            r matches Err(e) ==> e matches RuntimeError::InstanceMismatch(_)
                || (e matches RuntimeError::StatusError(s)
                    && s.kind_spec() == (StatusErrorKind::InvalidArgument)),
    {
        if buffer_view.instance_id != instance.id {
            return Err(RuntimeError::InstanceMismatch(String::new()));
        }
        match instance.read_buffer(buffer_view.obj_id) {
            Some(bytes) => Ok(BufferMapping { bytes }),
            None => Err(RuntimeError::StatusError(
                crate::status::StatusError::from_kind(StatusErrorKind::InvalidArgument),
            )),
        }
    }

    /// The mapped bytes.
    pub fn data(&self) -> (r: &Vec<u8>)
        ensures
            r@ == self.bytes@,
    {
        &self.bytes
    }
}

} // verus!
