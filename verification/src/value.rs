//! Primitive scalars as they travel through lists and calls: a tagged union
//! of the six fixed-width kinds.  The two floating kinds are carried as
//! their raw bit patterns, since this layer never computes on them; the host
//! converts at the boundary.  Reading a value at the wrong kind is rejected,
//! never reinterpreted.

use vstd::prelude::*;
use crate::error::RuntimeError;
use crate::vmtype::ValueKind;

verus! {

/// A primitive slot value: one of the fixed kinds, tagged.
#[derive(Clone, Copy, PartialEq, Eq, Debug, Structural)]
pub enum VmValue {
    I8(i8),
    I16(i16),
    I32(i32),
    I64(i64),
    /// Bit pattern of a 32-bit float.
    F32Bits(u32),
    /// Bit pattern of a 64-bit float.
    F64Bits(u64),
}

impl VmValue {
    pub open spec fn kind(self) -> ValueKind {
        match self {
            VmValue::I8(_) => ValueKind::I8,
            VmValue::I16(_) => ValueKind::I16,
            VmValue::I32(_) => ValueKind::I32,
            VmValue::I64(_) => ValueKind::I64,
            VmValue::F32Bits(_) => ValueKind::F32,
            VmValue::F64Bits(_) => ValueKind::F64,
        }
    }

    pub fn kind_of(&self) -> (k: ValueKind)
        ensures
            k == self.kind(),
    {
        match self {
            VmValue::I8(_) => ValueKind::I8,
            VmValue::I16(_) => ValueKind::I16,
            VmValue::I32(_) => ValueKind::I32,
            VmValue::I64(_) => ValueKind::I64,
            VmValue::F32Bits(_) => ValueKind::F32,
            VmValue::F64Bits(_) => ValueKind::F64,
        }
    }

    /// Whether this is the all-zero value of its kind — the default a list
    /// pads with when it grows.
    pub open spec fn is_zero(self) -> bool {
        match self {
            VmValue::I8(x) => x == 0,
            VmValue::I16(x) => x == 0,
            VmValue::I32(x) => x == 0,
            VmValue::I64(x) => x == 0,
            VmValue::F32Bits(x) => x == 0,
            VmValue::F64Bits(x) => x == 0,
        }
    }

    /// The all-zero value of the given kind.
    pub open spec fn zero_of_spec(kind: ValueKind) -> VmValue {
        match kind {
            ValueKind::I8 => VmValue::I8(0),
            ValueKind::I16 => VmValue::I16(0),
            ValueKind::I32 => VmValue::I32(0),
            ValueKind::I64 => VmValue::I64(0),
            ValueKind::F32 => VmValue::F32Bits(0),
            ValueKind::F64 => VmValue::F64Bits(0),
        }
    }

    pub fn zero_of(kind: ValueKind) -> (v: VmValue)
        ensures
            v == VmValue::zero_of_spec(kind),
            v.kind() == kind,
            v.is_zero(),
    {
        match kind {
            ValueKind::I8 => VmValue::I8(0),
            ValueKind::I16 => VmValue::I16(0),
            ValueKind::I32 => VmValue::I32(0),
            ValueKind::I64 => VmValue::I64(0),
            ValueKind::F32 => VmValue::F32Bits(0),
            ValueKind::F64 => VmValue::F64Bits(0),
        }
    }
}

/// A host type that can occupy a primitive value slot.  Implementations fix
/// one kind, say how a value of the type reads as a tagged slot value, and
/// guarantee that the two directions invert each other — that is what makes
/// a push followed by a get at the same kind lossless.
pub trait ToValue: Sized + Copy {
    /// The one primitive kind this type occupies.
    spec fn value_kind() -> ValueKind;

    /// The tagged slot value a value of this type reads as.
    spec fn to_vm_spec(self) -> VmValue;

    /// The value of this type a tagged slot value reads back as, when the
    /// kinds agree.
    spec fn from_vm_spec(v: VmValue) -> Option<Self>;

    /// Writing then reading restores the value, and the written slot value
    /// carries this type's kind.
    proof fn lemma_vm_round_trip(self)
        ensures
            Self::from_vm_spec(self.to_vm_spec()) == Some(self),
            self.to_vm_spec().kind() == Self::value_kind(),
    ;

    /// A slot value reads back as a value of this type exactly when the
    /// kinds agree.
    proof fn lemma_vm_mismatch(v: VmValue)
        ensures
            Self::from_vm_spec(v) is Some <==> v.kind() == Self::value_kind(),
    ;

    /// The kind tag of this type.
    fn to_value_type() -> (k: ValueKind)
        ensures
            k == Self::value_kind(),
    ;

    /// Wraps a value of this type as a tagged value.  Together with
    /// `lemma_vm_round_trip` this makes the result well-formed: its tag is
    /// this type's kind.
    fn to_value(&self) -> (r: Value<Self>)
        ensures
            r.raw == self.to_vm_spec(),
    ;

    /// Reads a tagged slot value back, if its kind is this type's.
    fn try_from_vm(v: &VmValue) -> (r: Option<Self>)
        ensures
            r == Self::from_vm_spec(*v),
    ;
}

/// A primitive scalar tagged with its type marker: a pure value, no
/// ownership.
pub struct Value<T: ToValue> {
    pub raw: VmValue,
    pub marker: core::marker::PhantomData<T>,
}

impl<T: ToValue> Value<T> {
    /// The tag of the wrapped value agrees with the type marker.
    pub open spec fn wf(self) -> bool {
        self.raw.kind() == T::value_kind()
    }

    /// Reads the wrapped scalar back at its own type.
    pub fn get(&self) -> (r: T)
        requires
            self.wf(),
        ensures
            Some(r) == T::from_vm_spec(self.raw),
    {
        proof {
            T::lemma_vm_mismatch(self.raw);
        }
        T::try_from_vm(&self.raw).unwrap()
    }

    /// Adopts a tagged union read keyed by the type marker: accepted only
    /// when the tag matches the marker's kind, rejected as a type mismatch
    /// otherwise.
    pub fn from_raw(raw: VmValue) -> (r: Result<Value<T>, RuntimeError>)
        ensures
            raw.kind() == T::value_kind() <==> r is Ok,
            r matches Ok(v) ==> v.raw == raw && v.wf(),
            r matches Err(e) ==> e is ValueTypeMismatch,
    {
        let k = raw.kind_of();
        if k == T::to_value_type() {
            Ok(Value { raw, marker: core::marker::PhantomData })
        } else {
            Err(RuntimeError::ValueTypeMismatch)
        }
    }
}

/// Bit pattern of a 32-bit float, for hosts that marshal floats through the
/// value system without computing on them here.
#[derive(Clone, Copy, PartialEq, Eq, Debug, Structural)]
pub struct Float32Bits(pub u32);

/// Bit pattern of a 64-bit float.
#[derive(Clone, Copy, PartialEq, Eq, Debug, Structural)]
pub struct Float64Bits(pub u64);

impl ToValue for i8 {
    open spec fn value_kind() -> ValueKind {
        ValueKind::I8
    }

    open spec fn to_vm_spec(self) -> VmValue {
        VmValue::I8(self)
    }

    open spec fn from_vm_spec(v: VmValue) -> Option<i8> {
        match v {
            VmValue::I8(x) => Some(x),
            _ => None,
        }
    }

    proof fn lemma_vm_round_trip(self) {
    }

    proof fn lemma_vm_mismatch(v: VmValue) {
    }

    fn to_value_type() -> ValueKind {
        ValueKind::I8
    }

    fn to_value(&self) -> Value<i8> {
        Value { raw: VmValue::I8(*self), marker: core::marker::PhantomData }
    }

    fn try_from_vm(v: &VmValue) -> Option<i8> {
        match v {
            VmValue::I8(x) => Some(*x),
            _ => None,
        }
    }
}

impl ToValue for i16 {
    open spec fn value_kind() -> ValueKind {
        ValueKind::I16
    }

    open spec fn to_vm_spec(self) -> VmValue {
        VmValue::I16(self)
    }

    open spec fn from_vm_spec(v: VmValue) -> Option<i16> {
        match v {
            VmValue::I16(x) => Some(x),
            _ => None,
        }
    }

    proof fn lemma_vm_round_trip(self) {
    }

    proof fn lemma_vm_mismatch(v: VmValue) {
    }

    fn to_value_type() -> ValueKind {
        ValueKind::I16
    }

    fn to_value(&self) -> Value<i16> {
        Value { raw: VmValue::I16(*self), marker: core::marker::PhantomData }
    }

    fn try_from_vm(v: &VmValue) -> Option<i16> {
        match v {
            VmValue::I16(x) => Some(*x),
            _ => None,
        }
    }
}

impl ToValue for i32 {
    open spec fn value_kind() -> ValueKind {
        ValueKind::I32
    }

    open spec fn to_vm_spec(self) -> VmValue {
        VmValue::I32(self)
    }

    open spec fn from_vm_spec(v: VmValue) -> Option<i32> {
        match v {
            VmValue::I32(x) => Some(x),
            _ => None,
        }
    }

    proof fn lemma_vm_round_trip(self) {
    }

    proof fn lemma_vm_mismatch(v: VmValue) {
    }

    fn to_value_type() -> ValueKind {
        ValueKind::I32
    }

    fn to_value(&self) -> Value<i32> {
        Value { raw: VmValue::I32(*self), marker: core::marker::PhantomData }
    }

    fn try_from_vm(v: &VmValue) -> Option<i32> {
        match v {
            VmValue::I32(x) => Some(*x),
            _ => None,
        }
    }
}

impl ToValue for i64 {
    open spec fn value_kind() -> ValueKind {
        ValueKind::I64
    }

    open spec fn to_vm_spec(self) -> VmValue {
        VmValue::I64(self)
    }

    open spec fn from_vm_spec(v: VmValue) -> Option<i64> {
        match v {
            VmValue::I64(x) => Some(x),
            _ => None,
        }
    }

    proof fn lemma_vm_round_trip(self) {
    }

    proof fn lemma_vm_mismatch(v: VmValue) {
    }

    fn to_value_type() -> ValueKind {
        ValueKind::I64
    }

    fn to_value(&self) -> Value<i64> {
        Value { raw: VmValue::I64(*self), marker: core::marker::PhantomData }
    }

    fn try_from_vm(v: &VmValue) -> Option<i64> {
        match v {
            VmValue::I64(x) => Some(*x),
            _ => None,
        }
    }
}

impl ToValue for Float32Bits {
    open spec fn value_kind() -> ValueKind {
        ValueKind::F32
    }

    open spec fn to_vm_spec(self) -> VmValue {
        VmValue::F32Bits(self.0)
    }

    open spec fn from_vm_spec(v: VmValue) -> Option<Float32Bits> {
        match v {
            VmValue::F32Bits(x) => Some(Float32Bits(x)),
            _ => None,
        }
    }

    proof fn lemma_vm_round_trip(self) {
    }

    proof fn lemma_vm_mismatch(v: VmValue) {
    }

    fn to_value_type() -> ValueKind {
        ValueKind::F32
    }

    fn to_value(&self) -> Value<Float32Bits> {
        Value { raw: VmValue::F32Bits(self.0), marker: core::marker::PhantomData }
    }

    fn try_from_vm(v: &VmValue) -> Option<Float32Bits> {
        match v {
            VmValue::F32Bits(x) => Some(Float32Bits(*x)),
            _ => None,
        }
    }
}

impl ToValue for Float64Bits {
    open spec fn value_kind() -> ValueKind {
        ValueKind::F64
    }

    open spec fn to_vm_spec(self) -> VmValue {
        VmValue::F64Bits(self.0)
    }

    open spec fn from_vm_spec(v: VmValue) -> Option<Float64Bits> {
        match v {
            VmValue::F64Bits(x) => Some(Float64Bits(x)),
            _ => None,
        }
    }

    proof fn lemma_vm_round_trip(self) {
    }

    proof fn lemma_vm_mismatch(v: VmValue) {
    }

    fn to_value_type() -> ValueKind {
        ValueKind::F64
    }

    fn to_value(&self) -> Value<Float64Bits> {
        Value { raw: VmValue::F64Bits(self.0), marker: core::marker::PhantomData }
    }

    fn try_from_vm(v: &VmValue) -> Option<Float64Bits> {
        match v {
            VmValue::F64Bits(x) => Some(Float64Bits(*x)),
            _ => None,
        }
    }
}

} // verus!
