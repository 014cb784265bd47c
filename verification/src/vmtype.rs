//! The two-axis type descriptor of a list slot or call argument: a slot is
//! declared to hold either one primitive value kind, one registered
//! reference kind, any reference kind, or free-form variants.  The runtime
//! packs the descriptor into one machine word — value-kind bits in the low
//! byte, reference bits above them — with exactly one axis non-null, or
//! both null for the variant placeholder; `pack` and `unpack` mirror that
//! encoding and invert each other.

use vstd::prelude::*;

verus! {

/// Low bits of a raw registry tag that are reserved for the runtime's
/// inline reference-count tagging; a descriptor discards them.
pub const REF_TYPE_TAG_BITS: u64 = 3;

/// The fixed-width primitive kinds a value slot can hold.
#[derive(Clone, Copy, PartialEq, Eq, Debug, Structural)]
pub enum ValueKind {
    I8,
    I16,
    I32,
    I64,
    F32,
    F64,
}

impl ValueKind {
    /// Numeric tag of this kind in the packed descriptor word.
    pub open spec fn tag_spec(self) -> nat {
        match self {
            ValueKind::I8 => 1,
            ValueKind::I16 => 2,
            ValueKind::I32 => 3,
            ValueKind::I64 => 4,
            ValueKind::F32 => 5,
            ValueKind::F64 => 6,
        }
    }

    pub fn tag(self) -> (t: u8)
        ensures
            t == self.tag_spec(),
            1 <= t <= 6,
    {
        match self {
            ValueKind::I8 => 1,
            ValueKind::I16 => 2,
            ValueKind::I32 => 3,
            ValueKind::I64 => 4,
            ValueKind::F32 => 5,
            ValueKind::F64 => 6,
        }
    }

    /// The kind a tag names, if any.
    pub open spec fn from_tag_spec(t: nat) -> Option<ValueKind> {
        if t == 1 {
            Some(ValueKind::I8)
        } else if t == 2 {
            Some(ValueKind::I16)
        } else if t == 3 {
            Some(ValueKind::I32)
        } else if t == 4 {
            Some(ValueKind::I64)
        } else if t == 5 {
            Some(ValueKind::F32)
        } else if t == 6 {
            Some(ValueKind::F64)
        } else {
            None
        }
    }

    pub fn from_tag(t: u8) -> (r: Option<ValueKind>)
        ensures
            r == ValueKind::from_tag_spec(t as nat),
    {
        if t == 1 {
            Some(ValueKind::I8)
        } else if t == 2 {
            Some(ValueKind::I16)
        } else if t == 3 {
            Some(ValueKind::I32)
        } else if t == 4 {
            Some(ValueKind::I64)
        } else if t == 5 {
            Some(ValueKind::F32)
        } else if t == 6 {
            Some(ValueKind::F64)
        } else {
            None
        }
    }

    /// Width in bytes of a value of this kind.
    pub open spec fn byte_width_spec(self) -> nat {
        match self {
            ValueKind::I8 => 1,
            ValueKind::I16 => 2,
            ValueKind::I32 => 4,
            ValueKind::I64 => 8,
            ValueKind::F32 => 4,
            ValueKind::F64 => 8,
        }
    }

    pub fn byte_width(self) -> (w: usize)
        ensures
            w == self.byte_width_spec(),
            1 <= w <= 8,
    {
        match self {
            ValueKind::I8 => 1,
            ValueKind::I16 => 2,
            ValueKind::I32 => 4,
            ValueKind::I64 => 8,
            ValueKind::F32 => 4,
            ValueKind::F64 => 8,
        }
    }
}

/// Per-slot type descriptor: exactly one of the value axis and the
/// reference axis is set, or neither for the variant placeholder.
#[derive(Clone, Copy, PartialEq, Eq, Debug, Structural)]
pub enum VmTypeDef {
    /// Both axes null: each element carries its own type.
    Variant,
    /// The value axis: one fixed primitive kind.
    Value(ValueKind),
    /// The reference axis: one registered reference kind, named by its
    /// registry tag shifted right by `REF_TYPE_TAG_BITS`.
    Ref(u64),
    /// The reference axis with every bit set: any registered reference kind.
    AnyRef,
}

impl VmTypeDef {
    /// Descriptors carry shifted registry tags, which the registry keeps
    /// below this bound so that packing cannot overflow the word or collide
    /// with the any-reference pattern.
    pub open spec fn wf(self) -> bool {
        self matches VmTypeDef::Ref(t) ==> 0 < t < 0x00FF_FFFF_FFFF_FFFFu64
    }

    /// The variant placeholder: elements may differ in type.
    pub fn undefined_type_def() -> (r: VmTypeDef)
        ensures
            r == (VmTypeDef::Variant),
            r.wf(),
    {
        VmTypeDef::Variant
    }

    /// A descriptor for one primitive value kind.
    pub fn value_type_def<T: crate::value::ToValue>() -> (r: VmTypeDef)
        ensures
            r == (VmTypeDef::Value(T::value_kind())),
            r.wf(),
    {
        VmTypeDef::Value(T::to_value_type())
    }

    /// A descriptor for the reference kind behind a raw registry tag; the
    /// low bits reserved for reference-count tagging are discarded.
    pub fn ref_type_def(raw_tag: u64) -> (r: VmTypeDef)
        requires
            raw_tag & 0x7 == 0,
            0 < raw_tag < 0x07FF_FFFF_FFFF_FFF8u64,
        ensures
            r == (VmTypeDef::Ref(raw_tag >> REF_TYPE_TAG_BITS)),
            r.wf(),
    {
        let shifted = raw_tag >> 3;
        proof {
            assert(raw_tag & 0x7 == 0 && 0 < raw_tag < 0x07FF_FFFF_FFFF_FFF8u64 ==>
                0 < (raw_tag >> 3) < 0x00FF_FFFF_FFFF_FFFFu64) by (bit_vector);
        }
        VmTypeDef::Ref(shifted)
    }

    /// A descriptor that admits any registered reference kind.
    pub fn any_ref_type_def() -> (r: VmTypeDef)
        ensures
            r == (VmTypeDef::AnyRef),
            r.wf(),
    {
        VmTypeDef::AnyRef
    }

    /// The packed machine word of this descriptor: value-kind tag in the
    /// low byte, shifted reference tag in the bits above, all reference
    /// bits set for the any-reference descriptor.
    pub open spec fn pack_spec(self) -> u64 {
        match self {
            VmTypeDef::Variant => 0,
            VmTypeDef::Value(k) => k.tag_spec() as u64,
            VmTypeDef::Ref(t) => (t << 8) as u64,
            VmTypeDef::AnyRef => 0xFFFF_FFFF_FFFF_FF00u64,
        }
    }

    pub fn pack(self) -> (w: u64)
        requires
            self.wf(),
        ensures
            w == self.pack_spec(),
    {
        match self {
            VmTypeDef::Variant => 0,
            VmTypeDef::Value(k) => k.tag() as u64,
            VmTypeDef::Ref(t) => t << 8,
            VmTypeDef::AnyRef => 0xFFFF_FFFF_FFFF_FF00u64,
        }
    }

    /// The descriptor a packed word stands for; words whose two axes are
    /// both set, or whose value byte holds no kind, stand for none.
    pub open spec fn unpack_spec(w: u64) -> Option<VmTypeDef> {
        let low = w & 0xFF;
        let high = w >> 8;
        if low == 0 {
            if high == 0 {
                Some(VmTypeDef::Variant)
            } else if high == 0x00FF_FFFF_FFFF_FFFFu64 {
                Some(VmTypeDef::AnyRef)
            } else {
                Some(VmTypeDef::Ref(high))
            }
        } else if high != 0 {
            None
        } else {
            match ValueKind::from_tag_spec(low as nat) {
                Some(k) => Some(VmTypeDef::Value(k)),
                None => None,
            }
        }
    }

    /// Reads a packed word back into a descriptor.
    pub fn unpack(w: u64) -> (r: Option<VmTypeDef>)
        ensures
            r == VmTypeDef::unpack_spec(w),
    {
        let low = (w & 0xFF) as u8;
        let high = w >> 8;
        proof {
            assert((w & 0xFF) < 256) by (bit_vector);
        }
        if low == 0 {
            if high == 0 {
                Some(VmTypeDef::Variant)
            } else if high == 0x00FF_FFFF_FFFF_FFFFu64 {
                Some(VmTypeDef::AnyRef)
            } else {
                Some(VmTypeDef::Ref(high))
            }
        } else if high != 0 {
            None
        } else {
            match ValueKind::from_tag(low) {
                Some(k) => Some(VmTypeDef::Value(k)),
                None => None,
            }
        }
    }

    /// Packing a well-formed descriptor and unpacking the word restores the
    /// descriptor: the one-axis encoding loses nothing.
    pub proof fn lemma_pack_round_trip(self)
        requires
            self.wf(),
        ensures
            VmTypeDef::unpack_spec(self.pack_spec()) == Some(self),
    {
        match self {
            VmTypeDef::Variant => {
                assert(0u64 & 0xFF == 0 && 0u64 >> 8 == 0) by (bit_vector);
            },
            VmTypeDef::Value(k) => {
                let t = k.tag_spec() as u64;
                assert(1 <= t <= 6 ==> (t & 0xFF) == t && (t >> 8) == 0) by (bit_vector);
            },
            VmTypeDef::Ref(t) => {
                assert(0 < t < 0x00FF_FFFF_FFFF_FFFFu64 ==> (
                    ((t << 8) & 0xFF) == 0
                    && ((t << 8) >> 8) == t
                )) by (bit_vector);
            },
            VmTypeDef::AnyRef => {
                assert((0xFFFF_FFFF_FFFF_FF00u64 & 0xFF) == 0
                    && (0xFFFF_FFFF_FFFF_FF00u64 >> 8) == 0x00FF_FFFF_FFFF_FFFFu64)
                    by (bit_vector);
            },
        }
    }
}


/// Marker for the untyped variant placeholder: a slot of this kind may
/// hold a value of any kind, a reference, or nothing.
pub struct Undefined;

impl Undefined {
    /// The descriptor of variant slots.
    pub fn type_def() -> (r: VmTypeDef)
        ensures
            r == (VmTypeDef::Variant),
            r.wf(),
    {
        VmTypeDef::Variant
    }
}

} // verus!
