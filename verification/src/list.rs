//! The list container: a growable, reference-counted, kind-checked store
//! of primitive values, typed references or free-form variants.  A list is
//! declared at creation to hold exactly one element kind (or variants), and
//! every accessor validates the requested kind against that declaration —
//! a mismatch fails, it is never reinterpreted.  Reference slots hold one
//! foreign handle each: pushing retains, truncating or overwriting
//! releases, so the pool's counts stay balanced.

use vstd::prelude::*;
use crate::error::RuntimeError;
use crate::instance::{retain_one, release_one, BufferObject, Instance, VmRef};
use crate::status::{StatusError, StatusErrorKind};
use crate::value::{ToValue, VmValue};
use crate::vmtype::{ValueKind, VmTypeDef};

verus! {

/// One slot of a list: a tagged primitive, a reference (possibly null), or
/// an empty variant cell.
#[derive(Clone, Copy, Debug)]
pub enum Slot {
    Value(VmValue),
    Reference(Option<VmRef>),
    Empty,
}

/// Whether a slot is admissible under a declared element descriptor.
pub open spec fn slot_ok(t: VmTypeDef, s: Slot) -> bool {
    match t {
        VmTypeDef::Variant => true,
        VmTypeDef::Value(k) => s matches Slot::Value(v) && v.kind() == k,
        VmTypeDef::Ref(tag) => s matches Slot::Reference(o) && (o matches Some(r) ==> r.type_tag
            == tag),
        VmTypeDef::AnyRef => s is Reference,
    }
}

/// The default a list pads with when it grows: zero for primitives, null
/// for references, empty for variants.
pub open spec fn default_slot_spec(t: VmTypeDef) -> Slot {
    match t {
        VmTypeDef::Variant => Slot::Empty,
        VmTypeDef::Value(k) => Slot::Value(VmValue::zero_of_spec(k)),
        VmTypeDef::Ref(_) => Slot::Reference(None),
        VmTypeDef::AnyRef => Slot::Reference(None),
    }
}

pub fn default_slot(t: &VmTypeDef) -> (s: Slot)
    ensures
        s == default_slot_spec(*t),
{
    match t {
        VmTypeDef::Variant => Slot::Empty,
        VmTypeDef::Value(k) => Slot::Value(VmValue::zero_of(*k)),
        VmTypeDef::Ref(_) => Slot::Reference(None),
        VmTypeDef::AnyRef => Slot::Reference(None),
    }
}

/// How many of the slots hold a reference to pool entry `o`.
pub open spec fn ref_occurrences(slots: Seq<Slot>, o: int) -> nat
    decreases slots.len(),
{
    if slots.len() == 0 {
        0
    } else {
        ref_occurrences(slots.drop_last(), o) + slot_ref_contribution(slots.last(), o)
    }
}

/// 1 when the slot holds a reference to pool entry `o`, else 0.
pub open spec fn slot_ref_contribution(s: Slot, o: int) -> nat {
    match s {
        Slot::Reference(Some(r)) => if r.obj_id == o {
            1nat
        } else {
            0nat
        },
        _ => 0nat,
    }
}

/// Every reference among the slots points into the pool.
pub open spec fn slots_in_pool(slots: Seq<Slot>, pool_len: nat) -> bool {
    forall|i: int| 0 <= i < slots.len() ==> ((#[trigger] slots[i]) matches Slot::Reference(Some(r))
        ==> r.obj_id < pool_len)
}

/// The pool can give up one handle per reference among the slots: each
/// entry's count covers the handles held there.
pub open spec fn can_release(bufs: Seq<BufferObject>, slots: Seq<Slot>) -> bool {
    &&& slots_in_pool(slots, bufs.len())
    &&& forall|o: int| 0 <= o < bufs.len() ==> ref_occurrences(slots, o) <= (
        #[trigger] bufs[o].refcount)
}

/// The pool can take one more handle per reference among the slots without
/// a count overflowing.
pub open spec fn can_retain(bufs: Seq<BufferObject>, slots: Seq<Slot>) -> bool {
    &&& slots_in_pool(slots, bufs.len())
    &&& forall|o: int| 0 <= o < bufs.len() ==> (#[trigger] bufs[o].refcount) + ref_occurrences(
        slots,
        o,
    ) <= usize::MAX
    &&& forall|i: int| 0 <= i < slots.len() ==> ((#[trigger] slots[i]) matches Slot::Reference(
        Some(r),
    ) ==> bufs[r.obj_id as int].refcount > 0)
}

/// The new pool relates to the old by the slots' handles given up: each
/// count dropped by the occurrences there, objects and registry untouched.
pub open spec fn pool_released(new: Instance, old_i: Instance, slots: Seq<Slot>) -> bool {
    &&& new.id == old_i.id
    &&& new.types@ == old_i.types@
    &&& new.drivers@ == old_i.drivers@
    &&& new.buffers@.len() == old_i.buffers@.len()
    &&& forall|o: int| 0 <= o < old_i.buffers@.len() ==> #[trigger] new.buffers@[o] == (
        BufferObject {
            refcount: (old_i.buffers@[o].refcount - ref_occurrences(slots, o)) as usize,
            element_type: old_i.buffers@[o].element_type,
            encoding: old_i.buffers@[o].encoding,
            shape: old_i.buffers@[o].shape,
            data: old_i.buffers@[o].data,
        })
}

/// The new pool relates to the old by one handle taken per reference among
/// the slots.
pub open spec fn pool_retained(new: Instance, old_i: Instance, slots: Seq<Slot>) -> bool {
    &&& new.id == old_i.id
    &&& new.types@ == old_i.types@
    &&& new.drivers@ == old_i.drivers@
    &&& new.buffers@.len() == old_i.buffers@.len()
    &&& forall|o: int| 0 <= o < old_i.buffers@.len() ==> #[trigger] new.buffers@[o] == (
        BufferObject {
            refcount: (old_i.buffers@[o].refcount + ref_occurrences(slots, o)) as usize,
            element_type: old_i.buffers@[o].element_type,
            encoding: old_i.buffers@[o].encoding,
            shape: old_i.buffers@[o].shape,
            data: old_i.buffers@[o].data,
        })
}

/// Occurrence counting can also be read off the front of the slots.
pub proof fn lemma_occurrences_drop_first(slots: Seq<Slot>, o: int)
    requires
        slots.len() > 0,
    ensures
        ref_occurrences(slots, o) == slot_ref_contribution(slots[0], o) + ref_occurrences(
            slots.drop_first(),
            o,
        ),
    decreases slots.len(),
{
    if slots.len() == 1 {
        assert(slots.drop_first() =~= slots.drop_last());
    } else {
        lemma_occurrences_drop_first(slots.drop_last(), o);
        assert(slots.drop_first().drop_last() =~= slots.drop_last().drop_first());
        assert(slots.drop_first().last() == slots.last());
    }
}

/// Gives up one handle per reference in `slots[from..to]`.
fn release_range(instance: &mut Instance, slots: &Vec<Slot>, from: usize, to: usize)
    requires
        from <= to <= slots@.len(),
        can_release(old(instance).buffers@, slots@.subrange(from as int, to as int)),
    ensures
        pool_released(*final(instance), *old(instance), slots@.subrange(from as int, to as int)),
{
    let ghost whole = slots@.subrange(from as int, to as int);
    let ghost inst0 = *instance;
    let mut i: usize = from;
    while i < to
        invariant
            from <= i <= to <= slots@.len(),
            whole == slots@.subrange(from as int, to as int),
            inst0 == *old(instance),
            pool_released(*instance, inst0, slots@.subrange(from as int, i as int)),
            can_release(instance.buffers@, slots@.subrange(i as int, to as int)),
            forall|o: int| 0 <= o < inst0.buffers@.len() ==> ref_occurrences(
                slots@.subrange(from as int, i as int),
                o,
            ) <= (#[trigger] inst0.buffers@[o].refcount),
        decreases to - i,
    {
        let ghost cur0 = *instance;
        let ghost prefix = slots@.subrange(from as int, i as int);
        let ghost prefix1 = slots@.subrange(from as int, i + 1);
        let ghost suffix = slots@.subrange(i as int, to as int);
        let ghost suffix2 = slots@.subrange(i + 1, to as int);
        let ghost step_slot = slots@[i as int];
        proof {
            assert(suffix.len() > 0);
            assert(suffix[0] == step_slot);
            assert(suffix.drop_first() =~= suffix2);
            assert forall|o: int| true implies ref_occurrences(suffix, o)
                == slot_ref_contribution(step_slot, o) + ref_occurrences(suffix2, o) by {
                lemma_occurrences_drop_first(suffix, o);
            }
            assert(prefix1.drop_last() =~= prefix);
            assert(prefix1.last() == step_slot);
        }
        let s = slots[i];
        match s {
            Slot::Reference(opt) => {
                match opt {
                    Some(r) => {
                        proof {
                            assert(slot_ref_contribution(step_slot, r.obj_id as int) == 1);
                            assert(ref_occurrences(suffix, r.obj_id as int) >= 1);
                        }
                        instance.release_object(r.obj_id);
                    },
                    None => {},
                }
            },
            _ => {},
        }
        proof {
            assert forall|o: int| 0 <= o < inst0.buffers@.len() implies instance.buffers@[o] == (
                BufferObject {
                    refcount: (inst0.buffers@[o].refcount - ref_occurrences(prefix1, o)) as usize,
                    element_type: inst0.buffers@[o].element_type,
                    encoding: inst0.buffers@[o].encoding,
                    shape: inst0.buffers@[o].shape,
                    data: inst0.buffers@[o].data,
                }) by {
                assert(cur0.buffers@[o] == (BufferObject {
                    refcount: (inst0.buffers@[o].refcount - ref_occurrences(prefix, o)) as usize,
                    element_type: inst0.buffers@[o].element_type,
                    encoding: inst0.buffers@[o].encoding,
                    shape: inst0.buffers@[o].shape,
                    data: inst0.buffers@[o].data,
                }));
                assert(ref_occurrences(prefix1, o) == ref_occurrences(prefix, o)
                    + slot_ref_contribution(step_slot, o));
                assert(ref_occurrences(suffix, o) == slot_ref_contribution(step_slot, o)
                    + ref_occurrences(suffix2, o));
                assert(ref_occurrences(suffix, o) <= cur0.buffers@[o].refcount);
                assert(ref_occurrences(prefix, o) <= inst0.buffers@[o].refcount);
            }
            assert forall|o: int| 0 <= o < inst0.buffers@.len() implies ref_occurrences(
                prefix1,
                o,
            ) <= inst0.buffers@[o].refcount by {
                assert(ref_occurrences(prefix1, o) == ref_occurrences(prefix, o)
                    + slot_ref_contribution(step_slot, o));
                assert(ref_occurrences(suffix, o) == slot_ref_contribution(step_slot, o)
                    + ref_occurrences(suffix2, o));
                assert(ref_occurrences(suffix, o) <= cur0.buffers@[o].refcount);
                assert(ref_occurrences(prefix, o) <= inst0.buffers@[o].refcount);
                assert(cur0.buffers@[o] == (BufferObject {
                    refcount: (inst0.buffers@[o].refcount - ref_occurrences(prefix, o)) as usize,
                    element_type: inst0.buffers@[o].element_type,
                    encoding: inst0.buffers@[o].encoding,
                    shape: inst0.buffers@[o].shape,
                    data: inst0.buffers@[o].data,
                }));
            }
            assert forall|o: int| 0 <= o < instance.buffers@.len() implies ref_occurrences(
                suffix2,
                o,
            ) <= instance.buffers@[o].refcount by {
                assert(cur0.buffers@[o] == (BufferObject {
                    refcount: (inst0.buffers@[o].refcount - ref_occurrences(prefix, o)) as usize,
                    element_type: inst0.buffers@[o].element_type,
                    encoding: inst0.buffers@[o].encoding,
                    shape: inst0.buffers@[o].shape,
                    data: inst0.buffers@[o].data,
                }));
                assert(ref_occurrences(suffix, o) == slot_ref_contribution(step_slot, o)
                    + ref_occurrences(suffix2, o));
                assert(ref_occurrences(suffix, o) <= cur0.buffers@[o].refcount);
                assert(ref_occurrences(prefix, o) <= inst0.buffers@[o].refcount);
            }
            assert(pool_released(*instance, inst0, prefix1));
            assert(can_release(instance.buffers@, suffix2));
        }
        i = i + 1;
    }
    proof {
        assert(slots@.subrange(i as int, to as int).len() == 0);
    }
}

/// Takes one more handle per reference in `slots[from..to]`.
fn retain_range(instance: &mut Instance, slots: &Vec<Slot>, from: usize, to: usize)
    requires
        from <= to <= slots@.len(),
        can_retain(old(instance).buffers@, slots@.subrange(from as int, to as int)),
    ensures
        pool_retained(*final(instance), *old(instance), slots@.subrange(from as int, to as int)),
{
    let ghost whole = slots@.subrange(from as int, to as int);
    let ghost inst0 = *instance;
    let mut i: usize = from;
    while i < to
        invariant
            from <= i <= to <= slots@.len(),
            whole == slots@.subrange(from as int, to as int),
            inst0 == *old(instance),
            pool_retained(*instance, inst0, slots@.subrange(from as int, i as int)),
            can_retain(instance.buffers@, slots@.subrange(i as int, to as int)),
            forall|o: int| 0 <= o < inst0.buffers@.len() ==> (
                #[trigger] inst0.buffers@[o].refcount) + ref_occurrences(
                slots@.subrange(from as int, i as int),
                o,
            ) <= usize::MAX,
        decreases to - i,
    {
        let ghost cur0 = *instance;
        let ghost prefix = slots@.subrange(from as int, i as int);
        let ghost prefix1 = slots@.subrange(from as int, i + 1);
        let ghost suffix = slots@.subrange(i as int, to as int);
        let ghost suffix2 = slots@.subrange(i + 1, to as int);
        let ghost step_slot = slots@[i as int];
        proof {
            assert(suffix.len() > 0);
            assert(suffix[0] == step_slot);
            assert(suffix.drop_first() =~= suffix2);
            assert forall|o: int| true implies ref_occurrences(suffix, o)
                == slot_ref_contribution(step_slot, o) + ref_occurrences(suffix2, o) by {
                lemma_occurrences_drop_first(suffix, o);
            }
            assert(prefix1.drop_last() =~= prefix);
            assert(prefix1.last() == step_slot);
        }
        let s = slots[i];
        match s {
            Slot::Reference(opt) => {
                match opt {
                    Some(r) => {
                        proof {
                            assert(slot_ref_contribution(step_slot, r.obj_id as int) == 1);
                            assert(ref_occurrences(suffix, r.obj_id as int) >= 1);
                        }
                        instance.retain_object(r.obj_id);
                    },
                    None => {},
                }
            },
            _ => {},
        }
        proof {
            assert forall|o: int| 0 <= o < inst0.buffers@.len() implies instance.buffers@[o] == (
                BufferObject {
                    refcount: (inst0.buffers@[o].refcount + ref_occurrences(prefix1, o)) as usize,
                    element_type: inst0.buffers@[o].element_type,
                    encoding: inst0.buffers@[o].encoding,
                    shape: inst0.buffers@[o].shape,
                    data: inst0.buffers@[o].data,
                }) by {
                assert(cur0.buffers@[o] == (BufferObject {
                    refcount: (inst0.buffers@[o].refcount + ref_occurrences(prefix, o)) as usize,
                    element_type: inst0.buffers@[o].element_type,
                    encoding: inst0.buffers@[o].encoding,
                    shape: inst0.buffers@[o].shape,
                    data: inst0.buffers@[o].data,
                }));
                assert(ref_occurrences(prefix1, o) == ref_occurrences(prefix, o)
                    + slot_ref_contribution(step_slot, o));
                assert(ref_occurrences(suffix, o) == slot_ref_contribution(step_slot, o)
                    + ref_occurrences(suffix2, o));
                assert(cur0.buffers@[o].refcount + ref_occurrences(suffix, o) <= usize::MAX);
                assert(inst0.buffers@[o].refcount + ref_occurrences(prefix, o) <= usize::MAX);
            }
            assert forall|o: int| 0 <= o < inst0.buffers@.len() implies inst0.buffers@[
                o
            ].refcount + ref_occurrences(prefix1, o) <= usize::MAX by {
                assert(ref_occurrences(prefix1, o) == ref_occurrences(prefix, o)
                    + slot_ref_contribution(step_slot, o));
                assert(ref_occurrences(suffix, o) == slot_ref_contribution(step_slot, o)
                    + ref_occurrences(suffix2, o));
                assert(cur0.buffers@[o].refcount + ref_occurrences(suffix, o) <= usize::MAX);
                assert(inst0.buffers@[o].refcount + ref_occurrences(prefix, o) <= usize::MAX);
                assert(cur0.buffers@[o] == (BufferObject {
                    refcount: (inst0.buffers@[o].refcount + ref_occurrences(prefix, o)) as usize,
                    element_type: inst0.buffers@[o].element_type,
                    encoding: inst0.buffers@[o].encoding,
                    shape: inst0.buffers@[o].shape,
                    data: inst0.buffers@[o].data,
                }));
            }
            assert forall|o: int| 0 <= o < instance.buffers@.len() implies instance.buffers@[
                o
            ].refcount + ref_occurrences(suffix2, o) <= usize::MAX by {
                assert(cur0.buffers@[o] == (BufferObject {
                    refcount: (inst0.buffers@[o].refcount + ref_occurrences(prefix, o)) as usize,
                    element_type: inst0.buffers@[o].element_type,
                    encoding: inst0.buffers@[o].encoding,
                    shape: inst0.buffers@[o].shape,
                    data: inst0.buffers@[o].data,
                }));
                assert(ref_occurrences(suffix, o) == slot_ref_contribution(step_slot, o)
                    + ref_occurrences(suffix2, o));
                assert(cur0.buffers@[o].refcount + ref_occurrences(suffix, o) <= usize::MAX);
                assert(inst0.buffers@[o].refcount + ref_occurrences(prefix, o) <= usize::MAX);
            }
            assert forall|j: int| 0 <= j < suffix2.len() implies ((#[trigger] suffix2[j]) matches
                Slot::Reference(Some(r)) ==> instance.buffers@[r.obj_id as int].refcount > 0) by {
                assert(suffix2[j] == suffix[j + 1]);
            }
            assert(pool_retained(*instance, inst0, prefix1));
            assert(can_retain(instance.buffers@, suffix2));
        }
        i = i + 1;
    }
    proof {
        assert(slots@.subrange(i as int, to as int).len() == 0);
    }
}


/// Whether a declared descriptor accepts a pushed or stored primitive of
/// the given kind.
pub open spec fn accepts_value(t: VmTypeDef, k: ValueKind) -> bool {
    match t {
        VmTypeDef::Value(k2) => k2 == k,
        VmTypeDef::Variant => true,
        _ => false,
    }
}

/// Whether a declared descriptor accepts a pushed reference of the given
/// type tag.
pub open spec fn accepts_ref(t: VmTypeDef, tag: u64) -> bool {
    match t {
        VmTypeDef::Ref(t2) => t2 == tag,
        VmTypeDef::AnyRef => true,
        VmTypeDef::Variant => true,
        _ => false,
    }
}

/// The slots after a resize: truncated, or padded with the kind's default.
pub open spec fn resize_model(slots: Seq<Slot>, n: nat, d: Slot) -> Seq<Slot> {
    if n <= slots.len() {
        slots.subrange(0, n as int)
    } else {
        slots + Seq::new((n - slots.len()) as nat, |j: int| d)
    }
}

/// The primitive a typed read returns from a slot position: the stored
/// value when the position holds a value of the requested kind, nothing
/// otherwise.
pub open spec fn value_at<T: ToValue>(slots: Seq<Slot>, i: int) -> Option<T> {
    if 0 <= i < slots.len() {
        match slots[i] {
            Slot::Value(v) => T::from_vm_spec(v),
            _ => None,
        }
    } else {
        None
    }
}

/// Integer widening between primitive kinds, as list reads with an
/// explicit target kind apply it: the identity on the same kind,
/// sign-extension to a wider integer kind; anything else — narrowing, or a
/// float on either side — is not converted.
pub open spec fn convert_value_spec(v: VmValue, k: ValueKind) -> Option<VmValue> {
    if v.kind() == k {
        Some(v)
    } else {
        match v {
            VmValue::I8(x) => match k {
                ValueKind::I16 => Some(VmValue::I16(x as i16)),
                ValueKind::I32 => Some(VmValue::I32(x as i32)),
                ValueKind::I64 => Some(VmValue::I64(x as i64)),
                _ => None,
            },
            VmValue::I16(x) => match k {
                ValueKind::I32 => Some(VmValue::I32(x as i32)),
                ValueKind::I64 => Some(VmValue::I64(x as i64)),
                _ => None,
            },
            VmValue::I32(x) => match k {
                ValueKind::I64 => Some(VmValue::I64(x as i64)),
                _ => None,
            },
            _ => None,
        }
    }
}

/// Applies the widening conversion.
pub fn convert_value(v: VmValue, k: ValueKind) -> (r: Option<VmValue>)
    ensures
        r == convert_value_spec(v, k),
        r matches Some(w) ==> w.kind() == k,
{
    let vk = v.kind_of();
    if vk == k {
        return Some(v);
    }
    match v {
        VmValue::I8(x) => match k {
            ValueKind::I16 => Some(VmValue::I16(x as i16)),
            ValueKind::I32 => Some(VmValue::I32(x as i32)),
            ValueKind::I64 => Some(VmValue::I64(x as i64)),
            _ => None,
        },
        VmValue::I16(x) => match k {
            ValueKind::I32 => Some(VmValue::I32(x as i32)),
            ValueKind::I64 => Some(VmValue::I64(x as i64)),
            _ => None,
        },
        VmValue::I32(x) => match k {
            ValueKind::I64 => Some(VmValue::I64(x as i64)),
            _ => None,
        },
        _ => None,
    }
}

/// A growable, kind-checked container bound to one instance.  The declared
/// element descriptor fixes what every slot may hold; the capacity never
/// shrinks below what was asked for.
pub struct List {
    pub element_type: VmTypeDef,
    pub instance_id: u64,
    pub slots: Vec<Slot>,
    pub cap: usize,
}

impl View for List {
    type V = Seq<Slot>;

    open spec fn view(&self) -> Seq<Slot> {
        self.slots@
    }
}

impl List {
    /// Every slot obeys the declared descriptor, and the capacity covers
    /// the occupied slots.
    pub open spec fn wf(self) -> bool {
        &&& self.element_type.wf()
        &&& self.slots@.len() <= self.cap
        &&& forall|i: int| 0 <= i < self.slots@.len() ==> slot_ok(
            self.element_type,
            #[trigger] self.slots@[i],
        )
    }

    /// Creates a growable list declared to hold the given element
    /// descriptor, empty, with at least the asked-for capacity, bound to
    /// the instance whose registry defined the descriptor.
    pub fn create(element_type: &VmTypeDef, initial_capacity: usize, instance: &Instance) -> (r:
        Result<List, StatusError>)
        requires
            element_type.wf(),
        ensures
            r is Ok,
            r matches Ok(l) ==> {
                &&& l.wf()
                &&& l@ == Seq::<Slot>::empty()
                &&& l.element_type == *element_type
                &&& l.instance_id == instance.id
                &&& l.cap == initial_capacity
            },
    {
        Ok(List {
            element_type: *element_type,
            instance_id: instance.id,
            slots: Vec::new(),
            cap: initial_capacity,
        })
    }

    /// The element descriptor the list was declared with.
    pub fn element_type(&self) -> (r: VmTypeDef)
        ensures
            r == self.element_type,
    {
        self.element_type
    }

    /// The number of elements the list can hold before growing.
    pub fn capacity(&self) -> (r: usize)
        ensures
            r == self.cap,
    {
        self.cap
    }

    /// The number of elements in the list.
    pub fn size(&self) -> (r: usize)
        ensures
            r == self@.len(),
    {
        self.slots.len()
    }

    /// Reserves storage for at least the given number of elements; the
    /// capacity never decreases.
    pub fn reserve(&mut self, minimum_capacity: usize)
        ensures
            final(self).element_type == old(self).element_type,
            final(self).instance_id == old(self).instance_id,
            final(self)@ == old(self)@,
            final(self).cap == vstd::math::max(old(self).cap as int, minimum_capacity as int),
            old(self).wf() ==> final(self).wf(),
    {
        if minimum_capacity > self.cap {
            self.cap = minimum_capacity;
        }
    }

    /// Pushes a primitive to the end of the list.  The value's kind must be
    /// the declared one (or the list declared variants); a mismatch is
    /// rejected as invalid and changes nothing.
    pub fn push_value<T: ToValue>(&mut self, value: T) -> (r: Result<(), StatusError>)
        requires
            old(self).wf(),
        ensures
            accepts_value(old(self).element_type, T::value_kind()) <==> r is Ok,
            r is Ok ==> {
                &&& final(self)@ == old(self)@.push(Slot::Value(value.to_vm_spec()))
                &&& final(self).element_type == old(self).element_type
                &&& final(self).instance_id == old(self).instance_id
                &&& final(self).cap == vstd::math::max(
                    old(self).cap as int,
                    old(self)@.len() as int + 1,
                )
                &&& final(self).wf()
            },
            r is Err ==> *final(self) == *old(self),
            r matches Err(e) ==> e.wf() && e.kind_spec() == (StatusErrorKind::InvalidArgument),
    {
        let accepted = match &self.element_type {
            VmTypeDef::Value(k) => *k == T::to_value_type(),
            VmTypeDef::Variant => true,
            _ => false,
        };
        if !accepted {
            return Err(StatusError::from_kind(StatusErrorKind::InvalidArgument));
        }
        let v = value.to_value();
        proof {
            value.lemma_vm_round_trip();
        }
        self.slots.push(Slot::Value(v.raw));
        if self.slots.len() > self.cap {
            self.cap = self.slots.len();
        }
        Ok(())
    }

    /// Reads the primitive at the given index at the caller's kind.  An
    /// index outside the list is out of range; a slot that holds no
    /// primitive is invalid; a primitive of another kind is a type
    /// mismatch — never reinterpreted.
    pub fn get_value<T: ToValue>(&self, index: usize) -> (r: Result<T, RuntimeError>)
        requires
            self.wf(),
        ensures
            r matches Ok(x) ==> value_at::<T>(self@, index as int) == Some(x),
            index >= self@.len() ==> (r matches Err(e) && e matches RuntimeError::StatusError(s)
                && s.kind_spec() == (StatusErrorKind::OutOfRange)),
            index < self@.len() && !(self@[index as int] is Value) ==> (r matches Err(e)
                && e matches RuntimeError::StatusError(s) && s.kind_spec() == (
                StatusErrorKind::InvalidArgument)),
            index < self@.len() ==> ((self@[index as int]) matches Slot::Value(v) ==> (
                if v.kind() == T::value_kind() {
                    r matches Ok(x) && Some(x) == T::from_vm_spec(v)
                } else {
                    r == Err::<T, RuntimeError>(RuntimeError::ValueTypeMismatch)
                }
            )),
    {
        if index >= self.slots.len() {
            return Err(RuntimeError::StatusError(StatusError::from_kind(
                StatusErrorKind::OutOfRange,
            )));
        }
        let s = self.slots[index];
        match s {
            Slot::Value(v) => {
                proof {
                    T::lemma_vm_mismatch(v);
                }
                match T::try_from_vm(&v) {
                    Some(x) => Ok(x),
                    None => Err(RuntimeError::ValueTypeMismatch),
                }
            },
            _ => Err(RuntimeError::StatusError(StatusError::from_kind(
                StatusErrorKind::InvalidArgument,
            ))),
        }
    }

    /// Reads the primitive at the given index at the caller's kind,
    /// widening the stored value to it if the stored kind is narrower.
    pub fn get_as<T: ToValue>(&self, index: usize) -> (r: Result<T, StatusError>)
        requires
            self.wf(),
        ensures
            index >= self@.len() ==> (r matches Err(s) && s.kind_spec() == (
                StatusErrorKind::OutOfRange)),
            index < self@.len() && !(self@[index as int] is Value) ==> (r matches Err(s)
                && s.kind_spec() == (StatusErrorKind::InvalidArgument)),
            index < self@.len() ==> ((self@[index as int]) matches Slot::Value(v) ==> (
                match convert_value_spec(v, T::value_kind()) {
                    Some(w) => r matches Ok(x) && Some(x) == T::from_vm_spec(w),
                    None => r matches Err(s) && s.kind_spec() == (
                        StatusErrorKind::InvalidArgument),
                }
            )),
    {
        if index >= self.slots.len() {
            return Err(StatusError::from_kind(StatusErrorKind::OutOfRange));
        }
        let s = self.slots[index];
        match s {
            Slot::Value(v) => {
                match convert_value(v, T::to_value_type()) {
                    Some(w) => {
                        proof {
                            T::lemma_vm_mismatch(w);
                        }
                        match T::try_from_vm(&w) {
                            Some(x) => Ok(x),
                            None => Err(StatusError::from_kind(StatusErrorKind::InvalidArgument)),
                        }
                    },
                    None => Err(StatusError::from_kind(StatusErrorKind::InvalidArgument)),
                }
            },
            _ => Err(StatusError::from_kind(StatusErrorKind::InvalidArgument)),
        }
    }

    /// Replaces the slot at the given index with a primitive of the
    /// caller's kind.  The kind must be admissible under the declaration;
    /// a replaced reference gives its handle back to the pool.
    pub fn set_value<T: ToValue>(
        &mut self,
        instance: &mut Instance,
        index: usize,
        value: T,
    ) -> (r: Result<(), StatusError>)
        requires
            old(self).wf(),
            index < old(self)@.len() ==> ((old(self)@[index as int]) matches Slot::Reference(
                Some(re),
            ) ==> old(instance).object_live(re.obj_id as int)),
        ensures
            index >= old(self)@.len() ==> (r matches Err(s) && s.kind_spec() == (
                StatusErrorKind::OutOfRange)),
            index < old(self)@.len() && !accepts_value(old(self).element_type, T::value_kind())
                ==> (r matches Err(s) && s.kind_spec() == (StatusErrorKind::InvalidArgument)),
            index < old(self)@.len() && accepts_value(old(self).element_type, T::value_kind())
                ==> {
                &&& r is Ok
                &&& final(self)@ == old(self)@.update(
                    index as int,
                    Slot::Value(value.to_vm_spec()),
                )
                &&& final(self).element_type == old(self).element_type
                &&& final(self).instance_id == old(self).instance_id
                &&& final(self).cap == old(self).cap
                &&& final(self).wf()
                &&& ((old(self)@[index as int]) matches Slot::Reference(Some(re))
                    ==> final(instance).releases_one(*old(instance), re.obj_id as int))
                &&& (!((old(self)@[index as int]) is Reference
                    && (old(self)@[index as int])->Reference_0 is Some)
                    ==> *final(instance) == *old(instance))
            },
            r is Err ==> *final(self) == *old(self) && *final(instance) == *old(instance),
    {
        if index >= self.slots.len() {
            return Err(StatusError::from_kind(StatusErrorKind::OutOfRange));
        }
        let accepted = match &self.element_type {
            VmTypeDef::Value(k) => *k == T::to_value_type(),
            VmTypeDef::Variant => true,
            _ => false,
        };
        if !accepted {
            return Err(StatusError::from_kind(StatusErrorKind::InvalidArgument));
        }
        let prev = self.slots[index];
        match prev {
            Slot::Reference(opt) => {
                match opt {
                    Some(re) => {
                        instance.release_object(re.obj_id);
                    },
                    None => {},
                }
            },
            _ => {},
        }
        let v = value.to_value();
        proof {
            value.lemma_vm_round_trip();
        }
        self.slots.set(index, Slot::Value(v.raw));
        Ok(())
    }

    /// Resizes the list: truncates past the new size — giving the dropped
    /// references' handles back to the pool — or extends it with the
    /// declared kind's default: zero for primitives, null for references,
    /// empty for variants.
    pub fn resize(&mut self, instance: &mut Instance, new_size: usize)
        requires
            old(self).wf(),
            new_size < old(self)@.len() ==> can_release(
                old(instance).buffers@,
                old(self)@.subrange(new_size as int, old(self)@.len() as int),
            ),
        ensures
            final(self)@ == resize_model(
                old(self)@,
                new_size as nat,
                default_slot_spec(old(self).element_type),
            ),
            final(self).element_type == old(self).element_type,
            final(self).instance_id == old(self).instance_id,
            final(self).cap == vstd::math::max(old(self).cap as int, new_size as int),
            final(self).wf(),
            new_size < old(self)@.len() ==> pool_released(
                *final(instance),
                *old(instance),
                old(self)@.subrange(new_size as int, old(self)@.len() as int),
            ),
            new_size >= old(self)@.len() ==> *final(instance) == *old(instance),
    {
        if new_size < self.slots.len() {
            release_range(instance, &self.slots, new_size, self.slots.len());
            self.slots.truncate(new_size);
            proof {
                assert(self.slots@ =~= resize_model(
                    old(self)@,
                    new_size as nat,
                    default_slot_spec(old(self).element_type),
                ));
            }
        } else {
            let d = default_slot(&self.element_type);
            while self.slots.len() < new_size
                invariant
                    old(self)@.len() <= self.slots@.len() <= new_size,
                    d == default_slot_spec(old(self).element_type),
                    self.element_type == old(self).element_type,
                    self.instance_id == old(self).instance_id,
                    self.cap == old(self).cap,
                    self.slots@.subrange(0, old(self)@.len() as int) == old(self)@,
                    forall|j: int| old(self)@.len() <= j < self.slots@.len()
                        ==> #[trigger] self.slots@[j] == d,
                decreases new_size - self.slots@.len(),
            {
                self.slots.push(d);
                proof {
                    assert(self.slots@.subrange(0, old(self)@.len() as int) =~= old(self)@);
                }
            }
            proof {
                assert(self.slots@ =~= resize_model(
                    old(self)@,
                    new_size as nat,
                    default_slot_spec(old(self).element_type),
                ));
            }
        }
        if new_size > self.cap {
            self.cap = new_size;
        }
    }

    /// Clears the list: the same as resizing it to zero.
    pub fn clear(&mut self, instance: &mut Instance)
        requires
            old(self).wf(),
            can_release(old(instance).buffers@, old(self)@),
        ensures
            final(self)@ == Seq::<Slot>::empty(),
            final(self).element_type == old(self).element_type,
            final(self).instance_id == old(self).instance_id,
            final(self).cap == old(self).cap,
            final(self).wf(),
            old(self)@.len() > 0 ==> pool_released(*final(instance), *old(instance), old(self)@),
            old(self)@.len() == 0 ==> *final(instance) == *old(instance),
    {
        proof {
            assert(old(self)@.subrange(0, old(self)@.len() as int) =~= old(self)@);
        }
        self.resize(instance, 0);
    }

    /// Exchanges the two lists' backing storage — contents, declaration,
    /// capacity and binding — while each keeps its identity for its owner.
    pub fn swap_storage(&mut self, other: &mut List)
        ensures
            *final(self) == *old(other),
            *final(other) == *old(self),
    {
        core::mem::swap(self, other);
    }
}

/// A primitive pushed at one kind is read back unchanged at that kind from
/// the last index.
pub proof fn lemma_push_value_round_trip<T: ToValue>(slots: Seq<Slot>, v: T)
    ensures
        value_at::<T>(slots.push(Slot::Value(v.to_vm_spec())), slots.len() as int) == Some(v),
{
    v.lemma_vm_round_trip();
}

/// A primitive pushed at one kind reads back as nothing at any other kind:
/// the typed read fails rather than reinterpret.
pub proof fn lemma_push_value_kind_mismatch<T: ToValue, U: ToValue>(slots: Seq<Slot>, v: T)
    requires
        U::value_kind() != T::value_kind(),
    ensures
        value_at::<U>(slots.push(Slot::Value(v.to_vm_spec())), slots.len() as int) is None,
{
    v.lemma_vm_round_trip();
    U::lemma_vm_mismatch(v.to_vm_spec());
}

/// Shrinking a list and regrowing it to its former size restores
/// default-valued slots in the whole regrown region, and keeps the
/// surviving prefix.
pub proof fn lemma_resize_regrow(slots: Seq<Slot>, n: nat, m: nat, d: Slot)
    requires
        m < n,
    ensures
        ({
            let first = resize_model(slots, n, d);
            let shrunk = resize_model(first, m, d);
            let regrown = resize_model(shrunk, n, d);
            &&& regrown.len() == n
            &&& forall|j: int| 0 <= j < m ==> regrown[j] == first[j]
            &&& forall|j: int| m <= j < n ==> regrown[j] == d
        }),
{
    let first = resize_model(slots, n, d);
    let shrunk = resize_model(first, m, d);
    let regrown = resize_model(shrunk, n, d);
    assert(first.len() == n);
    assert(shrunk =~= first.subrange(0, m as int));
    assert(regrown =~= shrunk + Seq::new((n - m) as nat, |j: int| d));
}


impl List {
    /// Pushes a reference to the end of the list, retaining the referenced
    /// object.  The reference must come from the list's own instance —
    /// cross-instance use is rejected and touches neither side — and its
    /// type must be admissible under the declaration.
    pub fn push_ref(&mut self, instance: &mut Instance, vmref: &VmRef) -> (r: Result<
        (),
        RuntimeError,
    >)
        requires
            old(self).wf(),
            vmref.valid_in(*old(instance)) ==> old(instance).buffers@[vmref.obj_id as int].refcount
                < usize::MAX,
        ensures
            vmref.instance_id != old(self).instance_id ==> (r matches Err(e)
                && e is InstanceMismatch),
            vmref.instance_id == old(self).instance_id && old(instance).id != old(
                self,
            ).instance_id ==> (r matches Err(e) && e is InstanceMismatch),
            vmref.instance_id == old(self).instance_id && old(instance).id == old(
                self,
            ).instance_id && !accepts_ref(old(self).element_type, vmref.type_tag) ==> (
                r matches Err(e) && e matches RuntimeError::StatusError(st) && st.kind_spec() == (
                StatusErrorKind::InvalidArgument)),
            vmref.instance_id == old(self).instance_id && old(instance).id == old(
                self,
            ).instance_id && accepts_ref(old(self).element_type, vmref.type_tag) && !old(
                instance,
            ).object_live(vmref.obj_id as int) ==> (r matches Err(e)
                && e matches RuntimeError::StatusError(st) && st.kind_spec() == (
                StatusErrorKind::InvalidArgument)),
            r is Ok <==> (vmref.instance_id == old(self).instance_id && old(instance).id == old(
                self,
            ).instance_id && accepts_ref(old(self).element_type, vmref.type_tag) && old(
                instance,
            ).object_live(vmref.obj_id as int)),
            r is Ok ==> {
                &&& final(self)@ == old(self)@.push(Slot::Reference(Some(*vmref)))
                &&& final(self).element_type == old(self).element_type
                &&& final(self).instance_id == old(self).instance_id
                &&& final(self).cap == vstd::math::max(
                    old(self).cap as int,
                    old(self)@.len() as int + 1,
                )
                &&& final(self).wf()
                &&& final(instance).retains_one_more(*old(instance), vmref.obj_id as int)
            },
            r is Err ==> *final(self) == *old(self) && *final(instance) == *old(instance),
    {
        if vmref.instance_id != self.instance_id {
            return Err(RuntimeError::InstanceMismatch(String::from_str(
                "the reference must originate from the same instance as the list",
            )));
        }
        if instance.id != self.instance_id {
            return Err(RuntimeError::InstanceMismatch(String::from_str(
                "the list is not bound to this instance",
            )));
        }
        let accepted = match &self.element_type {
            VmTypeDef::Ref(t) => *t == vmref.type_tag,
            VmTypeDef::AnyRef => true,
            VmTypeDef::Variant => true,
            _ => false,
        };
        if !accepted {
            return Err(RuntimeError::StatusError(StatusError::from_kind(
                StatusErrorKind::InvalidArgument,
            )));
        }
        if !instance.buffer_is_live(vmref.obj_id) {
            return Err(RuntimeError::StatusError(StatusError::from_kind(
                StatusErrorKind::InvalidArgument,
            )));
        }
        instance.retain_object(vmref.obj_id);
        self.slots.push(Slot::Reference(Some(*vmref)));
        if self.slots.len() > self.cap {
            self.cap = self.slots.len();
        }
        Ok(())
    }

    /// Reads the reference at the given index, retaining a new handle for
    /// the caller.
    pub fn get_ref(&self, instance: &mut Instance, index: usize) -> (r: Result<
        VmRef,
        RuntimeError,
    >)
        requires
            self.wf(),
            index < self@.len() ==> ((self@[index as int]) matches Slot::Reference(Some(re)) ==> (
                old(instance).object_live(re.obj_id as int) ==> old(instance).buffers@[
                re.obj_id as int].refcount < usize::MAX)),
        ensures
            old(instance).id != self.instance_id ==> (r matches Err(e) && e is InstanceMismatch
                && *final(instance) == *old(instance)),
            old(instance).id == self.instance_id && index >= self@.len() ==> (r matches Err(e)
                && e matches RuntimeError::StatusError(st) && st.kind_spec() == (
                StatusErrorKind::OutOfRange) && *final(instance) == *old(instance)),
            old(instance).id == self.instance_id && index < self@.len() ==> (
                match self@[index as int] {
                    Slot::Reference(Some(re)) => {
                        if old(instance).object_live(re.obj_id as int) {
                            &&& r == Ok::<VmRef, RuntimeError>(re)
                            &&& final(instance).retains_one_more(*old(instance), re.obj_id as int)
                        } else {
                            &&& r matches Err(e) && e matches RuntimeError::StatusError(st)
                                && st.kind_spec() == (StatusErrorKind::InvalidArgument)
                            &&& *final(instance) == *old(instance)
                        }
                    },
                    _ => {
                        &&& r matches Err(e) && e matches RuntimeError::StatusError(st)
                            && st.kind_spec() == (StatusErrorKind::InvalidArgument)
                        &&& *final(instance) == *old(instance)
                    },
                }
            ),
    {
        if instance.id != self.instance_id {
            return Err(RuntimeError::InstanceMismatch(String::from_str(
                "the list is not bound to this instance",
            )));
        }
        if index >= self.slots.len() {
            return Err(RuntimeError::StatusError(StatusError::from_kind(
                StatusErrorKind::OutOfRange,
            )));
        }
        let s = self.slots[index];
        match s {
            Slot::Reference(opt) => {
                match opt {
                    Some(re) => {
                        if instance.buffer_is_live(re.obj_id) {
                            instance.retain_object(re.obj_id);
                            Ok(re)
                        } else {
                            Err(RuntimeError::StatusError(StatusError::from_kind(
                                StatusErrorKind::InvalidArgument,
                            )))
                        }
                    },
                    None => Err(RuntimeError::StatusError(StatusError::from_kind(
                        StatusErrorKind::InvalidArgument,
                    ))),
                }
            },
            _ => Err(RuntimeError::StatusError(StatusError::from_kind(
                StatusErrorKind::InvalidArgument,
            ))),
        }
    }

    /// A shallow copy: a new list with the same declaration and contents,
    /// capacity set to the size, every contained reference retained once
    /// more.
    pub fn shallow_clone(&self, instance: &mut Instance) -> (r: List)
        requires
            self.wf(),
            old(instance).id == self.instance_id,
            can_retain(old(instance).buffers@, self@),
        ensures
            r.wf(),
            r@ == self@,
            r.element_type == self.element_type,
            r.instance_id == self.instance_id,
            r.cap == self@.len(),
            pool_retained(*final(instance), *old(instance), self@),
    {
        let slots = vstd::slice::slice_to_vec(self.slots.as_slice());
        let n = self.slots.len();
        proof {
            assert(self.slots@.subrange(0, n as int) =~= self.slots@);
        }
        retain_range(instance, &self.slots, 0, n);
        List {
            element_type: self.element_type,
            instance_id: self.instance_id,
            slots,
            cap: n,
        }
    }
}

/// The pool after a block copy: each count raised by the handles the
/// copied-in slots take and lowered by the handles the overwritten slots
/// give up; objects and registry untouched.
pub open spec fn pool_adjusted(
    new: Instance,
    old_i: Instance,
    retained: Seq<Slot>,
    released: Seq<Slot>,
) -> bool {
    &&& new.id == old_i.id
    &&& new.types@ == old_i.types@
    &&& new.drivers@ == old_i.drivers@
    &&& new.buffers@.len() == old_i.buffers@.len()
    &&& forall|o: int| 0 <= o < old_i.buffers@.len() ==> #[trigger] new.buffers@[o] == (
        BufferObject {
            refcount: (old_i.buffers@[o].refcount + ref_occurrences(retained, o)
                - ref_occurrences(released, o)) as usize,
            element_type: old_i.buffers@[o].element_type,
            encoding: old_i.buffers@[o].encoding,
            shape: old_i.buffers@[o].shape,
            data: old_i.buffers@[o].data,
        })
}

/// Whether a block copy between the two declarations is permitted:
/// identical element kinds, or any kind into a variant destination.
pub open spec fn copy_compatible(src_t: VmTypeDef, dst_t: VmTypeDef) -> bool {
    dst_t is Variant || src_t == dst_t
}

/// Copies `count` elements from `src` starting at `src_i` into `dst`
/// starting at `dst_i`.  Both ranges must be in bounds and the element
/// kinds compatible — identical, or a variant destination; otherwise
/// nothing changes.  Copied references are retained, overwritten ones
/// released.
pub fn list_copy(
    src: &List,
    src_i: usize,
    dst: &mut List,
    dst_i: usize,
    count: usize,
    instance: &mut Instance,
) -> (r: Result<(), StatusError>)
    requires
        src.wf(),
        old(dst).wf(),
        can_retain(old(instance).buffers@, src@),
        can_release(old(instance).buffers@, old(dst)@),
    ensures
        r is Ok <==> (src_i + count <= src@.len() && dst_i + count <= old(dst)@.len()
            && copy_compatible(src.element_type, old(dst).element_type)),
        r matches Err(e) ==> e.wf() && (e.kind_spec() == (StatusErrorKind::OutOfRange)
            || e.kind_spec() == (StatusErrorKind::InvalidArgument)),
        r is Err ==> *final(dst) == *old(dst) && *final(instance) == *old(instance),
        r is Ok ==> {
            &&& final(dst)@.len() == old(dst)@.len()
            &&& forall|j: int| 0 <= j < count ==> #[trigger] final(dst)@[dst_i + j] == src@[src_i
                + j]
            &&& forall|j: int| 0 <= j < old(dst)@.len() && !(dst_i <= j < dst_i + count)
                ==> #[trigger] final(dst)@[j] == old(dst)@[j]
            &&& final(dst).element_type == old(dst).element_type
            &&& final(dst).instance_id == old(dst).instance_id
            &&& final(dst).cap == old(dst).cap
            &&& final(dst).wf()
            &&& pool_adjusted(
                *final(instance),
                *old(instance),
                src@.subrange(src_i as int, src_i + count),
                old(dst)@.subrange(dst_i as int, dst_i + count),
            )
        },
{
    if count > src.slots.len() || src_i > src.slots.len() - count {
        return Err(StatusError::from_kind(StatusErrorKind::OutOfRange));
    }
    if count > dst.slots.len() || dst_i > dst.slots.len() - count {
        return Err(StatusError::from_kind(StatusErrorKind::OutOfRange));
    }
    let compatible = match &dst.element_type {
        VmTypeDef::Variant => true,
        _ => dst.element_type == src.element_type,
    };
    if !compatible {
        return Err(StatusError::from_kind(StatusErrorKind::InvalidArgument));
    }
    let ghost src_range = src@.subrange(src_i as int, src_i + count);
    let ghost dst_range = old(dst)@.subrange(dst_i as int, dst_i + count);
    proof {
        lemma_can_retain_subrange(old(instance).buffers@, src@, src_i as int, src_i + count);
        lemma_can_release_subrange(old(instance).buffers@, old(dst)@, dst_i as int, dst_i + count);
    }
    retain_range(instance, &src.slots, src_i, src_i + count);
    let ghost mid = *instance;
    proof {
        lemma_release_after_retain(*old(instance), mid, src_range, dst_range);
    }
    release_range(instance, &dst.slots, dst_i, dst_i + count);
    proof {
        lemma_pool_adjusted_compose(
            *old(instance),
            mid,
            *instance,
            src_range,
            dst_range,
        );
    }
    let mut j: usize = 0;
    while j < count
        invariant
            0 <= j <= count,
            src_i + count <= src.slots@.len(),
            dst_i + count <= dst.slots@.len(),
            dst.slots@.len() == old(dst)@.len(),
            src.wf(),
            copy_compatible(src.element_type, dst.element_type),
            dst.element_type == old(dst).element_type,
            dst.instance_id == old(dst).instance_id,
            dst.cap == old(dst).cap,
            old(dst).wf(),
            forall|k: int| 0 <= k < j ==> #[trigger] dst.slots@[dst_i + k] == src.slots@[src_i
                + k],
            forall|k: int| 0 <= k < dst.slots@.len() && !(dst_i <= k < dst_i + j)
                ==> #[trigger] dst.slots@[k] == old(dst)@[k],
        decreases count - j,
    {
        let slot = src.slots[src_i + j];
        dst.slots.set(dst_i + j, slot);
        j = j + 1;
    }
    proof {
        assert forall|i: int| 0 <= i < dst.slots@.len() implies slot_ok(
            dst.element_type,
            #[trigger] dst.slots@[i],
        ) by {
            if dst_i <= i < dst_i + count {
                let k = i - dst_i;
                assert(dst.slots@[dst_i + k] == src.slots@[src_i + k]);
                assert(slot_ok(src.element_type, src.slots@[src_i + k]));
            } else {
                assert(dst.slots@[i] == old(dst)@[i]);
                assert(slot_ok(old(dst).element_type, old(dst).slots@[i]));
            }
        }
    }
    Ok(())
}

/// A pool that can take a handle per reference in the whole slot sequence
/// can take one per reference in any subrange of it.
pub proof fn lemma_can_retain_subrange(bufs: Seq<BufferObject>, slots: Seq<Slot>, a: int, b: int)
    requires
        can_retain(bufs, slots),
        0 <= a <= b <= slots.len(),
    ensures
        can_retain(bufs, slots.subrange(a, b)),
{
    lemma_occurrences_subrange_le(slots, a, b);
    assert forall|o: int| 0 <= o < bufs.len() implies bufs[o].refcount + ref_occurrences(
        slots.subrange(a, b),
        o,
    ) <= usize::MAX by {
        lemma_occurrences_subrange_le(slots, a, b);
        assert(ref_occurrences(slots.subrange(a, b), o) <= ref_occurrences(slots, o));
    }
    assert forall|i: int| 0 <= i < slots.subrange(a, b).len() implies ((
    #[trigger] slots.subrange(a, b)[i]) matches Slot::Reference(Some(r))
        ==> bufs[r.obj_id as int].refcount > 0) by {
        assert(slots.subrange(a, b)[i] == slots[a + i]);
    }
    assert forall|i: int| 0 <= i < slots.subrange(a, b).len() implies ((
    #[trigger] slots.subrange(a, b)[i]) matches Slot::Reference(Some(r)) ==> r.obj_id
        < bufs.len()) by {
        assert(slots.subrange(a, b)[i] == slots[a + i]);
    }
}

/// Likewise for giving handles up.
pub proof fn lemma_can_release_subrange(bufs: Seq<BufferObject>, slots: Seq<Slot>, a: int, b: int)
    requires
        can_release(bufs, slots),
        0 <= a <= b <= slots.len(),
    ensures
        can_release(bufs, slots.subrange(a, b)),
{
    assert forall|o: int| 0 <= o < bufs.len() implies ref_occurrences(slots.subrange(a, b), o)
        <= bufs[o].refcount by {
        lemma_occurrences_subrange_le(slots, a, b);
        assert(ref_occurrences(slots.subrange(a, b), o) <= ref_occurrences(slots, o));
    }
    assert forall|i: int| 0 <= i < slots.subrange(a, b).len() implies ((
    #[trigger] slots.subrange(a, b)[i]) matches Slot::Reference(Some(r)) ==> r.obj_id
        < bufs.len()) by {
        assert(slots.subrange(a, b)[i] == slots[a + i]);
    }
}

/// A subrange holds no more references to any object than the whole.
pub proof fn lemma_occurrences_subrange_le(slots: Seq<Slot>, a: int, b: int)
    requires
        0 <= a <= b <= slots.len(),
    ensures
        forall|o: int| ref_occurrences(slots.subrange(a, b), o) <= #[trigger] ref_occurrences(
            slots,
            o,
        ),
{
    assert forall|o: int| ref_occurrences(slots.subrange(a, b), o) <= #[trigger] ref_occurrences(
        slots,
        o,
    ) by {
        lemma_occurrences_concat(slots.subrange(0, a), slots.subrange(a, b), o);
        lemma_occurrences_concat(slots.subrange(0, b), slots.subrange(b, slots.len() as int), o);
        assert(slots.subrange(0, a) + slots.subrange(a, b) =~= slots.subrange(0, b));
        assert(slots.subrange(0, b) + slots.subrange(b, slots.len() as int) =~= slots);
    }
}

/// Occurrences add up over concatenation.
pub proof fn lemma_occurrences_concat(a: Seq<Slot>, b: Seq<Slot>, o: int)
    ensures
        ref_occurrences(a + b, o) == ref_occurrences(a, o) + ref_occurrences(b, o),
    decreases b.len(),
{
    if b.len() == 0 {
        assert(a + b =~= a);
    } else {
        lemma_occurrences_concat(a, b.drop_last(), o);
        assert((a + b).drop_last() =~= a + b.drop_last());
        assert((a + b).last() == b.last());
    }
}

/// After handles were taken for one slot range, a pool that could give up
/// another range's handles still can.
pub proof fn lemma_release_after_retain(
    orig: Instance,
    mid: Instance,
    retained: Seq<Slot>,
    released: Seq<Slot>,
)
    requires
        pool_retained(mid, orig, retained),
        can_retain(orig.buffers@, retained),
        can_release(orig.buffers@, released),
    ensures
        can_release(mid.buffers@, released),
{
    assert forall|o: int| 0 <= o < mid.buffers@.len() implies ref_occurrences(released, o) <= (
    #[trigger] mid.buffers@[o].refcount) by {
        assert(mid.buffers@[o] == (BufferObject {
            refcount: (orig.buffers@[o].refcount + ref_occurrences(retained, o)) as usize,
            element_type: orig.buffers@[o].element_type,
            encoding: orig.buffers@[o].encoding,
            shape: orig.buffers@[o].shape,
            data: orig.buffers@[o].data,
        }));
        assert(orig.buffers@[o].refcount + ref_occurrences(retained, o) <= usize::MAX);
        assert(ref_occurrences(released, o) <= orig.buffers@[o].refcount);
    }
    assert forall|i: int| 0 <= i < released.len() implies ((#[trigger] released[i]) matches
        Slot::Reference(Some(r)) ==> r.obj_id < mid.buffers@.len()) by {
        assert(mid.buffers@.len() == orig.buffers@.len());
    }
}

/// Retaining one range and then releasing another adjusts every count by
/// the difference.
pub proof fn lemma_pool_adjusted_compose(
    orig: Instance,
    mid: Instance,
    fin: Instance,
    retained: Seq<Slot>,
    released: Seq<Slot>,
)
    requires
        pool_retained(mid, orig, retained),
        pool_released(fin, mid, released),
        can_retain(orig.buffers@, retained),
        can_release(orig.buffers@, released),
    ensures
        pool_adjusted(fin, orig, retained, released),
{
    assert forall|o: int| 0 <= o < orig.buffers@.len() implies #[trigger] fin.buffers@[o] == (
        BufferObject {
            refcount: (orig.buffers@[o].refcount + ref_occurrences(retained, o)
                - ref_occurrences(released, o)) as usize,
            element_type: orig.buffers@[o].element_type,
            encoding: orig.buffers@[o].encoding,
            shape: orig.buffers@[o].shape,
            data: orig.buffers@[o].data,
        }) by {
        assert(mid.buffers@[o] == (BufferObject {
            refcount: (orig.buffers@[o].refcount + ref_occurrences(retained, o)) as usize,
            element_type: orig.buffers@[o].element_type,
            encoding: orig.buffers@[o].encoding,
            shape: orig.buffers@[o].shape,
            data: orig.buffers@[o].data,
        }));
        assert(orig.buffers@[o].refcount + ref_occurrences(retained, o) <= usize::MAX);
        assert(ref_occurrences(released, o) <= orig.buffers@[o].refcount);
        assert(fin.buffers@[o] == (BufferObject {
            refcount: (mid.buffers@[o].refcount - ref_occurrences(released, o)) as usize,
            element_type: mid.buffers@[o].element_type,
            encoding: mid.buffers@[o].encoding,
            shape: mid.buffers@[o].shape,
            data: mid.buffers@[o].data,
        }));
    }
}

} // verus!
