//! The root of the runtime's object graph: an instance owns the type
//! registry and a pool of reference-counted buffer objects, and names the
//! isolation domain that references and lists are bound to.  Every retain
//! and release of a foreign object goes through the pool, so the balance of
//! counts — the invariant behind safe sharing — is stated and checked here.

use vstd::prelude::*;
use crate::error::RuntimeError;
use crate::hal::{Device, DriverRegistry, ElementType, EncodingType};
use crate::status::{Status, StatusErrorKind};
use crate::text;

verus! {

/// Upper bound on registered types, so that every computed type tag fits
/// the tag word.
pub const MAX_REGISTERED_TYPES: usize = 0x0FFF_FFFF;

/// One reference-counted buffer object in an instance's pool.  A zero count
/// means the object has been released and its storage given back.
#[derive(Clone)]
pub struct BufferObject {
    pub refcount: usize,
    pub element_type: ElementType,
    pub encoding: EncodingType,
    pub shape: Vec<usize>,
    pub data: Vec<u8>,
}

/// A pool after one more handle to `obj` was taken.
pub open spec fn retain_one(bufs: Seq<BufferObject>, obj: int) -> Seq<BufferObject> {
    bufs.update(
        obj,
        BufferObject {
            refcount: (bufs[obj].refcount + 1) as usize,
            element_type: bufs[obj].element_type,
            encoding: bufs[obj].encoding,
            shape: bufs[obj].shape,
            data: bufs[obj].data,
        },
    )
}

/// A pool after one handle to `obj` was given up.
pub open spec fn release_one(bufs: Seq<BufferObject>, obj: int) -> Seq<BufferObject> {
    bufs.update(
        obj,
        BufferObject {
            refcount: (bufs[obj].refcount - 1) as usize,
            element_type: bufs[obj].element_type,
            encoding: bufs[obj].encoding,
            shape: bufs[obj].shape,
            data: bufs[obj].data,
        },
    )
}

/// Options an instance is created with: the isolation domain it will name,
/// and which drivers it may hand out devices for.
pub struct InstanceOptions {
    pub domain: u64,
    pub drivers: Vec<String>,
    pub use_all_drivers: bool,
}

impl InstanceOptions {
    /// Captures the registry's drivers for a new instance of the given
    /// isolation domain.  No driver is available until
    /// `use_all_available_drivers` opts in.
    pub fn new(driver_registry: &DriverRegistry, domain: u64) -> (r: InstanceOptions)
        ensures
            r.domain == domain,
            !r.use_all_drivers,
            text::views_of(r.drivers@) == text::views_of(driver_registry.drivers@),
    {
        let drivers = text::clone_strings(&driver_registry.drivers);
        proof {
            assert(text::views_of(drivers@) =~= text::views_of(driver_registry.drivers@));
        }
        InstanceOptions { domain, drivers, use_all_drivers: false }
    }

    /// Lets sessions of the instance query and use every captured driver.
    pub fn use_all_available_drivers(self) -> (r: InstanceOptions)
        ensures
            r.domain == self.domain,
            r.drivers@ == self.drivers@,
            r.use_all_drivers,
    {
        InstanceOptions { domain: self.domain, drivers: self.drivers, use_all_drivers: true }
    }
}

/// First index at which `name` occurs in `names` at or after `i`, or -1.
pub open spec fn name_index_from(names: Seq<Seq<char>>, name: Seq<char>, i: int) -> int
    decreases names.len() - i when 0 <= i <= names.len()
{
    if i >= names.len() {
        -1
    } else if names[i] == name {
        i
    } else {
        name_index_from(names, name, i + 1)
    }
}

/// Shared root owning the type registry and the buffer pool.  Destroying
/// the last reference releases the registry; here the instance is a plain
/// owned value, so that role falls to its owner.
#[derive(Clone)]
pub struct Instance {
    /// The isolation domain this instance names; objects bound to one
    /// domain are rejected by another.
    pub id: u64,
    /// The type registry: index `i` holds the name of the reference type
    /// with raw tag `(i + 1) * 8`.
    pub types: Vec<String>,
    /// The pool of reference-counted buffer objects.
    pub buffers: Vec<BufferObject>,
    /// Names of the drivers sessions may request devices from.
    pub drivers: Vec<String>,
}

/// The type-registry tag (with the low reference-count bits already
/// discarded) of the built-in buffer-view type.
pub open spec fn buffer_view_type_tag() -> u64 {
    1
}

/// The same tag as an executable constant.
pub const BUFFER_VIEW_TYPE_TAG_WORD: u64 = 1;

impl Default for Instance {
    /// An instance of the default isolation domain, with no drivers.
    fn default() -> (r: Instance)
        ensures
            r.wf(),
            r.id == 0,
            r.buffers@.len() == 0,
            r.drivers@.len() == 0,
    {
        let mut types: Vec<String> = Vec::new();
        types.push(String::from_str("hal.buffer_view"));
        Instance { id: 0, types, buffers: Vec::new(), drivers: Vec::new() }
    }
}

impl Instance {
    /// The registry always starts with the built-in buffer-view type and
    /// stays small enough for every tag to fit its word.
    pub open spec fn wf(self) -> bool {
        &&& self.types@.len() >= 1
        &&& self.types@[0]@ == "hal.buffer_view"@
        &&& self.types@.len() <= MAX_REGISTERED_TYPES
    }

    /// The raw tag `name` resolves to: `(index + 1) * 8` for the first
    /// registered type of that name, or the null tag 0.
    pub open spec fn lookup_type_spec(self, name: Seq<char>) -> u64 {
        let idx = name_index_from(text::views_of(self.types@), name, 0);
        if idx == -1 {
            0
        } else {
            ((idx + 1) * 8) as u64
        }
    }

    /// Creates a new instance: the registry holds the built-in types, the
    /// pool is empty, and the drivers are those the options opted into.
    pub fn new(options: &InstanceOptions) -> (r: Instance)
        ensures
            r.id == options.domain,
            r.wf(),
            r.types@.len() == 1,
            r.buffers@.len() == 0,
            options.use_all_drivers ==> text::views_of(r.drivers@) == text::views_of(
                options.drivers@,
            ),
            !options.use_all_drivers ==> r.drivers@.len() == 0,
    {
        let mut types: Vec<String> = Vec::new();
        types.push(String::from_str("hal.buffer_view"));
        let drivers: Vec<String> = if options.use_all_drivers {
            let d = text::clone_strings(&options.drivers);
            proof {
                assert(text::views_of(d@) =~= text::views_of(options.drivers@));
            }
            d
        } else {
            Vec::new()
        };
        Instance { id: options.domain, types, buffers: Vec::new(), drivers }
    }

    /// Resolves a fully qualified type name against the live registry.
    /// Returns the raw tag, whose low bits are reserved for the runtime's
    /// reference-count tagging, or 0 when the name is not registered.
    pub fn lookup_type(&self, full_name: &str) -> (r: u64)
        requires
            self.wf(),
        ensures
            r == self.lookup_type_spec(full_name@),
    {
        let ghost views = text::views_of(self.types@);
        let n = self.types.len();
        let mut i: usize = 0;
        while i < n
            invariant
                self.wf(),
                n == self.types@.len(),
                0 <= i <= n,
                views == text::views_of(self.types@),
                forall|j: int| 0 <= j < i ==> views[j] != full_name@,
                name_index_from(views, full_name@, 0) == name_index_from(views, full_name@, i as int),
            decreases n - i,
        {
            if text::str_eq(self.types[i].as_str(), full_name) {
                proof {
                    assert(views[i as int] == full_name@);
                }
                return ((i as u64) + 1) * 8;
            }
            i = i + 1;
        }
        0
    }

    /// Registers a reference type under the given name and returns its raw
    /// tag; a name already registered keeps its tag.  When the registry is
    /// full the null tag 0 is returned and nothing changes.
    pub fn register_type(&mut self, full_name: String) -> (r: u64)
        requires
            old(self).wf(),
        ensures
            final(self).wf(),
            final(self).id == old(self).id,
            final(self).buffers@ == old(self).buffers@,
            final(self).drivers@ == old(self).drivers@,
            old(self).lookup_type_spec(full_name@) != 0 ==> {
                &&& final(self).types@ == old(self).types@
                &&& r == old(self).lookup_type_spec(full_name@)
            },
            old(self).lookup_type_spec(full_name@) == 0 && old(self).types@.len()
                < MAX_REGISTERED_TYPES ==> {
                &&& final(self).types@.len() == old(self).types@.len() + 1
                &&& final(self).types@.last()@ == full_name@
                &&& r == old(self).types@.len() * 8 + 8
            },
            old(self).lookup_type_spec(full_name@) == 0 && old(self).types@.len()
                >= MAX_REGISTERED_TYPES ==> {
                &&& final(self).types@ == old(self).types@
                &&& r == 0
            },
    {
        let existing = self.lookup_type(full_name.as_str());
        if existing != 0 {
            return existing;
        }
        if self.types.len() >= MAX_REGISTERED_TYPES {
            return 0;
        }
        let n = self.types.len();
        self.types.push(full_name);
        ((n as u64) + 1) * 8
    }

    /// Adds a fresh buffer object holding the payload, with one handle out.
    pub fn create_buffer(
        &mut self,
        element_type: ElementType,
        encoding: EncodingType,
        shape: Vec<usize>,
        data: Vec<u8>,
    ) -> (obj: usize)
        ensures
            obj == old(self).buffers@.len(),
            final(self).id == old(self).id,
            final(self).types@ == old(self).types@,
            final(self).drivers@ == old(self).drivers@,
            final(self).buffers@.len() == old(self).buffers@.len() + 1,
            final(self).buffers@.subrange(0, old(self).buffers@.len() as int) == old(
                self,
            ).buffers@,
            final(self).buffers@.last().refcount == 1,
            final(self).buffers@.last().element_type == element_type,
            final(self).buffers@.last().encoding == encoding,
            final(self).buffers@.last().shape@ == shape@,
            final(self).buffers@.last().data@ == data@,
    {
        let obj = self.buffers.len();
        self.buffers.push(BufferObject { refcount: 1, element_type, encoding, shape, data });
        proof {
            assert(final(self).buffers@.subrange(0, old(self).buffers@.len() as int) =~= old(
                self,
            ).buffers@);
        }
        obj
    }

    /// Whether `obj` names a pool entry whose object is still live.
    pub open spec fn object_live(self, obj: int) -> bool {
        0 <= obj < self.buffers@.len() && self.buffers@[obj].refcount > 0
    }

    /// The pool after this call relates to the one before by one more
    /// handle on `obj`; everything else is untouched.
    pub open spec fn retains_one_more(self, old_self: Instance, obj: int) -> bool {
        &&& self.id == old_self.id
        &&& self.types@ == old_self.types@
        &&& self.drivers@ == old_self.drivers@
        &&& self.buffers@ == retain_one(old_self.buffers@, obj)
    }

    /// The pool after this call relates to the one before by one handle on
    /// `obj` given up; everything else is untouched.
    pub open spec fn releases_one(self, old_self: Instance, obj: int) -> bool {
        &&& self.id == old_self.id
        &&& self.types@ == old_self.types@
        &&& self.drivers@ == old_self.drivers@
        &&& self.buffers@ == release_one(old_self.buffers@, obj)
    }

    /// Takes one more handle to a live object.
    pub fn retain_object(&mut self, obj: usize)
        requires
            old(self).object_live(obj as int),
            old(self).buffers@[obj as int].refcount < usize::MAX,
        ensures
            final(self).retains_one_more(*old(self), obj as int),
    {
        let rc = self.buffers[obj].refcount;
        self.buffers[obj].refcount = rc + 1;
        proof {
            assert(self.buffers@ =~= retain_one(old(self).buffers@, obj as int));
        }
    }

    /// Gives up one handle to a live object; the object is freed exactly
    /// when this was the last handle.
    pub fn release_object(&mut self, obj: usize)
        requires
            old(self).object_live(obj as int),
        ensures
            final(self).releases_one(*old(self), obj as int),
    {
        let rc = self.buffers[obj].refcount;
        self.buffers[obj].refcount = rc - 1;
        proof {
            assert(self.buffers@ =~= release_one(old(self).buffers@, obj as int));
        }
    }

    /// Reads a live buffer's full contents out of the pool.
    pub fn read_buffer_content(&self, obj: usize) -> (r: crate::session::BufferContent)
        requires
            self.object_live(obj as int),
        ensures
            crate::session::content_matches(r, *self, obj as int),
    {
        crate::session::BufferContent {
            shape: vstd::slice::slice_to_vec(self.buffers[obj].shape.as_slice()),
            element_type: self.buffers[obj].element_type,
            encoding: self.buffers[obj].encoding,
            data: text::clone_bytes(&self.buffers[obj].data),
        }
    }

    /// Reads a live buffer's bytes out of the pool.
    pub fn read_buffer(&self, obj: usize) -> (r: Option<Vec<u8>>)
        ensures
            self.object_live(obj as int) <==> r is Some,
            r matches Some(b) ==> b@ == self.buffers@[obj as int].data@,
    {
        if obj < self.buffers.len() {
            if self.buffers[obj].refcount > 0 {
                Some(text::clone_bytes(&self.buffers[obj].data))
            } else {
                None
            }
        } else {
            None
        }
    }

    /// Length in bytes of a live buffer.
    pub fn buffer_data_len(&self, obj: usize) -> (r: usize)
        requires
            self.object_live(obj as int),
        ensures
            r == self.buffers@[obj as int].data@.len(),
    {
        self.buffers[obj].data.len()
    }

    /// The number of handles currently out on a pool entry; 0 once freed.
    pub fn buffer_refcount(&self, obj: usize) -> (r: usize)
        requires
            obj < self.buffers@.len(),
        ensures
            r == self.buffers@[obj as int].refcount,
    {
        self.buffers[obj].refcount
    }

    /// Whether a pool entry's object is still live.
    pub fn buffer_is_live(&self, obj: usize) -> (r: bool)
        ensures
            r == self.object_live(obj as int),
    {
        obj < self.buffers.len() && self.buffers[obj].refcount > 0
    }

    /// The raw registry tag of the built-in buffer-view type, shifted into
    /// descriptor form.
    pub fn buffer_view_ref_type(&self) -> (r: u64)
        requires
            self.wf(),
        ensures
            r == buffer_view_type_tag(),
    {
        1
    }

    /// Whether a driver of the given name is available to this instance.
    pub open spec fn has_driver(self, name: Seq<char>) -> bool {
        exists|j: int| 0 <= j < self.drivers@.len() && self.drivers@[j]@ == name
    }

    /// Creates a device from the first available driver of the given name;
    /// a name no available driver carries is not found.
    pub fn try_create_default_device(&self, name: &str) -> (r: Result<Device, RuntimeError>)
        ensures
            self.has_driver(name@) <==> r is Ok,
            r matches Ok(d) ==> d.name@ == name@,
            r matches Err(e) ==> e matches RuntimeError::StatusError(s) && s.kind_spec() == (
                StatusErrorKind::NotFound),
    {
        let n = self.drivers.len();
        let mut i: usize = 0;
        while i < n
            invariant
                n == self.drivers@.len(),
                0 <= i <= n,
                forall|j: int| 0 <= j < i ==> self.drivers@[j]@ != name@,
            decreases n - i,
        {
            if text::str_eq(self.drivers[i].as_str(), name) {
                return Ok(Device { name: String::from_str(name) });
            }
            i = i + 1;
        }
        Err(RuntimeError::StatusError(crate::status::StatusError {
            status: Status::from_code(StatusErrorKind::NotFound),
        }))
    }
}

/// A type-erased descriptor of one registered reference type, named by its
/// shifted registry tag.
pub struct VmRefType {
    pub tag: u64,
}

impl VmRefType {
    /// The registered name behind this descriptor, if the tag is in the
    /// registry's range.
    pub fn name<'a>(&self, instance: &'a Instance) -> (r: Option<&'a String>)
        requires
            instance.wf(),
        ensures
            1 <= self.tag <= instance.types@.len() <==> r is Some,
            r matches Some(s) ==> s@ == instance.types@[self.tag as int - 1]@,
    {
        if self.tag >= 1 && self.tag <= instance.types.len() as u64 {
            Some(&instance.types[(self.tag - 1) as usize])
        } else {
            None
        }
    }
}

/// A counted reference to one foreign object, bound to the instance whose
/// registry defined its type.  Taking another handle retains the object;
/// giving one up releases it.
#[derive(Clone, Copy, PartialEq, Eq, Debug, Structural)]
pub struct VmRef {
    /// The isolation domain the reference was created against.
    pub instance_id: u64,
    /// The pool entry of the referenced object.
    pub obj_id: usize,
    /// The shifted registry tag of the object's type.
    pub type_tag: u64,
}

impl VmRef {
    /// Whether this reference names a live object of the given instance.
    pub open spec fn valid_in(self, instance: Instance) -> bool {
        &&& self.instance_id == instance.id
        &&& instance.object_live(self.obj_id as int)
    }

    /// Takes a second handle to the referenced object: the foreign count
    /// goes up by one and a new reference of the same identity is returned.
    pub fn retain(&self, instance: &mut Instance) -> (r: VmRef)
        requires
            self.valid_in(*old(instance)),
            old(instance).buffers@[self.obj_id as int].refcount < usize::MAX,
        ensures
            r == *self,
            final(instance).retains_one_more(*old(instance), self.obj_id as int),
    {
        instance.retain_object(self.obj_id);
        VmRef { instance_id: self.instance_id, obj_id: self.obj_id, type_tag: self.type_tag }
    }

    /// Gives this handle up: the foreign count goes down by one, and the
    /// object is freed exactly when this was the last handle.
    pub fn release(self, instance: &mut Instance)
        requires
            self.valid_in(*old(instance)),
        ensures
            final(instance).releases_one(*old(instance), self.obj_id as int),
    {
        instance.release_object(self.obj_id);
    }
}

/// Balance of the reference-count discipline: taking a handle and giving
/// it up leaves the pool exactly as it was.
pub proof fn lemma_retain_release_balanced(bufs: Seq<BufferObject>, obj: int)
    requires
        0 <= obj < bufs.len(),
        bufs[obj].refcount < usize::MAX,
    ensures
        release_one(retain_one(bufs, obj), obj) == bufs,
{
    assert(release_one(retain_one(bufs, obj), obj) =~= bufs);
}

/// While any other handle is still out, giving one up never frees the
/// object.
pub proof fn lemma_release_keeps_alive(bufs: Seq<BufferObject>, obj: int)
    requires
        0 <= obj < bufs.len(),
        bufs[obj].refcount >= 2,
    ensures
        release_one(bufs, obj)[obj].refcount > 0,
{
}

/// Giving up the last handle frees the object exactly then: the count
/// reaches zero now, and a zero count admits no further release.
pub proof fn lemma_release_last_frees(bufs: Seq<BufferObject>, obj: int)
    requires
        0 <= obj < bufs.len(),
        bufs[obj].refcount == 1,
    ensures
        release_one(bufs, obj)[obj].refcount == 0,
{
}

} // verus!
