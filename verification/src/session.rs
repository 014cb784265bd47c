//! Sessions and calls.  A session is an isolated execution scope created
//! from an instance and a device; it owns the modules loaded into it.  A
//! call is a reusable invocation builder bound to one session and one
//! function, owning an input and an output list.  Executing a function is
//! device work that happens outside this layer: a call hands out an
//! invocation request describing the operation and its input buffers, the
//! driver computes, and the results are handed back to be installed in the
//! output list — every check on either side of that boundary is made here.

use vstd::prelude::*;
use vstd::string::StringSliceAdditionalSpecFns;
use crate::error::RuntimeError;
use crate::hal::{BufferView, Device, ElementType, EncodingType};
use crate::instance::{buffer_view_type_tag, Instance, VmRef};
use crate::list::{
    can_release, pool_released, lemma_occurrences_concat, ref_occurrences, List, Slot,
};
use crate::module::{exports_view, parse_spec, Module};
use crate::status::{StatusError, StatusErrorKind};
use crate::text;
use crate::vmtype::VmTypeDef;

verus! {

/// Options used to configure a session.
pub struct SessionOptions {
    pub context_flags: u32,
    pub builtin_modules: u32,
}

impl Default for SessionOptions {
    fn default() -> (r: SessionOptions)
        ensures
            r.context_flags == 0,
            r.builtin_modules == 0,
    {
        SessionOptions { context_flags: 0, builtin_modules: 0 }
    }
}

/// The byte that joins a module name and a function name in a fully
/// qualified lookup name.
pub open spec fn qualified(mn: Seq<u8>, en: Seq<u8>) -> Seq<u8> {
    mn + seq![0x2Eu8] + en
}

/// First ordinal at or after `j` whose qualified name is `name`, or -1.
pub open spec fn find_export(m: Module, name: Seq<u8>, j: int) -> int
    decreases m.exports@.len() - j when 0 <= j <= m.exports@.len()
{
    if j >= m.exports@.len() {
        -1
    } else if qualified(m.name@, m.exports@[j].name@) == name {
        j
    } else {
        find_export(m, name, j + 1)
    }
}

/// The most recently loaded module (searching from index `i` down) that
/// exports the qualified name, with the export's ordinal.
pub open spec fn find_function(ms: Seq<Module>, name: Seq<u8>, i: int) -> Option<(int, int)>
    decreases i + 1 when -1 <= i < ms.len()
{
    if i < 0 {
        None
    } else {
        let j = find_export(ms[i], name, 0);
        if j >= 0 {
            Some((i, j))
        } else {
            find_function(ms, name, i - 1)
        }
    }
}

/// An isolated execution scope holding loaded module state, bound to one
/// instance and one device.
pub struct Session {
    pub instance_id: u64,
    pub device_name: String,
    pub modules: Vec<Module>,
}

impl Session {
    /// Every loaded module fits the wire format.
    pub open spec fn wf(self) -> bool {
        forall|i: int| 0 <= i < self.modules@.len() ==> (#[trigger] self.modules@[i]).wf()
    }

    /// Creates a session against the instance and device.
    pub fn create_with_device(
        instance: &Instance,
        options: &SessionOptions,
        device: &Device,
    ) -> (r: Result<Session, RuntimeError>)
        ensures
            r is Ok,
            r matches Ok(s) ==> {
                &&& s.wf()
                &&& s.instance_id == instance.id
                &&& s.device_name@ == device.name@
                &&& s.modules@.len() == 0
            },
    {
        Ok(Session {
            instance_id: instance.id,
            device_name: String::from_str(device.name.as_str()),
            modules: Vec::new(),
        })
    }

    /// Trims transient resources cached by the session.  This model keeps
    /// no caches, so there is nothing to give back and the call always
    /// succeeds without observable effect.
    pub fn trim(&self) -> (r: Result<(), RuntimeError>)
        ensures
            r is Ok,
    {
        Ok(())
    }

    /// Appends a module loaded from an in-memory blob.  The blob must be
    /// exactly the wire format; anything else is rejected as invalid with
    /// the session unchanged.
    pub fn append_module_from_memory(&mut self, flatbuffer_data: &[u8]) -> (r: Result<
        (),
        RuntimeError,
    >)
        requires
            old(self).wf(),
        ensures
            parse_spec(flatbuffer_data@) is Some <==> r is Ok,
            r is Ok ==> {
                &&& final(self).wf()
                &&& final(self).instance_id == old(self).instance_id
                &&& final(self).device_name@ == old(self).device_name@
                &&& final(self).modules@.len() == old(self).modules@.len() + 1
                &&& forall|i: int| 0 <= i < old(self).modules@.len()
                    ==> #[trigger] final(self).modules@[i] == old(self).modules@[i]
                &&& parse_spec(flatbuffer_data@) == Some((
                    final(self).modules@.last().name@,
                    exports_view(final(self).modules@.last().exports@),
                ))
            },
            r is Err ==> *final(self) == *old(self),
            r matches Err(e) ==> e matches RuntimeError::StatusError(s) && s.kind_spec() == (
                StatusErrorKind::InvalidArgument),
    {
        match Module::parse(flatbuffer_data) {
            Some(m) => {
                self.modules.push(m);
                Ok(())
            },
            None => Err(RuntimeError::StatusError(StatusError::from_kind(
                StatusErrorKind::InvalidArgument,
            ))),
        }
    }

    /// Looks a function up by its fully qualified `module.function` name.
    /// Modules are searched from the most recently loaded back to the
    /// first, so later modules override earlier ones; a name nothing
    /// exports is not found.
    pub fn lookup_function<'f>(&'f self, name: &str) -> (r: Result<Function<'f>, RuntimeError>)
        requires
            self.wf(),
        ensures
            match r {
                Ok(f) => {
                    &&& find_function(
                        self.modules@,
                        name.spec_bytes(),
                        self.modules@.len() - 1,
                    ) == Some((f.module_index as int, f.ordinal as int))
                    &&& f.session == self
                    &&& f.wf()
                },
                Err(e) => {
                    &&& find_function(
                        self.modules@,
                        name.spec_bytes(),
                        self.modules@.len() - 1,
                    ) is None
                    &&& e matches RuntimeError::StatusError(s) && s.kind_spec() == (
                        StatusErrorKind::NotFound)
                },
            },
    {
        let name_bytes = name.as_bytes_vec();
        let n = self.modules.len();
        let mut i: usize = n;
        while i > 0
            invariant
                0 <= i <= n,
                n == self.modules@.len(),
                name_bytes@ == name.spec_bytes(),
                self.wf(),
                find_function(self.modules@, name_bytes@, n - 1) == find_function(
                    self.modules@,
                    name_bytes@,
                    i - 1,
                ),
            decreases i,
        {
            let mi = i - 1;
            match Self::find_export_in(&self.modules[mi], &name_bytes) {
                Some(ordinal) => {
                    return Ok(Function { session: self, module_index: mi, ordinal });
                },
                None => {},
            }
            i = mi;
        }
        Err(RuntimeError::StatusError(StatusError::from_kind(StatusErrorKind::NotFound)))
    }

    /// Finds the first export of the module whose qualified name is the
    /// given byte string.
    fn find_export_in(m: &Module, name_bytes: &Vec<u8>) -> (r: Option<usize>)
        ensures
            match r {
                Some(j) => find_export(*m, name_bytes@, 0) == j && j < m.exports@.len(),
                None => find_export(*m, name_bytes@, 0) == -1,
            },
    {
        let count = m.exports.len();
        let mut j: usize = 0;
        while j < count
            invariant
                0 <= j <= count,
                count == m.exports@.len(),
                find_export(*m, name_bytes@, 0) == find_export(*m, name_bytes@, j as int),
            decreases count - j,
        {
            let mut q: Vec<u8> = text::clone_bytes(&m.name);
            q.push(0x2E);
            let ghost q_mid = q@;
            let elen = m.exports[j].name.len();
            let mut k: usize = 0;
            while k < elen
                invariant
                    0 <= k <= elen,
                    elen == m.exports@[j as int].name@.len(),
                    j < count == m.exports@.len(),
                    q@ == q_mid + m.exports@[j as int].name@.subrange(0, k as int),
                    q_mid == m.name@ + seq![0x2Eu8],
                decreases elen - k,
            {
                q.push(m.exports[j].name[k]);
                proof {
                    assert(q@ =~= q_mid + m.exports@[j as int].name@.subrange(0, k + 1));
                }
                k = k + 1;
            }
            proof {
                assert(m.exports@[j as int].name@.subrange(0, elen as int) =~= m.exports@[
                    j as int].name@);
                assert(q@ =~= qualified(m.name@, m.exports@[j as int].name@));
            }
            if text::bytes_eq(&q, name_bytes) {
                return Some(j);
            }
            j = j + 1;
        }
        None
    }
}

/// A function resolved from a session, valid while the session lives.
pub struct Function<'a> {
    pub session: &'a Session,
    pub module_index: usize,
    pub ordinal: usize,
}

impl<'a> Function<'a> {
    /// The indices name an export of a loaded module.
    pub open spec fn wf(self) -> bool {
        &&& self.module_index < self.session.modules@.len()
        &&& self.ordinal < self.session.modules@[self.module_index as int].exports@.len()
    }

    /// The operation the resolved export performs.
    pub open spec fn op_spec(self) -> u32 {
        self.session.modules@[self.module_index as int].exports@[self.ordinal as int].op
    }
}

/// The contents of one buffer as an invocation sees them: what the device
/// driver reads and what it hands back.
pub struct BufferContent {
    pub shape: Vec<usize>,
    pub element_type: ElementType,
    pub encoding: EncodingType,
    pub data: Vec<u8>,
}

/// One synchronous invocation, ready for the device driver: the operation
/// of the resolved function and its input buffers, in order.
pub struct InvokeRequest {
    pub op: u32,
    pub inputs: Vec<BufferContent>,
}

/// Whether a content value reads the given pool entry.
pub open spec fn content_matches(c: BufferContent, instance: Instance, obj: int) -> bool {
    &&& c.shape@ == instance.buffers@[obj].shape@
    &&& c.element_type == instance.buffers@[obj].element_type
    &&& c.encoding == instance.buffers@[obj].encoding
    &&& c.data@ == instance.buffers@[obj].data@
}

/// A stateful invocation builder bound to one session and one function,
/// owning its input and output lists.
pub struct Call {
    pub instance_id: u64,
    pub module_index: usize,
    pub ordinal: usize,
    pub inputs: List,
    pub outputs: List,
}

impl Call {
    pub open spec fn wf(self) -> bool {
        &&& self.inputs.wf()
        &&& self.outputs.wf()
        &&& self.inputs.instance_id == self.instance_id
        &&& self.outputs.instance_id == self.instance_id
        &&& self.inputs.element_type == (VmTypeDef::Variant)
        &&& self.outputs.element_type == (VmTypeDef::Variant)
    }

    /// Creates a call to the given function, with empty input and output
    /// lists bound to the session's instance.
    pub fn new(session: &Session, func: &Function) -> (r: Result<Call, RuntimeError>)
        requires
            func.wf(),
            func.session == session,
        ensures
            r is Ok,
            r matches Ok(c) ==> {
                &&& c.wf()
                &&& c.instance_id == session.instance_id
                &&& c.module_index == func.module_index
                &&& c.ordinal == func.ordinal
                &&& c.inputs@.len() == 0
                &&& c.outputs@.len() == 0
            },
    {
        Ok(Call {
            instance_id: session.instance_id,
            module_index: func.module_index,
            ordinal: func.ordinal,
            inputs: List {
                element_type: VmTypeDef::Variant,
                instance_id: session.instance_id,
                slots: Vec::new(),
                cap: 0,
            },
            outputs: List {
                element_type: VmTypeDef::Variant,
                instance_id: session.instance_id,
                slots: Vec::new(),
                cap: 0,
            },
        })
    }

    /// Creates a call to the function of the given qualified name.
    pub fn from_func_name(session: &Session, name: &str) -> (r: Result<Call, RuntimeError>)
        requires
            session.wf(),
        ensures
            (find_function(session.modules@, name.spec_bytes(), session.modules@.len() - 1)
                is Some) <==> r is Ok,
            r matches Ok(c) ==> {
                &&& c.wf()
                &&& c.instance_id == session.instance_id
                &&& find_function(
                    session.modules@,
                    name.spec_bytes(),
                    session.modules@.len() - 1,
                ) == Some((c.module_index as int, c.ordinal as int))
                &&& c.inputs@.len() == 0
                &&& c.outputs@.len() == 0
            },
            r matches Err(e) ==> e matches RuntimeError::StatusError(s) && s.kind_spec() == (
                StatusErrorKind::NotFound),
    {
        let func = match session.lookup_function(name) {
            Ok(f) => f,
            Err(e) => {
                return Err(e);
            },
        };
        Call::new(session, &func)
    }

    /// Pushes a buffer view to the call's input list, retaining the
    /// buffer.  The view must originate from the same instance as the
    /// call; a view of another instance is rejected and neither the call
    /// nor any instance state is touched.
    pub fn inputs_push_back_buffer_view(
        &mut self,
        instance: &mut Instance,
        buffer_view: &BufferView,
    ) -> (r: Result<(), RuntimeError>)
        requires
            old(self).wf(),
            buffer_view.valid_in(*old(instance)) ==> old(instance).buffers@[
                buffer_view.obj_id as int].refcount < usize::MAX,
        ensures
            buffer_view.instance_id != old(self).instance_id ==> (r matches Err(e)
                && e is InstanceMismatch),
            r is Ok <==> (buffer_view.instance_id == old(self).instance_id && old(instance).id
                == old(self).instance_id && old(instance).object_live(
                buffer_view.obj_id as int,
            )),
            r is Ok ==> {
                &&& final(self).wf()
                &&& final(self).inputs@ == old(self).inputs@.push(Slot::Reference(Some(VmRef {
                    instance_id: old(self).instance_id,
                    obj_id: buffer_view.obj_id,
                    type_tag: buffer_view_type_tag(),
                })))
                &&& final(self).outputs == old(self).outputs
                &&& final(self).instance_id == old(self).instance_id
                &&& final(self).module_index == old(self).module_index
                &&& final(self).ordinal == old(self).ordinal
                &&& final(instance).retains_one_more(*old(instance), buffer_view.obj_id as int)
            },
            r is Err ==> *final(self) == *old(self) && *final(instance) == *old(instance),
    {
        if buffer_view.instance_id != self.instance_id {
            return Err(RuntimeError::InstanceMismatch(String::from_str(
                "the buffer view must originate from the same instance as the call",
            )));
        }
        let vmref = VmRef {
            instance_id: buffer_view.instance_id,
            obj_id: buffer_view.obj_id,
            type_tag: crate::instance::BUFFER_VIEW_TYPE_TAG_WORD,
        };
        match self.inputs.push_ref(instance, &vmref) {
            Ok(()) => Ok(()),
            Err(e) => Err(e),
        }
    }

    /// Pops the front buffer view off the call's output list.  The list's
    /// handle on the buffer moves to the returned view, so no count
    /// changes.
    pub fn outputs_pop_front_buffer_view(&mut self, instance: &Instance) -> (r: Result<
        BufferView,
        RuntimeError,
    >)
        requires
            old(self).wf(),
        ensures
            old(self).outputs@.len() == 0 ==> (r matches Err(e)
                && e matches RuntimeError::StatusError(s) && s.kind_spec() == (
                StatusErrorKind::OutOfRange)),
            r is Ok <==> (old(self).outputs@.len() > 0 && old(self).outputs@[0] matches
                Slot::Reference(Some(_))),
            r matches Ok(bv) ==> {
                &&& old(self).outputs@[0] matches Slot::Reference(Some(rf)) && bv.obj_id
                    == rf.obj_id && bv.instance_id == rf.instance_id
                &&& final(self).outputs@ == old(self).outputs@.skip(1)
                &&& final(self).inputs == old(self).inputs
                &&& final(self).instance_id == old(self).instance_id
                &&& final(self).module_index == old(self).module_index
                &&& final(self).ordinal == old(self).ordinal
                &&& final(self).wf()
            },
            r is Err ==> *final(self) == *old(self),
    {
        if self.outputs.slots.len() == 0 {
            return Err(RuntimeError::StatusError(StatusError::from_kind(
                StatusErrorKind::OutOfRange,
            )));
        }
        let first = self.outputs.slots[0];
        match first {
            Slot::Reference(opt) => {
                match opt {
                    Some(rf) => {
                        self.outputs.slots.remove(0);
                        proof {
                            assert(self.outputs.slots@ =~= old(self).outputs@.skip(1));
                        }
                        Ok(BufferView { instance_id: rf.instance_id, obj_id: rf.obj_id })
                    },
                    None => Err(RuntimeError::StatusError(StatusError::from_kind(
                        StatusErrorKind::InvalidArgument,
                    ))),
                }
            },
            _ => Err(RuntimeError::StatusError(StatusError::from_kind(
                StatusErrorKind::InvalidArgument,
            ))),
        }
    }

    /// Resets the input and output lists back to empty in preparation for
    /// another invocation, giving every held handle back to the pool.
    pub fn reset(&mut self, instance: &mut Instance)
        requires
            old(self).wf(),
            can_release(old(instance).buffers@, old(self).inputs@ + old(self).outputs@),
        ensures
            final(self).wf(),
            final(self).inputs@.len() == 0,
            final(self).outputs@.len() == 0,
            final(self).instance_id == old(self).instance_id,
            final(self).module_index == old(self).module_index,
            final(self).ordinal == old(self).ordinal,
            pool_released(
                *final(instance),
                *old(instance),
                old(self).inputs@ + old(self).outputs@,
            ),
    {
        let ghost both = old(self).inputs@ + old(self).outputs@;
        proof {
            lemma_can_release_parts(old(instance).buffers@, old(self).inputs@, old(self).outputs@);
            assert(old(self).inputs@.subrange(0, old(self).inputs@.len() as int) =~= old(
                self,
            ).inputs@);
            assert(old(self).outputs@.subrange(0, old(self).outputs@.len() as int) =~= old(
                self,
            ).outputs@);
        }
        self.inputs.resize(instance, 0);
        let ghost mid = *instance;
        proof {
            if old(self).inputs@.len() == 0 {
                lemma_pool_released_empty(mid);
                assert(Seq::<Slot>::empty() =~= old(self).inputs@);
            }
            assert(pool_released(mid, *old(instance), old(self).inputs@));
            lemma_can_release_second_after_first(
                *old(instance),
                mid,
                old(self).inputs@,
                old(self).outputs@,
            );
        }
        self.outputs.resize(instance, 0);
        proof {
            if old(self).outputs@.len() == 0 {
                lemma_pool_released_empty(*instance);
                assert(Seq::<Slot>::empty() =~= old(self).outputs@);
            }
            assert(pool_released(*instance, mid, old(self).outputs@));
        }
        proof {
            lemma_pool_released_compose(
                *old(instance),
                mid,
                *instance,
                old(self).inputs@,
                old(self).outputs@,
            );
        }
    }

    /// Returns the mutable input list.
    pub fn input_list(&mut self) -> (r: &mut List)
        ensures
            *r == old(self).inputs,
            final(self).inputs == *final(r),
            final(self).outputs == old(self).outputs,
            final(self).instance_id == old(self).instance_id,
            final(self).module_index == old(self).module_index,
            final(self).ordinal == old(self).ordinal,
    {
        &mut self.inputs
    }

    /// Returns the mutable output list.
    pub fn output_list(&mut self) -> (r: &mut List)
        ensures
            *r == old(self).outputs,
            final(self).outputs == *final(r),
            final(self).inputs == old(self).inputs,
            final(self).instance_id == old(self).instance_id,
            final(self).module_index == old(self).module_index,
            final(self).ordinal == old(self).ordinal,
    {
        &mut self.outputs
    }

    /// Builds the invocation request the device driver runs: the resolved
    /// function's operation and the contents of every input buffer, in
    /// order.  The call must be bound to the given session and instance,
    /// the function must still exist, and every input must be a live
    /// buffer reference.
    pub fn invoke_request(&self, session: &Session, instance: &Instance) -> (r: Result<
        InvokeRequest,
        RuntimeError,
    >)
        requires
            self.wf(),
        ensures
            session.instance_id != self.instance_id || instance.id != self.instance_id ==> (
                r matches Err(e) && e is InstanceMismatch),
            r is Ok <==> {
                &&& session.instance_id == self.instance_id
                &&& instance.id == self.instance_id
                &&& self.module_index < session.modules@.len()
                &&& self.ordinal < session.modules@[self.module_index as int].exports@.len()
                &&& forall|j: int| 0 <= j < self.inputs@.len()
                    ==> ((#[trigger] self.inputs@[j]) matches Slot::Reference(Some(rf))
                    && instance.object_live(rf.obj_id as int))
            },
            r matches Ok(req) ==> {
                &&& req.op == session.modules@[self.module_index as int].exports@[
                    self.ordinal as int].op
                &&& req.inputs@.len() == self.inputs@.len()
                &&& forall|j: int| 0 <= j < self.inputs@.len() ==> ((#[trigger] self.inputs@[j])
                    matches Slot::Reference(Some(rf)) ==> content_matches(
                    req.inputs@[j],
                    *instance,
                    rf.obj_id as int,
                ))
            },
    {
        if session.instance_id != self.instance_id || instance.id != self.instance_id {
            return Err(RuntimeError::InstanceMismatch(String::from_str(
                "the call is not bound to this session and instance",
            )));
        }
        if self.module_index >= session.modules.len() {
            return Err(RuntimeError::StatusError(StatusError::from_kind(
                StatusErrorKind::NotFound,
            )));
        }
        let m = &session.modules[self.module_index];
        if self.ordinal >= m.exports.len() {
            return Err(RuntimeError::StatusError(StatusError::from_kind(
                StatusErrorKind::NotFound,
            )));
        }
        let op = m.exports[self.ordinal].op;
        let n = self.inputs.slots.len();
        let mut contents: Vec<BufferContent> = Vec::new();
        let mut j: usize = 0;
        #[verifier::loop_isolation(false)]
        while j < n
            invariant
                0 <= j <= n,
                n == self.inputs@.len(),
                contents@.len() == j,
                forall|k: int| 0 <= k < j ==> ((#[trigger] self.inputs@[k]) matches
                    Slot::Reference(Some(rf)) && instance.object_live(rf.obj_id as int)),
                forall|k: int| 0 <= k < j ==> ((#[trigger] self.inputs@[k]) matches
                    Slot::Reference(Some(rf)) ==> content_matches(
                    contents@[k],
                    *instance,
                    rf.obj_id as int,
                )),
            decreases n - j,
        {
            let s = self.inputs.slots[j];
            match s {
                Slot::Reference(opt) => {
                    match opt {
                        Some(rf) => {
                            if !instance.buffer_is_live(rf.obj_id) {
                                proof {
                                    assert(!((self.inputs@[j as int]) matches Slot::Reference(
                                        Some(rf2),
                                    ) && instance.object_live(rf2.obj_id as int)));
                                }
                                return Err(RuntimeError::StatusError(StatusError::from_kind(
                                    StatusErrorKind::InvalidArgument,
                                )));
                            }
                            let content = instance.read_buffer_content(rf.obj_id);
                            contents.push(content);
                        },
                        None => {
                            proof {
                                assert(!((self.inputs@[j as int]) matches Slot::Reference(
                                    Some(rf2),
                                ) && instance.object_live(rf2.obj_id as int)));
                            }
                            return Err(RuntimeError::StatusError(StatusError::from_kind(
                                StatusErrorKind::InvalidArgument,
                            )));
                        },
                    }
                },
                _ => {
                    proof {
                        assert(!((self.inputs@[j as int]) matches Slot::Reference(Some(rf2))
                            && instance.object_live(rf2.obj_id as int)));
                    }
                    return Err(RuntimeError::StatusError(StatusError::from_kind(
                        StatusErrorKind::InvalidArgument,
                    )));
                },
            }
            j = j + 1;
        }
        Ok(InvokeRequest { op, inputs: contents })
    }

    /// Installs one result buffer the device driver handed back: a fresh
    /// buffer object takes the contents, and a reference to it is pushed
    /// onto the output list.  A result whose shape, kind and payload do
    /// not agree is rejected with everything unchanged.
    pub fn invoke_result(&mut self, instance: &mut Instance, result: BufferContent) -> (r: Result<
        (),
        RuntimeError,
    >)
        requires
            old(self).wf(),
        ensures
            r is Ok <==> (old(instance).id == old(self).instance_id
                && BufferView::layout_ok(result.shape@, result.element_type, result.data@)),
            r is Ok ==> {
                &&& final(self).wf()
                &&& final(self).inputs == old(self).inputs
                &&& final(self).instance_id == old(self).instance_id
                &&& final(self).module_index == old(self).module_index
                &&& final(self).ordinal == old(self).ordinal
                &&& final(instance).buffers@.len() == old(instance).buffers@.len() + 1
                &&& final(instance).buffers@.subrange(0, old(instance).buffers@.len() as int)
                    == old(instance).buffers@
                &&& final(instance).buffers@.last().refcount == 1
                &&& final(instance).buffers@.last().element_type == result.element_type
                &&& final(instance).buffers@.last().encoding == result.encoding
                &&& final(instance).buffers@.last().shape@ == result.shape@
                &&& final(instance).buffers@.last().data@ == result.data@
                &&& final(instance).id == old(instance).id
                &&& final(instance).types@ == old(instance).types@
                &&& final(instance).drivers@ == old(instance).drivers@
                &&& final(self).outputs@ == old(self).outputs@.push(Slot::Reference(Some(VmRef {
                    instance_id: old(self).instance_id,
                    obj_id: old(instance).buffers@.len() as usize,
                    type_tag: buffer_view_type_tag(),
                })))
            },
            r is Err ==> *final(self) == *old(self) && *final(instance) == *old(instance),
            r matches Err(e) ==> e is InstanceMismatch || (e matches RuntimeError::StatusError(s)
                && s.kind_spec() == (StatusErrorKind::InvalidArgument)),
    {
        if instance.id != self.instance_id {
            return Err(RuntimeError::InstanceMismatch(String::from_str(
                "the call is not bound to this instance",
            )));
        }
        let bv = match BufferView::new(
            instance,
            result.shape.as_slice(),
            result.encoding,
            result.element_type,
            result.data,
        ) {
            Ok(bv) => bv,
            Err(e) => {
                return Err(e);
            },
        };
        self.outputs.slots.push(
            Slot::Reference(
                Some(
                    VmRef {
                        instance_id: self.instance_id,
                        obj_id: bv.obj_id,
                        type_tag: crate::instance::BUFFER_VIEW_TYPE_TAG_WORD,
                    },
                ),
            ),
        );
        if self.outputs.slots.len() > self.outputs.cap {
            self.outputs.cap = self.outputs.slots.len();
        }
        Ok(())
    }
}

/// Releasing a concatenation is possible exactly when each count covers
/// both parts together; each part alone is then coverable too.
pub proof fn lemma_can_release_parts(bufs: Seq<crate::instance::BufferObject>, a: Seq<Slot>, b: Seq<
    Slot,
>)
    requires
        can_release(bufs, a + b),
    ensures
        can_release(bufs, a),
        can_release(bufs, b),
{
    assert forall|o: int| 0 <= o < bufs.len() implies ref_occurrences(a, o) <= bufs[o].refcount
        && ref_occurrences(b, o) <= bufs[o].refcount by {
        lemma_occurrences_concat(a, b, o);
        assert(ref_occurrences(a + b, o) <= bufs[o].refcount);
    }
    assert forall|i: int| 0 <= i < a.len() implies ((#[trigger] a[i]) matches Slot::Reference(
        Some(r),
    ) ==> r.obj_id < bufs.len()) by {
        assert(a[i] == (a + b)[i]);
    }
    assert forall|i: int| 0 <= i < b.len() implies ((#[trigger] b[i]) matches Slot::Reference(
        Some(r),
    ) ==> r.obj_id < bufs.len()) by {
        assert(b[i] == (a + b)[a.len() + i]);
    }
}

/// After the first part's handles were given back, the second part's can
/// still be.
pub proof fn lemma_can_release_second_after_first(
    orig: Instance,
    mid: Instance,
    a: Seq<Slot>,
    b: Seq<Slot>,
)
    requires
        pool_released(mid, orig, a),
        can_release(orig.buffers@, a + b),
    ensures
        can_release(mid.buffers@, b),
{
    assert forall|o: int| 0 <= o < mid.buffers@.len() implies ref_occurrences(b, o)
        <= mid.buffers@[o].refcount by {
        lemma_occurrences_concat(a, b, o);
        assert(ref_occurrences(a + b, o) <= orig.buffers@[o].refcount);
        assert(mid.buffers@[o] == (crate::instance::BufferObject {
            refcount: (orig.buffers@[o].refcount - ref_occurrences(a, o)) as usize,
            element_type: orig.buffers@[o].element_type,
            encoding: orig.buffers@[o].encoding,
            shape: orig.buffers@[o].shape,
            data: orig.buffers@[o].data,
        }));
    }
    assert forall|i: int| 0 <= i < b.len() implies ((#[trigger] b[i]) matches Slot::Reference(
        Some(r),
    ) ==> r.obj_id < mid.buffers@.len()) by {
        assert(b[i] == (a + b)[a.len() + i]);
        assert(mid.buffers@.len() == orig.buffers@.len());
    }
}

/// Giving back one part's handles and then the other's gives back the
/// concatenation's.
pub proof fn lemma_pool_released_compose(
    orig: Instance,
    mid: Instance,
    fin: Instance,
    a: Seq<Slot>,
    b: Seq<Slot>,
)
    requires
        pool_released(mid, orig, a),
        pool_released(fin, mid, b),
        can_release(orig.buffers@, a + b),
    ensures
        pool_released(fin, orig, a + b),
{
    assert forall|o: int| 0 <= o < orig.buffers@.len() implies #[trigger] fin.buffers@[o] == (
        crate::instance::BufferObject {
            refcount: (orig.buffers@[o].refcount - ref_occurrences(a + b, o)) as usize,
            element_type: orig.buffers@[o].element_type,
            encoding: orig.buffers@[o].encoding,
            shape: orig.buffers@[o].shape,
            data: orig.buffers@[o].data,
        }) by {
        lemma_occurrences_concat(a, b, o);
        assert(ref_occurrences(a + b, o) <= orig.buffers@[o].refcount);
        assert(mid.buffers@[o] == (crate::instance::BufferObject {
            refcount: (orig.buffers@[o].refcount - ref_occurrences(a, o)) as usize,
            element_type: orig.buffers@[o].element_type,
            encoding: orig.buffers@[o].encoding,
            shape: orig.buffers@[o].shape,
            data: orig.buffers@[o].data,
        }));
        assert(fin.buffers@[o] == (crate::instance::BufferObject {
            refcount: (mid.buffers@[o].refcount - ref_occurrences(b, o)) as usize,
            element_type: mid.buffers@[o].element_type,
            encoding: mid.buffers@[o].encoding,
            shape: mid.buffers@[o].shape,
            data: mid.buffers@[o].data,
        }));
    }
}


/// Giving back no handles leaves the pool as it is.
pub proof fn lemma_pool_released_empty(inst: Instance)
    ensures
        pool_released(inst, inst, Seq::<Slot>::empty()),
{
    assert forall|o: int| 0 <= o < inst.buffers@.len() implies #[trigger] inst.buffers@[o] == (
        crate::instance::BufferObject {
            refcount: (inst.buffers@[o].refcount - ref_occurrences(Seq::<Slot>::empty(), o))
                as usize,
            element_type: inst.buffers@[o].element_type,
            encoding: inst.buffers@[o].encoding,
            shape: inst.buffers@[o].shape,
            data: inst.buffers@[o].data,
        }) by {
        assert(ref_occurrences(Seq::<Slot>::empty(), o) == 0);
    }
}

} // verus!
