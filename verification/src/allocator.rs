//! The allocator bridge: the runtime asks its host for memory through a
//! single callback taking a command word.  The host-backed variant serves
//! every command and keeps, for each block, a fixed-size header word placed
//! in front of the returned storage that remembers the block's current size;
//! free and realloc read the size back from that header instead of asking
//! the runtime.  Here the block table is the model of that header scheme:
//! one entry per block, holding exactly the header's content.  A second,
//! null variant accepts only free (as a no-op) and rejects everything else;
//! it is used to hand the runtime externally owned memory it must not
//! allocate through.

use vstd::prelude::*;
use crate::status::{Status, StatusErrorKind};

verus! {

/// Alignment of the host blocks, and the size of the header that fronts
/// each of them.
pub const ALIGNMENT: usize = 16;

/// Largest request the bridge accepts; anything above the platform's
/// maximum signed size is rejected before the host allocator sees it.
pub open spec fn max_alloc_size() -> nat {
    isize::MAX as nat
}

/// One command of the foreign allocator contract.
#[allow(inconsistent_fields)]
pub enum AllocatorCommand {
    Malloc { size: usize },
    Calloc { size: usize },
    /// A null pointer degrades the request to a plain allocation.
    Realloc { ptr: Option<usize>, size: usize },
    Free { ptr: usize },
}

/// What a served command hands back.
#[derive(Clone, Copy, PartialEq, Eq, Debug, Structural)]
pub enum AllocatorResponse {
    /// The block the request was served with.
    Pointer(usize),
    /// The freed block was taken back; nothing is returned.
    Released,
}

/// The block table of the host-backed bridge: one entry per block ever
/// handed out, holding the size its header word currently stores, or
/// nothing once the block was freed.
pub struct HostAllocator {
    pub blocks: Vec<Option<usize>>,
}

impl HostAllocator {
    pub open spec fn view_spec(self) -> Seq<Option<usize>> {
        self.blocks@
    }

    /// Whether `p` names a block that is currently handed out.
    pub open spec fn live(self, p: int) -> bool {
        0 <= p < self.blocks@.len() && self.blocks@[p] is Some
    }
}

/// An allocator handle as the runtime sees one: either the host-backed
/// bridge or the null bridge.
pub enum Allocator {
    Host(HostAllocator),
    Null,
}

impl Allocator {
    /// The host-backed bridge over the host's own allocator, with no blocks
    /// handed out yet.
    pub fn get_global() -> (r: Allocator)
        ensures
            r matches Allocator::Host(h) && h.view_spec() == Seq::<Option<usize>>::empty(),
    {
        Allocator::Host(HostAllocator { blocks: Vec::new() })
    }

    /// The bridge that owns nothing: frees are ignored, every other command
    /// is rejected.
    pub fn null_allocator() -> (r: Allocator)
        ensures
            r is Null,
    {
        Allocator::Null
    }

    /// Which commands a bridge accepts only on live blocks: reallocating or
    /// freeing anything else is undefined in the foreign contract, so it is
    /// excluded here rather than given a meaning.
    pub open spec fn ctl_ok(self, command: AllocatorCommand) -> bool {
        self matches Allocator::Host(h) ==> match command {
            AllocatorCommand::Realloc { ptr: Some(p), .. } => h.live(p as int),
            AllocatorCommand::Free { ptr } => h.live(ptr as int),
            _ => true,
        }
    }

    /// The single dispatch function of the allocator contract.
    ///
    /// Host-backed: an oversized request is rejected as out-of-range with
    /// the table unchanged; an allocation (including realloc-of-null)
    /// appends a fresh block whose header stores the requested size;
    /// realloc retires the old block and hands out a fresh one with the new
    /// size; free clears the block's entry.  Null: free is accepted and
    /// ignored, everything else is rejected as unimplemented.
    pub fn ctl(&mut self, command: AllocatorCommand) -> (r: Result<AllocatorResponse, Status>)
        requires
            old(self).ctl_ok(command),
        ensures
            match *old(self) {
                Allocator::Null => {
                    &&& *final(self) is Null
                    &&& match command {
                        AllocatorCommand::Free { .. } => r == Ok::<_, Status>(
                            AllocatorResponse::Released,
                        ),
                        _ => r matches Err(s) && s.kind_spec() == (
                            StatusErrorKind::Unimplemented) && !s.is_ok_spec() && s.wf(),
                    }
                },
                Allocator::Host(h) => {
                    &&& *final(self) is Host
                    &&& {
                        let h2 = final(self)->Host_0;
                        match command {
                            AllocatorCommand::Malloc { size } | AllocatorCommand::Calloc {
                                size,
                            } | AllocatorCommand::Realloc { ptr: None, size } => {
                                if size > max_alloc_size() {
                                    &&& h2 == h
                                    &&& r matches Err(s) && s.kind_spec() == (
                                        StatusErrorKind::OutOfRange) && !s.is_ok_spec() && s.wf()
                                } else {
                                    &&& h2.view_spec() == h.view_spec().push(Some(size))
                                    &&& r == Ok::<_, Status>(AllocatorResponse::Pointer(
                                        h.view_spec().len() as usize,
                                    ))
                                }
                            },
                            AllocatorCommand::Realloc { ptr: Some(p), size } => {
                                if size > max_alloc_size() {
                                    &&& h2 == h
                                    &&& r matches Err(s) && s.kind_spec() == (
                                        StatusErrorKind::OutOfRange) && !s.is_ok_spec() && s.wf()
                                } else {
                                    &&& h2.view_spec() == h.view_spec().update(
                                        p as int,
                                        None,
                                    ).push(Some(size))
                                    &&& r == Ok::<_, Status>(AllocatorResponse::Pointer(
                                        h.view_spec().len() as usize,
                                    ))
                                }
                            },
                            AllocatorCommand::Free { ptr } => {
                                &&& h2.view_spec() == h.view_spec().update(ptr as int, None)
                                &&& r == Ok::<_, Status>(AllocatorResponse::Released)
                            },
                        }
                    }
                },
            },
    {
        match self {
            Allocator::Null => {
                match command {
                    AllocatorCommand::Free { ptr: _ } => Ok(AllocatorResponse::Released),
                    _ => Err(Status::from_code(StatusErrorKind::Unimplemented)),
                }
            },
            Allocator::Host(h) => {
                match command {
                    AllocatorCommand::Malloc { size } => Self::host_alloc(h, size),
                    AllocatorCommand::Calloc { size } => Self::host_alloc(h, size),
                    AllocatorCommand::Realloc { ptr: None, size } => Self::host_alloc(h, size),
                    AllocatorCommand::Realloc { ptr: Some(p), size } => {
                        if size > (isize::MAX as usize) {
                            return Err(Status::from_code(StatusErrorKind::OutOfRange));
                        }
                        // The old size is read back from the block's header;
                        // the block is retired and the request is served
                        // from a fresh one storing the new size.
                        h.blocks.set(p, None);
                        let fresh = h.blocks.len();
                        h.blocks.push(Some(size));
                        Ok(AllocatorResponse::Pointer(fresh))
                    },
                    AllocatorCommand::Free { ptr } => {
                        h.blocks.set(ptr, None);
                        Ok(AllocatorResponse::Released)
                    },
                }
            },
        }
    }

    /// Serves one plain allocation: checks the size bound, then hands out a
    /// fresh block whose header stores the requested size.
    fn host_alloc(h: &mut HostAllocator, size: usize) -> (r: Result<AllocatorResponse, Status>)
        ensures
            if size > max_alloc_size() {
                &&& *final(h) == *old(h)
                &&& r matches Err(s) && s.kind_spec() == (StatusErrorKind::OutOfRange)
                    && !s.is_ok_spec() && s.wf()
            } else {
                &&& final(h).view_spec() == old(h).view_spec().push(Some(size))
                &&& r == Ok::<_, Status>(AllocatorResponse::Pointer(
                    old(h).view_spec().len() as usize,
                ))
            },
    {
        if size > (isize::MAX as usize) {
            return Err(Status::from_code(StatusErrorKind::OutOfRange));
        }
        let fresh = h.blocks.len();
        h.blocks.push(Some(size));
        Ok(AllocatorResponse::Pointer(fresh))
    }
}

} // verus!
