//! The status bridge: the runtime reports every fallible operation through a
//! tagged status word.  Zero means success; the small values `1..=17` stand
//! for the canonical condition codes and own nothing; any larger value is a
//! handle to a detailed diagnostic that carries its own message and must be
//! consumed exactly once (here enforced by ownership: converting or dropping
//! a `Status` consumes it).

use vstd::prelude::*;

verus! {

/// Largest raw value that is a canonical condition sentinel rather than a
/// detailed-diagnostic handle.
pub const STATUS_SENTINEL_MAX: usize = 17;

/// The canonical condition kinds of the runtime, plus a catch-all for codes
/// this layer does not know.
#[derive(Clone, Copy, PartialEq, Eq, Debug, Structural)]
pub enum StatusErrorKind {
    Cancelled,
    Unknown,
    InvalidArgument,
    DeadlineExceeded,
    NotFound,
    AlreadyExists,
    PermissionDenied,
    ResourceExhausted,
    FailedPrecondition,
    Aborted,
    OutOfRange,
    Unimplemented,
    Internal,
    Unavailable,
    DataLoss,
    Unauthenticated,
    Deferred,
    UnknownStatus,
}

impl StatusErrorKind {
    /// The numeric condition code of this kind; meaningful for every kind
    /// except the catch-all.
    pub open spec fn code_spec(self) -> nat {
        match self {
            StatusErrorKind::Cancelled => 1,
            StatusErrorKind::Unknown => 2,
            StatusErrorKind::InvalidArgument => 3,
            StatusErrorKind::DeadlineExceeded => 4,
            StatusErrorKind::NotFound => 5,
            StatusErrorKind::AlreadyExists => 6,
            StatusErrorKind::PermissionDenied => 7,
            StatusErrorKind::ResourceExhausted => 8,
            StatusErrorKind::FailedPrecondition => 9,
            StatusErrorKind::Aborted => 10,
            StatusErrorKind::OutOfRange => 11,
            StatusErrorKind::Unimplemented => 12,
            StatusErrorKind::Internal => 13,
            StatusErrorKind::Unavailable => 14,
            StatusErrorKind::DataLoss => 15,
            StatusErrorKind::Unauthenticated => 16,
            StatusErrorKind::Deferred => 17,
            StatusErrorKind::UnknownStatus => 0,
        }
    }

    /// The kind that a numeric condition code names; codes outside `1..=17`
    /// fall back to the catch-all.
    pub open spec fn kind_of_code_spec(code: nat) -> StatusErrorKind {
        if code == 1 {
            StatusErrorKind::Cancelled
        } else if code == 2 {
            StatusErrorKind::Unknown
        } else if code == 3 {
            StatusErrorKind::InvalidArgument
        } else if code == 4 {
            StatusErrorKind::DeadlineExceeded
        } else if code == 5 {
            StatusErrorKind::NotFound
        } else if code == 6 {
            StatusErrorKind::AlreadyExists
        } else if code == 7 {
            StatusErrorKind::PermissionDenied
        } else if code == 8 {
            StatusErrorKind::ResourceExhausted
        } else if code == 9 {
            StatusErrorKind::FailedPrecondition
        } else if code == 10 {
            StatusErrorKind::Aborted
        } else if code == 11 {
            StatusErrorKind::OutOfRange
        } else if code == 12 {
            StatusErrorKind::Unimplemented
        } else if code == 13 {
            StatusErrorKind::Internal
        } else if code == 14 {
            StatusErrorKind::Unavailable
        } else if code == 15 {
            StatusErrorKind::DataLoss
        } else if code == 16 {
            StatusErrorKind::Unauthenticated
        } else if code == 17 {
            StatusErrorKind::Deferred
        } else {
            StatusErrorKind::UnknownStatus
        }
    }

    /// Numeric condition code of this kind.  The catch-all kind names no
    /// canonical code and is excluded.
    pub fn to_code(self) -> (code: usize)
        requires
            self != (StatusErrorKind::UnknownStatus),
        ensures
            code == self.code_spec(),
            1 <= code <= STATUS_SENTINEL_MAX,
    {
        match self {
            StatusErrorKind::Cancelled => 1,
            StatusErrorKind::Unknown => 2,
            StatusErrorKind::InvalidArgument => 3,
            StatusErrorKind::DeadlineExceeded => 4,
            StatusErrorKind::NotFound => 5,
            StatusErrorKind::AlreadyExists => 6,
            StatusErrorKind::PermissionDenied => 7,
            StatusErrorKind::ResourceExhausted => 8,
            StatusErrorKind::FailedPrecondition => 9,
            StatusErrorKind::Aborted => 10,
            StatusErrorKind::OutOfRange => 11,
            StatusErrorKind::Unimplemented => 12,
            StatusErrorKind::Internal => 13,
            StatusErrorKind::Unavailable => 14,
            StatusErrorKind::DataLoss => 15,
            StatusErrorKind::Unauthenticated => 16,
            StatusErrorKind::Deferred => 17,
            StatusErrorKind::UnknownStatus => 0,
        }
    }

    /// The kind named by a numeric condition code.
    pub fn from_code(code: usize) -> (kind: StatusErrorKind)
        ensures
            kind == StatusErrorKind::kind_of_code_spec(code as nat),
    {
        if code == 1 {
            StatusErrorKind::Cancelled
        } else if code == 2 {
            StatusErrorKind::Unknown
        } else if code == 3 {
            StatusErrorKind::InvalidArgument
        } else if code == 4 {
            StatusErrorKind::DeadlineExceeded
        } else if code == 5 {
            StatusErrorKind::NotFound
        } else if code == 6 {
            StatusErrorKind::AlreadyExists
        } else if code == 7 {
            StatusErrorKind::PermissionDenied
        } else if code == 8 {
            StatusErrorKind::ResourceExhausted
        } else if code == 9 {
            StatusErrorKind::FailedPrecondition
        } else if code == 10 {
            StatusErrorKind::Aborted
        } else if code == 11 {
            StatusErrorKind::OutOfRange
        } else if code == 12 {
            StatusErrorKind::Unimplemented
        } else if code == 13 {
            StatusErrorKind::Internal
        } else if code == 14 {
            StatusErrorKind::Unavailable
        } else if code == 15 {
            StatusErrorKind::DataLoss
        } else if code == 16 {
            StatusErrorKind::Unauthenticated
        } else if code == 17 {
            StatusErrorKind::Deferred
        } else {
            StatusErrorKind::UnknownStatus
        }
    }

    /// The canonical codes and the kinds name each other consistently.
    pub proof fn lemma_code_round_trip(self)
        requires
            self != (StatusErrorKind::UnknownStatus),
        ensures
            StatusErrorKind::kind_of_code_spec(self.code_spec()) == self,
    {
    }

    /// The characters of the short human-readable condition name.
    pub open spec fn name_text(self) -> Seq<char> {
        match self {
            StatusErrorKind::Cancelled => "CANCELLED"@,
            StatusErrorKind::Unknown => "UNKNOWN"@,
            StatusErrorKind::InvalidArgument => "INVALID_ARGUMENT"@,
            StatusErrorKind::DeadlineExceeded => "DEADLINE_EXCEEDED"@,
            StatusErrorKind::NotFound => "NOT_FOUND"@,
            StatusErrorKind::AlreadyExists => "ALREADY_EXISTS"@,
            StatusErrorKind::PermissionDenied => "PERMISSION_DENIED"@,
            StatusErrorKind::ResourceExhausted => "RESOURCE_EXHAUSTED"@,
            StatusErrorKind::FailedPrecondition => "FAILED_PRECONDITION"@,
            StatusErrorKind::Aborted => "ABORTED"@,
            StatusErrorKind::OutOfRange => "OUT_OF_RANGE"@,
            StatusErrorKind::Unimplemented => "UNIMPLEMENTED"@,
            StatusErrorKind::Internal => "INTERNAL"@,
            StatusErrorKind::Unavailable => "UNAVAILABLE"@,
            StatusErrorKind::DataLoss => "DATA_LOSS"@,
            StatusErrorKind::Unauthenticated => "UNAUTHENTICATED"@,
            StatusErrorKind::Deferred => "DEFERRED"@,
            StatusErrorKind::UnknownStatus => "UNKNOWN_STATUS"@,
        }
    }

    /// A short human-readable name of the condition; never empty.
    pub fn name(self) -> (r: &'static str)
        ensures
            r@ == self.name_text(),
            r@.len() > 0,
    {
        match self {
            StatusErrorKind::Cancelled => {
                proof { reveal_strlit("CANCELLED"); }
                "CANCELLED"
            },
            StatusErrorKind::Unknown => {
                proof { reveal_strlit("UNKNOWN"); }
                "UNKNOWN"
            },
            StatusErrorKind::InvalidArgument => {
                proof { reveal_strlit("INVALID_ARGUMENT"); }
                "INVALID_ARGUMENT"
            },
            StatusErrorKind::DeadlineExceeded => {
                proof { reveal_strlit("DEADLINE_EXCEEDED"); }
                "DEADLINE_EXCEEDED"
            },
            StatusErrorKind::NotFound => {
                proof { reveal_strlit("NOT_FOUND"); }
                "NOT_FOUND"
            },
            StatusErrorKind::AlreadyExists => {
                proof { reveal_strlit("ALREADY_EXISTS"); }
                "ALREADY_EXISTS"
            },
            StatusErrorKind::PermissionDenied => {
                proof { reveal_strlit("PERMISSION_DENIED"); }
                "PERMISSION_DENIED"
            },
            StatusErrorKind::ResourceExhausted => {
                proof { reveal_strlit("RESOURCE_EXHAUSTED"); }
                "RESOURCE_EXHAUSTED"
            },
            StatusErrorKind::FailedPrecondition => {
                proof { reveal_strlit("FAILED_PRECONDITION"); }
                "FAILED_PRECONDITION"
            },
            StatusErrorKind::Aborted => {
                proof { reveal_strlit("ABORTED"); }
                "ABORTED"
            },
            StatusErrorKind::OutOfRange => {
                proof { reveal_strlit("OUT_OF_RANGE"); }
                "OUT_OF_RANGE"
            },
            StatusErrorKind::Unimplemented => {
                proof { reveal_strlit("UNIMPLEMENTED"); }
                "UNIMPLEMENTED"
            },
            StatusErrorKind::Internal => {
                proof { reveal_strlit("INTERNAL"); }
                "INTERNAL"
            },
            StatusErrorKind::Unavailable => {
                proof { reveal_strlit("UNAVAILABLE"); }
                "UNAVAILABLE"
            },
            StatusErrorKind::DataLoss => {
                proof { reveal_strlit("DATA_LOSS"); }
                "DATA_LOSS"
            },
            StatusErrorKind::Unauthenticated => {
                proof { reveal_strlit("UNAUTHENTICATED"); }
                "UNAUTHENTICATED"
            },
            StatusErrorKind::Deferred => {
                proof { reveal_strlit("DEFERRED"); }
                "DEFERRED"
            },
            StatusErrorKind::UnknownStatus => {
                proof { reveal_strlit("UNKNOWN_STATUS"); }
                "UNKNOWN_STATUS"
            },
        }
    }
}

/// The payload behind a detailed-diagnostic status handle.
#[derive(Debug)]
pub struct StatusDetail {
    pub kind: StatusErrorKind,
    pub message: String,
}

/// Result of a foreign call: success, a canonical condition sentinel, or an
/// owned detailed diagnostic.
#[derive(Debug)]
pub struct Status {
    pub raw: usize,
    pub detail: Option<StatusDetail>,
}

impl Status {
    /// Structural soundness of the tagged encoding: a detail payload exists
    /// exactly for handle values above the sentinel range, and it never
    /// carries the catch-all kind.
    pub open spec fn wf(self) -> bool {
        &&& (self.raw > STATUS_SENTINEL_MAX <==> self.detail is Some)
        &&& (self.detail matches Some(d) ==> d.kind != StatusErrorKind::UnknownStatus)
    }

    pub open spec fn raw_spec(self) -> nat {
        self.raw as nat
    }

    pub open spec fn is_ok_spec(self) -> bool {
        self.raw == 0
    }

    /// The condition kind this status signals; meaningful when not ok.
    pub open spec fn kind_spec(self) -> StatusErrorKind {
        if self.raw <= STATUS_SENTINEL_MAX {
            StatusErrorKind::kind_of_code_spec(self.raw as nat)
        } else {
            self.detail->0.kind
        }
    }

    /// The message text carried by a detailed diagnostic; empty otherwise.
    pub open spec fn message_spec(self) -> Seq<char> {
        match self.detail {
            Some(d) => d.message@,
            None => Seq::empty(),
        }
    }

    /// The success status.
    pub fn ok() -> (r: Status)
        ensures
            r.wf(),
            r.is_ok_spec(),
    {
        Status { raw: 0, detail: None }
    }

    /// A non-owning canonical sentinel for the given condition kind.
    pub fn from_code(kind: StatusErrorKind) -> (r: Status)
        requires
            kind != (StatusErrorKind::UnknownStatus),
        ensures
            r.wf(),
            !r.is_ok_spec(),
            r.kind_spec() == kind,
            r.message_spec() == Seq::<char>::empty(),
    {
        let code = kind.to_code();
        proof { kind.lemma_code_round_trip(); }
        Status { raw: code, detail: None }
    }

    /// The status a raw tagged word in the sentinel range stands for: zero is
    /// success, `1..=17` the canonical conditions.  Larger words are handles
    /// to foreign-owned diagnostics and cannot be adopted from a bare word.
    pub fn from_raw(raw: usize) -> (r: Status)
        requires
            raw <= STATUS_SENTINEL_MAX,
        ensures
            r.wf(),
            r.raw_spec() == raw,
            r.is_ok_spec() <==> raw == 0,
            r.kind_spec() == StatusErrorKind::kind_of_code_spec(raw as nat),
    {
        Status { raw, detail: None }
    }

    /// An owning detailed diagnostic with the given kind and message.
    pub fn with_message(kind: StatusErrorKind, message: String) -> (r: Status)
        requires
            kind != (StatusErrorKind::UnknownStatus),
        ensures
            r.wf(),
            !r.is_ok_spec(),
            r.kind_spec() == kind,
            r.message_spec() == message@,
    {
        Status { raw: STATUS_SENTINEL_MAX + 1, detail: Some(StatusDetail { kind, message }) }
    }

    pub fn is_ok(&self) -> (r: bool)
        ensures
            r == self.is_ok_spec(),
    {
        self.raw == 0
    }

    /// Converts this status into a result, consuming it; success becomes
    /// `Ok(())`, every sentinel or detailed diagnostic becomes an error that
    /// now owns the payload.
    pub fn to_result(self) -> (r: Result<(), StatusError>)
        requires
            self.wf(),
        ensures
            self.is_ok_spec() <==> r is Ok,
            (r matches Err(e) ==> e.status == self),
    {
        if self.is_ok() {
            Ok(())
        } else {
            Err(StatusError { status: self })
        }
    }

    /// Short-circuit composition: keeps `self` when it already signals
    /// failure, otherwise adopts `other`.  This lets a series of fallible
    /// cleanup steps accumulate into one final status that reports the first
    /// failure.
    pub fn chain(self, other: Status) -> (r: Status)
        ensures
            !self.is_ok_spec() ==> r == self,
            self.is_ok_spec() ==> r == other,
    {
        if self.is_ok() {
            other
        } else {
            self
        }
    }
}

/// A status known not to be ok, owning whatever payload the status carried.
#[derive(Debug)]
pub struct StatusError {
    pub status: Status,
}

impl StatusError {
    pub open spec fn wf(self) -> bool {
        self.status.wf() && !self.status.is_ok_spec()
    }

    /// The error owning a bare canonical sentinel of the given kind.
    pub fn from_kind(kind: StatusErrorKind) -> (r: StatusError)
        requires
            kind != (StatusErrorKind::UnknownStatus),
        ensures
            r.wf(),
            r.kind_spec() == kind,
            r.status_spec().message_spec() == Seq::<char>::empty(),
    {
        StatusError { status: Status::from_code(kind) }
    }

    pub open spec fn status_spec(self) -> Status {
        self.status
    }

    pub open spec fn kind_spec(self) -> StatusErrorKind {
        self.status.kind_spec()
    }

    pub fn kind(&self) -> (r: StatusErrorKind)
        requires
            self.wf(),
        ensures
            r == self.kind_spec(),
    {
        if self.status.raw <= STATUS_SENTINEL_MAX {
            StatusErrorKind::from_code(self.status.raw)
        } else {
            match &self.status.detail {
                Some(d) => d.kind,
                None => StatusErrorKind::UnknownStatus,
            }
        }
    }

    /// Renders the error as text: the condition name, followed by the
    /// detailed message when one is owned.  The result is never empty.
    pub fn message(&self) -> (r: String)
        requires
            self.wf(),
        ensures
            r@.len() > 0,
            r@ == self.kind_spec().name_text() + self.status.message_spec(),
    {
        let mut out = String::new();
        let kind = self.kind();
        let name = kind.name();
        out.append(name);
        match &self.status.detail {
            Some(d) => {
                out.append(d.message.as_str());
            },
            None => {},
        }
        out
    }
}

} // verus!
