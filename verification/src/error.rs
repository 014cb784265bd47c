//! Binding-level runtime errors: either a converted foreign status or a
//! logic error this layer detects itself before any foreign state is touched.

use vstd::prelude::*;
use crate::status::StatusError;

verus! {

#[derive(Debug)]
pub enum RuntimeError {
    /// A foreign call signalled failure; the converted status is carried.
    StatusError(StatusError),
    /// An index was outside the addressed container; carries the index.
    OutOfBounds(usize),
    /// A slot or value was accessed at a primitive kind other than its own.
    ValueTypeMismatch,
    /// A reference or list created against one instance was used with
    /// another; carries an explanatory message.
    InstanceMismatch(String),
}

impl RuntimeError {
    pub open spec fn is_status(self) -> bool {
        self is StatusError
    }
}

} // verus!
