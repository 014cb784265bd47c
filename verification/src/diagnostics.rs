//! Compiler diagnostics: an ordered, growable log of classified messages,
//! filled in by the compiler's reporting callback during one invocation
//! and cleared before each stage that can produce new ones.

use vstd::prelude::*;

verus! {

/// One classified compiler message.
#[derive(Debug)]
pub enum Diagnostic {
    Note(String),
    Warning(String),
    Error(String),
    Remark(String),
}

impl Diagnostic {
    /// The message text of the diagnostic.
    pub open spec fn message_spec(self) -> Seq<char> {
        match self {
            Diagnostic::Note(s) => s@,
            Diagnostic::Warning(s) => s@,
            Diagnostic::Error(s) => s@,
            Diagnostic::Remark(s) => s@,
        }
    }

    /// The diagnostic a reported severity word classifies a message as:
    /// notes, warnings, errors and remarks in that order.  A severity this
    /// layer does not know yields nothing rather than a wrong class.
    pub fn from_severity(severity: u32, message: String) -> (r: Option<Diagnostic>)
        ensures
            severity == 0 ==> r == Some(Diagnostic::Note(message)),
            severity == 1 ==> r == Some(Diagnostic::Warning(message)),
            severity == 2 ==> r == Some(Diagnostic::Error(message)),
            severity == 3 ==> r == Some(Diagnostic::Remark(message)),
            severity > 3 ==> r is None,
            r matches Some(d) ==> d.message_spec() == message@,
    {
        if severity == 0 {
            Some(Diagnostic::Note(message))
        } else if severity == 1 {
            Some(Diagnostic::Warning(message))
        } else if severity == 2 {
            Some(Diagnostic::Error(message))
        } else if severity == 3 {
            Some(Diagnostic::Remark(message))
        } else {
            None
        }
    }

    /// Renders the diagnostic as text: its class name, then the message.
    pub fn to_text(&self) -> (r: String)
        ensures
            r@.len() > 0,
    {
        let mut out = String::new();
        match self {
            Diagnostic::Note(s) => {
                proof {
                    reveal_strlit("Note: ");
                }
                out.append("Note: ");
                out.append(s.as_str());
            },
            Diagnostic::Warning(s) => {
                proof {
                    reveal_strlit("Warning: ");
                }
                out.append("Warning: ");
                out.append(s.as_str());
            },
            Diagnostic::Error(s) => {
                proof {
                    reveal_strlit("Error: ");
                }
                out.append("Error: ");
                out.append(s.as_str());
            },
            Diagnostic::Remark(s) => {
                proof {
                    reveal_strlit("Remark: ");
                }
                out.append("Remark: ");
                out.append(s.as_str());
            },
        }
        out
    }
}

/// The accumulated diagnostics of one invocation.  The log lives at one
/// place for the whole foreign call and is cleared before reuse, never
/// accumulated across stages.
#[derive(Debug)]
pub struct Diagnostics {
    pub data: Vec<Diagnostic>,
}

impl Diagnostics {
    /// A log holding the given messages.
    pub fn new(data: Vec<Diagnostic>) -> (r: Diagnostics)
        ensures
            r.data@ == data@,
    {
        Diagnostics { data }
    }

    /// Empties the log, ready for the next stage.
    pub fn clear(&mut self)
        ensures
            final(self).data@.len() == 0,
    {
        self.data.clear();
    }

    /// Appends one captured message.
    pub fn push(&mut self, diagnostic: Diagnostic)
        ensures
            final(self).data@ == old(self).data@.push(diagnostic),
    {
        self.data.push(diagnostic);
    }

    /// The number of messages in the log.
    pub fn len(&self) -> (r: usize)
        ensures
            r == self.data@.len(),
    {
        self.data.len()
    }

    /// The message at the index.
    pub fn get(&self, index: usize) -> (r: &Diagnostic)
        requires
            index < self.data@.len(),
        ensures
            *r == self.data@[index as int],
    {
        &self.data[index]
    }
}

impl Default for Diagnostics {
    fn default() -> (r: Diagnostics)
        ensures
            r.data@.len() == 0,
    {
        Diagnostics { data: Vec::new() }
    }
}

} // verus!
