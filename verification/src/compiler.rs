//! The compiler front end: a process-wide compiler initialized exactly
//! once behind an explicit guard, sessions per compilation unit, and
//! invocations that run a pipeline over a parsed source and write their
//! artifact to an output.  The optimization pipeline itself belongs to the
//! foreign compiler; what is made safe here is everything around it — the
//! once-only guard, flag validation, source handling, the diagnostics
//! discipline, and the staging rules of an invocation.

use vstd::prelude::*;
use crate::diagnostics::{Diagnostic, Diagnostics};
use crate::module::Module;
use crate::source::Source;
use crate::text;

verus! {

/// A detailed error from the compiler, carrying an owned message.
#[derive(Debug)]
pub struct Error {
    pub message: String,
}

impl Error {
    /// Wraps an owned diagnostic message.
    pub fn from_message(message: String) -> (r: Error)
        ensures
            r.message@ == message@,
    {
        Error { message }
    }

    /// The message text.
    pub fn message(&self) -> (r: &String)
        ensures
            r@ == self.message@,
    {
        &self.message
    }
}

/// Errors of the compiler front end.
#[derive(Debug)]
pub enum CompilerError {
    /// The process-wide compiler was initialized more than once.
    AlreadyInitialized,
    /// A string carried an embedded NUL, or lacked its terminator, and
    /// cannot cross the C boundary.
    NulError,
    /// A detailed error with the diagnostics captured alongside it.
    DetailedError(Error, Diagnostics),
    /// A failed stage, reported through the captured diagnostics.
    DiagnosticsError(Diagnostics),
    /// A named source file does not exist.
    FileNotFound(String),
}

/// The version word of the compiler API packs the major version above the
/// minor one.
pub fn get_api_version(version_word: u32) -> (r: (u16, u16))
    ensures
        r.0 == version_word >> 16,
        r.1 == version_word & 0xFFFF,
{
    let major = (version_word >> 16) as u16;
    let minor = (version_word & 0xFFFF) as u16;
    proof {
        assert(version_word >> 16 <= 0xFFFF) by (bit_vector);
        assert((version_word & 0xFFFF) <= 0xFFFF) by (bit_vector);
    }
    (major, minor)
}

/// The process-wide once-only initialization guard.  The underlying
/// library is not safe to initialize twice, so the process holds exactly
/// one guard and every initialization goes through it.
pub struct InitGuard {
    pub initialized: bool,
}

impl InitGuard {
    /// The guard of a process in which the compiler has not been
    /// initialized yet.
    pub fn new() -> (r: InitGuard)
        ensures
            !r.initialized,
    {
        InitGuard { initialized: false }
    }
}

/// The process-wide compiler.  Creating it initializes the foreign
/// library through the guard; a second creation against the same guard
/// fails with already-initialized, and the first compiler stays fully
/// usable.
pub struct Compiler {
    pub revision: String,
    pub backends: Vec<String>,
    pub plugins: Vec<String>,
    pub cl_flags: Vec<String>,
}

impl Compiler {
    /// Initializes the process-wide compiler.  Exactly the first attempt
    /// against a guard succeeds; every later one fails with
    /// already-initialized and leaves the guard as it is.
    pub fn new(guard: &mut InitGuard) -> (r: Result<Compiler, CompilerError>)
        ensures
            !old(guard).initialized <==> r is Ok,
            final(guard).initialized,
            r matches Ok(c) ==> {
                &&& c.revision@.len() == 0
                &&& c.backends@.len() == 0
                &&& c.plugins@.len() == 0
                &&& c.cl_flags@.len() == 0
            },
            r is Err ==> (r matches Err(e) && e is AlreadyInitialized),
    {
        if guard.initialized {
            return Err(CompilerError::AlreadyInitialized);
        }
        guard.initialized = true;
        Ok(Compiler {
            revision: String::new(),
            backends: Vec::new(),
            plugins: Vec::new(),
            cl_flags: Vec::new(),
        })
    }

    /// The build revision of the compiler; a development build reports an
    /// empty string.
    pub fn get_revision(&self) -> (r: Result<String, CompilerError>)
        ensures
            (r matches Ok(s) && s@ == self.revision@),
    {
        Ok(String::from_str(self.revision.as_str()))
    }

    /// Installs the command-line environment from an explicit argument
    /// list.  An argument with an embedded NUL cannot cross the C
    /// boundary and fails the whole call with nothing installed.
    pub fn setup_global_cl(&mut self, argv: Vec<String>) -> (r: Result<(), CompilerError>)
        ensures
            (forall|i: int| 0 <= i < argv@.len() ==> !(exists|j: int|
                0 <= j < (#[trigger] argv@[i])@.len() && argv@[i]@[j] == '\0')) <==> r is Ok,
            r is Ok ==> {
                &&& text::views_of(final(self).cl_flags@) == text::views_of(argv@)
                &&& final(self).revision@ == old(self).revision@
                &&& final(self).backends@ == old(self).backends@
                &&& final(self).plugins@ == old(self).plugins@
            },
            r is Err ==> *final(self) == *old(self) && (r matches Err(e) && e is NulError),
    {
        let n = argv.len();
        let mut i: usize = 0;
        while i < n
            invariant
                0 <= i <= n,
                n == argv@.len(),
                forall|k: int| 0 <= k < i ==> !(exists|j: int|
                    0 <= j < (#[trigger] argv@[k])@.len() && argv@[k]@[j] == '\0'),
            decreases n - i,
        {
            if text::contains_nul(argv[i].as_str()) {
                return Err(CompilerError::NulError);
            }
            i = i + 1;
        }
        let copied = text::clone_strings(&argv);
        proof {
            assert(text::views_of(copied@) =~= text::views_of(argv@));
        }
        self.cl_flags = copied;
        Ok(())
    }

    /// The registered target backends, as the foreign compiler enumerates
    /// them through its capture callback.
    pub fn get_registered_hal_target_backends(&self) -> (r: Vec<String>)
        ensures
            text::views_of(r@) == text::views_of(self.backends@),
    {
        let out = text::clone_strings(&self.backends);
        proof {
            assert(text::views_of(out@) =~= text::views_of(self.backends@));
        }
        out
    }

    /// The registered plugins, enumerated the same way.
    pub fn get_plugins(&self) -> (r: Vec<String>)
        ensures
            text::views_of(r@) == text::views_of(self.plugins@),
    {
        let out = text::clone_strings(&self.plugins);
        proof {
            assert(text::views_of(out@) =~= text::views_of(self.plugins@));
        }
        out
    }

    /// Creates a compilation session.
    pub fn create_session(&self) -> (r: Session)
        ensures
            r.flags@.len() == 0,
    {
        Session { flags: Vec::new() }
    }
}

/// A scope in which one or more compilations run, with its private flag
/// set.
pub struct Session {
    pub flags: Vec<String>,
}

impl Session {
    /// Sets session flags from an argument list.  Flag validation beyond
    /// the C string convention is the wrapped compiler's own contract; an
    /// argument with an embedded NUL fails the whole call with the flag
    /// set unchanged.
    pub fn set_flags(&mut self, argv: Vec<String>) -> (r: Result<(), CompilerError>)
        ensures
            (forall|i: int| 0 <= i < argv@.len() ==> !(exists|j: int|
                0 <= j < (#[trigger] argv@[i])@.len() && argv@[i]@[j] == '\0')) <==> r is Ok,
            r is Ok ==> text::views_of(final(self).flags@) == text::views_of(old(self).flags@)
                + text::views_of(argv@),
            r is Err ==> *final(self) == *old(self) && (r matches Err(e) && e is NulError),
    {
        let n = argv.len();
        let mut i: usize = 0;
        while i < n
            invariant
                0 <= i <= n,
                n == argv@.len(),
                forall|k: int| 0 <= k < i ==> !(exists|j: int|
                    0 <= j < (#[trigger] argv@[k])@.len() && argv@[k]@[j] == '\0'),
            decreases n - i,
        {
            if text::contains_nul(argv[i].as_str()) {
                return Err(CompilerError::NulError);
            }
            i = i + 1;
        }
        let ghost before = self.flags@;
        let ghost incoming = argv@;
        let mut j: usize = 0;
        let mut argv = argv;
        while j < n
            invariant
                0 <= j <= n,
                n == incoming.len(),
                argv@ == incoming.skip(j as int),
                text::views_of(self.flags@) == text::views_of(before) + text::views_of(
                    incoming.subrange(0, j as int),
                ),
            decreases n - j,
        {
            let a = argv.remove(0);
            let ghost flags0 = self.flags@;
            self.flags.push(a);
            proof {
                assert(a == incoming[j as int]);
                assert(argv@ =~= incoming.skip(j + 1));
                let lhs = text::views_of(self.flags@);
                let rhs = text::views_of(before) + text::views_of(incoming.subrange(0, j + 1));
                assert(text::views_of(flags0) == text::views_of(before) + text::views_of(
                    incoming.subrange(0, j as int),
                ));
                assert(text::views_of(flags0).len() == flags0.len());
                assert(text::views_of(before).len() == before.len());
                assert(text::views_of(incoming.subrange(0, j as int)).len() == j);
                assert(text::views_of(incoming.subrange(0, j + 1)).len() == j + 1);
                assert(text::views_of(self.flags@).len() == self.flags@.len());
                assert(lhs.len() == rhs.len());
                assert forall|k: int| 0 <= k < lhs.len() implies lhs[k] == rhs[k] by {
                    assert(lhs[k] == self.flags@[k]@);
                    if k < flags0.len() {
                        assert(self.flags@[k] == flags0[k]);
                        assert(text::views_of(flags0)[k] == flags0[k]@);
                        assert(text::views_of(flags0)[k] == (text::views_of(before)
                            + text::views_of(incoming.subrange(0, j as int)))[k]);
                        if k >= before.len() {
                            assert(text::views_of(incoming.subrange(0, j as int))[k - before.len()]
                                == incoming.subrange(0, j as int)[k - before.len()]@);
                            assert(text::views_of(incoming.subrange(0, j + 1))[k - before.len()]
                                == incoming.subrange(0, j + 1)[k - before.len()]@);
                        } else {
                            assert(text::views_of(before)[k] == before[k]@);
                        }
                    } else {
                        assert(self.flags@[k] == a);
                        assert(text::views_of(incoming.subrange(0, j + 1))[k - before.len()]
                            == incoming.subrange(0, j + 1)[k - before.len()]@);
                    }
                }
                assert(text::views_of(self.flags@) =~= text::views_of(before) + text::views_of(
                    incoming.subrange(0, j + 1),
                ));
            }
            j = j + 1;
        }
        proof {
            assert(incoming.subrange(0, n as int) =~= incoming);
        }
        Ok(())
    }

    /// The flags in effect, as the foreign compiler reports them through
    /// its capture callback.  This model enumerates the explicitly set
    /// flags; default-valued flags are not modelled, so both selections
    /// report the same list.
    pub fn get_flags(&self, non_default_only: bool) -> (r: Vec<String>)
        ensures
            text::views_of(r@) == text::views_of(self.flags@),
    {
        let out = text::clone_strings(&self.flags);
        proof {
            assert(text::views_of(out@) =~= text::views_of(self.flags@));
        }
        out
    }

    /// Creates an invocation in this session.
    pub fn create_invocation(&self) -> (r: Invocation)
        ensures
            r.diagnostics.data@.len() == 0,
            r.parsed is None,
            r.compiled is None,
            r.verify_ir,
            !r.console_diagnostics,
            r.wf(),
    {
        Invocation {
            diagnostics: Diagnostics::new(Vec::new()),
            parsed: None,
            compiled: None,
            verify_ir: true,
            console_diagnostics: false,
            from_phase: String::from_str("input"),
            to_phase: String::from_str("end"),
        }
    }

    /// Creates a source from a NUL-terminated buffer.
    pub fn create_source_from_cstr(&self, buffer: &[u8]) -> (r: Result<Source, CompilerError>)
        ensures
            (buffer@.len() > 0 && buffer@.last() == 0 && (forall|j: int|
                0 <= j < buffer@.len() - 1 ==> buffer@[j] != 0)) <==> r is Ok,
            r matches Ok(s) ==> s.data@ == buffer@.subrange(0, buffer@.len() - 1),
            r matches Err(e) ==> e is NulError,
    {
        Source::from_cstr(buffer)
    }

    /// Creates a source from a raw byte buffer.
    pub fn create_source_from_buf(&self, buffer: &[u8]) -> (r: Result<Source, CompilerError>)
        ensures
            r is Ok,
            r matches Ok(s) ==> s.data@ == buffer@,
    {
        Source::from_buf(buffer)
    }
}

/// The named pipelines an invocation can run.
#[derive(Clone, Copy, PartialEq, Eq, Debug, Structural)]
pub enum Pipeline {
    /// The full compilation pipeline.
    Std,
    /// Translation of a single executable into its target-specific binary
    /// form.
    HalExecutable,
    /// The precompilation pipeline: input preprocessing and pre-fusion
    /// global optimization.
    Precompile,
}

impl Pipeline {
    /// The wire value of the pipeline selector in the foreign ABI.
    pub open spec fn wire_spec(self) -> u32 {
        match self {
            Pipeline::Std => 0,
            Pipeline::HalExecutable => 1,
            Pipeline::Precompile => 2,
        }
    }

    pub fn to_wire(self) -> (w: u32)
        ensures
            w == self.wire_spec(),
    {
        match self {
            Pipeline::Std => 0,
            Pipeline::HalExecutable => 1,
            Pipeline::Precompile => 2,
        }
    }
}

/// A single run of a session: parses one source, runs one pipeline, and
/// writes its artifact.  Diagnostics are cleared before every stage that
/// can produce new ones, so the log always describes the latest stage.
pub struct Invocation {
    pub diagnostics: Diagnostics,
    pub parsed: Option<Module>,
    pub compiled: Option<Pipeline>,
    pub verify_ir: bool,
    pub console_diagnostics: bool,
    pub from_phase: String,
    pub to_phase: String,
}

impl Invocation {
    /// A parsed module always fits the wire format.
    pub open spec fn wf(self) -> bool {
        self.parsed matches Some(m) ==> m.wf()
    }

    /// Routes pretty-printed diagnostics to the console as well.
    pub fn enable_console_diagnostics(&mut self)
        ensures
            final(self).console_diagnostics,
            final(self).diagnostics == old(self).diagnostics,
            final(self).parsed == old(self).parsed,
            final(self).compiled == old(self).compiled,
            final(self).verify_ir == old(self).verify_ir,
            final(self).from_phase == old(self).from_phase,
            final(self).to_phase == old(self).to_phase,
    {
        self.console_diagnostics = true;
    }

    /// Sets the mnemonic phase name compilation runs from; its meaning is
    /// pipeline specific.  A name with an embedded NUL cannot cross the C
    /// boundary and changes nothing.
    pub fn set_compile_from_phase(&mut self, phase: &str) -> (r: Result<(), CompilerError>)
        ensures
            (exists|j: int| 0 <= j < phase@.len() && phase@[j] == '\0') ==> (r matches Err(e)
                && e is NulError && *final(self) == *old(self)),
            !(exists|j: int| 0 <= j < phase@.len() && phase@[j] == '\0') ==> {
                &&& r is Ok
                &&& final(self).from_phase@ == phase@
                &&& final(self).to_phase == old(self).to_phase
                &&& final(self).parsed == old(self).parsed
                &&& final(self).compiled == old(self).compiled
                &&& final(self).diagnostics == old(self).diagnostics
            },
    {
        if text::contains_nul(phase) {
            return Err(CompilerError::NulError);
        }
        self.from_phase = String::from_str(phase);
        Ok(())
    }

    /// Sets the mnemonic phase name compilation runs to; its meaning is
    /// pipeline specific.
    pub fn set_compile_to_phase(&mut self, phase: &str) -> (r: Result<(), CompilerError>)
        ensures
            (exists|j: int| 0 <= j < phase@.len() && phase@[j] == '\0') ==> (r matches Err(e)
                && e is NulError && *final(self) == *old(self)),
            !(exists|j: int| 0 <= j < phase@.len() && phase@[j] == '\0') ==> {
                &&& r is Ok
                &&& final(self).to_phase@ == phase@
                &&& final(self).from_phase == old(self).from_phase
                &&& final(self).parsed == old(self).parsed
                &&& final(self).compiled == old(self).compiled
                &&& final(self).diagnostics == old(self).diagnostics
            },
    {
        if text::contains_nul(phase) {
            return Err(CompilerError::NulError);
        }
        self.to_phase = String::from_str(phase);
        Ok(())
    }

    /// Enables or disables verification of the program after each pass.
    pub fn set_verify_ir(&mut self, enable: bool)
        ensures
            final(self).verify_ir == enable,
            final(self).diagnostics == old(self).diagnostics,
            final(self).parsed == old(self).parsed,
            final(self).compiled == old(self).compiled,
            final(self).console_diagnostics == old(self).console_diagnostics,
            final(self).from_phase == old(self).from_phase,
            final(self).to_phase == old(self).to_phase,
    {
        self.verify_ir = enable;
    }

    /// Parses a source into this invocation in preparation for a
    /// compilation action.  The diagnostics are cleared first; a source
    /// that is not a well-formed module reports one error diagnostic and
    /// fails with the captured log.
    pub fn parse_source(&mut self, source: Source) -> (r: Result<(), CompilerError>)
        requires
            old(self).wf(),
        ensures
            final(self).wf(),
            crate::module::parse_spec(source.data@) is Some <==> r is Ok,
            r is Ok ==> {
                &&& final(self).parsed matches Some(m) && crate::module::parse_spec(source.data@)
                    == Some((m.name@, crate::module::exports_view(m.exports@)))
                &&& final(self).diagnostics.data@.len() == 0
                &&& final(self).compiled is None
            },
            r is Err ==> {
                &&& final(self).parsed == old(self).parsed
                &&& final(self).compiled == old(self).compiled
                &&& final(self).diagnostics.data@.len() == 1
                &&& r matches Err(e) && e matches CompilerError::DiagnosticsError(d)
                    && d.data@.len() == 1 && d.data@[0] is Error
            },
            final(self).verify_ir == old(self).verify_ir,
            final(self).console_diagnostics == old(self).console_diagnostics,
    {
        self.diagnostics.clear();
        match Module::parse(source.data.as_slice()) {
            Some(m) => {
                self.parsed = Some(m);
                self.compiled = None;
                Ok(())
            },
            None => {
                proof {
                    reveal_strlit("source is not a well-formed module");
                }
                self.diagnostics.push(
                    Diagnostic::Error(String::from_str("source is not a well-formed module")),
                );
                let mut captured: Vec<Diagnostic> = Vec::new();
                captured.push(
                    Diagnostic::Error(String::from_str("source is not a well-formed module")),
                );
                Err(CompilerError::DiagnosticsError(Diagnostics::new(captured)))
            },
        }
    }

    /// Runs one of the named pipelines over the parsed source.  The
    /// diagnostics are cleared first; running without a parsed source
    /// reports one error diagnostic and fails with the captured log.
    pub fn pipeline(&mut self, pipeline: Pipeline) -> (r: Result<(), CompilerError>)
        requires
            old(self).wf(),
        ensures
            final(self).wf(),
            old(self).parsed is Some <==> r is Ok,
            r is Ok ==> {
                &&& final(self).parsed == old(self).parsed
                &&& final(self).compiled == Some(pipeline)
                &&& final(self).diagnostics.data@.len() == 0
            },
            r is Err ==> {
                &&& final(self).parsed == old(self).parsed
                &&& final(self).compiled == old(self).compiled
                &&& r matches Err(e) && e matches CompilerError::DiagnosticsError(d)
                    && d.data@.len() == 1 && d.data@[0] is Error
            },
            final(self).verify_ir == old(self).verify_ir,
            final(self).console_diagnostics == old(self).console_diagnostics,
    {
        self.diagnostics.clear();
        match &self.parsed {
            Some(_) => {
                self.compiled = Some(pipeline);
                Ok(())
            },
            None => {
                proof {
                    reveal_strlit("no source has been parsed");
                }
                self.diagnostics.push(
                    Diagnostic::Error(String::from_str("no source has been parsed")),
                );
                let mut captured: Vec<Diagnostic> = Vec::new();
                captured.push(Diagnostic::Error(String::from_str("no source has been parsed")));
                Err(CompilerError::DiagnosticsError(Diagnostics::new(captured)))
            },
        }
    }

    /// Runs an arbitrary named pass pipeline over the parsed source.  The
    /// pass name must carry no embedded NUL; the diagnostics are cleared
    /// first.  The model applies no transformation: the parsed module is
    /// the artifact.
    pub fn run_pass_pipeline(&mut self, text_pass_pipeline: &str) -> (r: Result<
        (),
        CompilerError,
    >)
        requires
            old(self).wf(),
        ensures
            final(self).wf(),
            (exists|j: int| 0 <= j < text_pass_pipeline@.len() && text_pass_pipeline@[j] == '\0')
                ==> (r matches Err(e) && e is NulError && *final(self) == *old(self)),
            !(exists|j: int| 0 <= j < text_pass_pipeline@.len() && text_pass_pipeline@[j] == '\0')
                ==> {
                &&& (old(self).parsed is Some <==> r is Ok)
                &&& final(self).parsed == old(self).parsed
                &&& (r is Ok ==> final(self).diagnostics.data@.len() == 0)
            },
    {
        if text::contains_nul(text_pass_pipeline) {
            return Err(CompilerError::NulError);
        }
        self.diagnostics.clear();
        match &self.parsed {
            Some(_) => Ok(()),
            None => {
                proof {
                    reveal_strlit("no source has been parsed");
                }
                self.diagnostics.push(
                    Diagnostic::Error(String::from_str("no source has been parsed")),
                );
                Err(CompilerError::DiagnosticsError(Diagnostics::default()))
            },
        }
    }

    /// Writes the current state as textual form to the output.  In this
    /// model the module's wire format is its textual form.
    pub fn output_ir(&self, output: &mut MemBufferOutput) -> (r: Result<(), CompilerError>)
        requires
            self.wf(),
        ensures
            self.parsed is Some <==> r is Ok,
            r is Ok ==> (self.parsed matches Some(m) && final(output).bytes@
                == crate::module::serialize_spec(
                m.name@,
                crate::module::exports_view(m.exports@),
            )),
            r is Err ==> *final(output) == *old(output) && (r matches Err(e)
                && e is DetailedError),
    {
        match &self.parsed {
            Some(m) => {
                output.bytes = m.serialize();
                Ok(())
            },
            None => {
                proof {
                    reveal_strlit("no source has been parsed");
                }
                Err(CompilerError::DetailedError(
                    Error::from_message(String::from_str("no source has been parsed")),
                    Diagnostics::default(),
                ))
            },
        }
    }

    /// Writes the compiled program in its bytecode form to the output.
    /// The full pipeline must have run first.
    pub fn output_vm_byte_code(&self, output: &mut MemBufferOutput) -> (r: Result<
        (),
        CompilerError,
    >)
        requires
            self.wf(),
        ensures
            (self.parsed is Some && self.compiled == Some(Pipeline::Std)) <==> r is Ok,
            r is Ok ==> (self.parsed matches Some(m) && final(output).bytes@
                == crate::module::serialize_spec(
                m.name@,
                crate::module::exports_view(m.exports@),
            )),
            r is Err ==> *final(output) == *old(output) && (r matches Err(e)
                && e is DetailedError),
    {
        let ready = match &self.compiled {
            Some(p) => match p {
                Pipeline::Std => true,
                _ => false,
            },
            None => false,
        };
        if !ready {
            proof {
                reveal_strlit("the full pipeline has not run");
            }
            return Err(CompilerError::DetailedError(
                Error::from_message(String::from_str("the full pipeline has not run")),
                Diagnostics::default(),
            ));
        }
        match &self.parsed {
            Some(m) => {
                output.bytes = m.serialize();
                Ok(())
            },
            None => {
                proof {
                    reveal_strlit("no source has been parsed");
                }
                Err(CompilerError::DetailedError(
                    Error::from_message(String::from_str("no source has been parsed")),
                    Diagnostics::default(),
                ))
            },
        }
    }

    /// Writes the translated executable to the output.  The executable
    /// pipeline must have run first.
    pub fn output_hal_executable(&self, output: &mut MemBufferOutput) -> (r: Result<
        (),
        CompilerError,
    >)
        requires
            self.wf(),
        ensures
            (self.parsed is Some && self.compiled == Some(Pipeline::HalExecutable)) <==> r is Ok,
            r is Ok ==> (self.parsed matches Some(m) && final(output).bytes@
                == crate::module::serialize_spec(
                m.name@,
                crate::module::exports_view(m.exports@),
            )),
            r is Err ==> *final(output) == *old(output) && (r matches Err(e)
                && e is DetailedError),
    {
        let ready = match &self.compiled {
            Some(p) => match p {
                Pipeline::HalExecutable => true,
                _ => false,
            },
            None => false,
        };
        if !ready {
            proof {
                reveal_strlit("the executable pipeline has not run");
            }
            return Err(CompilerError::DetailedError(
                Error::from_message(String::from_str("the executable pipeline has not run")),
                Diagnostics::default(),
            ));
        }
        match &self.parsed {
            Some(m) => {
                output.bytes = m.serialize();
                Ok(())
            },
            None => {
                proof {
                    reveal_strlit("no source has been parsed");
                }
                Err(CompilerError::DetailedError(
                    Error::from_message(String::from_str("no source has been parsed")),
                    Diagnostics::default(),
                ))
            },
        }
    }
}

/// An output that collects the written artifact in memory.
pub struct MemBufferOutput {
    pub bytes: Vec<u8>,
}

impl MemBufferOutput {
    /// An empty in-memory output.
    pub fn new(compiler: &Compiler) -> (r: Result<MemBufferOutput, CompilerError>)
        ensures
            (r matches Ok(o) && o.bytes@.len() == 0),
    {
        Ok(MemBufferOutput { bytes: Vec::new() })
    }

    /// Maps the collected bytes for reading.
    pub fn map_memory(&self) -> (r: Result<&Vec<u8>, CompilerError>)
        ensures
            (r matches Ok(b) && b@ == self.bytes@),
    {
        Ok(&self.bytes)
    }
}

/// Whether an initialization attempt against the guard succeeds; this is
/// what the success side of `Compiler::new` turns on.
pub open spec fn init_succeeds(g: InitGuard) -> bool {
    !g.initialized
}

/// The guard every call of `Compiler::new` leaves behind, whether or not
/// it succeeded.
pub open spec fn guard_after_init(g: InitGuard) -> InitGuard {
    InitGuard { initialized: true }
}

/// The once-only discipline of the guard: where a first initialization
/// succeeds, a second attempt against the guard it leaves behind must
/// fail — and since the guard is the only state the two attempts share,
/// the failing attempt cannot disturb the compiler the first one made.
pub proof fn lemma_reinitialization_fails(first: InitGuard)
    requires
        init_succeeds(first),
    ensures
        !init_succeeds(guard_after_init(first)),
        !init_succeeds(guard_after_init(guard_after_init(first))),
{
}

} // verus!
