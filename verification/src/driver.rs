//! The driver: one owned context value that orchestrates a run
//! through its sequential phases — predefine built-ins and open the
//! three files, walk the inclusion stack of control files, loop over
//! the instruction stream, then classify the run in one summary
//! line. Reading and writing of real files is the caller's part; the
//! driver holds the state, makes every decision, and hands opaque
//! stream tokens back and forth.

use vstd::prelude::*;

verus! {

use crate::builtins::{
    interned_after,
    pairs_view,
    pre_def_certain_strings,
    predefined_list,
    predefined_model,
};
use crate::kinds::HashExtra;
use crate::render::{spec_summary, summary_line};
use crate::severity::{after_error, after_warning, Severity, SeverityTracker};
use crate::table::{has_bytes, model_extends, SymbolTable};

/// The driver's sequential phases.
#[derive(Clone, Copy, Debug, PartialEq, Eq, Structural)]
pub enum Phase {
    Initializing,
    ProcessingInclusionStack,
    ProcessingInstructionStream,
    Finalizing,
    Done,
    FatalAbort,
}

/// Which fatal condition hard-stopped a run. A hard stop is distinct
/// from a run that merely accumulated `FatalError` severity: the
/// latter still completes and yields a usable outcome.
#[derive(Clone, Copy, Debug, PartialEq, Eq, Structural)]
pub enum FatalKind {
    ControlOpen,
    LogOpen,
    TranscriptOpen,
    StringCapacity,
    InternalConsistency,
}

/// What the caller reports about opening a file: an opaque stream
/// token, or failure.
#[derive(Clone, Copy, Debug, PartialEq, Eq, Structural)]
pub enum OpenOutcome {
    Opened(usize),
    Failed,
}

/// Why initialization was refused, one kind per failing channel.
#[derive(Clone, Copy, Debug, PartialEq, Eq, Structural)]
pub enum InitError {
    NotInitializing,
    ControlOpenFailed,
    LogOpenFailed,
    TranscriptOpenFailed,
    CapacityExceeded,
    AlreadySeen,
}

/// Requesting an output channel that is not open fails closed.
#[derive(Clone, Copy, Debug, PartialEq, Eq, Structural)]
pub enum ChannelError {
    NotReady,
}

/// Why an inclusion request was refused.
#[derive(Clone, Copy, Debug, PartialEq, Eq, Structural)]
pub enum IncludeError {
    NotProcessing,
    NoOpenFile,
    AlreadyIncluded,
    CapacityExceeded,
}

/// Why naming the instruction source was refused.
#[derive(Clone, Copy, Debug, PartialEq, Eq, Structural)]
pub enum SourceError {
    NotProcessing,
    AlreadyNamed,
    CapacityExceeded,
}

/// Why the instruction phase could not proceed.
#[derive(Clone, Copy, Debug, PartialEq, Eq, Structural)]
pub enum BeginError {
    NotReady,
    NoInstructionSource,
}

/// The two recoverable escalations a collaborator can report.
#[derive(Clone, Copy, Debug, PartialEq, Eq, Structural)]
pub enum EscalateKind {
    Warning,
    Error,
}

/// One open control file: its interned name, the caller's stream
/// token, and the current line number.
#[derive(Clone, Copy, Debug, PartialEq, Eq, Structural)]
pub struct Frame {
    pub name: usize,
    pub stream: usize,
    pub line: u32,
}

/// How a finished run ended: completed with a final severity, ended
/// for want of an instruction source, or hard-stopped.
#[derive(Clone, Copy, Debug, PartialEq, Eq, Structural)]
pub enum RunOutcome {
    Done(Severity),
    NoInstructionSource(Severity),
    FatalAbort(FatalKind),
}

/// A completed run, classified for callers; a hard stop or a run
/// whose severity reached `FatalError` has no usable outcome and is
/// reported outside this enum.
#[derive(Clone, Copy, Debug, PartialEq, Eq, PartialOrd, Ord, Structural)]
pub enum BibtexOutcome {
    Spotless,
    Warnings,
    Errors,
}

/// Engine settings.
#[derive(Clone, Copy, Debug, PartialEq, Eq, Structural)]
pub struct BibtexConfig {
    pub min_crossrefs: u32,
    pub verbose: bool,
}

impl Default for BibtexConfig {
    /// The stock settings: two cross-references, quiet.
    fn default() -> (r: Self)
        ensures
            r.min_crossrefs == 2,
            !r.verbose,
    {
        BibtexConfig { min_crossrefs: 2, verbose: false }
    }
}

/// Map a final severity to the caller-visible outcome; a severity of
/// `FatalError` has none.
pub fn classify(s: Severity) -> (r: Option<BibtexOutcome>)
    ensures
        r == match s {
            Severity::Spotless => Some(BibtexOutcome::Spotless),
            Severity::WarningIssued(_) => Some(BibtexOutcome::Warnings),
            Severity::ErrorIssued(_) => Some(BibtexOutcome::Errors),
            Severity::FatalError => None::<BibtexOutcome>,
        },
{
    match s {
        Severity::Spotless => Some(BibtexOutcome::Spotless),
        Severity::WarningIssued(_) => Some(BibtexOutcome::Warnings),
        Severity::ErrorIssued(_) => Some(BibtexOutcome::Errors),
        Severity::FatalError => None,
    }
}

/// The whole core as one owned, non-shared context value; the caller
/// serializes runs.
pub struct Driver {
    pub phase: Phase,
    pub config: BibtexConfig,
    pub table: SymbolTable,
    pub severity: SeverityTracker,
    pub stack: Vec<Frame>,
    pub last_file: Option<Frame>,
    pub log: Option<usize>,
    pub transcript: Option<usize>,
    pub instruction_source: Option<usize>,
    pub no_source: bool,
    pub fatal: Option<FatalKind>,
}

impl Driver {
    /// The driver's own invariant: its table is well formed.
    pub open spec fn wf(self) -> bool {
        self.table.wf()
    }

    /// A fresh driver around `table`, ready to initialize.
    pub fn new(table: SymbolTable, config: BibtexConfig) -> (r: Driver)
        requires
            table.wf(),
        ensures
            r.wf(),
            r.phase == Phase::Initializing,
            r.config == config,
            r.table == table,
            r.severity.current == Severity::Spotless,
            r.stack@.len() == 0,
            r.last_file is None,
            r.log is None,
            r.transcript is None,
            r.instruction_source is None,
            !r.no_source,
            r.fatal is None,
    {
        Driver {
            phase: Phase::Initializing,
            config,
            table,
            severity: SeverityTracker::new(),
            stack: Vec::new(),
            last_file: None,
            log: None,
            transcript: None,
            instruction_source: None,
            no_source: false,
            fatal: None,
        }
    }

    /// Initialize a run: predefine the built-in symbols, then accept
    /// the caller's outcomes for opening the top-level control file,
    /// the log channel and the transcript channel — in that order,
    /// any failure being immediately fatal with a distinct error per
    /// channel. On success the control file's name is interned, its
    /// frame pushed, and inclusion processing begins.
    pub fn initialize(
        &mut self,
        control_name: &Vec<u8>,
        control: OpenOutcome,
        log: OpenOutcome,
        transcript: OpenOutcome,
    ) -> (r: Result<usize, InitError>)
        requires
            old(self).wf(),
        ensures
            final(self).wf(),
            old(self).phase != Phase::Initializing ==> r == Err::<usize, InitError>(
                InitError::NotInitializing,
            ) && *final(self) == *old(self),
            old(self).phase == Phase::Initializing ==> {
                &&& final(self).config == old(self).config
                &&& final(self).severity == old(self).severity
                &&& model_extends(old(self).table.interned(), final(self).table.interned())
                &&& (control matches OpenOutcome::Opened(_) && log matches OpenOutcome::Opened(_)
                    && transcript matches OpenOutcome::Opened(_) && interned_after(
                    old(self).table.interned(),
                    predefined_model(),
                ).len() < old(self).table.capacity_spec() && !has_bytes(
                    interned_after(old(self).table.interned(), predefined_model()),
                    control_name@,
                ) ==> r is Ok)
                &&& match r {
                    Ok(id) => {
                        &&& control matches OpenOutcome::Opened(t) && final(self).stack@
                            =~= old(self).stack@.push(Frame { name: id, stream: t, line: 0u32 })
                        &&& log matches OpenOutcome::Opened(t) && final(self).log == Some(t)
                        &&& transcript matches OpenOutcome::Opened(t) && final(self).transcript
                            == Some(t)
                        &&& final(self).phase == Phase::ProcessingInclusionStack
                        &&& final(self).fatal is None
                        &&& final(self).table.interned() == interned_after(
                            old(self).table.interned(),
                            predefined_model(),
                        ).push((control_name@, HashExtra::AuxFile))
                        &&& has_bytes(final(self).table.interned(), control_name@)
                        &&& id as int == final(self).table.id_of(control_name@)
                        &&& final(self).instruction_source is None
                    },
                    Err(e) => {
                        &&& e != InitError::NotInitializing
                        &&& final(self).phase == Phase::FatalAbort
                        &&& final(self).log == old(self).log
                        &&& final(self).transcript == old(self).transcript
                        &&& final(self).stack == old(self).stack
                        &&& match e {
                            InitError::ControlOpenFailed => control == OpenOutcome::Failed
                                && final(self).fatal == Some(FatalKind::ControlOpen),
                            InitError::LogOpenFailed => !(control is Failed) && log
                                == OpenOutcome::Failed && final(self).fatal == Some(
                                FatalKind::LogOpen,
                            ),
                            InitError::TranscriptOpenFailed => !(control is Failed) && !(
                            log is Failed) && transcript == OpenOutcome::Failed && final(self).fatal
                                == Some(FatalKind::TranscriptOpen),
                            InitError::CapacityExceeded => final(self).fatal == Some(
                                FatalKind::StringCapacity,
                            ) && interned_after(
                                old(self).table.interned(),
                                predefined_model(),
                            ).len() >= old(self).table.capacity_spec(),
                            InitError::AlreadySeen => final(self).fatal == Some(
                                FatalKind::InternalConsistency,
                            ) && !(control is Failed) && !(log is Failed) && !(
                            transcript is Failed) && has_bytes(
                                interned_after(old(self).table.interned(), predefined_model()),
                                control_name@,
                            ) && has_bytes(final(self).table.interned(), control_name@),
                            InitError::NotInitializing => false,
                        }
                    },
                }
            },
    {
        match self.phase {
            Phase::Initializing => {},
            _ => {
                return Err(InitError::NotInitializing);
            },
        }
        let list = predefined_list();
        proof {
            assert(pairs_view(list@) =~~= predefined_model());
        }
        let ghost m0 = self.table.interned();
        match pre_def_certain_strings(&mut self.table, &list) {
            Err(_) => {
                self.fatal = Some(FatalKind::StringCapacity);
                self.phase = Phase::FatalAbort;
                proof {
                    assert(interned_after(m0, predefined_model()).len()
                        > self.table.capacity_spec());
                }
                return Err(InitError::CapacityExceeded);
            },
            Ok(()) => {},
        }
        let control_token = match control {
            OpenOutcome::Opened(t) => t,
            OpenOutcome::Failed => {
                self.fatal = Some(FatalKind::ControlOpen);
                self.phase = Phase::FatalAbort;
                return Err(InitError::ControlOpenFailed);
            },
        };
        let log_token = match log {
            OpenOutcome::Opened(t) => t,
            OpenOutcome::Failed => {
                self.fatal = Some(FatalKind::LogOpen);
                self.phase = Phase::FatalAbort;
                return Err(InitError::LogOpenFailed);
            },
        };
        let transcript_token = match transcript {
            OpenOutcome::Opened(t) => t,
            OpenOutcome::Failed => {
                self.fatal = Some(FatalKind::TranscriptOpen);
                self.phase = Phase::FatalAbort;
                return Err(InitError::TranscriptOpenFailed);
            },
        };
        let ghost m1 = self.table.interned();
        let res = match self.table.intern(control_name, HashExtra::AuxFile, true) {
            Err(_) => {
                self.fatal = Some(FatalKind::StringCapacity);
                self.phase = Phase::FatalAbort;
                proof {
                    assert(self.table.interned() == m1);
                    assert(m1 == interned_after(m0, predefined_model()));
                    assert(m1.len() >= self.table.capacity_spec());
                }
                return Err(InitError::CapacityExceeded);
            },
            Ok(res) => res,
        };
        if res.exists {
            self.fatal = Some(FatalKind::InternalConsistency);
            self.phase = Phase::FatalAbort;
            proof {
                crate::table::lemma_has_bytes_extends(m1, self.table.interned(), control_name@);
            }
            return Err(InitError::AlreadySeen);
        }
        proof {
            assert(self.table.interned() == m1.push((control_name@, HashExtra::AuxFile)));
            assert(self.table.interned()[m1.len() as int].0 == control_name@);
            self.table.lemma_model_distinct();
            let kc = crate::table::index_of(self.table.interned(), control_name@);
            if kc != m1.len() as int {
                assert(self.table.interned()[kc].0 == self.table.interned()[m1.len() as int].0);
            }
        }
        self.stack.push(Frame { name: res.loc, stream: control_token, line: 0 });
        self.log = Some(log_token);
        self.transcript = Some(transcript_token);
        self.instruction_source = None;
        self.no_source = false;
        self.fatal = None;
        self.phase = Phase::ProcessingInclusionStack;
        proof {
            assert(model_extends(m0, self.table.interned())) by {
                assert forall|k: int| 0 <= k < m0.len() implies self.table.interned()[k] == m0[k]
                    by {
                    assert(self.table.interned()[k] == m1[k]);
                }
            }
        }
        Ok(res.loc)
    }

    /// Request inclusion of a nested control file. The name is
    /// interned under the file-name role; a name already so interned
    /// is the duplicate-inclusion error, reported and recoverable —
    /// the run continues and the file is not re-opened. On success
    /// the caller opens the stream and confirms with `enter_file`,
    /// or reports `open_include_failed`.
    pub fn push_file(&mut self, name: &Vec<u8>) -> (r: Result<usize, IncludeError>)
        requires
            old(self).wf(),
        ensures
            final(self).wf(),
            old(self).phase != Phase::ProcessingInclusionStack ==> r == Err::<usize, IncludeError>(
                IncludeError::NotProcessing,
            ) && *final(self) == *old(self),
            old(self).phase == Phase::ProcessingInclusionStack ==> {
                &&& final(self).stack == old(self).stack
                &&& final(self).config == old(self).config
                &&& final(self).log == old(self).log
                &&& final(self).transcript == old(self).transcript
                &&& final(self).instruction_source == old(self).instruction_source
                &&& final(self).last_file == old(self).last_file
                &&& final(self).no_source == old(self).no_source
                &&& match r {
                    Ok(id) => {
                        &&& !has_bytes(old(self).table.interned(), name@)
                        &&& final(self).table.interned() == old(self).table.interned().push(
                            (name@, HashExtra::AuxFile),
                        )
                        &&& id as int == old(self).table.entry_base() + old(self).table.interned().len()
                        &&& final(self).severity == old(self).severity
                        &&& final(self).phase == old(self).phase
                        &&& final(self).fatal == old(self).fatal
                    },
                    Err(IncludeError::AlreadyIncluded) => {
                        &&& has_bytes(old(self).table.interned(), name@)
                        &&& final(self).table == old(self).table
                        &&& final(self).severity.current == after_error(old(self).severity.current)
                        &&& final(self).phase == old(self).phase
                        &&& final(self).fatal == old(self).fatal
                    },
                    Err(IncludeError::CapacityExceeded) => {
                        &&& !has_bytes(old(self).table.interned(), name@)
                        &&& old(self).table.interned().len() >= old(self).table.capacity_spec()
                        &&& final(self).table == old(self).table
                        &&& final(self).severity == old(self).severity
                        &&& final(self).phase == Phase::FatalAbort
                        &&& final(self).fatal == Some(FatalKind::StringCapacity)
                    },
                    _ => false,
                }
            },
    {
        match self.phase {
            Phase::ProcessingInclusionStack => {},
            _ => {
                return Err(IncludeError::NotProcessing);
            },
        }
        match self.table.intern(name, HashExtra::AuxFile, true) {
            Err(_) => {
                self.fatal = Some(FatalKind::StringCapacity);
                self.phase = Phase::FatalAbort;
                Err(IncludeError::CapacityExceeded)
            },
            Ok(res) => {
                if res.exists {
                    self.severity.record_error();
                    Err(IncludeError::AlreadyIncluded)
                } else {
                    Ok(res.loc)
                }
            },
        }
    }

    /// Confirm a granted inclusion: push the opened file's frame.
    pub fn enter_file(&mut self, name_id: usize, stream: usize) -> (r: Result<(), IncludeError>)
        ensures
            old(self).phase != Phase::ProcessingInclusionStack ==> r == Err::<(), IncludeError>(
                IncludeError::NotProcessing,
            ) && *final(self) == *old(self),
            old(self).phase == Phase::ProcessingInclusionStack ==> r == Ok::<(), IncludeError>(())
                && final(self).stack@ =~= old(self).stack@.push(
                Frame { name: name_id, stream, line: 0u32 },
            ) && final(self).table == old(self).table && final(self).severity == old(self).severity
                && final(self).phase == old(self).phase && final(self).log == old(self).log
                && final(self).transcript == old(self).transcript && final(self).last_file == old(self).last_file && final(self).instruction_source == old(self).instruction_source && final(self).fatal == old(self).fatal && final(self).no_source == old(self).no_source && final(self).config == old(self).config,
    {
        match self.phase {
            Phase::ProcessingInclusionStack => {},
            _ => {
                return Err(IncludeError::NotProcessing);
            },
        }
        self.stack.push(Frame { name: name_id, stream, line: 0 });
        Ok(())
    }

    /// Report that a granted inclusion could not be opened: one
    /// recoverable error, and the run continues.
    pub fn open_include_failed(&mut self) -> (r: Result<(), IncludeError>)
        ensures
            old(self).phase != Phase::ProcessingInclusionStack ==> r == Err::<(), IncludeError>(
                IncludeError::NotProcessing,
            ) && *final(self) == *old(self),
            old(self).phase == Phase::ProcessingInclusionStack ==> r == Ok::<(), IncludeError>(())
                && final(self).severity.current == after_error(old(self).severity.current) && final(self).stack == old(self).stack && final(self).table == old(self).table && final(self).phase
                == old(self).phase && final(self).fatal == old(self).fatal && final(self).log
                == old(self).log && final(self).transcript == old(self).transcript && final(self).last_file == old(self).last_file && final(self).instruction_source == old(self).instruction_source && final(self).no_source == old(self).no_source && final(self).config
                == old(self).config,
    {
        match self.phase {
            Phase::ProcessingInclusionStack => {},
            _ => {
                return Err(IncludeError::NotProcessing);
            },
        }
        self.severity.record_error();
        Ok(())
    }

    /// Count one line read from the top-of-stack file; the counter
    /// holds at its maximum rather than wrapping.
    pub fn note_line(&mut self) -> (r: Result<u32, IncludeError>)
        ensures
            old(self).phase != Phase::ProcessingInclusionStack ==> r == Err::<u32, IncludeError>(
                IncludeError::NotProcessing,
            ) && *final(self) == *old(self),
            old(self).phase == Phase::ProcessingInclusionStack && old(self).stack@.len() == 0 ==> r
                == Err::<u32, IncludeError>(IncludeError::NoOpenFile) && *final(self) == *old(self),
            old(self).phase == Phase::ProcessingInclusionStack && old(self).stack@.len() > 0 ==> {
                &&& {
                    let top = old(self).stack@.last();
                    let bumped = if top.line < u32::MAX {
                        (top.line + 1) as u32
                    } else {
                        top.line
                    };
                    r == Ok::<u32, IncludeError>(bumped) && final(self).stack@ =~= old(self).stack@.update(
                        old(self).stack@.len() - 1,
                        Frame { name: top.name, stream: top.stream, line: bumped },
                    )
                }
                &&& final(self).table == old(self).table
                &&& final(self).severity == old(self).severity
                &&& final(self).phase == old(self).phase
                &&& final(self).log == old(self).log
                &&& final(self).transcript == old(self).transcript
                &&& final(self).last_file == old(self).last_file
                &&& final(self).instruction_source == old(self).instruction_source
                &&& final(self).no_source == old(self).no_source
                &&& final(self).fatal == old(self).fatal
                &&& final(self).config == old(self).config
            },
    {
        match self.phase {
            Phase::ProcessingInclusionStack => {},
            _ => {
                return Err(IncludeError::NotProcessing);
            },
        }
        if self.stack.len() == 0 {
            return Err(IncludeError::NoOpenFile);
        }
        let n = self.stack.len() - 1;
        let mut top = self.stack[n];
        if top.line < u32::MAX {
            top.line = top.line + 1;
        }
        self.stack[n] = top;
        Ok(top.line)
    }

    /// Pop the top-of-stack file at its end; when the stack empties,
    /// the popped frame is kept as the run's last file and processing
    /// moves on to the instruction stream.
    pub fn pop_file(&mut self) -> (r: Option<Frame>)
        ensures
            old(self).phase != Phase::ProcessingInclusionStack || old(self).stack@.len() == 0 ==> r
                is None && *final(self) == *old(self),
            old(self).phase == Phase::ProcessingInclusionStack && old(self).stack@.len() > 0 ==> {
                &&& r == Some(old(self).stack@.last())
                &&& final(self).stack@ =~= old(self).stack@.drop_last()
                &&& (old(self).stack@.len() == 1 ==> final(self).last_file == Some(
                    old(self).stack@.last(),
                ) && final(self).phase == Phase::ProcessingInstructionStream)
                &&& (old(self).stack@.len() > 1 ==> final(self).last_file == old(self).last_file
                    && final(self).phase == old(self).phase)
                &&& final(self).table == old(self).table
                &&& final(self).severity == old(self).severity
                &&& final(self).log == old(self).log
                &&& final(self).transcript == old(self).transcript
                &&& final(self).instruction_source == old(self).instruction_source
                &&& final(self).no_source == old(self).no_source
                &&& final(self).fatal == old(self).fatal
                &&& final(self).config == old(self).config
            },
    {
        match self.phase {
            Phase::ProcessingInclusionStack => {},
            _ => {
                return None;
            },
        }
        if self.stack.len() == 0 {
            return None;
        }
        let f = match self.stack.pop() {
            Some(f) => f,
            None => {
                return None;
            },
        };
        if self.stack.len() == 0 {
            self.last_file = Some(f);
            self.phase = Phase::ProcessingInstructionStream;
        }
        Some(f)
    }

    /// Record which file drives the instruction stream. Naming a
    /// second one is a recoverable error; the first naming stands.
    pub fn name_instruction_source(&mut self, name: &Vec<u8>) -> (r: Result<usize, SourceError>)
        requires
            old(self).wf(),
        ensures
            final(self).wf(),
            old(self).phase != Phase::ProcessingInclusionStack ==> r == Err::<usize, SourceError>(
                SourceError::NotProcessing,
            ) && *final(self) == *old(self),
            old(self).phase == Phase::ProcessingInclusionStack ==> {
                &&& final(self).stack == old(self).stack
                &&& final(self).log == old(self).log
                &&& final(self).transcript == old(self).transcript
                &&& final(self).last_file == old(self).last_file
                &&& final(self).no_source == old(self).no_source
                &&& final(self).config == old(self).config
                &&& match r {
                    Ok(id) => {
                        &&& old(self).instruction_source is None
                        &&& final(self).instruction_source == Some(id)
                        &&& final(self).severity == old(self).severity
                        &&& final(self).phase == old(self).phase
                        &&& final(self).fatal == old(self).fatal
                        &&& (has_bytes(old(self).table.interned(), name@) ==> id as int == old(self).table.id_of(name@) && final(self).table == old(self).table)
                        &&& (!has_bytes(old(self).table.interned(), name@) ==> final(self).table.interned() == old(self).table.interned().push(
                            (name@, HashExtra::BstFile),
                        ) && id as int == old(self).table.entry_base() + old(self).table.interned().len())
                    },
                    Err(SourceError::AlreadyNamed) => {
                        &&& old(self).instruction_source is Some
                        &&& final(self).instruction_source == old(self).instruction_source
                        &&& final(self).table == old(self).table
                        &&& final(self).severity.current == after_error(old(self).severity.current)
                        &&& final(self).phase == old(self).phase
                        &&& final(self).fatal == old(self).fatal
                    },
                    Err(SourceError::CapacityExceeded) => {
                        &&& !has_bytes(old(self).table.interned(), name@)
                        &&& old(self).table.interned().len() >= old(self).table.capacity_spec()
                        &&& final(self).table == old(self).table
                        &&& final(self).severity == old(self).severity
                        &&& final(self).phase == Phase::FatalAbort
                        &&& final(self).fatal == Some(FatalKind::StringCapacity)
                    },
                    Err(SourceError::NotProcessing) => false,
                }
            },
    {
        match self.phase {
            Phase::ProcessingInclusionStack => {},
            _ => {
                return Err(SourceError::NotProcessing);
            },
        }
        match self.instruction_source {
            Some(_) => {
                self.severity.record_error();
                return Err(SourceError::AlreadyNamed);
            },
            None => {},
        }
        match self.table.intern(name, HashExtra::BstFile, true) {
            Err(_) => {
                self.fatal = Some(FatalKind::StringCapacity);
                self.phase = Phase::FatalAbort;
                Err(SourceError::CapacityExceeded)
            },
            Ok(res) => {
                self.instruction_source = Some(res.loc);
                Ok(res.loc)
            },
        }
    }

    /// Enter the instruction loop: allowed once the inclusion stack
    /// has emptied, and only if an instruction source was named
    /// during inclusion processing — a run that never named one ends
    /// here, distinctly and non-fatally.
    pub fn begin_instructions(&mut self) -> (r: Result<usize, BeginError>)
        ensures
            old(self).phase != Phase::ProcessingInstructionStream ==> r == Err::<usize, BeginError>(
                BeginError::NotReady,
            ) && *final(self) == *old(self),
            old(self).phase == Phase::ProcessingInstructionStream && old(self).instruction_source
                is None ==> r == Err::<usize, BeginError>(BeginError::NoInstructionSource) && final(self).no_source && final(self).phase == Phase::Finalizing && final(self).table == old(self).table && final(self).severity == old(self).severity && final(self).fatal == old(self).fatal && final(self).stack == old(self).stack && final(self).log == old(self).log
                && final(self).transcript == old(self).transcript && final(self).last_file
                == old(self).last_file && final(self).instruction_source == old(self).instruction_source && final(self).config == old(self).config,
            old(self).phase == Phase::ProcessingInstructionStream ==> (
            old(self).instruction_source matches Some(id) ==> r == Ok::<usize, BeginError>(id)
                && *final(self) == *old(self)),
    {
        match self.phase {
            Phase::ProcessingInstructionStream => {},
            _ => {
                return Err(BeginError::NotReady);
            },
        }
        match self.instruction_source {
            None => {
                self.no_source = true;
                self.phase = Phase::Finalizing;
                Err(BeginError::NoInstructionSource)
            },
            Some(id) => Ok(id),
        }
    }

    /// Leave the instruction loop: the stream is exhausted and the
    /// run moves to finalization.
    pub fn instructions_done(&mut self) -> (r: Result<(), BeginError>)
        ensures
            old(self).phase != Phase::ProcessingInstructionStream ==> r == Err::<(), BeginError>(
                BeginError::NotReady,
            ) && *final(self) == *old(self),
            old(self).phase == Phase::ProcessingInstructionStream ==> r == Ok::<(), BeginError>(())
                && final(self).phase == Phase::Finalizing && final(self).table == old(self).table
                && final(self).severity == old(self).severity && final(self).stack == old(self).stack && final(self).fatal == old(self).fatal && final(self).no_source == old(self).no_source && final(self).last_file == old(self).last_file && final(self).log == old(self).log && final(self).transcript == old(self).transcript && final(self).instruction_source == old(self).instruction_source && final(self).config == old(self).config,
    {
        match self.phase {
            Phase::ProcessingInstructionStream => {},
            _ => {
                return Err(BeginError::NotReady);
            },
        }
        self.phase = Phase::Finalizing;
        Ok(())
    }

    /// Close out the run: classify it and render the one summary
    /// line. A hard stop reports its fatal kind and writes no
    /// summary; a run that merely ran out of instruction sources, or
    /// accumulated any severity, still reports a classified outcome
    /// with its summary text.
    pub fn finalize(&mut self) -> (r: Result<(Vec<u8>, RunOutcome), ChannelError>)
        ensures
            !(old(self).phase == Phase::Finalizing || old(self).phase == Phase::FatalAbort) ==> (r
                matches Err(e) && e == ChannelError::NotReady && *final(self) == *old(self)),
            (old(self).phase == Phase::Finalizing || old(self).phase == Phase::FatalAbort) ==> {
                &&& r matches Ok(pair) && {
                    &&& pair.1 == match old(self).fatal {
                        Some(k) => RunOutcome::FatalAbort(k),
                        None => if old(self).no_source {
                            RunOutcome::NoInstructionSource(old(self).severity.current)
                        } else {
                            RunOutcome::Done(old(self).severity.current)
                        },
                    }
                    &&& pair.0@ == if old(self).fatal is Some {
                        Seq::<u8>::empty()
                    } else {
                        spec_summary(old(self).severity.current)
                    }
                }
                &&& final(self).phase == if old(self).fatal is Some {
                    Phase::FatalAbort
                } else {
                    Phase::Done
                }
                &&& final(self).table == old(self).table
                &&& final(self).severity == old(self).severity
                &&& final(self).stack == old(self).stack
                &&& final(self).fatal == old(self).fatal
                &&& final(self).no_source == old(self).no_source
                &&& final(self).last_file == old(self).last_file
                &&& final(self).log == old(self).log
                &&& final(self).transcript == old(self).transcript
                &&& final(self).instruction_source == old(self).instruction_source
                &&& final(self).config == old(self).config
            },
    {
        match self.phase {
            Phase::Finalizing | Phase::FatalAbort => {},
            _ => {
                return Err(ChannelError::NotReady);
            },
        }
        match self.fatal {
            Some(k) => {
                self.phase = Phase::FatalAbort;
                Ok((Vec::new(), RunOutcome::FatalAbort(k)))
            },
            None => {
                let sev = self.severity.current();
                let line = summary_line(sev);
                self.phase = Phase::Done;
                if self.no_source {
                    Ok((line, RunOutcome::NoInstructionSource(sev)))
                } else {
                    Ok((line, RunOutcome::Done(sev)))
                }
            },
        }
    }

    /// The log channel's token — only once `initialize` has opened
    /// it; before that the request fails closed.
    pub fn log_channel(&self) -> (r: Result<usize, ChannelError>)
        ensures
            r == match self.log {
                Some(t) => Ok::<usize, ChannelError>(t),
                None => Err::<usize, ChannelError>(ChannelError::NotReady),
            },
    {
        match self.log {
            Some(t) => Ok(t),
            None => Err(ChannelError::NotReady),
        }
    }

    /// The transcript channel's token, failing closed before it is
    /// open.
    pub fn transcript_channel(&self) -> (r: Result<usize, ChannelError>)
        ensures
            r == match self.transcript {
                Some(t) => Ok::<usize, ChannelError>(t),
                None => Err::<usize, ChannelError>(ChannelError::NotReady),
            },
    {
        match self.transcript {
            Some(t) => Ok(t),
            None => Err(ChannelError::NotReady),
        }
    }

    /// The current severity.
    pub fn severity(&self) -> (r: Severity)
        ensures
            r == self.severity.current,
    {
        self.severity.current()
    }

    /// Record a recoverable problem; processing continues and only
    /// the final classification changes.
    pub fn escalate(&mut self, kind: EscalateKind)
        ensures
            final(self).severity.current == match kind {
                EscalateKind::Warning => after_warning(old(self).severity.current),
                EscalateKind::Error => after_error(old(self).severity.current),
            },
            final(self).phase == old(self).phase,
            final(self).table == old(self).table,
            final(self).stack == old(self).stack,
            final(self).last_file == old(self).last_file,
            final(self).log == old(self).log,
            final(self).transcript == old(self).transcript,
            final(self).instruction_source == old(self).instruction_source,
            final(self).no_source == old(self).no_source,
            final(self).fatal == old(self).fatal,
            final(self).config == old(self).config,
    {
        match kind {
            EscalateKind::Warning => self.severity.record_warning(),
            EscalateKind::Error => self.severity.record_error(),
        }
    }

    /// Record an unrecoverable condition in the severity alone; the
    /// run still completes and reports it.
    pub fn record_fatal(&mut self)
        ensures
            final(self).severity.current == Severity::FatalError,
            final(self).phase == old(self).phase,
            final(self).table == old(self).table,
            final(self).stack == old(self).stack,
            final(self).fatal == old(self).fatal,
            final(self).log == old(self).log,
            final(self).transcript == old(self).transcript,
            final(self).last_file == old(self).last_file,
            final(self).instruction_source == old(self).instruction_source,
            final(self).no_source == old(self).no_source,
            final(self).config == old(self).config,
    {
        self.severity.force_fatal();
    }
}

} // verus!
