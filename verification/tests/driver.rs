//! The driver state machine: initialization, channel readiness,
//! nested inclusion with duplicate detection, the instruction-source
//! requirement, and finalization outcomes.

use bibtex_core::driver::{
    classify, BeginError, BibtexConfig, BibtexOutcome, ChannelError, Driver, FatalKind,
    IncludeError, InitError, OpenOutcome, Phase, RunOutcome,
};
use bibtex_core::severity::Severity;
use bibtex_core::table::SymbolTable;

fn fresh_driver() -> Driver {
    let table = SymbolTable::new(5000).unwrap();
    Driver::new(table, BibtexConfig::default())
}

#[test]
fn channel_before_initialize_fails_closed() {
    let d = fresh_driver();
    assert_eq!(d.log_channel(), Err(ChannelError::NotReady));
    assert_eq!(d.transcript_channel(), Err(ChannelError::NotReady));
}

#[test]
fn channels_open_after_initialize() {
    let mut d = fresh_driver();
    let id = d
        .initialize(
            &b"paper.aux".to_vec(),
            OpenOutcome::Opened(10),
            OpenOutcome::Opened(11),
            OpenOutcome::Opened(12),
        )
        .unwrap();
    assert_eq!(d.log_channel(), Ok(11));
    assert_eq!(d.transcript_channel(), Ok(12));
    assert_eq!(d.phase, Phase::ProcessingInclusionStack);
    assert_eq!(d.stack.len(), 1);
    assert_eq!(d.stack[0].name, id);
    assert_eq!(d.stack[0].stream, 10);
    assert_eq!(d.stack[0].line, 0);
}

#[test]
fn each_failing_channel_is_fatal_with_its_own_kind() {
    let name = b"paper.aux".to_vec();
    let mut d = fresh_driver();
    let r = d.initialize(&name, OpenOutcome::Failed, OpenOutcome::Opened(1), OpenOutcome::Opened(2));
    assert_eq!(r, Err(InitError::ControlOpenFailed));
    assert_eq!(d.phase, Phase::FatalAbort);
    assert_eq!(d.fatal, Some(FatalKind::ControlOpen));

    let mut d = fresh_driver();
    let r = d.initialize(&name, OpenOutcome::Opened(0), OpenOutcome::Failed, OpenOutcome::Opened(2));
    assert_eq!(r, Err(InitError::LogOpenFailed));
    assert_eq!(d.fatal, Some(FatalKind::LogOpen));

    let mut d = fresh_driver();
    let r = d.initialize(&name, OpenOutcome::Opened(0), OpenOutcome::Opened(1), OpenOutcome::Failed);
    assert_eq!(r, Err(InitError::TranscriptOpenFailed));
    assert_eq!(d.fatal, Some(FatalKind::TranscriptOpen));
}

#[test]
fn capacity_too_small_for_builtins_is_fatal() {
    let table = SymbolTable::new(3).unwrap();
    let mut d = Driver::new(table, BibtexConfig::default());
    let r = d.initialize(
        &b"p.aux".to_vec(),
        OpenOutcome::Opened(1),
        OpenOutcome::Opened(2),
        OpenOutcome::Opened(3),
    );
    assert_eq!(r, Err(InitError::CapacityExceeded));
    assert_eq!(d.fatal, Some(FatalKind::StringCapacity));
}

#[test]
fn nested_duplicate_inclusion_is_recoverable() {
    // top -> nested -> nested: the innermost request repeats an
    // already-open ancestor's name, is reported, and the run goes on
    let mut d = fresh_driver();
    d.initialize(
        &b"top.aux".to_vec(),
        OpenOutcome::Opened(1),
        OpenOutcome::Opened(2),
        OpenOutcome::Opened(3),
    )
    .unwrap();
    let nested = d.push_file(&b"nested.aux".to_vec()).unwrap();
    d.enter_file(nested, 4).unwrap();
    assert_eq!(d.stack.len(), 2);

    // the innermost file names its own ancestor
    let dup = d.push_file(&b"nested.aux".to_vec());
    assert_eq!(dup, Err(IncludeError::AlreadyIncluded));
    assert_eq!(d.severity(), Severity::ErrorIssued(1));
    // no new frame was pushed: no infinite recursion
    assert_eq!(d.stack.len(), 2);

    // the run continues to completion
    assert!(d.pop_file().is_some());
    assert!(d.pop_file().is_some());
    assert_eq!(d.phase, Phase::ProcessingInstructionStream);
}

#[test]
fn line_counting_tracks_the_top_file() {
    let mut d = fresh_driver();
    d.initialize(
        &b"top.aux".to_vec(),
        OpenOutcome::Opened(1),
        OpenOutcome::Opened(2),
        OpenOutcome::Opened(3),
    )
    .unwrap();
    assert_eq!(d.note_line(), Ok(1));
    assert_eq!(d.note_line(), Ok(2));
    let nested = d.push_file(&b"n.aux".to_vec()).unwrap();
    d.enter_file(nested, 4).unwrap();
    assert_eq!(d.note_line(), Ok(1));
    d.pop_file().unwrap();
    assert_eq!(d.stack[0].line, 2);
}

#[test]
fn popping_the_last_file_moves_to_instructions() {
    let mut d = fresh_driver();
    let top = d
        .initialize(
            &b"top.aux".to_vec(),
            OpenOutcome::Opened(1),
            OpenOutcome::Opened(2),
            OpenOutcome::Opened(3),
        )
        .unwrap();
    let f = d.pop_file().unwrap();
    assert_eq!(f.name, top);
    assert_eq!(d.last_file.map(|f| f.name), Some(top));
    assert_eq!(d.phase, Phase::ProcessingInstructionStream);
    // the stack ends the run empty
    assert!(d.pop_file().is_none());
}

#[test]
fn missing_instruction_source_is_a_distinct_ending() {
    let mut d = fresh_driver();
    d.initialize(
        &b"top.aux".to_vec(),
        OpenOutcome::Opened(1),
        OpenOutcome::Opened(2),
        OpenOutcome::Opened(3),
    )
    .unwrap();
    d.pop_file().unwrap();
    assert_eq!(d.begin_instructions(), Err(BeginError::NoInstructionSource));
    assert_eq!(d.phase, Phase::Finalizing);
    let (summary, outcome) = d.finalize().unwrap();
    assert_eq!(outcome, RunOutcome::NoInstructionSource(Severity::Spotless));
    assert_eq!(summary, b"".to_vec());
}

#[test]
fn a_full_run_with_a_named_source() {
    let mut d = fresh_driver();
    d.initialize(
        &b"top.aux".to_vec(),
        OpenOutcome::Opened(1),
        OpenOutcome::Opened(2),
        OpenOutcome::Opened(3),
    )
    .unwrap();
    let src = d.name_instruction_source(&b"style.bst".to_vec()).unwrap();
    // naming a second style is a recoverable error
    let again = d.name_instruction_source(&b"other.bst".to_vec());
    assert_eq!(again, Err(bibtex_core::driver::SourceError::AlreadyNamed));
    d.pop_file().unwrap();
    assert_eq!(d.begin_instructions(), Ok(src));
    d.escalate(bibtex_core::driver::EscalateKind::Warning);
    d.instructions_done().unwrap();
    let (summary, outcome) = d.finalize().unwrap();
    assert_eq!(outcome, RunOutcome::Done(Severity::ErrorIssued(1)));
    assert_eq!(summary, b"(There was 1 error message)\n".to_vec());
}

#[test]
fn accumulated_fatal_severity_still_completes() {
    let mut d = fresh_driver();
    d.initialize(
        &b"top.aux".to_vec(),
        OpenOutcome::Opened(1),
        OpenOutcome::Opened(2),
        OpenOutcome::Opened(3),
    )
    .unwrap();
    d.record_fatal();
    d.pop_file().unwrap();
    let src = d.name_instruction_source(&b"s.bst".to_vec());
    assert!(src.is_err()); // naming is only allowed during inclusion processing
    assert_eq!(d.begin_instructions(), Err(BeginError::NoInstructionSource));
    let (summary, outcome) = d.finalize().unwrap();
    assert_eq!(outcome, RunOutcome::NoInstructionSource(Severity::FatalError));
    assert_eq!(summary, b"(That was a fatal error)\n".to_vec());
}

#[test]
fn classification_of_outcomes() {
    assert_eq!(classify(Severity::Spotless), Some(BibtexOutcome::Spotless));
    assert_eq!(classify(Severity::WarningIssued(2)), Some(BibtexOutcome::Warnings));
    assert_eq!(classify(Severity::ErrorIssued(1)), Some(BibtexOutcome::Errors));
    assert_eq!(classify(Severity::FatalError), None);
}

#[test]
fn finalize_before_the_end_fails_closed() {
    let mut d = fresh_driver();
    assert!(d.finalize().is_err());
    assert_eq!(d.phase, Phase::Initializing);
}

#[test]
fn initialize_runs_only_once() {
    let mut d = fresh_driver();
    d.initialize(
        &b"top.aux".to_vec(),
        OpenOutcome::Opened(1),
        OpenOutcome::Opened(2),
        OpenOutcome::Opened(3),
    )
    .unwrap();
    let again = d.initialize(
        &b"top.aux".to_vec(),
        OpenOutcome::Opened(4),
        OpenOutcome::Opened(5),
        OpenOutcome::Opened(6),
    );
    assert_eq!(again, Err(InitError::NotInitializing));
    // the earlier channels still stand
    assert_eq!(d.log_channel(), Ok(2));
}

#[test]
fn a_control_name_that_is_already_interned_is_fatal() {
    // a control file named like a predefined builtin collides with
    // the table's existing entry: an internal-consistency stop
    let mut d = fresh_driver();
    let r = d.initialize(
        &b"write$".to_vec(),
        OpenOutcome::Opened(1),
        OpenOutcome::Opened(2),
        OpenOutcome::Opened(3),
    );
    assert_eq!(r, Err(InitError::AlreadySeen));
    assert_eq!(d.fatal, Some(FatalKind::InternalConsistency));
}

#[test]
fn inclusion_requests_outside_their_phase_are_refused() {
    let mut d = fresh_driver();
    assert_eq!(
        d.push_file(&b"n.aux".to_vec()),
        Err(IncludeError::NotProcessing)
    );
    assert_eq!(d.note_line(), Err(IncludeError::NotProcessing));
    assert!(d.pop_file().is_none());
    assert_eq!(d.begin_instructions(), Err(BeginError::NotReady));
}

#[test]
fn counting_lines_with_no_open_file_is_refused() {
    let mut d = fresh_driver();
    // force the phase with an empty stack: the request fails closed
    d.phase = Phase::ProcessingInclusionStack;
    assert_eq!(d.note_line(), Err(IncludeError::NoOpenFile));
}
