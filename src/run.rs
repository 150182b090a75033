//! The decisions of one run over a subtitle file, apart from the file system: which step
//! comes next, what is written, and which failure a failed step stands for. The caller
//! performs each action and reports back what happened.
//!
//! The order of the steps keeps the source content safe: the source is renamed to the backup
//! path only after every line has been read and written, and the shifted file is promoted
//! only after the backup has been taken.
use vstd::prelude::*;
use crate::line::{line_spec, outcome_matches, shift_line, ProcessError};

verus! {

/// The stage of a run that failed on the file system.
#[derive(Clone, Copy, Debug, PartialEq, Eq, Structural)]
pub enum IoStage {
    /// The source file could not be opened.
    SourceUnreadable,
    /// The temporary file could not be created.
    TempUnwritable,
    /// Reading the source or writing the temporary file failed midway.
    StreamFailure,
    /// The source could not be moved to the backup path; it is untouched.
    BackupFailed,
    /// The shifted file could not be moved to the source path; the backup path holds the
    /// content from before the shift and the source path is missing.
    PromoteFailed,
}

/// Why a run ended without replacing the file.
#[derive(Debug)]
pub enum RunError {
    Io { stage: IoStage, cause: String },
    Process(ProcessError),
}

/// Where a run stands.
#[derive(Clone, Copy, Debug, PartialEq, Eq, Structural)]
pub enum Phase {
    OpeningSource,
    CreatingTemp,
    Reading,
    Writing,
    BackupPending,
    PromotePending,
    Promoted,
    Failed,
}

/// What the caller reports after performing an action.
#[derive(Debug)]
pub enum Event {
    /// The action succeeded (for an open, a create, a write or a rename).
    Done,
    /// The next line of the source, without its line ending.
    Line(String),
    /// The source has no more lines.
    EndOfInput,
    /// The action failed, with the cause that the file system gave.
    Failed(String),
}

/// What the caller is to do next.
#[derive(Debug)]
pub enum Action {
    OpenSource,
    /// Create the temporary file beside the source.
    CreateTemp,
    ReadLine,
    /// Write this text and a line ending to the temporary file.
    WriteLine(String),
    /// Rename the source to the backup path, refusing to replace a file there.
    TakeBackup,
    /// Rename the temporary file to the source path.
    Promote,
    /// The run succeeded.
    Finish,
    /// The run failed.
    Abort(RunError),
}

/// One run of shifting a file by `offset` milliseconds.
pub struct ShiftRun {
    pub phase: Phase,
    pub offset: i64,
}

pub open spec fn is_terminal(phase: Phase) -> bool {
    phase is Promoted || phase is Failed
}

/// The failure that a failed action stands for in each phase.
pub open spec fn stage_of(phase: Phase) -> IoStage {
    match phase {
        Phase::OpeningSource => IoStage::SourceUnreadable,
        Phase::CreatingTemp => IoStage::TempUnwritable,
        Phase::BackupPending => IoStage::BackupFailed,
        Phase::PromotePending => IoStage::PromoteFailed,
        _ => IoStage::StreamFailure,
    }
}

/// The events that can answer the action asked for in `phase`.
pub open spec fn accepts_spec(phase: Phase, event: Event) -> bool {
    match event {
        Event::Done => !is_terminal(phase) && !(phase is Reading),
        Event::Line(_) => phase is Reading,
        Event::EndOfInput => phase is Reading,
        Event::Failed(_) => !is_terminal(phase),
    }
}

/// The phase that follows `phase` on `event`.
pub open spec fn next_phase(phase: Phase, offset: int, event: Event) -> Phase {
    match event {
        Event::Done => match phase {
            Phase::OpeningSource => Phase::CreatingTemp,
            Phase::CreatingTemp => Phase::Reading,
            Phase::Writing => Phase::Reading,
            Phase::BackupPending => Phase::PromotePending,
            _ => Phase::Promoted,
        },
        Event::Line(l) => if line_spec(l@, offset) is Ok {
            Phase::Writing
        } else {
            Phase::Failed
        },
        Event::EndOfInput => Phase::BackupPending,
        Event::Failed(_) => Phase::Failed,
    }
}

/// `action` is what follows `phase` on `event`.
pub open spec fn action_spec(phase: Phase, offset: int, event: Event, action: Action) -> bool {
    match event {
        Event::Done => match phase {
            Phase::OpeningSource => action is CreateTemp,
            Phase::CreatingTemp => action is ReadLine,
            Phase::Writing => action is ReadLine,
            Phase::BackupPending => action is Promote,
            _ => action is Finish,
        },
        Event::Line(l) => match action {
            Action::WriteLine(w) => outcome_matches(Ok(w), l@, line_spec(l@, offset)),
            Action::Abort(RunError::Process(e)) => outcome_matches(
                Err(e),
                l@,
                line_spec(l@, offset),
            ),
            _ => false,
        },
        Event::EndOfInput => action is TakeBackup,
        Event::Failed(c) => match action {
            Action::Abort(RunError::Io { stage, cause }) => stage == stage_of(phase) && cause@
                == c@,
            _ => false,
        },
    }
}

/// The phase of a run that started at `OpeningSource` after taking in `events`.
pub open spec fn phase_after(offset: int, events: Seq<Event>) -> Phase
    decreases events.len(),
{
    if events.len() == 0 {
        Phase::OpeningSource
    } else {
        next_phase(phase_after(offset, events.drop_last()), offset, events.last())
    }
}

/// Each event of `events` answered the action that the run had asked for.
pub open spec fn all_accepted(offset: int, events: Seq<Event>) -> bool {
    forall|k: int|
        0 <= k < events.len() ==> accepts_spec(
            #[trigger] phase_after(offset, events.take(k)),
            events[k],
        )
}

/// A run gets to promote the shifted file, or finishes, only after the backup of the
/// source was taken: some earlier event confirmed the rename to the backup path.
pub proof fn lemma_promote_after_backup(offset: int, events: Seq<Event>)
    requires
        all_accepted(offset, events),
        phase_after(offset, events) is PromotePending || phase_after(offset, events) is Promoted,
    ensures
        exists|k: int|
            0 <= k < events.len() && #[trigger] phase_after(offset, events.take(k))
                is BackupPending && events[k] is Done,
    decreases events.len(),
{
    let n = events.len() as int;
    let rest = events.drop_last();
    assert(events.take(n - 1) =~= rest);
    let p = phase_after(offset, rest);
    assert(accepts_spec(phase_after(offset, events.take(n - 1)), events[n - 1]));
    if p is BackupPending && events.last() is Done {
        assert(phase_after(offset, events.take(n - 1)) is BackupPending);
    } else {
        assert forall|k: int| 0 <= k < rest.len() implies accepts_spec(
            #[trigger] phase_after(offset, rest.take(k)),
            rest[k],
        ) by {
            assert(rest.take(k) =~= events.take(k));
            assert(accepts_spec(phase_after(offset, events.take(k)), events[k]));
        }
        lemma_promote_after_backup(offset, rest);
        let k = choose|k: int|
            0 <= k < rest.len() && #[trigger] phase_after(offset, rest.take(k)) is BackupPending
                && rest[k] is Done;
        assert(rest.take(k) =~= events.take(k));
    }
}

impl ShiftRun {
    /// A run that is about to open its source; its first action is `OpenSource`.
    pub fn new(offset: i64) -> (r: ShiftRun)
        ensures
            r.phase == Phase::OpeningSource,
            r.offset == offset,
    {
        ShiftRun { phase: Phase::OpeningSource, offset }
    }

    /// The run has succeeded or failed, and expects no more events.
    pub fn is_finished(&self) -> (r: bool)
        ensures
            r == is_terminal(self.phase),
    {
        match self.phase {
            Phase::Promoted | Phase::Failed => true,
            _ => false,
        }
    }

    /// `event` can answer the action that the run asked for last.
    pub fn accepts(&self, event: &Event) -> (r: bool)
        ensures
            r == accepts_spec(self.phase, *event),
    {
        let terminal = self.is_finished();
        let reading = match self.phase {
            Phase::Reading => true,
            _ => false,
        };
        match event {
            Event::Done => !terminal && !reading,
            Event::Line(_) => reading,
            Event::EndOfInput => reading,
            Event::Failed(_) => !terminal,
        }
    }

    /// Takes in what became of the last action and decides the next one.
    pub fn step(&mut self, event: Event) -> (action: Action)
        requires
            accepts_spec(old(self).phase, event),
        ensures
            final(self).offset == old(self).offset,
            final(self).phase == next_phase(old(self).phase, old(self).offset as int, event),
            action_spec(old(self).phase, old(self).offset as int, event, action),
    {
        match event {
            Event::Done => {
                let (next, action) = match self.phase {
                    Phase::OpeningSource => (Phase::CreatingTemp, Action::CreateTemp),
                    Phase::CreatingTemp => (Phase::Reading, Action::ReadLine),
                    Phase::Writing => (Phase::Reading, Action::ReadLine),
                    Phase::BackupPending => (Phase::PromotePending, Action::Promote),
                    _ => (Phase::Promoted, Action::Finish),
                };
                self.phase = next;
                action
            },
            Event::Line(l) => match shift_line(l.as_str(), self.offset) {
                Ok(text) => {
                    self.phase = Phase::Writing;
                    Action::WriteLine(text)
                },
                Err(e) => {
                    self.phase = Phase::Failed;
                    Action::Abort(RunError::Process(e))
                },
            },
            Event::EndOfInput => {
                self.phase = Phase::BackupPending;
                Action::TakeBackup
            },
            Event::Failed(cause) => {
                let stage = match self.phase {
                    Phase::OpeningSource => IoStage::SourceUnreadable,
                    Phase::CreatingTemp => IoStage::TempUnwritable,
                    Phase::BackupPending => IoStage::BackupFailed,
                    Phase::PromotePending => IoStage::PromoteFailed,
                    _ => IoStage::StreamFailure,
                };
                self.phase = Phase::Failed;
                Action::Abort(RunError::Io { stage, cause })
            },
        }
    }
}

} // verus!
