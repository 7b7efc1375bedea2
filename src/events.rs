//! The event stream of the caption process: one JSON record per line of its
//! standard output. The reader decides, line by line, what to do; the caller
//! reads the pipe, parses the records and forwards the events.
use vstd::prelude::*;

verus! {

/// An event record of the caption process. `event_type` is the record's
/// `type` discriminator; the other fields are present depending on it.
#[derive(Debug, Clone, PartialEq)]
pub struct CaptionEvent {
    pub event_type: String,
    /// `"partial"` or `"final"`.
    pub caption_type: Option<String>,
    pub text: Option<String>,
    pub timestamp: Option<i64>,
    pub message: Option<String>,
    pub version: Option<String>,
    pub source: Option<String>,
}

/// The terminal event sent once the process's output has closed.
pub fn stopped_event() -> (r: CaptionEvent)
    ensures
        r.event_type@ == "stopped"@,
        r.caption_type is None,
        r.text is None,
        r.timestamp is None,
        r.message is None,
        r.version is None,
        r.source is None,
{
    CaptionEvent {
        event_type: String::from_str("stopped"),
        caption_type: None,
        text: None,
        timestamp: None,
        message: None,
        version: None,
        source: None,
    }
}

/// What one read of the output pipe gave: a line, or the end of the stream
/// (the process exited, or the pipe failed).
pub enum ReadOutcome {
    Line(String),
    Closed,
}

/// What the caller does next.
#[derive(Debug, PartialEq)]
pub enum ReaderAction {
    /// Parse the line as an event record and forward it; a line that does
    /// not parse is logged and skipped.
    Parse(String),
    /// Ignore an empty line.
    Skip,
    /// Forward the terminal `stopped` event and stop reading.
    EmitStopped,
    /// The stream already ended: nothing to do.
    Idle,
}

/// The decision for one read, from whether the stream had already ended;
/// gives whether it has ended afterwards and the action.
pub open spec fn step_spec(finished: bool, outcome: ReadOutcome) -> (bool, ReaderAction) {
    if finished {
        (true, ReaderAction::Idle)
    } else {
        match outcome {
            ReadOutcome::Line(line) => if line@.len() == 0 {
                (false, ReaderAction::Skip)
            } else {
                (false, ReaderAction::Parse(line))
            },
            ReadOutcome::Closed => (true, ReaderAction::EmitStopped),
        }
    }
}

/// How many `stopped` events the reader emits over a run of reads.
pub open spec fn stopped_count(finished: bool, outcomes: Seq<ReadOutcome>) -> nat
    decreases outcomes.len(),
{
    if outcomes.len() == 0 {
        0
    } else {
        let (next, action) = step_spec(finished, outcomes[0]);
        (if action is EmitStopped {
            1nat
        } else {
            0nat
        }) + stopped_count(next, outcomes.drop_first())
    }
}

/// The reader of one process's output stream.
pub struct EventReader {
    pub finished: bool,
}

impl EventReader {
    /// A reader of a stream that has not ended.
    pub fn new() -> (r: Self)
        ensures
            !r.finished,
    {
        EventReader { finished: false }
    }

    /// Decides what to do with the outcome of one read.
    pub fn on_read(&mut self, outcome: ReadOutcome) -> (r: ReaderAction)
        ensures
            (final(self).finished, r) == step_spec(old(self).finished, outcome),
    {
        if self.finished {
            return ReaderAction::Idle;
        }
        match outcome {
            ReadOutcome::Line(line) => {
                if line.as_str().is_empty() {
                    ReaderAction::Skip
                } else {
                    ReaderAction::Parse(line)
                }
            },
            ReadOutcome::Closed => {
                self.finished = true;
                ReaderAction::EmitStopped
            },
        }
    }
}

proof fn lemma_finished_silent(outcomes: Seq<ReadOutcome>)
    ensures
        stopped_count(true, outcomes) == 0,
    decreases outcomes.len(),
{
    if outcomes.len() > 0 {
        lemma_finished_silent(outcomes.drop_first());
    }
}

/// A reader that starts on a live stream emits the `stopped` event exactly
/// once when the stream closes at some point, and never otherwise.
pub proof fn lemma_stopped_once(outcomes: Seq<ReadOutcome>)
    ensures
        stopped_count(false, outcomes) == (if exists|i: int|
            0 <= i < outcomes.len() && #[trigger] outcomes[i] is Closed {
            1nat
        } else {
            0nat
        }),
    decreases outcomes.len(),
{
    if outcomes.len() > 0 {
        let rest = outcomes.drop_first();
        match outcomes[0] {
            ReadOutcome::Closed => {
                lemma_finished_silent(rest);
            },
            ReadOutcome::Line(_) => {
                lemma_stopped_once(rest);
                if exists|i: int| 0 <= i < rest.len() && #[trigger] rest[i] is Closed {
                    let i = choose|i: int| 0 <= i < rest.len() && #[trigger] rest[i] is Closed;
                    assert(outcomes[i + 1] is Closed);
                }
                if exists|i: int| 0 <= i < outcomes.len() && #[trigger] outcomes[i] is Closed {
                    let i = choose|i: int| 0 <= i < outcomes.len() && #[trigger] outcomes[i] is Closed;
                    assert(rest[i - 1] is Closed);
                }
            },
        }
    }
}

} // verus!
