//! The shared pipeline state: the monotonic progress counter, the
//! cooperative stop flag, and the first-error-wins latch through which
//! every fatal condition reaches the caller.
use vstd::prelude::*;

use crate::article::ParseEvent;

verus! {

/// A fatal or control-flow condition raised during a run.
#[derive(Debug)]
pub enum ExtractError {
    /// An input file could not be opened or read; fatal for the run.
    FileIo {
        /// The file that failed.
        target: String,
        /// What the underlying read said.
        message: String,
    },
    /// An input path did not name a file; the run is refused before
    /// any worker starts.
    NotAFile {
        /// The offending path.
        target: String,
    },
    /// A worker terminated without producing a result; always fatal.
    UnexpectedPanic,
    /// A sink or listener failed fatally while persisting a record.
    Listener {
        /// What the sink said.
        message: String,
    },
    /// Not a failure: a per-record policy asked the run to stop early.
    /// The orchestrator reports a cancelled run as success.
    Cancelled,
}

/// The text a condition is reported with.
pub open spec fn message_spec(e: ExtractError) -> Seq<char> {
    match e {
        ExtractError::FileIo { target, message } => "Fatal IO Error in "@ + target@ + ": "@
            + message@,
        ExtractError::NotAFile { target } => "Not a file: "@ + target@,
        ExtractError::UnexpectedPanic => "Unexpected panic in thread"@,
        ExtractError::Listener { message } => message@,
        ExtractError::Cancelled => "Cancelled extract"@,
    }
}

impl ExtractError {
    /// Renders the condition for the final report, naming the
    /// offending path where there is one.
    pub fn message(&self) -> (r: String)
        ensures
            r@ == message_spec(*self),
    {
        match self {
            ExtractError::FileIo { target, message } => {
                let mut out = String::from_str("Fatal IO Error in ");
                out.append(target.as_str());
                out.append(": ");
                out.append(message.as_str());
                out
            },
            ExtractError::NotAFile { target } => {
                let mut out = String::from_str("Not a file: ");
                out.append(target.as_str());
                out
            },
            ExtractError::UnexpectedPanic => String::from_str("Unexpected panic in thread"),
            ExtractError::Listener { message } => message.clone(),
            ExtractError::Cancelled => String::from_str("Cancelled extract"),
        }
    }

    /// Whether this condition is the cancellation signal rather than a
    /// genuine failure.
    pub fn is_cancellation(&self) -> (r: bool)
        ensures
            r == (*self is Cancelled),
    {
        match self {
            ExtractError::Cancelled => true,
            _ => false,
        }
    }
}

/// The write-once error latch: the first error is kept, every later
/// one is discarded.
pub open spec fn latch(current: Option<ExtractError>, e: ExtractError) -> Option<ExtractError> {
    if current is None {
        Some(e)
    } else {
        current
    }
}

/// First-error-wins: on an empty latch the first fatal error is kept
/// and any error latched after it is discarded, so the run surfaces
/// exactly the error that struck first.
pub proof fn lemma_first_error_wins(e1: ExtractError, e2: ExtractError)
    ensures
        latch(latch(Option::<ExtractError>::None, e1), e2) == Some(e1),
{
}

/// The coordination state one ingestion run shares across its workers:
/// the caller guards it with its lock and hands each access here.
pub struct ExtractState {
    /// How many well-formed records have been taken for processing;
    /// monotonic, never reset.
    pub count: u64,
    /// The cooperative stop flag, read by every worker before it takes
    /// another record.
    pub should_stop: bool,
    /// The first fatal condition of the run, if any struck yet.
    pub error: Option<ExtractError>,
}

impl ExtractState {
    /// A fresh run: nothing counted, not stopping, no error.
    pub fn new() -> (r: ExtractState)
        ensures
            r.count == 0,
            !r.should_stop,
            r.error is None,
    {
        ExtractState { count: 0, should_stop: false, error: None }
    }

    /// Latches a fatal condition: kept if it is the first, discarded
    /// otherwise.
    pub fn provide_error(&mut self, error: ExtractError)
        ensures
            final(self).error == latch(old(self).error, error),
            final(self).count == old(self).count,
            final(self).should_stop == old(self).should_stop,
    {
        if self.error.is_none() {
            self.error = Some(error);
        }
    }

    /// Asks every in-flight worker to stop before its next record.
    pub fn request_stop(&mut self)
        ensures
            final(self).should_stop,
            final(self).count == old(self).count,
            final(self).error == old(self).error,
    {
        self.should_stop = true;
    }

    /// Takes the next progress-counter value: returns the count before
    /// this record and advances it, with no gap and no double count.
    pub fn next_count(&mut self) -> (r: u64)
        requires
            old(self).count < u64::MAX,
        ensures
            r == old(self).count,
            final(self).count == old(self).count + 1,
            final(self).should_stop == old(self).should_stop,
            final(self).error == old(self).error,
    {
        let r = self.count;
        self.count = self.count + 1;
        r
    }

    /// Removes and returns the latched error, leaving the latch empty.
    pub fn take_error(&mut self) -> (r: Option<ExtractError>)
        ensures
            r == old(self).error,
            final(self).error is None,
            final(self).count == old(self).count,
            final(self).should_stop == old(self).should_stop,
    {
        self.error.take()
    }

    /// The join step of the run: folds each worker's termination into
    /// the latch — a panicked worker counts as a fatal error like any
    /// other — and surfaces the first latched error, if any. With no
    /// worker to join, nothing is reported.
    pub fn wait(&mut self, panicked: &Vec<bool>) -> (r: Result<(), ExtractError>)
        ensures
            final(self).count == old(self).count,
            final(self).should_stop == old(self).should_stop,
            r is Ok ==> final(self).error == old(self).error,
            panicked@.len() == 0 ==> r is Ok,
            panicked@.len() > 0 ==> (old(self).error matches Some(e) ==> r == Err::<
                (),
                ExtractError,
            >(e) && final(self).error is None),
            old(self).error is None && (exists|j: int|
                0 <= j < panicked@.len() && panicked@[j]) ==> (r matches Err(e) && e
                == ExtractError::UnexpectedPanic && final(self).error is None),
            old(self).error is None && (forall|j: int|
                0 <= j < panicked@.len() ==> !panicked@[j]) ==> r is Ok && final(self).error
                is None,
    {
        let n = panicked.len();
        let mut i: usize = 0;
        while i < n
            invariant
                0 <= i <= n,
                n == panicked@.len(),
                self.count == old(self).count,
                self.should_stop == old(self).should_stop,
                self.error == old(self).error,
                i > 0 ==> old(self).error is None,
                forall|j: int| 0 <= j < i ==> !panicked@[j],
            decreases n - i,
        {
            if panicked[i] {
                self.provide_error(ExtractError::UnexpectedPanic);
            }
            if self.error.is_some() {
                let e = self.take_error();
                return Err(e.unwrap());
            }
            i = i + 1;
        }
        Ok(())
    }
}

/// The orchestrator's final classification: cancellation is control
/// flow, not failure, so a run whose first latched condition is the
/// cancellation signal is reported as success; any other error is
/// surfaced unchanged.
pub fn surface_result(r: Result<(), ExtractError>) -> (out: Result<(), ExtractError>)
    ensures
        out is Ok <==> (r is Ok || r matches Err(ExtractError::Cancelled)),
        out matches Err(e) ==> r == Err::<(), ExtractError>(e),
{
    match r {
        Ok(()) => Ok(()),
        Err(e) => {
            if e.is_cancellation() {
                Ok(())
            } else {
                Err(e)
            }
        },
    }
}

/// The sink-side hook a run drives: one call per well-formed record,
/// one per malformed one. An implementation persists or forwards the
/// record; an `Err` it returns is fatal for the run, except the
/// cancellation signal.
pub trait ExtractListener {
    /// Called once per well-formed record.
    fn on_parse(&mut self, event: ParseEvent) -> Result<(), ExtractError>;

    /// Called once per record that failed to decode.
    fn on_parse_error(&mut self, original_file: &str, message: &str) -> Result<(), ExtractError>;
}

} // verus!
