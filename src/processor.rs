use vstd::prelude::*;
use std::sync::atomic::AtomicBool;
use std::sync::{Arc, Mutex};
use crate::errors::ProcessingError;
use crate::progress::Progress;
use crate::types::{FileAnalysis, FileStats};

verus! {

#[verifier::external_type_specification]
#[verifier::external_body]
#[verifier::reject_recursive_types(T)]
pub struct ExMutex<T: ?Sized>(std::sync::Mutex<T>);

/// Text of the error recorded when a file could not be read.
pub open spec fn read_failure_message(filename: Seq<char>, reason: Seq<char>) -> Seq<char> {
    "Failed to read file "@ + filename + ": "@ + reason
}

/// Runs one task at a time against the shared progress tracker, unless the
/// shared cancellation flag is set.
#[derive(Clone)]
pub struct Processor {
    progress: Arc<Mutex<Progress>>,
    cancel: Arc<AtomicBool>,
}

impl Processor {
    pub closed spec fn progress_handle(self) -> Arc<Mutex<Progress>> {
        self.progress
    }

    pub closed spec fn cancel_handle(self) -> Arc<AtomicBool> {
        self.cancel
    }

    /// A processor that reports to `progress` and heeds `cancel`.
    pub fn new(progress: Arc<Mutex<Progress>>, cancel: Arc<AtomicBool>) -> (r: Processor)
        ensures
            r.progress_handle() == progress,
            r.cancel_handle() == cancel,
    {
        Processor { progress, cancel }
    }

    /// The shared progress tracker.
    pub fn progress(&self) -> (r: &Arc<Mutex<Progress>>)
        ensures
            *r == self.progress_handle(),
    {
        &self.progress
    }

    /// The shared cancellation flag.
    pub fn cancel_flag(&self) -> (r: &Arc<AtomicBool>)
        ensures
            *r == self.cancel_handle(),
    {
        &self.cancel
    }

    /// Reads the cancellation flag; another thread may set it at any time.
    pub fn is_cancelled(&self) -> bool {
        self.cancel.load(std::sync::atomic::Ordering::SeqCst)
    }

    /// The record of a task skipped because the batch was cancelled: empty
    /// figures and no errors.
    pub fn cancelled_analysis(filename: String, processing_time: std::time::Duration) -> (r:
        FileAnalysis)
        ensures
            r.filename@ == filename@,
            r.stats.is_empty(),
            r.errors@.len() == 0,
            r.processing_time == processing_time,
    {
        FileAnalysis { filename, stats: FileStats::empty(), errors: Vec::new(), processing_time }
    }

    /// The record of a task that tried to read its file: the figures of the
    /// text read, or, where reading failed, empty figures and one error that
    /// names the file and the reason.
    pub fn analysis_of(
        filename: String,
        read: Result<String, String>,
        processing_time: std::time::Duration,
    ) -> (r: FileAnalysis)
        requires
            read is Ok ==> 4 * read->Ok_0@.len() <= u64::MAX,
        ensures
            r.filename@ == filename@,
            r.processing_time == processing_time,
            match read {
                Ok(text) => r.stats.describes(text@) && r.errors@.len() == 0,
                Err(reason) => {
                    &&& r.stats.is_empty()
                    &&& r.errors@.len() == 1
                    &&& r.errors@[0].message@ == read_failure_message(filename@, reason@)
                },
            },
    {
        match read {
            Ok(text) => {
                let stats = FileStats::of_text(text.as_str());
                FileAnalysis { filename, stats, errors: Vec::new(), processing_time }
            },
            Err(reason) => {
                let mut message = String::from_str("Failed to read file ");
                message.append(filename.as_str());
                message.append(": ");
                message.append(reason.as_str());
                let mut errors: Vec<ProcessingError> = Vec::new();
                errors.push(ProcessingError::new(message));
                proof {
                    reveal_strlit("Failed to read file ");
                    reveal_strlit(": ");
                }
                FileAnalysis { filename, stats: FileStats::empty(), errors, processing_time }
            },
        }
    }

    /// Whether the task of `analysis` ended in failure: it recorded an error.
    pub fn failed(analysis: &FileAnalysis) -> (r: bool)
        ensures
            r == (analysis.errors@.len() > 0),
    {
        analysis.errors.len() > 0
    }
}

} // verus!
