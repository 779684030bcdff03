//! The ingestion pipeline's bookkeeping: accepting or skipping each
//! line, counting, and deciding when a periodic commit is due.

use vstd::prelude::*;

verus! {

use crate::blocklist::Blocklist;
use crate::record::IndexableDocument;
use crate::record::RecordModel;
use crate::record::parse_of;
use crate::record::parse_record_line;
use crate::record::derive_document;
use crate::record::spec_derive;

/// A commit is issued to the index sink every time the count of
/// processed documents crosses a multiple of this threshold.
pub const COMMIT_THRESHOLD: u64 = 1000;

/// The fatal, job-aborting failures that the pipeline itself decides;
/// failures of the index sink surface through the sink's own calls.
pub enum JobError {
    /// File discovery matched no input file.
    NoInputFiles,
}

/// Confirms that file discovery found at least one input file. A
/// pattern matching zero files is fatal: the job must terminate
/// before any index directory is created.
pub fn check_file_count(count: usize) -> (r: Result<usize, JobError>)
    ensures
        count > 0 ==> r == Ok::<usize, JobError>(count),
        count == 0 ==> r == Err::<usize, JobError>(JobError::NoInputFiles),
{
    if count == 0 {
        Err(JobError::NoInputFiles)
    } else {
        Ok(count)
    }
}

/// The running counters of one job: documents accepted into the index
/// and lines skipped, both since the start of the run.
pub struct JobRun {
    pub processed: u64,
    pub skipped: u64,
}

/// What became of one input line.
pub enum LineOutcome {
    /// The line was accepted: `doc` goes to the index sink, and when
    /// `commit_due` holds the sink is committed right after.
    Document { doc: IndexableDocument, commit_due: bool },
    /// The line was rejected: malformed JSON or no usable `url`. The
    /// failure is counted and the job continues.
    Rejected,
}

/// Whether a record line is structurally valid: it parses and its
/// `url` is non-empty.
pub open spec fn spec_accepts(line: Seq<char>) -> bool {
    match parse_of(line) {
        Some(m) => m.url.len() > 0,
        None => false,
    }
}

/// The model of the record a valid line parses to.
pub open spec fn parsed_record(line: Seq<char>) -> RecordModel
    recommends
        spec_accepts(line),
{
    parse_of(line)->Some_0
}

impl JobRun {
    /// A fresh run: nothing processed, nothing skipped.
    pub fn new() -> (j: JobRun)
        ensures
            j.processed == 0,
            j.skipped == 0,
    {
        JobRun { processed: 0, skipped: 0 }
    }

    /// Processes one input line: parses it, derives the document of a
    /// valid record, and counts. A rejected line never aborts the
    /// run; a periodic commit is due each time the processed count
    /// reaches a multiple of the threshold.
    pub fn process_line(&mut self, line: &str, nsfw_domains: &Blocklist) -> (r: LineOutcome)
        requires
            old(self).processed < u64::MAX,
            old(self).skipped < u64::MAX,
        ensures
            spec_accepts(line@) ==> {
                &&& final(self).processed == old(self).processed + 1
                &&& final(self).skipped == old(self).skipped
                &&& (r matches LineOutcome::Document { doc, commit_due } && doc@ == spec_derive(
                    parsed_record(line@),
                    nsfw_domains@,
                ) && commit_due == (final(self).processed % COMMIT_THRESHOLD == 0))
            },
            !spec_accepts(line@) ==> {
                &&& final(self).processed == old(self).processed
                &&& final(self).skipped == old(self).skipped + 1
                &&& r is Rejected
            },
    {
        match parse_record_line(line) {
            Some(rec) => {
                if rec.url.as_str().is_empty() {
                    self.skipped = self.skipped + 1;
                    LineOutcome::Rejected
                } else {
                    let doc = derive_document(&rec, nsfw_domains);
                    self.processed = self.processed + 1;
                    let commit_due = self.processed % COMMIT_THRESHOLD == 0;
                    LineOutcome::Document { doc, commit_due }
                }
            },
            None => {
                self.skipped = self.skipped + 1;
                LineOutcome::Rejected
            },
        }
    }
}

} // verus!
