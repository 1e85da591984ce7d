//! The rows of the job store. Identifiers are UUID values; timestamps are
//! microseconds since the Unix epoch.
use vstd::prelude::*;
use crate::status::{FragmentJobStatus, JobStatus};

verus! {

/// An ingested media file; owns its fragments.
#[derive(Debug, Clone, PartialEq, Eq)]
pub struct Media {
    pub media_id: u128,
    pub basename: Option<String>,
    pub created_at: i64,
    pub updated_at: i64,
    pub deleted_at: Option<i64>,
}

#[derive(Debug, Clone, PartialEq, Eq)]
pub struct NewMedia {
    pub basename: Option<String>,
}

/// One time slice (or the whole) of a media file.
#[derive(Debug, Clone, PartialEq, Eq)]
pub struct Fragment {
    pub fragment_id: u128,
    pub media_id: u128,
    pub filename: String,
    /// Present iff the media was segmented.
    pub fragment_number: Option<i32>,
    /// Private key text, present iff the payload is encrypted.
    pub encryption_key: Option<String>,
    /// Where the payload can be fetched from.
    pub retrieval_url: Option<String>,
    pub created_at: i64,
    pub updated_at: i64,
    pub deleted_at: Option<i64>,
}

#[derive(Debug, Clone, PartialEq, Eq)]
pub struct NewFragment {
    pub media_id: u128,
    pub filename: String,
    pub fragment_number: Option<i32>,
    pub encryption_key: Option<String>,
    pub retrieval_url: Option<String>,
}

/// A request to transcode every fragment of a media.
#[derive(Debug, Clone, PartialEq, Eq)]
pub struct TranscodingJob {
    pub transcoding_job_id: u128,
    pub media_id: u128,
    pub status: JobStatus,
    pub ffmpeg_command: String,
    pub created_at: i64,
    pub updated_at: i64,
    pub deleted_at: Option<i64>,
}

#[derive(Debug, Clone, PartialEq, Eq)]
pub struct NewTranscodingJob {
    pub media_id: u128,
    pub ffmpeg_command: String,
    pub status: JobStatus,
}

/// The transcoding of one fragment under a job.
#[derive(Debug, Clone, Copy, PartialEq, Eq, Structural)]
pub struct TranscodingFragmentJob {
    pub transcoding_fragment_job_id: u128,
    pub transcoding_job_id: u128,
    pub fragment_id: u128,
    pub status: FragmentJobStatus,
    pub created_at: i64,
    pub updated_at: i64,
    pub deleted_at: Option<i64>,
}

/// What a worker needs to know of a fragment job to start on it.
#[derive(Debug, Clone, Copy, PartialEq, Eq, Structural)]
pub struct JobResume {
    pub transcoding_fragment_job_id: u128,
    pub transcoding_job_id: u128,
    pub fragment_id: u128,
}

#[derive(Debug, Clone, Copy, PartialEq, Eq, Structural)]
pub struct NewTranscodingFragmentJob {
    pub transcoding_job_id: u128,
    pub fragment_id: u128,
    pub status: FragmentJobStatus,
}

impl TranscodingFragmentJob {
    pub open spec fn resume(self) -> JobResume {
        JobResume {
            transcoding_fragment_job_id: self.transcoding_fragment_job_id,
            transcoding_job_id: self.transcoding_job_id,
            fragment_id: self.fragment_id,
        }
    }
}

} // verus!

verus! {

/// A request to submit a transcoding job for a media.
#[derive(Debug, Clone, PartialEq, Eq)]
pub struct TranscodeCommand {
    /// The media's identifier, as UUID text.
    pub media_id: String,
    /// The command template handed to the transcoder.
    pub ffmpeg_command: String,
    /// Queue the job at once instead of leaving it pending.
    pub start: bool,
}

} // verus!
