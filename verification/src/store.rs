//! The stored form of a job: the row, the statements that read and write it,
//! and the job read back from a row.

use vstd::prelude::*;
use crate::job::Job;
use crate::number::{decimal, decimal_chars};
use crate::stage::{JobType, Preset, Stage};
use crate::text::string_of;

verus! {

/// Creates the table of jobs where there is none.
pub const CREATE_JOBS: &'static str = "CREATE TABLE IF NOT EXISTS jobs (
                job_id BIGINT PRIMARY KEY,
                author TEXT NOT NULL,
                requested_at BIGINT NOT NULL,
                job_type SMALLINT NOT NULL,
                preset SMALLINT NOT NULL,
                preset_concat SMALLINT,
                link TEXT NOT NULL,
                directory TEXT NOT NULL,
                ready SMALLINT NOT NULL,
                message_id BIGINT,
                channel_id BIGINT,
                created_at TIMESTAMP DEFAULT NOW(),
                completed_at TIMESTAMP,
                archived BOOLEAN DEFAULT FALSE
            )";

/// The indexes of the table, and the statements that write and read rows.
pub const INDEX_READY: &'static str =
    "CREATE INDEX IF NOT EXISTS idx_jobs_ready ON jobs(ready) WHERE NOT archived";

pub const INDEX_AUTHOR: &'static str = "CREATE INDEX IF NOT EXISTS idx_jobs_author ON jobs(author)";

pub const INDEX_CHANNEL: &'static str =
    "CREATE INDEX IF NOT EXISTS idx_jobs_channel ON jobs(channel_id)";

pub const INDEX_ARCHIVED: &'static str =
    "CREATE INDEX IF NOT EXISTS idx_jobs_archived ON jobs(archived)";

/// Adds the column of the status view to a table that was made without it.
pub const ADD_MESSAGE_ID: &'static str = "ALTER TABLE jobs ADD COLUMN message_id BIGINT";

pub const INSERT_JOB: &'static str = "INSERT INTO jobs
                (job_id, author, requested_at, job_type, preset, preset_concat,
                 link, directory, ready, message_id, channel_id)
             VALUES ($1, $2, $3, $4, $5, $6, $7, $8, $9, $10, $11)";

pub const UPDATE_STAGE: &'static str = "UPDATE jobs SET ready = $1 WHERE job_id = $2";

pub const UPDATE_MESSAGE_ID: &'static str = "UPDATE jobs SET message_id = $1 WHERE job_id = $2";

pub const ARCHIVE_JOB: &'static str =
    "UPDATE jobs SET archived = TRUE, completed_at = NOW() WHERE job_id = $1";

pub const SELECT_JOB: &'static str =
    "SELECT job_id, author, requested_at, job_type, preset, preset_concat,
                    link, directory, ready, message_id, channel_id, archived
             FROM jobs WHERE job_id = $1";

pub const SELECT_BY_STAGE: &'static str =
    "SELECT job_id, author, requested_at, job_type, preset, preset_concat,
                    link, directory, ready, message_id, channel_id, archived
             FROM jobs WHERE ready = $1 AND NOT archived
             ORDER BY requested_at ASC";

pub const SELECT_ACTIVE: &'static str =
    "SELECT job_id, author, requested_at, job_type, preset, preset_concat,
                    link, directory, ready, message_id, channel_id, archived
             FROM jobs
             WHERE ready < $1 AND NOT archived
             ORDER BY requested_at ASC";

pub const COUNT_ACTIVE: &'static str = "SELECT COUNT(*) FROM jobs WHERE ready < $1 AND NOT archived";

pub const SELECT_BY_AUTHOR: &'static str =
    "SELECT job_id, author, requested_at, job_type, preset, preset_concat,
                    link, directory, ready, message_id, channel_id, archived
             FROM jobs
             WHERE author = $1
             ORDER BY requested_at DESC
             LIMIT $2";

pub const SELECT_COMPLETED: &'static str =
    "SELECT job_id, author, requested_at, job_type, preset, preset_concat,
                    link, directory, ready, message_id, channel_id, archived
             FROM jobs
             WHERE archived = TRUE
             ORDER BY completed_at DESC
             LIMIT $1";

/// A job as it is stored.
#[derive(Debug)]
pub struct JobRow {
    pub job_id: u64,
    pub author: String,
    pub requested_at: u64,
    pub job_type: i16,
    pub preset: i16,
    pub preset_concat: Option<i16>,
    pub link: String,
    pub directory: String,
    pub ready: i16,
    pub message_id: u64,
    pub channel_id: u64,
    pub archived: bool,
}

/// A job as it is read back.
#[derive(Debug)]
pub struct JobMetadata {
    pub job_id: u64,
    pub author: String,
    /// Seconds since the epoch.
    pub requested_at: u64,
    pub job_type: JobType,
    pub preset: Preset,
    pub link: String,
    pub directory: String,
    pub ready: Stage,
    pub message_id: u64,
    pub channel_id: u64,
    pub archived: bool,
}

impl Clone for JobRow {
    fn clone(&self) -> (out: Self)
        ensures
            out.job_id == self.job_id,
            out.author@ == self.author@,
            out.requested_at == self.requested_at,
            out.job_type == self.job_type,
            out.preset == self.preset,
            out.preset_concat == self.preset_concat,
            out.link@ == self.link@,
            out.directory@ == self.directory@,
            out.ready == self.ready,
            out.message_id == self.message_id,
            out.channel_id == self.channel_id,
            out.archived == self.archived,
    {
        JobRow {
            job_id: self.job_id,
            author: self.author.clone(),
            requested_at: self.requested_at,
            job_type: self.job_type,
            preset: self.preset,
            preset_concat: self.preset_concat,
            link: self.link.clone(),
            directory: self.directory.clone(),
            ready: self.ready,
            message_id: self.message_id,
            channel_id: self.channel_id,
            archived: self.archived,
        }
    }
}

impl JobRow {
    /// The row that stores `job`: stage, preset and kind by their integers, the
    /// author by its numeral, not archived.
    pub fn of_job(job: &Job) -> (row: JobRow)
        ensures
            row.job_id == job.job_id,
            row.author@ == decimal(job.author as nat),
            row.requested_at == job.requested_at,
            row.job_type == 1,
            row.preset == job.preset.kind_spec(),
            row.preset_concat == job.preset.concat_spec(),
            row.link@ == job.torrent.address(),
            row.directory@ == job.directory@,
            row.ready == job.ready.ordinal_spec(),
            row.message_id == job.response_id,
            row.channel_id == job.channel_id,
            !row.archived,
    {
        let (preset, preset_concat) = job.preset.encode_preset();
        JobRow {
            job_id: job.job_id,
            author: string_of(&decimal_chars(job.author)),
            requested_at: job.requested_at,
            job_type: job.job_type.code(),
            preset,
            preset_concat,
            link: job.torrent.get(),
            directory: job.directory.clone(),
            ready: job.ready.ordinal(),
            message_id: job.response_id,
            channel_id: job.channel_id,
            archived: false,
        }
    }

    /// The job that the row stores. A stage that no integer names reads as
    /// `Failed`, a preset that none names as `Standard` with the intro 0.
    pub fn to_job_metadata(&self) -> (job: JobMetadata)
        ensures
            job.job_id == self.job_id,
            job.author@ == self.author@,
            job.requested_at == self.requested_at,
            job.job_type == JobType::Encode,
            job.preset == Preset::decoded(self.preset, self.preset_concat),
            job.link@ == self.link@,
            job.directory@ == self.directory@,
            job.ready == Stage::of_ordinal(self.ready as int),
            job.message_id == self.message_id,
            job.channel_id == self.channel_id,
            job.archived == self.archived,
    {
        JobMetadata {
            job_id: self.job_id,
            author: self.author.clone(),
            requested_at: self.requested_at,
            job_type: JobType::decode_job_type(self.job_type),
            preset: Preset::decode_preset(self.preset, self.preset_concat),
            link: self.link.clone(),
            directory: self.directory.clone(),
            ready: Stage::decode(self.ready),
            message_id: self.message_id,
            channel_id: self.channel_id,
            archived: self.archived,
        }
    }
}

/// The largest stage of a job that is still under way, as it is handed to the
/// statements that select such jobs.
pub fn active_bound() -> (r: i16)
    ensures
        r == Stage::Uploaded.ordinal_spec(),
{
    Stage::Uploaded.ordinal()
}

} // verus!
