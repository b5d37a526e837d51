//! A Slurm job as the job list shows it, and its identifier.
use vstd::prelude::*;

use crate::text::{chars_of, concat_string, decimal, decimal_chars, extend_chars, owned, string_of, two_digit_chars, two_digits};

verus! {

/// One allocation reported by `sacct`. Paths are kept as the text of the path.
pub struct Job {
    pub job_id: String,
    pub array_id: String,
    pub array_step: Option<String>,
    pub name: String,
    pub state: String,
    pub state_compact: String,
    pub reason: Option<String>,
    pub user: String,
    pub time: String,
    pub time_limit: String,
    pub start_time: String,
    pub tres: String,
    pub partition: String,
    pub nodelist: String,
    pub stdout: Option<String>,
    pub stderr: Option<String>,
    pub workdir: Option<String>,
    pub command: String,
}

/// The mathematical content of a [`Job`]: every field as a character sequence.
pub ghost struct JobModel {
    pub job_id: Seq<char>,
    pub array_id: Seq<char>,
    pub array_step: Option<Seq<char>>,
    pub name: Seq<char>,
    pub state: Seq<char>,
    pub state_compact: Seq<char>,
    pub reason: Option<Seq<char>>,
    pub user: Seq<char>,
    pub time: Seq<char>,
    pub time_limit: Seq<char>,
    pub start_time: Seq<char>,
    pub tres: Seq<char>,
    pub partition: Seq<char>,
    pub nodelist: Seq<char>,
    pub stdout: Option<Seq<char>>,
    pub stderr: Option<Seq<char>>,
    pub workdir: Option<Seq<char>>,
    pub command: Seq<char>,
}

/// The models of a sequence of jobs.
pub open spec fn job_views(v: Seq<Job>) -> Seq<JobModel> {
    v.map_values(|j: Job| j@)
}

pub open spec fn opt_view(o: Option<String>) -> Option<Seq<char>> {
    match o {
        Some(s) => Some(s@),
        None => None,
    }
}

impl View for Job {
    type V = JobModel;

    open spec fn view(&self) -> JobModel {
        JobModel {
            job_id: self.job_id@,
            array_id: self.array_id@,
            array_step: opt_view(self.array_step),
            name: self.name@,
            state: self.state@,
            state_compact: self.state_compact@,
            reason: opt_view(self.reason),
            user: self.user@,
            time: self.time@,
            time_limit: self.time_limit@,
            start_time: self.start_time@,
            tres: self.tres@,
            partition: self.partition@,
            nodelist: self.nodelist@,
            stdout: opt_view(self.stdout),
            stderr: opt_view(self.stderr),
            workdir: opt_view(self.workdir),
            command: self.command@,
        }
    }
}

/// The identifier shown for a job: `array_step` after `array_id` and `_` for an
/// array task, the job id otherwise.
pub open spec fn job_id_text(j: JobModel) -> Seq<char> {
    match j.array_step {
        Some(step) => j.array_id + seq!['_'] + step,
        None => j.job_id,
    }
}

impl Job {
    /// The identifier shown for this job.
    pub fn id(&self) -> (r: String)
        ensures
            r@ == job_id_text(self@),
    {
        match &self.array_step {
            Some(step) => {
                let mut v = chars_of(self.array_id.as_str());
                v.push('_');
                let s = chars_of(step.as_str());
                extend_chars(&mut v, s.as_slice());
                string_of(v.as_slice())
            },
            None => self.job_id.clone(),
        }
    }
}

/// The job that `test_job(index)` builds: identifiers `1000 + index`, a running
/// job named `job-{index}` of user `chlo` in partition `debug`.
pub open spec fn test_job_model(index: nat) -> JobModel {
    JobModel {
        job_id: decimal(1000 + index),
        array_id: decimal(1000 + index),
        array_step: None,
        name: "job-"@ + decimal(index),
        state: "RUNNING"@,
        state_compact: "R"@,
        reason: None,
        user: "chlo"@,
        time: "00:"@ + two_digits(index % 60) + ":00"@,
        time_limit: "01:00:00"@,
        start_time: "N/A"@,
        tres: "cpu=1"@,
        partition: "debug"@,
        nodelist: "node-01"@,
        stdout: None,
        stderr: None,
        workdir: None,
        command: "run-job-"@ + decimal(index),
    }
}

/// A sample job for tests and fixtures.
pub fn test_job(index: usize) -> (r: Job)
    requires
        index + 1000 <= u64::MAX,
    ensures
        r@ == test_job_model(index as nat),
{
    let id = decimal_chars((index as u64) + 1000);
    let idx = decimal_chars(index as u64);
    let job_prefix = chars_of("job-");
    let name = concat_string(job_prefix.as_slice(), idx.as_slice());
    let mut time_v = chars_of("00:");
    let mm = two_digit_chars((index as u64) % 60);
    extend_chars(&mut time_v, mm.as_slice());
    let tail = chars_of(":00");
    extend_chars(&mut time_v, tail.as_slice());
    let run_prefix = chars_of("run-job-");
    let command = concat_string(run_prefix.as_slice(), idx.as_slice());
    Job {
        job_id: string_of(id.as_slice()),
        array_id: string_of(id.as_slice()),
        array_step: None,
        name,
        state: owned("RUNNING"),
        state_compact: owned("R"),
        reason: None,
        user: owned("chlo"),
        time: string_of(time_v.as_slice()),
        time_limit: owned("01:00:00"),
        start_time: owned("N/A"),
        tres: owned("cpu=1"),
        partition: owned("debug"),
        nodelist: owned("node-01"),
        stdout: None,
        stderr: None,
        workdir: None,
        command,
    }
}

} // verus!
