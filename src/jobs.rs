use vstd::prelude::*;
use crate::input::is_digit;
use crate::naming::{
    file_name_text, image_file_name, image_url, image_url_text, push_decimal, sanitize_query, sanitized,
};
use crate::platform::same_text;
use crate::resolution::Resolution;
use crate::batch::BatchError;

verus! {

/// The work of one image: where its bytes go and where they come from.
pub struct DownloadJob {
    pub index: usize,
    pub file_name: String,
    pub url: String,
}

/// The shape of a time stamp: at least 23 characters, all ASCII digits but
/// for a `+` that may lead.
pub open spec fn is_time_stamp(s: Seq<char>) -> bool {
    &&& s.len() >= 23
    &&& forall|i: int|
        0 <= i < s.len() ==> is_digit(#[trigger] s[i]) || (i == 0 && s[i] == '+')
}

/// Relies on `SystemTime::now` and `duration_since`, which fail on a clock set
/// before 1970, and on chrono's `DateTime::from_timestamp`, which gives `None`
/// out of its range; the time is then written by chrono's `format` as
/// `%Y%m%d%H%M%S%f`: a zero-padded year of four digits (a `+` and five or more
/// past 9999), two digits each for month, day, hours, minutes and seconds,
/// and nine digits of nanoseconds.
#[verifier::external_body]
fn timestamp_now() -> (r: Option<String>)
    ensures
        r matches Some(s) ==> is_time_stamp(s@),
{
    let since = std::time::SystemTime::now().duration_since(std::time::UNIX_EPOCH).ok()?;
    let secs = i64::try_from(since.as_secs()).ok()?;
    let moment = chrono::DateTime::from_timestamp(secs, since.subsec_nanos())?;
    Some(moment.format("%Y%m%d%H%M%S%f").to_string())
}

/// How often the clock is read for one job before its name is made unique
/// by the job's index.
const CLOCK_READS: u32 = 3;

/// No two strings of `s` have the same text.
pub open spec fn all_distinct(s: Seq<String>) -> bool {
    forall|a: int, b: int| 0 <= a < b < s.len() ==> #[trigger] s[a]@ != #[trigger] s[b]@
}

fn appears_in(s: &str, earlier: &Vec<String>) -> (r: bool)
    ensures
        r == exists|j: int| 0 <= j < earlier@.len() && #[trigger] earlier@[j]@ == s@,
{
    let mut j: usize = 0;
    while j < earlier.len()
        invariant
            j <= earlier@.len(),
            forall|k: int| 0 <= k < j ==> #[trigger] earlier@[k]@ != s@,
        decreases earlier@.len() - j,
    {
        if same_text(earlier[j].as_str(), s) {
            return true;
        }
        j = j + 1;
    }
    false
}

fn longest_len(earlier: &Vec<String>) -> (r: usize)
    ensures
        forall|j: int| 0 <= j < earlier@.len() ==> (#[trigger] earlier@[j])@.len() <= r,
{
    let mut longest: usize = 0;
    let mut j: usize = 0;
    while j < earlier.len()
        invariant
            j <= earlier@.len(),
            forall|k: int| 0 <= k < j ==> (#[trigger] earlier@[k])@.len() <= longest,
        decreases earlier@.len() - j,
    {
        let n = earlier[j].as_str().unicode_len();
        if n > longest {
            longest = n;
        }
        j = j + 1;
    }
    longest
}

/// A time stamp for job `index` that no earlier job has. The clock is read
/// up to `CLOCK_READS` times; failing that, the job's index is appended to
/// the last reading after a dash, and should that be taken too, underscores
/// follow until it is free.
fn fresh_stamp(earlier: &Vec<String>, index: usize) -> (r: String)
    ensures
        forall|j: int| 0 <= j < earlier@.len() ==> #[trigger] earlier@[j]@ != r@,
{
    let mut last: Option<String> = None;
    let mut tries: u32 = 0;
    while tries < CLOCK_READS
        invariant
            tries <= CLOCK_READS,
        decreases CLOCK_READS - tries,
    {
        match timestamp_now() {
            Some(stamp) => {
                if !appears_in(stamp.as_str(), earlier) {
                    return stamp;
                }
                last = Some(stamp);
            },
            None => {},
        }
        tries = tries + 1;
    }
    let mut candidate = match last {
        Some(stamp) => stamp,
        None => String::new(),
    };
    candidate.push('-');
    push_decimal(&mut candidate, index as u64);
    let longest = longest_len(earlier);
    let mut taken = appears_in(candidate.as_str(), earlier);
    while taken && candidate.as_str().unicode_len() <= longest
        invariant
            taken == exists|j: int| 0 <= j < earlier@.len() && #[trigger] earlier@[j]@ == candidate@,
            forall|j: int| 0 <= j < earlier@.len() ==> (#[trigger] earlier@[j])@.len() <= longest,
        decreases longest + 1 - candidate@.len(),
    {
        candidate.push('_');
        taken = appears_in(candidate.as_str(), earlier);
    }
    candidate
}

/// Job `i` of a batch for `query` at the given resolution, named after `stamp`.
pub open spec fn job_matches(
    job: DownloadJob,
    i: int,
    resolution: Resolution,
    query: Seq<char>,
    stamp: Seq<char>,
) -> bool {
    &&& job.index == i
    &&& job.file_name@ == file_name_text(sanitized(query), stamp)
    &&& job.url@ == image_url_text(resolution.width, resolution.height, query)
}

/// One job per time stamp, in order: job `i` writes to a file named after the
/// sanitized query and `stamps[i]`, and fetches the image URL for the query.
pub fn plan_jobs(resolution: &Resolution, query: &str, stamps: &Vec<String>) -> (r: Vec<DownloadJob>)
    ensures
        r@.len() == stamps@.len(),
        forall|i: int|
            0 <= i < r@.len() ==> job_matches(#[trigger] r@[i], i, *resolution, query@, stamps@[i]@),
        all_distinct(stamps@) ==> forall|i: int, j: int|
            0 <= i < j < r@.len() ==> #[trigger] r@[i].file_name@ != #[trigger] r@[j].file_name@,
{
    let dir_name = sanitize_query(query);
    let mut jobs: Vec<DownloadJob> = Vec::new();
    let mut i: usize = 0;
    while i < stamps.len()
        invariant
            i <= stamps@.len(),
            dir_name@ == sanitized(query@),
            jobs@.len() == i,
            forall|j: int|
                0 <= j < i ==> job_matches(#[trigger] jobs@[j], j, *resolution, query@, stamps@[j]@),
        decreases stamps@.len() - i,
    {
        let file_name = image_file_name(dir_name.as_str(), stamps[i].as_str());
        let url = image_url(resolution, query);
        jobs.push(DownloadJob { index: i, file_name, url });
        i = i + 1;
    }
    proof {
        if all_distinct(stamps@) {
            let ghost stamp_texts = stamps@.map_values(|s: String| s@);
            lemma_distinct_stamps_distinct_files(jobs@, *resolution, query@, stamp_texts);
        }
    }
    jobs
}

/// The jobs of a batch of `count` images, each named after the time at which
/// it was planned; no two of them write to the same file.
pub fn build_jobs(resolution: &Resolution, query: &str, count: usize) -> (r: Vec<DownloadJob>)
    ensures
        r@.len() == count,
        forall|i: int|
            0 <= i < r@.len() ==> (#[trigger] r@[i]).index == i && r@[i].url@ == image_url_text(
                resolution.width,
                resolution.height,
                query@,
            ) && exists|stamp: Seq<char>|
                r@[i].file_name@ == #[trigger] file_name_text(sanitized(query@), stamp),
        forall|i: int, j: int|
            0 <= i < j < r@.len() ==> #[trigger] r@[i].file_name@ != #[trigger] r@[j].file_name@,
{
    let mut stamps: Vec<String> = Vec::new();
    let mut i: usize = 0;
    while i < count
        invariant
            i <= count,
            stamps@.len() == i,
            all_distinct(stamps@),
        decreases count - i,
    {
        let stamp = fresh_stamp(&stamps, i);
        stamps.push(stamp);
        i = i + 1;
    }
    let jobs = plan_jobs(resolution, query, &stamps);
    assert forall|i: int| 0 <= i < jobs@.len() implies exists|stamp: Seq<char>|
        (#[trigger] jobs@[i]).file_name@ == #[trigger] file_name_text(sanitized(query@), stamp) by {
        assert(job_matches(jobs@[i], i, *resolution, query@, stamps@[i]@));
        assert(jobs@[i].file_name@ == file_name_text(sanitized(query@), stamps@[i]@));
    }
    jobs
}

/// The step after the target folder was prepared: a folder that could not be
/// created fails the batch before any job exists; otherwise the `count` jobs
/// of the batch are planned.
pub fn plan_batch(
    resolution: &Resolution,
    query: &str,
    count: usize,
    directory: Result<(), String>,
) -> (r: Result<Vec<DownloadJob>, BatchError>)
    ensures
        directory matches Err(m) ==> (r matches Err(e) && e matches BatchError::Directory {
            message,
        } && message@ == m@),
        directory is Ok <==> r is Ok,
        r matches Ok(jobs) ==> jobs@.len() == count,
        r matches Ok(jobs) ==> forall|i: int|
            0 <= i < jobs@.len() ==> (#[trigger] jobs@[i]).index == i && jobs@[i].url@
                == image_url_text(resolution.width, resolution.height, query@) && exists|
                stamp: Seq<char>,
            | jobs@[i].file_name@ == #[trigger] file_name_text(sanitized(query@), stamp),
        r matches Ok(jobs) ==> forall|i: int, j: int|
            0 <= i < j < jobs@.len() ==> #[trigger] jobs@[i].file_name@
                != #[trigger] jobs@[j].file_name@,
{
    match directory {
        Err(message) => Err(BatchError::Directory { message }),
        Ok(()) => Ok(build_jobs(resolution, query, count)),
    }
}

/// Jobs planned from pairwise different time stamps write to pairwise
/// different files.
pub proof fn lemma_distinct_stamps_distinct_files(
    jobs: Seq<DownloadJob>,
    resolution: Resolution,
    query: Seq<char>,
    stamps: Seq<Seq<char>>,
)
    requires
        jobs.len() == stamps.len(),
        forall|i: int| 0 <= i < jobs.len() ==> job_matches(#[trigger] jobs[i], i, resolution, query, stamps[i]),
        forall|i: int, j: int| 0 <= i < j < stamps.len() ==> stamps[i] != stamps[j],
    ensures
        forall|i: int, j: int|
            0 <= i < j < jobs.len() ==> #[trigger] jobs[i].file_name@ != #[trigger] jobs[j].file_name@,
{
    assert forall|i: int, j: int| 0 <= i < j < jobs.len() implies #[trigger] jobs[i].file_name@
        != #[trigger] jobs[j].file_name@ by {
        assert(job_matches(jobs[i], i, resolution, query, stamps[i]));
        assert(job_matches(jobs[j], j, resolution, query, stamps[j]));
        crate::naming::lemma_file_names_distinct(sanitized(query), stamps[i], stamps[j]);
    }
}

} // verus!
