//! Building blocks of a batch image downloader: the table of supported
//! resolutions, the naming of folders, files and request URLs, the progress
//! counter shared by running jobs, and the aggregation of job outcomes into
//! one batch result.

pub mod batch;
pub mod input;
pub mod jobs;
pub mod naming;
pub mod platform;
pub mod progress;
pub mod resolution;

pub use batch::{summarize, BatchError, BatchReport, JobError, JobErrorKind};
pub use input::{parse_count, trim_answer, InputError};
pub use jobs::{build_jobs, plan_batch, plan_jobs, DownloadJob};
pub use naming::{image_file_name, image_url, sanitize_query};
pub use platform::{confirms, reveal_command, RevealError};
pub use progress::ProgressCounter;
pub use resolution::{resolve_resolution, setup_resolutions, validate_resolution_choice, Resolution};
