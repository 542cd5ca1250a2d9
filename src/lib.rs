//! Orchestration of an ffmpeg-compatible transcoder: the invocation it is
//! started with, the progress protocol it reports on, and the decisions that
//! bring one run to a single result.

pub mod invocation;
pub mod progress;
pub mod session;
pub mod target;

pub use invocation::{progress_url, FfmpegBuilder, Invocation};
pub use progress::{Progress, ProgressParser};
pub use session::{Direction, Phase, Session, WaitAction, WaitError, WaitEvent};
pub use target::{Input, Output};
