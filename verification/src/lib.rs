//! A rotating log-file sink: entries are appended to an active file, and the
//! sink switches to a freshly allocated file whenever the configured time
//! bucket changes or the active file would reach the configured size limit.
//! Old rotated files beyond a retained count can be selected for pruning.
//!
//! All file-system access is left to the caller; this crate holds the verified
//! rotation engine: filename derivation, unique-name candidate generation,
//! the rotation decision, the write coordinator's state machine, and the
//! retention selection.

pub mod digits;
pub mod names;
pub mod rotation;
pub mod retention;
pub mod clock;
pub mod sink;

pub use sink::DailyRotateFile;
pub use sink::DailyRotateFileBuilder;
pub use sink::DailyRotateFileOptions;
pub use sink::WriteAction;

