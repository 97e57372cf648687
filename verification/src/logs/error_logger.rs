//! Lines of the conversion error log and when the log is rotated.
use vstd::prelude::*;
use crate::config::global::GlobalConfig;
use crate::paths::{path_with_extension, with_extension};
use crate::text::{append, owned};

verus! {

/// Where conversion errors are logged, and the size past which the log is
/// rotated to `.log.old` before the next line.
#[derive(Debug, Clone)]
pub struct ErrorLogger {
    pub path: String,
    pub max_size_mb: u64,
}

/// One log line: `{timestamp} [{context}] {file} — {message}` and a newline.
pub open spec fn log_line(timestamp: Seq<char>, context: Seq<char>, file_name: Seq<char>, message: Seq<char>) -> Seq<
    char,
> {
    timestamp + " ["@ + context + "] "@ + file_name + " — "@ + message + "\n"@
}

impl ErrorLogger {
    /// The logger of a configuration: its error file and size limit.
    pub fn new(global_config: &GlobalConfig) -> (r: Self)
        ensures
            r.path == global_config.log.errors_file,
            r.max_size_mb == global_config.log.max_error_log_size_mb,
    {
        ErrorLogger {
            path: global_config.log.errors_file.clone(),
            max_size_mb: global_config.log.max_error_log_size_mb,
        }
    }

    /// The line logged for an error.
    pub fn line(&self, timestamp: &str, message: &str, file_name: &str, context: &str) -> (r: String)
        ensures
            r@ == log_line(timestamp@, context@, file_name@, message@),
    {
        let mut r = owned(timestamp);
        append(&mut r, " [");
        append(&mut r, context);
        append(&mut r, "] ");
        append(&mut r, file_name);
        append(&mut r, " — ");
        append(&mut r, message);
        append(&mut r, "\n");
        r
    }

    /// Where a full log is moved before the next line: the log path with
    /// its extension replaced by `log.old`.
    pub fn rotated_path(&self) -> (r: String)
        ensures
            r@ == with_extension(self.path@, "log.old"@),
    {
        proof {
            reveal_strlit("log.old");
        }
        path_with_extension(self.path.as_str(), "log.old")
    }

    /// Whether a log of `size` bytes is rotated before the next line: when
    /// it is larger than the limit in mebibytes.
    pub fn needs_rotation(&self, size: u64) -> (r: bool)
        ensures
            r == (size > self.max_size_mb * 1024 * 1024),
    {
        (size as u128) > (self.max_size_mb as u128) * 1048576
    }
}

/// The message logged for a failed conversion:
/// `{op_label} conversion failed: {error}`.
pub fn conversion_failure_message(op_label: &str, error: &str) -> (r: String)
    ensures
        r@ == op_label@ + " conversion failed: "@ + error@,
{
    let mut r = owned(op_label);
    append(&mut r, " conversion failed: ");
    append(&mut r, error);
    r
}

} // verus!
