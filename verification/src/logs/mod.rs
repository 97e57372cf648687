//! The conversion error log.
pub mod error_logger;
