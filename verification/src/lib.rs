//! Crash-report pipeline: build an immutable snapshot of a failure, encode it
//! as structured key/value text, and name a fresh report file for it.
//!
//! The encoder and its inverse are verified: encoding a report and decoding
//! the text recovers every field (see `report::lemma_serialize_round_trip`).

pub mod encode;
pub mod report;
mod caps;

pub use report::Method;
pub use report::Report;
pub use report::ReportView;
pub use report::fresh_report_file_name;
pub use report::report_file_name;
