//! A verified client library for an asynchronous document-extraction service.
//!
//! The library holds everything the client decides or computes: splitting and
//! validating `ID:JSON` metadata-schema arguments, building request bodies and
//! endpoint URLs, the upload/extract/poll protocol state machine with its
//! timeout bound, rendering the extraction result in the supported output
//! formats, and the error messages. The surrounding binary only moves bytes:
//! it issues the HTTP calls, sleeps between polls, and writes the rendered
//! output to its destination.

pub mod driver;
pub mod errors;
pub mod json;
pub mod output;
pub mod request;
pub mod result;
pub mod schema;
pub mod util;

pub use driver::Driver;
pub use driver::PollReply;
pub use driver::Stage;
pub use driver::UploadSlot;
pub use errors::ExtractError;
pub use output::BatchSummary;
pub use output::OutputFormat;
pub use output::OutputPlan;
pub use request::ExtractionRequest;
pub use result::ExtractionResultData;
pub use result::TextStats;
pub use schema::MetadataSchema;
pub use schema::MetadataStrategy;
pub use util::format_bytes;
pub use util::is_url;
