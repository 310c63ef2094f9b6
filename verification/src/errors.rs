//! The typed errors of the extraction client and their user-facing messages.
//!
//! Every message names the failing stage and carries the HTTP status and
//! response body where there is one. The rendering of each variant is pinned
//! exactly by [`spec_message`], so callers can rely on what the user sees.

use vstd::prelude::*;
use vstd::string::StringExecFns;
use crate::util::dec_str;
use crate::util::u64_to_dec;

verus! {

/// Everything that can go wrong while extracting one file.
///
/// Each stage of the protocol has its own variant; HTTP failures carry the
/// response status and body. A malformed success body is reported under the
/// variant of the stage whose reply it was.
#[derive(Debug)]
pub enum ExtractError {
    /// The local input file does not exist. No request has been made.
    FileNotFound { path: String },
    /// The start-upload call failed, or its reply could not be read.
    UploadInit { status: u16, body: String },
    /// The byte transfer to the upload URL failed.
    UploadTransfer { status: u16, body: String },
    /// The start-extraction call failed, or its reply could not be read.
    ExtractionStart { status: u16, body: String },
    /// A status check failed, or its reply could not be read.
    Poll { status: u16, body: String },
    /// The job did not become ready within the configured wall-clock budget.
    Timeout { seconds: u64 },
    /// The vendor finished the job and reported failure.
    ExtractionFailed { message: String },
    /// A metadata-schema argument does not have the `ID:JSON` shape.
    InvalidMetadataSchema { input: String },
    /// The value part of a metadata-schema argument is not valid JSON.
    InvalidMetadataSchemaJson { id: String, value: String },
    /// The rendered output could not be written to the requested file.
    OutputWrite { path: String },
}

/// The user-facing message of each error, exactly.
pub open spec fn spec_message(e: ExtractError) -> Seq<char> {
    match e {
        ExtractError::FileNotFound { path } => "File not found: "@ + path@,
        ExtractError::UploadInit { status, body } => "Failed to start upload: "@ + dec_str(
            status as nat,
        ) + " - "@ + body@,
        ExtractError::UploadTransfer { status, body } => "Failed to upload file: "@ + dec_str(
            status as nat,
        ) + " - "@ + body@,
        ExtractError::ExtractionStart { status, body } => "Failed to start extraction: "@
            + dec_str(status as nat) + " - "@ + body@,
        ExtractError::Poll { status, body } => "Failed to check status: "@ + dec_str(status as nat)
            + " - "@ + body@,
        ExtractError::Timeout { seconds } => "Extraction timed out after "@ + dec_str(
            seconds as nat,
        ) + " seconds"@,
        ExtractError::ExtractionFailed { message } => "Extraction failed: "@ + message@,
        ExtractError::InvalidMetadataSchema { input } => "Invalid metadata schema format: "@
            + input@ + ". Expected ID:JSON"@,
        ExtractError::InvalidMetadataSchemaJson { id, value } => "Invalid JSON in metadata schema '"@
            + id@ + "': "@ + value@,
        ExtractError::OutputWrite { path } => "Failed to write to file: "@ + path@,
    }
}

/// `needle` occurs somewhere inside `hay`.
pub open spec fn contains_seq(hay: Seq<char>, needle: Seq<char>) -> bool {
    exists|i: int|
        0 <= i && i + needle.len() <= hay.len() && #[trigger] hay.subrange(i, i + needle.len())
            == needle
}

fn stage_http_message(prefix: &str, status: u16, body: &str) -> (r: String)
    ensures
        r@ == prefix@ + dec_str(status as nat) + " - "@ + body@,
{
    let mut r = String::from_str(prefix);
    let status_str = u64_to_dec(status as u64);
    r.append(status_str.as_str());
    r.append(" - ");
    r.append(body);
    proof {
        assert(r@ =~= prefix@ + dec_str(status as nat) + " - "@ + body@);
    }
    r
}

impl ExtractError {
    /// Renders the message a user sees for this error.
    pub fn message(&self) -> (r: String)
        ensures
            r@ == spec_message(*self),
    {
        match self {
            ExtractError::FileNotFound { path } => {
                let mut r = String::from_str("File not found: ");
                r.append(path.as_str());
                r
            },
            ExtractError::UploadInit { status, body } => {
                stage_http_message("Failed to start upload: ", *status, body.as_str())
            },
            ExtractError::UploadTransfer { status, body } => {
                stage_http_message("Failed to upload file: ", *status, body.as_str())
            },
            ExtractError::ExtractionStart { status, body } => {
                stage_http_message("Failed to start extraction: ", *status, body.as_str())
            },
            ExtractError::Poll { status, body } => {
                stage_http_message("Failed to check status: ", *status, body.as_str())
            },
            ExtractError::Timeout { seconds } => {
                let mut r = String::from_str("Extraction timed out after ");
                let secs = u64_to_dec(*seconds);
                r.append(secs.as_str());
                r.append(" seconds");
                proof {
                    assert(r@ =~= spec_message(*self));
                }
                r
            },
            ExtractError::ExtractionFailed { message } => {
                let mut r = String::from_str("Extraction failed: ");
                r.append(message.as_str());
                proof {
                    assert(r@ =~= spec_message(*self));
                }
                r
            },
            ExtractError::InvalidMetadataSchema { input } => {
                let mut r = String::from_str("Invalid metadata schema format: ");
                r.append(input.as_str());
                r.append(". Expected ID:JSON");
                proof {
                    assert(r@ =~= spec_message(*self));
                }
                r
            },
            ExtractError::InvalidMetadataSchemaJson { id, value } => {
                let mut r = String::from_str("Invalid JSON in metadata schema '");
                r.append(id.as_str());
                r.append("': ");
                r.append(value.as_str());
                proof {
                    assert(r@ =~= spec_message(*self));
                }
                r
            },
            ExtractError::OutputWrite { path } => {
                let mut r = String::from_str("Failed to write to file: ");
                r.append(path.as_str());
                r
            },
        }
    }
}

/// A failed extraction surfaces the vendor's own words: the message of
/// [`ExtractError::ExtractionFailed`] contains the reported error verbatim.
pub proof fn lemma_failed_message_contains_vendor_error(message: String)
    ensures
        contains_seq(
            spec_message(ExtractError::ExtractionFailed { message }),
            message@,
        ),
{
    reveal_strlit("Extraction failed: ");
    let whole = spec_message(ExtractError::ExtractionFailed { message });
    let i = "Extraction failed: "@.len() as int;
    assert(whole.subrange(i, i + message@.len()) =~= message@);
}

} // verus!
