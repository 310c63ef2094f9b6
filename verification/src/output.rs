//! Choosing where a rendering goes and keeping the score of a batch run.
//!
//! The JSON, YAML and plain-text renderings go to the requested file when one
//! was named, and to standard output otherwise. The human-readable form never
//! goes to a file: when a file was named anyway the body still goes to
//! standard output and a warning is raised instead.

use vstd::prelude::*;
use vstd::string::StrSliceExecFns;
use vstd::string::StringExecFns;

verus! {

/// The four renderings of a finished extraction.
#[derive(Clone, Copy, PartialEq, Eq, Structural, Debug)]
pub enum OutputFormat {
    Pretty,
    Json,
    Yaml,
    Text,
}

/// The file extension used for one rendering in a batch run.
pub open spec fn spec_extension(format: OutputFormat) -> Seq<char> {
    match format {
        OutputFormat::Json => "json"@,
        OutputFormat::Yaml => "yaml"@,
        OutputFormat::Text => "txt"@,
        OutputFormat::Pretty => "txt"@,
    }
}

/// The file extension used for one rendering in a batch run.
pub fn extension_for(format: &OutputFormat) -> (r: &'static str)
    ensures
        r@ == spec_extension(*format),
{
    match format {
        OutputFormat::Json => "json",
        OutputFormat::Yaml => "yaml",
        OutputFormat::Text => "txt",
        OutputFormat::Pretty => "txt",
    }
}

/// The output file of one batch entry: the input's stem, a dot, and the
/// rendering's extension.
pub fn batch_file_name(stem: &str, format: &OutputFormat) -> (r: String)
    ensures
        r@ == stem@ + "."@ + spec_extension(*format),
{
    let mut r = String::from_str(stem);
    r.append(".");
    r.append(extension_for(format));
    proof {
        assert(r@ =~= stem@ + "."@ + spec_extension(*format));
    }
    r
}

/// The rendering goes to the named file exactly when a file was named and
/// the format is not the human-readable one.
pub open spec fn spec_writes_to_file(format: OutputFormat, has_output_file: bool) -> bool {
    has_output_file && !(format is Pretty)
}

/// A warning is owed exactly when the human-readable form was asked for
/// together with an output file.
pub open spec fn spec_warns_pretty_file(format: OutputFormat, has_output_file: bool) -> bool {
    has_output_file && format is Pretty
}

/// Where one rendering goes: to the named file or to standard output, and
/// whether the caller owes the user a warning about the ignored file.
#[derive(Debug)]
pub struct OutputPlan {
    pub to_file: bool,
    pub warn_pretty_file: bool,
}

/// Decides where the rendering goes.
pub fn plan_output(format: &OutputFormat, has_output_file: bool) -> (r: OutputPlan)
    ensures
        r.to_file == spec_writes_to_file(*format, has_output_file),
        r.warn_pretty_file == spec_warns_pretty_file(*format, has_output_file),
{
    let pretty = match format {
        OutputFormat::Pretty => true,
        _ => false,
    };
    OutputPlan { to_file: has_output_file && !pretty, warn_pretty_file: has_output_file && pretty }
}

/// The human-readable rendering never goes to the file: whatever the file
/// option says, the plan keeps the body on standard output, and when a file
/// was named the warning is raised instead.
pub proof fn lemma_pretty_output_stays_on_stdout(has_output_file: bool)
    ensures
        !spec_writes_to_file(OutputFormat::Pretty, has_output_file),
        has_output_file ==> spec_warns_pretty_file(OutputFormat::Pretty, has_output_file),
{
}

/// The running score of a batch run: every file ends up counted on exactly
/// one side.
#[derive(Debug)]
pub struct BatchSummary {
    pub successful: u64,
    pub failed: u64,
}

impl BatchSummary {
    /// An empty score.
    pub fn new() -> (r: BatchSummary)
        ensures
            r.successful == 0,
            r.failed == 0,
    {
        BatchSummary { successful: 0, failed: 0 }
    }

    /// Counts one file that was extracted and written out.
    pub fn record_success(&mut self)
        requires
            old(self).successful < u64::MAX,
        ensures
            final(self).successful == old(self).successful + 1,
            final(self).failed == old(self).failed,
    {
        self.successful = self.successful + 1;
    }

    /// Counts one file whose extraction or output failed.
    pub fn record_failure(&mut self)
        requires
            old(self).failed < u64::MAX,
        ensures
            final(self).failed == old(self).failed + 1,
            final(self).successful == old(self).successful,
    {
        self.failed = self.failed + 1;
    }
}

} // verus!
