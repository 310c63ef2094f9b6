use vectorize_iris::errors::ExtractError;
use vectorize_iris::output::plan_output;
use vectorize_iris::output::batch_file_name;
use vectorize_iris::output::extension_for;
use vectorize_iris::output::BatchSummary;
use vectorize_iris::output::OutputFormat;
use vectorize_iris::schema::parse_metadata_schema;
use vectorize_iris::schema::plan_metadata;
use vectorize_iris::schema::wants_metadata;
use vectorize_iris::is_url;
use vectorize_iris::format_bytes;

#[test]
fn url_detection() {
    assert!(is_url("http://example.com/a.pdf"));
    assert!(is_url("https://example.com/a.pdf"));
    assert!(!is_url("ftp://example.com/a.pdf"));
    assert!(!is_url("./local/file.pdf"));
    assert!(!is_url("http:/missing-slash"));
    assert!(!is_url(""));
}

#[test]
fn format_bytes_exact() {
    assert_eq!(format_bytes(0), "0.0 B");
    assert_eq!(format_bytes(512), "512.0 B");
    assert_eq!(format_bytes(1023), "1023.0 B");
    assert_eq!(format_bytes(1024), "1.0 KB");
    assert_eq!(format_bytes(1536), "1.5 KB");
    assert_eq!(format_bytes(1024 * 1024), "1.0 MB");
    assert_eq!(format_bytes(5 * 1024 * 1024 + 512 * 1024), "5.5 MB");
    assert_eq!(format_bytes(3 * 1024 * 1024 * 1024), "3.0 GB");
    assert_eq!(format_bytes(u64::MAX), format_bytes(u64::MAX));
}

#[test]
fn schema_bare_object_is_wrapped() {
    let ms = parse_metadata_schema("doc:{\"a\":1}").expect("parses");
    assert_eq!(ms.id, "doc");
    assert_eq!(ms.schema, "{\"document\":{\"a\":1}}");
}

#[test]
fn schema_wrapped_object_passes_through() {
    let ms = parse_metadata_schema("doc:{\"document\":{\"a\":1}}").expect("parses");
    assert_eq!(ms.id, "doc");
    assert_eq!(ms.schema, "{\"document\":{\"a\":1}}");
}

#[test]
fn schema_json_is_canonicalized() {
    // Whitespace disappears: the schema is stored in the parsed value's
    // canonical rendering, not as the raw argument text.
    let ms = parse_metadata_schema("doc: {\"a\" : 1, \"b\": [true, null]}").expect("parses");
    assert_eq!(ms.schema, "{\"document\":{\"a\":1,\"b\":[true,null]}}");
}

#[test]
fn schema_non_object_json_is_wrapped() {
    let ms = parse_metadata_schema("num:42").expect("parses");
    assert_eq!(ms.id, "num");
    assert_eq!(ms.schema, "{\"document\":42}");
}

#[test]
fn schema_splits_at_first_colon_only() {
    let ms = parse_metadata_schema("a:\"b:c\"").expect("parses");
    assert_eq!(ms.id, "a");
    assert_eq!(ms.schema, "{\"document\":\"b:c\"}");
}

#[test]
fn schema_without_colon_is_rejected() {
    let e = parse_metadata_schema("no-colon-here").expect_err("must fail");
    assert!(matches!(e, ExtractError::InvalidMetadataSchema { .. }));
    assert_eq!(
        e.message(),
        "Invalid metadata schema format: no-colon-here. Expected ID:JSON"
    );
}

#[test]
fn schema_with_bad_json_is_rejected() {
    let e = parse_metadata_schema("doc:not json").expect_err("must fail");
    assert!(matches!(e, ExtractError::InvalidMetadataSchemaJson { .. }));
    assert_eq!(
        e.message(),
        "Invalid JSON in metadata schema 'doc': not json"
    );
}

#[test]
fn explicit_schemas_force_inference_off() {
    let args = vec!["doc:{\"a\":1}".to_string()];
    let st = plan_metadata(&args, true).expect("parses").expect("strategy");
    assert_eq!(st.infer_schema, Some(false));
    assert_eq!(st.schemas.as_ref().map(|s| s.len()), Some(1));
    let st2 = plan_metadata(&args, false).expect("parses").expect("strategy");
    assert_eq!(st2.infer_schema, Some(false));
}

#[test]
fn no_schemas_follow_the_inference_flag() {
    let none: Vec<String> = Vec::new();
    let st = plan_metadata(&none, true).expect("ok").expect("strategy");
    assert_eq!(st.infer_schema, Some(true));
    assert!(st.schemas.is_none());
    assert!(plan_metadata(&none, false).expect("ok").is_none());
}

#[test]
fn bad_schema_in_list_is_reported() {
    let args = vec!["good:{}".to_string(), "bad".to_string()];
    let e = plan_metadata(&args, true).expect_err("must fail");
    assert!(matches!(e, ExtractError::InvalidMetadataSchema { .. }));
}

#[test]
fn metadata_is_requested_with_schemas_or_inference() {
    assert!(wants_metadata(1, false));
    assert!(wants_metadata(0, true));
    assert!(!wants_metadata(0, false));
}

#[test]
fn pretty_output_never_goes_to_the_file() {
    let plan = plan_output(&OutputFormat::Pretty, true);
    assert!(!plan.to_file);
    assert!(plan.warn_pretty_file);
    let plan2 = plan_output(&OutputFormat::Pretty, false);
    assert!(!plan2.to_file);
    assert!(!plan2.warn_pretty_file);
}

#[test]
fn other_formats_go_to_the_file_when_named() {
    let plan = plan_output(&OutputFormat::Json, true);
    assert!(plan.to_file);
    assert!(!plan.warn_pretty_file);
    let plan2 = plan_output(&OutputFormat::Text, false);
    assert!(!plan2.to_file);
    assert!(!plan2.warn_pretty_file);
}

#[test]
fn batch_extensions() {
    assert_eq!(extension_for(&OutputFormat::Json), "json");
    assert_eq!(extension_for(&OutputFormat::Yaml), "yaml");
    assert_eq!(extension_for(&OutputFormat::Text), "txt");
    assert_eq!(extension_for(&OutputFormat::Pretty), "txt");
    assert_eq!(batch_file_name("report", &OutputFormat::Json), "report.json");
    assert_eq!(batch_file_name("report", &OutputFormat::Pretty), "report.txt");
}

#[test]
fn batch_summary_counts() {
    let mut s = BatchSummary::new();
    s.record_success();
    s.record_success();
    s.record_failure();
    assert_eq!(s.successful, 2);
    assert_eq!(s.failed, 1);
}

#[test]
fn error_messages_exact() {
    assert_eq!(
        ExtractError::FileNotFound { path: "x.pdf".to_string() }.message(),
        "File not found: x.pdf"
    );
    assert_eq!(
        ExtractError::UploadInit { status: 400, body: "bad".to_string() }.message(),
        "Failed to start upload: 400 - bad"
    );
    assert_eq!(
        ExtractError::UploadTransfer { status: 500, body: "oops".to_string() }.message(),
        "Failed to upload file: 500 - oops"
    );
    assert_eq!(
        ExtractError::ExtractionStart { status: 404, body: "nf".to_string() }.message(),
        "Failed to start extraction: 404 - nf"
    );
    assert_eq!(
        ExtractError::Poll { status: 503, body: "busy".to_string() }.message(),
        "Failed to check status: 503 - busy"
    );
    assert_eq!(
        ExtractError::Timeout { seconds: 300 }.message(),
        "Extraction timed out after 300 seconds"
    );
    assert_eq!(
        ExtractError::ExtractionFailed { message: "bad scan".to_string() }.message(),
        "Extraction failed: bad scan"
    );
    assert_eq!(
        ExtractError::OutputWrite { path: "out.txt".to_string() }.message(),
        "Failed to write to file: out.txt"
    );
}
