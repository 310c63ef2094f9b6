use vectorize_iris::request::base_url;
use vectorize_iris::request::bearer_value;
use vectorize_iris::request::extraction_url;
use vectorize_iris::request::files_url;
use vectorize_iris::request::header_log_value;
use vectorize_iris::request::status_url;
use vectorize_iris::request::upload_request_body;
use vectorize_iris::result::text_stats;
use vectorize_iris::ExtractionRequest;
use vectorize_iris::ExtractionResultData;
use vectorize_iris::MetadataSchema;
use vectorize_iris::MetadataStrategy;

fn bare_result() -> ExtractionResultData {
    ExtractionResultData {
        success: true,
        chunks: None,
        text: None,
        metadata: None,
        metadata_schema: None,
        chunks_metadata: None,
        chunks_schema: None,
        error: None,
    }
}

#[test]
fn endpoint_urls_exact() {
    assert_eq!(base_url("org1"), "https://api.vectorize.io/v1/org/org1");
    assert_eq!(files_url("org1"), "https://api.vectorize.io/v1/org/org1/files");
    assert_eq!(extraction_url("org1"), "https://api.vectorize.io/v1/org/org1/extraction");
    assert_eq!(
        status_url("org1", "e9"),
        "https://api.vectorize.io/v1/org/org1/extraction/e9"
    );
}

#[test]
fn bearer_header_and_redaction() {
    assert_eq!(bearer_value("tok123"), "Bearer tok123");
    assert_eq!(header_log_value("authorization", "Bearer tok123"), "Bearer ***REDACTED***");
    assert_eq!(header_log_value("content-type", "application/json"), "application/json");
}

#[test]
fn upload_body_exact() {
    assert_eq!(
        upload_request_body("report.pdf", "application/octet-stream"),
        "{\"name\":\"report.pdf\",\"contentType\":\"application/octet-stream\"}"
    );
}

#[test]
fn extraction_body_exact() {
    let req = ExtractionRequest {
        file_name: "report.pdf".to_string(),
        content_type: "application/octet-stream".to_string(),
        extraction_type: Some("iris".to_string()),
        chunk_size: Some(512),
        metadata: Some(MetadataStrategy {
            schemas: Some(vec![MetadataSchema {
                id: "d".to_string(),
                schema: "{\"document\":{}}".to_string(),
            }]),
            infer_schema: Some(false),
        }),
        parsing_instructions: Some("Focus on code".to_string()),
    };
    let body = req.extraction_body("f1");
    assert_eq!(
        body,
        "{\"fileId\":\"f1\",\"type\":\"iris\",\"chunkSize\":512,\"metadata\":{\"schemas\":[{\"id\":\"d\",\"schema\":\"{\\\"document\\\":{}}\"}],\"inferSchema\":false},\"parsingInstructions\":\"Focus on code\"}"
    );
    // the body the library builds is well-formed JSON
    let v: serde_json::Value = serde_json::from_str(&body).expect("valid JSON");
    assert_eq!(v.get("fileId").unwrap().as_str().unwrap(), "f1");
    assert_eq!(v.get("chunkSize").unwrap().as_u64().unwrap(), 512);
}

#[test]
fn extraction_body_omits_absent_options() {
    let req = ExtractionRequest {
        file_name: "a".to_string(),
        content_type: "b".to_string(),
        extraction_type: None,
        chunk_size: None,
        metadata: None,
        parsing_instructions: None,
    };
    assert_eq!(req.extraction_body("f2"), "{\"fileId\":\"f2\"}");
}

#[test]
fn result_json_minimal() {
    let d = bare_result();
    assert_eq!(d.to_json_string(), "{\"success\":true}");
    let mut f = bare_result();
    f.success = false;
    f.text = Some("hi".to_string());
    assert_eq!(f.to_json_string(), "{\"success\":false,\"text\":\"hi\"}");
}

#[test]
fn result_json_escapes_exactly() {
    let mut d = bare_result();
    d.text = Some("q\"\\\n\t\u{8}\u{c}\r\u{1}x".to_string());
    assert_eq!(
        d.to_json_string(),
        "{\"success\":true,\"text\":\"q\\\"\\\\\\n\\t\\b\\f\\r\\u0001x\"}"
    );
}

#[test]
fn result_json_round_trips() {
    let mut d = bare_result();
    d.chunks = Some(vec!["a\"b".to_string(), "line\n2".to_string(), String::new()]);
    d.text = Some("hello \u{1} world".to_string());
    d.chunks_metadata = Some(vec![Some("m1".to_string()), None, Some("m3".to_string())]);
    d.error = Some("none really".to_string());
    let s = d.to_json_string();
    let v: serde_json::Value = serde_json::from_str(&s).expect("valid JSON");
    assert_eq!(v.get("success").unwrap().as_bool().unwrap(), true);
    assert_eq!(v.get("text").unwrap().as_str().unwrap(), "hello \u{1} world");
    let chunks: Vec<String> = v
        .get("chunks")
        .unwrap()
        .as_array()
        .unwrap()
        .iter()
        .map(|e| e.as_str().unwrap().to_string())
        .collect();
    assert_eq!(chunks, vec!["a\"b".to_string(), "line\n2".to_string(), String::new()]);
    let cm = v.get("chunksMetadata").unwrap().as_array().unwrap();
    assert_eq!(cm[0].as_str().unwrap(), "m1");
    assert!(cm[1].is_null());
    assert_eq!(cm[2].as_str().unwrap(), "m3");
    assert_eq!(v.get("error").unwrap().as_str().unwrap(), "none really");
    assert!(v.get("metadata").is_none());
    assert!(v.get("metadataSchema").is_none());
    assert!(v.get("chunksSchema").is_none());
}

#[test]
fn plain_text_output_is_the_text_alone() {
    let mut d = bare_result();
    assert!(d.text_output().is_none());
    d.text = Some("only this".to_string());
    assert_eq!(d.text_output().as_deref(), Some("only this"));
}

#[test]
fn pretty_sections_follow_the_data() {
    let mut d = bare_result();
    assert!(!d.shows_chunks());
    d.chunks = Some(Vec::new());
    assert!(!d.shows_chunks());
    d.chunks = Some(vec!["one".to_string()]);
    assert!(d.shows_chunks());
    assert!(!d.shows_metadata(true));
    d.metadata = Some("{}".to_string());
    assert!(d.shows_metadata(true));
    assert!(!d.shows_metadata(false));
}

#[test]
fn chunk_annotations_pair_by_index() {
    let mut d = bare_result();
    d.chunks = Some(vec!["c0".to_string(), "c1".to_string(), "c2".to_string()]);
    d.chunks_metadata = Some(vec![Some("m0".to_string()), None]);
    assert_eq!(d.chunk_annotation(0).map(|s| s.as_str()), Some("m0"));
    assert!(d.chunk_annotation(1).is_none());
    assert!(d.chunk_annotation(2).is_none());
}

#[test]
fn text_statistics() {
    let s = text_stats("hello world\nsecond line");
    assert_eq!(s.chars, 23);
    assert_eq!(s.words, 4);
    assert_eq!(s.lines, 2);

    let e = text_stats("");
    assert_eq!(e.chars, 0);
    assert_eq!(e.words, 0);
    assert_eq!(e.lines, 0);

    let t = text_stats("abc\n");
    assert_eq!(t.chars, 4);
    assert_eq!(t.words, 1);
    assert_eq!(t.lines, 1);

    let w = text_stats("  a \t b  ");
    assert_eq!(w.words, 2);
    assert_eq!(w.lines, 1);
}
