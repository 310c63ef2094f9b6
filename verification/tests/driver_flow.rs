use vectorize_iris::driver::status_is_success;
use vectorize_iris::Driver;
use vectorize_iris::ExtractError;
use vectorize_iris::ExtractionResultData;
use vectorize_iris::PollReply;
use vectorize_iris::Stage;
use vectorize_iris::UploadSlot;

fn empty_result(success: bool, error: Option<&str>) -> ExtractionResultData {
    ExtractionResultData {
        success,
        chunks: None,
        text: None,
        metadata: None,
        metadata_schema: None,
        chunks_metadata: None,
        chunks_schema: None,
        error: error.map(|e| e.to_string()),
    }
}

fn driver_at_polling(poll_interval: u64, timeout: u64) -> Driver {
    let mut d = Driver::new(poll_interval, timeout);
    d.check_file(true, "in.pdf").expect("file exists");
    d.on_upload_slot(
        200,
        String::new(),
        Some(UploadSlot { file_id: "f1".to_string(), upload_url: "https://u".to_string() }),
    )
        .expect("slot granted");
    assert_eq!(d.stage(), Stage::Uploading);
    assert_eq!(d.upload_url(), "https://u");
    d.on_upload_done(200, String::new()).expect("put ok");
    assert_eq!(d.stage(), Stage::ExtractionStarted);
    assert_eq!(d.file_id(), "f1");
    d.on_extraction_started(201, String::new(), Some("e9".to_string())).expect("started");
    assert_eq!(d.stage(), Stage::Polling);
    assert_eq!(d.extraction_id(), "e9");
    d
}

#[test]
fn status_code_ranges() {
    assert!(!status_is_success(199));
    assert!(status_is_success(200));
    assert!(status_is_success(299));
    assert!(!status_is_success(300));
    assert!(!status_is_success(404));
}

#[test]
fn missing_file_fails_before_any_request() {
    let mut d = Driver::new(2, 300);
    let e = d.check_file(false, "nonexistent.pdf").expect_err("must fail");
    assert!(matches!(e, ExtractError::FileNotFound { .. }));
    assert_eq!(e.message(), "File not found: nonexistent.pdf");
    assert_eq!(d.stage(), Stage::Failed);
}

#[test]
fn upload_slot_failure_is_terminal() {
    let mut d = Driver::new(2, 300);
    d.check_file(true, "in.pdf").expect("exists");
    let e = d.on_upload_slot(403, "denied".to_string(), None).expect_err("must fail");
    assert_eq!(e.message(), "Failed to start upload: 403 - denied");
    assert_eq!(d.stage(), Stage::Failed);
}

#[test]
fn unreadable_slot_reply_is_terminal() {
    let mut d = Driver::new(2, 300);
    d.check_file(true, "in.pdf").expect("exists");
    let e = d.on_upload_slot(200, "gibberish".to_string(), None).expect_err("must fail");
    assert!(matches!(e, ExtractError::UploadInit { status: 200, .. }));
    assert_eq!(d.stage(), Stage::Failed);
}

#[test]
fn upload_transfer_failure_is_terminal() {
    let mut d = Driver::new(2, 300);
    d.check_file(true, "in.pdf").expect("exists");
    d.on_upload_slot(
        200,
        String::new(),
        Some(UploadSlot { file_id: "f".to_string(), upload_url: "https://u".to_string() }),
    )
        .expect("granted");
    let e = d.on_upload_done(500, "boom".to_string()).expect_err("must fail");
    assert_eq!(e.message(), "Failed to upload file: 500 - boom");
    assert_eq!(d.stage(), Stage::Failed);
}

#[test]
fn extraction_start_failure_is_terminal() {
    let mut d = Driver::new(2, 300);
    d.check_file(true, "in.pdf").expect("exists");
    d.on_upload_slot(
        200,
        String::new(),
        Some(UploadSlot { file_id: "f".to_string(), upload_url: "https://u".to_string() }),
    )
        .expect("granted");
    d.on_upload_done(200, String::new()).expect("ok");
    let e = d.on_extraction_started(404, "nf".to_string(), None).expect_err("must fail");
    assert_eq!(e.message(), "Failed to start extraction: 404 - nf");
    assert_eq!(d.stage(), Stage::Failed);
}

#[test]
fn never_ready_times_out_with_bounded_checks() {
    let poll_interval: u64 = 2;
    let timeout: u64 = 10;
    let mut d = driver_at_polling(poll_interval, timeout);
    let mut elapsed: u64 = 0;
    let mut checks: u64 = 0;
    let err = loop {
        match d.poll_tick(elapsed) {
            Err(e) => break e,
            Ok(()) => {
                checks += 1;
                let outcome = d
                    .on_poll_reply(
                        200,
                        String::new(),
                        Some(PollReply { ready: false, data: None }),
                    )
                    .expect("pending is not an error");
                assert!(outcome.is_none());
                // the caller sleeps one interval before the next check
                elapsed += poll_interval;
            },
        }
    };
    assert!(matches!(err, ExtractError::Timeout { seconds: 10 }));
    assert_eq!(err.message(), "Extraction timed out after 10 seconds");
    assert_eq!(d.stage(), Stage::TimedOut);
    assert!(checks <= timeout / poll_interval + 1);
    assert_eq!(checks, 6);
}

#[test]
fn vendor_failure_carries_its_message() {
    let mut d = driver_at_polling(2, 300);
    d.poll_tick(0).expect("within budget");
    let e = d
        .on_poll_reply(
            200,
            String::new(),
            Some(PollReply { ready: true, data: Some(empty_result(false, Some("bad scan"))) }),
        )
        .expect_err("must fail");
    let msg = e.message();
    assert!(msg.contains("bad scan"));
    assert_eq!(msg, "Extraction failed: bad scan");
    assert_eq!(d.stage(), Stage::Failed);
}

#[test]
fn vendor_failure_without_message_is_unknown() {
    let mut d = driver_at_polling(2, 300);
    d.poll_tick(0).expect("within budget");
    let e = d
        .on_poll_reply(
            200,
            String::new(),
            Some(PollReply { ready: true, data: Some(empty_result(false, None)) }),
        )
        .expect_err("must fail");
    assert_eq!(e.message(), "Extraction failed: Unknown error");
}

#[test]
fn failed_status_check_is_terminal() {
    let mut d = driver_at_polling(2, 300);
    d.poll_tick(0).expect("within budget");
    let e = d.on_poll_reply(502, "gateway".to_string(), None).expect_err("must fail");
    assert_eq!(e.message(), "Failed to check status: 502 - gateway");
    assert_eq!(d.stage(), Stage::Failed);
}

#[test]
fn ready_without_data_is_a_poll_error() {
    let mut d = driver_at_polling(2, 300);
    d.poll_tick(0).expect("within budget");
    let e = d
        .on_poll_reply(200, "{\"ready\":true}".to_string(), Some(PollReply { ready: true, data: None }))
        .expect_err("must fail");
    assert!(matches!(e, ExtractError::Poll { status: 200, .. }));
}

#[test]
fn ready_success_yields_the_payload() {
    let mut d = driver_at_polling(2, 300);
    d.poll_tick(0).expect("within budget");
    let mut data = empty_result(true, None);
    data.text = Some("all the text".to_string());
    let out = d
        .on_poll_reply(200, String::new(), Some(PollReply { ready: true, data: Some(data) }))
        .expect("success")
        .expect("payload");
    assert_eq!(out.text.as_deref(), Some("all the text"));
    assert!(out.success);
    assert_eq!(d.stage(), Stage::Ready);
}

#[test]
fn poll_budget_with_uneven_interval() {
    let poll_interval: u64 = 3;
    let timeout: u64 = 10;
    let mut d = driver_at_polling(poll_interval, timeout);
    let mut elapsed: u64 = 0;
    let mut checks: u64 = 0;
    loop {
        match d.poll_tick(elapsed) {
            Err(e) => {
                assert!(matches!(e, ExtractError::Timeout { seconds: 10 }));
                break;
            },
            Ok(()) => {
                checks += 1;
                d.on_poll_reply(200, String::new(), Some(PollReply { ready: false, data: None }))
                    .expect("pending");
                elapsed += poll_interval;
            },
        }
    }
    assert!(checks <= timeout / poll_interval + 1);
    assert_eq!(checks, 4);
}

#[test]
fn clock_far_past_budget_times_out_at_once() {
    let mut d = driver_at_polling(2, 10);
    let e = d.poll_tick(1000).expect_err("over budget");
    assert!(matches!(e, ExtractError::Timeout { seconds: 10 }));
    assert_eq!(d.stage(), Stage::TimedOut);
}
