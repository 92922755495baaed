use daphne::codec::CodecError;
use daphne::messages::TransitionFailure;
use daphne::vdaf::VdafError;
use daphne::{DapAbort, DapError};

fn kinds() -> Vec<(DapAbort, &'static str)> {
    vec![
        (DapAbort::BatchInvalid, "batchInvalid"),
        (DapAbort::BatchMismatch, "batchMismatch"),
        (DapAbort::BatchOverlap, "batchOverlap"),
        (DapAbort::InvalidBatchSize, "invalidBatchSize"),
        (DapAbort::InvalidProtocolVersion, "invalidProtocolVersion"),
        (DapAbort::InvalidTask, "invalidTask"),
        (DapAbort::MissingTaskId, "missingTaskID"),
        (DapAbort::QueryMismatch, "queryMismatch"),
        (DapAbort::ReplayedReport, "replayedReport"),
        (DapAbort::ReportTooLate, "reportTooLate"),
        (DapAbort::StaleReport, "staleReport"),
        (DapAbort::UnauthorizedRequest, "unauthorizedRequest"),
        (DapAbort::UnrecognizedAggregationJob, "unrecognizedAggregationJob"),
        (DapAbort::UnrecognizedHpkeConfig, "unrecognizedHpkeConfig"),
        (DapAbort::UnrecognizedMessage, "unrecognizedMessage"),
        (DapAbort::UnrecognizedTask, "unrecognizedTask"),
    ]
}

#[test]
fn problem_details_of_aborts_without_detail() {
    for (abort, kind) in kinds() {
        let pd = abort.to_problem_details();
        assert_eq!(pd.typ, format!("urn:ietf:params:ppm:dap:error:{}", kind));
        assert_eq!(pd.taskid, None);
        assert_eq!(pd.instance, None);
        assert_eq!(pd.detail, None);
        assert_eq!(abort.to_string(), kind);
    }
}

#[test]
fn problem_details_of_a_bad_request_carry_its_description() {
    let abort = DapAbort::BadRequest("missing header".to_string());
    let pd = abort.to_problem_details();
    assert_eq!(pd.typ, "urn:ietf:params:ppm:dap:error:badRequest");
    assert_eq!(pd.taskid, None);
    assert_eq!(pd.instance, None);
    assert_eq!(pd.detail, Some("missing header".to_string()));
    assert_eq!(abort.to_string(), "badRequest");
}

#[test]
fn problem_details_of_an_internal_error_carry_its_cause() {
    let abort = DapAbort::Internal("fatal error: disk on fire".to_string());
    let pd = abort.to_problem_details();
    assert_eq!(pd.typ, "urn:ietf:params:ppm:dap:error:internalError");
    assert_eq!(pd.detail, Some("fatal error: disk on fire".to_string()));
    assert_eq!(abort.to_string(), "fatal error: disk on fire");
}

#[test]
fn collected_batch_shows_as_stale_report() {
    assert!(matches!(
        DapAbort::from(TransitionFailure::BatchCollected),
        DapAbort::StaleReport
    ));
}

#[test]
fn replayed_report_shows_as_replayed_report() {
    assert!(matches!(
        DapAbort::from(TransitionFailure::ReportReplayed),
        DapAbort::ReplayedReport
    ));
}

#[test]
fn any_other_transition_failure_shows_as_internal_error() {
    for failure in [
        TransitionFailure::ReportDropped,
        TransitionFailure::HpkeUnknownConfigId,
        TransitionFailure::HpkeDecryptError,
        TransitionFailure::VdafPrepError,
        TransitionFailure::BatchSaturated,
        TransitionFailure::TaskExpired,
        TransitionFailure::UnrecognizedMessage,
        TransitionFailure::ReportTooEarly,
    ] {
        match DapAbort::from(failure) {
            DapAbort::Internal(cause) => {
                assert_eq!(cause, "fatal error: unhandled transition failure")
            }
            other => panic!("expected an internal error, got {:?}", other),
        }
        let abort = DapAbort::from(DapError::Transition(failure));
        assert_eq!(
            abort.to_problem_details().typ,
            "urn:ietf:params:ppm:dap:error:internalError"
        );
    }
}

#[test]
fn a_replay_found_in_a_job_aborts_as_replayed_report() {
    let abort = DapAbort::from(DapError::Transition(TransitionFailure::ReportReplayed));
    assert!(matches!(abort, DapAbort::ReplayedReport));
    assert_eq!(
        abort.to_problem_details().typ,
        "urn:ietf:params:ppm:dap:error:replayedReport"
    );
    let abort = DapAbort::from(DapError::Transition(TransitionFailure::BatchCollected));
    assert!(matches!(abort, DapAbort::StaleReport));
}

#[test]
fn fatal_error_shows_as_internal_error() {
    match DapAbort::from(DapError::fatal("something broke")) {
        DapAbort::Internal(cause) => assert_eq!(cause, "fatal error: something broke"),
        other => panic!("expected an internal error, got {:?}", other),
    }
}

#[test]
fn abort_inside_an_error_stays_what_it_is() {
    assert!(matches!(
        DapAbort::from(DapError::Abort(DapAbort::BatchOverlap)),
        DapAbort::BatchOverlap
    ));
    match DapAbort::from(DapError::Abort(DapAbort::BadRequest("x".to_string()))) {
        DapAbort::BadRequest(s) => assert_eq!(s, "x"),
        other => panic!("expected a bad request, got {:?}", other),
    }
}

#[test]
fn codec_error_shows_as_unrecognized_message() {
    for e in [
        CodecError::Io,
        CodecError::BytesLeftOver(3),
        CodecError::LengthPrefixTooBig(70000),
        CodecError::UnexpectedValue,
    ] {
        assert!(matches!(DapAbort::from(e), DapAbort::UnrecognizedMessage));
    }
}

#[test]
fn codec_error_inside_the_core_is_fatal() {
    let cases = [
        (CodecError::Io, "codec: I/O error"),
        (
            CodecError::BytesLeftOver(3),
            "codec: 3 bytes left in buffer after decoding value",
        ),
        (
            CodecError::LengthPrefixTooBig(70000),
            "codec: length prefix of encoded vector overflows buffer: 70000",
        ),
        (CodecError::UnexpectedValue, "codec: unexpected value"),
    ];
    for (e, want) in cases {
        match DapError::from(e) {
            DapError::Fatal(m) => assert_eq!(m, want),
            other => panic!("expected a fatal error, got {:?}", other),
        }
    }
}

#[test]
fn vdaf_error_blocks_the_report() {
    for e in [VdafError::Codec("c".to_string()), VdafError::Vdaf("v".to_string())] {
        assert!(matches!(
            DapError::from(e),
            DapError::Transition(TransitionFailure::VdafPrepError)
        ));
    }
}

#[test]
fn json_error_is_fatal() {
    let e = serde_json::from_str::<serde_json::Value>("{").unwrap_err();
    let want = format!("serde_json: {}", e);
    match DapError::from(e) {
        DapError::Fatal(m) => assert_eq!(m, want),
        other => panic!("expected a fatal error, got {:?}", other),
    }
}

#[test]
fn hex_error_is_fatal() {
    let e = hex::decode("abc").unwrap_err();
    match DapError::from(e) {
        DapError::Fatal(m) => assert_eq!(m, "from hex: Odd number of digits"),
        other => panic!("expected a fatal error, got {:?}", other),
    }
    let e = hex::decode("zz").unwrap_err();
    match DapError::from(e) {
        DapError::Fatal(m) => assert_eq!(m, "from hex: Invalid character 'z' at position 0"),
        other => panic!("expected a fatal error, got {:?}", other),
    }
}

#[test]
fn errors_as_text() {
    assert_eq!(DapError::fatal("boom").to_string(), "fatal error: boom");
    assert_eq!(
        DapError::Abort(DapAbort::BatchInvalid).to_string(),
        "abort: batchInvalid"
    );
    assert_eq!(
        DapError::Abort(DapAbort::Internal("why".to_string())).to_string(),
        "abort: why"
    );
    let cases = [
        (TransitionFailure::BatchCollected, "batch-collected(0)"),
        (TransitionFailure::ReportReplayed, "report-replayed(1)"),
        (TransitionFailure::ReportDropped, "report-dropped(2)"),
        (TransitionFailure::HpkeUnknownConfigId, "hpke-unknown-config-id(3)"),
        (TransitionFailure::HpkeDecryptError, "hpke-decrypt-error(4)"),
        (TransitionFailure::VdafPrepError, "vdaf-prep-error(5)"),
        (TransitionFailure::BatchSaturated, "batch-saturated(6)"),
        (TransitionFailure::TaskExpired, "task-expired(7)"),
        (TransitionFailure::UnrecognizedMessage, "unrecognized-message(8)"),
        (TransitionFailure::ReportTooEarly, "report-too-early(9)"),
    ];
    for (failure, want) in cases {
        assert_eq!(failure.as_str(), want);
        assert_eq!(
            DapError::Transition(failure).to_string(),
            format!("transition error: {}", want)
        );
    }
}

#[test]
fn codec_errors_as_text() {
    assert_eq!(CodecError::Io.to_string(), "I/O error");
    assert_eq!(
        CodecError::BytesLeftOver(0).to_string(),
        "0 bytes left in buffer after decoding value"
    );
    assert_eq!(
        CodecError::BytesLeftOver(1234567890).to_string(),
        "1234567890 bytes left in buffer after decoding value"
    );
    assert_eq!(
        CodecError::LengthPrefixTooBig(65535).to_string(),
        "length prefix of encoded vector overflows buffer: 65535"
    );
    assert_eq!(CodecError::UnexpectedValue.to_string(), "unexpected value");
}
