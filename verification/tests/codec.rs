use daphne::codec::{
    put_bytes, put_u16, put_u32, put_u64, take_bytes, take_u16, take_u32, take_u64, take_u8,
    CodecError,
};
use daphne::messages::{
    BatchSelector, Extension, HpkeCiphertext, Id, Interval, PartialBatchSelector, Report,
    ReportId, ReportMetadata,
};
use daphne::report::{decode_extension_list, take_u16_bytes, take_u32_bytes};
use daphne::request::{DapLeaderProcessTelemetry, DapRequest};
use daphne::{DapAbort, DapVersion};
use url::Url;

#[test]
fn integers_are_encoded_big_endian() {
    let mut bytes = vec![0xee];
    put_u16(&mut bytes, 0x0102);
    put_u32(&mut bytes, 0x03040506);
    put_u64(&mut bytes, 0x0708090a0b0c0d0e);
    put_bytes(&mut bytes, &[0xf0, 0xf1]);
    assert_eq!(
        bytes,
        vec![0xee, 1, 2, 3, 4, 5, 6, 7, 8, 9, 10, 11, 12, 13, 14, 0xf0, 0xf1]
    );
}

#[test]
fn integers_at_the_edges_are_encoded() {
    for x in [0u64, 1, 255, 256, 1664850074, u64::MAX - 1, u64::MAX] {
        let mut bytes = Vec::new();
        put_u64(&mut bytes, x);
        assert_eq!(bytes, x.to_be_bytes());
        assert_eq!(take_u64(&bytes, 0), Ok((x, 8)));
    }
    for x in [0u32, 1, 65535, 65536, u32::MAX] {
        let mut bytes = Vec::new();
        put_u32(&mut bytes, x);
        assert_eq!(bytes, x.to_be_bytes());
        assert_eq!(take_u32(&bytes, 0), Ok((x, 4)));
    }
    for x in [0u16, 1, 255, 256, u16::MAX] {
        let mut bytes = Vec::new();
        put_u16(&mut bytes, x);
        assert_eq!(bytes, x.to_be_bytes());
        assert_eq!(take_u16(&bytes, 0), Ok((x, 2)));
    }
}

#[test]
fn integers_are_decoded_where_they_stand() {
    let bytes = [0xee, 1, 2, 3, 4, 5, 6, 7, 8, 9];
    assert_eq!(take_u8(&bytes, 0), Ok((0xee, 1)));
    assert_eq!(take_u8(&bytes, 9), Ok((9, 10)));
    assert_eq!(take_u16(&bytes, 1), Ok((0x0102, 3)));
    assert_eq!(take_u32(&bytes, 1), Ok((0x01020304, 5)));
    assert_eq!(take_u64(&bytes, 1), Ok((0x0102030405060708, 9)));
    assert_eq!(take_u64(&bytes, 2), Ok((0x0203040506070809, 10)));
    assert_eq!(take_bytes(&bytes, 3, 4), Ok((vec![3, 4, 5, 6], 7)));
    assert_eq!(take_bytes(&bytes, 10, 0), Ok((vec![], 10)));
}

#[test]
fn short_input_is_an_io_error() {
    let bytes = [1, 2, 3, 4, 5, 6, 7];
    assert_eq!(take_u8(&bytes, 7), Err(CodecError::Io));
    assert_eq!(take_u16(&bytes, 6), Err(CodecError::Io));
    assert_eq!(take_u32(&bytes, 4), Err(CodecError::Io));
    assert_eq!(take_u64(&bytes, 0), Err(CodecError::Io));
    assert_eq!(take_bytes(&bytes, 3, 5), Err(CodecError::Io));
    assert_eq!(Id::decode(&[0; 31], 0), Err(CodecError::Io));
    assert_eq!(ReportId::decode(&[0; 16], 1), Err(CodecError::Io));
}

#[test]
fn ids_are_their_bytes() {
    let mut bytes = Vec::new();
    Id([7; 32]).encode(&mut bytes);
    ReportId([9; 16]).encode(&mut bytes);
    let mut want = vec![7u8; 32];
    want.extend([9; 16]);
    assert_eq!(bytes, want);
    assert_eq!(Id::decode(&bytes, 0), Ok((Id([7; 32]), 32)));
    assert_eq!(ReportId::decode(&bytes, 32), Ok((ReportId([9; 16]), 48)));
}

#[test]
fn report_id_is_decoded_from_exactly_16_bytes() {
    assert_eq!(ReportId::get_decoded(&[5; 16]), Ok(ReportId([5; 16])));
    assert_eq!(ReportId::get_decoded(&[5; 15]), Err(CodecError::Io));
    assert_eq!(ReportId::get_decoded(&[5; 19]), Err(CodecError::BytesLeftOver(3)));
}

#[test]
fn partial_batch_selector_codec() {
    let mut bytes = Vec::new();
    PartialBatchSelector::TimeInterval.encode(&mut bytes);
    assert_eq!(bytes, vec![1]);
    assert_eq!(
        PartialBatchSelector::decode(&bytes, 0),
        Ok((PartialBatchSelector::TimeInterval, 1))
    );
    let sel = PartialBatchSelector::FixedSizeByBatchId { batch_id: Id([4; 32]) };
    let mut bytes = vec![0xff];
    sel.encode(&mut bytes);
    let mut want = vec![0xff, 2];
    want.extend([4; 32]);
    assert_eq!(bytes, want);
    assert_eq!(PartialBatchSelector::decode(&bytes, 1), Ok((sel, 34)));
    assert_eq!(PartialBatchSelector::decode(&bytes, 0), Err(CodecError::UnexpectedValue));
    assert_eq!(PartialBatchSelector::decode(&bytes, 2), Err(CodecError::UnexpectedValue));
    assert_eq!(PartialBatchSelector::decode(&bytes[..33], 1), Err(CodecError::Io));
    assert_eq!(PartialBatchSelector::decode(&bytes, 34), Err(CodecError::Io));
}

fn report() -> Report {
    Report {
        task_id: Some(Id([0x11; 32])),
        metadata: ReportMetadata {
            id: ReportId([0x22; 16]),
            time: 1664850074,
            extensions: vec![
                Extension::Taskprov { payload: vec![1, 2, 3] },
                Extension::Unhandled { typ: 0x0a0b, payload: vec![] },
            ],
        },
        public_share: vec![9, 8],
        encrypted_input_shares: vec![
            HpkeCiphertext { config_id: 7, enc: vec![4, 5], payload: vec![6] },
            HpkeCiphertext { config_id: 8, enc: vec![], payload: vec![] },
        ],
    }
}

fn encoded_after_task_id() -> Vec<u8> {
    let mut want = vec![0x22u8; 16];
    want.extend(1664850074u64.to_be_bytes());
    want.extend([0, 11]);
    want.extend([0xff, 0x00, 0, 3, 1, 2, 3]);
    want.extend([0x0a, 0x0b, 0, 0]);
    want.extend([0, 0, 0, 2, 9, 8]);
    want.extend([0, 0, 0, 17]);
    want.extend([7, 0, 2, 4, 5, 0, 0, 0, 1, 6]);
    want.extend([8, 0, 0, 0, 0, 0, 0]);
    want
}

#[test]
fn report_of_the_earliest_version_starts_with_the_task_id() {
    let mut want = vec![0x11u8; 32];
    want.extend(encoded_after_task_id());
    assert_eq!(report().get_encoded_with_param(&DapVersion::Draft02), want);
}

#[test]
fn report_of_a_later_version_starts_with_the_metadata() {
    assert_eq!(
        report().get_encoded_with_param(&DapVersion::Draft03),
        encoded_after_task_id()
    );
    let mut without = report();
    without.task_id = None;
    assert_eq!(
        without.get_encoded_with_param(&DapVersion::Draft03),
        encoded_after_task_id()
    );
}

#[test]
fn dap_version_from_its_name() {
    assert_eq!(DapVersion::from("v02"), DapVersion::Draft02);
    assert_eq!(DapVersion::from("v03"), DapVersion::Draft03);
    assert_eq!(DapVersion::from("v04"), DapVersion::Unknown);
    assert_eq!(DapVersion::from(""), DapVersion::Unknown);
    assert_eq!(DapVersion::from("v020"), DapVersion::Unknown);
    assert_eq!(DapVersion::Draft02.as_ref(), "v02");
    assert_eq!(DapVersion::Draft03.as_ref(), "v03");
    assert_eq!(DapVersion::from(DapVersion::Draft02.as_ref()), DapVersion::Draft02);
    assert_eq!(DapVersion::from(DapVersion::Draft03.as_ref()), DapVersion::Draft03);
}

#[test]
fn request_without_a_task_id_is_an_unrecognized_message() {
    let mut req: DapRequest<()> = DapRequest {
        version: DapVersion::Draft03,
        media_type: Some("application/dap-report"),
        task_id: Some(Id([3; 32])),
        payload: vec![1, 2, 3],
        url: Url::parse("https://leader.example/upload").unwrap(),
        sender_auth: None,
    };
    assert_eq!(req.task_id().unwrap(), &Id([3; 32]));
    req.task_id = None;
    assert!(matches!(req.task_id(), Err(DapAbort::UnrecognizedMessage)));
}

#[test]
fn telemetry_starts_at_zero() {
    let t = DapLeaderProcessTelemetry::default();
    assert_eq!(t.reports_collected, 0);
    assert_eq!(t.reports_aggregated, 0);
    assert_eq!(t.reports_processed, 0);
}

#[test]
fn report_roundtrip_of_the_earliest_version() {
    let encoded = report().get_encoded_with_param(&DapVersion::Draft02);
    assert_eq!(
        Report::get_decoded_with_param(&DapVersion::Draft02, &encoded),
        Ok(report())
    );
    assert_eq!(
        Report::decode_with_param(&DapVersion::Draft02, &encoded, 0),
        Ok((report(), encoded.len()))
    );
}

#[test]
fn report_roundtrip_of_a_later_version() {
    let mut want = report();
    want.task_id = None;
    let encoded = report().get_encoded_with_param(&DapVersion::Draft03);
    assert_eq!(
        Report::get_decoded_with_param(&DapVersion::Draft03, &encoded),
        Ok(want)
    );
}

#[test]
fn report_roundtrip_without_anything_of_variable_length() {
    let empty = Report {
        task_id: Some(Id([1; 32])),
        metadata: ReportMetadata { id: ReportId([2; 16]), time: 3, extensions: Vec::new() },
        public_share: Vec::new(),
        encrypted_input_shares: Vec::new(),
    };
    let encoded = empty.get_encoded_with_param(&DapVersion::Draft02);
    assert_eq!(encoded.len(), 32 + 16 + 8 + 2 + 4 + 4);
    assert_eq!(
        Report::get_decoded_with_param(&DapVersion::Draft02, &encoded),
        Ok(empty)
    );
}

#[test]
fn decoded_report_id_is_the_id_that_was_encoded() {
    for version in [DapVersion::Draft02, DapVersion::Draft03] {
        let encoded = report().get_encoded_with_param(&version);
        let decoded = Report::get_decoded_with_param(&version, &encoded).unwrap();
        assert_eq!(decoded.metadata.id, ReportId([0x22; 16]));
        assert_eq!(decoded.metadata, report().metadata);
    }
}

#[test]
fn truncated_report_is_not_decoded() {
    for version in [DapVersion::Draft02, DapVersion::Draft03] {
        let encoded = report().get_encoded_with_param(&version);
        for len in 0..encoded.len() {
            assert!(Report::get_decoded_with_param(&version, &encoded[..len]).is_err());
        }
    }
}

#[test]
fn report_with_bytes_left_over_is_not_decoded() {
    let mut encoded = report().get_encoded_with_param(&DapVersion::Draft03);
    encoded.extend([1, 2, 3]);
    assert_eq!(
        Report::get_decoded_with_param(&DapVersion::Draft03, &encoded),
        Err(CodecError::BytesLeftOver(3))
    );
    let mut want = report();
    want.task_id = None;
    assert_eq!(
        Report::decode_with_param(&DapVersion::Draft03, &encoded, 0),
        Ok((want, encoded.len() - 3))
    );
}

#[test]
fn list_that_is_longer_than_the_input_is_not_decoded() {
    assert_eq!(
        decode_extension_list(&[0, 5, 0, 1, 0, 0], 0, 6),
        Err(CodecError::LengthPrefixTooBig(5))
    );
    assert_eq!(
        decode_extension_list(&[0, 4, 0, 1, 0, 0, 9], 0, 7),
        Ok((vec![Extension::Unhandled { typ: 1, payload: vec![] }], 6))
    );
    assert_eq!(
        decode_extension_list(&[0, 4, 0, 1, 0, 0, 9], 0, 5),
        Err(CodecError::LengthPrefixTooBig(4))
    );
    assert_eq!(decode_extension_list(&[0], 0, 1), Err(CodecError::Io));
    assert_eq!(decode_extension_list(&[0, 0], 0, 2), Ok((vec![], 2)));
}

#[test]
fn item_that_crosses_the_end_of_its_list_is_not_decoded() {
    // The list claims three bytes, the extension in it needs four.
    assert_eq!(
        decode_extension_list(&[0, 3, 0, 1, 0, 0], 0, 6),
        Err(CodecError::Io)
    );
    // The payload of the extension would reach beyond the list.
    assert_eq!(
        decode_extension_list(&[0, 4, 0, 1, 0, 1, 7], 0, 7),
        Err(CodecError::Io)
    );
    // Two extensions, the second of which is cut short.
    assert_eq!(
        decode_extension_list(&[0, 6, 0, 1, 0, 0, 0, 2], 0, 8),
        Err(CodecError::Io)
    );
}

#[test]
fn extension_of_the_taskprov_type_is_recognized() {
    assert_eq!(
        Extension::decode(&[0xff, 0x00, 0, 2, 5, 6], 0, 6),
        Ok((Extension::Taskprov { payload: vec![5, 6] }, 6))
    );
    assert_eq!(
        Extension::decode(&[0xff, 0x01, 0, 2, 5, 6], 0, 6),
        Ok((Extension::Unhandled { typ: 0xff01, payload: vec![5, 6] }, 6))
    );
    assert_eq!(Extension::decode(&[0xff, 0x00, 0, 2, 5, 6], 0, 5), Err(CodecError::Io));
}

#[test]
fn bytes_after_their_length_are_decoded() {
    assert_eq!(take_u16_bytes(&[9, 0, 2, 5, 6, 7], 1), Ok((vec![5, 6], 5)));
    assert_eq!(take_u16_bytes(&[9, 0, 2, 5], 1), Err(CodecError::Io));
    assert_eq!(take_u16_bytes(&[9, 0], 1), Err(CodecError::Io));
    assert_eq!(take_u32_bytes(&[0, 0, 0, 1, 5, 6], 0), Ok((vec![5], 5)));
    assert_eq!(take_u32_bytes(&[0, 0, 0, 0], 0), Ok((vec![], 4)));
    assert_eq!(take_u32_bytes(&[0, 0, 0, 3, 5, 6], 0), Err(CodecError::Io));
    assert_eq!(take_u32_bytes(&[0xff, 0xff, 0xff, 0xff, 5, 6], 0), Err(CodecError::Io));
}

#[test]
fn ciphertext_codec() {
    let c = HpkeCiphertext { config_id: 9, enc: vec![1, 2, 3], payload: vec![4, 5] };
    let mut bytes = Vec::new();
    c.encode(&mut bytes);
    assert_eq!(bytes, vec![9, 0, 3, 1, 2, 3, 0, 0, 0, 2, 4, 5]);
    assert_eq!(HpkeCiphertext::decode(&bytes, 0, bytes.len()), Ok((c, 12)));
    assert_eq!(HpkeCiphertext::decode(&bytes, 0, 11), Err(CodecError::Io));
    assert_eq!(HpkeCiphertext::decode(&bytes, 12, 12), Err(CodecError::Io));
}

#[test]
fn metadata_codec() {
    let m = report().metadata;
    let mut bytes = vec![0xee];
    m.encode(&mut bytes);
    assert_eq!(ReportMetadata::decode(&bytes, 1), Ok((m, bytes.len())));
    assert_eq!(ReportMetadata::decode(&bytes[..10], 1), Err(CodecError::Io));
}

#[test]
fn interval_codec() {
    let interval = Interval { start: 1664848800, duration: 3600 };
    let mut bytes = vec![7];
    interval.encode(&mut bytes);
    assert_eq!(
        bytes,
        vec![7, 0, 0, 0, 0, 0x63, 0x3b, 0x93, 0xa0, 0, 0, 0, 0, 0, 0, 0x0e, 0x10]
    );
    assert_eq!(Interval::decode(&bytes, 1), Ok((interval, 17)));
    assert_eq!(Interval::decode(&bytes, 2), Err(CodecError::Io));
}

#[test]
fn batch_selector_codec() {
    let by_time = BatchSelector::TimeInterval {
        batch_interval: Interval { start: 1, duration: 2 },
    };
    let mut bytes = Vec::new();
    by_time.encode(&mut bytes);
    assert_eq!(bytes, vec![1, 0, 0, 0, 0, 0, 0, 0, 1, 0, 0, 0, 0, 0, 0, 0, 2]);
    assert_eq!(BatchSelector::decode(&bytes, 0), Ok((by_time, 17)));
    assert_eq!(BatchSelector::decode(&bytes[..16], 0), Err(CodecError::Io));

    let by_id = BatchSelector::FixedSizeByBatchId { batch_id: Id([6; 32]) };
    let mut bytes = Vec::new();
    by_id.encode(&mut bytes);
    let mut want = vec![2u8];
    want.extend([6; 32]);
    assert_eq!(bytes, want);
    assert_eq!(BatchSelector::decode(&bytes, 0), Ok((by_id, 33)));
    assert_eq!(BatchSelector::decode(&bytes[..32], 0), Err(CodecError::Io));
    assert_eq!(BatchSelector::decode(&[], 0), Err(CodecError::Io));
    assert_eq!(BatchSelector::decode(&[0; 40], 0), Err(CodecError::UnexpectedValue));
    assert_eq!(BatchSelector::decode(&[3; 40], 0), Err(CodecError::UnexpectedValue));
}
