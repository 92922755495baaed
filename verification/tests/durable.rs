use daphne::durable::{
    durable_name_agg_store, durable_name_bucket, durable_name_queue, durable_name_report_store,
    durable_name_task, report_id_hex_from_report,
};
use daphne::messages::{Extension, HpkeCiphertext, Id, Report, ReportId, ReportMetadata};
use daphne::{DapBatchBucket, DapVersion};
use rand::{thread_rng, Rng};

#[test]
fn durable_name() {
    let time = 1664850074;
    let id1 = Id([17; 32]);
    let id2 = Id([34; 32]);
    let shard = 1234;

    assert_eq!(durable_name_queue(shard), "queue/1234");

    assert_eq!(
        durable_name_report_store(&DapVersion::Draft02, &id1.to_hex(), time, shard),
        "v02/task/1111111111111111111111111111111111111111111111111111111111111111/epoch/00000000001664850074/shard/1234",
    );

    assert_eq!(
        durable_name_agg_store(&DapVersion::Draft02, &id1.to_hex(), &DapBatchBucket::FixedSize{ batch_id: &id2 }),
        "v02/task/1111111111111111111111111111111111111111111111111111111111111111/batch/2222222222222222222222222222222222222222222222222222222222222222",
    );

    assert_eq!(
        durable_name_agg_store(&DapVersion::Draft02, &id1.to_hex(), &DapBatchBucket::TimeInterval{ batch_window: time }),
        "v02/task/1111111111111111111111111111111111111111111111111111111111111111/window/1664850074",
    );
}

#[test]
fn durable_name_queue_of_zero_and_of_the_largest_shard() {
    assert_eq!(durable_name_queue(0), "queue/0");
    assert_eq!(durable_name_queue(10), "queue/10");
    assert_eq!(durable_name_queue(u64::MAX), "queue/18446744073709551615");
}

#[test]
fn durable_name_task_of_each_version() {
    assert_eq!(durable_name_task(&DapVersion::Draft02, "ab"), "v02/task/ab");
    assert_eq!(durable_name_task(&DapVersion::Draft03, "cd"), "v03/task/cd");
}

#[test]
fn durable_name_report_store_pads_the_epoch() {
    assert_eq!(
        durable_name_report_store(&DapVersion::Draft03, "00", 0, 0),
        "v03/task/00/epoch/00000000000000000000/shard/0",
    );
    assert_eq!(
        durable_name_report_store(&DapVersion::Draft03, "00", u64::MAX, 7),
        "v03/task/00/epoch/18446744073709551615/shard/7",
    );
}

#[test]
fn durable_name_bucket_of_each_kind() {
    let id = Id([0xab; 32]);
    assert_eq!(
        durable_name_bucket(&DapBatchBucket::FixedSize { batch_id: &id }),
        format!("batch/{}", "ab".repeat(32)),
    );
    assert_eq!(
        durable_name_bucket(&DapBatchBucket::TimeInterval { batch_window: 0 }),
        "window/0",
    );
}

#[test]
fn ids_in_hex_have_two_lower_case_digits_per_byte() {
    assert_eq!(Id([17; 32]).to_hex(), "11".repeat(32));
    assert_eq!(ReportId([0xfe; 16]).to_hex(), "fe".repeat(16));
    let mut bytes = [0u8; 16];
    for (i, b) in bytes.iter_mut().enumerate() {
        *b = (i as u8) * 17;
    }
    assert_eq!(ReportId(bytes).to_hex(), "00112233445566778899aabbccddeeff");
    let mut bytes = [0u8; 32];
    bytes[0] = 0x0f;
    bytes[1] = 0xa0;
    bytes[31] = 0x19;
    assert_eq!(Id(bytes).to_hex(), format!("0fa0{}19", "00".repeat(29)));
}

fn parse_report_id_hex_from_report(version: DapVersion) {
    let mut rng = thread_rng();
    let report = Report {
        task_id: match version {
            DapVersion::Draft02 => Some(Id(rng.gen())),
            _ => None,
        },
        metadata: ReportMetadata {
            id: ReportId(rng.gen()),
            time: rng.gen(),
            extensions: Vec::default(),
        },
        public_share: Vec::default(),
        encrypted_input_shares: Vec::default(),
    };

    let encoded = report.get_encoded_with_param(&version);
    let report_hex = hex::encode(&encoded);
    let key = report_id_hex_from_report(&version, &report_hex).unwrap();
    assert_eq!(
        ReportId::get_decoded(&hex::decode(key).unwrap()).unwrap(),
        report.metadata.id
    );
    assert_eq!(
        Report::get_decoded_with_param(&version, &encoded).unwrap().metadata.id.to_hex(),
        key
    );
}

#[test]
fn parse_report_id_hex_from_report_draft02() {
    parse_report_id_hex_from_report(DapVersion::Draft02)
}

#[test]
fn parse_report_id_hex_from_report_draft03() {
    parse_report_id_hex_from_report(DapVersion::Draft03)
}

#[test]
fn report_id_hex_is_found_at_the_offset_of_the_version() {
    let report = Report {
        task_id: Some(Id([0x11; 32])),
        metadata: ReportMetadata {
            id: ReportId([0x22; 16]),
            time: 1664850074,
            extensions: vec![Extension::Taskprov { payload: vec![1, 2, 3] }],
        },
        public_share: vec![9, 9],
        encrypted_input_shares: vec![HpkeCiphertext {
            config_id: 7,
            enc: vec![4, 5],
            payload: vec![6],
        }],
    };
    let with_task_id = hex::encode(report.get_encoded_with_param(&DapVersion::Draft02));
    assert_eq!(
        report_id_hex_from_report(&DapVersion::Draft02, &with_task_id),
        Some("22222222222222222222222222222222"),
    );
    let without_task_id = hex::encode(report.get_encoded_with_param(&DapVersion::Draft03));
    assert_eq!(
        report_id_hex_from_report(&DapVersion::Draft03, &without_task_id),
        Some("22222222222222222222222222222222"),
    );
    assert_eq!(&with_task_id[64..], &without_task_id[..]);
}

#[test]
fn report_id_hex_needs_enough_text_and_a_known_version() {
    let hex96 = "0".repeat(96);
    let hex95 = "0".repeat(95);
    let hex32 = "1".repeat(32);
    let hex31 = "1".repeat(31);
    assert_eq!(report_id_hex_from_report(&DapVersion::Draft02, &hex96), Some(&hex96[64..96]));
    assert_eq!(report_id_hex_from_report(&DapVersion::Draft02, &hex95), None);
    assert_eq!(report_id_hex_from_report(&DapVersion::Draft03, &hex32), Some(&hex32[..]));
    assert_eq!(report_id_hex_from_report(&DapVersion::Draft03, &hex31), None);
    assert_eq!(report_id_hex_from_report(&DapVersion::Unknown, &hex96), None);
    let not_ascii = "é".repeat(96);
    assert_eq!(report_id_hex_from_report(&DapVersion::Draft03, &not_ascii), None);
}
