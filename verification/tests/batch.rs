use daphne::messages::{
    BatchSelector, HpkeAeadId, HpkeConfig, HpkeKdfId, HpkeKemId, Id, Interval,
    PartialBatchSelector, Query, ReportId, ReportMetadata, TransitionFailure,
};
use daphne::task::TaskprovVersion;
use daphne::vdaf::{VdafAggregateShare, VdafVerifyKey};
use daphne::{
    DapAbort, DapBatchBucket, DapError, DapGlobalConfig, DapOutputShare, DapQueryConfig,
    DapTaskConfig, DapVersion, Prio3Config, VdafConfig,
};
use url::Url;

fn task_config(query: DapQueryConfig, time_precision: u64, min_batch_size: u64) -> DapTaskConfig {
    DapTaskConfig {
        version: DapVersion::Draft03,
        leader_url: Url::parse("https://leader.example/").unwrap(),
        helper_url: Url::parse("https://helper.example/").unwrap(),
        time_precision,
        expiration: 2_000_000_000,
        min_batch_size,
        query,
        vdaf: VdafConfig::Prio3(Prio3Config::Count),
        vdaf_verify_key: VdafVerifyKey::Prio3([1; 16]),
        collector_hpke_config: HpkeConfig {
            id: 23,
            kem_id: HpkeKemId::X25519HkdfSha256,
            kdf_id: HpkeKdfId::HkdfSha256,
            aead_id: HpkeAeadId::Aes128Gcm,
            public_key: vec![0; 32],
        },
    }
}

fn fatal_message(e: DapError) -> String {
    match e {
        DapError::Fatal(m) => m,
        other => panic!("expected a fatal error, got {:?}", other),
    }
}

fn window(bucket: &DapBatchBucket) -> u64 {
    match bucket {
        DapBatchBucket::TimeInterval { batch_window } => *batch_window,
        DapBatchBucket::FixedSize { .. } => panic!("expected a window"),
    }
}

fn out_share(time: u64, seed: u8, value: u64) -> DapOutputShare {
    DapOutputShare {
        time,
        checksum: [seed; 32],
        data: VdafAggregateShare::Field64(vec![value]),
    }
}

#[test]
fn truncate_time_gives_the_start_of_the_window() {
    let task = task_config(DapQueryConfig::TimeInterval, 3600, 1);
    assert_eq!(task.truncate_time(1664850074), 1664848800);
    assert_eq!(task.truncate_time(1664848800), 1664848800);
    assert_eq!(task.truncate_time(1664848799), 1664845200);
    assert_eq!(task.truncate_time(0), 0);
    assert_eq!(task.truncate_time(3599), 0);
    assert_eq!(task.truncate_time(u64::MAX), u64::MAX - u64::MAX % 3600);
}

#[test]
fn every_timestamp_of_a_window_falls_into_its_bucket() {
    let task = task_config(DapQueryConfig::TimeInterval, 60, 1);
    for t in 120..180 {
        assert_eq!(task.truncate_time(t), (t / 60) * 60);
        assert_eq!(task.truncate_time(t), 120);
    }
    assert_eq!(task.truncate_time(119), 60);
    assert_eq!(task.truncate_time(180), 180);
}

#[test]
fn bucket_for_follows_the_partial_batch_selector() {
    let id = Id([5; 32]);
    let by_time = task_config(DapQueryConfig::TimeInterval, 3600, 1);
    let sel = PartialBatchSelector::TimeInterval;
    let bucket = by_time.bucket_for(&sel, 1664850074).unwrap();
    assert_eq!(window(&bucket), 1664848800);

    let fixed = task_config(DapQueryConfig::FixedSize { max_batch_size: 10 }, 3600, 1);
    let sel = PartialBatchSelector::FixedSizeByBatchId { batch_id: id };
    let bucket = fixed.bucket_for(&sel, 1664850074).unwrap();
    assert!(bucket == DapBatchBucket::FixedSize { batch_id: &id });
}

#[test]
fn bucket_for_rejects_a_selector_of_the_other_query_type() {
    let by_time = task_config(DapQueryConfig::TimeInterval, 3600, 1);
    let sel = PartialBatchSelector::FixedSizeByBatchId { batch_id: Id([5; 32]) };
    let e = match by_time.bucket_for(&sel, 1) {
        Err(e) => e,
        Ok(_) => panic!("expected an error"),
    };
    assert_eq!(fatal_message(e), "partial batch selector not compatible with task");
}

#[test]
fn query_for_current_batch_window_holds_now() {
    let task = task_config(DapQueryConfig::TimeInterval, 3600, 1);
    assert_eq!(
        task.query_for_current_batch_window(1664850074),
        Query::TimeInterval {
            batch_interval: Interval { start: 1664848800, duration: 3600 }
        }
    );
}

#[test]
fn batch_span_for_sel_enumerates_the_windows() {
    let task = task_config(DapQueryConfig::TimeInterval, 1200, 1);
    let sel = BatchSelector::TimeInterval {
        batch_interval: Interval { start: 1_000_000, duration: 3600 },
    };
    let span = task.batch_span_for_sel(&sel).unwrap();
    let windows: Vec<u64> = span.iter().map(window).collect();
    assert_eq!(windows, vec![1_000_000, 1_001_200, 1_002_400]);
}

#[test]
fn batch_span_for_sel_has_one_bucket_per_window() {
    let task = task_config(DapQueryConfig::TimeInterval, 3600, 1);
    for windows in 0..5u64 {
        let sel = BatchSelector::TimeInterval {
            batch_interval: Interval { start: 7200, duration: windows * 3600 },
        };
        assert_eq!(task.batch_span_for_sel(&sel).unwrap().len() as u64, windows);
    }
    let sel = BatchSelector::TimeInterval {
        batch_interval: Interval { start: 7200, duration: 3599 },
    };
    assert_eq!(task.batch_span_for_sel(&sel).unwrap().len(), 0);
}

#[test]
fn batch_span_for_sel_of_a_batch_id_is_that_batch() {
    let id = Id([9; 32]);
    let task = task_config(DapQueryConfig::FixedSize { max_batch_size: 10 }, 3600, 1);
    let sel = BatchSelector::FixedSizeByBatchId { batch_id: id };
    let span = task.batch_span_for_sel(&sel).unwrap();
    assert_eq!(span.len(), 1);
    assert!(span[0] == DapBatchBucket::FixedSize { batch_id: &id });
}

#[test]
fn batch_span_for_sel_rejects_a_selector_of_the_other_query_type() {
    let task = task_config(DapQueryConfig::FixedSize { max_batch_size: 10 }, 3600, 1);
    let sel = BatchSelector::TimeInterval {
        batch_interval: Interval { start: 0, duration: 3600 },
    };
    let e = match task.batch_span_for_sel(&sel) {
        Err(e) => e,
        Ok(_) => panic!("expected an error"),
    };
    assert_eq!(fatal_message(e), "batch selector not compatible with task");
}

#[test]
fn batch_span_for_out_shares_aggregates_by_window() {
    let task = task_config(DapQueryConfig::TimeInterval, 100, 1);
    let sel = PartialBatchSelector::TimeInterval;
    let shares = vec![
        out_share(105, 1, 1),
        out_share(250, 2, 10),
        out_share(199, 4, 100),
        out_share(100, 8, 1000),
        out_share(299, 16, 10000),
    ];
    let span = task.batch_span_for_out_shares(&sel, shares).unwrap();
    assert_eq!(span.len(), 2);
    let first = span.iter().find(|(b, _)| window(b) == 100).unwrap();
    assert_eq!(first.1.report_count, 3);
    assert_eq!(first.1.checksum, [1 ^ 4 ^ 8; 32]);
    assert_eq!(first.1.data, Some(VdafAggregateShare::Field64(vec![1101])));
    let second = span.iter().find(|(b, _)| window(b) == 200).unwrap();
    assert_eq!(second.1.report_count, 2);
    assert_eq!(second.1.checksum, [2 ^ 16; 32]);
    assert_eq!(second.1.data, Some(VdafAggregateShare::Field64(vec![10010])));
}

#[test]
fn batch_span_for_out_shares_of_none_is_empty() {
    let task = task_config(DapQueryConfig::TimeInterval, 100, 1);
    let sel = PartialBatchSelector::TimeInterval;
    assert!(task.batch_span_for_out_shares(&sel, Vec::new()).unwrap().is_empty());
}

#[test]
fn batch_span_for_out_shares_of_a_batch_id_has_one_bucket() {
    let id = Id([3; 32]);
    let task = task_config(DapQueryConfig::FixedSize { max_batch_size: 10 }, 100, 1);
    let sel = PartialBatchSelector::FixedSizeByBatchId { batch_id: id };
    let shares = vec![out_share(105, 1, 1), out_share(998, 2, 10), out_share(3, 4, 100)];
    let span = task.batch_span_for_out_shares(&sel, shares).unwrap();
    assert_eq!(span.len(), 1);
    assert!(span[0].0 == DapBatchBucket::FixedSize { batch_id: &id });
    assert_eq!(span[0].1.report_count, 3);
    assert_eq!(span[0].1.data, Some(VdafAggregateShare::Field64(vec![111])));
}

#[test]
fn batch_span_for_out_shares_rejects_a_selector_of_the_other_query_type() {
    let task = task_config(DapQueryConfig::FixedSize { max_batch_size: 10 }, 100, 1);
    let sel = PartialBatchSelector::TimeInterval;
    let e = match task.batch_span_for_out_shares(&sel, vec![out_share(1, 1, 1)]) {
        Err(e) => e,
        Ok(_) => panic!("expected an error"),
    };
    assert_eq!(fatal_message(e), "partial batch selector not compatible with task");
}

#[test]
fn batch_span_for_out_shares_fails_when_a_bucket_cannot_be_merged() {
    let task = task_config(DapQueryConfig::TimeInterval, 100, 1);
    let sel = PartialBatchSelector::TimeInterval;
    let shares = vec![
        out_share(105, 1, 1),
        DapOutputShare {
            time: 150,
            checksum: [2; 32],
            data: VdafAggregateShare::Field128(vec![1]),
        },
    ];
    let e = match task.batch_span_for_out_shares(&sel, shares) {
        Err(e) => e,
        Ok(_) => panic!("expected an error"),
    };
    assert_eq!(fatal_message(e), "invalid aggregate share merge");
}

#[test]
fn batch_span_for_out_shares_keeps_different_fields_in_different_buckets() {
    let task = task_config(DapQueryConfig::TimeInterval, 100, 1);
    let sel = PartialBatchSelector::TimeInterval;
    let shares = vec![
        out_share(105, 1, 1),
        DapOutputShare {
            time: 250,
            checksum: [2; 32],
            data: VdafAggregateShare::Field128(vec![1]),
        },
    ];
    let span = task.batch_span_for_out_shares(&sel, shares).unwrap();
    assert_eq!(span.len(), 2);
}

fn metadata(id: u8, time: u64) -> ReportMetadata {
    ReportMetadata { id: ReportId([id; 16]), time, extensions: Vec::new() }
}

#[test]
fn batch_span_for_meta_groups_by_window_in_order() {
    let task = task_config(DapQueryConfig::TimeInterval, 100, 1);
    let sel = PartialBatchSelector::TimeInterval;
    let metas = vec![
        metadata(1, 105),
        metadata(2, 250),
        metadata(3, 199),
        metadata(4, 100),
        metadata(5, 299),
    ];
    let span = task.batch_span_for_meta(&sel, &metas).unwrap();
    assert_eq!(span.len(), 2);
    let first = span.iter().find(|(b, _)| window(b) == 100).unwrap();
    assert_eq!(first.1, vec![&metas[0], &metas[2], &metas[3]]);
    let second = span.iter().find(|(b, _)| window(b) == 200).unwrap();
    assert_eq!(second.1, vec![&metas[1], &metas[4]]);
}

#[test]
fn batch_span_for_meta_of_a_batch_id_has_one_bucket() {
    let id = Id([3; 32]);
    let task = task_config(DapQueryConfig::FixedSize { max_batch_size: 10 }, 100, 1);
    let sel = PartialBatchSelector::FixedSizeByBatchId { batch_id: id };
    let metas = vec![metadata(1, 105), metadata(2, 250)];
    let span = task.batch_span_for_meta(&sel, &metas).unwrap();
    assert_eq!(span.len(), 1);
    assert!(span[0].0 == DapBatchBucket::FixedSize { batch_id: &id });
    assert_eq!(span[0].1, vec![&metas[0], &metas[1]]);
}

#[test]
fn batch_span_for_meta_rejects_a_selector_of_the_other_query_type() {
    let task = task_config(DapQueryConfig::TimeInterval, 100, 1);
    let sel = PartialBatchSelector::FixedSizeByBatchId { batch_id: Id([3; 32]) };
    let metas = vec![metadata(1, 105)];
    let e = match task.batch_span_for_meta(&sel, &metas) {
        Err(e) => e,
        Ok(_) => panic!("expected an error"),
    };
    assert_eq!(fatal_message(e), "partial batch selector not compatible with task");
}

#[test]
fn report_count_of_a_time_interval_task_only_has_a_minimum() {
    let task = task_config(DapQueryConfig::TimeInterval, 100, 10);
    assert!(matches!(task.is_report_count_compatible(9), Ok(false)));
    assert!(matches!(task.is_report_count_compatible(10), Ok(true)));
    assert!(matches!(task.is_report_count_compatible(u64::MAX), Ok(true)));
}

#[test]
fn report_count_of_a_fixed_size_task_has_a_maximum_too() {
    let task = task_config(DapQueryConfig::FixedSize { max_batch_size: 20 }, 100, 10);
    assert!(matches!(task.is_report_count_compatible(9), Ok(false)));
    assert!(matches!(task.is_report_count_compatible(10), Ok(true)));
    assert!(matches!(task.is_report_count_compatible(20), Ok(true)));
    assert!(matches!(
        task.is_report_count_compatible(21),
        Err(DapAbort::InvalidBatchSize)
    ));
}

#[test]
fn query_config_tells_which_selectors_fit() {
    let by_time = DapQueryConfig::TimeInterval;
    let fixed = DapQueryConfig::FixedSize { max_batch_size: 1 };
    let id = Id([0; 32]);
    let interval = Interval { start: 0, duration: 1 };
    assert!(by_time.is_valid_part_batch_sel(&PartialBatchSelector::TimeInterval));
    assert!(!by_time.is_valid_part_batch_sel(&PartialBatchSelector::FixedSizeByBatchId {
        batch_id: id
    }));
    assert!(!fixed.is_valid_part_batch_sel(&PartialBatchSelector::TimeInterval));
    assert!(fixed.is_valid_part_batch_sel(&PartialBatchSelector::FixedSizeByBatchId {
        batch_id: id
    }));
    assert!(by_time.is_valid_batch_sel(&BatchSelector::TimeInterval { batch_interval: interval }));
    assert!(!by_time.is_valid_batch_sel(&BatchSelector::FixedSizeByBatchId { batch_id: id }));
    assert!(!fixed.is_valid_batch_sel(&BatchSelector::TimeInterval { batch_interval: interval }));
    assert!(fixed.is_valid_batch_sel(&BatchSelector::FixedSizeByBatchId { batch_id: id }));
}

fn global_config(kems: Vec<HpkeKemId>) -> DapGlobalConfig {
    DapGlobalConfig {
        report_storage_epoch_duration: 604800,
        report_storage_max_future_time_skew: 300,
        max_batch_duration: 360000,
        min_batch_interval_start: 259200,
        max_batch_interval_end: 259200,
        supported_hpke_kems: kems,
        allow_taskprov: false,
        taskprov_version: TaskprovVersion::Draft02,
    }
}

#[test]
fn hpke_receiver_config_list_counts_up_from_the_first_id() {
    let config = global_config(vec![HpkeKemId::X25519HkdfSha256, HpkeKemId::P256HkdfSha256]);
    assert_eq!(
        config.gen_hpke_receiver_config_list(23),
        vec![(23, HpkeKemId::X25519HkdfSha256), (24, HpkeKemId::P256HkdfSha256)]
    );
}

#[test]
fn hpke_receiver_config_list_wraps_around() {
    let config = global_config(vec![
        HpkeKemId::X25519HkdfSha256,
        HpkeKemId::P256HkdfSha256,
        HpkeKemId::NotImplemented(99),
    ]);
    assert_eq!(
        config.gen_hpke_receiver_config_list(254),
        vec![
            (254, HpkeKemId::X25519HkdfSha256),
            (255, HpkeKemId::P256HkdfSha256),
            (0, HpkeKemId::NotImplemented(99)),
        ]
    );
    assert!(global_config(Vec::new()).gen_hpke_receiver_config_list(7).is_empty());
}

#[test]
fn hpke_receiver_config_list_takes_256_kems() {
    let config = global_config(vec![HpkeKemId::X25519HkdfSha256; 256]);
    let list = config.gen_hpke_receiver_config_list(1);
    assert_eq!(list.len(), 256);
    for (i, (config_id, _)) in list.iter().enumerate() {
        assert_eq!(*config_id as usize, (i + 1) % 256);
    }
}

#[test]
fn report_time_within_the_bounds_is_taken() {
    let mut task = task_config(DapQueryConfig::TimeInterval, 100, 1);
    task.expiration = 10_000;
    let mut global = global_config(Vec::new());
    global.report_storage_epoch_duration = 1000;
    global.report_storage_max_future_time_skew = 300;
    let now = 5000;
    assert_eq!(task.check_report_time(&global, now, 5000), Ok(()));
    assert_eq!(task.check_report_time(&global, now, 4000), Ok(()));
    assert_eq!(task.check_report_time(&global, now, 5300), Ok(()));
    assert_eq!(
        task.check_report_time(&global, now, 3999),
        Err(TransitionFailure::ReportDropped)
    );
    assert_eq!(
        task.check_report_time(&global, now, 5301),
        Err(TransitionFailure::ReportTooEarly)
    );
    assert_eq!(
        task.check_report_time(&global, now, 0),
        Err(TransitionFailure::ReportDropped)
    );
    assert_eq!(
        task.check_report_time(&global, now, u64::MAX),
        Err(TransitionFailure::ReportTooEarly)
    );
}

#[test]
fn report_for_an_expired_task_is_not_taken() {
    let mut task = task_config(DapQueryConfig::TimeInterval, 100, 1);
    task.expiration = 10_000;
    let global = global_config(Vec::new());
    assert_eq!(task.check_report_time(&global, 10_000, 10_000), Ok(()));
    assert_eq!(
        task.check_report_time(&global, 10_001, 10_000),
        Err(TransitionFailure::TaskExpired)
    );
    assert_eq!(
        task.check_report_time(&global, 10_001, 0),
        Err(TransitionFailure::TaskExpired)
    );
}

#[test]
fn report_time_bounds_do_not_wrap() {
    let mut task = task_config(DapQueryConfig::TimeInterval, 100, 1);
    task.expiration = u64::MAX;
    let mut global = global_config(Vec::new());
    global.report_storage_epoch_duration = u64::MAX;
    global.report_storage_max_future_time_skew = u64::MAX;
    assert_eq!(task.check_report_time(&global, 5, 0), Ok(()));
    assert_eq!(task.check_report_time(&global, u64::MAX, 0), Ok(()));
    assert_eq!(task.check_report_time(&global, 0, u64::MAX), Ok(()));
}

#[test]
fn task_config_is_copied_with_its_urls() {
    let task = task_config(DapQueryConfig::TimeInterval, 100, 1);
    let copy = task.clone();
    assert_eq!(copy.leader_url, task.leader_url);
    assert_eq!(copy.helper_url.as_str(), "https://helper.example/");
    assert_eq!(copy.time_precision, 100);
    assert_eq!(copy.query, DapQueryConfig::TimeInterval);
    assert_eq!(copy.vdaf, task.vdaf);
}
