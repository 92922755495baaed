//! Names of the durable stores that hold the state of tasks, and the place
//! of the report ID in a stored report.

use crate::messages::Report;
use crate::report::{lemma_report_roundtrip, read_report};
use crate::task::{BucketView, DapBatchBucket};
use crate::text::{
    decimal, decimal_fixed, hex_chars, lemma_hex_chars_concat, push_decimal, push_decimal_fixed,
};
use crate::version::DapVersion;
use vstd::prelude::*;
use vstd::string::{StrSliceExecFns, StringExecFns, StringSliceAdditionalSpecFns};

verus! {

/// The name of a shard of the queue.
pub open spec fn queue_name(shard: u64) -> Seq<char> {
    "queue/"@ + decimal(shard as nat)
}

/// The name under which everything of a task is stored.
pub open spec fn task_name(version: DapVersion, task_id_hex: Seq<char>) -> Seq<char> {
    version.name() + "/task/"@ + task_id_hex
}

/// The name of a bucket within its task.
pub open spec fn bucket_name(bucket: BucketView) -> Seq<char> {
    match bucket {
        BucketView::TimeInterval { batch_window } => "window/"@ + decimal(batch_window),
        BucketView::FixedSize { batch_id } => "batch/"@ + hex_chars(batch_id),
    }
}

/// The name of a shard of the report store of a task, for the reports of
/// one storage epoch. The epoch is written with 20 digits.
pub open spec fn report_store_name(
    version: DapVersion,
    task_id_hex: Seq<char>,
    epoch: u64,
    shard: u64,
) -> Seq<char> {
    task_name(version, task_id_hex) + "/epoch/"@ + decimal_fixed(epoch as nat, 20) + "/shard/"@
        + decimal(shard as nat)
}

/// The name of the aggregate store of a bucket of a task.
pub open spec fn agg_store_name(
    version: DapVersion,
    task_id_hex: Seq<char>,
    bucket: BucketView,
) -> Seq<char> {
    task_name(version, task_id_hex) + "/"@ + bucket_name(bucket)
}

/// The name of a shard of the queue.
pub fn durable_name_queue(shard: u64) -> (name: String)
    ensures
        name@ == queue_name(shard),
{
    let mut name = String::from_str("queue/");
    push_decimal(&mut name, shard);
    name
}

/// The name under which everything of a task is stored.
pub fn durable_name_task(version: &DapVersion, task_id_hex: &str) -> (name: String)
    requires
        !(version is Unknown),
    ensures
        name@ == task_name(*version, task_id_hex@),
{
    let mut name = String::from_str(version.as_ref());
    name.append("/task/");
    name.append(task_id_hex);
    name
}

/// The name of a bucket within its task.
pub fn durable_name_bucket(bucket: &DapBatchBucket<'_>) -> (name: String)
    ensures
        name@ == bucket_name(bucket@),
{
    match bucket {
        DapBatchBucket::TimeInterval { batch_window } => {
            let mut name = String::from_str("window/");
            push_decimal(&mut name, *batch_window);
            name
        },
        DapBatchBucket::FixedSize { batch_id } => {
            let mut name = String::from_str("batch/");
            let hex = batch_id.to_hex();
            name.append(hex.as_str());
            name
        },
    }
}

/// The name of a shard of the report store of a task, for the reports of
/// one storage epoch.
pub fn durable_name_report_store(
    version: &DapVersion,
    task_id_hex: &str,
    epoch: u64,
    shard: u64,
) -> (name: String)
    requires
        !(version is Unknown),
    ensures
        name@ == report_store_name(*version, task_id_hex@, epoch, shard),
{
    let mut name = durable_name_task(version, task_id_hex);
    name.append("/epoch/");
    push_decimal_fixed(&mut name, epoch, 20);
    name.append("/shard/");
    push_decimal(&mut name, shard);
    name
}

/// The name of the aggregate store of a bucket of a task.
pub fn durable_name_agg_store(
    version: &DapVersion,
    task_id_hex: &str,
    bucket: &DapBatchBucket<'_>,
) -> (name: String)
    requires
        !(version is Unknown),
    ensures
        name@ == agg_store_name(*version, task_id_hex@, bucket@),
{
    let mut name = durable_name_task(version, task_id_hex);
    name.append("/");
    let bucket_part = durable_name_bucket(bucket);
    name.append(bucket_part.as_str());
    name
}

/// Where the report ID starts within an encoded report: after the task ID
/// in the earliest version, and at the start in later ones.
pub open spec fn report_id_offset(version: DapVersion) -> int {
    if version is Draft02 {
        32
    } else {
        0
    }
}

/// The report ID, in hex, within a report in hex. There is none where the
/// version is unknown or the text is too short for it.
pub open spec fn report_id_hex(version: DapVersion, report_hex: Seq<char>) -> Option<Seq<char>> {
    let start = 2 * report_id_offset(version);
    if version is Unknown || report_hex.len() < start + 32 {
        None
    } else {
        Some(report_hex.subrange(start, start + 32))
    }
}

/// Extract the report ID, in hex, from a report in hex, without decoding the
/// report. Text that is not ASCII is no report in hex and has no report ID.
pub fn report_id_hex_from_report<'a>(version: &DapVersion, report_hex: &'a str) -> (r: Option<
    &'a str,
>)
    ensures
        match r {
            Some(id_hex) => report_hex.is_ascii() && report_id_hex(*version, report_hex@) == Some(
                id_hex@,
            ),
            None => !report_hex.is_ascii() || report_id_hex(*version, report_hex@) is None,
        },
{
    let start: usize = match version {
        DapVersion::Draft02 => 64,
        DapVersion::Draft03 => 0,
        DapVersion::Unknown => {
            return None;
        },
    };
    if !report_hex.is_ascii() {
        return None;
    }
    proof {
        vstd::string::is_ascii_spec_bytes(report_hex);
        assert(report_hex.spec_bytes().len() == report_hex@.len());
    }
    let n = report_hex.as_bytes().len();
    if n < start + 32 {
        return None;
    }
    Some(report_hex.substring_ascii(start, start + 32))
}

/// The report ID occupies 16 bytes of an encoded report, from an offset
/// that the version determines. The ID that is found there, in hex at twice
/// the offset in the report in hex, is the ID that decoding the whole report
/// gives.
pub proof fn lemma_report_id_in_encoding(report: Report, version: DapVersion)
    requires
        report.encodable(version),
    ensures
        report.encoded(version).subrange(
            report_id_offset(version),
            report_id_offset(version) + 16,
        ) == report.metadata.id@,
        read_report(version, report.encoded(version)) matches Ok((decoded, _))
            && decoded.metadata.id == report.metadata.id@ && report_id_hex(
            version,
            hex_chars(report.encoded(version)),
        ) == Some(hex_chars(decoded.metadata.id)),
{
    let off = report_id_offset(version);
    let encoded = report.encoded(version);
    let head = encoded.subrange(0, off);
    let id = encoded.subrange(off, off + 16);
    let tail = encoded.subrange(off + 16, encoded.len() as int);
    assert(report.encoded_task_id(version).len() == off);
    assert(id =~= report.metadata.id@);
    assert(encoded =~= head + id + tail);
    lemma_hex_chars_concat(head + id, tail);
    lemma_hex_chars_concat(head, id);
    assert(hex_chars(encoded).subrange(2 * off, 2 * off + 32) =~= hex_chars(id));
    lemma_report_roundtrip(report, version);
}

} // verus!
