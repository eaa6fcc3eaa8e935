use epics_tools::common::{check_name, collect_async, connect_verdict, partition_results, SyncBatch};
use epics_tools::types::{Info, RawValue, Stamp, Timed};
use epics_tools::UnifiedError;

fn record(name: &str, v: i32) -> Info {
    Info::new(name.to_string(), 1, RawValue::Long(Timed { stamp: Stamp { sec: 0, nsec: 0 }, value: v }))
}

#[test]
fn sync_batch_refuses_on_one_timeout() {
    let r = SyncBatch::open(&vec![true, false, true]);
    assert_eq!(r.err(), Some(UnifiedError::ConnectTimeout));
    let r = SyncBatch::open(&vec![false]);
    assert_eq!(r.err(), Some(UnifiedError::ConnectTimeout));
}

#[test]
fn sync_batch_reads_in_order() {
    let mut batch = SyncBatch::open(&vec![true, true]).unwrap();
    let mut reads = vec![record("A", 7), record("B", 42)].into_iter();
    while let Some(i) = batch.next_read() {
        assert_eq!(i, batch.records.len());
        batch = batch.accept(Ok(reads.next().unwrap())).unwrap();
    }
    let records = batch.finish();
    let names: Vec<&str> = records.iter().map(|r| r.name.as_str()).collect();
    assert_eq!(names, vec!["A", "B"]);
}

#[test]
fn sync_batch_read_error_aborts() {
    let batch = SyncBatch::open(&vec![true, true]).unwrap();
    let batch = batch.accept(Ok(record("A", 1))).unwrap();
    let r = batch.accept(Err(UnifiedError::ProtocolError("dropped".to_string())));
    assert_eq!(r.err(), Some(UnifiedError::ProtocolError("dropped".to_string())));
}

#[test]
fn sync_batch_empty_has_nothing_to_read() {
    let batch = SyncBatch::open(&vec![]).unwrap();
    assert_eq!(batch.next_read(), None);
    assert!(batch.finish().is_empty());
}

#[test]
fn connect_verdict_times_out() {
    assert_eq!(connect_verdict(true), Ok(()));
    assert_eq!(connect_verdict(false), Err(UnifiedError::ConnectTimeout));
}

#[test]
fn best_effort_keeps_exactly_the_successes() {
    let units = vec![
        Ok(record("B", 2)),
        Err(UnifiedError::ConnectTimeout),
        Ok(record("A", 1)),
        Err(UnifiedError::ProtocolError("x".to_string())),
        Ok(record("C", 3)),
    ];
    let report = collect_async(units);
    let names: Vec<&str> = report.records.iter().map(|r| r.name.as_str()).collect();
    assert_eq!(names, vec!["B", "A", "C"]);
    assert_eq!(
        report.dropped,
        vec![UnifiedError::ConnectTimeout, UnifiedError::ProtocolError("x".to_string())]
    );
}

#[test]
fn best_effort_all_timed_out() {
    let units: Vec<Result<Info, UnifiedError>> =
        vec![Err(UnifiedError::ConnectTimeout), Err(UnifiedError::ConnectTimeout)];
    let report = collect_async(units);
    assert!(report.records.is_empty());
    assert_eq!(report.dropped.len(), 2);
}

#[test]
fn name_with_nul_is_refused() {
    assert_eq!(check_name(&"A:B".to_string()), Ok(()));
    assert_eq!(check_name(&"".to_string()), Ok(()));
    assert_eq!(
        check_name(&"bad\0name".to_string()),
        Err(UnifiedError::NameError("bad\0name".to_string()))
    );
}

#[test]
fn nul_name_drops_out_of_the_batch() {
    let names = vec!["A".to_string(), "B\0".to_string(), "C".to_string()];
    let opened: Vec<Result<String, UnifiedError>> =
        names.iter().map(|n| check_name(n).map(|_| n.clone())).collect();
    let (good, bad) = partition_results(opened);
    assert_eq!(good, vec!["A".to_string(), "C".to_string()]);
    assert_eq!(bad, vec![UnifiedError::NameError("B\0".to_string())]);
    let units: Vec<Result<Info, UnifiedError>> = good.iter().map(|n| Ok(record(n, 1))).collect();
    let report = collect_async(units);
    assert_eq!(report.records.len(), 2);
}
