use smartos_executor::jobs::{ImageImportParams, ImportQueue, ImportStatus};
use smartos_executor::runner::GatewayError;

fn params(name: &str) -> ImageImportParams {
    ImageImportParams {
        url: "https://images.smartos.org/".to_string(),
        name: name.to_string(),
        version: "1.0".to_string(),
        image_type: "zone-dataset".to_string(),
        os: "smartos".to_string(),
    }
}

const IMG_1: u128 = 0x1111_2222_3333_4444_5555_6666_7777_8888;
const IMG_2: u128 = 0x9999_aaaa_bbbb_cccc_dddd_eeee_ffff_0000;

#[test]
fn import_conflict_failure_and_retry_scenario() {
    let mut q = ImportQueue::new();
    assert_eq!(q.try_begin(IMG_1, params("base")), Ok(None));
    assert_eq!(q.try_begin(IMG_1, params("base")), Err(GatewayError::Conflict(IMG_1)));
    assert!(q.mark_failed(IMG_1, "network timeout".to_string()));
    let rows = q.reconcile(&Vec::new());
    assert_eq!(rows.len(), 1);
    assert_eq!(rows[0].id, IMG_1);
    assert!(matches!(&rows[0].status, ImportStatus::Failed(m) if m == "network timeout"));
    assert_eq!(q.try_begin(IMG_1, params("base")), Ok(Some("network timeout".to_string())));
    assert!(matches!(q.status(IMG_1), Some(ImportStatus::Importing)));
}

#[test]
fn many_requests_for_one_id_admit_one() {
    let mut q = ImportQueue::new();
    let results: Vec<bool> = (0..8).map(|_| q.try_begin(IMG_1, params("base")).is_ok()).collect();
    assert_eq!(results.iter().filter(|ok| **ok).count(), 1);
    assert!(results[0]);
}

#[test]
fn retry_after_failure_is_accepted() {
    let mut q = ImportQueue::new();
    q.try_begin(IMG_2, params("lx")).unwrap();
    q.mark_failed(IMG_2, "boom".to_string());
    assert!(matches!(q.status(IMG_2), Some(ImportStatus::Failed(m)) if m == "boom"));
    assert!(q.try_begin(IMG_2, params("lx")).is_ok());
}

#[test]
fn listed_import_is_reconciled_away() {
    let mut q = ImportQueue::new();
    q.try_begin(IMG_1, params("one")).unwrap();
    q.try_begin(IMG_2, params("two")).unwrap();
    let rows = q.reconcile(&vec![IMG_1, 42]);
    assert_eq!(rows.len(), 1);
    assert_eq!(rows[0].id, IMG_2);
    assert_eq!(rows[0].params.name, "two");
    assert!(q.status(IMG_1).is_none());
    assert!(q.status(IMG_2).is_some());
    assert!(q.try_begin(IMG_1, params("one")).is_ok());
}

#[test]
fn completed_import_leaves_the_queue() {
    let mut q = ImportQueue::new();
    assert!(q.is_empty());
    q.try_begin(IMG_1, params("one")).unwrap();
    assert!(!q.is_empty());
    let job = q.complete(IMG_1).unwrap();
    assert_eq!(job.params.name, "one");
    assert!(q.is_empty());
    assert!(q.complete(IMG_1).is_none());
    assert!(!q.mark_failed(IMG_1, "late".to_string()));
    assert!(q.is_empty());
}

#[test]
fn reconcile_keeps_order_of_acceptance() {
    let mut q = ImportQueue::new();
    q.try_begin(IMG_2, params("two")).unwrap();
    q.try_begin(IMG_1, params("one")).unwrap();
    let rows = q.reconcile(&Vec::new());
    assert_eq!(rows.iter().map(|j| j.id).collect::<Vec<_>>(), vec![IMG_2, IMG_1]);
}
