use recon_tasks::app_errors::AppErrorKind;
use recon_tasks::models::{
    ComparisonPair, FileChunkQueue, ReconFileMetaData, ReconFileType, ReconTaskDetails,
    ReconciliationConfigs,
};
use recon_tasks::repositories::{
    InMemoryReconFileDetailsRepository, InMemoryReconTaskDetailsRepository,
    ReconFileDetailsRepositoryInterface, ReconTaskDetailsRepositoryInterface,
};

fn task(id: &str, done: bool) -> ReconTaskDetails {
    ReconTaskDetails {
        id: String::from(id),
        primary_file_id: None,
        comparison_file_id: None,
        is_done: done,
        has_begun: true,
        comparison_pairs: vec![ComparisonPair {
            primary_file_column_index: 2,
            comparison_file_column_index: 5,
            is_row_identifier: false,
        }],
        recon_config: ReconciliationConfigs {
            should_check_for_duplicate_records_in_comparison_file: false,
            should_reconciliation_be_case_sensitive: false,
            should_ignore_white_space: true,
            should_do_reverse_reconciliation: true,
        },
        recon_results_queue_info: FileChunkQueue {
            topic_id: format!("RECON-RESULTS-QUEUE-{}", id),
            last_acknowledged_id: None,
        },
        primary_file_chunks_queue_info: FileChunkQueue {
            topic_id: format!("PRIMARY-FILE-QUEUE-{}", id),
            last_acknowledged_id: None,
        },
        comparison_file_chunks_queue_info: FileChunkQueue {
            topic_id: format!("COMPARISON-FILE-QUEUE-{}", id),
            last_acknowledged_id: None,
        },
    }
}

fn file(id: &str) -> ReconFileMetaData {
    ReconFileMetaData {
        id: String::from(id),
        file_name: String::from("data.csv"),
        row_count: 3,
        column_delimiters: vec![String::from("|")],
        recon_file_type: ReconFileType::ComparisonFile,
        column_headers: vec![String::from("k"), String::from("v")],
        file_hash: String::from("deadbeef"),
    }
}

#[test]
fn stored_task_is_returned_unchanged() {
    let mut repo = InMemoryReconTaskDetailsRepository::new();
    let t = task("RECON-TASK-a", false);
    let id = repo.create_task_details(&t).unwrap();
    assert_eq!(id, "RECON-TASK-a");
    let got = repo.get_task_details(&id).unwrap();
    assert_eq!(got, t);
}

#[test]
fn updating_a_task_overwrites_it_under_the_same_key() {
    let mut repo = InMemoryReconTaskDetailsRepository::new();
    let t = task("RECON-TASK-b", false);
    repo.create_task_details(&t).unwrap();
    let t2 = task("RECON-TASK-b", true);
    let updated = repo.update_task_details(&t2).unwrap();
    assert_eq!(updated, t2);
    let got = repo.get_task_details(&String::from("RECON-TASK-b")).unwrap();
    assert!(got.is_done);
}

#[test]
fn deleting_a_task_makes_it_unfindable() {
    let mut repo = InMemoryReconTaskDetailsRepository::new();
    let t = task("RECON-TASK-c", false);
    repo.create_task_details(&t).unwrap();
    assert!(repo.delete_task_details(&t.id).unwrap());
    let err = repo.get_task_details(&t.id).err().unwrap();
    assert_eq!(err.kind, AppErrorKind::NotFound);
}

#[test]
fn stored_file_metadata_is_returned_unchanged() {
    let mut repo = InMemoryReconFileDetailsRepository::new();
    let f = file("RECON-FILE-a");
    let id = repo.create_recon_file_details(&f).unwrap();
    let got = repo.get_recon_file_details(&id).unwrap();
    assert_eq!(got, f);
    let f2 = ReconFileMetaData { row_count: 99, ..file("RECON-FILE-a") };
    let updated = repo.update_recon_file_details(&f2).unwrap();
    assert_eq!(updated.row_count, 99);
    assert!(repo.delete_recon_file_details(&f.id).unwrap());
    assert!(repo.get_recon_file_details(&f.id).is_err());
}

#[test]
fn injected_fault_fails_exactly_one_operation() {
    let mut repo = InMemoryReconTaskDetailsRepository::new();
    repo.fail_next_request(AppErrorKind::InternalError);
    let t = task("RECON-TASK-d", false);
    let err = repo.create_task_details(&t).err().unwrap();
    assert_eq!(err.kind, AppErrorKind::InternalError);
    assert!(repo.create_task_details(&t).is_ok());
    repo.fail_next_request(AppErrorKind::ConnectionError);
    let err = repo.get_task_details(&t.id).err().unwrap();
    assert_eq!(err.kind, AppErrorKind::NotFound);
}
