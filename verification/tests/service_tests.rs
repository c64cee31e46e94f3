use recon_tasks::aggregator::{ReconTaskAggregationService, ReconTaskAggregationServiceInterface};
use recon_tasks::app_errors::AppErrorKind;
use recon_tasks::models::{ComparisonPair, ReconciliationConfigs};
use recon_tasks::repositories::{
    InMemoryReconFileDetailsRepository, InMemoryReconTaskDetailsRepository,
    ReconFileDetailsRepositoryInterface,
};
use recon_tasks::requests::{
    AttachComparisonFileRequest, AttachPrimaryFileRequest, CreateReconTaskRequest,
};
use recon_tasks::transformer::Transformer;

type Service = ReconTaskAggregationService<
    InMemoryReconTaskDetailsRepository,
    InMemoryReconFileDetailsRepository,
    Transformer,
>;

fn new_service() -> Service {
    ReconTaskAggregationService {
        recon_task_details_repo: InMemoryReconTaskDetailsRepository::new(),
        recon_file_details_repo: InMemoryReconFileDetailsRepository::new(),
        transformer: Transformer {},
    }
}

fn test_configs() -> ReconciliationConfigs {
    ReconciliationConfigs {
        should_check_for_duplicate_records_in_comparison_file: false,
        should_reconciliation_be_case_sensitive: true,
        should_ignore_white_space: true,
        should_do_reverse_reconciliation: false,
    }
}

fn test_create_request() -> CreateReconTaskRequest {
    CreateReconTaskRequest {
        user_id: String::from("test-user-id"),
        recon_configurations: test_configs(),
        comparison_pairs: vec![ComparisonPair {
            primary_file_column_index: 0,
            comparison_file_column_index: 0,
            is_row_identifier: true,
        }],
    }
}

#[test]
fn given_valid_create_recon_task_request_calls_correct_dependencies_returns_success() {
    let mut service = new_service();
    let result = service.create_recon_task(&test_create_request());
    assert!(result.is_ok());
    let resp = result.ok().unwrap();
    assert_eq!(resp.task_id, resp.task_details.id);
    assert!(resp.task_id.starts_with("RECON-TASK-"));
}

#[test]
fn given_that_invalid_create_recon_task_request_supplied_returns_error() {
    let mut service = new_service();
    let mut request = test_create_request();
    request.user_id = String::from("");
    let result = service.create_recon_task(&request);
    assert!(result.is_err());
}

#[test]
fn given_that_errors_occurs_when_handling_create_recon_task_request_returns_error() {
    let mut service = new_service();
    service
        .recon_task_details_repo
        .fail_next_request(AppErrorKind::ConnectionError);
    let result = service.create_recon_task(&test_create_request());
    assert!(result.is_err());
}

#[test]
fn created_task_has_no_file_references_and_prefixed_id() {
    let mut service = new_service();
    let resp = service.create_recon_task(&test_create_request()).unwrap();
    assert!(!resp.task_id.is_empty());
    assert!(resp.task_id.starts_with("RECON-TASK-"));
    assert_eq!(resp.task_details.primary_file_id, None);
    assert_eq!(resp.task_details.comparison_file_id, None);
    assert_eq!(resp.primary_file_metadata, None);
    assert_eq!(resp.comparison_file_metadata, None);
    assert!(!resp.task_details.is_done);
    assert!(resp.task_details.has_begun);
    assert_eq!(resp.task_details.comparison_pairs, test_create_request().comparison_pairs);
    assert_eq!(resp.task_details.recon_config, test_configs());
}

#[test]
fn created_task_queue_topics_derive_from_its_id() {
    let mut service = new_service();
    let resp = service.create_recon_task(&test_create_request()).unwrap();
    let id = resp.task_id.as_str();
    assert_eq!(
        resp.task_details.recon_results_queue_info.topic_id,
        format!("RECON-RESULTS-QUEUE-{}", id)
    );
    assert_eq!(
        resp.task_details.primary_file_chunks_queue_info.topic_id,
        format!("PRIMARY-FILE-QUEUE-{}", id)
    );
    assert_eq!(
        resp.task_details.comparison_file_chunks_queue_info.topic_id,
        format!("COMPARISON-FILE-QUEUE-{}", id)
    );
    assert_eq!(resp.task_details.recon_results_queue_info.last_acknowledged_id, None);
    assert_eq!(id.len(), "RECON-TASK-".len() + 36);
}

#[test]
fn get_task_with_empty_id_returns_bad_client_request() {
    let mut service = new_service();
    let result = service.get_recon_task(&String::from(""));
    let err = result.err().unwrap();
    assert_eq!(err.kind, AppErrorKind::BadClientRequest);
    assert_eq!(err.message, "please supply a taskID");
}

#[test]
fn get_task_with_unknown_id_returns_not_found() {
    let mut service = new_service();
    let result = service.get_recon_task(&String::from("RECON-TASK-does-not-exist"));
    let err = result.err().unwrap();
    assert_eq!(err.kind, AppErrorKind::NotFound);
}

#[test]
fn attaching_primary_file_then_fetching_yields_submitted_metadata() {
    let mut service = new_service();
    let created = service.create_recon_task(&test_create_request()).unwrap();
    let attach = AttachPrimaryFileRequest {
        task_id: created.task_id.clone(),
        primary_file_name: String::from("a.csv"),
        primary_file_hash: String::from("hash-a"),
        primary_file_row_count: 1000,
        primary_file_headers: vec![String::from("h1"), String::from("h2")],
        primary_file_delimiters: vec![String::from(",")],
    };
    let summary = service.attach_primary_file_to_task(&attach).unwrap();
    assert_eq!(summary.task_id, created.task_id);
    assert!(summary.file_id.starts_with("RECON-FILE-"));

    let fetched = service.get_recon_task(&created.task_id).unwrap();
    assert_eq!(fetched.task_details.primary_file_id, Some(summary.file_id.clone()));
    let meta = fetched.primary_file_metadata.unwrap();
    assert_eq!(meta.id, summary.file_id);
    assert_eq!(meta.file_name, "a.csv");
    assert_eq!(meta.row_count, 1000);
    assert_eq!(meta.column_headers, vec![String::from("h1"), String::from("h2")]);
    assert_eq!(meta.column_delimiters, vec![String::from(",")]);
    assert_eq!(meta.file_hash, "hash-a");
}

#[test]
fn create_then_attach_both_files_yields_three_distinct_ids() {
    let mut service = new_service();
    let create = CreateReconTaskRequest {
        user_id: String::from("u1"),
        recon_configurations: test_configs(),
        comparison_pairs: vec![ComparisonPair {
            primary_file_column_index: 0,
            comparison_file_column_index: 0,
            is_row_identifier: true,
        }],
    };
    let created = service.create_recon_task(&create).unwrap();
    let primary = AttachPrimaryFileRequest {
        task_id: created.task_id.clone(),
        primary_file_name: String::from("a.csv"),
        primary_file_hash: String::from("hash-a"),
        primary_file_row_count: 1000,
        primary_file_headers: vec![String::from("h1"), String::from("h2")],
        primary_file_delimiters: vec![String::from(",")],
    };
    let comparison = AttachComparisonFileRequest {
        task_id: created.task_id.clone(),
        comparison_file_name: String::from("b.csv"),
        comparison_file_hash: String::from("hash-b"),
        comparison_file_row_count: 10,
        comparison_file_headers: vec![String::from("h1")],
        comparison_file_delimiters: vec![String::from(",")],
    };
    let s1 = service.attach_primary_file_to_task(&primary).unwrap();
    let s2 = service.attach_comparison_file_to_task(&comparison).unwrap();

    let fetched = service.get_recon_task(&created.task_id).unwrap();
    assert!(!fetched.task_details.is_done);
    assert!(fetched.task_details.has_begun);
    assert_eq!(fetched.task_details.primary_file_id, Some(s1.file_id.clone()));
    assert_eq!(fetched.task_details.comparison_file_id, Some(s2.file_id.clone()));
    assert_ne!(s1.file_id, s2.file_id);
    assert_ne!(s1.file_id, created.task_id);
    assert_ne!(s2.file_id, created.task_id);
    assert_eq!(fetched.comparison_file_metadata.unwrap().file_name, "b.csv");
}

#[test]
fn connection_error_on_file_write_aborts_attach_and_leaves_task_unchanged() {
    let mut service = new_service();
    let created = service.create_recon_task(&test_create_request()).unwrap();
    service
        .recon_file_details_repo
        .fail_next_request(AppErrorKind::ConnectionError);
    let attach = AttachPrimaryFileRequest {
        task_id: created.task_id.clone(),
        primary_file_name: String::from("a.csv"),
        primary_file_hash: String::from("hash-a"),
        primary_file_row_count: 1000,
        primary_file_headers: vec![String::from("h1")],
        primary_file_delimiters: vec![String::from(",")],
    };
    let result = service.attach_primary_file_to_task(&attach);
    let err = result.err().unwrap();
    assert_eq!(err.kind, AppErrorKind::ConnectionError);

    let fetched = service.get_recon_task(&created.task_id).unwrap();
    assert_eq!(fetched.task_details.primary_file_id, None);
    assert_eq!(fetched.primary_file_metadata, None);
}

#[test]
fn connection_error_on_task_write_means_no_task_is_ever_written() {
    let mut service = new_service();
    service
        .recon_task_details_repo
        .fail_next_request(AppErrorKind::ConnectionError);
    let result = service.create_recon_task(&test_create_request());
    let err = result.err().unwrap();
    assert_eq!(err.kind, AppErrorKind::ConnectionError);
}

#[test]
fn get_task_with_dangling_file_reference_propagates_not_found() {
    let mut service = new_service();
    let created = service.create_recon_task(&test_create_request()).unwrap();
    let attach = AttachPrimaryFileRequest {
        task_id: created.task_id.clone(),
        primary_file_name: String::from("a.csv"),
        primary_file_hash: String::from("hash-a"),
        primary_file_row_count: 1,
        primary_file_headers: vec![String::from("h1")],
        primary_file_delimiters: vec![String::from(",")],
    };
    let summary = service.attach_primary_file_to_task(&attach).unwrap();
    assert!(service
        .recon_file_details_repo
        .delete_recon_file_details(&summary.file_id)
        .unwrap());
    let err = service.get_recon_task(&created.task_id).err().unwrap();
    assert_eq!(err.kind, AppErrorKind::NotFound);
}

#[test]
fn attaching_comparison_file_sets_only_the_comparison_reference() {
    let mut service = new_service();
    let created = service.create_recon_task(&test_create_request()).unwrap();
    let attach = AttachComparisonFileRequest {
        task_id: created.task_id.clone(),
        comparison_file_name: String::from("b.csv"),
        comparison_file_hash: String::from("hash-b"),
        comparison_file_row_count: 10,
        comparison_file_headers: vec![String::from("h1")],
        comparison_file_delimiters: vec![String::from(",")],
    };
    let summary = service.attach_comparison_file_to_task(&attach).unwrap();
    let fetched = service.get_recon_task(&created.task_id).unwrap();
    assert_eq!(fetched.task_details.primary_file_id, None);
    assert_eq!(fetched.task_details.comparison_file_id, Some(summary.file_id));
    assert_eq!(fetched.primary_file_metadata, None);
    let meta = fetched.comparison_file_metadata.unwrap();
    assert_eq!(meta.file_name, "b.csv");
    assert_eq!(meta.row_count, 10);
    assert_eq!(meta.file_hash, "hash-b");
}
