use recon_tasks::app_errors::{AppError, AppErrorKind};
use recon_tasks::models::ReconciliationConfigs;
use recon_tasks::requests::{
    AttachComparisonFileRequest, AttachPrimaryFileRequest, CreateReconTaskRequest,
};
use recon_tasks::settings::AppSettings;

fn configs() -> ReconciliationConfigs {
    ReconciliationConfigs {
        should_check_for_duplicate_records_in_comparison_file: true,
        should_reconciliation_be_case_sensitive: true,
        should_ignore_white_space: true,
        should_do_reverse_reconciliation: true,
    }
}

#[test]
fn create_request_without_user_id_reports_the_rule() {
    let request = CreateReconTaskRequest {
        user_id: String::from(""),
        recon_configurations: configs(),
        comparison_pairs: vec![],
    };
    let err = request.validate().err().unwrap();
    assert_eq!(err.kind, AppErrorKind::BadClientRequest);
    assert_eq!(err.message, "please supply a user_id");
}

#[test]
fn create_request_with_user_id_is_valid() {
    let request = CreateReconTaskRequest {
        user_id: String::from("u"),
        recon_configurations: configs(),
        comparison_pairs: vec![],
    };
    assert!(request.validate().is_ok());
}

#[test]
fn attach_primary_request_reports_every_violated_rule_joined_by_semicolons() {
    let request = AttachPrimaryFileRequest {
        task_id: String::from(""),
        primary_file_name: String::from(""),
        primary_file_hash: String::from(""),
        primary_file_row_count: 0,
        primary_file_headers: vec![],
        primary_file_delimiters: vec![],
    };
    let err = request.validate().err().unwrap();
    assert_eq!(err.kind, AppErrorKind::BadClientRequest);
    assert_eq!(
        err.message,
        "please supply a task_id; please supply a primary_file_name; \
         please supply a primary_file_hash; please supply a primary_file_row_count; \
         please supply the primary_file_headers; please supply the primary_file_delimiters"
    );
}

#[test]
fn attach_primary_request_reports_only_the_violated_rules() {
    let request = AttachPrimaryFileRequest {
        task_id: String::from("RECON-TASK-1"),
        primary_file_name: String::from("a.csv"),
        primary_file_hash: String::from(""),
        primary_file_row_count: 12,
        primary_file_headers: vec![String::from("h")],
        primary_file_delimiters: vec![],
    };
    let err = request.validate().err().unwrap();
    assert_eq!(
        err.message,
        "please supply a primary_file_hash; please supply the primary_file_delimiters"
    );
}

#[test]
fn valid_attach_requests_pass_validation() {
    let primary = AttachPrimaryFileRequest {
        task_id: String::from("RECON-TASK-1"),
        primary_file_name: String::from("a.csv"),
        primary_file_hash: String::from("h"),
        primary_file_row_count: 1,
        primary_file_headers: vec![String::from("h")],
        primary_file_delimiters: vec![String::from(",")],
    };
    assert!(primary.validate().is_ok());
    let comparison = AttachComparisonFileRequest {
        task_id: String::from("RECON-TASK-1"),
        comparison_file_name: String::from("b.csv"),
        comparison_file_hash: String::from("h"),
        comparison_file_row_count: 1,
        comparison_file_headers: vec![String::from("h")],
        comparison_file_delimiters: vec![String::from(",")],
    };
    assert!(comparison.validate().is_ok());
}

#[test]
fn attach_comparison_request_with_zero_rows_is_rejected() {
    let request = AttachComparisonFileRequest {
        task_id: String::from("RECON-TASK-1"),
        comparison_file_name: String::from("b.csv"),
        comparison_file_hash: String::from("h"),
        comparison_file_row_count: 0,
        comparison_file_headers: vec![String::from("h")],
        comparison_file_delimiters: vec![String::from(",")],
    };
    let err = request.validate().err().unwrap();
    assert_eq!(err.kind, AppErrorKind::BadClientRequest);
    assert_eq!(err.message, "please supply a comparison_file_row_count");
}

#[test]
fn error_kinds_render_their_stable_names() {
    assert_eq!(AppErrorKind::NotFound.as_str(), "TaskNotFound");
    assert_eq!(AppErrorKind::InternalError.as_str(), "InternalError");
    assert_eq!(AppErrorKind::ConnectionError.as_str(), "ConnectionError");
    assert_eq!(AppErrorKind::ResponseUnmarshalError.as_str(), "ResponseUnmarshalError");
    assert_eq!(AppErrorKind::BadClientRequest.as_str(), "BadClientRequest");
    let err = AppError::new(AppErrorKind::NotFound, String::from("gone"));
    assert_eq!(err.kind, AppErrorKind::NotFound);
    assert_eq!(err.message, "gone");
}

#[test]
fn app_settings_fill_defaults_for_absent_values() {
    let defaults = AppSettings::from_env_values(None, None, None, None);
    assert_eq!(defaults.app_port, "8080");
    assert_eq!(defaults.app_ip, "0.0.0.0");
    assert_eq!(defaults.dapr_grpc_server_address, "http://localhost:5005");
    assert_eq!(defaults.dapr_state_store_name, "statestore");

    let given = AppSettings::from_env_values(
        Some(String::from("9000")),
        Some(String::from("127.0.0.1")),
        Some(String::from("http://sidecar:50001")),
        Some(String::from("tasks")),
    );
    assert_eq!(given.app_port, "9000");
    assert_eq!(given.app_ip, "127.0.0.1");
    assert_eq!(given.dapr_grpc_server_address, "http://sidecar:50001");
    assert_eq!(given.dapr_state_store_name, "tasks");
}
