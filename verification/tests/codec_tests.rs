use recon_tasks::codec::{
    decode_file_metadata, decode_task_details, encode_file_metadata, encode_task_details,
};
use recon_tasks::models::{
    ComparisonPair, FileChunkQueue, ReconFileMetaData, ReconFileType, ReconTaskDetails,
    ReconciliationConfigs,
};

fn sample_task() -> ReconTaskDetails {
    ReconTaskDetails {
        id: String::from("RECON-TASK-0001"),
        primary_file_id: Some(String::from("RECON-FILE-0002")),
        comparison_file_id: None,
        is_done: false,
        has_begun: true,
        comparison_pairs: vec![
            ComparisonPair {
                primary_file_column_index: 0,
                comparison_file_column_index: 3,
                is_row_identifier: true,
            },
            ComparisonPair {
                primary_file_column_index: 7,
                comparison_file_column_index: 1,
                is_row_identifier: false,
            },
        ],
        recon_config: ReconciliationConfigs {
            should_check_for_duplicate_records_in_comparison_file: true,
            should_reconciliation_be_case_sensitive: false,
            should_ignore_white_space: true,
            should_do_reverse_reconciliation: false,
        },
        recon_results_queue_info: FileChunkQueue {
            topic_id: String::from("RECON-RESULTS-QUEUE-RECON-TASK-0001"),
            last_acknowledged_id: Some(String::from("offset-17")),
        },
        primary_file_chunks_queue_info: FileChunkQueue {
            topic_id: String::from("PRIMARY-FILE-QUEUE-RECON-TASK-0001"),
            last_acknowledged_id: None,
        },
        comparison_file_chunks_queue_info: FileChunkQueue {
            topic_id: String::from("COMPARISON-FILE-QUEUE-RECON-TASK-0001"),
            last_acknowledged_id: None,
        },
    }
}

fn sample_file() -> ReconFileMetaData {
    ReconFileMetaData {
        id: String::from("RECON-FILE-0002"),
        file_name: String::from("ve\u{301}rite\u{301}-\u{1F4C4}.csv"),
        row_count: 18446744073709551615,
        column_delimiters: vec![String::from(","), String::from(";")],
        recon_file_type: ReconFileType::PrimaryFile,
        column_headers: vec![String::from("h1"), String::from(""), String::from("日付")],
        file_hash: String::from("abcdef0123456789"),
    }
}

#[test]
fn task_record_encoding_round_trips() {
    let task = sample_task();
    let bytes = encode_task_details(&task);
    let decoded = decode_task_details(&bytes);
    assert_eq!(decoded, Some(task));
}

#[test]
fn file_metadata_encoding_round_trips() {
    let file = sample_file();
    let bytes = encode_file_metadata(&file);
    let decoded = decode_file_metadata(&bytes);
    assert_eq!(decoded, Some(file));
}

#[test]
fn minimal_records_round_trip() {
    let task = ReconTaskDetails {
        id: String::from(""),
        primary_file_id: None,
        comparison_file_id: None,
        is_done: false,
        has_begun: false,
        comparison_pairs: vec![],
        recon_config: ReconciliationConfigs {
            should_check_for_duplicate_records_in_comparison_file: false,
            should_reconciliation_be_case_sensitive: false,
            should_ignore_white_space: false,
            should_do_reverse_reconciliation: false,
        },
        recon_results_queue_info: FileChunkQueue {
            topic_id: String::from(""),
            last_acknowledged_id: None,
        },
        primary_file_chunks_queue_info: FileChunkQueue {
            topic_id: String::from(""),
            last_acknowledged_id: None,
        },
        comparison_file_chunks_queue_info: FileChunkQueue {
            topic_id: String::from(""),
            last_acknowledged_id: Some(String::from("")),
        },
    };
    let bytes = encode_task_details(&task);
    assert_eq!(decode_task_details(&bytes), Some(task));

    let file = ReconFileMetaData {
        id: String::from(""),
        file_name: String::from(""),
        row_count: 0,
        column_delimiters: vec![],
        recon_file_type: ReconFileType::ComparisonFile,
        column_headers: vec![],
        file_hash: String::from(""),
    };
    let bytes = encode_file_metadata(&file);
    assert_eq!(decode_file_metadata(&bytes), Some(file));
}

#[test]
fn decoding_rejects_garbage_and_truncation() {
    assert_eq!(decode_task_details(&vec![]), None);
    assert_eq!(decode_file_metadata(&vec![]), None);
    assert_eq!(decode_task_details(&vec![0xffu8; 11]), None);

    let bytes = encode_task_details(&sample_task());
    let truncated: Vec<u8> = bytes[..bytes.len() - 1].to_vec();
    assert_eq!(decode_task_details(&truncated), None);

    let mut padded = bytes.clone();
    padded.push(0);
    assert_eq!(decode_task_details(&padded), None);

    let file_bytes = encode_file_metadata(&sample_file());
    assert_eq!(decode_task_details(&file_bytes), None);
}

#[test]
fn task_and_file_encodings_are_self_describing() {
    let bytes = encode_file_metadata(&sample_file());
    let reparsed = decode_file_metadata(&bytes).unwrap();
    assert_eq!(reparsed.file_name, "ve\u{301}rite\u{301}-\u{1F4C4}.csv");
    assert_eq!(reparsed.row_count, u64::MAX);
    assert_eq!(reparsed.column_headers[2], "日付");
}
