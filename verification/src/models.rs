//! The records that the core persists, and their mathematical views.
//!
//! Each record type has a ghost view struct whose fields are `Seq`,
//! `Option<Seq>` and plain values; every contract in this crate speaks of
//! records through these views.

use vstd::prelude::*;

verus! {

/// One column-matching rule of a reconciliation task.
#[derive(Clone, Copy, Debug, PartialEq, Eq, Structural)]
pub struct ComparisonPair {
    pub primary_file_column_index: usize,
    pub comparison_file_column_index: usize,
    pub is_row_identifier: bool,
}

/// The flag set controlling how a reconciliation is carried out.
#[derive(Clone, Copy, Debug, PartialEq, Eq, Structural)]
pub struct ReconciliationConfigs {
    pub should_check_for_duplicate_records_in_comparison_file: bool,
    pub should_reconciliation_be_case_sensitive: bool,
    pub should_ignore_white_space: bool,
    pub should_do_reverse_reconciliation: bool,
}

/// The role a data file plays in a reconciliation task.
#[derive(Clone, Copy, Debug, PartialEq, Eq, Structural)]
pub enum ReconFileType {
    PrimaryFile,
    ComparisonFile,
}

/// A queue-topic reference held by a task record: a topic identifier and an
/// optional last-acknowledged-offset marker.
#[derive(Clone, Debug, PartialEq, Eq)]
pub struct FileChunkQueue {
    pub topic_id: String,
    pub last_acknowledged_id: Option<String>,
}

/// Mathematical view of a [`FileChunkQueue`].
#[verifier::ext_equal]
pub ghost struct FileChunkQueueView {
    pub topic_id: Seq<char>,
    pub last_acknowledged_id: Option<Seq<char>>,
}

impl View for FileChunkQueue {
    type V = FileChunkQueueView;

    open spec fn view(&self) -> FileChunkQueueView {
        FileChunkQueueView {
            topic_id: self.topic_id@,
            last_acknowledged_id: match self.last_acknowledged_id {
                Some(ref s) => Some(s@),
                None => None,
            },
        }
    }
}

/// A reconciliation task record: the comparison job between a primary file
/// and a comparison file, its column-matching rules and options, and the
/// three queue topics downstream pipelines consume.
#[derive(Clone, Debug, PartialEq, Eq)]
pub struct ReconTaskDetails {
    pub id: String,
    pub primary_file_id: Option<String>,
    pub comparison_file_id: Option<String>,
    pub is_done: bool,
    pub has_begun: bool,
    pub comparison_pairs: Vec<ComparisonPair>,
    pub recon_config: ReconciliationConfigs,
    pub recon_results_queue_info: FileChunkQueue,
    pub primary_file_chunks_queue_info: FileChunkQueue,
    pub comparison_file_chunks_queue_info: FileChunkQueue,
}

/// Mathematical view of a [`ReconTaskDetails`] record.
#[verifier::ext_equal]
pub ghost struct ReconTaskDetailsView {
    pub id: Seq<char>,
    pub primary_file_id: Option<Seq<char>>,
    pub comparison_file_id: Option<Seq<char>>,
    pub is_done: bool,
    pub has_begun: bool,
    pub comparison_pairs: Seq<ComparisonPair>,
    pub recon_config: ReconciliationConfigs,
    pub recon_results_queue_info: FileChunkQueueView,
    pub primary_file_chunks_queue_info: FileChunkQueueView,
    pub comparison_file_chunks_queue_info: FileChunkQueueView,
}

impl View for ReconTaskDetails {
    type V = ReconTaskDetailsView;

    open spec fn view(&self) -> ReconTaskDetailsView {
        ReconTaskDetailsView {
            id: self.id@,
            primary_file_id: match self.primary_file_id {
                Some(ref s) => Some(s@),
                None => None,
            },
            comparison_file_id: match self.comparison_file_id {
                Some(ref s) => Some(s@),
                None => None,
            },
            is_done: self.is_done,
            has_begun: self.has_begun,
            comparison_pairs: self.comparison_pairs@,
            recon_config: self.recon_config,
            recon_results_queue_info: self.recon_results_queue_info@,
            primary_file_chunks_queue_info: self.primary_file_chunks_queue_info@,
            comparison_file_chunks_queue_info: self.comparison_file_chunks_queue_info@,
        }
    }
}

/// The metadata record of one uploaded data file.  Immutable once created.
#[derive(Clone, Debug, PartialEq, Eq)]
pub struct ReconFileMetaData {
    pub id: String,
    pub file_name: String,
    pub row_count: u64,
    pub column_delimiters: Vec<String>,
    pub recon_file_type: ReconFileType,
    pub column_headers: Vec<String>,
    pub file_hash: String,
}

/// Mathematical view of a [`ReconFileMetaData`] record.
#[verifier::ext_equal]
pub ghost struct ReconFileMetaDataView {
    pub id: Seq<char>,
    pub file_name: Seq<char>,
    pub row_count: u64,
    pub column_delimiters: Seq<Seq<char>>,
    pub recon_file_type: ReconFileType,
    pub column_headers: Seq<Seq<char>>,
    pub file_hash: Seq<char>,
}

impl View for ReconFileMetaData {
    type V = ReconFileMetaDataView;

    open spec fn view(&self) -> ReconFileMetaDataView {
        ReconFileMetaDataView {
            id: self.id@,
            file_name: self.file_name@,
            row_count: self.row_count,
            column_delimiters: self.column_delimiters.deep_view(),
            recon_file_type: self.recon_file_type,
            column_headers: self.column_headers.deep_view(),
            file_hash: self.file_hash@,
        }
    }
}

} // verus!
