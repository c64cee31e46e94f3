//! Composite responses assembled by the aggregation service.

use vstd::prelude::*;

use crate::models::{
    ReconFileMetaData, ReconFileMetaDataView, ReconTaskDetails, ReconTaskDetailsView,
};

verus! {

/// The composite response to a create or fetch request: the task record and
/// the hydrated metadata of whichever files the task already references.
#[derive(Clone, Debug, PartialEq, Eq)]
pub struct ReconTaskResponseDetails {
    pub task_id: String,
    pub task_details: ReconTaskDetails,
    pub primary_file_metadata: Option<ReconFileMetaData>,
    pub comparison_file_metadata: Option<ReconFileMetaData>,
}

/// Mathematical view of a [`ReconTaskResponseDetails`].
#[verifier::ext_equal]
pub ghost struct ReconTaskResponseDetailsView {
    pub task_id: Seq<char>,
    pub task_details: ReconTaskDetailsView,
    pub primary_file_metadata: Option<ReconFileMetaDataView>,
    pub comparison_file_metadata: Option<ReconFileMetaDataView>,
}

impl View for ReconTaskResponseDetails {
    type V = ReconTaskResponseDetailsView;

    open spec fn view(&self) -> ReconTaskResponseDetailsView {
        ReconTaskResponseDetailsView {
            task_id: self.task_id@,
            task_details: self.task_details@,
            primary_file_metadata: match self.primary_file_metadata {
                Some(ref m) => Some(m@),
                None => None,
            },
            comparison_file_metadata: match self.comparison_file_metadata {
                Some(ref m) => Some(m@),
                None => None,
            },
        }
    }
}

/// The summary returned by an attach-file operation.
#[derive(Clone, Debug, PartialEq, Eq)]
pub struct FileResponseSummary {
    pub file_id: String,
    pub task_id: String,
}

} // verus!
