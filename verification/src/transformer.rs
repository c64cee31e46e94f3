//! Pure record construction: identifier generation, queue-topic naming, and
//! mapping of inbound requests to records.

use vstd::prelude::*;
use vstd::string::StringExecFns;

use crate::models::{
    ComparisonPair, FileChunkQueue, ReconFileMetaData, ReconFileMetaDataView, ReconFileType,
    ReconTaskDetails, ReconTaskDetailsView, ReconciliationConfigs,
};
use crate::requests::{
    AttachComparisonFileRequest, AttachPrimaryFileRequest, CreateReconTaskRequest,
};
use crate::responses::ReconTaskResponseDetails;

verus! {

/// The human-readable prefix of every task record identifier.
pub open spec fn task_id_prefix() -> Seq<char> {
    "RECON-TASK"@
}

/// The human-readable prefix of every file-metadata record identifier.
pub open spec fn file_id_prefix() -> Seq<char> {
    "RECON-FILE"@
}

/// The prefix of the results-queue topic of a task.
pub open spec fn results_queue_prefix() -> Seq<char> {
    "RECON-RESULTS-QUEUE"@
}

/// The prefix of the primary-file chunk-queue topic of a task.
pub open spec fn primary_queue_prefix() -> Seq<char> {
    "PRIMARY-FILE-QUEUE"@
}

/// The prefix of the comparison-file chunk-queue topic of a task.
pub open spec fn comparison_queue_prefix() -> Seq<char> {
    "COMPARISON-FILE-QUEUE"@
}

/// `s` is `p`, a dash, and a 36-character random identifier.
pub open spec fn has_id_prefix(s: Seq<char>, p: Seq<char>) -> bool {
    &&& s.len() == p.len() + 37
    &&& s.subrange(0, p.len() as int) == p
    &&& s[p.len() as int] == '-'
}

/// The topic name generated for queue prefix `p` and task identifier `tid`.
pub open spec fn topic_for(p: Seq<char>, tid: Seq<char>) -> Seq<char> {
    p + "-"@ + tid
}

/// A task record freshly built for a create request carrying `pairs` and
/// `cfg`: no file references, begun but not done, its three queue topics
/// derived from its own identifier.
pub open spec fn is_new_task_for(
    t: ReconTaskDetailsView,
    pairs: Seq<ComparisonPair>,
    cfg: ReconciliationConfigs,
) -> bool {
    &&& has_id_prefix(t.id, task_id_prefix())
    &&& t.primary_file_id is None
    &&& t.comparison_file_id is None
    &&& !t.is_done
    &&& t.has_begun
    &&& t.comparison_pairs == pairs
    &&& t.recon_config == cfg
    &&& t.recon_results_queue_info.topic_id == topic_for(results_queue_prefix(), t.id)
    &&& t.recon_results_queue_info.last_acknowledged_id is None
    &&& t.primary_file_chunks_queue_info.topic_id == topic_for(primary_queue_prefix(), t.id)
    &&& t.primary_file_chunks_queue_info.last_acknowledged_id is None
    &&& t.comparison_file_chunks_queue_info.topic_id == topic_for(comparison_queue_prefix(), t.id)
    &&& t.comparison_file_chunks_queue_info.last_acknowledged_id is None
}

/// A file-metadata record built from the primary-file attach request `q`.
pub open spec fn is_primary_file_for(m: ReconFileMetaDataView, q: AttachPrimaryFileRequest) -> bool {
    &&& has_id_prefix(m.id, file_id_prefix())
    &&& m.file_name == q.primary_file_name@
    &&& m.row_count == q.primary_file_row_count
    &&& m.recon_file_type == ReconFileType::PrimaryFile
    &&& m.file_hash == q.primary_file_hash@
    &&& m.column_delimiters == q.primary_file_delimiters.deep_view()
    &&& m.column_headers == q.primary_file_headers.deep_view()
}

/// A file-metadata record built from the comparison-file attach request `q`.
pub open spec fn is_comparison_file_for(
    m: ReconFileMetaDataView,
    q: AttachComparisonFileRequest,
) -> bool {
    &&& has_id_prefix(m.id, file_id_prefix())
    &&& m.file_name == q.comparison_file_name@
    &&& m.row_count == q.comparison_file_row_count
    &&& m.recon_file_type == ReconFileType::ComparisonFile
    &&& m.file_hash == q.comparison_file_hash@
    &&& m.column_delimiters == q.comparison_file_delimiters.deep_view()
    &&& m.column_headers == q.comparison_file_headers.deep_view()
}

/// Relies on uuid::Uuid::new_v4 and its `Display` impl: a fresh random
/// identifier, rendered in the hyphenated form of 36 characters, each a
/// lowercase hexadecimal digit or a dash.
#[verifier::external_body]
fn new_v4_string() -> (r: String)
    ensures
        r@.len() == 36,
        forall|i: int|
            0 <= i < 36 ==> (#[trigger] r@[i] == '-' || ('0' <= r@[i] && r@[i] <= '9') || ('a'
                <= r@[i] && r@[i] <= 'f')),
{
    uuid::Uuid::new_v4().to_string()
}

/// Copies a list of strings.
fn clone_strings(v: &Vec<String>) -> (r: Vec<String>)
    ensures
        r.deep_view() == v.deep_view(),
{
    let mut r: Vec<String> = Vec::new();
    let mut i: usize = 0;
    while i < v.len()
        invariant
            i <= v@.len(),
            r@.len() == i,
            forall|j: int| 0 <= j < i ==> (#[trigger] r@[j])@ == v@[j]@,
        decreases v@.len() - i,
    {
        let s = v[i].clone();
        r.push(s);
        i += 1;
    }
    proof {
        assert forall|j: int| 0 <= j < v@.len() implies r.deep_view()[j] == v.deep_view()[j] by {
            assert(r@[j]@ == v@[j]@);
        }
        assert(r.deep_view() =~= v.deep_view());
    }
    r
}

/// Copies a list of column-pair rules.
fn clone_pairs(v: &Vec<ComparisonPair>) -> (r: Vec<ComparisonPair>)
    ensures
        r@ == v@,
{
    let mut r: Vec<ComparisonPair> = Vec::new();
    let mut i: usize = 0;
    while i < v.len()
        invariant
            i <= v@.len(),
            r@ == v@.take(i as int),
        decreases v@.len() - i,
    {
        r.push(v[i]);
        proof {
            assert(r@ =~= v@.take(i + 1));
        }
        i += 1;
    }
    proof {
        assert(v@.take(v@.len() as int) =~= v@);
    }
    r
}

/// Maps inbound requests to records and assembles composite responses.
pub trait TransformerInterface: Sized {
    /// Assembles the composite response for a task and the metadata of
    /// whichever files it references.
    fn build_recon_task_details_response(
        &self,
        task_details: ReconTaskDetails,
        primary_file_metadata: Option<ReconFileMetaData>,
        comparison_file_metadata: Option<ReconFileMetaData>,
    ) -> (r: ReconTaskResponseDetails)
        ensures
            r.task_id@ == task_details@.id,
            r.task_details == task_details,
            r.primary_file_metadata == primary_file_metadata,
            r.comparison_file_metadata == comparison_file_metadata,
    ;

    /// Builds the primary file-metadata record for an attach request,
    /// generating a fresh prefixed identifier.
    fn get_primary_file_details(&self, request: &AttachPrimaryFileRequest) -> (r: ReconFileMetaData)
        ensures
            is_primary_file_for(r@, *request),
    ;

    /// Builds the comparison file-metadata record for an attach request,
    /// generating a fresh prefixed identifier.
    fn get_comparison_file_details(&self, request: &AttachComparisonFileRequest) -> (r:
        ReconFileMetaData)
        ensures
            is_comparison_file_for(r@, *request),
    ;

    /// Builds the task record for a create request: a fresh prefixed
    /// identifier, no file references, and the three queue topics.
    fn get_recon_task_details(&self, request: &CreateReconTaskRequest) -> (r: ReconTaskDetails)
        ensures
            is_new_task_for(r@, request.comparison_pairs@, request.recon_configurations),
    ;
}

/// The concrete transformer used by the service.
pub struct Transformer {}

impl Transformer {
    /// A fresh identifier `{prefix}-{random}`.
    fn generate_uuid(&self, prefix: &str) -> (r: String)
        ensures
            has_id_prefix(r@, prefix@),
    {
        let suffix = new_v4_string();
        let mut id = prefix.to_owned();
        id.append("-");
        id.append(suffix.as_str());
        proof {
            reveal_strlit("-");
            assert(id@.subrange(0, prefix@.len() as int) =~= prefix@);
            assert(id@[prefix@.len() as int] == '-');
        }
        id
    }

    /// The queue reference `{prefix}-{task id}` with no acknowledged offset.
    fn generate_queue_topic(&self, prefix: &str, task_id: &String) -> (q: FileChunkQueue)
        ensures
            q@.topic_id == topic_for(prefix@, task_id@),
            q@.last_acknowledged_id is None,
    {
        let mut topic = prefix.to_owned();
        topic.append("-");
        topic.append(task_id.as_str());
        proof {
            assert(topic@ =~= topic_for(prefix@, task_id@));
        }
        FileChunkQueue { topic_id: topic, last_acknowledged_id: None }
    }
}

impl TransformerInterface for Transformer {
    fn build_recon_task_details_response(
        &self,
        task_details: ReconTaskDetails,
        primary_file_metadata: Option<ReconFileMetaData>,
        comparison_file_metadata: Option<ReconFileMetaData>,
    ) -> (r: ReconTaskResponseDetails) {
        let task_id = task_details.id.clone();
        ReconTaskResponseDetails {
            task_id,
            task_details,
            primary_file_metadata,
            comparison_file_metadata,
        }
    }

    fn get_primary_file_details(&self, request: &AttachPrimaryFileRequest) -> (r:
        ReconFileMetaData) {
        ReconFileMetaData {
            id: self.generate_uuid("RECON-FILE"),
            file_name: request.primary_file_name.clone(),
            row_count: request.primary_file_row_count,
            recon_file_type: ReconFileType::PrimaryFile,
            file_hash: request.primary_file_hash.clone(),
            column_delimiters: clone_strings(&request.primary_file_delimiters),
            column_headers: clone_strings(&request.primary_file_headers),
        }
    }

    fn get_comparison_file_details(&self, request: &AttachComparisonFileRequest) -> (r:
        ReconFileMetaData) {
        ReconFileMetaData {
            id: self.generate_uuid("RECON-FILE"),
            file_name: request.comparison_file_name.clone(),
            row_count: request.comparison_file_row_count,
            recon_file_type: ReconFileType::ComparisonFile,
            file_hash: request.comparison_file_hash.clone(),
            column_delimiters: clone_strings(&request.comparison_file_delimiters),
            column_headers: clone_strings(&request.comparison_file_headers),
        }
    }

    fn get_recon_task_details(&self, request: &CreateReconTaskRequest) -> (r: ReconTaskDetails) {
        let task_id = self.generate_uuid("RECON-TASK");
        let recon_results_queue_info = self.generate_queue_topic("RECON-RESULTS-QUEUE", &task_id);
        let primary_file_chunks_queue_info = self.generate_queue_topic(
            "PRIMARY-FILE-QUEUE",
            &task_id,
        );
        let comparison_file_chunks_queue_info = self.generate_queue_topic(
            "COMPARISON-FILE-QUEUE",
            &task_id,
        );
        ReconTaskDetails {
            id: task_id,
            primary_file_id: None,
            comparison_file_id: None,
            is_done: false,
            has_begun: true,
            comparison_pairs: clone_pairs(&request.comparison_pairs),
            recon_config: request.recon_configurations,
            recon_results_queue_info,
            primary_file_chunks_queue_info,
            comparison_file_chunks_queue_info,
        }
    }
}

} // verus!
