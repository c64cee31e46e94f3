//! The task aggregation service: the create/get/attach workflows over the
//! two store adapters and the transformer.
//!
//! Every contract is stated over the abstract store maps of the adapters.
//! Failure of any step aborts the remaining steps: a workflow that writes a
//! file-metadata record and a task record never writes the task record
//! first, so a task can only ever reference file records that were already
//! durably written.

use vstd::prelude::*;
use vstd::string::StringExecFns;

use crate::app_errors::{AppError, AppErrorKind};
use crate::models::{ReconFileMetaDataView, ReconTaskDetailsView};
use crate::repositories::{
    ReconFileDetailsRepositoryInterface, ReconTaskDetailsRepositoryInterface,
};
use crate::requests::{
    AttachComparisonFileRequest, AttachPrimaryFileRequest, CreateReconTaskRequest,
};
use crate::responses::{FileResponseSummary, ReconTaskResponseDetails, ReconTaskResponseDetailsView};
use crate::transformer::{
    is_comparison_file_for, is_new_task_for, is_primary_file_for, TransformerInterface,
};

verus! {

/// The task record `t` with its primary file reference set to `fid`.
pub open spec fn with_primary_file(t: ReconTaskDetailsView, fid: Seq<char>) -> ReconTaskDetailsView {
    ReconTaskDetailsView {
        id: t.id,
        primary_file_id: Some(fid),
        comparison_file_id: t.comparison_file_id,
        is_done: t.is_done,
        has_begun: t.has_begun,
        comparison_pairs: t.comparison_pairs,
        recon_config: t.recon_config,
        recon_results_queue_info: t.recon_results_queue_info,
        primary_file_chunks_queue_info: t.primary_file_chunks_queue_info,
        comparison_file_chunks_queue_info: t.comparison_file_chunks_queue_info,
    }
}

/// The task record `t` with its comparison file reference set to `fid`.
pub open spec fn with_comparison_file(
    t: ReconTaskDetailsView,
    fid: Seq<char>,
) -> ReconTaskDetailsView {
    ReconTaskDetailsView {
        id: t.id,
        primary_file_id: t.primary_file_id,
        comparison_file_id: Some(fid),
        is_done: t.is_done,
        has_begun: t.has_begun,
        comparison_pairs: t.comparison_pairs,
        recon_config: t.recon_config,
        recon_results_queue_info: t.recon_results_queue_info,
        primary_file_chunks_queue_info: t.primary_file_chunks_queue_info,
        comparison_file_chunks_queue_info: t.comparison_file_chunks_queue_info,
    }
}

/// The create/get/attach workflows of the reconciliation-task core.
pub trait ReconTaskAggregationServiceInterface: Sized {
    /// The task records in the task store.
    spec fn tasks(&self) -> Map<Seq<char>, ReconTaskDetailsView>;

    /// The file-metadata records in the file store.
    spec fn files(&self) -> Map<Seq<char>, ReconFileMetaDataView>;

    /// The service's internal invariant.
    spec fn inv(&self) -> bool;

    /// Validates the request, persists a fresh task record with no file
    /// references, and returns the stored task fetched back.  Exactly one
    /// task-store write; the file store is never touched.
    fn create_recon_task(&mut self, request: &CreateReconTaskRequest) -> (r: Result<
        ReconTaskResponseDetails,
        AppError,
    >)
        requires
            old(self).inv(),
        ensures
            final(self).inv(),
            final(self).files() == old(self).files(),
            !request.valid() ==> r is Err,
            match r {
                Ok(resp) => {
                    &&& request.valid()
                    &&& is_new_task_for(
                        resp.task_details@,
                        request.comparison_pairs@,
                        request.recon_configurations,
                    )
                    &&& resp.task_id@ == resp.task_details@.id
                    &&& resp.primary_file_metadata is None
                    &&& resp.comparison_file_metadata is None
                    &&& final(self).tasks() == old(self).tasks().insert(
                        resp.task_details@.id,
                        resp.task_details@,
                    )
                },
                Err(e) => {
                    &&& (e.kind == AppErrorKind::BadClientRequest <==> !request.valid())
                    &&& (e.kind == AppErrorKind::BadClientRequest || e.kind
                        == AppErrorKind::InternalError || e.kind == AppErrorKind::ConnectionError
                        || e.kind == AppErrorKind::NotFound)
                    &&& ((e.kind == AppErrorKind::BadClientRequest || e.kind
                        == AppErrorKind::InternalError || e.kind == AppErrorKind::ConnectionError)
                        ==> final(self).tasks() == old(self).tasks())
                    &&& (e.kind == AppErrorKind::NotFound ==> exists|t: ReconTaskDetailsView|
                        {
                            &&& #[trigger] is_new_task_for(
                                t,
                                request.comparison_pairs@,
                                request.recon_configurations,
                            )
                            &&& final(self).tasks() == old(self).tasks().insert(t.id, t)
                        })
                },
            },
    ;

    /// Rejects an empty identifier, fetches the task record, hydrates the
    /// metadata of whichever files it references, and assembles the
    /// composite response.  Never writes.
    fn get_recon_task(&mut self, task_id: &String) -> (r: Result<
        ReconTaskResponseDetails,
        AppError,
    >)
        requires
            old(self).inv(),
        ensures
            final(self).inv(),
            final(self).tasks() == old(self).tasks(),
            final(self).files() == old(self).files(),
            task_id@.len() == 0 ==> r is Err,
            task_id@.len() > 0 && !old(self).tasks().contains_key(task_id@) ==> r is Err,
            match r {
                Ok(resp) => {
                    &&& task_id@.len() > 0
                    &&& old(self).tasks().contains_key(task_id@)
                    &&& resp.task_details@ == old(self).tasks()[task_id@]
                    &&& resp.task_details@.id == task_id@
                    &&& resp.task_id@ == resp.task_details@.id
                    &&& (match old(self).tasks()[task_id@].primary_file_id {
                        Some(fid) => {
                            &&& old(self).files().contains_key(fid)
                            &&& resp.primary_file_metadata matches Some(m) && m@ == old(
                                self,
                            ).files()[fid]
                        },
                        None => resp.primary_file_metadata is None,
                    })
                    &&& (match old(self).tasks()[task_id@].comparison_file_id {
                        Some(fid) => {
                            &&& old(self).files().contains_key(fid)
                            &&& resp.comparison_file_metadata matches Some(m) && m@ == old(
                                self,
                            ).files()[fid]
                        },
                        None => resp.comparison_file_metadata is None,
                    })
                },
                Err(e) => {
                    &&& (e.kind == AppErrorKind::BadClientRequest <==> task_id@.len() == 0)
                    &&& (e.kind == AppErrorKind::BadClientRequest ==> e.message@
                        == "please supply a taskID"@)
                    &&& (e.kind == AppErrorKind::BadClientRequest || e.kind
                        == AppErrorKind::NotFound)
                },
            },
    ;

    /// Persists a primary file-metadata record built from the request, then
    /// re-reads the task and overwrites it with its primary file reference
    /// set to the new record's identifier.  The file record is durably
    /// written before the task record references it; if the file write
    /// fails, the task store is never touched.
    fn attach_primary_file_to_task(&mut self, request: &AttachPrimaryFileRequest) -> (r: Result<
        FileResponseSummary,
        AppError,
    >)
        requires
            old(self).inv(),
        ensures
            final(self).inv(),
            match r {
                Ok(s) => {
                    &&& s.task_id@ == request.task_id@
                    &&& old(self).tasks().contains_key(request.task_id@)
                    &&& exists|m: ReconFileMetaDataView|
                        {
                            &&& #[trigger] is_primary_file_for(m, *request)
                            &&& m.id == s.file_id@
                            &&& final(self).files() == old(self).files().insert(m.id, m)
                            &&& final(self).tasks() == old(self).tasks().insert(
                                request.task_id@,
                                with_primary_file(old(self).tasks()[request.task_id@], m.id),
                            )
                        }
                },
                Err(e) => {
                    &&& (e.kind == AppErrorKind::BadClientRequest || e.kind
                        == AppErrorKind::NotFound || e.kind == AppErrorKind::InternalError
                        || e.kind == AppErrorKind::ConnectionError)
                    &&& (e.kind == AppErrorKind::BadClientRequest ==> request.task_id@.len() == 0)
                    &&& ((final(self).files() == old(self).files() && final(self).tasks() == old(self).tasks()) || exists|m: ReconFileMetaDataView|
                        {
                            &&& #[trigger] is_primary_file_for(m, *request)
                            &&& final(self).files() == old(self).files().insert(m.id, m)
                            &&& (final(self).tasks() == old(self).tasks() || final(self).tasks()
                                == old(self).tasks().remove(request.task_id@) || final(self).tasks() == old(self).tasks().insert(
                                request.task_id@,
                                with_primary_file(old(self).tasks()[request.task_id@], m.id),
                            ))
                        })
                },
            },
    ;

    /// The comparison-file counterpart of `attach_primary_file_to_task`.
    fn attach_comparison_file_to_task(&mut self, request: &AttachComparisonFileRequest) -> (r:
        Result<FileResponseSummary, AppError>)
        requires
            old(self).inv(),
        ensures
            final(self).inv(),
            match r {
                Ok(s) => {
                    &&& s.task_id@ == request.task_id@
                    &&& old(self).tasks().contains_key(request.task_id@)
                    &&& exists|m: ReconFileMetaDataView|
                        {
                            &&& #[trigger] is_comparison_file_for(m, *request)
                            &&& m.id == s.file_id@
                            &&& final(self).files() == old(self).files().insert(m.id, m)
                            &&& final(self).tasks() == old(self).tasks().insert(
                                request.task_id@,
                                with_comparison_file(old(self).tasks()[request.task_id@], m.id),
                            )
                        }
                },
                Err(e) => {
                    &&& (e.kind == AppErrorKind::BadClientRequest || e.kind
                        == AppErrorKind::NotFound || e.kind == AppErrorKind::InternalError
                        || e.kind == AppErrorKind::ConnectionError)
                    &&& (e.kind == AppErrorKind::BadClientRequest ==> request.task_id@.len() == 0)
                    &&& ((final(self).files() == old(self).files() && final(self).tasks() == old(self).tasks()) || exists|m: ReconFileMetaDataView|
                        {
                            &&& #[trigger] is_comparison_file_for(m, *request)
                            &&& final(self).files() == old(self).files().insert(m.id, m)
                            &&& (final(self).tasks() == old(self).tasks() || final(self).tasks()
                                == old(self).tasks().remove(request.task_id@) || final(self).tasks() == old(self).tasks().insert(
                                request.task_id@,
                                with_comparison_file(old(self).tasks()[request.task_id@], m.id),
                            ))
                        })
                },
            },
    ;
}

/// The concrete aggregation service over a pair of store adapters and a
/// transformer, injected at construction.
pub struct ReconTaskAggregationService<TR, FR, T> where
    TR: ReconTaskDetailsRepositoryInterface,
    FR: ReconFileDetailsRepositoryInterface,
    T: TransformerInterface,
 {
    pub recon_task_details_repo: TR,
    pub recon_file_details_repo: FR,
    pub transformer: T,
}

impl<TR, FR, T> ReconTaskAggregationServiceInterface for ReconTaskAggregationService<
    TR,
    FR,
    T,
> where
    TR: ReconTaskDetailsRepositoryInterface,
    FR: ReconFileDetailsRepositoryInterface,
    T: TransformerInterface,
 {
    open spec fn tasks(&self) -> Map<Seq<char>, ReconTaskDetailsView> {
        self.recon_task_details_repo.tasks()
    }

    open spec fn files(&self) -> Map<Seq<char>, ReconFileMetaDataView> {
        self.recon_file_details_repo.files()
    }

    open spec fn inv(&self) -> bool {
        &&& self.recon_task_details_repo.inv()
        &&& self.recon_file_details_repo.inv()
    }

    fn create_recon_task(&mut self, request: &CreateReconTaskRequest) -> (r: Result<
        ReconTaskResponseDetails,
        AppError,
    >) {
        match request.validate() {
            Ok(_) => {},
            Err(e) => {
                return Err(e);
            },
        }
        let recon_task_details = self.transformer.get_recon_task_details(request);
        let task_id = match self.recon_task_details_repo.create_task_details(&recon_task_details) {
            Ok(id) => id,
            Err(e) => {
                return Err(e);
            },
        };
        self.get_recon_task(&task_id)
    }

    fn get_recon_task(&mut self, task_id: &String) -> (r: Result<
        ReconTaskResponseDetails,
        AppError,
    >) {
        if task_id.as_str().is_empty() {
            return Err(
                AppError::new(AppErrorKind::BadClientRequest, "please supply a taskID".to_owned()),
            );
        }
        let task_details = match self.recon_task_details_repo.get_task_details(task_id) {
            Ok(d) => d,
            Err(e) => {
                return Err(e);
            },
        };
        let primary_file_metadata = match &task_details.primary_file_id {
            Some(fid) => {
                match self.recon_file_details_repo.get_recon_file_details(fid) {
                    Ok(m) => Some(m),
                    Err(e) => {
                        return Err(e);
                    },
                }
            },
            None => None,
        };
        let comparison_file_metadata = match &task_details.comparison_file_id {
            Some(fid) => {
                match self.recon_file_details_repo.get_recon_file_details(fid) {
                    Ok(m) => Some(m),
                    Err(e) => {
                        return Err(e);
                    },
                }
            },
            None => None,
        };
        let resp = self.transformer.build_recon_task_details_response(
            task_details,
            primary_file_metadata,
            comparison_file_metadata,
        );
        Ok(resp)
    }

    fn attach_primary_file_to_task(&mut self, request: &AttachPrimaryFileRequest) -> (r: Result<
        FileResponseSummary,
        AppError,
    >) {
        let primary_file_details = self.transformer.get_primary_file_details(request);
        let primary_file_id = match self.recon_file_details_repo.create_recon_file_details(
            &primary_file_details,
        ) {
            Ok(id) => id,
            Err(e) => {
                return Err(e);
            },
        };
        let recon_task_details = match self.get_recon_task(&request.task_id) {
            Ok(resp) => resp,
            Err(e) => {
                return Err(e);
            },
        };
        let mut recon_task = recon_task_details.task_details;
        recon_task.primary_file_id = Some(primary_file_id.clone());
        proof {
            assert(recon_task@ =~= with_primary_file(
                old(self).tasks()[request.task_id@],
                primary_file_details@.id,
            ));
        }
        match self.recon_task_details_repo.update_task_details(&recon_task) {
            Ok(_) => {},
            Err(e) => {
                return Err(e);
            },
        }
        proof {
            assert(is_primary_file_for(primary_file_details@, *request));
        }
        Ok(FileResponseSummary { file_id: primary_file_id, task_id: request.task_id.clone() })
    }

    fn attach_comparison_file_to_task(&mut self, request: &AttachComparisonFileRequest) -> (r:
        Result<FileResponseSummary, AppError>) {
        let comparison_file_details = self.transformer.get_comparison_file_details(request);
        let comparison_file_id = match self.recon_file_details_repo.create_recon_file_details(
            &comparison_file_details,
        ) {
            Ok(id) => id,
            Err(e) => {
                return Err(e);
            },
        };
        let recon_task_details = match self.get_recon_task(&request.task_id) {
            Ok(resp) => resp,
            Err(e) => {
                return Err(e);
            },
        };
        let mut recon_task = recon_task_details.task_details;
        recon_task.comparison_file_id = Some(comparison_file_id.clone());
        proof {
            assert(recon_task@ =~= with_comparison_file(
                old(self).tasks()[request.task_id@],
                comparison_file_details@.id,
            ));
        }
        match self.recon_task_details_repo.update_task_details(&recon_task) {
            Ok(_) => {},
            Err(e) => {
                return Err(e);
            },
        }
        proof {
            assert(is_comparison_file_for(comparison_file_details@, *request));
        }
        Ok(FileResponseSummary { file_id: comparison_file_id, task_id: request.task_id.clone() })
    }
}

/// Attaching a primary file and then fetching the task surfaces exactly the
/// attached metadata: with the stores as a successful attach operation
/// leaves them, a fetched response assembled the way `get_recon_task`
/// assembles it has the new record's identifier as its primary file
/// reference, and its hydrated metadata carries the submitted name, row
/// count, headers, delimiters and hash.
pub proof fn lemma_attached_primary_file_is_fetched(
    tasks0: Map<Seq<char>, ReconTaskDetailsView>,
    files0: Map<Seq<char>, ReconFileMetaDataView>,
    m: ReconFileMetaDataView,
    request: AttachPrimaryFileRequest,
    resp: ReconTaskResponseDetailsView,
)
    requires
        is_primary_file_for(m, request),
        tasks0.contains_key(request.task_id@),
        resp.task_details == tasks0.insert(
            request.task_id@,
            with_primary_file(tasks0[request.task_id@], m.id),
        )[request.task_id@],
        match resp.task_details.primary_file_id {
            Some(fid) => resp.primary_file_metadata matches Some(fm) && fm == files0.insert(
                m.id,
                m,
            )[fid],
            None => resp.primary_file_metadata is None,
        },
    ensures
        resp.task_details.primary_file_id == Some(m.id),
        resp.primary_file_metadata matches Some(fm) && {
            &&& fm.id == m.id
            &&& fm.file_name == request.primary_file_name@
            &&& fm.row_count == request.primary_file_row_count
            &&& fm.column_headers == request.primary_file_headers.deep_view()
            &&& fm.column_delimiters == request.primary_file_delimiters.deep_view()
            &&& fm.file_hash == request.primary_file_hash@
        },
{
}

} // verus!
