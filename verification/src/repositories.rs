//! The store adapters: CRUD of task and file-metadata records against a
//! key-value store.
//!
//! The traits state the get/create/update/delete contract the aggregation
//! service relies on, over an abstract map from record identifier to record.
//! The in-memory implementations run against [`crate::store::ByteStore`],
//! encoding records through [`crate::codec`]; an injected fault makes the
//! next operation fail the way a store outage would, which is how tests
//! exercise the error paths.

use vstd::prelude::*;

use crate::app_errors::{AppError, AppErrorKind};
use crate::codec::{
    decode_file_metadata, decode_task_details, encode_file_metadata, encode_task_details,
    spec_encode_file_metadata, spec_encode_task_details,
};
use crate::models::{
    ReconFileMetaData, ReconFileMetaDataView, ReconTaskDetails, ReconTaskDetailsView,
};
use crate::store::ByteStore;

verus! {

/// CRUD of task records keyed by their identifier.
///
/// `get` reports every failure as `NotFound`: a missing key, an undecodable
/// value and a channel outage are indistinguishable to callers.  `create`
/// overwrites whole records; `update` is delete-then-recreate-then-reread
/// and so is not atomic: on failure the record may be absent, unchanged or
/// already replaced.
pub trait ReconTaskDetailsRepositoryInterface: Sized {
    /// The records in the store, keyed by identifier.  An implementation
    /// that does not say otherwise holds nothing.
    open spec fn tasks(&self) -> Map<Seq<char>, ReconTaskDetailsView> {
        Map::empty()
    }

    /// The adapter's internal invariant.
    open spec fn inv(&self) -> bool {
        true
    }

    fn get_task_details(&mut self, task_id: &String) -> (r: Result<ReconTaskDetails, AppError>)
        requires
            old(self).inv(),
        ensures
            final(self).inv(),
            final(self).tasks() == old(self).tasks(),
            match r {
                Ok(d) => old(self).tasks().contains_key(task_id@) && d@ == old(
                    self,
                ).tasks()[task_id@] && d@.id == task_id@,
                Err(e) => e.kind == AppErrorKind::NotFound,
            },
            !old(self).tasks().contains_key(task_id@) ==> r is Err,
    ;

    fn create_task_details(&mut self, task_details: &ReconTaskDetails) -> (r: Result<
        String,
        AppError,
    >)
        requires
            old(self).inv(),
        ensures
            final(self).inv(),
            match r {
                Ok(id) => id@ == task_details@.id && final(self).tasks() == old(
                    self,
                ).tasks().insert(task_details@.id, task_details@),
                Err(e) => (e.kind == AppErrorKind::InternalError || e.kind
                    == AppErrorKind::ConnectionError) && final(self).tasks() == old(self).tasks(),
            },
    ;

    fn update_task_details(&mut self, task_details: &ReconTaskDetails) -> (r: Result<
        ReconTaskDetails,
        AppError,
    >)
        requires
            old(self).inv(),
        ensures
            final(self).inv(),
            match r {
                Ok(d) => d@ == task_details@ && final(self).tasks() == old(self).tasks().insert(
                    task_details@.id,
                    task_details@,
                ),
                Err(e) => {
                    &&& (e.kind == AppErrorKind::NotFound || e.kind == AppErrorKind::InternalError
                        || e.kind == AppErrorKind::ConnectionError)
                    &&& (final(self).tasks() == old(self).tasks() || final(self).tasks() == old(
                        self,
                    ).tasks().remove(task_details@.id) || final(self).tasks() == old(
                        self,
                    ).tasks().insert(task_details@.id, task_details@))
                },
            },
    ;

    fn delete_task_details(&mut self, task_id: &String) -> (r: Result<bool, AppError>)
        requires
            old(self).inv(),
        ensures
            final(self).inv(),
            match r {
                Ok(b) => b && final(self).tasks() == old(self).tasks().remove(task_id@),
                Err(e) => (e.kind == AppErrorKind::InternalError || e.kind
                    == AppErrorKind::ConnectionError) && final(self).tasks() == old(self).tasks(),
            },
    ;
}

/// CRUD of file-metadata records keyed by their identifier, with the same
/// contract shape as the task-record adapter.
pub trait ReconFileDetailsRepositoryInterface: Sized {
    /// The records in the store, keyed by identifier.  An implementation
    /// that does not say otherwise holds nothing.
    open spec fn files(&self) -> Map<Seq<char>, ReconFileMetaDataView> {
        Map::empty()
    }

    /// The adapter's internal invariant.
    open spec fn inv(&self) -> bool {
        true
    }

    fn get_recon_file_details(&mut self, file_id: &String) -> (r: Result<
        ReconFileMetaData,
        AppError,
    >)
        requires
            old(self).inv(),
        ensures
            final(self).inv(),
            final(self).files() == old(self).files(),
            match r {
                Ok(d) => old(self).files().contains_key(file_id@) && d@ == old(
                    self,
                ).files()[file_id@] && d@.id == file_id@,
                Err(e) => e.kind == AppErrorKind::NotFound,
            },
            !old(self).files().contains_key(file_id@) ==> r is Err,
    ;

    fn create_recon_file_details(&mut self, file_details: &ReconFileMetaData) -> (r: Result<
        String,
        AppError,
    >)
        requires
            old(self).inv(),
        ensures
            final(self).inv(),
            match r {
                Ok(id) => id@ == file_details@.id && final(self).files() == old(
                    self,
                ).files().insert(file_details@.id, file_details@),
                Err(e) => (e.kind == AppErrorKind::InternalError || e.kind
                    == AppErrorKind::ConnectionError) && final(self).files() == old(self).files(),
            },
    ;

    fn update_recon_file_details(&mut self, file_details: &ReconFileMetaData) -> (r: Result<
        ReconFileMetaData,
        AppError,
    >)
        requires
            old(self).inv(),
        ensures
            final(self).inv(),
            match r {
                Ok(d) => d@ == file_details@ && final(self).files() == old(self).files().insert(
                    file_details@.id,
                    file_details@,
                ),
                Err(e) => {
                    &&& (e.kind == AppErrorKind::NotFound || e.kind == AppErrorKind::InternalError
                        || e.kind == AppErrorKind::ConnectionError)
                    &&& (final(self).files() == old(self).files() || final(self).files() == old(
                        self,
                    ).files().remove(file_details@.id) || final(self).files() == old(
                        self,
                    ).files().insert(file_details@.id, file_details@))
                },
            },
    ;

    fn delete_recon_file_details(&mut self, file_id: &String) -> (r: Result<bool, AppError>)
        requires
            old(self).inv(),
        ensures
            final(self).inv(),
            match r {
                Ok(b) => b && final(self).files() == old(self).files().remove(file_id@),
                Err(e) => (e.kind == AppErrorKind::InternalError || e.kind
                    == AppErrorKind::ConnectionError) && final(self).files() == old(self).files(),
            },
    ;
}

/// The error kind a failed write surfaces as: connection failures keep their
/// kind, everything else is an internal error.
fn write_fault_kind(kind: AppErrorKind) -> (r: AppErrorKind)
    ensures
        r == AppErrorKind::InternalError || r == AppErrorKind::ConnectionError,
{
    match kind {
        AppErrorKind::ConnectionError => AppErrorKind::ConnectionError,
        _ => AppErrorKind::InternalError,
    }
}

/// A task-record adapter over the in-memory byte store.
pub struct InMemoryReconTaskDetailsRepository {
    store: ByteStore,
    next_fault: Option<AppErrorKind>,
    model: Ghost<Map<Seq<char>, ReconTaskDetailsView>>,
}

impl InMemoryReconTaskDetailsRepository {
    /// An empty adapter.
    pub fn new() -> (r: InMemoryReconTaskDetailsRepository)
        ensures
            r.inv(),
            r.tasks() == Map::<Seq<char>, ReconTaskDetailsView>::empty(),
    {
        InMemoryReconTaskDetailsRepository {
            store: ByteStore::new(),
            next_fault: None,
            model: Ghost(Map::empty()),
        }
    }

    /// Makes the next operation fail as a store outage of the given kind
    /// would.
    pub fn fail_next_request(&mut self, kind: AppErrorKind)
        requires
            old(self).inv(),
        ensures
            final(self).inv(),
            final(self).tasks() == old(self).tasks(),
    {
        self.next_fault = Some(kind);
    }
}

impl ReconTaskDetailsRepositoryInterface for InMemoryReconTaskDetailsRepository {
    closed spec fn tasks(&self) -> Map<Seq<char>, ReconTaskDetailsView> {
        self.model@
    }

    closed spec fn inv(&self) -> bool {
        &&& self.store.wf()
        &&& forall|k: Seq<char>|
            self.model@.contains_key(k) <==> self.store@.contains_key(k)
        &&& forall|k: Seq<char>| #[trigger]
            self.model@.contains_key(k) ==> self.store@[k] == spec_encode_task_details(
                self.model@[k],
            ) && self.model@[k].id == k
    }

    #[verifier::rlimit(100)]
    fn get_task_details(&mut self, task_id: &String) -> (r: Result<ReconTaskDetails, AppError>) {
        match self.next_fault {
            Some(_) => {
                self.next_fault = None;
                return Err(
                    AppError::new(AppErrorKind::NotFound, "state store unreachable".to_owned()),
                );
            },
            None => {},
        }
        match self.store.get(task_id) {
            None => Err(AppError::new(AppErrorKind::NotFound, "no such task".to_owned())),
            Some(bytes) => {
                match decode_task_details(bytes) {
                    Some(t) => {
                        proof {
                            assert(self.store@.contains_key(task_id@));
                            assert(self.model@.contains_key(task_id@));
                            assert(self.store@[task_id@] == spec_encode_task_details(
                                self.model@[task_id@],
                            ));
                            assert(bytes@ == self.store@[task_id@]);
                            assert(bytes@ == spec_encode_task_details(self.model@[task_id@]));
                        }
                        Ok(t)
                    },
                    None => Err(
                        AppError::new(AppErrorKind::NotFound, "undecodable task record".to_owned()),
                    ),
                }
            },
        }
    }

    fn create_task_details(&mut self, task_details: &ReconTaskDetails) -> (r: Result<
        String,
        AppError,
    >) {
        match self.next_fault {
            Some(kind) => {
                self.next_fault = None;
                return Err(
                    AppError::new(write_fault_kind(kind), "unable to write task".to_owned()),
                );
            },
            None => {},
        }
        let bytes = encode_task_details(task_details);
        self.store.set(&task_details.id, bytes);
        proof {
            self.model@ = self.model@.insert(task_details@.id, task_details@);
        }
        Ok(task_details.id.clone())
    }

    fn update_task_details(&mut self, task_details: &ReconTaskDetails) -> (r: Result<
        ReconTaskDetails,
        AppError,
    >) {
        let ghost before = self.tasks();
        let _ = self.delete_task_details(&task_details.id);
        let id = match self.create_task_details(task_details) {
            Ok(id) => id,
            Err(e) => {
                proof {
                    assert(self.tasks() == before || self.tasks() == before.remove(
                        task_details@.id,
                    ));
                }
                return Err(e);
            },
        };
        proof {
            assert(self.tasks() =~= before.insert(task_details@.id, task_details@));
        }
        match self.get_task_details(&id) {
            Ok(d) => Ok(d),
            Err(e) => Err(e),
        }
    }

    fn delete_task_details(&mut self, task_id: &String) -> (r: Result<bool, AppError>) {
        match self.next_fault {
            Some(kind) => {
                self.next_fault = None;
                return Err(
                    AppError::new(write_fault_kind(kind), "unable to delete task".to_owned()),
                );
            },
            None => {},
        }
        self.store.remove(task_id);
        proof {
            self.model@ = self.model@.remove(task_id@);
        }
        Ok(true)
    }
}

/// A file-metadata adapter over the in-memory byte store.
pub struct InMemoryReconFileDetailsRepository {
    store: ByteStore,
    next_fault: Option<AppErrorKind>,
    model: Ghost<Map<Seq<char>, ReconFileMetaDataView>>,
}

impl InMemoryReconFileDetailsRepository {
    /// An empty adapter.
    pub fn new() -> (r: InMemoryReconFileDetailsRepository)
        ensures
            r.inv(),
            r.files() == Map::<Seq<char>, ReconFileMetaDataView>::empty(),
    {
        InMemoryReconFileDetailsRepository {
            store: ByteStore::new(),
            next_fault: None,
            model: Ghost(Map::empty()),
        }
    }

    /// Makes the next operation fail as a store outage of the given kind
    /// would.
    pub fn fail_next_request(&mut self, kind: AppErrorKind)
        requires
            old(self).inv(),
        ensures
            final(self).inv(),
            final(self).files() == old(self).files(),
    {
        self.next_fault = Some(kind);
    }
}

impl ReconFileDetailsRepositoryInterface for InMemoryReconFileDetailsRepository {
    closed spec fn files(&self) -> Map<Seq<char>, ReconFileMetaDataView> {
        self.model@
    }

    closed spec fn inv(&self) -> bool {
        &&& self.store.wf()
        &&& forall|k: Seq<char>|
            self.model@.contains_key(k) <==> self.store@.contains_key(k)
        &&& forall|k: Seq<char>| #[trigger]
            self.model@.contains_key(k) ==> self.store@[k] == spec_encode_file_metadata(
                self.model@[k],
            ) && self.model@[k].id == k
    }

    #[verifier::rlimit(100)]
    fn get_recon_file_details(&mut self, file_id: &String) -> (r: Result<
        ReconFileMetaData,
        AppError,
    >) {
        match self.next_fault {
            Some(_) => {
                self.next_fault = None;
                return Err(
                    AppError::new(AppErrorKind::NotFound, "state store unreachable".to_owned()),
                );
            },
            None => {},
        }
        match self.store.get(file_id) {
            None => Err(AppError::new(AppErrorKind::NotFound, "no such file".to_owned())),
            Some(bytes) => {
                match decode_file_metadata(bytes) {
                    Some(m) => {
                        proof {
                            assert(self.store@.contains_key(file_id@));
                            assert(self.model@.contains_key(file_id@));
                            assert(self.store@[file_id@] == spec_encode_file_metadata(
                                self.model@[file_id@],
                            ));
                            assert(bytes@ == self.store@[file_id@]);
                            assert(bytes@ == spec_encode_file_metadata(self.model@[file_id@]));
                        }
                        Ok(m)
                    },
                    None => Err(
                        AppError::new(AppErrorKind::NotFound, "undecodable file record".to_owned()),
                    ),
                }
            },
        }
    }

    fn create_recon_file_details(&mut self, file_details: &ReconFileMetaData) -> (r: Result<
        String,
        AppError,
    >) {
        match self.next_fault {
            Some(kind) => {
                self.next_fault = None;
                return Err(
                    AppError::new(write_fault_kind(kind), "unable to write file".to_owned()),
                );
            },
            None => {},
        }
        let bytes = encode_file_metadata(file_details);
        self.store.set(&file_details.id, bytes);
        proof {
            self.model@ = self.model@.insert(file_details@.id, file_details@);
        }
        Ok(file_details.id.clone())
    }

    fn update_recon_file_details(&mut self, file_details: &ReconFileMetaData) -> (r: Result<
        ReconFileMetaData,
        AppError,
    >) {
        let ghost before = self.files();
        let _ = self.delete_recon_file_details(&file_details.id);
        let id = match self.create_recon_file_details(file_details) {
            Ok(id) => id,
            Err(e) => {
                proof {
                    assert(self.files() == before || self.files() == before.remove(
                        file_details@.id,
                    ));
                }
                return Err(e);
            },
        };
        proof {
            assert(self.files() =~= before.insert(file_details@.id, file_details@));
        }
        match self.get_recon_file_details(&id) {
            Ok(d) => Ok(d),
            Err(e) => Err(e),
        }
    }

    fn delete_recon_file_details(&mut self, file_id: &String) -> (r: Result<bool, AppError>) {
        match self.next_fault {
            Some(kind) => {
                self.next_fault = None;
                return Err(
                    AppError::new(write_fault_kind(kind), "unable to delete file".to_owned()),
                );
            },
            None => {},
        }
        self.store.remove(file_id);
        proof {
            self.model@ = self.model@.remove(file_id@);
        }
        Ok(true)
    }
}

} // verus!
