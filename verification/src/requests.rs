//! Inbound request shapes and their validation rules.
//!
//! Validation failures are reported as `BadClientRequest` with a
//! semicolon-joined list of the violated rules.

use vstd::prelude::*;
use vstd::string::StringExecFns;

use crate::app_errors::{AppError, AppErrorKind};
use crate::models::{ComparisonPair, ReconciliationConfigs};

verus! {

/// The semicolon-joined rendering of a list of violated rules.
pub open spec fn join_semicolon(msgs: Seq<Seq<char>>) -> Seq<char>
    decreases msgs.len(),
{
    if msgs.len() == 0 {
        Seq::<char>::empty()
    } else if msgs.len() == 1 {
        msgs[0]
    } else {
        join_semicolon(msgs.drop_last()) + "; "@ + msgs.last()
    }
}

/// Joins the given rule messages with `"; "`.
fn render_violations(msgs: &Vec<&str>) -> (out: String)
    ensures
        out@ == join_semicolon(msgs.deep_view()),
{
    let mut out = String::new();
    let mut i: usize = 0;
    while i < msgs.len()
        invariant
            i <= msgs.len(),
            out@ == join_semicolon(msgs.deep_view().take(i as int)),
        decreases msgs.len() - i,
    {
        if i > 0 {
            out.append("; ");
        }
        out.append(msgs[i]);
        proof {
            let views = msgs.deep_view();
            assert(views.take(i + 1).drop_last() =~= views.take(i as int));
            assert(views.take(i + 1).last() == views[i as int]);
            if i > 0 {
                assert(out@ =~= join_semicolon(views.take(i + 1)));
            } else {
                assert(out@ =~= views[0]);
            }
        }
        i += 1;
    }
    proof {
        assert(msgs.deep_view().take(msgs.len() as int) =~= msgs.deep_view());
    }
    out
}

/// The path parameter of a fetch-task request.
#[derive(Clone, Debug, PartialEq, Eq)]
pub struct GetTaskDetailsRequest {
    pub task_id: String,
}

/// The request that creates a new reconciliation task.  File metadata is
/// attached by separate requests afterwards.
#[derive(Clone, Debug, PartialEq, Eq)]
pub struct CreateReconTaskRequest {
    pub user_id: String,
    pub recon_configurations: ReconciliationConfigs,
    pub comparison_pairs: Vec<ComparisonPair>,
}

impl CreateReconTaskRequest {
    /// All required fields are present.
    pub open spec fn valid(&self) -> bool {
        self.user_id@.len() > 0
    }

    /// Checks the required fields, reporting each violated rule.
    pub fn validate(&self) -> (r: Result<(), AppError>)
        ensures
            r is Ok <==> self.valid(),
            r matches Err(e) ==> {
                &&& e.kind == AppErrorKind::BadClientRequest
                &&& e.message@ == "please supply a user_id"@
            },
    {
        if self.user_id.as_str().is_empty() {
            Err(AppError::new(AppErrorKind::BadClientRequest, "please supply a user_id".to_owned()))
        } else {
            Ok(())
        }
    }
}

/// The request that attaches the primary file's metadata to a task.
#[derive(Clone, Debug, PartialEq, Eq)]
pub struct AttachPrimaryFileRequest {
    pub task_id: String,
    pub primary_file_name: String,
    pub primary_file_hash: String,
    pub primary_file_row_count: u64,
    pub primary_file_headers: Vec<String>,
    pub primary_file_delimiters: Vec<String>,
}

impl AttachPrimaryFileRequest {
    /// All required fields are present.
    pub open spec fn valid(&self) -> bool {
        &&& self.task_id@.len() > 0
        &&& self.primary_file_name@.len() > 0
        &&& self.primary_file_hash@.len() > 0
        &&& self.primary_file_row_count >= 1
        &&& self.primary_file_headers@.len() > 0
        &&& self.primary_file_delimiters@.len() > 0
    }

    /// The messages of the violated rules, in field order.
    pub open spec fn violations(&self) -> Seq<Seq<char>> {
        (if self.task_id@.len() == 0 { seq!["please supply a task_id"@] } else { Seq::empty() })
            + (if self.primary_file_name@.len() == 0 {
                seq!["please supply a primary_file_name"@]
            } else {
                Seq::empty()
            })
            + (if self.primary_file_hash@.len() == 0 {
                seq!["please supply a primary_file_hash"@]
            } else {
                Seq::empty()
            })
            + (if self.primary_file_row_count < 1 {
                seq!["please supply a primary_file_row_count"@]
            } else {
                Seq::empty()
            })
            + (if self.primary_file_headers@.len() == 0 {
                seq!["please supply the primary_file_headers"@]
            } else {
                Seq::empty()
            })
            + (if self.primary_file_delimiters@.len() == 0 {
                seq!["please supply the primary_file_delimiters"@]
            } else {
                Seq::empty()
            })
    }

    /// Checks the required fields, reporting each violated rule.
    pub fn validate(&self) -> (r: Result<(), AppError>)
        ensures
            r is Ok <==> self.valid(),
            r matches Err(e) ==> {
                &&& e.kind == AppErrorKind::BadClientRequest
                &&& e.message@ == join_semicolon(self.violations())
            },
    {
        let mut msgs: Vec<&str> = Vec::new();
        if self.task_id.as_str().is_empty() {
            msgs.push("please supply a task_id");
        }
        if self.primary_file_name.as_str().is_empty() {
            msgs.push("please supply a primary_file_name");
        }
        if self.primary_file_hash.as_str().is_empty() {
            msgs.push("please supply a primary_file_hash");
        }
        if self.primary_file_row_count < 1 {
            msgs.push("please supply a primary_file_row_count");
        }
        if self.primary_file_headers.len() == 0 {
            msgs.push("please supply the primary_file_headers");
        }
        if self.primary_file_delimiters.len() == 0 {
            msgs.push("please supply the primary_file_delimiters");
        }
        proof {
            assert(msgs.deep_view() =~= self.violations());
        }
        if msgs.len() == 0 {
            Ok(())
        } else {
            let message = render_violations(&msgs);
            Err(AppError::new(AppErrorKind::BadClientRequest, message))
        }
    }
}

/// The request that attaches the comparison file's metadata to a task.
#[derive(Clone, Debug, PartialEq, Eq)]
pub struct AttachComparisonFileRequest {
    pub task_id: String,
    pub comparison_file_name: String,
    pub comparison_file_hash: String,
    pub comparison_file_row_count: u64,
    pub comparison_file_headers: Vec<String>,
    pub comparison_file_delimiters: Vec<String>,
}

impl AttachComparisonFileRequest {
    /// All required fields are present.
    pub open spec fn valid(&self) -> bool {
        &&& self.task_id@.len() > 0
        &&& self.comparison_file_name@.len() > 0
        &&& self.comparison_file_hash@.len() > 0
        &&& self.comparison_file_row_count >= 1
        &&& self.comparison_file_headers@.len() > 0
        &&& self.comparison_file_delimiters@.len() > 0
    }

    /// The messages of the violated rules, in field order.
    pub open spec fn violations(&self) -> Seq<Seq<char>> {
        (if self.task_id@.len() == 0 { seq!["please supply a task_id"@] } else { Seq::empty() })
            + (if self.comparison_file_name@.len() == 0 {
                seq!["please supply a comparison_file_name"@]
            } else {
                Seq::empty()
            })
            + (if self.comparison_file_hash@.len() == 0 {
                seq!["please supply a comparison_file_hash"@]
            } else {
                Seq::empty()
            })
            + (if self.comparison_file_row_count < 1 {
                seq!["please supply a comparison_file_row_count"@]
            } else {
                Seq::empty()
            })
            + (if self.comparison_file_headers@.len() == 0 {
                seq!["please supply the comparison_file_headers"@]
            } else {
                Seq::empty()
            })
            + (if self.comparison_file_delimiters@.len() == 0 {
                seq!["please supply the comparison_file_delimiters"@]
            } else {
                Seq::empty()
            })
    }

    /// Checks the required fields, reporting each violated rule.
    pub fn validate(&self) -> (r: Result<(), AppError>)
        ensures
            r is Ok <==> self.valid(),
            r matches Err(e) ==> {
                &&& e.kind == AppErrorKind::BadClientRequest
                &&& e.message@ == join_semicolon(self.violations())
            },
    {
        let mut msgs: Vec<&str> = Vec::new();
        if self.task_id.as_str().is_empty() {
            msgs.push("please supply a task_id");
        }
        if self.comparison_file_name.as_str().is_empty() {
            msgs.push("please supply a comparison_file_name");
        }
        if self.comparison_file_hash.as_str().is_empty() {
            msgs.push("please supply a comparison_file_hash");
        }
        if self.comparison_file_row_count < 1 {
            msgs.push("please supply a comparison_file_row_count");
        }
        if self.comparison_file_headers.len() == 0 {
            msgs.push("please supply the comparison_file_headers");
        }
        if self.comparison_file_delimiters.len() == 0 {
            msgs.push("please supply the comparison_file_delimiters");
        }
        proof {
            assert(msgs.deep_view() =~= self.violations());
        }
        if msgs.len() == 0 {
            Ok(())
        } else {
            let message = render_violations(&msgs);
            Err(AppError::new(AppErrorKind::BadClientRequest, message))
        }
    }
}

} // verus!
