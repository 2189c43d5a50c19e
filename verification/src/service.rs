//! What the server answers: the status of a failed operation, and the
//! replies that need no file contents.

use vstd::prelude::*;
use crate::entry::FileInfo;
use crate::meta::{
    FileMeta, absolute_path, build_file_info, is_modified_text, kind_name, permission_text,
};
use crate::protocol::{DirEntries, dirs_view};
use crate::snapshot::{SnapshotProbe, build_entries_for_path, snapshot_of};

verus! {

/// Why a server operation failed.
#[derive(Debug, PartialEq, Eq, Structural, Clone, Copy)]
pub enum ServiceError {
    /// The request named no path.
    InvalidArgument,
    /// The file to read does not exist or cannot be opened.
    NotFound,
    /// The file system failed in the middle of the operation.
    Internal,
}

/// The step of an operation at which the file system failed.
#[derive(Debug, PartialEq, Eq, Structural, Clone, Copy)]
pub enum IoStage {
    Stat,
    OpenForRead,
    OpenForWrite,
    Seek,
    Read,
    Write,
}

/// The status reported for a failure at `stage`: a file that cannot be
/// opened for reading is not found; every other failure is internal.
pub open spec fn failure_status(stage: IoStage) -> ServiceError {
    match stage {
        IoStage::OpenForRead => ServiceError::NotFound,
        _ => ServiceError::Internal,
    }
}

/// The text that goes with a failure at `stage`, before the cause.
pub open spec fn failure_label(stage: IoStage) -> Seq<char> {
    match stage {
        IoStage::Stat => "stat failed"@,
        IoStage::OpenForRead => "open file failed"@,
        IoStage::OpenForWrite => "open file failed"@,
        IoStage::Seek => "seek failed"@,
        IoStage::Read => "read failed"@,
        IoStage::Write => "write failed"@,
    }
}

pub fn status_of_failure(stage: IoStage) -> (status: ServiceError)
    ensures
        status == failure_status(stage),
{
    match stage {
        IoStage::OpenForRead => ServiceError::NotFound,
        _ => ServiceError::Internal,
    }
}

pub fn label_of_failure(stage: IoStage) -> (label: String)
    ensures
        label@ == failure_label(stage),
{
    match stage {
        IoStage::Stat => "stat failed".to_owned(),
        IoStage::OpenForRead => "open file failed".to_owned(),
        IoStage::OpenForWrite => "open file failed".to_owned(),
        IoStage::Seek => "seek failed".to_owned(),
        IoStage::Read => "read failed".to_owned(),
        IoStage::Write => "write failed".to_owned(),
    }
}

/// Every operation on a path needs one: an empty path is an invalid
/// argument.
pub fn require_path(path: &str) -> (checked: Result<(), ServiceError>)
    ensures
        checked is Ok <==> path@.len() > 0,
        checked is Err ==> checked->Err_0 == ServiceError::InvalidArgument,
{
    if path.unicode_len() == 0 {
        Err(ServiceError::InvalidArgument)
    } else {
        Ok(())
    }
}

/// The answer to a health check.
pub fn health() -> (status: String)
    ensures
        status@ == "ok"@,
{
    "ok".to_owned()
}

/// The answer to a snapshot request: the path as it was requested, and
/// the directories gathered for it.
#[derive(Debug, PartialEq, Eq)]
pub struct GetPathResponse {
    pub path: String,
    pub entries: Vec<DirEntries>,
}

/// Answers a snapshot request from what the file system said about the
/// path. An empty path is refused.
pub fn get_path(probe: &SnapshotProbe) -> (reply: Result<GetPathResponse, ServiceError>)
    ensures
        match reply {
            Ok(r) => probe.path@.len() > 0 && r.path@ == probe.path@ && dirs_view(r.entries@)
                == snapshot_of(probe@),
            Err(e) => probe.path@.len() == 0 && e == ServiceError::InvalidArgument,
        },
{
    match require_path(probe.path.as_str()) {
        Err(e) => Err(e),
        Ok(_) => Ok(
            GetPathResponse { path: probe.path.clone(), entries: build_entries_for_path(probe) },
        ),
    }
}

/// What asking the file system about one path gave.
#[derive(Debug, PartialEq, Eq, Structural, Clone, Copy)]
pub enum StatProbe {
    /// The path exists.
    Found(FileMeta),
    /// The path does not exist.
    Missing,
    /// The file system failed for another reason.
    Failed,
}

/// The answer to a stat request.
#[derive(Debug, PartialEq, Eq)]
pub struct StatResponse {
    pub exists: bool,
    pub info: Option<FileInfo>,
}

/// Answers a stat request. An empty path is refused; a path that does not
/// exist is reported as such, without an error; any other failure of the
/// file system is internal. `name` is the last component of the path.
pub fn stat(path: &str, name: String, cwd: &str, probe: StatProbe) -> (reply: Result<
    StatResponse,
    ServiceError,
>)
    ensures
        path@.len() == 0 ==> reply == Err::<StatResponse, ServiceError>(
            ServiceError::InvalidArgument,
        ),
        path@.len() > 0 ==> match probe {
            StatProbe::Found(meta) => {
                &&& reply is Ok
                &&& reply->Ok_0.exists
                &&& reply->Ok_0.info is Some
                &&& reply->Ok_0.info->Some_0@.name == name@
                &&& reply->Ok_0.info->Some_0@.file_type == kind_name(meta)
                &&& reply->Ok_0.info->Some_0@.permissions == permission_text(meta)
                &&& reply->Ok_0.info->Some_0@.absolute_path == absolute_path(path@, cwd@)
                &&& reply->Ok_0.info->Some_0@.size == meta.len
                &&& is_modified_text(meta.modified, reply->Ok_0.info->Some_0@.modified)
            },
            StatProbe::Missing => reply is Ok && !reply->Ok_0.exists && reply->Ok_0.info is None,
            StatProbe::Failed => reply == Err::<StatResponse, ServiceError>(ServiceError::Internal),
        },
{
    if path.unicode_len() == 0 {
        return Err(ServiceError::InvalidArgument);
    }
    match probe {
        StatProbe::Found(meta) => Ok(
            StatResponse { exists: true, info: Some(build_file_info(name, path, cwd, &meta)) },
        ),
        StatProbe::Missing => Ok(StatResponse { exists: false, info: None }),
        StatProbe::Failed => Err(status_of_failure(IoStage::Stat)),
    }
}

} // verus!
