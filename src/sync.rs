//! The decisions of the session and of the upload and remove workflows:
//! what to send, how to read what came back, and when to stop.

use vstd::prelude::*;
use vstd::string::*;
use crate::lesson::Lesson;
use crate::text::{occurs_in, str_contains};

verus! {

/// The training module whose additional materials are managed.
pub const MODULE_ID: u64 = 17063573;

/// Why a command failed.
#[derive(Debug)]
pub enum SyncError {
    /// No refresh token is stored.
    MissingCredential,
    /// The remote service could not be reached.
    TransportError(String),
    /// The remote service answered with its success flag false.
    RemoteRejected(String),
    /// The remote service's answer lacks an expected field.
    InvalidResponse,
    /// Creating the named lesson was rejected with the given message.
    UploadFailed(String, String),
    /// Deleting the named material was rejected with the given message.
    RemoveFailed(String, String),
}

/// The answer of the login and refresh calls.
#[derive(Debug)]
pub struct TokenResponse {
    pub success: bool,
    pub error: String,
    pub refresh_token: String,
    pub access_token: String,
}

/// A long-lived refresh token and the short-lived access token issued with it.
#[derive(Debug)]
pub struct TokenPair {
    pub refresh_token: String,
    pub access_token: String,
}

/// One stored material as listed by the remote service.
#[derive(Debug)]
pub struct RemoteMaterial {
    pub id: u64,
    pub name: String,
}

/// The answer of the list call.
#[derive(Debug)]
pub struct ListResponse {
    pub success: bool,
    pub error: String,
    pub group: Option<Vec<RemoteMaterial>>,
}

/// The body of one create call.
#[derive(Debug)]
pub struct CreateRequest {
    pub category: String,
    pub kind: String,
    pub module_id: u64,
    pub group_id: u64,
    pub name: String,
    pub link: String,
}

/// The delivery type of a recording: a video where the link mentions
/// "youtu", else another kind of material.
pub open spec fn delivery_kind(link: Seq<char>) -> Seq<char> {
    if occurs_in("youtu"@, link) {
        "video"@
    } else {
        "other"@
    }
}

/// Classifies a link as `"video"` or `"other"`.
pub fn delivery_type(link: &str) -> (r: &'static str)
    ensures
        r@ == delivery_kind(link@),
{
    if str_contains(link, "youtu") {
        "video"
    } else {
        "other"
    }
}

/// The create call for one lesson of a group.
pub fn create_request(group_id: u64, lesson: &Lesson) -> (r: CreateRequest)
    ensures
        r.category@ == "group"@,
        r.kind@ == delivery_kind(lesson.link@),
        r.module_id == MODULE_ID,
        r.group_id == group_id,
        r.name@ == lesson.name@,
        r.link@ == lesson.link@,
{
    CreateRequest {
        category: "group".to_owned(),
        kind: delivery_type(lesson.link.as_str()).to_owned(),
        module_id: MODULE_ID,
        group_id,
        name: lesson.name.clone(),
        link: lesson.link.clone(),
    }
}

/// Reads the answer of a login or refresh call: the new token pair when the
/// service reports success, else its message.
pub fn read_token_response(resp: TokenResponse) -> (r: Result<TokenPair, SyncError>)
    ensures
        resp.success ==> (r matches Ok(p) && p.refresh_token@ == resp.refresh_token@
            && p.access_token@ == resp.access_token@),
        !resp.success ==> (r matches Err(SyncError::RemoteRejected(m)) && m@ == resp.error@),
{
    if resp.success {
        Ok(TokenPair { refresh_token: resp.refresh_token, access_token: resp.access_token })
    } else {
        Err(SyncError::RemoteRejected(resp.error))
    }
}

/// The stored refresh token, or `MissingCredential` where none was found.
pub fn stored_refresh_token(loaded: Option<String>) -> (r: Result<String, SyncError>)
    ensures
        loaded matches Some(t) ==> (r matches Ok(u) && u@ == t@),
        loaded is None ==> r matches Err(SyncError::MissingCredential),
{
    match loaded {
        Some(t) => Ok(t),
        None => Err(SyncError::MissingCredential),
    }
}

/// Reads the answer of the list call: the materials to delete, in the
/// order given; the service's message where it reports failure;
/// `InvalidResponse` where a successful answer has no list.
pub fn materials_to_remove(resp: ListResponse) -> (r: Result<Vec<RemoteMaterial>, SyncError>)
    ensures
        !resp.success ==> (r matches Err(SyncError::RemoteRejected(m)) && m@ == resp.error@),
        resp.success && resp.group is None ==> r matches Err(SyncError::InvalidResponse),
        resp.success && resp.group is Some ==> r == Ok::<Vec<RemoteMaterial>, SyncError>(
            resp.group->0,
        ),
{
    if !resp.success {
        return Err(SyncError::RemoteRejected(resp.error));
    }
    match resp.group {
        Some(g) => Ok(g),
        None => Err(SyncError::InvalidResponse),
    }
}

} // verus!
