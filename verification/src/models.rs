//! Session references and the results of session operations.
use vstd::prelude::*;

verus! {

/// A Codex session by id, with its title.
#[derive(Debug, Clone, PartialEq, Eq)]
pub struct SessionRef {
    pub session_id: String,
    pub title: String,
}

/// Why a session reference was refused.
#[derive(Debug, Clone, PartialEq, Eq, Structural)]
pub enum SessionRefError {
    EmptySessionId,
}

impl SessionRefError {
    pub fn message(&self) -> (r: String)
        ensures
            r@ == "session_id cannot be empty"@,
    {
        crate::text::owned("session_id cannot be empty")
    }
}

impl SessionRef {
    /// A reference to the session `session_id`; refused when the id is empty.
    pub fn new(session_id: &str, title: &str) -> (r: Result<SessionRef, SessionRefError>)
        ensures
            session_id@.len() == 0 ==> r == Err::<SessionRef, SessionRefError>(
                SessionRefError::EmptySessionId,
            ),
            session_id@.len() > 0 ==> (r matches Ok(s) && s.session_id@ == session_id@ && s.title@
                == title@),
    {
        if session_id.unicode_len() == 0 {
            return Err(SessionRefError::EmptySessionId);
        }
        Ok(SessionRef { session_id: crate::text::owned(session_id), title: crate::text::owned(title) })
    }
}

#[derive(Debug, Clone, PartialEq, Eq, Structural)]
pub enum DeleteStatus {
    ServerDeleted,
    LocalDeleted,
    Partial,
    Failed,
    Undone,
}

#[derive(Debug, Clone, PartialEq, Eq)]
pub struct DeleteResult {
    pub status: DeleteStatus,
    pub session_id: String,
    pub message: String,
    pub undo_token: Option<String>,
    pub backup_path: Option<String>,
}

#[derive(Debug, Clone, PartialEq, Eq, Structural)]
pub enum ExportStatus {
    Exported,
    Failed,
}

#[derive(Debug, Clone, PartialEq, Eq)]
pub struct ExportResult {
    pub status: ExportStatus,
    pub session_id: String,
    pub message: String,
    pub filename: Option<String>,
    pub markdown: Option<String>,
}

#[derive(Debug, Clone, PartialEq, Eq, Structural)]
pub enum ImageOutputStatus {
    Found,
    Failed,
}

#[derive(Debug, Clone, PartialEq, Eq)]
pub struct ImageOutput {
    pub id: String,
    pub turn_id: Option<String>,
    pub assistant_text: Option<String>,
    pub data_url: String,
    pub output_format: String,
    pub revised_prompt: Option<String>,
    pub timestamp: Option<String>,
}

#[derive(Debug, Clone, PartialEq, Eq)]
pub struct ImageOutputResult {
    pub status: ImageOutputStatus,
    pub session_id: String,
    pub message: String,
    pub images: Vec<ImageOutput>,
}

} // verus!
