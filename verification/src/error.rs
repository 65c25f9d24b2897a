//! The error taxonomy. Every error carries a short code and a message for the
//! boundary.

use vstd::prelude::*;
use vstd::string::StringExecFns;

verus! {

/// What went wrong, with the detail as text.
#[derive(Clone, Debug, PartialEq, Eq)]
pub enum AppError {
    Database(String),
    NotFound(String),
    Validation(String),
    Io(String),
    Json(String),
    Http(String),
    Sidecar(String),
    Llm(String),
    Queue(String),
    Download(String),
    Import(String),
    Export(String),
    Other(String),
}

/// The kinds of errors.
#[derive(Clone, Copy, Debug, PartialEq, Eq, Structural)]
pub enum ErrorKind {
    Database,
    NotFound,
    Validation,
    Io,
    Json,
    Http,
    Sidecar,
    Llm,
    Queue,
    Download,
    Import,
    Export,
    Other,
}

/// A result whose error is an `AppError`.
pub type AppResult<T> = Result<T, AppError>;

impl AppError {
    /// The detail that the error carries.
    pub open spec fn detail(self) -> Seq<char> {
        match self {
            AppError::Database(d) => d@,
            AppError::NotFound(d) => d@,
            AppError::Validation(d) => d@,
            AppError::Io(d) => d@,
            AppError::Json(d) => d@,
            AppError::Http(d) => d@,
            AppError::Sidecar(d) => d@,
            AppError::Llm(d) => d@,
            AppError::Queue(d) => d@,
            AppError::Download(d) => d@,
            AppError::Import(d) => d@,
            AppError::Export(d) => d@,
            AppError::Other(d) => d@,
        }
    }

    /// The kind of the error.
    pub open spec fn kind_of(self) -> ErrorKind {
        match self {
            AppError::Database(_) => ErrorKind::Database,
            AppError::NotFound(_) => ErrorKind::NotFound,
            AppError::Validation(_) => ErrorKind::Validation,
            AppError::Io(_) => ErrorKind::Io,
            AppError::Json(_) => ErrorKind::Json,
            AppError::Http(_) => ErrorKind::Http,
            AppError::Sidecar(_) => ErrorKind::Sidecar,
            AppError::Llm(_) => ErrorKind::Llm,
            AppError::Queue(_) => ErrorKind::Queue,
            AppError::Download(_) => ErrorKind::Download,
            AppError::Import(_) => ErrorKind::Import,
            AppError::Export(_) => ErrorKind::Export,
            AppError::Other(_) => ErrorKind::Other,
        }
    }

    /// The kind of the error.
    pub fn kind(&self) -> (kind: ErrorKind)
        ensures
            kind == self.kind_of(),
    {
        match self {
            AppError::Database(_) => ErrorKind::Database,
            AppError::NotFound(_) => ErrorKind::NotFound,
            AppError::Validation(_) => ErrorKind::Validation,
            AppError::Io(_) => ErrorKind::Io,
            AppError::Json(_) => ErrorKind::Json,
            AppError::Http(_) => ErrorKind::Http,
            AppError::Sidecar(_) => ErrorKind::Sidecar,
            AppError::Llm(_) => ErrorKind::Llm,
            AppError::Queue(_) => ErrorKind::Queue,
            AppError::Download(_) => ErrorKind::Download,
            AppError::Import(_) => ErrorKind::Import,
            AppError::Export(_) => ErrorKind::Export,
            AppError::Other(_) => ErrorKind::Other,
        }
    }

    /// The short code of the error's kind.
    pub open spec fn code_text(self) -> Seq<char> {
        match self {
            AppError::Database(_) => "DATABASE_ERROR"@,
            AppError::NotFound(_) => "NOT_FOUND"@,
            AppError::Validation(_) => "VALIDATION_ERROR"@,
            AppError::Io(_) => "IO_ERROR"@,
            AppError::Json(_) => "JSON_ERROR"@,
            AppError::Http(_) => "HTTP_ERROR"@,
            AppError::Sidecar(_) => "SIDECAR_ERROR"@,
            AppError::Llm(_) => "LLM_ERROR"@,
            AppError::Queue(_) => "QUEUE_ERROR"@,
            AppError::Download(_) => "DOWNLOAD_ERROR"@,
            AppError::Import(_) => "IMPORT_ERROR"@,
            AppError::Export(_) => "EXPORT_ERROR"@,
            AppError::Other(_) => "UNKNOWN_ERROR"@,
        }
    }

    /// What the message of the error's kind begins with.
    pub open spec fn prefix_text(self) -> Seq<char> {
        match self {
            AppError::Database(_) => "Database error: "@,
            AppError::NotFound(_) => "Not found: "@,
            AppError::Validation(_) => "Validation error: "@,
            AppError::Io(_) => "IO error: "@,
            AppError::Json(_) => "JSON error: "@,
            AppError::Http(_) => "HTTP error: "@,
            AppError::Sidecar(_) => "Sidecar error: "@,
            AppError::Llm(_) => "LLM error: "@,
            AppError::Queue(_) => "Queue error: "@,
            AppError::Download(_) => "Download error: "@,
            AppError::Import(_) => "Import error: "@,
            AppError::Export(_) => "Export error: "@,
            AppError::Other(_) => ""@,
        }
    }

    /// The message of the error: its kind, then its detail.
    pub open spec fn message_text(self) -> Seq<char> {
        self.prefix_text() + self.detail()
    }

    /// The short code of the error's kind.
    pub fn code(&self) -> (code: &'static str)
        ensures
            code@ == self.code_text(),
    {
        match self {
            AppError::Database(_) => "DATABASE_ERROR",
            AppError::NotFound(_) => "NOT_FOUND",
            AppError::Validation(_) => "VALIDATION_ERROR",
            AppError::Io(_) => "IO_ERROR",
            AppError::Json(_) => "JSON_ERROR",
            AppError::Http(_) => "HTTP_ERROR",
            AppError::Sidecar(_) => "SIDECAR_ERROR",
            AppError::Llm(_) => "LLM_ERROR",
            AppError::Queue(_) => "QUEUE_ERROR",
            AppError::Download(_) => "DOWNLOAD_ERROR",
            AppError::Import(_) => "IMPORT_ERROR",
            AppError::Export(_) => "EXPORT_ERROR",
            AppError::Other(_) => "UNKNOWN_ERROR",
        }
    }

    /// The message of the error: its kind, then its detail.
    pub fn to_string(&self) -> (message: String)
        ensures
            message@ == self.message_text(),
    {
        let (prefix, detail): (&str, &String) = match self {
            AppError::Database(d) => ("Database error: ", d),
            AppError::NotFound(d) => ("Not found: ", d),
            AppError::Validation(d) => ("Validation error: ", d),
            AppError::Io(d) => ("IO error: ", d),
            AppError::Json(d) => ("JSON error: ", d),
            AppError::Http(d) => ("HTTP error: ", d),
            AppError::Sidecar(d) => ("Sidecar error: ", d),
            AppError::Llm(d) => ("LLM error: ", d),
            AppError::Queue(d) => ("Queue error: ", d),
            AppError::Download(d) => ("Download error: ", d),
            AppError::Import(d) => ("Import error: ", d),
            AppError::Export(d) => ("Export error: ", d),
            AppError::Other(d) => ("", d),
        };
        let mut message = prefix.to_owned();
        message.append(detail.as_str());
        message
    }
}

/// An error as the boundary sees it.
#[derive(Clone, Debug, PartialEq, Eq)]
pub struct CommandError {
    pub code: String,
    pub message: String,
}

impl CommandError {
    /// The error `err` as the boundary sees it: the code of its kind and its
    /// message.
    pub fn from(err: AppError) -> (out: CommandError)
        ensures
            out.code@ == err.code_text(),
            out.message@ == err.message_text(),
    {
        CommandError { code: err.code().to_owned(), message: err.to_string() }
    }
}

} // verus!
