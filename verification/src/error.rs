//! The errors that the file operations report, with their stable codes and
//! their messages.
use vstd::prelude::*;

verus! {

/// An error of a file operation.
#[derive(Debug)]
pub enum AppError {
    Io(String),
    Permission(String),
    NotFound(String),
    AlreadyExists(String),
    Conflict { path: String, is_dir: bool },
    IllegalTarget(String),
    BusyTask,
    Internal(String),
}

/// An `AppError` with its texts read as character sequences.
pub enum AppErrorView {
    Io(Seq<char>),
    Permission(Seq<char>),
    NotFound(Seq<char>),
    AlreadyExists(Seq<char>),
    Conflict { path: Seq<char>, is_dir: bool },
    IllegalTarget(Seq<char>),
    BusyTask,
    Internal(Seq<char>),
}

impl View for AppError {
    type V = AppErrorView;

    open spec fn view(&self) -> AppErrorView {
        match self {
            AppError::Io(s) => AppErrorView::Io(s@),
            AppError::Permission(s) => AppErrorView::Permission(s@),
            AppError::NotFound(s) => AppErrorView::NotFound(s@),
            AppError::AlreadyExists(s) => AppErrorView::AlreadyExists(s@),
            AppError::Conflict { path, is_dir } => AppErrorView::Conflict { path: path@, is_dir: *is_dir },
            AppError::IllegalTarget(s) => AppErrorView::IllegalTarget(s@),
            AppError::BusyTask => AppErrorView::BusyTask,
            AppError::Internal(s) => AppErrorView::Internal(s@),
        }
    }
}

/// The result of a file operation.
pub type AppResult<T> = Result<T, AppError>;

/// The stable code of each kind of error, as the user interface receives it.
pub open spec fn error_code(e: AppErrorView) -> Seq<char> {
    match e {
        AppErrorView::Io(_) => "IO"@,
        AppErrorView::Permission(_) => "PERMISSION"@,
        AppErrorView::NotFound(_) => "NOT_FOUND"@,
        AppErrorView::AlreadyExists(_) => "ALREADY_EXISTS"@,
        AppErrorView::Conflict { .. } => "CONFLICT"@,
        AppErrorView::IllegalTarget(_) => "ILLEGAL_TARGET"@,
        AppErrorView::BusyTask => "BUSY_TASK"@,
        AppErrorView::Internal(_) => "INTERNAL"@,
    }
}

/// The human-readable message of an error.
pub open spec fn error_message(e: AppErrorView) -> Seq<char> {
    match e {
        AppErrorView::Io(s) => "io error: "@ + s,
        AppErrorView::Permission(s) => "permission denied: "@ + s,
        AppErrorView::NotFound(s) => "not found: "@ + s,
        AppErrorView::AlreadyExists(s) => "already exists: "@ + s,
        AppErrorView::Conflict { path, .. } => "conflict at: "@ + path,
        AppErrorView::IllegalTarget(s) => "illegal target: "@ + s,
        AppErrorView::BusyTask => "a background task is running"@,
        AppErrorView::Internal(s) => "internal error: "@ + s,
    }
}

/// The kinds of operating-system I/O failure that map to distinct errors.
#[derive(Debug, Clone, Copy, PartialEq, Eq, Structural)]
pub enum IoErrorKind {
    NotFound,
    PermissionDenied,
    AlreadyExists,
    Other,
}

/// The error for an operating-system I/O failure of kind `kind` described
/// by `text`.
pub open spec fn io_error_of(kind: IoErrorKind, text: Seq<char>) -> AppErrorView {
    match kind {
        IoErrorKind::NotFound => AppErrorView::NotFound(text),
        IoErrorKind::PermissionDenied => AppErrorView::Permission(text),
        IoErrorKind::AlreadyExists => AppErrorView::AlreadyExists(text),
        IoErrorKind::Other => AppErrorView::Io(text),
    }
}

impl AppError {
    /// The stable code of this error.
    pub fn code(&self) -> (r: &'static str)
        ensures
            r@ == error_code(self@),
    {
        match self {
            AppError::Io(_) => "IO",
            AppError::Permission(_) => "PERMISSION",
            AppError::NotFound(_) => "NOT_FOUND",
            AppError::AlreadyExists(_) => "ALREADY_EXISTS",
            AppError::Conflict { .. } => "CONFLICT",
            AppError::IllegalTarget(_) => "ILLEGAL_TARGET",
            AppError::BusyTask => "BUSY_TASK",
            AppError::Internal(_) => "INTERNAL",
        }
    }

    /// The human-readable message of this error.
    pub fn message(&self) -> (r: String)
        ensures
            r@ == error_message(self@),
    {
        match self {
            AppError::Io(s) => String::from_str("io error: ").concat(s.as_str()),
            AppError::Permission(s) => String::from_str("permission denied: ").concat(s.as_str()),
            AppError::NotFound(s) => String::from_str("not found: ").concat(s.as_str()),
            AppError::AlreadyExists(s) => String::from_str("already exists: ").concat(s.as_str()),
            AppError::Conflict { path, .. } => String::from_str("conflict at: ").concat(path.as_str()),
            AppError::IllegalTarget(s) => String::from_str("illegal target: ").concat(s.as_str()),
            AppError::BusyTask => String::from_str("a background task is running"),
            AppError::Internal(s) => String::from_str("internal error: ").concat(s.as_str()),
        }
    }

    /// The error for an operating-system I/O failure of kind `kind`
    /// described by `text`.
    pub fn from_io(kind: IoErrorKind, text: String) -> (r: AppError)
        ensures
            r@ == io_error_of(kind, text@),
    {
        match kind {
            IoErrorKind::NotFound => AppError::NotFound(text),
            IoErrorKind::PermissionDenied => AppError::Permission(text),
            IoErrorKind::AlreadyExists => AppError::AlreadyExists(text),
            IoErrorKind::Other => AppError::Io(text),
        }
    }
}

} // verus!
