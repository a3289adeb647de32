//! The one error type of the library.
use vstd::prelude::*;
use vstd::string::StringExecFns;

verus! {

/// Why a request failed. Every failure ends the request; none is retried.
#[derive(Debug, PartialEq, Eq)]
pub enum AppError {
    /// The request itself is at fault: malformed SQL, a statement that is no
    /// query, an unknown table function, a missing or invalid argument, a
    /// missing column.
    BadRequest { message: String },
    /// A file that the request names does not exist.
    FileNotFound { file_name: String },
    /// Something below the library failed: I/O, the engine, a connection.
    InternalServer { message: String },
}

/// The result of every fallible function of the library.
pub type AppResult<T> = Result<T, AppError>;

/// An `AppError` with each text as a sequence of characters.
pub enum AppErrorView {
    BadRequest { message: Seq<char> },
    FileNotFound { file_name: Seq<char> },
    InternalServer { message: Seq<char> },
}

impl View for AppError {
    type V = AppErrorView;

    open spec fn view(&self) -> AppErrorView {
        match self {
            AppError::BadRequest { message } => AppErrorView::BadRequest { message: message@ },
            AppError::FileNotFound { file_name } => AppErrorView::FileNotFound {
                file_name: file_name@,
            },
            AppError::InternalServer { message } => AppErrorView::InternalServer {
                message: message@,
            },
        }
    }
}

impl Clone for AppError {
    fn clone(&self) -> (r: AppError)
        ensures
            r@ == self@,
    {
        match self {
            AppError::BadRequest { message } => AppError::BadRequest { message: message.clone() },
            AppError::FileNotFound { file_name } => AppError::FileNotFound {
                file_name: file_name.clone(),
            },
            AppError::InternalServer { message } => AppError::InternalServer {
                message: message.clone(),
            },
        }
    }
}

/// The `BadRequest` whose message is `text`.
pub open spec fn bad_request_view(text: Seq<char>) -> AppErrorView {
    AppErrorView::BadRequest { message: text }
}

/// Whether a computed result is the one that `expected` describes: the same
/// value up to views on success, the same error up to views on failure.
pub open spec fn agrees<T: View>(got: AppResult<T>, expected: Result<T::V, AppErrorView>) -> bool {
    match got {
        Ok(v) => expected == Ok::<T::V, AppErrorView>(v@),
        Err(e) => expected == Err::<T::V, AppErrorView>(e@),
    }
}

impl AppError {
    /// The text shown to the caller for this error.
    pub open spec fn message_text(&self) -> Seq<char> {
        match self {
            AppError::BadRequest { message } => message@,
            AppError::FileNotFound { file_name } => "File not found: "@ + file_name@,
            AppError::InternalServer { message } => message@,
        }
    }

    /// Whether this is a `BadRequest` whose message is `text`.
    pub open spec fn is_bad_request(&self, text: Seq<char>) -> bool {
        self matches AppError::BadRequest { message } && message@ == text
    }

    /// Whether this is an `InternalServer` whose message is `text`.
    pub open spec fn is_internal_server(&self, text: Seq<char>) -> bool {
        self matches AppError::InternalServer { message } && message@ == text
    }

    /// Whether this is a `FileNotFound` for the file `name`.
    pub open spec fn is_file_not_found(&self, name: Seq<char>) -> bool {
        self matches AppError::FileNotFound { file_name } && file_name@ == name
    }

    /// A `BadRequest` with the given message.
    pub fn bad_request(message: &str) -> (e: AppError)
        ensures
            e.is_bad_request(message@),
            e@ == bad_request_view(message@),
    {
        AppError::BadRequest { message: String::from_str(message) }
    }

    /// An `InternalServer` with the given message.
    pub fn internal_server(message: &str) -> (e: AppError)
        ensures
            e.is_internal_server(message@),
    {
        AppError::InternalServer { message: String::from_str(message) }
    }

    /// A `FileNotFound` for the given file.
    pub fn file_not_found(file_name: &str) -> (e: AppError)
        ensures
            e.is_file_not_found(file_name@),
    {
        AppError::FileNotFound { file_name: String::from_str(file_name) }
    }

    /// The text shown to the caller for this error.
    pub fn message(&self) -> (text: String)
        ensures
            text@ == self.message_text(),
    {
        match self {
            AppError::BadRequest { message } => message.clone(),
            AppError::FileNotFound { file_name } => {
                String::from_str("File not found: ").concat(file_name.as_str())
            },
            AppError::InternalServer { message } => message.clone(),
        }
    }

    /// Called wherever an error of another layer is turned into an
    /// `AppError`. It records nothing.
    pub fn log_backtrace() {
    }
}

} // verus!
