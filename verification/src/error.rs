//! The application-wide error type.

use vstd::prelude::*;
use vstd::string::StringExecFns;

verus! {

/// The result of an operation that can fail with an `AppError`.
pub type AppResult<T> = Result<T, AppError>;

/// An application error: its kind, and the detail reported with it.
#[derive(Clone, Debug, PartialEq, Eq)]
pub enum AppError {
    /// IO errors
    IoError(String),
    /// Database errors
    DatabaseError(String),
    /// Configuration errors
    ConfigError(String),
    /// Network errors
    NetworkError(String),
    /// Serialization/deserialization errors
    SerializationError(String),
    /// Validation errors
    ValidationError(String),
    /// AI service errors
    AiServiceError(String),
    /// File system errors
    FileSystemError(String),
    /// Process execution errors
    ProcessError(String),
    /// Errors of the window toolkit
    TauriError(String),
    /// Errors without a kind of their own
    AnyhowError(String),
    /// Generic errors
    GenericError(String),
}

impl AppError {
    /// The detail reported with the error.
    pub open spec fn detail(self) -> Seq<char> {
        match self {
            AppError::IoError(d) => d@,
            AppError::DatabaseError(d) => d@,
            AppError::ConfigError(d) => d@,
            AppError::NetworkError(d) => d@,
            AppError::SerializationError(d) => d@,
            AppError::ValidationError(d) => d@,
            AppError::AiServiceError(d) => d@,
            AppError::FileSystemError(d) => d@,
            AppError::ProcessError(d) => d@,
            AppError::TauriError(d) => d@,
            AppError::AnyhowError(d) => d@,
            AppError::GenericError(d) => d@,
        }
    }

    /// The words that introduce an error of this kind.
    pub open spec fn prefix(self) -> Seq<char> {
        match self {
            AppError::IoError(_) => "IO error: "@,
            AppError::DatabaseError(_) => "Database error: "@,
            AppError::ConfigError(_) => "Configuration error: "@,
            AppError::NetworkError(_) => "Network error: "@,
            AppError::SerializationError(_) => "Serialization error: "@,
            AppError::ValidationError(_) => "Validation error: "@,
            AppError::AiServiceError(_) => "AI service error: "@,
            AppError::FileSystemError(_) => "File system error: "@,
            AppError::ProcessError(_) => "Process execution error: "@,
            AppError::TauriError(_) => "Tauri error: "@,
            AppError::AnyhowError(_) => "Other error: "@,
            AppError::GenericError(_) => "Error: "@,
        }
    }

    /// The text shown for the error: the words for its kind, then its detail.
    pub open spec fn rendered(self) -> Seq<char> {
        self.prefix() + self.detail()
    }

    /// The text shown for the error.
    pub fn message(&self) -> (text: String)
        ensures
            text@ == self.rendered(),
    {
        let (prefix, detail) = match self {
            AppError::IoError(d) => ("IO error: ", d),
            AppError::DatabaseError(d) => ("Database error: ", d),
            AppError::ConfigError(d) => ("Configuration error: ", d),
            AppError::NetworkError(d) => ("Network error: ", d),
            AppError::SerializationError(d) => ("Serialization error: ", d),
            AppError::ValidationError(d) => ("Validation error: ", d),
            AppError::AiServiceError(d) => ("AI service error: ", d),
            AppError::FileSystemError(d) => ("File system error: ", d),
            AppError::ProcessError(d) => ("Process execution error: ", d),
            AppError::TauriError(d) => ("Tauri error: ", d),
            AppError::AnyhowError(d) => ("Other error: ", d),
            AppError::GenericError(d) => ("Error: ", d),
        };
        let mut text = prefix.to_owned();
        text.append(detail.as_str());
        text
    }
}

/// A validation error with the given detail.
pub fn validation_error(message: &str) -> (error: AppError)
    ensures
        error matches AppError::ValidationError(detail) && detail@ == message@,
{
    AppError::ValidationError(message.to_owned())
}

/// A generic error with the given detail.
pub fn generic_error(message: &str) -> (error: AppError)
    ensures
        error matches AppError::GenericError(detail) && detail@ == message@,
{
    AppError::GenericError(message.to_owned())
}

} // verus!
