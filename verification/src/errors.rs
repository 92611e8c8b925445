use vstd::prelude::*;

verus! {

/// The outcome type used across the crate.
pub type AppResult<T> = Result<T, AppError>;

/// Every failure the manager distinguishes.  Failures that originate outside
/// the verified code (I/O, JSON handling, the network) arrive here as plain
/// message strings.
#[derive(Debug, Clone, PartialEq, Eq)]
pub enum AppError {
    InvalidHomePath,
    InvalidPath(String),
    PathConversionError(String),
    IoError(String),
    SerdeJsonError(String),
    UnsupportedPlatform,
    NetworkError(String),
    RegexError,
}

/// The short description of each failure category.
pub open spec fn message_of(e: AppError) -> Seq<char> {
    match e {
        AppError::InvalidHomePath => "Invalid home path"@,
        AppError::InvalidPath(_) => "Invalid path"@,
        AppError::PathConversionError(_) => "Path conversion error"@,
        AppError::IoError(_) => "IO error"@,
        AppError::SerdeJsonError(_) => "JSON error"@,
        AppError::UnsupportedPlatform => "Unsupported platform"@,
        AppError::NetworkError(_) => "Network error"@,
        AppError::RegexError => "Regex error"@,
    }
}

impl AppError {
    /// A human-readable description of the failure's category.
    pub fn message(&self) -> (r: String)
        ensures
            r@ == message_of(*self),
            r@.len() > 0,
    {
        let m = match self {
            AppError::InvalidHomePath => "Invalid home path",
            AppError::InvalidPath(_) => "Invalid path",
            AppError::PathConversionError(_) => "Path conversion error",
            AppError::IoError(_) => "IO error",
            AppError::SerdeJsonError(_) => "JSON error",
            AppError::UnsupportedPlatform => "Unsupported platform",
            AppError::NetworkError(_) => "Network error",
            AppError::RegexError => "Regex error",
        };
        proof {
            reveal_strlit("Invalid home path");
            reveal_strlit("Invalid path");
            reveal_strlit("Path conversion error");
            reveal_strlit("IO error");
            reveal_strlit("JSON error");
            reveal_strlit("Unsupported platform");
            reveal_strlit("Network error");
            reveal_strlit("Regex error");
        }
        m.to_owned()
    }
}

} // verus!
