use vstd::prelude::*;

verus! {

/// Classification of every failure the library reports.
#[derive(Debug, Clone, Copy, PartialEq, Eq, Structural)]
pub enum ErrorKey {
    InvalidUidFormat,
    InvalidGameBizParameter,
    UrlParseError,
    UrlMissingRequiredParameters,
    MihoyoApiInvalidLanguage,
    MihoyoApiAuthkeyExpired,
    MihoyoApiInvalidAuthkey,
    MihoyoApiRequestTooFrequent,
    MihoyoApiInvalidGameBiz,
    MihoyoApiUnknownError,
    MihoyoApiDataIsNone,
    GachaUrlNotFound,
    GachaRecordIsEmpty,
    GachaUidMismatch,
    GameLogFileNotFound,
    GameInstallPathNotFound,
    GameCacheFileNotFound,
    InvalidUIGFFormat,
    MetadataItemNotFound,
    MetadataNotAvailable,
    InvalidTimeOffset,
    TimeParseError,
    JsonParseError,
    DatabaseError,
    IoError,
    NetworkRequestFailed,
    TaskExecutionFailed,
    AccountAlreadyExists,
    AccountNotFound,
}

/// A classification key together with the structured arguments of one failure.
#[derive(Debug, Clone)]
pub struct ErrorContext {
    pub key: ErrorKey,
    pub args: Vec<String>,
}

impl ErrorContext {
    pub fn new(key: ErrorKey, args: Vec<String>) -> (r: Self)
        ensures
            r.key == key,
            r.args@ == args@,
    {
        ErrorContext { key, args }
    }
}

/// The error type of every fallible operation of the library.
#[derive(Debug, Clone)]
pub struct AppError {
    pub msg: ErrorContext,
}

impl AppError {
    pub fn new(key: ErrorKey, args: Vec<String>) -> (r: Self)
        ensures
            r.msg.key == key,
            r.msg.args@ == args@,
    {
        AppError { msg: ErrorContext::new(key, args) }
    }

    /// An error that carries no arguments.
    pub fn of(key: ErrorKey) -> (r: Self)
        ensures
            r.msg.key == key,
            r.msg.args@.len() == 0,
    {
        AppError::new(key, Vec::new())
    }

    pub open spec fn key(self) -> ErrorKey {
        self.msg.key
    }
}

/// The result type of the library's fallible operations.
pub type Result<T> = core::result::Result<T, AppError>;

} // verus!
