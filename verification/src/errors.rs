//! Error taxonomy of the engine.
//!
//! Store operations fail with a `DbError`; request handlers reduce those to
//! client-visible `ApiError`s, and the transport boundary maps each
//! `ApiError` to exactly one `TransportCode`.

use vstd::prelude::*;

verus! {

/// An error from the keyed store.
#[derive(Debug, PartialEq)]
pub enum DbError {
    /// The requested key was not found.
    NotFound,
    /// The value already exists (insert-only stores).
    DuplicateValue,
    /// A stored value could not be decoded.
    ParsingFailure,
    /// Any other failure of the underlying store, by its message.
    Other(String),
}

/// A client-visible error of the request handlers.
#[derive(Debug, PartialEq)]
pub enum ApiError {
    UserNotFound { user_id: String },
    UserAlreadyExists { user_id: String },
    RoomNotFound { room_id: String },
    RoomAlreadyExists { room_id: String },
    BadRequest { message: String },
    InternalServerError,
}

/// The status code a transport reports for an `ApiError`.
#[derive(Debug, PartialEq, Eq, Structural, Clone, Copy)]
pub enum TransportCode {
    NotFound,
    AlreadyExists,
    InvalidArgument,
    Internal,
}

/// Reduces a store result to a client-visible one, as the handlers do.
pub trait ResultExtApp<T>: Sized {
    /// Keeps a success; a not-found store error becomes the given
    /// `api_error`, anything else an internal error.
    fn to_not_found(self, api_error: ApiError) -> Result<T, ApiError>;

    /// Keeps a success; a duplicate-value store error becomes the given
    /// `api_error`, anything else an internal error.
    fn to_duplicate(self, api_error: ApiError) -> Result<T, ApiError>;

    /// Keeps a success; every store error becomes an internal error.
    fn to_internal_api_error(self) -> Result<T, ApiError>;
}

impl<T> ResultExtApp<T> for Result<T, DbError> {
    fn to_not_found(self, api_error: ApiError) -> (r: Result<T, ApiError>)
        ensures
            self matches Ok(v) ==> r == Ok::<T, ApiError>(v),
            (self matches Err(e) && e is NotFound) ==> r == Err::<T, ApiError>(api_error),
            (self matches Err(e) && !(e is NotFound)) ==> r == Err::<T, ApiError>(
                ApiError::InternalServerError,
            ),
    {
        match self {
            Ok(v) => Ok(v),
            Err(DbError::NotFound) => Err(api_error),
            Err(_) => Err(ApiError::InternalServerError),
        }
    }

    fn to_duplicate(self, api_error: ApiError) -> (r: Result<T, ApiError>)
        ensures
            self matches Ok(v) ==> r == Ok::<T, ApiError>(v),
            (self matches Err(e) && e is DuplicateValue) ==> r == Err::<T, ApiError>(api_error),
            (self matches Err(e) && !(e is DuplicateValue)) ==> r == Err::<T, ApiError>(
                ApiError::InternalServerError,
            ),
    {
        match self {
            Ok(v) => Ok(v),
            Err(DbError::DuplicateValue) => Err(api_error),
            Err(_) => Err(ApiError::InternalServerError),
        }
    }

    fn to_internal_api_error(self) -> (r: Result<T, ApiError>)
        ensures
            self matches Ok(v) ==> r == Ok::<T, ApiError>(v),
            self is Err ==> r == Err::<T, ApiError>(ApiError::InternalServerError),
    {
        match self {
            Ok(v) => Ok(v),
            Err(_) => Err(ApiError::InternalServerError),
        }
    }
}

impl DbError {
    pub fn is_not_found(&self) -> (r: bool)
        ensures
            r == (self is NotFound),
    {
        matches!(self, DbError::NotFound)
    }
}

impl ApiError {
    /// The transport code for this error, exactly as the boundary maps it.
    pub fn transport_code(&self) -> (r: TransportCode)
        ensures
            r == self.spec_transport_code(),
    {
        match self {
            ApiError::UserNotFound { .. } => TransportCode::NotFound,
            ApiError::RoomNotFound { .. } => TransportCode::NotFound,
            ApiError::UserAlreadyExists { .. } => TransportCode::AlreadyExists,
            ApiError::RoomAlreadyExists { .. } => TransportCode::AlreadyExists,
            ApiError::BadRequest { .. } => TransportCode::InvalidArgument,
            ApiError::InternalServerError => TransportCode::Internal,
        }
    }

    pub open spec fn spec_transport_code(&self) -> TransportCode {
        match self {
            ApiError::UserNotFound { .. } => TransportCode::NotFound,
            ApiError::RoomNotFound { .. } => TransportCode::NotFound,
            ApiError::UserAlreadyExists { .. } => TransportCode::AlreadyExists,
            ApiError::RoomAlreadyExists { .. } => TransportCode::AlreadyExists,
            ApiError::BadRequest { .. } => TransportCode::InvalidArgument,
            ApiError::InternalServerError => TransportCode::Internal,
        }
    }
}

} // verus!
