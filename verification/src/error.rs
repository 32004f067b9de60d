use vstd::prelude::*;
use vstd::string::StringExecFns;

verus! {

/// Why a filter request was turned down before any query was built.
#[derive(Debug, PartialEq, Eq)]
pub enum ValidationError {
    /// The request names a key that the resource does not filter by.
    UnknownParameter(String),
    /// The request holds both `id` and `ids`.
    ConflictingFilters,
    /// A value is not an integer in base ten; it is carried as it was given.
    InvalidInteger(String),
    /// A value is not a floating-point number in base ten; it is carried as
    /// it was given.
    InvalidFloat(String),
}

/// A `ValidationError` with its texts as sequences of characters.
pub enum ValidationFailure {
    UnknownParameter(Seq<char>),
    ConflictingFilters,
    InvalidInteger(Seq<char>),
    InvalidFloat(Seq<char>),
}

impl View for ValidationError {
    type V = ValidationFailure;

    open spec fn view(&self) -> ValidationFailure {
        match self {
            ValidationError::UnknownParameter(key) => ValidationFailure::UnknownParameter(key@),
            ValidationError::ConflictingFilters => ValidationFailure::ConflictingFilters,
            ValidationError::InvalidInteger(raw) => ValidationFailure::InvalidInteger(raw@),
            ValidationError::InvalidFloat(raw) => ValidationFailure::InvalidFloat(raw@),
        }
    }
}

/// The sentence that reports `failure` to the client.
pub open spec fn failure_message(failure: ValidationFailure) -> Seq<char> {
    match failure {
        ValidationFailure::UnknownParameter(key) => "the parameter '"@ + key + "' is incorrect"@,
        ValidationFailure::ConflictingFilters => "select only one of them, id xor ids"@,
        ValidationFailure::InvalidInteger(raw) => "Error parsing string: '"@ + raw
            + "', not a valid integer"@,
        ValidationFailure::InvalidFloat(raw) => "Error parsing string: '"@ + raw
            + "', not a valid float"@,
    }
}

/// The HTTP status that a request which is not well formed is answered with.
pub const BAD_REQUEST: u16 = 400;

/// The HTTP status that a request for a row which does not exist is answered with.
pub const NOT_FOUND: u16 = 404;

/// The HTTP status that a write which breaks a uniqueness rule of the storage
/// is answered with.
pub const CONFLICT: u16 = 409;

/// The HTTP status that any other failure of the storage is answered with.
pub const INTERNAL_SERVER_ERROR: u16 = 500;

impl Clone for ValidationError {
    fn clone(&self) -> (copy: Self)
        ensures
            copy@ == self@,
    {
        match self {
            ValidationError::UnknownParameter(key) => ValidationError::UnknownParameter(
                key.clone(),
            ),
            ValidationError::ConflictingFilters => ValidationError::ConflictingFilters,
            ValidationError::InvalidInteger(raw) => ValidationError::InvalidInteger(raw.clone()),
            ValidationError::InvalidFloat(raw) => ValidationError::InvalidFloat(raw.clone()),
        }
    }
}

impl ValidationError {
    /// The sentence that reports this error to the client.
    pub fn message(&self) -> (text: String)
        ensures
            text@ == failure_message(self@),
    {
        match self {
            ValidationError::UnknownParameter(key) => {
                let mut text = String::from_str("the parameter '");
                text.append(key.as_str());
                text.append("' is incorrect");
                text
            },
            ValidationError::ConflictingFilters => String::from_str(
                "select only one of them, id xor ids",
            ),
            ValidationError::InvalidInteger(raw) => {
                let mut text = String::from_str("Error parsing string: '");
                text.append(raw.as_str());
                text.append("', not a valid integer");
                text
            },
            ValidationError::InvalidFloat(raw) => {
                let mut text = String::from_str("Error parsing string: '");
                text.append(raw.as_str());
                text.append("', not a valid float");
                text
            },
        }
    }

    /// The HTTP status that this error is answered with.
    pub fn status_code(&self) -> (code: u16)
        ensures
            code == BAD_REQUEST,
    {
        BAD_REQUEST
    }
}

/// Why an operation on a resource failed. What the storage said of a
/// failure is carried as text.
#[derive(Debug, PartialEq, Eq)]
pub enum RepositoryError {
    /// The filter request was not well formed; nothing was asked of the storage.
    Validation(ValidationError),
    /// No row has this id.
    NotFound(i32),
    /// The write breaks a uniqueness rule of the storage.
    StorageConflict(String),
    /// No connection to the storage could be had.
    StorageUnavailable(String),
    /// The storage failed in another way.
    Storage(String),
}

/// A `RepositoryError` with its texts as sequences of characters.
pub enum RepositoryFailure {
    Validation(ValidationFailure),
    NotFound(i32),
    StorageConflict(Seq<char>),
    StorageUnavailable(Seq<char>),
    Storage(Seq<char>),
}

impl View for RepositoryError {
    type V = RepositoryFailure;

    open spec fn view(&self) -> RepositoryFailure {
        match self {
            RepositoryError::Validation(e) => RepositoryFailure::Validation(e@),
            RepositoryError::NotFound(id) => RepositoryFailure::NotFound(*id),
            RepositoryError::StorageConflict(text) => RepositoryFailure::StorageConflict(text@),
            RepositoryError::StorageUnavailable(text) => RepositoryFailure::StorageUnavailable(
                text@,
            ),
            RepositoryError::Storage(text) => RepositoryFailure::Storage(text@),
        }
    }
}

/// The HTTP status that `failure` is answered with.
pub open spec fn failure_status(failure: RepositoryFailure) -> u16 {
    match failure {
        RepositoryFailure::Validation(_) => BAD_REQUEST,
        RepositoryFailure::NotFound(_) => NOT_FOUND,
        RepositoryFailure::StorageConflict(_) => CONFLICT,
        RepositoryFailure::StorageUnavailable(_) => INTERNAL_SERVER_ERROR,
        RepositoryFailure::Storage(_) => INTERNAL_SERVER_ERROR,
    }
}

impl RepositoryError {
    /// The HTTP status that this error is answered with.
    pub fn status_code(&self) -> (code: u16)
        ensures
            code == failure_status(self@),
    {
        match self {
            RepositoryError::Validation(_) => BAD_REQUEST,
            RepositoryError::NotFound(_) => NOT_FOUND,
            RepositoryError::StorageConflict(_) => CONFLICT,
            RepositoryError::StorageUnavailable(_) => INTERNAL_SERVER_ERROR,
            RepositoryError::Storage(_) => INTERNAL_SERVER_ERROR,
        }
    }
}

/// What a lookup of the row with the id `id` comes to, given the row that
/// the storage returned for it, if any: that row, or `NotFound` with the id.
pub fn found<T>(id: i32, row: Option<T>) -> (r: Result<T, RepositoryError>)
    ensures
        match row {
            Some(hit) => r == Ok::<T, RepositoryError>(hit),
            None => r == Err::<T, RepositoryError>(RepositoryError::NotFound(id)),
        },
{
    match row {
        Some(hit) => Ok(hit),
        None => Err(RepositoryError::NotFound(id)),
    }
}

} // verus!
