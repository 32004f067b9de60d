use lib_api::error::{
    found, RepositoryError, ValidationError, BAD_REQUEST, CONFLICT, INTERNAL_SERVER_ERROR,
    NOT_FOUND,
};

#[test]
fn messages_name_what_was_wrong() {
    assert_eq!(
        ValidationError::UnknownParameter("x".to_string()).message(),
        "the parameter 'x' is incorrect"
    );
    assert_eq!(
        ValidationError::ConflictingFilters.message(),
        "select only one of them, id xor ids"
    );
    assert_eq!(
        ValidationError::InvalidInteger("1.5".to_string()).message(),
        "Error parsing string: '1.5', not a valid integer"
    );
    assert_eq!(
        ValidationError::InvalidFloat("".to_string()).message(),
        "Error parsing string: '', not a valid float"
    );
}

#[test]
fn validation_errors_are_bad_requests() {
    assert_eq!(BAD_REQUEST, 400);
    assert_eq!(ValidationError::ConflictingFilters.status_code(), 400);
    assert_eq!(ValidationError::UnknownParameter("x".to_string()).status_code(), 400);
    assert_eq!(ValidationError::InvalidInteger("x".to_string()).status_code(), 400);
    assert_eq!(ValidationError::InvalidFloat("x".to_string()).status_code(), 400);
}

#[test]
fn repository_errors_have_their_status() {
    assert_eq!((NOT_FOUND, CONFLICT, INTERNAL_SERVER_ERROR), (404, 409, 500));
    assert_eq!(
        RepositoryError::Validation(ValidationError::ConflictingFilters).status_code(),
        400
    );
    assert_eq!(RepositoryError::NotFound(3).status_code(), 404);
    assert_eq!(RepositoryError::StorageConflict("dup".to_string()).status_code(), 409);
    assert_eq!(RepositoryError::StorageUnavailable("pool".to_string()).status_code(), 500);
    assert_eq!(RepositoryError::Storage("boom".to_string()).status_code(), 500);
}

#[test]
fn a_missing_row_is_not_found() {
    assert_eq!(found::<u8>(9, None), Err(RepositoryError::NotFound(9)));
}

#[test]
fn a_row_that_came_is_handed_on() {
    assert_eq!(found(9, Some("row")), Ok("row"));
}

#[test]
fn clone_keeps_the_error() {
    let e = ValidationError::InvalidInteger("a".to_string());
    assert_eq!(e.clone(), e);
    assert_eq!(ValidationError::ConflictingFilters.clone(), ValidationError::ConflictingFilters);
}
