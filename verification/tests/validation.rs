use lib_api::error::ValidationError;
use lib_api::params::Params;
use lib_api::schema::{FieldKind, Schema};
use lib_api::validate::{
    check_value, check_values, key_allowed, validate, validate_book_params,
    validate_employees_params, validate_members_params,
};

fn params_of(pairs: &[(&str, &str)]) -> Params {
    let mut params = Params::new();
    for (key, value) in pairs {
        params.insert(key.to_string(), value.to_string());
    }
    params
}

#[test]
fn validate_members_params_test_ok() {
    let params = params_of(&[
        ("id", "1"),
        ("first_name", "a name"),
        ("last_name", "a first name"),
        ("email", "tests@gg.com"),
        ("address", "test street"),
        ("age", "18"),
    ]);
    assert_eq!(validate_members_params(&params), Ok(true));
}

#[test]
fn validate_members_params_test_ko_ids() {
    let params = params_of(&[
        ("id", "1"),
        ("ids", "1,2"),
        ("first_name", "a name"),
        ("last_name", "a first name"),
        ("email", "tests@gg.com"),
        ("address", "test street"),
        ("age", "18"),
    ]);
    let e = validate_members_params(&params).unwrap_err();
    assert_eq!(e, ValidationError::ConflictingFilters);
    assert_eq!(e.message(), "select only one of them, id xor ids");
}

#[test]
fn validate_members_params_test_ko_age() {
    let params = params_of(&[
        ("ids", "1,2"),
        ("first_name", "a name"),
        ("last_name", "a first name"),
        ("email", "tests@gg.com"),
        ("address", "test street"),
        ("age", "a"),
    ]);
    let e = validate_members_params(&params).unwrap_err();
    assert_eq!(e, ValidationError::InvalidInteger("a".to_string()));
    assert_eq!(e.message(), "Error parsing string: 'a', not a valid integer");
}

#[test]
fn validate_book_params_test_ok() {
    let params = params_of(&[
        ("id", "1"),
        ("title", "a title"),
        ("isbn", "1234"),
        ("copies_available", "3"),
        ("copies", "3"),
    ]);
    assert_eq!(validate_book_params(&params), Ok(true));
}

#[test]
fn validate_book_params_test_ko_ids() {
    let params = params_of(&[
        ("ids", "1,2"),
        ("id", "1"),
        ("title", "a title"),
        ("isbn", "1234"),
        ("copies_available", "3"),
        ("copies", "3"),
    ]);
    let e = validate_book_params(&params).unwrap_err();
    assert_eq!(e.message(), "select only one of them, id xor ids");
}

#[test]
fn id_must_be_an_integer() {
    assert_eq!(
        validate_book_params(&params_of(&[("id", "a")])),
        Err(ValidationError::InvalidInteger("a".to_string()))
    );
    assert_eq!(validate_book_params(&params_of(&[("id", "2")])), Ok(true));
    assert_eq!(
        validate_members_params(&params_of(&[("id", "a")])),
        Err(ValidationError::InvalidInteger("a".to_string()))
    );
    assert_eq!(validate_employees_params(&params_of(&[("id", "2")])), Ok(true));
}

#[test]
fn unknown_key_is_rejected_for_every_resource() {
    let params = params_of(&[("id", "1"), ("colour", "red")]);
    let expected = Err(ValidationError::UnknownParameter("colour".to_string()));
    assert_eq!(validate_book_params(&params), expected);
    assert_eq!(validate_members_params(&params), expected);
    assert_eq!(validate_employees_params(&params), expected);
    assert_eq!(
        ValidationError::UnknownParameter("colour".to_string()).message(),
        "the parameter 'colour' is incorrect"
    );
}

#[test]
fn keys_of_one_resource_are_unknown_to_another() {
    assert_eq!(
        validate_book_params(&params_of(&[("age", "3")])),
        Err(ValidationError::UnknownParameter("age".to_string()))
    );
    assert_eq!(
        validate_members_params(&params_of(&[("salary", "3")])),
        Err(ValidationError::UnknownParameter("salary".to_string()))
    );
    assert_eq!(
        validate_employees_params(&params_of(&[("email", "a@b.c")])),
        Err(ValidationError::UnknownParameter("email".to_string()))
    );
    assert_eq!(
        validate_members_params(&params_of(&[("ID", "3")])),
        Err(ValidationError::UnknownParameter("ID".to_string()))
    );
}

#[test]
fn the_first_unknown_key_is_reported() {
    let params = params_of(&[("title", "x"), ("b", "1"), ("a", "2")]);
    assert_eq!(
        validate_book_params(&params),
        Err(ValidationError::UnknownParameter("b".to_string()))
    );
}

#[test]
fn unknown_key_comes_before_the_conflict() {
    let params = params_of(&[("id", "1"), ("ids", "1,2"), ("colour", "red")]);
    assert_eq!(
        validate_book_params(&params),
        Err(ValidationError::UnknownParameter("colour".to_string()))
    );
}

#[test]
fn conflict_comes_before_the_values() {
    let params = params_of(&[("id", "x"), ("ids", "y"), ("copies", "z")]);
    assert_eq!(validate_book_params(&params), Err(ValidationError::ConflictingFilters));
    let params = params_of(&[("ids", "1,2"), ("id", "1")]);
    assert_eq!(validate_employees_params(&params), Err(ValidationError::ConflictingFilters));
}

#[test]
fn ids_must_be_integers_each() {
    assert_eq!(validate_book_params(&params_of(&[("ids", "1,2,2")])), Ok(true));
    assert_eq!(
        validate_book_params(&params_of(&[("ids", "1,,2")])),
        Err(ValidationError::InvalidInteger(String::new()))
    );
    assert_eq!(
        validate_book_params(&params_of(&[("ids", "1,x")])),
        Err(ValidationError::InvalidInteger("x".to_string()))
    );
}

#[test]
fn values_are_read_in_the_order_of_the_columns() {
    let params = params_of(&[("copies", "x"), ("copies_available", "y"), ("title", "t")]);
    assert_eq!(
        validate_book_params(&params),
        Err(ValidationError::InvalidInteger("y".to_string()))
    );
    let params = params_of(&[("age", "x"), ("salary", "y"), ("id", "z")]);
    assert_eq!(
        validate_employees_params(&params),
        Err(ValidationError::InvalidInteger("z".to_string()))
    );
    let params = params_of(&[("age", "x"), ("salary", "y")]);
    assert_eq!(
        validate_employees_params(&params),
        Err(ValidationError::InvalidFloat("y".to_string()))
    );
}

#[test]
fn salary_must_be_a_float() {
    assert_eq!(validate_employees_params(&params_of(&[("salary", "1200.50")])), Ok(true));
    assert_eq!(validate_employees_params(&params_of(&[("salary", "12e2")])), Ok(true));
    let e = validate_employees_params(&params_of(&[("salary", "a")])).unwrap_err();
    assert_eq!(e, ValidationError::InvalidFloat("a".to_string()));
    assert_eq!(e.message(), "Error parsing string: 'a', not a valid float");
}

#[test]
fn text_columns_take_any_value() {
    let params = params_of(&[("title", ""), ("isbn", "12,a é")]);
    assert_eq!(validate_book_params(&params), Ok(true));
}

#[test]
fn empty_request_is_well_formed() {
    assert_eq!(validate(&Params::new(), &Schema::books()), Ok(()));
    assert_eq!(validate_members_params(&Params::new()), Ok(true));
}

#[test]
fn schema_of_ones_own_is_honoured() {
    let schema = Schema::new().column("weight", FieldKind::Float).column("name", FieldKind::Text);
    assert!(key_allowed(&schema, "id"));
    assert!(key_allowed(&schema, "ids"));
    assert!(key_allowed(&schema, "weight"));
    assert!(!key_allowed(&schema, "title"));
    assert_eq!(validate(&params_of(&[("weight", "1.5"), ("name", "n")]), &schema), Ok(()));
    assert_eq!(
        validate(&params_of(&[("weight", "heavy")]), &schema),
        Err(ValidationError::InvalidFloat("heavy".to_string()))
    );
    assert_eq!(
        validate(&params_of(&[("title", "x")]), &schema),
        Err(ValidationError::UnknownParameter("title".to_string()))
    );
}

#[test]
fn check_value_goes_by_the_kind() {
    assert_eq!(check_value(FieldKind::Integer, "12"), Ok(()));
    assert_eq!(
        check_value(FieldKind::Integer, "1.5"),
        Err(ValidationError::InvalidInteger("1.5".to_string()))
    );
    assert_eq!(check_value(FieldKind::Float, "1.5"), Ok(()));
    assert_eq!(
        check_value(FieldKind::Float, "x"),
        Err(ValidationError::InvalidFloat("x".to_string()))
    );
    assert_eq!(check_value(FieldKind::Text, "x"), Ok(()));
}

#[test]
fn check_values_passes_over_unknown_keys() {
    let params = params_of(&[("colour", "red"), ("id", "1"), ("ids", "2")]);
    assert_eq!(check_values(&params, &Schema::books()), Ok(()));
}
