use crate::error::{ValidationError, ValidationFailure};
use crate::number::{
    comma_separated, first_non_integer, is_float_text, lemma_first_non_integer_is_first,
    parse_i32, parse_ids, validate_float, validate_int,
};
use crate::params::{has_key, value_of, Params};
use crate::schema::{
    book_columns, employee_columns, id_key, ids_key, is_allowed, member_columns, FieldKind, Schema,
};
use crate::text::same_text;
use vstd::prelude::*;

verus! {

/// The key of the first entry of `entries` that requests may not filter by,
/// `None` where they may filter by each.
pub open spec fn first_unknown_key(
    entries: Seq<(Seq<char>, Seq<char>)>,
    columns: Seq<(Seq<char>, FieldKind)>,
) -> Option<Seq<char>>
    decreases entries.len(),
{
    if entries.len() == 0 {
        None
    } else if !is_allowed(columns, entries[0].0) {
        Some(entries[0].0)
    } else {
        first_unknown_key(entries.skip(1), columns)
    }
}

/// What is wrong with `value` as a value of a column read as `kind`, `None`
/// where nothing is.
pub open spec fn value_failure(kind: FieldKind, value: Seq<char>) -> Option<ValidationFailure> {
    match kind {
        FieldKind::Integer => if parse_i32(value) is None {
            Some(ValidationFailure::InvalidInteger(value))
        } else {
            None
        },
        FieldKind::Float => if is_float_text(value) {
            None
        } else {
            Some(ValidationFailure::InvalidFloat(value))
        },
        FieldKind::Text => None,
    }
}

/// What is wrong with `value` as a list of ids: its first piece that is no
/// integer text.
pub open spec fn id_list_failure(value: Seq<char>) -> Option<ValidationFailure> {
    match first_non_integer(comma_separated(value)) {
        Some(raw) => Some(ValidationFailure::InvalidInteger(raw)),
        None => None,
    }
}

/// What is wrong with the value that `entries` give for `id`, if they give one.
pub open spec fn id_failure(entries: Seq<(Seq<char>, Seq<char>)>) -> Option<ValidationFailure> {
    match value_of(entries, id_key()) {
        Some(value) => value_failure(FieldKind::Integer, value),
        None => None,
    }
}

/// What is wrong with the value that `entries` give for `ids`, if they give one.
pub open spec fn ids_failure(entries: Seq<(Seq<char>, Seq<char>)>) -> Option<ValidationFailure> {
    match value_of(entries, ids_key()) {
        Some(value) => id_list_failure(value),
        None => None,
    }
}

/// What is wrong with the value that `entries` give for the column `column`,
/// if they give one.
pub open spec fn column_failure(
    entries: Seq<(Seq<char>, Seq<char>)>,
    column: (Seq<char>, FieldKind),
) -> Option<ValidationFailure> {
    match value_of(entries, column.0) {
        Some(value) => value_failure(column.1, value),
        None => None,
    }
}

/// The failure of the first of `columns` whose value in `entries` is wrong.
pub open spec fn columns_failure(
    entries: Seq<(Seq<char>, Seq<char>)>,
    columns: Seq<(Seq<char>, FieldKind)>,
) -> Option<ValidationFailure>
    decreases columns.len(),
{
    if columns.len() == 0 {
        None
    } else if column_failure(entries, columns[0]) is Some {
        column_failure(entries, columns[0])
    } else {
        columns_failure(entries, columns.skip(1))
    }
}

/// The first wrong value among those that `entries` give: that of `id`, then
/// that of `ids`, then those of the columns in their order.
pub open spec fn values_failure(
    entries: Seq<(Seq<char>, Seq<char>)>,
    columns: Seq<(Seq<char>, FieldKind)>,
) -> Option<ValidationFailure> {
    if id_failure(entries) is Some {
        id_failure(entries)
    } else if ids_failure(entries) is Some {
        ids_failure(entries)
    } else {
        columns_failure(entries, columns)
    }
}

/// Why a request with the parameters `entries` is turned down for a resource
/// with the columns `columns`, `None` where it is not: for its first key that
/// is not allowed; else for naming both `id` and `ids`; else for its first
/// wrong value.
pub open spec fn validation_failure(
    entries: Seq<(Seq<char>, Seq<char>)>,
    columns: Seq<(Seq<char>, FieldKind)>,
) -> Option<ValidationFailure> {
    if first_unknown_key(entries, columns) is Some {
        Some(ValidationFailure::UnknownParameter(first_unknown_key(entries, columns)->0))
    } else if has_key(entries, id_key()) && has_key(entries, ids_key()) {
        Some(ValidationFailure::ConflictingFilters)
    } else {
        values_failure(entries, columns)
    }
}

/// Whether `value` can be read as a value of a column of kind `kind`.
pub open spec fn well_typed(kind: FieldKind, value: Seq<char>) -> bool {
    match kind {
        FieldKind::Integer => parse_i32(value) is Some,
        FieldKind::Float => is_float_text(value),
        FieldKind::Text => true,
    }
}

/// Whether a request with the parameters `entries` is well formed for a
/// resource with the columns `columns`: each key is allowed, `id` and `ids`
/// do not come together, `id` is an integer, each piece of `ids` is one, and
/// each column's value is of the column's kind.
pub open spec fn acceptable(
    entries: Seq<(Seq<char>, Seq<char>)>,
    columns: Seq<(Seq<char>, FieldKind)>,
) -> bool {
    &&& forall|i: int| 0 <= i < entries.len() ==> is_allowed(columns, (#[trigger] entries[i]).0)
    &&& !(has_key(entries, id_key()) && has_key(entries, ids_key()))
    &&& match value_of(entries, id_key()) {
        Some(value) => parse_i32(value) is Some,
        None => true,
    }
    &&& match value_of(entries, ids_key()) {
        Some(value) => forall|j: int|
            0 <= j < comma_separated(value).len() ==> parse_i32(
                #[trigger] comma_separated(value)[j],
            ) is Some,
        None => true,
    }
    &&& forall|c: int|
        0 <= c < columns.len() ==> match value_of(entries, (#[trigger] columns[c]).0) {
            Some(value) => well_typed(columns[c].1, value),
            None => true,
        }
}

/// No key is reported exactly when each key is allowed; a key that is
/// reported is a key of the request that is not allowed, and each key before
/// it is allowed.
pub proof fn lemma_first_unknown_key(
    entries: Seq<(Seq<char>, Seq<char>)>,
    columns: Seq<(Seq<char>, FieldKind)>,
)
    ensures
        first_unknown_key(entries, columns) is None <==> forall|i: int|
            0 <= i < entries.len() ==> is_allowed(columns, (#[trigger] entries[i]).0),
        first_unknown_key(entries, columns) is Some ==> exists|j: int|
            0 <= j < entries.len() && first_unknown_key(entries, columns) == Some(
                (#[trigger] entries[j]).0,
            ) && !is_allowed(columns, entries[j].0) && forall|i: int|
                0 <= i < j ==> is_allowed(columns, (#[trigger] entries[i]).0),
    decreases entries.len(),
{
    if entries.len() > 0 {
        let tail = entries.skip(1);
        lemma_first_unknown_key(tail, columns);
        if is_allowed(columns, entries[0].0) {
            if forall|i: int| 0 <= i < tail.len() ==> is_allowed(columns, (#[trigger] tail[i]).0) {
                assert forall|i: int| 0 <= i < entries.len() implies is_allowed(
                    columns,
                    (#[trigger] entries[i]).0,
                ) by {
                    if i > 0 {
                        assert(tail[i - 1] == entries[i]);
                    }
                }
            }
            if first_unknown_key(tail, columns) is Some {
                let j = choose|j: int|
                    0 <= j < tail.len() && first_unknown_key(tail, columns) == Some(
                        (#[trigger] tail[j]).0,
                    ) && !is_allowed(columns, tail[j].0) && forall|i: int|
                        0 <= i < j ==> is_allowed(columns, (#[trigger] tail[i]).0);
                assert forall|i: int| 0 <= i < j + 1 implies is_allowed(
                    columns,
                    (#[trigger] entries[i]).0,
                ) by {
                    if i > 0 {
                        assert(tail[i - 1] == entries[i]);
                    }
                }
            }
        }
    }
}

/// No column's value is reported exactly when each column's value, where the
/// request gives one, is of the column's kind.
pub proof fn lemma_columns_failure(
    entries: Seq<(Seq<char>, Seq<char>)>,
    columns: Seq<(Seq<char>, FieldKind)>,
)
    ensures
        columns_failure(entries, columns) is None <==> forall|c: int|
            0 <= c < columns.len() ==> match value_of(entries, (#[trigger] columns[c]).0) {
                Some(value) => well_typed(columns[c].1, value),
                None => true,
            },
    decreases columns.len(),
{
    if columns.len() > 0 {
        let tail = columns.skip(1);
        lemma_columns_failure(entries, tail);
        if column_failure(entries, columns[0]) is None && columns_failure(entries, tail) is None {
            assert forall|c: int| 0 <= c < columns.len() implies match value_of(
                entries,
                (#[trigger] columns[c]).0,
            ) {
                Some(value) => well_typed(columns[c].1, value),
                None => true,
            } by {
                if c > 0 {
                    assert(tail[c - 1] == columns[c]);
                }
            }
        }
    }
}

/// A request is accepted exactly when it is well formed.
pub proof fn law_accepted_iff_acceptable(
    entries: Seq<(Seq<char>, Seq<char>)>,
    columns: Seq<(Seq<char>, FieldKind)>,
)
    ensures
        validation_failure(entries, columns) is None <==> acceptable(entries, columns),
{
    lemma_first_unknown_key(entries, columns);
    lemma_columns_failure(entries, columns);
    if value_of(entries, ids_key()) is Some {
        lemma_first_non_integer_is_first(comma_separated(value_of(entries, ids_key())->0));
    }
}

/// Whether a request is well formed does not depend on the order of its
/// parameters, only on which value each key has.
pub proof fn law_acceptance_ignores_order(
    first: Seq<(Seq<char>, Seq<char>)>,
    second: Seq<(Seq<char>, Seq<char>)>,
    columns: Seq<(Seq<char>, FieldKind)>,
)
    requires
        forall|key: Seq<char>| value_of(first, key) == value_of(second, key),
    ensures
        acceptable(first, columns) == acceptable(second, columns),
{
    if forall|i: int| 0 <= i < second.len() ==> is_allowed(columns, (#[trigger] second[i]).0) {
        lemma_same_values_same_keys(first, second, columns);
    }
    if forall|i: int| 0 <= i < first.len() ==> is_allowed(columns, (#[trigger] first[i]).0) {
        lemma_same_values_same_keys(second, first, columns);
    }
    assert(has_key(first, id_key()) == has_key(second, id_key())) by {
        assert(value_of(first, id_key()) == value_of(second, id_key()));
    }
    assert(has_key(first, ids_key()) == has_key(second, ids_key())) by {
        assert(value_of(first, ids_key()) == value_of(second, ids_key()));
    }
    assert(forall|c: int|
        0 <= c < columns.len() ==> value_of(first, (#[trigger] columns[c]).0) == value_of(
            second,
            columns[c].0,
        ));
}

/// Where each key has in `second` the value that it has in `first`, and
/// each key of `second` is allowed, each key of `first` is allowed.
pub proof fn lemma_same_values_same_keys(
    first: Seq<(Seq<char>, Seq<char>)>,
    second: Seq<(Seq<char>, Seq<char>)>,
    columns: Seq<(Seq<char>, FieldKind)>,
)
    requires
        forall|key: Seq<char>| value_of(first, key) == value_of(second, key),
        forall|i: int| 0 <= i < second.len() ==> is_allowed(columns, (#[trigger] second[i]).0),
    ensures
        forall|i: int| 0 <= i < first.len() ==> is_allowed(columns, (#[trigger] first[i]).0),
{
    assert forall|i: int| 0 <= i < first.len() implies is_allowed(
        columns,
        (#[trigger] first[i]).0,
    ) by {
        let key = first[i].0;
        assert(value_of(first, key) == value_of(second, key));
        assert(has_key(second, key));
    }
}

/// A request that names a key which is not allowed is turned down for such a
/// key, whatever else it holds: for that very key where it is the only such
/// key of the request.
pub proof fn law_unknown_key_is_rejected(
    entries: Seq<(Seq<char>, Seq<char>)>,
    columns: Seq<(Seq<char>, FieldKind)>,
    key: Seq<char>,
)
    requires
        has_key(entries, key),
        !is_allowed(columns, key),
    ensures
        match validation_failure(entries, columns) {
            Some(ValidationFailure::UnknownParameter(reported)) => has_key(entries, reported)
                && !is_allowed(columns, reported),
            _ => false,
        },
        (forall|i: int|
            0 <= i < entries.len() && (#[trigger] entries[i]).0 != key ==> is_allowed(
                columns,
                entries[i].0,
            )) ==> validation_failure(entries, columns) == Some(
            ValidationFailure::UnknownParameter(key),
        ),
{
    lemma_first_unknown_key(entries, columns);
}

/// A request whose keys are all allowed and that names both `id` and `ids` is
/// turned down as conflicting, whatever the values and the other keys.
pub proof fn law_id_with_ids_conflicts(
    entries: Seq<(Seq<char>, Seq<char>)>,
    columns: Seq<(Seq<char>, FieldKind)>,
)
    requires
        has_key(entries, id_key()),
        has_key(entries, ids_key()),
        forall|i: int| 0 <= i < entries.len() ==> is_allowed(columns, (#[trigger] entries[i]).0),
    ensures
        validation_failure(entries, columns) == Some(ValidationFailure::ConflictingFilters),
{
    lemma_first_unknown_key(entries, columns);
}

/// Every value of a request that was accepted can be read.
pub proof fn law_accepted_values_are_readable(
    entries: Seq<(Seq<char>, Seq<char>)>,
    columns: Seq<(Seq<char>, FieldKind)>,
)
    requires
        validation_failure(entries, columns) is None,
    ensures
        values_failure(entries, columns) is None,
{
}

/// Tells whether requests for a resource with `schema` may filter by `key`.
pub fn key_allowed(schema: &Schema, key: &str) -> (allowed: bool)
    ensures
        allowed == is_allowed(schema@, key@),
{
    if same_text(key, "id") || same_text(key, "ids") {
        return true;
    }
    let mut i: usize = 0;
    while i < schema.columns.len()
        invariant
            i <= schema.columns@.len(),
            forall|j: int| 0 <= j < i ==> (#[trigger] schema@[j]).0 != key@,
        decreases schema.columns@.len() - i,
    {
        if same_text(schema.columns[i].name.as_str(), key) {
            assert(schema@[i as int].0 == key@);
            return true;
        }
        i = i + 1;
    }
    false
}

/// Reads `value` as a value of a column of kind `kind`.
pub fn check_value(kind: FieldKind, value: &str) -> (r: Result<(), ValidationError>)
    ensures
        match r {
            Ok(_) => value_failure(kind, value@) is None,
            Err(e) => value_failure(kind, value@) == Some(e@),
        },
{
    match kind {
        FieldKind::Integer => match validate_int(value) {
            Ok(_) => Ok(()),
            Err(e) => Err(e),
        },
        FieldKind::Float => validate_float(value),
        FieldKind::Text => Ok(()),
    }
}

/// Reads the values that `params` give for `id`, for `ids` and for the
/// columns of `schema`, in this order, and reports the first wrong one.
pub fn check_values(params: &Params, schema: &Schema) -> (r: Result<(), ValidationError>)
    ensures
        match r {
            Ok(_) => values_failure(params@, schema@) is None,
            Err(e) => values_failure(params@, schema@) == Some(e@),
        },
{
    if let Some(id) = params.get("id") {
        if let Err(e) = validate_int(id.as_str()) {
            return Err(e);
        }
    }
    if let Some(ids) = params.get("ids") {
        if let Err(e) = parse_ids(ids.as_str()) {
            return Err(e);
        }
    }
    let mut i: usize = 0;
    assert(schema@.skip(0) =~= schema@);
    while i < schema.columns.len()
        invariant
            i <= schema.columns@.len(),
            id_failure(params@) is None,
            ids_failure(params@) is None,
            columns_failure(params@, schema@) == columns_failure(params@, schema@.skip(i as int)),
        decreases schema.columns@.len() - i,
    {
        let column = &schema.columns[i];
        let ghost rest = schema@.skip(i as int);
        assert(rest.skip(1) =~= schema@.skip(i + 1));
        if let Some(value) = params.get(column.name.as_str()) {
            if let Err(e) = check_value(column.kind, value.as_str()) {
                return Err(e);
            }
        }
        i = i + 1;
    }
    Ok(())
}

/// Decides whether a filter request with the parameters `params` is well
/// formed for a resource with `schema`, before any query is built.
pub fn validate(params: &Params, schema: &Schema) -> (r: Result<(), ValidationError>)
    ensures
        r is Ok <==> acceptable(params@, schema@),
        match r {
            Ok(_) => validation_failure(params@, schema@) is None,
            Err(e) => validation_failure(params@, schema@) == Some(e@),
        },
{
    proof {
        law_accepted_iff_acceptable(params@, schema@);
    }
    let mut i: usize = 0;
    assert(params@.skip(0) =~= params@);
    while i < params.len()
        invariant
            i <= params@.len(),
            first_unknown_key(params@, schema@) == first_unknown_key(
                params@.skip(i as int),
                schema@,
            ),
        decreases params@.len() - i,
    {
        assert(params@.skip(i as int).skip(1) =~= params@.skip(i + 1));
        if let Some((key, _)) = params.entry(i) {
            if !key_allowed(schema, key.as_str()) {
                return Err(ValidationError::UnknownParameter(key.clone()));
            }
        }
        i = i + 1;
    }
    if params.contains_key("id") && params.contains_key("ids") {
        return Err(ValidationError::ConflictingFilters);
    }
    check_values(params, schema)
}

/// Decides whether a filter request for books is well formed. The answer is
/// `Ok(true)` or the reason why it is not.
pub fn validate_book_params(params: &Params) -> (r: Result<bool, ValidationError>)
    ensures
        match r {
            Ok(valid) => valid && validation_failure(params@, book_columns()) is None,
            Err(e) => validation_failure(params@, book_columns()) == Some(e@),
        },
{
    match validate(params, &Schema::books()) {
        Ok(_) => Ok(true),
        Err(e) => Err(e),
    }
}

/// Decides whether a filter request for members is well formed. The answer
/// is `Ok(true)` or the reason why it is not.
pub fn validate_members_params(params: &Params) -> (r: Result<bool, ValidationError>)
    ensures
        match r {
            Ok(valid) => valid && validation_failure(params@, member_columns()) is None,
            Err(e) => validation_failure(params@, member_columns()) == Some(e@),
        },
{
    match validate(params, &Schema::members()) {
        Ok(_) => Ok(true),
        Err(e) => Err(e),
    }
}

/// Decides whether a filter request for employees is well formed. The answer
/// is `Ok(true)` or the reason why it is not.
pub fn validate_employees_params(params: &Params) -> (r: Result<bool, ValidationError>)
    ensures
        match r {
            Ok(valid) => valid && validation_failure(params@, employee_columns()) is None,
            Err(e) => validation_failure(params@, employee_columns()) == Some(e@),
        },
{
    match validate(params, &Schema::employees()) {
        Ok(_) => Ok(true),
        Err(e) => Err(e),
    }
}

} // verus!
