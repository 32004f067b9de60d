use crate::error::ValidationError;
use crate::number::{comma_separated, integers_of, parse_i32, parse_ids, validate_float, validate_int};
use crate::params::{has_key, lemma_index_of_key, value_of, Params};
use crate::schema::{id_key, ids_key, no_id_column, FieldKind, Schema};
use crate::validate::{
    columns_failure, id_failure, ids_failure, validate, validation_failure, values_failure,
};
use std::collections::HashSet;
use vstd::prelude::*;

verus! {

broadcast use vstd::std_specs::hash::group_hash_axioms;

/// One condition on the rows of a table.
#[derive(Debug, PartialEq, Eq)]
pub enum Condition {
    /// The row's id is this one.
    IdEquals(i32),
    /// The row's id is one of these.
    IdIn(HashSet<i32>),
    /// The named integer column holds this number.
    IntegerEquals(String, i32),
    /// The named floating-point column holds the number that this text writes.
    FloatEquals(String, String),
    /// The named text column holds exactly this text.
    TextEquals(String, String),
}

/// A `Condition` as a mathematical value.
pub enum Predicate {
    IdEquals(i32),
    IdIn(Set<i32>),
    IntegerEquals(Seq<char>, i32),
    FloatEquals(Seq<char>, Seq<char>),
    TextEquals(Seq<char>, Seq<char>),
}

impl View for Condition {
    type V = Predicate;

    open spec fn view(&self) -> Predicate {
        match self {
            Condition::IdEquals(id) => Predicate::IdEquals(*id),
            Condition::IdIn(ids) => Predicate::IdIn(ids@),
            Condition::IntegerEquals(column, value) => Predicate::IntegerEquals(column@, *value),
            Condition::FloatEquals(column, text) => Predicate::FloatEquals(column@, text@),
            Condition::TextEquals(column, value) => Predicate::TextEquals(column@, value@),
        }
    }
}

/// The rows that meet every one of its conditions; all rows where it has none.
#[derive(Debug, PartialEq, Eq)]
pub struct Filter {
    pub conditions: Vec<Condition>,
}

impl View for Filter {
    type V = Seq<Predicate>;

    open spec fn view(&self) -> Seq<Predicate> {
        Seq::new(self.conditions@.len(), |i: int| self.conditions@[i]@)
    }
}

/// A row of a table as the conditions see it. A floating-point cell is known
/// by the texts that write its number.
pub struct Row {
    pub id: i32,
    pub integers: Map<Seq<char>, i32>,
    pub texts: Map<Seq<char>, Seq<char>>,
    pub floats: Map<Seq<char>, Set<Seq<char>>>,
}

/// Whether `row` meets `predicate`.
pub open spec fn holds(predicate: Predicate, row: Row) -> bool {
    match predicate {
        Predicate::IdEquals(id) => row.id == id,
        Predicate::IdIn(ids) => ids.contains(row.id),
        Predicate::IntegerEquals(column, value) => row.integers.contains_key(column)
            && row.integers[column] == value,
        Predicate::FloatEquals(column, text) => row.floats.contains_key(column)
            && row.floats[column].contains(text),
        Predicate::TextEquals(column, value) => row.texts.contains_key(column)
            && row.texts[column] == value,
    }
}

/// Whether `row` meets each of `predicates`.
pub open spec fn admits(predicates: Seq<Predicate>, row: Row) -> bool {
    forall|i: int| 0 <= i < predicates.len() ==> holds(#[trigger] predicates[i], row)
}

/// The condition that a request puts on the column `column` by giving it `value`.
pub open spec fn column_predicate(column: (Seq<char>, FieldKind), value: Seq<char>) -> Predicate {
    match column.1 {
        FieldKind::Integer => Predicate::IntegerEquals(column.0, parse_i32(value).unwrap()),
        FieldKind::Float => Predicate::FloatEquals(column.0, value),
        FieldKind::Text => Predicate::TextEquals(column.0, value),
    }
}

/// The condition on a single id, where `entries` give one.
pub open spec fn id_predicates(entries: Seq<(Seq<char>, Seq<char>)>) -> Seq<Predicate> {
    match value_of(entries, id_key()) {
        Some(value) => seq![Predicate::IdEquals(parse_i32(value).unwrap())],
        None => Seq::empty(),
    }
}

/// The condition on a set of ids, where `entries` give a list of them.
pub open spec fn ids_predicates(entries: Seq<(Seq<char>, Seq<char>)>) -> Seq<Predicate> {
    match value_of(entries, ids_key()) {
        Some(value) => seq![Predicate::IdIn(integers_of(comma_separated(value)).to_set())],
        None => Seq::empty(),
    }
}

/// The conditions on those of `columns` that `entries` give a value, in the
/// order of the columns.
pub open spec fn column_predicates(
    entries: Seq<(Seq<char>, Seq<char>)>,
    columns: Seq<(Seq<char>, FieldKind)>,
) -> Seq<Predicate>
    decreases columns.len(),
{
    if columns.len() == 0 {
        Seq::empty()
    } else {
        let before = column_predicates(entries, columns.drop_last());
        match value_of(entries, columns.last().0) {
            Some(value) => before.push(column_predicate(columns.last(), value)),
            None => before,
        }
    }
}

/// The conditions that a request with the parameters `entries` puts on the
/// rows of a resource with the columns `columns`: on the id, then on the set
/// of ids, then on the columns.
pub open spec fn predicates_of(
    entries: Seq<(Seq<char>, Seq<char>)>,
    columns: Seq<(Seq<char>, FieldKind)>,
) -> Seq<Predicate> {
    id_predicates(entries) + ids_predicates(entries) + column_predicates(entries, columns)
}

/// The set of the numbers in `ids`.
pub fn id_set(ids: &Vec<i32>) -> (set: HashSet<i32>)
    ensures
        set@ == ids@.to_set(),
{
    let mut set: HashSet<i32> = HashSet::new();
    let mut i: usize = 0;
    while i < ids.len()
        invariant
            i <= ids@.len(),
            set@ == ids@.take(i as int).to_set(),
        decreases ids@.len() - i,
    {
        set.insert(ids[i]);
        proof {
            ids@.take(i as int).lemma_push_to_set_commute(ids@[i as int]);
            assert(ids@.take(i + 1) =~= ids@.take(i as int).push(ids@[i as int]));
        }
        i = i + 1;
    }
    assert(ids@.take(ids@.len() as int) =~= ids@);
    set
}

/// Turns the parameters of a request into the conditions that it puts on the
/// rows of a resource with `schema`. Keys that the schema does not know are
/// passed over; the first value that cannot be read is reported.
pub fn build_filter(params: &Params, schema: &Schema) -> (r: Result<Filter, ValidationError>)
    ensures
        match r {
            Ok(filter) => values_failure(params@, schema@) is None && filter@ == predicates_of(
                params@,
                schema@,
            ),
            Err(e) => values_failure(params@, schema@) == Some(e@),
        },
{
    let mut conditions: Vec<Condition> = Vec::new();
    let ghost mut built: Seq<Predicate> = Seq::empty();
    if let Some(id) = params.get("id") {
        match validate_int(id.as_str()) {
            Ok(n) => {
                conditions.push(Condition::IdEquals(n));
                proof {
                    built = built.push(Predicate::IdEquals(n));
                }
            },
            Err(e) => {
                return Err(e);
            },
        }
    }
    if let Some(ids) = params.get("ids") {
        match parse_ids(ids.as_str()) {
            Ok(list) => {
                let set = id_set(&list);
                proof {
                    built = built.push(Predicate::IdIn(set@));
                }
                conditions.push(Condition::IdIn(set));
            },
            Err(e) => {
                return Err(e);
            },
        }
    }
    let mut i: usize = 0;
    assert(schema@.skip(0) =~= schema@);
    while i < schema.columns.len()
        invariant
            i <= schema.columns@.len(),
            schema@.len() == schema.columns@.len(),
            id_failure(params@) is None,
            ids_failure(params@) is None,
            columns_failure(params@, schema@) == columns_failure(params@, schema@.skip(i as int)),
            conditions@.len() == built.len(),
            forall|j: int| 0 <= j < built.len() ==> (#[trigger] conditions@[j])@ == built[j],
            built == id_predicates(params@) + ids_predicates(params@) + column_predicates(
                params@,
                schema@.take(i as int),
            ),
        decreases schema.columns@.len() - i,
    {
        let column = &schema.columns[i];
        let ghost rest = schema@.skip(i as int);
        let ghost seen = schema@.take(i + 1);
        assert(rest.skip(1) =~= schema@.skip(i + 1));
        assert(seen.drop_last() =~= schema@.take(i as int));
        if let Some(value) = params.get(column.name.as_str()) {
            let name = column.name.clone();
            let condition = match column.kind {
                FieldKind::Integer => match validate_int(value.as_str()) {
                    Ok(n) => Condition::IntegerEquals(name, n),
                    Err(e) => {
                        return Err(e);
                    },
                },
                FieldKind::Float => match validate_float(value.as_str()) {
                    Ok(_) => Condition::FloatEquals(name, value.clone()),
                    Err(e) => {
                        return Err(e);
                    },
                },
                FieldKind::Text => Condition::TextEquals(name, value.clone()),
            };
            proof {
                built = built.push(condition@);
            }
            conditions.push(condition);
        }
        i = i + 1;
    }
    let filter = Filter { conditions };
    Ok(filter)
}

/// A request without parameters puts no condition on the rows.
pub proof fn law_no_parameters_no_conditions(columns: Seq<(Seq<char>, FieldKind)>)
    ensures
        predicates_of(Seq::empty(), columns) == Seq::<Predicate>::empty(),
{
    lemma_no_parameters_no_column_conditions(columns);
}

/// A request without parameters puts no condition on the columns.
pub proof fn lemma_no_parameters_no_column_conditions(columns: Seq<(Seq<char>, FieldKind)>)
    ensures
        column_predicates(Seq::empty(), columns) == Seq::<Predicate>::empty(),
    decreases columns.len(),
{
    if columns.len() > 0 {
        lemma_no_parameters_no_column_conditions(columns.drop_last());
    }
}

/// A request without parameters admits every row, as a listing of the whole
/// table does.
pub proof fn law_no_parameters_admit_every_row(columns: Seq<(Seq<char>, FieldKind)>, row: Row)
    ensures
        admits(predicates_of(Seq::empty(), columns), row),
{
    law_no_parameters_no_conditions(columns);
}

/// A request that names an id, and names it by an integer, admits no row
/// with another id.
pub proof fn law_id_admits_no_other_row(
    entries: Seq<(Seq<char>, Seq<char>)>,
    columns: Seq<(Seq<char>, FieldKind)>,
    row: Row,
)
    requires
        value_of(entries, id_key()) is Some,
        id_failure(entries) is None,
        admits(predicates_of(entries, columns), row),
    ensures
        Some(row.id) == parse_i32(value_of(entries, id_key())->0),
{
    assert(holds(predicates_of(entries, columns)[0], row));
}

/// A request that names a list of ids admits no row whose id is not in the list.
pub proof fn law_ids_admit_no_other_row(
    entries: Seq<(Seq<char>, Seq<char>)>,
    columns: Seq<(Seq<char>, FieldKind)>,
    row: Row,
)
    requires
        value_of(entries, ids_key()) is Some,
        admits(predicates_of(entries, columns), row),
    ensures
        integers_of(comma_separated(value_of(entries, ids_key())->0)).contains(row.id),
{
    let at = id_predicates(entries).len() as int;
    assert(holds(predicates_of(entries, columns)[at], row));
}

/// A request that names an id and nothing else puts one condition on the rows.
pub proof fn lemma_id_alone_one_condition(value: Seq<char>, columns: Seq<(Seq<char>, FieldKind)>)
    requires
        no_id_column(columns),
    ensures
        predicates_of(seq![(id_key(), value)], columns) == seq![
            Predicate::IdEquals(parse_i32(value).unwrap()),
        ],
{
    let entries = seq![(id_key(), value)];
    reveal_strlit("id");
    reveal_strlit("ids");
    assert(entries[0].0 == id_key());
    lemma_index_of_key(entries, id_key());
    lemma_absent_keys_no_column_conditions(entries, columns);
}

/// Columns that the request does not name get no condition.
pub proof fn lemma_absent_keys_no_column_conditions(
    entries: Seq<(Seq<char>, Seq<char>)>,
    columns: Seq<(Seq<char>, FieldKind)>,
)
    requires
        forall|c: int| 0 <= c < columns.len() ==> !has_key(entries, (#[trigger] columns[c]).0),
    ensures
        column_predicates(entries, columns) == Seq::<Predicate>::empty(),
    decreases columns.len(),
{
    if columns.len() > 0 {
        lemma_absent_keys_no_column_conditions(entries, columns.drop_last());
    }
}

/// A request that names the id `n` and nothing else admits exactly the rows
/// whose id is `n`.
pub proof fn law_id_alone_admits_exactly_that_row(
    value: Seq<char>,
    columns: Seq<(Seq<char>, FieldKind)>,
    row: Row,
)
    requires
        parse_i32(value) is Some,
        no_id_column(columns),
    ensures
        admits(predicates_of(seq![(id_key(), value)], columns), row) <==> Some(row.id)
            == parse_i32(value),
{
    lemma_id_alone_one_condition(value, columns);
    let all = predicates_of(seq![(id_key(), value)], columns);
    if admits(all, row) {
        assert(holds(all[0], row));
    }
}

/// Checks a filter request for a resource with `schema` and turns it into
/// the conditions that it puts on the rows. A request that is not well
/// formed yields its failure and no conditions.
pub fn filter_for(params: &Params, schema: &Schema) -> (r: Result<Filter, ValidationError>)
    ensures
        match r {
            Ok(filter) => validation_failure(params@, schema@) is None && filter@
                == predicates_of(params@, schema@),
            Err(e) => validation_failure(params@, schema@) == Some(e@),
        },
{
    match validate(params, schema) {
        Ok(_) => build_filter(params, schema),
        Err(e) => Err(e),
    }
}

/// Which rows a request asks for.
#[derive(Debug, PartialEq, Eq)]
pub enum Query {
    /// All rows of the table.
    All,
    /// The rows that the filter admits.
    Matching(Filter),
}

/// Decides what a filter request for a resource with `schema` asks for: the
/// whole table where it has no parameters, whatever the schema; else the rows
/// that its conditions admit, once it was found well formed.
pub fn query_for(params: &Params, schema: &Schema) -> (r: Result<Query, ValidationError>)
    ensures
        match r {
            Ok(Query::All) => params@.len() == 0,
            Ok(Query::Matching(filter)) => params@.len() > 0 && validation_failure(
                params@,
                schema@,
            ) is None && filter@ == predicates_of(params@, schema@),
            Err(e) => params@.len() > 0 && validation_failure(params@, schema@) == Some(e@),
        },
{
    if params.is_empty() {
        Ok(Query::All)
    } else {
        match filter_for(params, schema) {
            Ok(filter) => Ok(Query::Matching(filter)),
            Err(e) => Err(e),
        }
    }
}

} // verus!
