use vstd::prelude::*;
use vstd::string::StringExecFns;

verus! {

/// How the values of a column are read.
#[derive(Debug, Clone, Copy, PartialEq, Eq, Structural)]
pub enum FieldKind {
    /// A 32-bit signed integer in base ten.
    Integer,
    /// A floating-point number in base ten.
    Float,
    /// Any text, taken as it is.
    Text,
}

/// One column of a resource that a request may filter by, besides its `id`.
#[derive(Debug)]
pub struct Column {
    pub name: String,
    pub kind: FieldKind,
}

impl View for Column {
    type V = (Seq<char>, FieldKind);

    open spec fn view(&self) -> (Seq<char>, FieldKind) {
        (self.name@, self.kind)
    }
}

/// The columns of a resource that a request may filter by, besides its `id`,
/// in the order in which their values are looked at.
#[derive(Debug)]
pub struct Schema {
    pub columns: Vec<Column>,
}

impl View for Schema {
    type V = Seq<(Seq<char>, FieldKind)>;

    open spec fn view(&self) -> Seq<(Seq<char>, FieldKind)> {
        Seq::new(self.columns@.len(), |i: int| self.columns@[i]@)
    }
}

/// The key under which a request names one row.
pub open spec fn id_key() -> Seq<char> {
    "id"@
}

/// The key under which a request names several rows.
pub open spec fn ids_key() -> Seq<char> {
    "ids"@
}

/// Whether a request may filter by `key`: `id`, `ids` or a column's name.
pub open spec fn is_allowed(columns: Seq<(Seq<char>, FieldKind)>, key: Seq<char>) -> bool {
    key == id_key() || key == ids_key() || exists|i: int|
        0 <= i < columns.len() && (#[trigger] columns[i]).0 == key
}

/// The columns that books are filtered by.
pub open spec fn book_columns() -> Seq<(Seq<char>, FieldKind)> {
    seq![
        ("title"@, FieldKind::Text),
        ("isbn"@, FieldKind::Text),
        ("copies_available"@, FieldKind::Integer),
        ("copies"@, FieldKind::Integer),
    ]
}

/// The columns that members are filtered by.
pub open spec fn member_columns() -> Seq<(Seq<char>, FieldKind)> {
    seq![
        ("first_name"@, FieldKind::Text),
        ("last_name"@, FieldKind::Text),
        ("email"@, FieldKind::Text),
        ("address"@, FieldKind::Text),
        ("age"@, FieldKind::Integer),
    ]
}

/// The columns that employees are filtered by.
pub open spec fn employee_columns() -> Seq<(Seq<char>, FieldKind)> {
    seq![
        ("first_name"@, FieldKind::Text),
        ("last_name"@, FieldKind::Text),
        ("department"@, FieldKind::Text),
        ("salary"@, FieldKind::Float),
        ("age"@, FieldKind::Integer),
    ]
}

/// Whether no column is named `id`.
pub open spec fn no_id_column(columns: Seq<(Seq<char>, FieldKind)>) -> bool {
    forall|c: int| 0 <= c < columns.len() ==> (#[trigger] columns[c]).0 != id_key()
}

/// A request for books may filter by `id`, `ids`, `title`, `isbn`,
/// `copies_available` and `copies`, and by nothing else.
pub proof fn law_book_keys(key: Seq<char>)
    ensures
        is_allowed(book_columns(), key) <==> key == "id"@ || key == "ids"@ || key == "title"@
            || key == "isbn"@ || key == "copies_available"@ || key == "copies"@,
{
}

/// A request for members may filter by `id`, `ids`, `first_name`,
/// `last_name`, `email`, `address` and `age`, and by nothing else.
pub proof fn law_member_keys(key: Seq<char>)
    ensures
        is_allowed(member_columns(), key) <==> key == "id"@ || key == "ids"@ || key
            == "first_name"@ || key == "last_name"@ || key == "email"@ || key == "address"@ || key
            == "age"@,
{
}

/// A request for employees may filter by `id`, `ids`, `first_name`,
/// `last_name`, `department`, `salary` and `age`, and by nothing else.
pub proof fn law_employee_keys(key: Seq<char>)
    ensures
        is_allowed(employee_columns(), key) <==> key == "id"@ || key == "ids"@ || key
            == "first_name"@ || key == "last_name"@ || key == "department"@ || key == "salary"@
            || key == "age"@,
{
}

/// None of the three resources has a column named `id`.
pub proof fn law_resources_have_no_id_column()
    ensures
        no_id_column(book_columns()),
        no_id_column(member_columns()),
        no_id_column(employee_columns()),
{
    reveal_strlit("id");
    reveal_strlit("title");
    reveal_strlit("isbn");
    reveal_strlit("copies_available");
    reveal_strlit("copies");
    reveal_strlit("first_name");
    reveal_strlit("last_name");
    reveal_strlit("email");
    reveal_strlit("address");
    reveal_strlit("department");
    reveal_strlit("salary");
    reveal_strlit("age");
    assert forall|c: int| 0 <= c < book_columns().len() implies (#[trigger] book_columns()[c]).0
        != id_key() by {
        assert(book_columns()[c].0.len() > 2);
    }
    assert forall|c: int| 0 <= c < member_columns().len() implies (
    #[trigger] member_columns()[c]).0 != id_key() by {
        assert(member_columns()[c].0.len() > 2);
    }
    assert forall|c: int| 0 <= c < employee_columns().len() implies (
    #[trigger] employee_columns()[c]).0 != id_key() by {
        assert(employee_columns()[c].0.len() > 2);
    }
}

impl Schema {
    /// A schema without columns: requests may filter by `id` and `ids` only.
    pub fn new() -> (schema: Schema)
        ensures
            schema@ == Seq::<(Seq<char>, FieldKind)>::empty(),
    {
        let schema = Schema { columns: Vec::new() };
        schema
    }

    /// Adds the column `name`, read as `kind`, behind the others.
    pub fn column(self, name: &str, kind: FieldKind) -> (schema: Schema)
        ensures
            schema@ == self@.push((name@, kind)),
    {
        let mut columns = self.columns;
        columns.push(Column { name: String::from_str(name), kind });
        let schema = Schema { columns };
        schema
    }

    /// The columns that books are filtered by.
    pub fn books() -> (schema: Schema)
        ensures
            schema@ == book_columns(),
    {
        let schema = Schema::new().column("title", FieldKind::Text).column(
            "isbn",
            FieldKind::Text,
        ).column("copies_available", FieldKind::Integer).column("copies", FieldKind::Integer);
        schema
    }

    /// The columns that members are filtered by.
    pub fn members() -> (schema: Schema)
        ensures
            schema@ == member_columns(),
    {
        let schema = Schema::new().column("first_name", FieldKind::Text).column(
            "last_name",
            FieldKind::Text,
        ).column("email", FieldKind::Text).column("address", FieldKind::Text).column(
            "age",
            FieldKind::Integer,
        );
        schema
    }

    /// The columns that employees are filtered by.
    pub fn employees() -> (schema: Schema)
        ensures
            schema@ == employee_columns(),
    {
        let schema = Schema::new().column("first_name", FieldKind::Text).column(
            "last_name",
            FieldKind::Text,
        ).column("department", FieldKind::Text).column("salary", FieldKind::Float).column(
            "age",
            FieldKind::Integer,
        );
        schema
    }
}

} // verus!
