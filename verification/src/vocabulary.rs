//! The fixed vocabulary that rows are drawn from: statement kinds, table and
//! column names, the values that appear in conditions, and the categorical
//! fields of a row.

use crate::text::{is_plain, lacks, same_text};
use vstd::prelude::*;

verus! {

/// The kind of statement a row records.
#[derive(Clone, Copy, Debug, PartialEq, Eq, Structural)]
pub enum StatementKind {
    Select,
    Insert,
    Update,
    Delete,
    Alter,
}

impl StatementKind {
    /// The keyword that names the kind.
    pub open spec fn name_text(self) -> Seq<char> {
        match self {
            StatementKind::Select => "SELECT"@,
            StatementKind::Insert => "INSERT"@,
            StatementKind::Update => "UPDATE"@,
            StatementKind::Delete => "DELETE"@,
            StatementKind::Alter => "ALTER"@,
        }
    }

    /// The kind that `name` spells, if any. Spelling is exact, in capitals.
    pub open spec fn named(name: Seq<char>) -> Option<StatementKind> {
        if name == "SELECT"@ {
            Some(StatementKind::Select)
        } else if name == "INSERT"@ {
            Some(StatementKind::Insert)
        } else if name == "UPDATE"@ {
            Some(StatementKind::Update)
        } else if name == "DELETE"@ {
            Some(StatementKind::Delete)
        } else if name == "ALTER"@ {
            Some(StatementKind::Alter)
        } else {
            None
        }
    }

    /// The kind that a roll from 0 to 99 selects: sixteen values give
    /// `INSERT`, ten `UPDATE`, five `DELETE`, three `ALTER`, and the
    /// remaining sixty-six `SELECT`.
    pub open spec fn for_roll(roll: int) -> StatementKind {
        if roll <= 15 {
            StatementKind::Insert
        } else if roll <= 25 {
            StatementKind::Update
        } else if roll <= 30 {
            StatementKind::Delete
        } else if roll <= 33 {
            StatementKind::Alter
        } else {
            StatementKind::Select
        }
    }

    /// The keyword that names the kind.
    pub fn name(self) -> (r: &'static str)
        ensures
            r@ == self.name_text(),
    {
        match self {
            StatementKind::Select => "SELECT",
            StatementKind::Insert => "INSERT",
            StatementKind::Update => "UPDATE",
            StatementKind::Delete => "DELETE",
            StatementKind::Alter => "ALTER",
        }
    }

    /// The kind that `name` spells, or `None` for any other text.
    pub fn from_name(name: &str) -> (r: Option<StatementKind>)
        ensures
            r == StatementKind::named(name@),
    {
        if same_text(name, "SELECT") {
            Some(StatementKind::Select)
        } else if same_text(name, "INSERT") {
            Some(StatementKind::Insert)
        } else if same_text(name, "UPDATE") {
            Some(StatementKind::Update)
        } else if same_text(name, "DELETE") {
            Some(StatementKind::Delete)
        } else if same_text(name, "ALTER") {
            Some(StatementKind::Alter)
        } else {
            None
        }
    }

    /// The kind that a roll from 0 to 99 selects.
    pub fn from_roll(roll: u64) -> (r: StatementKind)
        requires
            roll < 100,
        ensures
            r == StatementKind::for_roll(roll as int),
    {
        if roll <= 15 {
            StatementKind::Insert
        } else if roll <= 25 {
            StatementKind::Update
        } else if roll <= 30 {
            StatementKind::Delete
        } else if roll <= 33 {
            StatementKind::Alter
        } else {
            StatementKind::Select
        }
    }

    /// A kind is found again from its keyword, and keywords are plain.
    pub proof fn lemma_name_round_trip(self)
        ensures
            StatementKind::named(self.name_text()) == Some(self),
            is_plain(self.name_text()),
            self.name_text().len() > 0,
    {
        reveal(is_plain);
        reveal_strlit("SELECT");
        reveal_strlit("INSERT");
        reveal_strlit("UPDATE");
        reveal_strlit("DELETE");
        reveal_strlit("ALTER");
        assert("SELECT"@[0] == 'S');
        assert("INSERT"@[0] == 'I');
        assert("UPDATE"@[0] == 'U');
        assert("DELETE"@[0] == 'D');
        assert("ALTER"@[0] == 'A');
    }

    /// The keyword `SELECT` names the kind `Select` and no other kind.
    pub proof fn lemma_select_name(self)
        ensures
            self.name_text() == "SELECT"@ <==> self == StatementKind::Select,
    {
        self.lemma_name_round_trip();
        StatementKind::Select.lemma_name_round_trip();
    }
}

/// The client application that a roll from 0 to 99 selects: fifty-one values
/// give `ERP`, thirty `WEB App`, five each `SQL Developer`, `Toad` and
/// `PL/SQL Developer`, and the remaining four `SQL*Plus`.
pub open spec fn app_name_text(roll: int) -> Seq<char> {
    if roll <= 50 {
        "ERP"@
    } else if roll <= 80 {
        "WEB App"@
    } else if roll <= 85 {
        "SQL Developer"@
    } else if roll <= 90 {
        "Toad"@
    } else if roll <= 95 {
        "PL/SQL Developer"@
    } else {
        "SQL*Plus"@
    }
}

/// The client application that a roll from 0 to 99 selects.
pub fn app_name(roll: u64) -> (name: &'static str)
    requires
        roll < 100,
    ensures
        name@ == app_name_text(roll as int),
{
    if roll <= 50 {
        "ERP"
    } else if roll <= 80 {
        "WEB App"
    } else if roll <= 85 {
        "SQL Developer"
    } else if roll <= 90 {
        "Toad"
    } else if roll <= 95 {
        "PL/SQL Developer"
    } else {
        "SQL*Plus"
    }
}

/// Client application names are plain and not empty.
pub proof fn lemma_app_name_plain(roll: int)
    ensures
        is_plain(app_name_text(roll)),
        app_name_text(roll).len() > 0,
{
    reveal(is_plain);
    reveal_strlit("ERP");
    reveal_strlit("WEB App");
    reveal_strlit("SQL Developer");
    reveal_strlit("Toad");
    reveal_strlit("PL/SQL Developer");
    reveal_strlit("SQL*Plus");
}

/// How many entries `table_name` has.
pub const TABLE_COUNT: usize = 10;

/// The tables a statement can name.
/// Entry `i` of the list; the last entry for any `i` past it.
pub open spec fn table_name_text(i: int) -> Seq<char> {
    if i == 0 {
        "users"@
    } else if i == 1 {
        "orders"@
    } else if i == 2 {
        "products"@
    } else if i == 3 {
        "departments"@
    } else if i == 4 {
        "employees"@
    } else if i == 5 {
        "salaries"@
    } else if i == 6 {
        "projects"@
    } else if i == 7 {
        "tasks"@
    } else if i == 8 {
        "events"@
    } else {
        "logs"@
    }
}

/// The name of table `i`.
pub fn table_name(i: usize) -> (name: &'static str)
    requires
        i < TABLE_COUNT,
    ensures
        name@ == table_name_text(i as int),
{
    match i {
        0 => "users",
        1 => "orders",
        2 => "products",
        3 => "departments",
        4 => "employees",
        5 => "salaries",
        6 => "projects",
        7 => "tasks",
        8 => "events",
        _ => "logs",
    }
}

/// Table names are plain and not empty.
pub proof fn lemma_table_name_plain(i: int)
    ensures
        is_plain(table_name_text(i)),
        table_name_text(i).len() > 0,
{
    reveal(is_plain);
    reveal_strlit("users");
    reveal_strlit("orders");
    reveal_strlit("products");
    reveal_strlit("departments");
    reveal_strlit("employees");
    reveal_strlit("salaries");
    reveal_strlit("projects");
    reveal_strlit("tasks");
    reveal_strlit("events");
    reveal_strlit("logs");
}

/// How many entries `column_name` has.
pub const COLUMN_COUNT: usize = 14;

/// The columns a `SELECT` can list.
/// Entry `i` of the list; the last entry for any `i` past it.
pub open spec fn column_name_text(i: int) -> Seq<char> {
    if i == 0 {
        "id"@
    } else if i == 1 {
        "produc_name"@
    } else if i == 2 {
        "age"@
    } else if i == 3 {
        "salary"@
    } else if i == 4 {
        "commission"@
    } else if i == 5 {
        "product"@
    } else if i == 6 {
        "price"@
    } else if i == 7 {
        "event_date"@
    } else if i == 8 {
        "department"@
    } else if i == 9 {
        "comm"@
    } else if i == 10 {
        "creation_dae"@
    } else if i == 11 {
        "created_by"@
    } else if i == 12 {
        "updated_date"@
    } else {
        "updated_by"@
    }
}

/// The name of column `i`.
pub fn column_name(i: usize) -> (name: &'static str)
    requires
        i < COLUMN_COUNT,
    ensures
        name@ == column_name_text(i as int),
{
    match i {
        0 => "id",
        1 => "produc_name",
        2 => "age",
        3 => "salary",
        4 => "commission",
        5 => "product",
        6 => "price",
        7 => "event_date",
        8 => "department",
        9 => "comm",
        10 => "creation_dae",
        11 => "created_by",
        12 => "updated_date",
        _ => "updated_by",
    }
}

/// Column names are plain and not empty.
pub proof fn lemma_column_name_plain(i: int)
    ensures
        is_plain(column_name_text(i)),
        column_name_text(i).len() > 0,
{
    reveal(is_plain);
    reveal_strlit("id");
    reveal_strlit("produc_name");
    reveal_strlit("age");
    reveal_strlit("salary");
    reveal_strlit("commission");
    reveal_strlit("product");
    reveal_strlit("price");
    reveal_strlit("event_date");
    reveal_strlit("department");
    reveal_strlit("comm");
    reveal_strlit("creation_dae");
    reveal_strlit("created_by");
    reveal_strlit("updated_date");
    reveal_strlit("updated_by");
}

/// How many entries `person_name` has.
pub const PERSON_COUNT: usize = 5;

/// The people who appear as values in statements.
/// Entry `i` of the list; the last entry for any `i` past it.
pub open spec fn person_name_text(i: int) -> Seq<char> {
    if i == 0 {
        "John Doe"@
    } else if i == 1 {
        "Jane Smith"@
    } else if i == 2 {
        "Alice Johnson"@
    } else if i == 3 {
        "Bob Brown"@
    } else {
        "Charlie Davis"@
    }
}

/// The name of person `i`.
pub fn person_name(i: usize) -> (name: &'static str)
    requires
        i < PERSON_COUNT,
    ensures
        name@ == person_name_text(i as int),
{
    match i {
        0 => "John Doe",
        1 => "Jane Smith",
        2 => "Alice Johnson",
        3 => "Bob Brown",
        _ => "Charlie Davis",
    }
}

/// Person names are plain and hold no quote.
pub proof fn lemma_person_name_plain(i: int)
    ensures
        is_plain(person_name_text(i)),
        person_name_text(i).len() > 0,
        lacks(person_name_text(i), '\''),
{
    reveal(is_plain);
    reveal_strlit("John Doe");
    reveal_strlit("Jane Smith");
    reveal_strlit("Alice Johnson");
    reveal_strlit("Bob Brown");
    reveal_strlit("Charlie Davis");
}

/// How many entries `department_name` has.
pub const DEPARTMENT_COUNT: usize = 3;

/// The departments that conditions compare with.
/// Entry `i` of the list; the last entry for any `i` past it.
pub open spec fn department_name_text(i: int) -> Seq<char> {
    if i == 0 {
        "HR"@
    } else if i == 1 {
        "Engineering"@
    } else {
        "Sales"@
    }
}

/// The name of department `i`.
pub fn department_name(i: usize) -> (name: &'static str)
    requires
        i < DEPARTMENT_COUNT,
    ensures
        name@ == department_name_text(i as int),
{
    match i {
        0 => "HR",
        1 => "Engineering",
        _ => "Sales",
    }
}

/// Department names are plain and hold no quote.
pub proof fn lemma_department_name_plain(i: int)
    ensures
        is_plain(department_name_text(i)),
        department_name_text(i).len() > 0,
        lacks(department_name_text(i), '\''),
{
    reveal(is_plain);
    reveal_strlit("HR");
    reveal_strlit("Engineering");
    reveal_strlit("Sales");
}

/// How many entries `name_initial` has.
pub const INITIAL_COUNT: usize = 3;

/// The initials that `LIKE` patterns start with.
/// Entry `i` of the list; the last entry for any `i` past it.
pub open spec fn name_initial_text(i: int) -> Seq<char> {
    if i == 0 {
        "A"@
    } else if i == 1 {
        "B"@
    } else {
        "C"@
    }
}

/// Initial `i`.
pub fn name_initial(i: usize) -> (name: &'static str)
    requires
        i < INITIAL_COUNT,
    ensures
        name@ == name_initial_text(i as int),
{
    match i {
        0 => "A",
        1 => "B",
        _ => "C",
    }
}

/// Initials are plain and hold no quote.
pub proof fn lemma_name_initial_plain(i: int)
    ensures
        is_plain(name_initial_text(i)),
        name_initial_text(i).len() > 0,
        lacks(name_initial_text(i), '\''),
{
    reveal(is_plain);
    reveal_strlit("A");
    reveal_strlit("B");
    reveal_strlit("C");
}

/// How many entries `added_column_name` has.
pub const ADDED_COLUMN_COUNT: usize = 3;

/// The columns an `ALTER` can add.
/// Entry `i` of the list; the last entry for any `i` past it.
pub open spec fn added_column_name_text(i: int) -> Seq<char> {
    if i == 0 {
        "attribute01"@
    } else if i == 1 {
        "attribute02"@
    } else {
        "atttribute03"@
    }
}

/// The name of added column `i`.
pub fn added_column_name(i: usize) -> (name: &'static str)
    requires
        i < ADDED_COLUMN_COUNT,
    ensures
        name@ == added_column_name_text(i as int),
{
    match i {
        0 => "attribute01",
        1 => "attribute02",
        _ => "atttribute03",
    }
}

/// Added column names are plain.
pub proof fn lemma_added_column_name_plain(i: int)
    ensures
        is_plain(added_column_name_text(i)),
        added_column_name_text(i).len() > 0,
{
    reveal(is_plain);
    reveal_strlit("attribute01");
    reveal_strlit("attribute02");
    reveal_strlit("atttribute03");
}

/// How many entries `added_column_type` has.
pub const ADDED_TYPE_COUNT: usize = 3;

/// The types an added column can have.
/// Entry `i` of the list; the last entry for any `i` past it.
pub open spec fn added_column_type_text(i: int) -> Seq<char> {
    if i == 0 {
        "VARCHAR(255)"@
    } else if i == 1 {
        "INT"@
    } else {
        "DATE"@
    }
}

/// Column type `i`.
pub fn added_column_type(i: usize) -> (name: &'static str)
    requires
        i < ADDED_TYPE_COUNT,
    ensures
        name@ == added_column_type_text(i as int),
{
    match i {
        0 => "VARCHAR(255)",
        1 => "INT",
        _ => "DATE",
    }
}

/// Column types are plain.
pub proof fn lemma_added_column_type_plain(i: int)
    ensures
        is_plain(added_column_type_text(i)),
        added_column_type_text(i).len() > 0,
{
    reveal(is_plain);
    reveal_strlit("VARCHAR(255)");
    reveal_strlit("INT");
    reveal_strlit("DATE");
}

/// How many entries `client_host_name` has.
pub const CLIENT_HOST_COUNT: usize = 5;

/// The client hosts that rows report.
/// Entry `i` of the list; the last entry for any `i` past it.
pub open spec fn client_host_name_text(i: int) -> Seq<char> {
    if i == 0 {
        "ERP_USER_HOST101"@
    } else if i == 1 {
        "ERP_USER_HOST102"@
    } else if i == 2 {
        "ERP_USER_HOST103"@
    } else if i == 3 {
        "ERP_USER_HOST104"@
    } else {
        "ERP_USER_HOST105"@
    }
}

/// The name of client host `i`.
pub fn client_host_name(i: usize) -> (name: &'static str)
    requires
        i < CLIENT_HOST_COUNT,
    ensures
        name@ == client_host_name_text(i as int),
{
    match i {
        0 => "ERP_USER_HOST101",
        1 => "ERP_USER_HOST102",
        2 => "ERP_USER_HOST103",
        3 => "ERP_USER_HOST104",
        _ => "ERP_USER_HOST105",
    }
}

/// Client host names are plain.
pub proof fn lemma_client_host_name_plain(i: int)
    ensures
        is_plain(client_host_name_text(i)),
        client_host_name_text(i).len() > 0,
{
    reveal(is_plain);
    reveal_strlit("ERP_USER_HOST101");
    reveal_strlit("ERP_USER_HOST102");
    reveal_strlit("ERP_USER_HOST103");
    reveal_strlit("ERP_USER_HOST104");
    reveal_strlit("ERP_USER_HOST105");
}

/// How many entries `db_user_name` has.
pub const DB_USER_COUNT: usize = 10;

/// The database users that rows report.
/// Entry `i` of the list; the last entry for any `i` past it.
pub open spec fn db_user_name_text(i: int) -> Seq<char> {
    if i == 0 {
        "SYS"@
    } else if i == 1 {
        "SYSTEM"@
    } else if i == 2 {
        "HR"@
    } else if i == 3 {
        "SCOTT"@
    } else if i == 4 {
        "OE"@
    } else if i == 5 {
        "SH"@
    } else if i == 6 {
        "PM"@
    } else if i == 7 {
        "IX"@
    } else if i == 8 {
        "APEX_040000"@
    } else {
        "ANONYMOUS"@
    }
}

/// The name of database user `i`.
pub fn db_user_name(i: usize) -> (name: &'static str)
    requires
        i < DB_USER_COUNT,
    ensures
        name@ == db_user_name_text(i as int),
{
    match i {
        0 => "SYS",
        1 => "SYSTEM",
        2 => "HR",
        3 => "SCOTT",
        4 => "OE",
        5 => "SH",
        6 => "PM",
        7 => "IX",
        8 => "APEX_040000",
        _ => "ANONYMOUS",
    }
}

/// Database user names are plain.
pub proof fn lemma_db_user_name_plain(i: int)
    ensures
        is_plain(db_user_name_text(i)),
        db_user_name_text(i).len() > 0,
{
    reveal(is_plain);
    reveal_strlit("SYS");
    reveal_strlit("SYSTEM");
    reveal_strlit("HR");
    reveal_strlit("SCOTT");
    reveal_strlit("OE");
    reveal_strlit("SH");
    reveal_strlit("PM");
    reveal_strlit("IX");
    reveal_strlit("APEX_040000");
    reveal_strlit("ANONYMOUS");
}

/// How many entries `status_name` has.
pub const STATUS_COUNT: usize = 2;

/// The outcomes a row can report.
/// Entry `i` of the list; the last entry for any `i` past it.
pub open spec fn status_name_text(i: int) -> Seq<char> {
    if i == 0 {
        "SUCCESS"@
    } else {
        "FAILURE"@
    }
}

/// The name of outcome `i`.
pub fn status_name(i: usize) -> (name: &'static str)
    requires
        i < STATUS_COUNT,
    ensures
        name@ == status_name_text(i as int),
{
    match i {
        0 => "SUCCESS",
        _ => "FAILURE",
    }
}

/// Outcome names are plain.
pub proof fn lemma_status_name_plain(i: int)
    ensures
        is_plain(status_name_text(i)),
        status_name_text(i).len() > 0,
{
    reveal(is_plain);
    reveal_strlit("SUCCESS");
    reveal_strlit("FAILURE");
}


} // verus!
