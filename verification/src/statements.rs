//! Statement text: the column list of a `SELECT`, and one statement of each
//! kind around a table name.

use crate::clock::usable_now;
use crate::conditions::{
    clause_ready, generate_where_clause, is_where_clause, lemma_where_clause_plain,
};
use crate::random::RandomSource;
use crate::text::{
    decimal, is_plain, is_unbroken, join, join_strings, lemma_concat_plain,
    lemma_concat_unbroken, lemma_decimal_plain, lemma_join_plain, lemma_plain_unbroken,
    push_decimal, same_text,
};
use crate::vocabulary::{
    added_column_name, added_column_name_text, added_column_type, added_column_type_text,
    column_name, column_name_text, lemma_added_column_name_plain, lemma_added_column_type_plain,
    lemma_column_name_plain, lemma_person_name_plain, person_name, person_name_text,
    StatementKind, ADDED_COLUMN_COUNT, ADDED_TYPE_COUNT, COLUMN_COUNT, PERSON_COUNT,
};
use vstd::prelude::*;
use vstd::string::*;

verus! {

/// The names of the picked columns, in order.
pub open spec fn picked_columns(picks: Seq<usize>) -> Seq<Seq<char>> {
    Seq::new(picks.len(), |i: int| column_name_text(picks[i] as int))
}

/// The column list that `picks` selects: the names joined with a comma and
/// a space.
pub open spec fn select_list_text(picks: Seq<usize>) -> Seq<char> {
    join(picked_columns(picks), ", "@)
}

/// True when `picks` can be drawn for a column list: at least one pick and
/// fewer than there are columns, each of them a column. A column may come
/// more than once.
pub open spec fn columns_sampled(picks: Seq<usize>) -> bool {
    &&& 1 <= picks.len() < COLUMN_COUNT
    &&& forall|i: int| 0 <= i < picks.len() ==> picks[i] < COLUMN_COUNT
}

/// True when `list` is a column list that can be generated.
pub open spec fn is_select_list(list: Seq<char>) -> bool {
    exists|picks: Seq<usize>| columns_sampled(picks) && list == #[trigger] select_list_text(picks)
}

/// What stands in place of a column list for a statement that selects
/// nothing.
pub open spec fn no_columns_text() -> Seq<char> {
    "N/A"@
}

/// A column list of at least one pick is not empty.
pub proof fn lemma_select_list_nonempty(picks: Seq<usize>)
    requires
        picks.len() >= 1,
    ensures
        select_list_text(picks).len() > 0,
{
    let parts = picked_columns(picks);
    lemma_column_name_plain(picks[picks.len() - 1] as int);
    assert(parts.last() == column_name_text(picks[picks.len() - 1] as int));
}

/// The column list that `picks` selects.
pub fn select_list(picks: &Vec<usize>) -> (r: String)
    requires
        forall|i: int| 0 <= i < picks.len() ==> picks[i] < COLUMN_COUNT,
    ensures
        r@ == select_list_text(picks@),
{
    let mut names: Vec<String> = Vec::new();
    let mut i: usize = 0;
    while i < picks.len()
        invariant
            i <= picks.len(),
            forall|j: int| 0 <= j < picks.len() ==> picks[j] < COLUMN_COUNT,
            names.len() == i,
            forall|j: int| 0 <= j < i ==> names[j]@ == column_name_text(picks[j] as int),
        decreases picks.len() - i,
    {
        names.push(String::from_str(column_name(picks[i])));
        i += 1;
    }
    let r = join_strings(&names, ", ");
    assert(names@.map_values(|p: String| p@) =~= picked_columns(picks@));
    r
}

/// The column list of a statement of the kind that `sql_type` spells: for
/// `SELECT` a fresh list of columns, which is never empty; for anything else
/// the text `N/A`.
pub fn generate_select_cols(sql_type: &str, rng: &mut RandomSource) -> (r: String)
    ensures
        sql_type@ == "SELECT"@ ==> is_select_list(r@) && r@.len() > 0,
        sql_type@ != "SELECT"@ ==> r@ == no_columns_text(),
{
    if same_text(sql_type, "SELECT") {
        let count = rng.draw(1, COLUMN_COUNT as u64) as usize;
        let mut picks: Vec<usize> = Vec::new();
        let mut i: usize = 0;
        while i < count
            invariant
                i <= count,
                picks.len() == i,
                forall|j: int| 0 <= j < i ==> picks[j] < COLUMN_COUNT,
            decreases count - i,
        {
            picks.push(rng.draw_index(COLUMN_COUNT));
            i += 1;
        }
        let r = select_list(&picks);
        proof {
            lemma_select_list_nonempty(picks@);
        }
        r
    } else {
        String::from_str("N/A")
    }
}

/// A `SELECT` of `cols` from `table` under `clause`.
pub open spec fn select_text(cols: Seq<char>, table: Seq<char>, clause: Seq<char>) -> Seq<char> {
    "SELECT "@ + cols + " FROM "@ + table + " "@ + clause
}

/// An `INSERT` into `table` of one row: an id, the name of a person, an age
/// and a salary.
pub open spec fn insert_text(table: Seq<char>, id: nat, person: int, age: nat, salary: nat) -> Seq<
    char,
> {
    "INSERT INTO "@ + table + " (id, name, age, salary) VALUES ("@ + decimal(id) + ", '"@
        + person_name_text(person) + "', "@ + decimal(age) + ", "@ + decimal(salary) + ")"@
}

/// An `UPDATE` of `table` that sets the salary, under `clause`.
pub open spec fn update_text(table: Seq<char>, salary: nat, clause: Seq<char>) -> Seq<char> {
    "UPDATE "@ + table + " SET salary = "@ + decimal(salary) + " "@ + clause
}

/// A `DELETE` from `table` under `clause`.
pub open spec fn delete_text(table: Seq<char>, clause: Seq<char>) -> Seq<char> {
    "DELETE FROM "@ + table + " "@ + clause
}

/// An `ALTER` of `table` that adds a column of a type.
pub open spec fn alter_text(table: Seq<char>, column: int, column_type: int) -> Seq<char> {
    "ALTER TABLE "@ + table + " ADD COLUMN "@ + added_column_name_text(column) + " "@
        + added_column_type_text(column_type)
}

/// A `SELECT` of `cols` from `table` under `clause`.
pub fn select_statement(cols: &str, table: &str, clause: &str) -> (r: String)
    ensures
        r@ == select_text(cols@, table@, clause@),
{
    let mut out = String::new();
    out.append("SELECT ");
    out.append(cols);
    out.append(" FROM ");
    out.append(table);
    out.append(" ");
    out.append(clause);
    assert(out@ =~= select_text(cols@, table@, clause@));
    out
}

/// An `INSERT` into `table` of one row.
pub fn insert_statement(table: &str, id: u64, person: usize, age: u64, salary: u64) -> (r: String)
    requires
        person < PERSON_COUNT,
    ensures
        r@ == insert_text(table@, id as nat, person as int, age as nat, salary as nat),
{
    let mut out = String::new();
    out.append("INSERT INTO ");
    out.append(table);
    out.append(" (id, name, age, salary) VALUES (");
    push_decimal(&mut out, id);
    out.append(", '");
    out.append(person_name(person));
    out.append("', ");
    push_decimal(&mut out, age);
    out.append(", ");
    push_decimal(&mut out, salary);
    out.append(")");
    assert(out@ =~= insert_text(table@, id as nat, person as int, age as nat, salary as nat));
    out
}

/// An `UPDATE` of `table` that sets the salary, under `clause`.
pub fn update_statement(table: &str, salary: u64, clause: &str) -> (r: String)
    ensures
        r@ == update_text(table@, salary as nat, clause@),
{
    let mut out = String::new();
    out.append("UPDATE ");
    out.append(table);
    out.append(" SET salary = ");
    push_decimal(&mut out, salary);
    out.append(" ");
    out.append(clause);
    assert(out@ =~= update_text(table@, salary as nat, clause@));
    out
}

/// A `DELETE` from `table` under `clause`.
pub fn delete_statement(table: &str, clause: &str) -> (r: String)
    ensures
        r@ == delete_text(table@, clause@),
{
    let mut out = String::new();
    out.append("DELETE FROM ");
    out.append(table);
    out.append(" ");
    out.append(clause);
    assert(out@ =~= delete_text(table@, clause@));
    out
}

/// An `ALTER` of `table` that adds a column of a type.
pub fn alter_statement(table: &str, column: usize, column_type: usize) -> (r: String)
    requires
        column < ADDED_COLUMN_COUNT,
        column_type < ADDED_TYPE_COUNT,
    ensures
        r@ == alter_text(table@, column as int, column_type as int),
{
    let mut out = String::new();
    out.append("ALTER TABLE ");
    out.append(table);
    out.append(" ADD COLUMN ");
    out.append(added_column_name(column));
    out.append(" ");
    out.append(added_column_type(column_type));
    assert(out@ =~= alter_text(table@, column as int, column_type as int));
    out
}

/// True when `text` is a `SELECT` of `cols` from `table` under a clause
/// that can be generated at the instant `now`.
pub open spec fn is_select_statement(
    text: Seq<char>,
    cols: Seq<char>,
    table: Seq<char>,
    now: int,
) -> bool {
    exists|clause: Seq<char>|
        is_where_clause(clause, now) && text == #[trigger] select_text(cols, table, clause)
}

/// True when `text` is an `INSERT` into `table` with values in the ranges
/// they are drawn from: id 1 to 99, a person of the list, age 20 to 49,
/// salary 3000 to 9999.
pub open spec fn is_insert_statement(text: Seq<char>, table: Seq<char>) -> bool {
    exists|id: nat, person: int, age: nat, salary: nat|
        1 <= id < 100 && 0 <= person < PERSON_COUNT && 20 <= age < 50 && 3000 <= salary < 10_000
            && text == #[trigger] insert_text(table, id, person, age, salary)
}

/// True when `text` is an `UPDATE` of `table` to a salary from 3000 to 9999
/// under a clause that can be generated at the instant `now`.
pub open spec fn is_update_statement(text: Seq<char>, table: Seq<char>, now: int) -> bool {
    exists|salary: nat, clause: Seq<char>|
        3000 <= salary < 10_000 && is_where_clause(clause, now) && text
            == #[trigger] update_text(table, salary, clause)
}

/// True when `text` is a `DELETE` from `table` under a clause that can be
/// generated at the instant `now`.
pub open spec fn is_delete_statement(text: Seq<char>, table: Seq<char>, now: int) -> bool {
    exists|clause: Seq<char>|
        is_where_clause(clause, now) && text == #[trigger] delete_text(table, clause)
}

/// True when `text` is an `ALTER` of `table` that adds one of the columns
/// with one of the types.
pub open spec fn is_alter_statement(text: Seq<char>, table: Seq<char>) -> bool {
    exists|column: int, column_type: int|
        0 <= column < ADDED_COLUMN_COUNT && 0 <= column_type < ADDED_TYPE_COUNT && text
            == #[trigger] alter_text(table, column, column_type)
}

/// True when `text` is a statement of `kind` on `table` that can be
/// generated at the instant `now`; for a `SELECT`, one that lists `cols`.
pub open spec fn is_statement(
    text: Seq<char>,
    kind: StatementKind,
    table: Seq<char>,
    cols: Seq<char>,
    now: int,
) -> bool {
    match kind {
        StatementKind::Select => is_select_statement(text, cols, table, now),
        StatementKind::Insert => is_insert_statement(text, table),
        StatementKind::Update => is_update_statement(text, table, now),
        StatementKind::Delete => is_delete_statement(text, table, now),
        StatementKind::Alter => is_alter_statement(text, table),
    }
}

/// A column list that can be generated is plain, and so is the text that
/// stands in its place.
pub proof fn lemma_select_list_plain(list: Seq<char>)
    requires
        is_select_list(list) || list == no_columns_text(),
    ensures
        is_plain(list),
{
    assert(is_plain("N/A"@)) by {
            reveal(is_plain);
            reveal_strlit("N/A");
        }
    assert(is_plain(", "@)) by {
            reveal(is_plain);
            reveal_strlit(", ");
        }
    if is_select_list(list) {
        let picks = choose|picks: Seq<usize>|
            columns_sampled(picks) && list == #[trigger] select_list_text(picks);
        let parts = picked_columns(picks);
        assert forall|i: int| 0 <= i < parts.len() implies is_plain(#[trigger] parts[i]) by {
            lemma_column_name_plain(picks[i] as int);
        }
        lemma_join_plain(parts, ", "@);
    }
}

/// A `SELECT` of plain parts is plain.
pub proof fn lemma_select_text_plain(cols: Seq<char>, table: Seq<char>, clause: Seq<char>)
    requires
        is_plain(cols),
        is_plain(table),
        is_plain(clause),
    ensures
        is_plain(select_text(cols, table, clause)),
{
    assert(is_plain("SELECT "@) && is_plain(" FROM "@) && is_plain(" "@)) by {
        reveal(is_plain);
        reveal_strlit("SELECT ");
        reveal_strlit(" FROM ");
        reveal_strlit(" ");
    }
    lemma_concat_plain("SELECT "@, cols);
    lemma_concat_plain("SELECT "@ + cols, " FROM "@);
    lemma_concat_plain("SELECT "@ + cols + " FROM "@, table);
    lemma_concat_plain("SELECT "@ + cols + " FROM "@ + table, " "@);
    lemma_concat_plain("SELECT "@ + cols + " FROM "@ + table + " "@, clause);
}

/// An `INSERT` into a table with a plain name is plain.
pub proof fn lemma_insert_text_plain(table: Seq<char>, id: nat, person: int, age: nat, salary: nat)
    requires
        is_plain(table),
    ensures
        is_plain(insert_text(table, id, person, age, salary)),
{
    assert(is_plain("INSERT INTO "@) && is_plain(" (id, name, age, salary) VALUES ("@) && is_plain(
        ", '"@,
    ) && is_plain("', "@) && is_plain(", "@) && is_plain(")"@)) by {
        reveal(is_plain);
        reveal_strlit("INSERT INTO ");
        reveal_strlit(" (id, name, age, salary) VALUES (");
        reveal_strlit(", '");
        reveal_strlit("', ");
        reveal_strlit(", ");
        reveal_strlit(")");
    }
    lemma_decimal_plain(id);
    lemma_decimal_plain(age);
    lemma_decimal_plain(salary);
    lemma_person_name_plain(person);
    let a = "INSERT INTO "@ + table;
    lemma_concat_plain("INSERT INTO "@, table);
    let b = a + " (id, name, age, salary) VALUES ("@;
    lemma_concat_plain(a, " (id, name, age, salary) VALUES ("@);
    let c = b + decimal(id);
    lemma_concat_plain(b, decimal(id));
    let d = c + ", '"@;
    lemma_concat_plain(c, ", '"@);
    let e = d + person_name_text(person);
    lemma_concat_plain(d, person_name_text(person));
    let f = e + "', "@;
    lemma_concat_plain(e, "', "@);
    let g = f + decimal(age);
    lemma_concat_plain(f, decimal(age));
    let h = g + ", "@;
    lemma_concat_plain(g, ", "@);
    let k = h + decimal(salary);
    lemma_concat_plain(h, decimal(salary));
    lemma_concat_plain(k, ")"@);
}

/// An `UPDATE` of plain parts is plain.
pub proof fn lemma_update_text_plain(table: Seq<char>, salary: nat, clause: Seq<char>)
    requires
        is_plain(table),
        is_plain(clause),
    ensures
        is_plain(update_text(table, salary, clause)),
{
    assert(is_plain("UPDATE "@) && is_plain(" SET salary = "@) && is_plain(" "@)) by {
        reveal(is_plain);
        reveal_strlit("UPDATE ");
        reveal_strlit(" SET salary = ");
        reveal_strlit(" ");
    }
    lemma_decimal_plain(salary);
    lemma_concat_plain("UPDATE "@, table);
    lemma_concat_plain("UPDATE "@ + table, " SET salary = "@);
    lemma_concat_plain("UPDATE "@ + table + " SET salary = "@, decimal(salary));
    lemma_concat_plain("UPDATE "@ + table + " SET salary = "@ + decimal(salary), " "@);
    lemma_concat_plain("UPDATE "@ + table + " SET salary = "@ + decimal(salary) + " "@, clause);
}

/// A `DELETE` of plain parts is plain.
pub proof fn lemma_delete_text_plain(table: Seq<char>, clause: Seq<char>)
    requires
        is_plain(table),
        is_plain(clause),
    ensures
        is_plain(delete_text(table, clause)),
{
    assert(is_plain("DELETE FROM "@) && is_plain(" "@)) by {
        reveal(is_plain);
        reveal_strlit("DELETE FROM ");
        reveal_strlit(" ");
    }
    lemma_concat_plain("DELETE FROM "@, table);
    lemma_concat_plain("DELETE FROM "@ + table, " "@);
    lemma_concat_plain("DELETE FROM "@ + table + " "@, clause);
}

/// An `ALTER` of a table with a plain name is plain.
pub proof fn lemma_alter_text_plain(table: Seq<char>, column: int, column_type: int)
    requires
        is_plain(table),
    ensures
        is_plain(alter_text(table, column, column_type)),
{
    assert(is_plain("ALTER TABLE "@) && is_plain(" ADD COLUMN "@) && is_plain(" "@)) by {
        reveal(is_plain);
        reveal_strlit("ALTER TABLE ");
        reveal_strlit(" ADD COLUMN ");
        reveal_strlit(" ");
    }
    lemma_added_column_name_plain(column);
    lemma_added_column_type_plain(column_type);
    let name = added_column_name_text(column);
    lemma_concat_plain("ALTER TABLE "@, table);
    lemma_concat_plain("ALTER TABLE "@ + table, " ADD COLUMN "@);
    lemma_concat_plain("ALTER TABLE "@ + table + " ADD COLUMN "@, name);
    lemma_concat_plain("ALTER TABLE "@ + table + " ADD COLUMN "@ + name, " "@);
    lemma_concat_plain(
        "ALTER TABLE "@ + table + " ADD COLUMN "@ + name + " "@,
        added_column_type_text(column_type),
    );
}

/// A statement that can be generated on a plain table name, with a plain
/// column list, is plain.
pub proof fn lemma_statement_plain(
    text: Seq<char>,
    kind: StatementKind,
    table: Seq<char>,
    cols: Seq<char>,
    now: int,
)
    requires
        is_statement(text, kind, table, cols, now),
        is_plain(table),
        is_plain(cols),
    ensures
        is_plain(text),
{
    match kind {
        StatementKind::Select => {
            let clause = choose|clause: Seq<char>|
                is_where_clause(clause, now) && text == #[trigger] select_text(
                    cols,
                    table,
                    clause,
                );
            lemma_where_clause_plain(clause, now);
            lemma_select_text_plain(cols, table, clause);
        },
        StatementKind::Insert => {
            let (id, person, age, salary) = choose|id: nat, person: int, age: nat, salary: nat|
                1 <= id < 100 && 0 <= person < PERSON_COUNT && 20 <= age < 50 && 3000 <= salary
                    < 10_000 && text == #[trigger] insert_text(table, id, person, age, salary);
            lemma_insert_text_plain(table, id, person, age, salary);
        },
        StatementKind::Update => {
            let (salary, clause) = choose|salary: nat, clause: Seq<char>|
                3000 <= salary < 10_000 && is_where_clause(clause, now) && text
                    == #[trigger] update_text(table, salary, clause);
            lemma_where_clause_plain(clause, now);
            lemma_update_text_plain(table, salary, clause);
        },
        StatementKind::Delete => {
            let clause = choose|clause: Seq<char>|
                is_where_clause(clause, now) && text == #[trigger] delete_text(table, clause);
            lemma_where_clause_plain(clause, now);
            lemma_delete_text_plain(table, clause);
        },
        StatementKind::Alter => {
            let (column, column_type) = choose|column: int, column_type: int|
                0 <= column < ADDED_COLUMN_COUNT && 0 <= column_type < ADDED_TYPE_COUNT && text
                    == #[trigger] alter_text(table, column, column_type);
            lemma_alter_text_plain(table, column, column_type);
        },
    }
}

/// A `SELECT` of parts without a tab or a line break holds none.
pub proof fn lemma_select_text_unbroken(cols: Seq<char>, table: Seq<char>, clause: Seq<char>)
    requires
        is_unbroken(cols),
        is_unbroken(table),
        is_unbroken(clause),
    ensures
        is_unbroken(select_text(cols, table, clause)),
{
    assert(is_unbroken("SELECT "@)) by {
        reveal_strlit("SELECT ");
    }
    assert(is_unbroken(" FROM "@)) by {
        reveal_strlit(" FROM ");
    }
    assert(is_unbroken(" "@)) by {
        reveal_strlit(" ");
    }
    lemma_concat_unbroken("SELECT "@, cols);
    let a = "SELECT "@ + cols;
    lemma_concat_unbroken(a, " FROM "@);
    let b = a + " FROM "@;
    lemma_concat_unbroken(b, table);
    let c = b + table;
    lemma_concat_unbroken(c, " "@);
    let d = c + " "@;
    lemma_concat_unbroken(d, clause);
}

/// An `INSERT` into a table whose name holds no tab and no line break holds
/// none.
pub proof fn lemma_insert_text_unbroken(
    table: Seq<char>,
    id: nat,
    person: int,
    age: nat,
    salary: nat,
)
    requires
        is_unbroken(table),
    ensures
        is_unbroken(insert_text(table, id, person, age, salary)),
{
    assert(is_unbroken("INSERT INTO "@)) by {
        reveal_strlit("INSERT INTO ");
    }
    assert(is_unbroken(" (id, name, age, salary) VALUES ("@)) by {
        reveal_strlit(" (id, name, age, salary) VALUES (");
    }
    assert(is_unbroken(", '"@)) by {
        reveal_strlit(", '");
    }
    assert(is_unbroken("', "@)) by {
        reveal_strlit("', ");
    }
    assert(is_unbroken(", "@)) by {
        reveal_strlit(", ");
    }
    assert(is_unbroken(")"@)) by {
        reveal_strlit(")");
    }
    let name = person_name_text(person);
    lemma_decimal_plain(id);
    lemma_decimal_plain(age);
    lemma_decimal_plain(salary);
    lemma_person_name_plain(person);
    lemma_plain_unbroken(decimal(id));
    lemma_plain_unbroken(decimal(age));
    lemma_plain_unbroken(decimal(salary));
    lemma_plain_unbroken(name);
    lemma_concat_unbroken("INSERT INTO "@, table);
    let a = "INSERT INTO "@ + table;
    lemma_concat_unbroken(a, " (id, name, age, salary) VALUES ("@);
    let b = a + " (id, name, age, salary) VALUES ("@;
    lemma_concat_unbroken(b, decimal(id));
    let c = b + decimal(id);
    lemma_concat_unbroken(c, ", '"@);
    let d = c + ", '"@;
    lemma_concat_unbroken(d, name);
    let e = d + name;
    lemma_concat_unbroken(e, "', "@);
    let f = e + "', "@;
    lemma_concat_unbroken(f, decimal(age));
    let g = f + decimal(age);
    lemma_concat_unbroken(g, ", "@);
    let h = g + ", "@;
    lemma_concat_unbroken(h, decimal(salary));
    let i = h + decimal(salary);
    lemma_concat_unbroken(i, ")"@);
}

/// An `UPDATE` of parts without a tab or a line break holds none.
pub proof fn lemma_update_text_unbroken(table: Seq<char>, salary: nat, clause: Seq<char>)
    requires
        is_unbroken(table),
        is_unbroken(clause),
    ensures
        is_unbroken(update_text(table, salary, clause)),
{
    assert(is_unbroken("UPDATE "@)) by {
        reveal_strlit("UPDATE ");
    }
    assert(is_unbroken(" SET salary = "@)) by {
        reveal_strlit(" SET salary = ");
    }
    assert(is_unbroken(" "@)) by {
        reveal_strlit(" ");
    }
    lemma_decimal_plain(salary);
    lemma_plain_unbroken(decimal(salary));
    lemma_concat_unbroken("UPDATE "@, table);
    let a = "UPDATE "@ + table;
    lemma_concat_unbroken(a, " SET salary = "@);
    let b = a + " SET salary = "@;
    lemma_concat_unbroken(b, decimal(salary));
    let c = b + decimal(salary);
    lemma_concat_unbroken(c, " "@);
    let d = c + " "@;
    lemma_concat_unbroken(d, clause);
}

/// A `DELETE` of parts without a tab or a line break holds none.
pub proof fn lemma_delete_text_unbroken(table: Seq<char>, clause: Seq<char>)
    requires
        is_unbroken(table),
        is_unbroken(clause),
    ensures
        is_unbroken(delete_text(table, clause)),
{
    assert(is_unbroken("DELETE FROM "@)) by {
        reveal_strlit("DELETE FROM ");
    }
    assert(is_unbroken(" "@)) by {
        reveal_strlit(" ");
    }
    lemma_concat_unbroken("DELETE FROM "@, table);
    let a = "DELETE FROM "@ + table;
    lemma_concat_unbroken(a, " "@);
    let b = a + " "@;
    lemma_concat_unbroken(b, clause);
}

/// An `ALTER` of a table whose name holds no tab and no line break holds
/// none.
pub proof fn lemma_alter_text_unbroken(table: Seq<char>, column: int, column_type: int)
    requires
        is_unbroken(table),
    ensures
        is_unbroken(alter_text(table, column, column_type)),
{
    assert(is_unbroken("ALTER TABLE "@)) by {
        reveal_strlit("ALTER TABLE ");
    }
    assert(is_unbroken(" ADD COLUMN "@)) by {
        reveal_strlit(" ADD COLUMN ");
    }
    assert(is_unbroken(" "@)) by {
        reveal_strlit(" ");
    }
    let name = added_column_name_text(column);
    let kind = added_column_type_text(column_type);
    lemma_added_column_name_plain(column);
    lemma_added_column_type_plain(column_type);
    lemma_plain_unbroken(name);
    lemma_plain_unbroken(kind);
    lemma_concat_unbroken("ALTER TABLE "@, table);
    let a = "ALTER TABLE "@ + table;
    lemma_concat_unbroken(a, " ADD COLUMN "@);
    let b = a + " ADD COLUMN "@;
    lemma_concat_unbroken(b, name);
    let c = b + name;
    lemma_concat_unbroken(c, " "@);
    let d = c + " "@;
    lemma_concat_unbroken(d, kind);
}

/// A statement that can be generated on a table name and with a column
/// list that hold no tab and no line break holds none, so that it can stand
/// as one field of one line.
pub proof fn lemma_statement_unbroken(
    text: Seq<char>,
    kind: StatementKind,
    table: Seq<char>,
    cols: Seq<char>,
    now: int,
)
    requires
        is_statement(text, kind, table, cols, now),
        is_unbroken(table),
        is_unbroken(cols),
    ensures
        is_unbroken(text),
{
    match kind {
        StatementKind::Select => {
            let clause = choose|clause: Seq<char>|
                is_where_clause(clause, now) && text == #[trigger] select_text(
                    cols,
                    table,
                    clause,
                );
            lemma_where_clause_plain(clause, now);
            lemma_plain_unbroken(clause);
            lemma_select_text_unbroken(cols, table, clause);
        },
        StatementKind::Insert => {
            let (id, person, age, salary) = choose|id: nat, person: int, age: nat, salary: nat|
                1 <= id < 100 && 0 <= person < PERSON_COUNT && 20 <= age < 50 && 3000 <= salary
                    < 10_000 && text == #[trigger] insert_text(table, id, person, age, salary);
            lemma_insert_text_unbroken(table, id, person, age, salary);
        },
        StatementKind::Update => {
            let (salary, clause) = choose|salary: nat, clause: Seq<char>|
                3000 <= salary < 10_000 && is_where_clause(clause, now) && text
                    == #[trigger] update_text(table, salary, clause);
            lemma_where_clause_plain(clause, now);
            lemma_plain_unbroken(clause);
            lemma_update_text_unbroken(table, salary, clause);
        },
        StatementKind::Delete => {
            let clause = choose|clause: Seq<char>|
                is_where_clause(clause, now) && text == #[trigger] delete_text(table, clause);
            lemma_where_clause_plain(clause, now);
            lemma_plain_unbroken(clause);
            lemma_delete_text_unbroken(table, clause);
        },
        StatementKind::Alter => {
            let (column, column_type) = choose|column: int, column_type: int|
                0 <= column < ADDED_COLUMN_COUNT && 0 <= column_type < ADDED_TYPE_COUNT && text
                    == #[trigger] alter_text(table, column, column_type);
            lemma_alter_text_unbroken(table, column, column_type);
        },
    }
}

/// A fresh statement of the kind that `sql_type` spells, on `table`, at the
/// instant `now`; a `SELECT` lists `select_cols`. A kind without a `WHERE`
/// clause always gives a statement. One with a clause gives `None` where
/// the calendar cannot hold an end of the clause's date range, which is
/// never so where `clause_ready` holds. Text that spells no kind gives the
/// empty statement.
pub fn generate_sql_stmt(
    sql_type: &str,
    table: &str,
    select_cols: &str,
    rng: &mut RandomSource,
    now: i64,
) -> (r: Option<String>)
    requires
        usable_now(now),
    ensures
        match StatementKind::named(sql_type@) {
            Some(kind) => r matches Some(text) ==> is_statement(
                text@,
                kind,
                table@,
                select_cols@,
                now as int,
            ),
            None => r matches Some(text) && text@.len() == 0,
        },
        StatementKind::named(sql_type@) == Some(StatementKind::Insert) ==> r is Some,
        StatementKind::named(sql_type@) == Some(StatementKind::Alter) ==> r is Some,
        clause_ready(now) ==> r is Some,
        r matches Some(text) ==> (is_unbroken(table@) && is_unbroken(select_cols@) ==> is_unbroken(
            text@,
        )),
{
    let r = match StatementKind::from_name(sql_type) {
        Some(StatementKind::Select) => {
            match generate_where_clause(rng, now) {
                Some(clause) => Some(select_statement(select_cols, table, clause.as_str())),
                None => None,
            }
        },
        Some(StatementKind::Insert) => {
            let id = rng.draw(1, 100);
            let person = rng.draw_index(PERSON_COUNT);
            let age = rng.draw(20, 50);
            let salary = rng.draw(3000, 10_000);
            let text = insert_statement(table, id, person, age, salary);
            assert(text@ == insert_text(
                table@,
                id as nat,
                person as int,
                age as nat,
                salary as nat,
            ));
            Some(text)
        },
        Some(StatementKind::Update) => {
            let salary = rng.draw(3000, 10_000);
            match generate_where_clause(rng, now) {
                Some(clause) => {
                    let text = update_statement(table, salary, clause.as_str());
                    assert(text@ == update_text(table@, salary as nat, clause@));
                    Some(text)
                },
                None => None,
            }
        },
        Some(StatementKind::Delete) => {
            match generate_where_clause(rng, now) {
                Some(clause) => Some(delete_statement(table, clause.as_str())),
                None => None,
            }
        },
        Some(StatementKind::Alter) => {
            let column = rng.draw_index(ADDED_COLUMN_COUNT);
            let column_type = rng.draw_index(ADDED_TYPE_COUNT);
            let text = alter_statement(table, column, column_type);
            assert(text@ == alter_text(table@, column as int, column_type as int));
            Some(text)
        },
        None => Some(String::new()),
    };
    proof {
        let kind = StatementKind::named(sql_type@);
        if kind is Some && r is Some && is_unbroken(table@) && is_unbroken(select_cols@) {
            lemma_statement_unbroken(r->0@, kind->0, table@, select_cols@, now as int);
        }
    }
    r
}

} // verus!
