//! The shape of what is generated: a condition, a clause and a statement
//! keep their shape whatever values fill them, so that the hash of a
//! generated statement tells which templates it was made of and not which
//! values were drawn.

use crate::clock::{is_timestamp_text, lemma_timestamp_text_plain};
use crate::conditions::ConditionValues;
use crate::hashing::statement_hash_text;
use crate::literals::stripped;
use crate::shape::{
    can_follow_literal, is_literal_free, is_whole_literal, lemma_decimal_is_literal,
    lemma_fraction_is_literal, lemma_literal_free_shape, lemma_literal_in_place,
    lemma_quoted_is_literal, lemma_shape_concat, quotes_closed_from,
};
use crate::statements::{
    delete_text, insert_text, picked_columns, select_list_text, select_text, update_text,
};
use crate::text::{decimal, is_digit, join, lacks, lemma_decimal_digits, two_digits};
use crate::vocabulary::{
    column_name_text, department_name_text, lemma_department_name_plain,
    lemma_name_initial_plain, lemma_person_name_plain, name_initial_text, person_name_text,
    table_name_text,
};
use vstd::prelude::*;

verus! {

/// What cutting the literals out leaves of condition `which`, whatever
/// values fill it.
pub open spec fn condition_shape(which: int) -> Seq<char> {
    if which == 0 {
        "age > "@
    } else if which == 1 {
        "salary < "@
    } else if which == 2 {
        "department = "@
    } else if which == 3 {
        "commission = "@
    } else if which == 4 {
        "name LIKE "@
    } else if which == 5 {
        "last_update_by = "@
    } else if which == 6 {
        "created_by = "@
    } else {
        "event_date BETWEEN "@ + " AND "@ + " "@
    }
}

/// The shapes of the conditions that `picks` selects, in order.
pub open spec fn picked_shapes(picks: Seq<usize>) -> Seq<Seq<char>> {
    Seq::new(picks.len(), |i: int| condition_shape(picks[i] as int))
}

/// What cutting the literals out leaves of the clause that `picks` selects,
/// whatever values fill it.
pub open spec fn clause_shape(picks: Seq<usize>) -> Seq<char> {
    "WHERE "@ + join(picked_shapes(picks), " AND "@)
}

/// `body` between two single quotes.
pub open spec fn quoted(body: Seq<char>) -> Seq<char> {
    seq!['\''] + body + seq!['\'']
}

/// True when `text` has the shape `shape`, leaves no quote open, is not
/// empty and can follow a literal.
pub open spec fn is_settled(text: Seq<char>, shape: Seq<char>) -> bool {
    &&& stripped(text) == shape
    &&& quotes_closed_from(text, 0)
    &&& text.len() > 0
    &&& can_follow_literal(text)
}

/// True when `lead` can lead up to a literal: it holds no digit and no
/// quote, begins with something other than a point, and ends in a space.
pub open spec fn is_lead(lead: Seq<char>) -> bool {
    &&& is_literal_free(lead)
    &&& lead.len() > 0
    &&& lead[0] != '.'
    &&& lead.last() == ' '
}

/// A lead followed by a whole literal is settled, with the lead as its
/// shape.
pub proof fn lemma_lead_and_literal(lead: Seq<char>, x: Seq<char>)
    requires
        is_lead(lead),
        is_whole_literal(x),
    ensures
        is_settled(lead + x, lead),
{
    let nothing = Seq::<char>::empty();
    lemma_literal_in_place(lead, x, nothing);
    assert(lead + x + nothing =~= lead + x);
    assert(lead + stripped(nothing) =~= lead);
    assert((lead + x)[0] == lead[0]);
}

/// A lead, a whole literal and a settled text in a row are settled, with
/// the lead and the shape of the text as their shape.
pub proof fn lemma_lead_literal_and_rest(
    lead: Seq<char>,
    x: Seq<char>,
    rest: Seq<char>,
    rest_shape: Seq<char>,
)
    requires
        is_lead(lead),
        is_whole_literal(x),
        is_settled(rest, rest_shape),
    ensures
        is_settled(lead + x + rest, lead + rest_shape),
{
    lemma_literal_in_place(lead, x, rest);
    assert((lead + x + rest)[0] == lead[0]);
}

/// The leads of the conditions and of the statements are leads.
pub proof fn lemma_leads()
    ensures
        is_lead("age > "@),
        is_lead("salary < "@),
        is_lead("department = "@),
        is_lead("commission = "@),
        is_lead("name LIKE "@),
        is_lead("last_update_by = "@),
        is_lead("created_by = "@),
        is_lead("event_date BETWEEN "@),
        is_lead(" AND "@),
        is_lead(" "@),
        is_lead("WHERE "@),
        " "@.len() == 1,
{
    reveal_strlit("age > ");
    reveal_strlit("salary < ");
    reveal_strlit("department = ");
    reveal_strlit("commission = ");
    reveal_strlit("name LIKE ");
    reveal_strlit("last_update_by = ");
    reveal_strlit("created_by = ");
    reveal_strlit("event_date BETWEEN ");
    reveal_strlit(" AND ");
    reveal_strlit(" ");
    reveal_strlit("WHERE ");
}

/// The leads that end in an opening quote are the leads without it,
/// followed by a quote.
pub proof fn lemma_quote_leads()
    ensures
        "department = '"@ == "department = "@ + seq!['\''],
        "name LIKE '"@ == "name LIKE "@ + seq!['\''],
        "last_update_by = '"@ == "last_update_by = "@ + seq!['\''],
        "created_by = '"@ == "created_by = "@ + seq!['\''],
        "event_date BETWEEN '"@ == "event_date BETWEEN "@ + seq!['\''],
        "' AND '"@ == seq!['\''] + " AND "@ + seq!['\''],
        "' "@ == seq!['\''] + " "@,
        "'"@ == seq!['\''],
        "%'"@ == seq!['%'] + seq!['\''],
        "."@ == seq!['.'],
{
    reveal_strlit("department = '");
    reveal_strlit("department = ");
    reveal_strlit("name LIKE '");
    reveal_strlit("name LIKE ");
    reveal_strlit("last_update_by = '");
    reveal_strlit("last_update_by = ");
    reveal_strlit("created_by = '");
    reveal_strlit("created_by = ");
    reveal_strlit("event_date BETWEEN '");
    reveal_strlit("event_date BETWEEN ");
    reveal_strlit("' AND '");
    reveal_strlit(" AND ");
    reveal_strlit("' ");
    reveal_strlit(" ");
    reveal_strlit("'");
    reveal_strlit("%'");
    reveal_strlit(".");
    assert("department = '"@ =~= "department = "@ + seq!['\'']);
    assert("name LIKE '"@ =~= "name LIKE "@ + seq!['\'']);
    assert("last_update_by = '"@ =~= "last_update_by = "@ + seq!['\'']);
    assert("created_by = '"@ =~= "created_by = "@ + seq!['\'']);
    assert("event_date BETWEEN '"@ =~= "event_date BETWEEN "@ + seq!['\'']);
    assert("' AND '"@ =~= seq!['\''] + " AND "@ + seq!['\'']);
    assert("' "@ =~= seq!['\''] + " "@);
    assert("'"@ =~= seq!['\'']);
    assert("%'"@ =~= seq!['%'] + seq!['\'']);
    assert("."@ =~= seq!['.']);
}

/// A comparison of a column with a number is settled, with its lead as its
/// shape.
pub proof fn lemma_number_condition_shape(values: ConditionValues, which: int)
    requires
        which == 0 || which == 1,
    ensures
        is_settled(values.condition_text(which), condition_shape(which)),
{
    assert(is_lead("age > "@) && is_lead("salary < "@)) by {
        lemma_leads();
    }
    if which == 0 {
        lemma_decimal_is_literal(values.age as nat);
        lemma_lead_and_literal("age > "@, decimal(values.age as nat));
    } else {
        lemma_decimal_is_literal(values.salary as nat);
        lemma_lead_and_literal("salary < "@, decimal(values.salary as nat));
    }
}

/// The comparison of the commission is settled, with its lead as its shape.
#[verifier::rlimit(30)]
pub proof fn lemma_commission_condition_shape(values: ConditionValues)
    ensures
        is_settled(values.condition_text(3), condition_shape(3)),
{
    assert(is_lead("commission = "@) && "."@ == seq!['.']) by {
        lemma_leads();
        lemma_quote_leads();
    }
    let whole = decimal((values.commission_cents / 100) as nat);
    let cents = two_digits((values.commission_cents % 100) as nat);
    lemma_decimal_digits((values.commission_cents / 100) as nat);
    lemma_fraction_is_literal(whole, cents);
    assert(values.condition_text(3) =~= "commission = "@ + (whole + seq!['.'] + cents));
    lemma_lead_and_literal("commission = "@, whole + seq!['.'] + cents);
}

/// A comparison of a column with a quoted name is settled, with its lead as
/// its shape.
#[verifier::rlimit(30)]
pub proof fn lemma_name_condition_shape(values: ConditionValues, which: int)
    requires
        which == 2 || which == 5 || which == 6,
    ensures
        is_settled(values.condition_text(which), condition_shape(which)),
{
    assert(is_lead("department = "@) && is_lead("last_update_by = "@) && is_lead("created_by = "@)
        && "department = '"@ == "department = "@ + seq!['\''] && "last_update_by = '"@
        == "last_update_by = "@ + seq!['\''] && "created_by = '"@ == "created_by = "@ + seq![
        '\'',
    ] && "'"@ == seq!['\'']) by {
        lemma_leads();
        lemma_quote_leads();
    }
    let text = values.condition_text(which);
    if which == 2 {
        let name = department_name_text(values.department as int);
        lemma_department_name_plain(values.department as int);
        lemma_quoted_is_literal(name);
        assert(text =~= "department = "@ + quoted(name));
        lemma_lead_and_literal("department = "@, quoted(name));
    } else if which == 5 {
        let name = person_name_text(values.updated_by as int);
        lemma_person_name_plain(values.updated_by as int);
        lemma_quoted_is_literal(name);
        assert(text =~= "last_update_by = "@ + quoted(name));
        lemma_lead_and_literal("last_update_by = "@, quoted(name));
    } else {
        let name = person_name_text(values.created_by as int);
        lemma_person_name_plain(values.created_by as int);
        lemma_quoted_is_literal(name);
        assert(text =~= "created_by = "@ + quoted(name));
        lemma_lead_and_literal("created_by = "@, quoted(name));
    }
}

/// The pattern match is settled, with its lead as its shape.
#[verifier::rlimit(30)]
pub proof fn lemma_pattern_condition_shape(values: ConditionValues)
    ensures
        is_settled(values.condition_text(4), condition_shape(4)),
{
    assert(is_lead("name LIKE "@) && "name LIKE '"@ == "name LIKE "@ + seq!['\''] && "%'"@
        == seq!['%'] + seq!['\'']) by {
        lemma_leads();
        lemma_quote_leads();
    }
    let body = name_initial_text(values.initial as int) + seq!['%'];
    lemma_name_initial_plain(values.initial as int);
    lemma_quoted_is_literal(body);
    assert(values.condition_text(4) =~= "name LIKE "@ + quoted(body));
    lemma_lead_and_literal("name LIKE "@, quoted(body));
}

/// A text with two quoted parts, put together from leads that end and
/// begin with the quotes, is the same text put together from the leads
/// without the quotes and the parts between their quotes.
pub proof fn lemma_two_quoted_parts(
    lead: Seq<char>,
    from: Seq<char>,
    mid: Seq<char>,
    to: Seq<char>,
    tail: Seq<char>,
)
    ensures
        (lead + seq!['\'']) + from + (seq!['\''] + mid + seq!['\'']) + to + (seq!['\''] + tail)
            == lead + quoted(from) + (mid + quoted(to) + tail),
{
    let quote = seq!['\''];
    assert((lead + quote) + from + (quote + mid + quote) + to + (quote + tail) =~= lead + quoted(
        from,
    ) + (mid + quoted(to) + tail));
}

/// A lead, a quoted part, a second lead, a second quoted part and a blank
/// are settled, and their shape is the two leads and the blank.
pub proof fn lemma_two_quoted_shape(
    lead: Seq<char>,
    from: Seq<char>,
    mid: Seq<char>,
    to: Seq<char>,
    blank: Seq<char>,
)
    requires
        is_lead(lead),
        is_lead(mid),
        is_lead(blank),
        lacks(from, '\''),
        lacks(to, '\''),
    ensures
        is_settled(lead + quoted(from) + (mid + quoted(to) + blank), lead + (mid + blank)),
{
    lemma_quoted_is_literal(from);
    lemma_quoted_is_literal(to);
    lemma_literal_free_shape(blank, 0);
    assert(blank.subrange(0, blank.len() as int) =~= blank);
    assert(is_settled(blank, blank));
    lemma_lead_literal_and_rest(mid, quoted(to), blank, blank);
    lemma_lead_literal_and_rest(lead, quoted(from), mid + quoted(to) + blank, mid + blank);
}

/// The date range between two written calendar times is settled, and its
/// shape is its lead, the `AND` and the space at its end.
#[verifier::rlimit(30)]
pub proof fn lemma_range_condition_shape(values: ConditionValues, which: int)
    requires
        is_timestamp_text(values.event_from@),
        is_timestamp_text(values.event_to@),
        which >= 7,
    ensures
        is_settled(values.condition_text(which), condition_shape(which)),
{
    let lead = "event_date BETWEEN "@;
    let mid = " AND "@;
    let blank = " "@;
    let quote = seq!['\''];
    let from = values.event_from@;
    let to = values.event_to@;
    assert(is_lead(lead) && is_lead(mid) && is_lead(blank)) by {
        lemma_leads();
    }
    assert("event_date BETWEEN '"@ == lead + quote && "' AND '"@ == quote + mid + quote && "' "@
        == quote + blank) by {
        lemma_quote_leads();
    }
    lemma_timestamp_text_plain(from);
    lemma_timestamp_text_plain(to);
    lemma_two_quoted_parts(lead, from, mid, to, blank);
    lemma_two_quoted_shape(lead, from, mid, to, blank);
    assert(lead + (mid + blank) =~= lead + mid + blank);
}

/// A condition filled with values in their ranges is settled, and its
/// shape is that of its template.
pub proof fn lemma_condition_shape(values: ConditionValues, which: int)
    requires
        values.sampled(),
        0 <= which,
    ensures
        is_settled(values.condition_text(which), condition_shape(which)),
{
    if which == 0 || which == 1 {
        lemma_number_condition_shape(values, which);
    } else if which == 2 || which == 5 || which == 6 {
        lemma_name_condition_shape(values, which);
    } else if which == 3 {
        lemma_commission_condition_shape(values);
    } else if which == 4 {
        lemma_pattern_condition_shape(values);
    } else {
        lemma_range_condition_shape(values, which);
    }
}

/// Settled parts joined with a lead between them are settled, and their
/// shape is their shapes joined in the same way.
pub proof fn lemma_joined_shape(parts: Seq<Seq<char>>, shapes: Seq<Seq<char>>, between: Seq<char>)
    requires
        parts.len() == shapes.len(),
        parts.len() >= 1,
        forall|i: int| 0 <= i < parts.len() ==> is_settled(#[trigger] parts[i], shapes[i]),
        is_lead(between),
        between[0] == ' ',
    ensures
        is_settled(join(parts, between), join(shapes, between)),
    decreases parts.len(),
{
    if parts.len() == 1 {
        assert(is_settled(parts[0], shapes[0]));
    } else {
        let front = parts.drop_last();
        let front_shapes = shapes.drop_last();
        assert forall|i: int| 0 <= i < front.len() implies is_settled(
            #[trigger] front[i],
            front_shapes[i],
        ) by {
            assert(is_settled(parts[i], shapes[i]));
        }
        lemma_joined_shape(front, front_shapes, between);
        let joined = join(front, between);
        let last = parts.last();
        assert(is_settled(last, shapes.last())) by {
            assert(is_settled(parts[parts.len() - 1], shapes[parts.len() - 1]));
        }
        let tail = between + last;
        lemma_literal_free_shape(between, 0);
        assert(between.subrange(0, between.len() as int) =~= between);
        lemma_shape_concat(between, last);
        assert(tail[0] == ' ');
        lemma_shape_concat(joined, tail);
        assert(join(parts, between) =~= joined + tail);
        assert(join(shapes, between) =~= join(front_shapes, between) + (between + shapes.last()));
        assert((joined + tail)[0] == joined[0]);
    }
}

/// A clause filled with values in their ranges has the shape of its
/// templates, and leaves no quote open.
pub proof fn lemma_clause_shape(values: ConditionValues, picks: Seq<usize>)
    requires
        values.sampled(),
        picks.len() >= 1,
    ensures
        is_settled(values.where_clause_text(picks), clause_shape(picks)),
{
    let parts = values.picked_texts(picks);
    let shapes = picked_shapes(picks);
    assert forall|i: int| 0 <= i < parts.len() implies is_settled(
        #[trigger] parts[i],
        shapes[i],
    ) by {
        lemma_condition_shape(values, picks[i] as int);
    }
    lemma_leads();
    reveal_strlit(" AND ");
    lemma_joined_shape(parts, shapes, " AND "@);
    let joined = join(parts, " AND "@);
    let lead = "WHERE "@;
    lemma_literal_free_shape(lead, 0);
    assert(lead.subrange(0, lead.len() as int) =~= lead);
    lemma_shape_concat(lead, joined);
    assert((lead + joined)[0] == lead[0]);
}

/// Two clauses made of the same templates have the same shape, whatever
/// values fill them.
pub proof fn lemma_clause_shape_ignores_values(
    values: ConditionValues,
    others: ConditionValues,
    picks: Seq<usize>,
)
    requires
        values.sampled(),
        others.sampled(),
        picks.len() >= 1,
    ensures
        stripped(values.where_clause_text(picks)) == stripped(others.where_clause_text(picks)),
{
    lemma_clause_shape(values, picks);
    lemma_clause_shape(others, picks);
}

/// Table names hold no digit and no quote.
pub proof fn lemma_table_name_literal_free(i: int)
    ensures
        is_literal_free(table_name_text(i)),
{
    reveal_strlit("users");
    reveal_strlit("orders");
    reveal_strlit("products");
    reveal_strlit("departments");
    reveal_strlit("employees");
    reveal_strlit("salaries");
    reveal_strlit("projects");
    reveal_strlit("tasks");
    reveal_strlit("events");
    reveal_strlit("logs");
}

/// Column names hold no digit and no quote.
pub proof fn lemma_column_name_literal_free(i: int)
    ensures
        is_literal_free(column_name_text(i)),
{
    reveal_strlit("id");
    reveal_strlit("produc_name");
    reveal_strlit("age");
    reveal_strlit("salary");
    reveal_strlit("commission");
    reveal_strlit("product");
    reveal_strlit("price");
    reveal_strlit("event_date");
    reveal_strlit("department");
    reveal_strlit("comm");
    reveal_strlit("creation_dae");
    reveal_strlit("created_by");
    reveal_strlit("updated_date");
    reveal_strlit("updated_by");
}

/// Two texts without a digit or a quote, one after the other, hold none.
pub proof fn lemma_literal_free_concat(a: Seq<char>, b: Seq<char>)
    requires
        is_literal_free(a),
        is_literal_free(b),
    ensures
        is_literal_free(a + b),
{
    assert forall|i: int| 0 <= i < (a + b).len() implies !is_digit(#[trigger] (a + b)[i]) && (a
        + b)[i] != '\'' by {
        if i < a.len() {
            assert((a + b)[i] == a[i]);
        } else {
            assert((a + b)[i] == b[i - a.len()]);
        }
    }
}

/// Parts without a digit or a quote, joined with a separator without one,
/// hold none.
pub proof fn lemma_literal_free_join(parts: Seq<Seq<char>>, sep: Seq<char>)
    requires
        forall|i: int| 0 <= i < parts.len() ==> is_literal_free(#[trigger] parts[i]),
        is_literal_free(sep),
    ensures
        is_literal_free(join(parts, sep)),
    decreases parts.len(),
{
    if parts.len() >= 2 {
        let front = parts.drop_last();
        assert forall|i: int| 0 <= i < front.len() implies is_literal_free(#[trigger] front[i]) by {
            assert(front[i] == parts[i]);
        }
        lemma_literal_free_join(front, sep);
        lemma_literal_free_concat(join(front, sep), sep);
        lemma_literal_free_concat(join(front, sep) + sep, parts.last());
    }
}

/// A column list holds no digit and no quote.
pub proof fn lemma_select_list_literal_free(picks: Seq<usize>)
    ensures
        is_literal_free(select_list_text(picks)),
{
    let parts = picked_columns(picks);
    assert forall|i: int| 0 <= i < parts.len() implies is_literal_free(#[trigger] parts[i]) by {
        lemma_column_name_literal_free(picks[i] as int);
    }
    reveal_strlit(", ");
    lemma_literal_free_join(parts, ", "@);
}

/// What cutting the literals out leaves of a `SELECT` whose column list and
/// table name hold no digit and no quote: the statement with the shape of
/// the clause in place of the clause.
pub proof fn lemma_select_shape(
    cols: Seq<char>,
    table: Seq<char>,
    values: ConditionValues,
    picks: Seq<usize>,
)
    requires
        is_literal_free(cols),
        is_literal_free(table),
        values.sampled(),
        picks.len() >= 1,
    ensures
        stripped(select_text(cols, table, values.where_clause_text(picks))) == select_text(
            cols,
            table,
            clause_shape(picks),
        ),
{
    let clause = values.where_clause_text(picks);
    let head = "SELECT "@ + cols + " FROM "@ + table + " "@;
    assert(is_literal_free(head) && head.last() == ' ') by {
        reveal_strlit("SELECT ");
        reveal_strlit(" FROM ");
        reveal_strlit(" ");
        lemma_literal_free_concat("SELECT "@, cols);
        lemma_literal_free_concat("SELECT "@ + cols, " FROM "@);
        lemma_literal_free_concat("SELECT "@ + cols + " FROM "@, table);
        lemma_literal_free_concat("SELECT "@ + cols + " FROM "@ + table, " "@);
    }
    lemma_clause_shape(values, picks);
    lemma_literal_free_shape(head, 0);
    assert(head.subrange(0, head.len() as int) =~= head);
    lemma_shape_concat(head, clause);
}

/// What cutting the literals out leaves of a `DELETE` on a table whose name
/// holds no digit and no quote: the statement with the shape of the clause
/// in place of the clause.
pub proof fn lemma_delete_shape(table: Seq<char>, values: ConditionValues, picks: Seq<usize>)
    requires
        is_literal_free(table),
        values.sampled(),
        picks.len() >= 1,
    ensures
        stripped(delete_text(table, values.where_clause_text(picks))) == delete_text(
            table,
            clause_shape(picks),
        ),
{
    let clause = values.where_clause_text(picks);
    let head = "DELETE FROM "@ + table + " "@;
    assert(is_literal_free(head) && head.last() == ' ') by {
        reveal_strlit("DELETE FROM ");
        reveal_strlit(" ");
        lemma_literal_free_concat("DELETE FROM "@, table);
        lemma_literal_free_concat("DELETE FROM "@ + table, " "@);
    }
    lemma_clause_shape(values, picks);
    lemma_literal_free_shape(head, 0);
    assert(head.subrange(0, head.len() as int) =~= head);
    lemma_shape_concat(head, clause);
}

/// What cutting the literals out leaves of an `UPDATE` on a table whose
/// name holds no digit and no quote: the statement without the salary and
/// with the shape of the clause in place of the clause.
#[verifier::rlimit(30)]
pub proof fn lemma_update_shape(
    table: Seq<char>,
    salary: nat,
    values: ConditionValues,
    picks: Seq<usize>,
)
    requires
        is_literal_free(table),
        values.sampled(),
        picks.len() >= 1,
    ensures
        stripped(update_text(table, salary, values.where_clause_text(picks))) == "UPDATE "@ + table
            + " SET salary = "@ + " "@ + clause_shape(picks),
{
    let clause = values.where_clause_text(picks);
    let head = "UPDATE "@ + table + " SET salary = "@;
    assert(is_literal_free(head) && head.last() == ' ') by {
        reveal_strlit("UPDATE ");
        reveal_strlit(" SET salary = ");
        lemma_literal_free_concat("UPDATE "@, table);
        lemma_literal_free_concat("UPDATE "@ + table, " SET salary = "@);
    }
    lemma_leads();
    lemma_clause_shape(values, picks);
    let blank = " "@;
    let tail = blank + clause;
    assert(blank[0] == ' ');
    lemma_literal_free_shape(blank, 0);
    assert(blank.subrange(0, blank.len() as int) =~= blank);
    lemma_shape_concat(blank, clause);
    assert(tail[0] == ' ');
    lemma_decimal_is_literal(salary);
    lemma_literal_in_place(head, decimal(salary), tail);
    assert(update_text(table, salary, clause) =~= head + decimal(salary) + tail);
    assert(head + (blank + clause_shape(picks)) =~= head + blank + clause_shape(picks));
}

/// What cutting the literals out leaves of an `INSERT` into a table whose
/// name holds no digit and no quote: the statement without its four values.
#[verifier::rlimit(30)]
pub proof fn lemma_insert_shape(table: Seq<char>, id: nat, person: int, age: nat, salary: nat)
    requires
        is_literal_free(table),
    ensures
        stripped(insert_text(table, id, person, age, salary)) == "INSERT INTO "@ + table
            + " (id, name, age, salary) VALUES ("@ + ", "@ + ", "@ + ", "@ + ")"@,
{
    let head = "INSERT INTO "@ + table + " (id, name, age, salary) VALUES ("@;
    let comma = ", "@;
    let close = ")"@;
    let quote = seq!['\''];
    assert(is_literal_free(head) && head.last() == '(' && is_literal_free(comma) && comma.len()
        == 2 && comma[0] == ',' && comma[1] == ' ' && is_literal_free(close) && close.len() == 1
        && close[0] == ')' && ", '"@ == comma + quote && "', "@ == quote + comma) by {
        reveal_strlit("INSERT INTO ");
        reveal_strlit(" (id, name, age, salary) VALUES (");
        reveal_strlit(", ");
        reveal_strlit(")");
        reveal_strlit(", '");
        reveal_strlit("', ");
        lemma_literal_free_concat("INSERT INTO "@, table);
        lemma_literal_free_concat("INSERT INTO "@ + table, " (id, name, age, salary) VALUES ("@);
        assert(", '"@ =~= comma + quote);
        assert("', "@ =~= quote + comma);
    }
    let name = person_name_text(person);
    lemma_person_name_plain(person);
    lemma_quoted_is_literal(name);
    lemma_decimal_is_literal(id);
    lemma_decimal_is_literal(age);
    lemma_decimal_is_literal(salary);
    lemma_literal_free_shape(close, 0);
    assert(close.subrange(0, close.len() as int) =~= close);
    let fourth = comma + decimal(salary) + close;
    lemma_literal_in_place(comma, decimal(salary), close);
    assert(fourth[0] == ',');
    let third = comma + decimal(age) + fourth;
    lemma_literal_in_place(comma, decimal(age), fourth);
    assert(third[0] == ',');
    let second = comma + quoted(name) + third;
    lemma_literal_in_place(comma, quoted(name), third);
    assert(second[0] == ',');
    lemma_literal_in_place(head, decimal(id), second);
    assert(insert_text(table, id, person, age, salary) =~= head + decimal(id) + second);
    assert(head + (comma + (comma + (comma + close))) =~= head + comma + comma + comma + close);
}

/// The hash of a generated `SELECT` tells its column list, its table and
/// the templates of its clause, and nothing of the values drawn for the
/// clause.
pub proof fn lemma_select_hash_ignores_values(
    cols: Seq<char>,
    table: Seq<char>,
    values: ConditionValues,
    others: ConditionValues,
    picks: Seq<usize>,
)
    requires
        is_literal_free(cols),
        is_literal_free(table),
        values.sampled(),
        others.sampled(),
        picks.len() >= 1,
    ensures
        statement_hash_text(select_text(cols, table, values.where_clause_text(picks)))
            == statement_hash_text(select_text(cols, table, others.where_clause_text(picks))),
{
    lemma_select_shape(cols, table, values, picks);
    lemma_select_shape(cols, table, others, picks);
}

/// The hash of a generated `DELETE` tells its table and the templates of
/// its clause, and nothing of the values drawn for the clause.
pub proof fn lemma_delete_hash_ignores_values(
    table: Seq<char>,
    values: ConditionValues,
    others: ConditionValues,
    picks: Seq<usize>,
)
    requires
        is_literal_free(table),
        values.sampled(),
        others.sampled(),
        picks.len() >= 1,
    ensures
        statement_hash_text(delete_text(table, values.where_clause_text(picks)))
            == statement_hash_text(delete_text(table, others.where_clause_text(picks))),
{
    lemma_delete_shape(table, values, picks);
    lemma_delete_shape(table, others, picks);
}

/// The hash of a generated `UPDATE` tells its table and the templates of
/// its clause, and nothing of the salary or of the values drawn for the
/// clause.
pub proof fn lemma_update_hash_ignores_values(
    table: Seq<char>,
    salary: nat,
    other_salary: nat,
    values: ConditionValues,
    others: ConditionValues,
    picks: Seq<usize>,
)
    requires
        is_literal_free(table),
        values.sampled(),
        others.sampled(),
        picks.len() >= 1,
    ensures
        statement_hash_text(update_text(table, salary, values.where_clause_text(picks)))
            == statement_hash_text(
            update_text(table, other_salary, others.where_clause_text(picks)),
        ),
{
    lemma_update_shape(table, salary, values, picks);
    lemma_update_shape(table, other_salary, others, picks);
}

/// The hash of a generated `INSERT` tells its table and nothing of the
/// values of the row.
pub proof fn lemma_insert_hash_ignores_values(
    table: Seq<char>,
    id: nat,
    person: int,
    age: nat,
    salary: nat,
    other_id: nat,
    other_person: int,
    other_age: nat,
    other_salary: nat,
)
    requires
        is_literal_free(table),
    ensures
        statement_hash_text(insert_text(table, id, person, age, salary)) == statement_hash_text(
            insert_text(table, other_id, other_person, other_age, other_salary),
        ),
{
    lemma_insert_shape(table, id, person, age, salary);
    lemma_insert_shape(table, other_id, other_person, other_age, other_salary);
}

} // verus!
