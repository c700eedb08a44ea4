//! `WHERE` clauses: a set of condition templates, each filled with values
//! drawn for the clause, of which some are picked, with repeats, and joined
//! with `AND`.

use crate::clock::{
    days_before, is_timestamp_of, is_timestamp_text, lemma_timestamp_of_is_text,
    lemma_timestamp_text_plain, timestamp_text, usable_now, CALENDAR_END, CALENDAR_START,
    MAX_DAYS_BACK, SECONDS_PER_DAY,
};
use crate::random::RandomSource;
use crate::text::{
    decimal, is_plain, join, join_strings, lemma_concat_plain, lemma_decimal_plain,
    lemma_join_plain, lemma_two_digits_plain, push_decimal, push_two_digits, two_digits,
};
use crate::vocabulary::{
    department_name, department_name_text, lemma_department_name_plain, lemma_name_initial_plain,
    lemma_person_name_plain, name_initial, name_initial_text, person_name, person_name_text,
    DEPARTMENT_COUNT, INITIAL_COUNT, PERSON_COUNT,
};
use vstd::prelude::*;
use vstd::string::*;

verus! {

/// How many condition templates there are.
pub const CONDITION_COUNT: usize = 8;

/// The fewest conditions in a clause.
pub const MIN_CONDITIONS: usize = 4;

/// The most conditions in a clause.
pub const MAX_CONDITIONS: usize = 8;

/// The instant at which a date range starts that ends at `now` and spans
/// `days` days.
pub open spec fn range_start(now: int, days: int) -> int {
    now - days * SECONDS_PER_DAY
}

/// The values that fill the condition templates of one clause.
#[derive(Debug)]
pub struct ConditionValues {
    /// Bound of the age comparison.
    pub age: u64,
    /// Bound of the salary comparison.
    pub salary: u64,
    /// Which department the equality names.
    pub department: usize,
    /// The commission, in hundredths.
    pub commission_cents: u64,
    /// Which initial the `LIKE` pattern starts with.
    pub initial: usize,
    /// Which person made the last update.
    pub updated_by: usize,
    /// Which person created the row.
    pub created_by: usize,
    /// Start of the date range, written as `YYYY-MM-DD HH:MM:SS`.
    pub event_from: String,
    /// End of the date range, written as `YYYY-MM-DD HH:MM:SS`.
    pub event_to: String,
}

impl ConditionValues {
    /// Every index names an entry of its list.
    pub open spec fn wf(self) -> bool {
        &&& self.department < DEPARTMENT_COUNT
        &&& self.initial < INITIAL_COUNT
        &&& self.updated_by < PERSON_COUNT
        &&& self.created_by < PERSON_COUNT
    }

    /// The values lie in the ranges they are drawn from: age 20 to 49,
    /// salary 3000 to 9999, commission 100.00 to 999.99, and both ends of the
    /// date range are written calendar times.
    pub open spec fn sampled(self) -> bool {
        &&& self.wf()
        &&& 20 <= self.age < 50
        &&& 3000 <= self.salary < 10_000
        &&& 10_000 <= self.commission_cents < 100_000
        &&& is_timestamp_text(self.event_from@)
        &&& is_timestamp_text(self.event_to@)
    }

    /// The values are as they are drawn at the instant `now`: they lie in
    /// their ranges, the date range ends with the time that the clock shows
    /// at `now`, and it starts with the time that the clock shows a whole
    /// number of days earlier, from none to `MAX_DAYS_BACK - 1`.
    pub open spec fn sampled_at(self, now: int) -> bool {
        &&& self.sampled()
        &&& is_timestamp_of(self.event_to@, now)
        &&& exists|days: int|
            0 <= days < MAX_DAYS_BACK && is_timestamp_of(
                self.event_from@,
                #[trigger] range_start(now, days),
            )
    }

    /// Condition `which`, filled with these values. Any index past the last
    /// template gives the last.
    pub open spec fn condition_text(self, which: int) -> Seq<char> {
        if which == 0 {
            "age > "@ + decimal(self.age as nat)
        } else if which == 1 {
            "salary < "@ + decimal(self.salary as nat)
        } else if which == 2 {
            "department = '"@ + department_name_text(self.department as int) + "'"@
        } else if which == 3 {
            "commission = "@ + decimal((self.commission_cents / 100) as nat) + "."@ + two_digits(
                (self.commission_cents % 100) as nat,
            )
        } else if which == 4 {
            "name LIKE '"@ + name_initial_text(self.initial as int) + "%'"@
        } else if which == 5 {
            "last_update_by = '"@ + person_name_text(self.updated_by as int) + "'"@
        } else if which == 6 {
            "created_by = '"@ + person_name_text(self.created_by as int) + "'"@
        } else {
            "event_date BETWEEN '"@ + self.event_from@ + "' AND '"@ + self.event_to@ + "' "@
        }
    }

    /// The conditions that `picks` selects, in order.
    pub open spec fn picked_texts(self, picks: Seq<usize>) -> Seq<Seq<char>> {
        Seq::new(picks.len(), |i: int| self.condition_text(picks[i] as int))
    }

    /// The clause: `WHERE`, then the picked conditions joined with `AND`.
    pub open spec fn where_clause_text(self, picks: Seq<usize>) -> Seq<char> {
        "WHERE "@ + join(self.picked_texts(picks), " AND "@)
    }

    /// Condition `which`, filled with these values.
    pub fn condition(&self, which: usize) -> (r: String)
        requires
            self.wf(),
            which < CONDITION_COUNT,
        ensures
            r@ == self.condition_text(which as int),
    {
        let mut out = String::new();
        if which == 0 {
            out.append("age > ");
            push_decimal(&mut out, self.age);
        } else if which == 1 {
            out.append("salary < ");
            push_decimal(&mut out, self.salary);
        } else if which == 2 {
            out.append("department = '");
            out.append(department_name(self.department));
            out.append("'");
        } else if which == 3 {
            out.append("commission = ");
            push_decimal(&mut out, self.commission_cents / 100);
            out.append(".");
            push_two_digits(&mut out, self.commission_cents % 100);
        } else if which == 4 {
            out.append("name LIKE '");
            out.append(name_initial(self.initial));
            out.append("%'");
        } else if which == 5 {
            out.append("last_update_by = '");
            out.append(person_name(self.updated_by));
            out.append("'");
        } else if which == 6 {
            out.append("created_by = '");
            out.append(person_name(self.created_by));
            out.append("'");
        } else {
            out.append("event_date BETWEEN '");
            out.append(self.event_from.as_str());
            out.append("' AND '");
            out.append(self.event_to.as_str());
            out.append("' ");
        }
        assert(out@ =~= self.condition_text(which as int));
        out
    }

    /// The clause that `picks` selects from the templates filled with these
    /// values.
    pub fn where_clause(&self, picks: &Vec<usize>) -> (r: String)
        requires
            self.wf(),
            forall|i: int| 0 <= i < picks.len() ==> picks[i] < CONDITION_COUNT,
        ensures
            r@ == self.where_clause_text(picks@),
    {
        let mut selected: Vec<String> = Vec::new();
        let mut i: usize = 0;
        while i < picks.len()
            invariant
                i <= picks.len(),
                self.wf(),
                forall|j: int| 0 <= j < picks.len() ==> picks[j] < CONDITION_COUNT,
                selected.len() == i,
                forall|j: int| 0 <= j < i ==> selected[j]@ == self.condition_text(picks[j] as int),
            decreases picks.len() - i,
        {
            selected.push(self.condition(picks[i]));
            i += 1;
        }
        let joined = join_strings(&selected, " AND ");
        assert(selected@.map_values(|p: String| p@) =~= self.picked_texts(picks@));
        let mut out = String::new();
        out.append("WHERE ");
        out.append(joined.as_str());
        assert(out@ =~= self.where_clause_text(picks@));
        out
    }
}

/// True when `picks` can be drawn for a clause: between `MIN_CONDITIONS` and
/// `MAX_CONDITIONS` picks, each of them a template.
pub open spec fn picks_sampled(picks: Seq<usize>) -> bool {
    &&& MIN_CONDITIONS <= picks.len() <= MAX_CONDITIONS
    &&& forall|i: int| 0 <= i < picks.len() ==> picks[i] < CONDITION_COUNT
}

/// True when `clause` is a clause that can be generated at the instant
/// `now`: some values as they are drawn at `now` and some picks spell it.
pub open spec fn is_where_clause(clause: Seq<char>, now: int) -> bool {
    exists|values: ConditionValues, picks: Seq<usize>|
        values.sampled_at(now) && picks_sampled(picks) && clause
            == #[trigger] values.where_clause_text(picks)
}

/// A condition filled with values in their ranges is plain.
pub proof fn lemma_condition_plain(values: ConditionValues, which: int)
    requires
        values.sampled(),
    ensures
        is_plain(values.condition_text(which)),
{
    lemma_decimal_plain(values.age as nat);
    lemma_decimal_plain(values.salary as nat);
    lemma_decimal_plain((values.commission_cents / 100) as nat);
    lemma_two_digits_plain((values.commission_cents % 100) as nat);
    lemma_department_name_plain(values.department as int);
    lemma_name_initial_plain(values.initial as int);
    lemma_person_name_plain(values.updated_by as int);
    lemma_person_name_plain(values.created_by as int);
    lemma_timestamp_text_plain(values.event_from@);
    lemma_timestamp_text_plain(values.event_to@);
    if which == 0 {
        assert(is_plain("age > "@)) by {
            reveal(is_plain);
            reveal_strlit("age > ");
        }
        lemma_concat_plain("age > "@, decimal(values.age as nat));
    } else if which == 1 {
        assert(is_plain("salary < "@)) by {
            reveal(is_plain);
            reveal_strlit("salary < ");
        }
        lemma_concat_plain("salary < "@, decimal(values.salary as nat));
    } else if which == 2 {
        assert(is_plain("department = '"@)) by {
            reveal(is_plain);
            reveal_strlit("department = '");
        }
        assert(is_plain("'"@)) by {
            reveal(is_plain);
            reveal_strlit("'");
        }
        let name = department_name_text(values.department as int);
        lemma_concat_plain("department = '"@, name);
        lemma_concat_plain("department = '"@ + name, "'"@);
    } else if which == 3 {
        assert(is_plain("commission = "@)) by {
            reveal(is_plain);
            reveal_strlit("commission = ");
        }
        assert(is_plain("."@)) by {
            reveal(is_plain);
            reveal_strlit(".");
        }
        let whole = decimal((values.commission_cents / 100) as nat);
        let cents = two_digits((values.commission_cents % 100) as nat);
        lemma_concat_plain("commission = "@, whole);
        lemma_concat_plain("commission = "@ + whole, "."@);
        lemma_concat_plain("commission = "@ + whole + "."@, cents);
    } else if which == 4 {
        assert(is_plain("name LIKE '"@)) by {
            reveal(is_plain);
            reveal_strlit("name LIKE '");
        }
        assert(is_plain("%'"@)) by {
            reveal(is_plain);
            reveal_strlit("%'");
        }
        let initial = name_initial_text(values.initial as int);
        lemma_concat_plain("name LIKE '"@, initial);
        lemma_concat_plain("name LIKE '"@ + initial, "%'"@);
    } else if which == 5 {
        assert(is_plain("last_update_by = '"@)) by {
            reveal(is_plain);
            reveal_strlit("last_update_by = '");
        }
        assert(is_plain("'"@)) by {
            reveal(is_plain);
            reveal_strlit("'");
        }
        let name = person_name_text(values.updated_by as int);
        lemma_concat_plain("last_update_by = '"@, name);
        lemma_concat_plain("last_update_by = '"@ + name, "'"@);
    } else if which == 6 {
        assert(is_plain("created_by = '"@)) by {
            reveal(is_plain);
            reveal_strlit("created_by = '");
        }
        assert(is_plain("'"@)) by {
            reveal(is_plain);
            reveal_strlit("'");
        }
        let name = person_name_text(values.created_by as int);
        lemma_concat_plain("created_by = '"@, name);
        lemma_concat_plain("created_by = '"@ + name, "'"@);
    } else {
        assert(is_plain("event_date BETWEEN '"@)) by {
            reveal(is_plain);
            reveal_strlit("event_date BETWEEN '");
        }
        assert(is_plain("' AND '"@)) by {
            reveal(is_plain);
            reveal_strlit("' AND '");
        }
        assert(is_plain("' "@)) by {
            reveal(is_plain);
            reveal_strlit("' ");
        }
        let from = values.event_from@;
        let to = values.event_to@;
        lemma_concat_plain("event_date BETWEEN '"@, from);
        lemma_concat_plain("event_date BETWEEN '"@ + from, "' AND '"@);
        lemma_concat_plain("event_date BETWEEN '"@ + from + "' AND '"@, to);
        lemma_concat_plain("event_date BETWEEN '"@ + from + "' AND '"@ + to, "' "@);
    }
}

/// A clause of values in their ranges is plain.
pub proof fn lemma_clause_text_plain(values: ConditionValues, picks: Seq<usize>)
    requires
        values.sampled(),
    ensures
        is_plain(values.where_clause_text(picks)),
{
    let parts = values.picked_texts(picks);
    assert forall|i: int| 0 <= i < parts.len() implies is_plain(#[trigger] parts[i]) by {
        lemma_condition_plain(values, picks[i] as int);
    }
    assert(is_plain(" AND "@) && is_plain("WHERE "@)) by {
        reveal(is_plain);
        reveal_strlit(" AND ");
        reveal_strlit("WHERE ");
    }
    lemma_join_plain(parts, " AND "@);
    lemma_concat_plain("WHERE "@, join(parts, " AND "@));
}

/// A clause that can be generated is plain.
pub proof fn lemma_where_clause_plain(clause: Seq<char>, now: int)
    requires
        is_where_clause(clause, now),
    ensures
        is_plain(clause),
{
    let (values, picks) = choose|values: ConditionValues, picks: Seq<usize>|
        values.sampled_at(now) && picks_sampled(picks) && clause
            == #[trigger] values.where_clause_text(picks);
    lemma_clause_text_plain(values, picks);
}

/// True when the calendar is sure to hold both ends of the date range of a
/// clause around `now`: `now` itself and the instant `MAX_DAYS_BACK - 1`
/// days before it.
pub open spec fn clause_ready(now: i64) -> bool {
    CALENDAR_START + (MAX_DAYS_BACK - 1) * SECONDS_PER_DAY <= now <= CALENDAR_END
}

/// Draws the values of one clause. The date range ends at `now` and starts
/// up to six days earlier. `None` where the calendar cannot hold one of the
/// two instants, which is never so where `clause_ready` holds.
pub fn sample_condition_values(rng: &mut RandomSource, now: i64) -> (r: Option<ConditionValues>)
    requires
        usable_now(now),
    ensures
        r matches Some(values) ==> values.sampled_at(now as int),
        clause_ready(now) ==> r is Some,
{
    let age = rng.draw(20, 50);
    let salary = rng.draw(3000, 10_000);
    let department = rng.draw_index(DEPARTMENT_COUNT);
    let commission_cents = rng.draw(10_000, 100_000);
    let initial = rng.draw_index(INITIAL_COUNT);
    let updated_by = rng.draw_index(PERSON_COUNT);
    let created_by = rng.draw_index(PERSON_COUNT);
    let days_back = rng.draw(0, MAX_DAYS_BACK as u64) as i64;
    let event_from = match timestamp_text(days_before(now, days_back)) {
        Some(t) => t,
        None => {
            return None;
        },
    };
    let event_to = match timestamp_text(now) {
        Some(t) => t,
        None => {
            return None;
        },
    };
    proof {
        lemma_timestamp_of_is_text(event_from@, now - days_back * SECONDS_PER_DAY);
        lemma_timestamp_of_is_text(event_to@, now as int);
        assert(is_timestamp_of(event_from@, range_start(now as int, days_back as int)));
    }
    Some(
        ConditionValues {
            age,
            salary,
            department,
            commission_cents,
            initial,
            updated_by,
            created_by,
            event_from,
            event_to,
        },
    )
}

/// Draws which conditions a clause holds: between `MIN_CONDITIONS` and
/// `MAX_CONDITIONS` templates, each drawn from all of them, so that one may
/// come more than once.
pub fn sample_picks(rng: &mut RandomSource) -> (picks: Vec<usize>)
    ensures
        picks_sampled(picks@),
{
    let count = rng.draw(MIN_CONDITIONS as u64, MAX_CONDITIONS as u64 + 1) as usize;
    let mut picks: Vec<usize> = Vec::new();
    let mut i: usize = 0;
    while i < count
        invariant
            i <= count,
            picks.len() == i,
            forall|j: int| 0 <= j < i ==> picks[j] < CONDITION_COUNT,
        decreases count - i,
    {
        picks.push(rng.draw_index(CONDITION_COUNT));
        i += 1;
    }
    picks
}

/// A fresh `WHERE` clause around the instant `now`. `None` where the
/// calendar cannot hold an end of the date range, which is never so where
/// `clause_ready` holds.
pub fn generate_where_clause(rng: &mut RandomSource, now: i64) -> (r: Option<String>)
    requires
        usable_now(now),
    ensures
        r matches Some(clause) ==> is_where_clause(clause@, now as int),
        clause_ready(now) ==> r is Some,
{
    let values = match sample_condition_values(rng, now) {
        Some(v) => v,
        None => {
            return None;
        },
    };
    let picks = sample_picks(rng);
    let clause = values.where_clause(&picks);
    Some(clause)
}

} // verus!
