//! Laws of the shape of a statement: what cutting out the literals leaves
//! of a text that is put together from parts, and why the shape does not
//! change when one literal is put in place of another.

use crate::hashing::statement_hash_text;
use crate::literals::{
    digit_run, is_sign, lemma_digit_run_bound, lemma_literal_len_bound,
    lemma_unquoted_run_bound, literal_len, number_len, quoted_len, stripped, stripped_from,
    unquoted_run,
};
use crate::text::{decimal, is_digit, lacks, lemma_decimal_digits};
use vstd::prelude::*;

verus! {

/// True for the characters that a number is made of: digits, signs and the
/// point.
pub open spec fn is_number_char(c: char) -> bool {
    is_digit(c) || is_sign(c) || c == '.'
}

/// True when `x` is one literal from its first character to its last.
pub open spec fn is_whole_literal(x: Seq<char>) -> bool {
    x.len() > 0 && literal_len(x, 0) == x.len()
}

/// True when the search for literals, going through `s` from position `i`
/// on, meets no quote that is never closed.
pub open spec fn quotes_closed_from(s: Seq<char>, i: int) -> bool
    decreases s.len() - i,
{
    if i < 0 || i >= s.len() {
        true
    } else if literal_len(s, i) > 0 {
        proof {
            lemma_literal_len_bound(s, i);
        }
        quotes_closed_from(s, i + literal_len(s, i))
    } else {
        s[i] != '\'' && quotes_closed_from(s, i + 1)
    }
}

/// True when a literal can follow `s` without running into it: `s` leaves
/// no quote open and does not end in a digit, a sign or a point.
pub open spec fn can_precede_literal(s: Seq<char>) -> bool {
    quotes_closed_from(s, 0) && (s.len() == 0 || !is_number_char(s.last()))
}

/// True when `s` can follow a literal without running into it: `s` does not
/// begin with a digit or a point.
pub open spec fn can_follow_literal(s: Seq<char>) -> bool {
    s.len() == 0 || !(is_digit(s[0]) || s[0] == '.')
}

/// True when no literal can reach from `front` into `back` when the two
/// stand in a row: `front` does not end in a digit, a sign or a point, or
/// `back` does not begin with a digit or a point.
pub open spec fn meet_cleanly(front: Seq<char>, back: Seq<char>) -> bool {
    front.len() == 0 || !is_number_char(front.last()) || can_follow_literal(back)
}

/// True when `s` holds no digit and no quote, so that no literal starts in
/// it.
pub open spec fn is_literal_free(s: Seq<char>) -> bool {
    forall|i: int| 0 <= i < s.len() ==> !is_digit(#[trigger] s[i]) && s[i] != '\''
}

/// A run of digits in the back part of a text is the run in that part
/// alone.
pub proof fn lemma_digit_run_shift(front: Seq<char>, back: Seq<char>, i: int)
    requires
        0 <= i <= back.len(),
    ensures
        digit_run(front + back, front.len() + i) == digit_run(back, i),
    decreases back.len() - i,
{
    if i < back.len() {
        assert((front + back)[front.len() + i] == back[i]);
        lemma_digit_run_shift(front, back, i + 1);
    }
}

/// A run without a quote in the back part of a text is the run in that
/// part alone.
pub proof fn lemma_unquoted_run_shift(front: Seq<char>, back: Seq<char>, i: int)
    requires
        0 <= i <= back.len(),
    ensures
        unquoted_run(front + back, front.len() + i) == unquoted_run(back, i),
    decreases back.len() - i,
{
    if i < back.len() {
        assert((front + back)[front.len() + i] == back[i]);
        lemma_unquoted_run_shift(front, back, i + 1);
    }
}

/// A literal in the back part of a text is the literal in that part alone.
pub proof fn lemma_literal_len_shift(front: Seq<char>, back: Seq<char>, i: int)
    requires
        0 <= i <= back.len(),
    ensures
        literal_len(front + back, front.len() + i) == literal_len(back, i),
{
    let s = front + back;
    let p = front.len() as int;
    if i < back.len() {
        assert(s[p + i] == back[i]);
        let sign: int = if is_sign(back[i]) {
            1
        } else {
            0
        };
        lemma_digit_run_shift(front, back, i + sign);
        lemma_digit_run_bound(back, i + sign);
        let point = i + sign + digit_run(back, i + sign);
        if point < back.len() {
            assert(s[p + point] == back[point]);
            lemma_digit_run_shift(front, back, point + 1);
        }
        lemma_unquoted_run_shift(front, back, i + 1);
    }
}

/// What cutting leaves of the back part of a text is what it leaves of that
/// part alone.
pub proof fn lemma_stripped_shift(front: Seq<char>, back: Seq<char>, i: int)
    requires
        0 <= i <= back.len(),
    ensures
        stripped_from(front + back, front.len() + i) == stripped_from(back, i),
    decreases back.len() - i,
{
    if i < back.len() {
        lemma_literal_len_shift(front, back, i);
        lemma_literal_len_bound(back, i);
        let n = literal_len(back, i);
        if n > 0 {
            lemma_stripped_shift(front, back, i + n);
        } else {
            assert((front + back)[front.len() + i] == back[i]);
            lemma_stripped_shift(front, back, i + 1);
        }
    }
}

/// A run of digits in the front part of a text is the run in that part
/// alone, where the run ends before the part does or the back part does not
/// go on with a digit.
pub proof fn lemma_digit_run_extend(front: Seq<char>, back: Seq<char>, i: int)
    requires
        0 <= i <= front.len(),
        i + digit_run(front, i) < front.len() || back.len() == 0 || !is_digit(back[0]),
    ensures
        digit_run(front + back, i) == digit_run(front, i),
    decreases front.len() - i,
{
    if i < front.len() {
        assert((front + back)[i] == front[i]);
        if is_digit(front[i]) {
            lemma_digit_run_extend(front, back, i + 1);
        }
    } else if back.len() > 0 {
        assert((front + back)[i] == back[0]);
    }
}

/// A run without a quote in the front part of a text is the run in that
/// part alone, where a quote ends it before the part ends.
pub proof fn lemma_unquoted_run_extend(front: Seq<char>, back: Seq<char>, i: int)
    requires
        0 <= i <= front.len(),
        i + unquoted_run(front, i) < front.len(),
    ensures
        unquoted_run(front + back, i) == unquoted_run(front, i),
    decreases front.len() - i,
{
    if i < front.len() {
        assert((front + back)[i] == front[i]);
        if front[i] != '\'' {
            lemma_unquoted_run_extend(front, back, i + 1);
        }
    }
}

/// In a text that does not end in a digit, every run of digits ends before
/// the text does.
pub proof fn lemma_digit_run_stops(s: Seq<char>, i: int)
    requires
        0 <= i < s.len(),
        !is_digit(s.last()),
    ensures
        i + digit_run(s, i) < s.len(),
    decreases s.len() - i,
{
    if is_digit(s[i]) {
        lemma_digit_run_stops(s, i + 1);
    }
}

/// A position of the front part holds the same literal in the whole text as
/// in the front part alone, where the two parts meet cleanly and the
/// position holds no quote that the front part leaves open.
pub proof fn lemma_literal_len_extend(front: Seq<char>, back: Seq<char>, i: int)
    requires
        0 <= i < front.len(),
        meet_cleanly(front, back),
        front[i] == '\'' ==> literal_len(front, i) > 0,
    ensures
        literal_len(front + back, i) == literal_len(front, i),
{
    let s = front + back;
    assert(s[i] == front[i]);
    let sign: int = if is_sign(front[i]) {
        1
    } else {
        0
    };
    lemma_digit_run_bound(front, i + sign);
    if !is_number_char(front.last()) {
        assert(i + sign < front.len());
        lemma_digit_run_stops(front, i + sign);
    }
    lemma_digit_run_extend(front, back, i + sign);
    let point = i + sign + digit_run(front, i + sign);
    if point < front.len() {
        assert(s[point] == front[point]);
        if front[point] == '.' {
            lemma_digit_run_bound(front, point + 1);
            if !is_number_char(front.last()) {
                assert(point + 1 < front.len());
                lemma_digit_run_stops(front, point + 1);
            }
            lemma_digit_run_extend(front, back, point + 1);
        }
    } else if back.len() > 0 {
        assert(s[point] == back[0]);
    }
    if front[i] == '\'' {
        assert(number_len(front, i) == 0);
        assert(quoted_len(front, i) > 0);
        lemma_unquoted_run_extend(front, back, i + 1);
    }
}

/// Where the front part of a text leaves no quote open from position `i`
/// on and the two parts meet cleanly, what cutting leaves of the text from
/// `i` on is what it leaves of the front part, followed by what it leaves
/// of the back part.
pub proof fn lemma_stripped_front(front: Seq<char>, back: Seq<char>, i: int)
    requires
        0 <= i <= front.len(),
        quotes_closed_from(front, i),
        meet_cleanly(front, back),
    ensures
        stripped_from(front + back, i) == stripped_from(front, i) + stripped(back),
    decreases front.len() - i,
{
    let s = front + back;
    if i < front.len() {
        lemma_literal_len_extend(front, back, i);
        lemma_literal_len_bound(front, i);
        let n = literal_len(front, i);
        if n > 0 {
            lemma_stripped_front(front, back, i + n);
        } else {
            assert(s[i] == front[i]);
            lemma_stripped_front(front, back, i + 1);
            assert(stripped_from(s, i) =~= stripped_from(front, i) + stripped(back));
        }
    } else {
        lemma_stripped_shift(front, back, 0);
        assert(stripped_from(front, i) =~= Seq::<char>::empty());
        assert(stripped_from(s, i) =~= stripped_from(front, i) + stripped(back));
    }
}

/// Whether the back part of a text leaves a quote open is the same in the
/// whole text as in that part alone.
pub proof fn lemma_quotes_closed_shift(front: Seq<char>, back: Seq<char>, i: int)
    requires
        0 <= i <= back.len(),
    ensures
        quotes_closed_from(front + back, front.len() + i) == quotes_closed_from(back, i),
    decreases back.len() - i,
{
    if i < back.len() {
        lemma_literal_len_shift(front, back, i);
        lemma_literal_len_bound(back, i);
        let n = literal_len(back, i);
        if n > 0 {
            lemma_quotes_closed_shift(front, back, i + n);
        } else {
            assert((front + back)[front.len() + i] == back[i]);
            lemma_quotes_closed_shift(front, back, i + 1);
        }
    }
}

/// Where the front part of a text leaves no quote open from position `i`
/// on and the two parts meet cleanly, the text leaves a quote open from `i`
/// on exactly where the back part leaves one open.
pub proof fn lemma_quotes_closed_front(front: Seq<char>, back: Seq<char>, i: int)
    requires
        0 <= i <= front.len(),
        quotes_closed_from(front, i),
        meet_cleanly(front, back),
    ensures
        quotes_closed_from(front + back, i) == quotes_closed_from(back, 0),
    decreases front.len() - i,
{
    let s = front + back;
    if i < front.len() {
        lemma_literal_len_extend(front, back, i);
        lemma_literal_len_bound(front, i);
        let n = literal_len(front, i);
        if n > 0 {
            lemma_quotes_closed_front(front, back, i + n);
        } else {
            assert(s[i] == front[i]);
            lemma_quotes_closed_front(front, back, i + 1);
        }
    } else {
        lemma_quotes_closed_shift(front, back, 0);
    }
}

/// No literal starts in a text without a digit and without a quote.
pub proof fn lemma_literal_free_len(s: Seq<char>, i: int)
    requires
        is_literal_free(s),
    ensures
        literal_len(s, i) == 0,
{
}

/// Cutting leaves a text without a digit and without a quote as it is, and
/// such a text leaves no quote open.
pub proof fn lemma_literal_free_shape(s: Seq<char>, i: int)
    requires
        is_literal_free(s),
        0 <= i <= s.len(),
    ensures
        stripped_from(s, i) == s.subrange(i, s.len() as int),
        quotes_closed_from(s, i),
    decreases s.len() - i,
{
    if i < s.len() {
        lemma_literal_free_len(s, i);
        lemma_literal_free_shape(s, i + 1);
        assert(stripped_from(s, i) =~= s.subrange(i, s.len() as int));
    } else {
        assert(stripped_from(s, i) =~= s.subrange(i, s.len() as int));
    }
}

/// A whole literal is still one literal when a text that can follow a
/// literal is put behind it.
pub proof fn lemma_whole_literal_extend(x: Seq<char>, back: Seq<char>)
    requires
        is_whole_literal(x),
        can_follow_literal(back),
    ensures
        literal_len(x + back, 0) == x.len(),
{
    let s = x + back;
    assert(s[0] == x[0]);
    let sign: int = if is_sign(x[0]) {
        1
    } else {
        0
    };
    lemma_digit_run_bound(x, sign);
    lemma_unquoted_run_bound(x, 1);
    if number_len(x, 0) > 0 {
        lemma_digit_run_extend(x, back, sign);
        let point = sign + digit_run(x, sign);
        if point < x.len() {
            assert(s[point] == x[point]);
            lemma_digit_run_bound(x, point + 1);
            lemma_digit_run_extend(x, back, point + 1);
        } else if back.len() > 0 {
            assert(s[point] == back[0]);
        }
    } else {
        assert(x[0] == '\'');
        assert(digit_run(s, sign) == 0);
        lemma_unquoted_run_extend(x, back, 1);
    }
}

/// In a text of digits alone, the run of digits from any position goes to
/// the end.
pub proof fn lemma_digit_run_of_digits(s: Seq<char>, i: int)
    requires
        0 <= i <= s.len(),
        forall|k: int| 0 <= k < s.len() ==> is_digit(#[trigger] s[k]),
    ensures
        digit_run(s, i) == s.len() - i,
    decreases s.len() - i,
{
    if i < s.len() {
        lemma_digit_run_of_digits(s, i + 1);
    }
}

/// A decimal numeral is a whole literal.
pub proof fn lemma_decimal_is_literal(n: nat)
    ensures
        is_whole_literal(decimal(n)),
{
    lemma_decimal_digits(n);
    lemma_digit_run_of_digits(decimal(n), 0);
    assert(is_digit(decimal(n)[0]));
}

/// In a text without a quote, the run without a quote from any position
/// goes to the end.
pub proof fn lemma_unquoted_run_of_unquoted(s: Seq<char>, i: int)
    requires
        0 <= i <= s.len(),
        lacks(s, '\''),
    ensures
        unquoted_run(s, i) == s.len() - i,
    decreases s.len() - i,
{
    if i < s.len() {
        lemma_unquoted_run_of_unquoted(s, i + 1);
    }
}

/// A text without a quote, put between two quotes, is a whole literal.
pub proof fn lemma_quoted_is_literal(body: Seq<char>)
    requires
        lacks(body, '\''),
    ensures
        is_whole_literal(seq!['\''] + body + seq!['\'']),
{
    let open = seq!['\''];
    let x = open + body + open;
    let inner = body + open;
    assert(x =~= open + inner);
    lemma_unquoted_run_shift(open, inner, 0);
    lemma_unquoted_run_of_unquoted(body, 0);
    assert(inner[body.len() as int] == '\'');
    lemma_unquoted_run_extend_to_quote(body, open, 0);
    assert(x[0] == '\'');
    assert(digit_run(x, 0) == 0);
}

/// A run without a quote that goes to the end of the front part ends there
/// where the back part begins with a quote.
pub proof fn lemma_unquoted_run_extend_to_quote(front: Seq<char>, back: Seq<char>, i: int)
    requires
        0 <= i <= front.len(),
        i + unquoted_run(front, i) == front.len(),
        back.len() > 0,
        back[0] == '\'',
    ensures
        unquoted_run(front + back, i) == front.len() - i,
    decreases front.len() - i,
{
    if i < front.len() {
        assert((front + back)[i] == front[i]);
        lemma_unquoted_run_extend_to_quote(front, back, i + 1);
    } else {
        assert((front + back)[i] == back[0]);
    }
}

/// In a text without a quote, the search for literals meets no open quote.
pub proof fn lemma_unquoted_closes(s: Seq<char>, i: int)
    requires
        lacks(s, '\''),
    ensures
        quotes_closed_from(s, i),
    decreases s.len() - i,
{
    if 0 <= i < s.len() {
        if literal_len(s, i) > 0 {
            lemma_literal_len_bound(s, i);
            lemma_unquoted_closes(s, i + literal_len(s, i));
        } else {
            lemma_unquoted_closes(s, i + 1);
        }
    }
}

/// A text without a quote that does not end in a digit, a sign or a point
/// can precede a literal.
pub proof fn lemma_unquoted_can_precede(s: Seq<char>)
    requires
        lacks(s, '\''),
        s.len() == 0 || !is_number_char(s.last()),
    ensures
        can_precede_literal(s),
{
    lemma_unquoted_closes(s, 0);
}

/// The shape of two texts in a row is the shape of the first followed by
/// the shape of the second, where the first leaves no quote open and the
/// two meet cleanly. The two in a row then leave a quote open exactly where
/// the second does.
pub proof fn lemma_shape_concat(front: Seq<char>, back: Seq<char>)
    requires
        quotes_closed_from(front, 0),
        meet_cleanly(front, back),
    ensures
        stripped(front + back) == stripped(front) + stripped(back),
        quotes_closed_from(front + back, 0) == quotes_closed_from(back, 0),
{
    lemma_stripped_front(front, back, 0);
    lemma_quotes_closed_front(front, back, 0);
}

/// A whole literal in front of a text that can follow a literal is cut out
/// whole: the shape of the two in a row is the shape of the text, and the
/// two leave a quote open exactly where the text does.
pub proof fn lemma_shape_behind_literal(x: Seq<char>, after: Seq<char>)
    requires
        is_whole_literal(x),
        can_follow_literal(after),
    ensures
        stripped(x + after) == stripped(after),
        quotes_closed_from(x + after, 0) == quotes_closed_from(after, 0),
{
    lemma_whole_literal_extend(x, after);
    lemma_stripped_shift(x, after, 0);
    lemma_quotes_closed_shift(x, after, 0);
}

/// The shape of a text around a literal: where `before` can precede a
/// literal, `x` is a whole literal and `after` can follow one, the shape of
/// the three in a row is the shape of `before` followed by the shape of
/// `after`.
pub proof fn lemma_shape_around_literal(before: Seq<char>, x: Seq<char>, after: Seq<char>)
    requires
        can_precede_literal(before),
        is_whole_literal(x),
        can_follow_literal(after),
    ensures
        stripped(before + x + after) == stripped(before) + stripped(after),
{
    let tail = x + after;
    assert(before + x + after =~= before + tail);
    lemma_shape_concat(before, tail);
    lemma_shape_behind_literal(x, after);
}

/// A whole literal between a text without a digit or a quote and a text
/// that can follow a literal: cutting leaves the text before as it is and
/// goes on behind the literal, and the three in a row leave no quote open
/// where the text behind leaves none open.
pub proof fn lemma_literal_in_place(before: Seq<char>, x: Seq<char>, after: Seq<char>)
    requires
        is_literal_free(before),
        before.len() == 0 || !is_number_char(before.last()),
        is_whole_literal(x),
        can_follow_literal(after),
    ensures
        stripped(before + x + after) == before + stripped(after),
        quotes_closed_from(before + x + after, 0) == quotes_closed_from(after, 0),
{
    let tail = x + after;
    assert(before + x + after =~= before + tail);
    lemma_literal_free_shape(before, 0);
    assert(before.subrange(0, before.len() as int) =~= before);
    lemma_shape_concat(before, tail);
    lemma_shape_behind_literal(x, after);
}

/// A row of digits, a point and another row of digits are a whole literal.
pub proof fn lemma_fraction_is_literal(whole: Seq<char>, fraction: Seq<char>)
    requires
        whole.len() > 0,
        fraction.len() > 0,
        forall|k: int| 0 <= k < whole.len() ==> is_digit(#[trigger] whole[k]),
        forall|k: int| 0 <= k < fraction.len() ==> is_digit(#[trigger] fraction[k]),
    ensures
        is_whole_literal(whole + seq!['.'] + fraction),
{
    let point = seq!['.'];
    let x = whole + point + fraction;
    let rest = point + fraction;
    assert(x =~= whole + rest);
    assert(rest[0] == '.');
    lemma_digit_run_of_digits(whole, 0);
    lemma_digit_run_extend(whole, rest, 0);
    lemma_digit_run_of_digits(fraction, 0);
    lemma_digit_run_shift(whole + point, fraction, 0);
    assert(x[0] == whole[0]);
    assert(x[whole.len() as int] == '.');
}

/// The shape of a statement does not depend on what a literal holds: with
/// one whole literal in place of another, between the same text before and
/// the same text after, the shape is the same.
pub proof fn lemma_shape_ignores_literal(
    before: Seq<char>,
    x: Seq<char>,
    y: Seq<char>,
    after: Seq<char>,
)
    requires
        can_precede_literal(before),
        is_whole_literal(x),
        is_whole_literal(y),
        can_follow_literal(after),
    ensures
        stripped(before + x + after) == stripped(before + y + after),
{
    lemma_shape_around_literal(before, x, after);
    lemma_shape_around_literal(before, y, after);
}

/// The hash of a statement does not depend on what a literal holds.
pub proof fn lemma_hash_ignores_literal(
    before: Seq<char>,
    x: Seq<char>,
    y: Seq<char>,
    after: Seq<char>,
)
    requires
        can_precede_literal(before),
        is_whole_literal(x),
        is_whole_literal(y),
        can_follow_literal(after),
    ensures
        statement_hash_text(before + x + after) == statement_hash_text(before + y + after),
{
    lemma_shape_ignores_literal(before, x, y, after);
}

/// Two statements that end in a number, behind the same text without a
/// quote, have the same hash whatever the two numbers are.
pub proof fn lemma_hash_ignores_number(before: Seq<char>, n: nat, m: nat)
    requires
        lacks(before, '\''),
        before.len() == 0 || !is_number_char(before.last()),
    ensures
        statement_hash_text(before + decimal(n)) == statement_hash_text(before + decimal(m)),
{
    let nothing = Seq::<char>::empty();
    lemma_unquoted_can_precede(before);
    lemma_decimal_is_literal(n);
    lemma_decimal_is_literal(m);
    lemma_hash_ignores_literal(before, decimal(n), decimal(m), nothing);
    assert(before + decimal(n) + nothing =~= before + decimal(n));
    assert(before + decimal(m) + nothing =~= before + decimal(m));
}

} // verus!
