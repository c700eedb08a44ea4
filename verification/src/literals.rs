//! Literals in statement text: numbers and single-quoted strings. They are
//! found from left to right, read out of the `WHERE` clause as the
//! statement's bind values, and cut out of a statement to get its shape.
//!
//! A number is an optional sign, one or more of the digits `0` to `9`, and
//! optionally a point followed by one or more digits. A string runs from a
//! single quote to the next single quote; there is no way to escape a quote
//! inside it, and a quote that is never closed starts no string.

use crate::text::{chars_of, is_digit, is_plain, join, lemma_join_plain, lemma_subrange_plain};
use vstd::prelude::*;
use vstd::string::*;

verus! {

/// True for `+` and `-`.
pub open spec fn is_sign(c: char) -> bool {
    c == '+' || c == '-'
}

/// How many digits stand in a row from position `i` on.
pub open spec fn digit_run(s: Seq<char>, i: int) -> nat
    decreases s.len() - i,
{
    if 0 <= i < s.len() && is_digit(s[i]) {
        1 + digit_run(s, i + 1)
    } else {
        0
    }
}

/// How many characters other than a single quote stand in a row from
/// position `i` on.
pub open spec fn unquoted_run(s: Seq<char>, i: int) -> nat
    decreases s.len() - i,
{
    if 0 <= i < s.len() && s[i] != '\'' {
        1 + unquoted_run(s, i + 1)
    } else {
        0
    }
}

/// The length of the number that starts at position `i`, or 0 where none
/// starts. The number takes as many digits as stand there, and a point only
/// where a digit follows it.
pub open spec fn number_len(s: Seq<char>, i: int) -> nat {
    let sign: int = if 0 <= i < s.len() && is_sign(s[i]) {
        1
    } else {
        0
    };
    let whole = digit_run(s, i + sign);
    let point = i + sign + whole;
    if i < 0 || whole == 0 {
        0
    } else if point < s.len() && s[point] == '.' && digit_run(s, point + 1) > 0 {
        (sign + whole + 1 + digit_run(s, point + 1)) as nat
    } else {
        (sign + whole) as nat
    }
}

/// The length of the quoted string that starts at position `i`, both quotes
/// counted, or 0 where none starts.
pub open spec fn quoted_len(s: Seq<char>, i: int) -> nat {
    if 0 <= i < s.len() && s[i] == '\'' && i + 1 + unquoted_run(s, i + 1) < s.len() {
        unquoted_run(s, i + 1) + 2
    } else {
        0
    }
}

/// The length of the literal that starts at position `i`, or 0 where none
/// starts.
pub open spec fn literal_len(s: Seq<char>, i: int) -> nat {
    if number_len(s, i) > 0 {
        number_len(s, i)
    } else {
        quoted_len(s, i)
    }
}

/// A run of digits ends within the text.
pub proof fn lemma_digit_run_bound(s: Seq<char>, i: int)
    requires
        0 <= i <= s.len(),
    ensures
        i + digit_run(s, i) <= s.len(),
    decreases s.len() - i,
{
    if i < s.len() && is_digit(s[i]) {
        lemma_digit_run_bound(s, i + 1);
    }
}

/// A run without a quote ends within the text.
pub proof fn lemma_unquoted_run_bound(s: Seq<char>, i: int)
    requires
        0 <= i <= s.len(),
    ensures
        i + unquoted_run(s, i) <= s.len(),
    decreases s.len() - i,
{
    if i < s.len() && s[i] != '\'' {
        lemma_unquoted_run_bound(s, i + 1);
    }
}

/// A literal ends within the text.
pub proof fn lemma_literal_len_bound(s: Seq<char>, i: int)
    requires
        0 <= i <= s.len(),
    ensures
        i + literal_len(s, i) <= s.len(),
{
    let sign: int = if i < s.len() && is_sign(s[i]) {
        1
    } else {
        0
    };
    lemma_digit_run_bound(s, i + sign);
    let point = i + sign + digit_run(s, i + sign);
    if point < s.len() {
        lemma_digit_run_bound(s, point + 1);
    }
    if i < s.len() {
        lemma_unquoted_run_bound(s, i + 1);
    }
}

/// The literals of `s` from position `i` on, from left to right. A literal
/// is taken at the first position where one starts, and the search goes on
/// behind its end, so that no two overlap.
pub open spec fn literals_from(s: Seq<char>, i: int) -> Seq<Seq<char>>
    decreases s.len() - i,
{
    if i < 0 || i >= s.len() {
        Seq::empty()
    } else if literal_len(s, i) > 0 {
        proof {
            lemma_literal_len_bound(s, i);
        }
        seq![s.subrange(i, i + literal_len(s, i))] + literals_from(s, i + literal_len(s, i))
    } else {
        literals_from(s, i + 1)
    }
}

/// The literals of `s`, from left to right.
pub open spec fn literals(s: Seq<char>) -> Seq<Seq<char>> {
    literals_from(s, 0)
}

/// What is left of `s` from position `i` on when every literal is cut out.
pub open spec fn stripped_from(s: Seq<char>, i: int) -> Seq<char>
    decreases s.len() - i,
{
    if i < 0 || i >= s.len() {
        Seq::empty()
    } else if literal_len(s, i) > 0 {
        proof {
            lemma_literal_len_bound(s, i);
        }
        stripped_from(s, i + literal_len(s, i))
    } else {
        seq![s[i]] + stripped_from(s, i + 1)
    }
}

/// The shape of `s`: the text with every literal cut out.
pub open spec fn stripped(s: Seq<char>) -> Seq<char> {
    stripped_from(s, 0)
}

/// Every literal of a plain text is plain.
pub proof fn lemma_literals_plain(s: Seq<char>, i: int)
    requires
        is_plain(s),
        0 <= i,
    ensures
        forall|k: int|
            0 <= k < literals_from(s, i).len() ==> is_plain(#[trigger] literals_from(s, i)[k]),
    decreases s.len() - i,
{
    if i < s.len() {
        let n = literal_len(s, i);
        if n > 0 {
            lemma_literal_len_bound(s, i);
            lemma_subrange_plain(s, i, i + n);
            lemma_literals_plain(s, i + n);
            let rest = literals_from(s, i + n);
            assert forall|k: int| 0 <= k < literals_from(s, i).len() implies is_plain(
                #[trigger] literals_from(s, i)[k],
            ) by {
                if k > 0 {
                    assert(literals_from(s, i)[k] == rest[k - 1]);
                }
            }
        } else {
            lemma_literals_plain(s, i + 1);
            assert(literals_from(s, i) == literals_from(s, i + 1));
        }
    } else {
        assert(literals_from(s, i).len() == 0);
    }
}

/// True when the keyword `WHERE` stands at position `i`, in capitals, in
/// small letters or in a mix of both.
pub open spec fn is_where_at(s: Seq<char>, i: int) -> bool {
    &&& 0 <= i
    &&& i + 5 <= s.len()
    &&& (s[i] == 'W' || s[i] == 'w')
    &&& (s[i + 1] == 'H' || s[i + 1] == 'h')
    &&& (s[i + 2] == 'E' || s[i + 2] == 'e')
    &&& (s[i + 3] == 'R' || s[i + 3] == 'r')
    &&& (s[i + 4] == 'E' || s[i + 4] == 'e')
}

/// True when the keyword `WHERE` stands somewhere in `s`.
pub open spec fn has_where(s: Seq<char>) -> bool {
    exists|i: int| is_where_at(s, i)
}

/// True when position `i` is where the keyword `WHERE` first stands.
pub open spec fn is_first_where(s: Seq<char>, i: int) -> bool {
    is_where_at(s, i) && forall|j: int| 0 <= j < i ==> !is_where_at(s, j)
}

/// The text behind the first `WHERE` of `s`. It means nothing for a text
/// without the keyword.
pub open spec fn after_where(s: Seq<char>) -> Seq<char>
    recommends
        has_where(s),
{
    let first = choose|i: int| is_first_where(s, i);
    s.subrange(first + 5, s.len() as int)
}

/// The bind values of a statement: the literals behind its first `WHERE`,
/// from left to right, joined with a comma and a space, repeats included.
/// A statement without the keyword has none.
pub open spec fn bind_values_text(s: Seq<char>) -> Seq<char> {
    if has_where(s) {
        join(literals(after_where(s)), ", "@)
    } else {
        Seq::empty()
    }
}

/// The bind values of a plain statement are plain.
pub proof fn lemma_bind_values_plain(s: Seq<char>)
    requires
        is_plain(s),
    ensures
        is_plain(bind_values_text(s)),
{
    if has_where(s) {
        let at = choose|i: int| is_where_at(s, i);
        lemma_first_where_exists(s, at);
        let first = choose|i: int| is_first_where(s, i);
        lemma_subrange_plain(s, first + 5, s.len() as int);
        lemma_literals_plain(after_where(s), 0);
        assert(is_plain(", "@)) by {
            reveal(is_plain);
            reveal_strlit(", ");
        }
        lemma_join_plain(literals(after_where(s)), ", "@);
    } else {
        reveal(is_plain);
    }
}

/// Where the keyword stands at all, it stands first somewhere.
pub proof fn lemma_first_where_exists(s: Seq<char>, at: int)
    requires
        is_where_at(s, at),
    ensures
        exists|i: int| is_first_where(s, i),
    decreases at,
{
    if exists|j: int| 0 <= j < at && is_where_at(s, j) {
        let j = choose|j: int| 0 <= j < at && is_where_at(s, j);
        lemma_first_where_exists(s, j);
    } else {
        assert(is_first_where(s, at));
    }
}

/// The keyword stands first at one position only.
pub proof fn lemma_first_where_unique(s: Seq<char>, i: int, j: int)
    requires
        is_first_where(s, i),
        is_first_where(s, j),
    ensures
        i == j,
{
}

fn count_digits(chars: &Vec<char>, start: usize) -> (n: usize)
    requires
        start <= chars.len(),
    ensures
        n == digit_run(chars@, start as int),
        start + n <= chars.len(),
{
    let mut i: usize = start;
    while i < chars.len() && '0' <= chars[i] && chars[i] <= '9'
        invariant
            start <= i <= chars.len(),
            digit_run(chars@, start as int) == (i - start) + digit_run(chars@, i as int),
        decreases chars.len() - i,
    {
        i += 1;
    }
    i - start
}

fn count_unquoted(chars: &Vec<char>, start: usize) -> (n: usize)
    requires
        start <= chars.len(),
    ensures
        n == unquoted_run(chars@, start as int),
        start + n <= chars.len(),
{
    let mut i: usize = start;
    while i < chars.len() && chars[i] != '\''
        invariant
            start <= i <= chars.len(),
            unquoted_run(chars@, start as int) == (i - start) + unquoted_run(chars@, i as int),
        decreases chars.len() - i,
    {
        i += 1;
    }
    i - start
}

/// The length of the literal that starts at position `i` of `chars`, or 0
/// where none starts.
pub fn literal_length(chars: &Vec<char>, i: usize) -> (n: usize)
    requires
        i < chars.len(),
    ensures
        n == literal_len(chars@, i as int),
        i + n <= chars.len(),
{
    let len = chars.len();
    let first = chars[i];
    if first == '\'' {
        let body = count_unquoted(chars, i + 1);
        if i + 1 + body < len {
            body + 2
        } else {
            0
        }
    } else {
        let sign: usize = if first == '+' || first == '-' {
            1
        } else {
            0
        };
        let whole = count_digits(chars, i + sign);
        if whole == 0 {
            0
        } else {
            let point = i + sign + whole;
            if point < len && chars[point] == '.' {
                let fraction = count_digits(chars, point + 1);
                if fraction > 0 {
                    sign + whole + 1 + fraction
                } else {
                    sign + whole
                }
            } else {
                sign + whole
            }
        }
    }
}

/// The position where the keyword `WHERE` first stands in `chars`, in any
/// mix of capitals and small letters.
pub fn find_where(chars: &Vec<char>) -> (r: Option<usize>)
    ensures
        r matches Some(i) ==> is_first_where(chars@, i as int),
        r is None ==> !has_where(chars@),
{
    let len = chars.len();
    if len < 5 {
        return None;
    }
    let mut i: usize = 0;
    while i <= len - 5
        invariant
            len == chars.len(),
            len >= 5,
            i <= len - 4,
            forall|j: int| 0 <= j < i ==> !is_where_at(chars@, j),
        decreases len - i,
    {
        if (chars[i] == 'W' || chars[i] == 'w') && (chars[i + 1] == 'H' || chars[i + 1] == 'h') && (
        chars[i + 2] == 'E' || chars[i + 2] == 'e') && (chars[i + 3] == 'R' || chars[i + 3] == 'r')
            && (chars[i + 4] == 'E' || chars[i + 4] == 'e') {
            return Some(i);
        }
        i += 1;
    }
    None
}

/// The literals of `text`, from left to right, joined with a comma and a
/// space.
pub fn literal_values(text: &str) -> (r: String)
    ensures
        r@ == join(literals(text@), ", "@),
{
    let chars = chars_of(text);
    let mut out = String::new();
    let ghost mut found: Seq<Seq<char>> = Seq::empty();
    let mut first = true;
    let mut i: usize = 0;
    while i < chars.len()
        invariant
            i <= chars.len(),
            chars@ == text@,
            out@ == join(found, ", "@),
            found + literals_from(text@, i as int) == literals(text@),
            first == (found.len() == 0),
        decreases chars.len() - i,
    {
        let n = literal_length(&chars, i);
        if n > 0 {
            if !first {
                out.append(", ");
            }
            out.append(text.substring_char(i, i + n));
            proof {
                let literal = text@.subrange(i as int, i + n);
                let grown = found.push(literal);
                assert(grown.drop_last() =~= found);
                assert(grown + literals_from(text@, i + n) =~= found + literals_from(
                    text@,
                    i as int,
                ));
                assert(out@ =~= join(grown, ", "@));
                found = grown;
            }
            first = false;
            i += n;
        } else {
            i += 1;
        }
    }
    assert(found =~= literals(text@));
    out
}

/// The shape of `text`: the text with every literal cut out.
pub fn strip_literals(text: &str) -> (r: String)
    ensures
        r@ == stripped(text@),
{
    let chars = chars_of(text);
    let len = chars.len();
    let mut out = String::new();
    let mut kept: usize = 0;
    let mut i: usize = 0;
    while i < len
        invariant
            len == chars.len(),
            kept <= i <= len,
            chars@ == text@,
            out@ + text@.subrange(kept as int, i as int) + stripped_from(text@, i as int)
                == stripped(text@),
        decreases len - i,
    {
        let n = literal_length(&chars, i);
        if n > 0 {
            out.append(text.substring_char(kept, i));
            i += n;
            kept = i;
            assert(text@.subrange(kept as int, i as int) =~= Seq::<char>::empty());
            assert(out@ + text@.subrange(kept as int, i as int) =~= out@);
        } else {
            assert(text@.subrange(kept as int, i as int) + seq![text@[i as int]]
                =~= text@.subrange(kept as int, i + 1));
            assert(out@ + text@.subrange(kept as int, i + 1) + stripped_from(text@, i + 1)
                =~= out@ + text@.subrange(kept as int, i as int) + stripped_from(
                text@,
                i as int,
            ));
            i += 1;
        }
    }
    out.append(text.substring_char(kept, len));
    assert(out@ =~= stripped(text@));
    out
}

/// The bind values of the statement `sql`: the literals behind its first
/// `WHERE`, from left to right, joined with a comma and a space. A statement
/// without the keyword gives the empty string.
pub fn extract_where_values(sql: &str) -> (r: String)
    ensures
        r@ == bind_values_text(sql@),
{
    let chars = chars_of(sql);
    match find_where(&chars) {
        Some(start) => {
            proof {
                let first = choose|i: int| is_first_where(sql@, i);
                lemma_first_where_unique(sql@, first, start as int);
            }
            literal_values(sql.substring_char(start + 5, chars.len()))
        },
        None => String::new(),
    }
}

} // verus!
