//! Text as sequences of characters: joining, decimal numerals, and the
//! executable helpers that build `String`s piece by piece.

use vstd::prelude::*;
use vstd::string::*;

verus! {

/// The parts in order, with `sep` between each two neighbours.
pub open spec fn join(parts: Seq<Seq<char>>, sep: Seq<char>) -> Seq<char>
    decreases parts.len(),
{
    if parts.len() == 0 {
        Seq::empty()
    } else if parts.len() == 1 {
        parts[0]
    } else {
        join(parts.drop_last(), sep) + sep + parts.last()
    }
}

/// The character that writes the digit `d`, for `d` from 0 to 9.
pub open spec fn digit_char(d: int) -> char {
    if d == 0 {
        '0'
    } else if d == 1 {
        '1'
    } else if d == 2 {
        '2'
    } else if d == 3 {
        '3'
    } else if d == 4 {
        '4'
    } else if d == 5 {
        '5'
    } else if d == 6 {
        '6'
    } else if d == 7 {
        '7'
    } else if d == 8 {
        '8'
    } else {
        '9'
    }
}

/// True for the digits `0` to `9`.
pub open spec fn is_digit(c: char) -> bool {
    '0' <= c <= '9'
}

/// The decimal numeral of `n`, without sign or leading zeros.
pub open spec fn decimal(n: nat) -> Seq<char>
    decreases n,
{
    if n < 10 {
        seq![digit_char(n as int)]
    } else {
        decimal(n / 10).push(digit_char((n % 10) as int))
    }
}

/// The two-digit numeral of `n`, with a leading zero below ten.
pub open spec fn two_digits(n: nat) -> Seq<char>
    recommends
        n < 100,
{
    seq![digit_char((n / 10) as int), digit_char((n % 10) as int)]
}

/// True when every character is a printable ASCII character, a space
/// included. Such text holds no tab and no line break.
#[verifier::opaque]
pub open spec fn is_plain(s: Seq<char>) -> bool {
    forall|i: int| 0 <= i < s.len() ==> ' ' <= #[trigger] s[i] <= '~'
}

/// True when `c` occurs nowhere in `s`.
pub open spec fn lacks(s: Seq<char>, c: char) -> bool {
    forall|i: int| 0 <= i < s.len() ==> #[trigger] s[i] != c
}

/// Plain text holds no tab.
pub proof fn lemma_plain_lacks_tab(s: Seq<char>)
    requires
        is_plain(s),
    ensures
        lacks(s, '\t'),
        lacks(s, '\n'),
{
    reveal(is_plain);
}

/// True when `s` holds no tab and no line break, so that it can stand as
/// one field of one line.
pub open spec fn is_unbroken(s: Seq<char>) -> bool {
    lacks(s, '\t') && lacks(s, '\n')
}

/// Plain text holds no tab and no line break.
pub proof fn lemma_plain_unbroken(s: Seq<char>)
    requires
        is_plain(s),
    ensures
        is_unbroken(s),
{
    lemma_plain_lacks_tab(s);
}

/// Two texts without a tab or a line break, one after the other, hold none.
pub proof fn lemma_concat_unbroken(a: Seq<char>, b: Seq<char>)
    requires
        is_unbroken(a),
        is_unbroken(b),
    ensures
        is_unbroken(a + b),
{
    assert forall|i: int| 0 <= i < (a + b).len() implies #[trigger] (a + b)[i] != '\t' && (a
        + b)[i] != '\n' by {
        if i < a.len() {
            assert((a + b)[i] == a[i]);
        } else {
            assert((a + b)[i] == b[i - a.len()]);
        }
    }
}

/// Parts without a tab or a line break, joined with a separator without a
/// line break, hold no line break.
pub proof fn lemma_join_one_line(parts: Seq<Seq<char>>, sep: Seq<char>)
    requires
        forall|i: int| 0 <= i < parts.len() ==> is_unbroken(#[trigger] parts[i]),
        lacks(sep, '\n'),
    ensures
        lacks(join(parts, sep), '\n'),
    decreases parts.len(),
{
    if parts.len() >= 2 {
        let front = parts.drop_last();
        assert forall|i: int| 0 <= i < front.len() implies is_unbroken(#[trigger] front[i]) by {
            assert(front[i] == parts[i]);
        }
        lemma_join_one_line(front, sep);
        let joined = join(front, sep);
        let last = parts.last();
        let whole = joined + sep + last;
        assert forall|i: int| 0 <= i < whole.len() implies #[trigger] whole[i] != '\n' by {
            if i < joined.len() {
                assert(whole[i] == joined[i]);
            } else if i < joined.len() + sep.len() {
                assert(whole[i] == sep[i - joined.len()]);
            } else {
                assert(whole[i] == last[i - joined.len() - sep.len()]);
            }
        }
    }
}

/// A decimal numeral holds digits alone, and at least one.
pub proof fn lemma_decimal_digits(n: nat)
    ensures
        decimal(n).len() >= 1,
        forall|k: int| 0 <= k < decimal(n).len() ==> is_digit(#[trigger] decimal(n)[k]),
    decreases n,
{
    if n >= 10 {
        lemma_decimal_digits(n / 10);
    }
}

/// A decimal numeral is plain and not empty.
pub proof fn lemma_decimal_plain(n: nat)
    ensures
        is_plain(decimal(n)),
        decimal(n).len() >= 1,
    decreases n,
{
    reveal(is_plain);
    if n >= 10 {
        lemma_decimal_plain(n / 10);
    }
}

/// Two plain texts, one after the other, are plain.
pub proof fn lemma_concat_plain(a: Seq<char>, b: Seq<char>)
    requires
        is_plain(a),
        is_plain(b),
    ensures
        is_plain(a + b),
{
    reveal(is_plain);
    assert forall|i: int| 0 <= i < (a + b).len() implies ' ' <= #[trigger] (a + b)[i] <= '~' by {
        if i < a.len() {
            assert((a + b)[i] == a[i]);
        } else {
            assert((a + b)[i] == b[i - a.len()]);
        }
    }
}

/// A part of a plain text is plain.
pub proof fn lemma_subrange_plain(s: Seq<char>, from: int, to: int)
    requires
        is_plain(s),
        0 <= from <= to <= s.len(),
    ensures
        is_plain(s.subrange(from, to)),
{
    reveal(is_plain);
    assert forall|i: int| 0 <= i < to - from implies ' ' <= #[trigger] s.subrange(from, to)[i]
        <= '~' by {
        assert(s.subrange(from, to)[i] == s[from + i]);
    }
}

/// Plain parts joined with a plain separator are plain.
pub proof fn lemma_join_plain(parts: Seq<Seq<char>>, sep: Seq<char>)
    requires
        forall|i: int| 0 <= i < parts.len() ==> is_plain(#[trigger] parts[i]),
        is_plain(sep),
    ensures
        is_plain(join(parts, sep)),
    decreases parts.len(),
{
    if parts.len() == 0 {
        reveal(is_plain);
    } else if parts.len() >= 2 {
        let front = parts.drop_last();
        assert forall|i: int| 0 <= i < front.len() implies is_plain(#[trigger] front[i]) by {
            assert(front[i] == parts[i]);
        }
        lemma_join_plain(front, sep);
        lemma_concat_plain(join(front, sep), sep);
        lemma_concat_plain(join(front, sep) + sep, parts.last());
    }
}

/// A two-digit numeral is plain.
pub proof fn lemma_two_digits_plain(n: nat)
    ensures
        is_plain(two_digits(n)),
{
    reveal(is_plain);
}

/// The characters of `s`, in order.
pub fn chars_of(s: &str) -> (v: Vec<char>)
    ensures
        v@ == s@,
{
    let mut v: Vec<char> = Vec::new();
    for c in it: s.chars()
        invariant
            v@ == it.seq().take(it.index() as int),
            it.seq() == s@,
    {
        v.push(c);
    }
    v
}

/// Whether two strings hold the same characters.
pub fn same_text(a: &str, b: &str) -> (same: bool)
    ensures
        same == (a@ == b@),
{
    let x = chars_of(a);
    let y = chars_of(b);
    if x.len() != y.len() {
        return false;
    }
    let mut i: usize = 0;
    while i < x.len()
        invariant
            i <= x.len(),
            x.len() == y.len(),
            x@ == a@,
            y@ == b@,
            forall|j: int| 0 <= j < i ==> x@[j] == y@[j],
        decreases x.len() - i,
    {
        if x[i] != y[i] {
            return false;
        }
        i += 1;
    }
    assert(x@ =~= y@);
    true
}

/// The one-character string of the digit `d`.
pub fn digit_str(d: u64) -> (r: &'static str)
    requires
        d < 10,
    ensures
        r@ == seq![digit_char(d as int)],
{
    proof {
        reveal_strlit("0");
        reveal_strlit("1");
        reveal_strlit("2");
        reveal_strlit("3");
        reveal_strlit("4");
        reveal_strlit("5");
        reveal_strlit("6");
        reveal_strlit("7");
        reveal_strlit("8");
        reveal_strlit("9");
    }
    let r = match d {
        0 => "0",
        1 => "1",
        2 => "2",
        3 => "3",
        4 => "4",
        5 => "5",
        6 => "6",
        7 => "7",
        8 => "8",
        _ => "9",
    };
    assert(r@ =~= seq![digit_char(d as int)]);
    r
}

/// Appends the decimal numeral of `n` to `out`.
pub fn push_decimal(out: &mut String, n: u64)
    ensures
        final(out)@ == old(out)@ + decimal(n as nat),
    decreases n,
{
    if n >= 10 {
        push_decimal(out, n / 10);
    }
    out.append(digit_str(n % 10));
    assert(out@ =~= old(out)@ + decimal(n as nat));
}

/// Appends the two-digit numeral of `n` to `out`.
pub fn push_two_digits(out: &mut String, n: u64)
    requires
        n < 100,
    ensures
        final(out)@ == old(out)@ + two_digits(n as nat),
{
    out.append(digit_str(n / 10));
    out.append(digit_str(n % 10));
    assert(out@ =~= old(out)@ + two_digits(n as nat));
}

/// The decimal numeral of `n` as a string.
pub fn decimal_string(n: u64) -> (r: String)
    ensures
        r@ == decimal(n as nat),
{
    let mut out = String::new();
    push_decimal(&mut out, n);
    assert(out@ =~= decimal(n as nat));
    out
}

/// The strings of `parts` in order, with `sep` between each two neighbours.
pub fn join_strings(parts: &Vec<String>, sep: &str) -> (r: String)
    ensures
        r@ == join(parts@.map_values(|p: String| p@), sep@),
{
    let ghost texts = parts@.map_values(|p: String| p@);
    let mut out = String::new();
    let mut i: usize = 0;
    while i < parts.len()
        invariant
            i <= parts.len(),
            texts == parts@.map_values(|p: String| p@),
            out@ == join(texts.take(i as int), sep@),
        decreases parts.len() - i,
    {
        if i > 0 {
            out.append(sep);
        }
        out.append(parts[i].as_str());
        proof {
            let next = texts.take(i + 1);
            assert(next.drop_last() =~= texts.take(i as int));
            assert(next.last() == parts@[i as int]@);
        }
        i += 1;
    }
    assert(texts.take(i as int) =~= texts);
    out
}

} // verus!
