//! The plan of a run: how many rows were asked for on the command line, how
//! many workers share them, and how many rows each worker gives.

use crate::random::RandomSource;
use crate::text::{chars_of, is_digit, same_text};
use vstd::prelude::*;

verus! {

/// How many rows a run gives when the command line does not say.
pub const DEFAULT_ENTRIES: usize = 100_000;

/// The fewest workers of a run.
pub const MIN_WORKERS: usize = 10;

/// The most workers of a run.
pub const MAX_WORKERS: usize = 50;

/// Rows each worker produces when `total` rows are shared among `workers`
/// workers: the integer quotient. The remainder is dropped.
pub open spec fn quota_per_worker(total: nat, workers: nat) -> nat
    recommends
        workers > 0,
{
    total / workers
}

/// Splits `total` rows evenly among `workers` workers, dropping the
/// remainder.
pub fn partition_quota(total: usize, workers: usize) -> (quota: usize)
    requires
        workers > 0,
    ensures
        quota as nat == quota_per_worker(total as nat, workers as nat),
{
    total / workers
}

/// All workers together give no more rows than were asked for, and fall
/// short by fewer rows than there are workers.
pub proof fn lemma_quota_covers_total(total: nat, workers: nat)
    requires
        workers > 0,
    ensures
        workers * quota_per_worker(total, workers) <= total,
        total < workers * quota_per_worker(total, workers) + workers,
{
    let q = total / workers;
    let r = total % workers;
    assert(total == workers * q + r) by {
        vstd::arithmetic::div_mod::lemma_fundamental_div_mod(total as int, workers as int);
    }
    assert(0 <= r < workers) by {
        vstd::arithmetic::div_mod::lemma_mod_bound(total as int, workers as int);
    }
}

/// Draws how many workers a run has, from `MIN_WORKERS` to `MAX_WORKERS`.
pub fn pick_worker_count(rng: &mut RandomSource) -> (workers: usize)
    ensures
        MIN_WORKERS <= workers <= MAX_WORKERS,
{
    rng.draw(MIN_WORKERS as u64, MAX_WORKERS as u64 + 1) as usize
}

/// The number that a row of digits writes in decimal.
pub open spec fn digits_value(digits: Seq<char>) -> nat
    decreases digits.len(),
{
    if digits.len() == 0 {
        0
    } else {
        digits_value(digits.drop_last()) * 10 + (digits.last() as nat - '0' as nat) as nat
    }
}

/// The digits of an argument: the argument without a leading `+`.
pub open spec fn unsigned_part(arg: Seq<char>) -> Seq<char> {
    if arg.len() > 0 && arg[0] == '+' {
        arg.subrange(1, arg.len() as int)
    } else {
        arg
    }
}

/// The count that an argument writes: an optional `+`, then one or more
/// digits, for a number that fits in `usize`. `None` for any other text.
pub open spec fn parsed_count(arg: Seq<char>) -> Option<usize> {
    let digits = unsigned_part(arg);
    if digits.len() > 0 && (forall|i: int| 0 <= i < digits.len() ==> is_digit(digits[i]))
        && digits_value(digits) <= usize::MAX {
        Some(digits_value(digits) as usize)
    } else {
        None
    }
}

/// True when `-r` stands at position `i` of the arguments and nowhere
/// before it.
pub open spec fn is_first_flag(args: Seq<Seq<char>>, i: int) -> bool {
    &&& 0 <= i < args.len()
    &&& args[i] == "-r"@
    &&& forall|j: int| 0 <= j < i ==> args[j] != "-r"@
}

/// How many rows the arguments ask for: the count written behind the first
/// `-r`. Without the flag, without an argument behind it, or with one that
/// writes no count, `DEFAULT_ENTRIES`.
pub open spec fn requested_entries_of(args: Seq<Seq<char>>) -> usize {
    if exists|i: int| is_first_flag(args, i) {
        let flag = choose|i: int| is_first_flag(args, i);
        if flag + 1 < args.len() {
            match parsed_count(args[flag + 1]) {
                Some(count) => count,
                None => DEFAULT_ENTRIES,
            }
        } else {
            DEFAULT_ENTRIES
        }
    } else {
        DEFAULT_ENTRIES
    }
}

/// A row of digits writes no less than any of its beginnings.
pub proof fn lemma_digits_value_grows(digits: Seq<char>, n: int)
    requires
        0 <= n <= digits.len(),
        forall|i: int| 0 <= i < digits.len() ==> is_digit(digits[i]),
    ensures
        digits_value(digits.subrange(0, n)) <= digits_value(digits),
    decreases digits.len() - n,
{
    if n == digits.len() {
        assert(digits.subrange(0, n) =~= digits);
    } else {
        let longer = digits.subrange(0, n + 1);
        assert(longer.drop_last() =~= digits.subrange(0, n));
        assert(is_digit(longer.last()));
        lemma_digits_value_grows(digits, n + 1);
    }
}

/// The count that `arg` writes, if it writes one.
pub fn parse_count(arg: &str) -> (r: Option<usize>)
    ensures
        r == parsed_count(arg@),
{
    let chars = chars_of(arg);
    let len = chars.len();
    let start: usize = if len > 0 && chars[0] == '+' {
        1
    } else {
        0
    };
    let ghost digits = unsigned_part(arg@);
    assert(digits =~= arg@.subrange(start as int, len as int));
    if start == len {
        return None;
    }
    let mut value: usize = 0;
    let mut i: usize = start;
    while i < len
        invariant
            start <= i <= len,
            len == chars.len(),
            chars@ == arg@,
            digits == arg@.subrange(start as int, len as int),
            digits == unsigned_part(arg@),
            forall|j: int| 0 <= j < i - start ==> is_digit(digits[j]),
            value == digits_value(digits.subrange(0, i - start)),
        decreases len - i,
    {
        let c = chars[i];
        if !('0' <= c && c <= '9') {
            assert(!is_digit(digits[i - start]));
            return None;
        }
        let digit = (c as u32 - '0' as u32) as usize;
        proof {
            let longer = digits.subrange(0, i - start + 1);
            assert(longer.drop_last() =~= digits.subrange(0, i - start));
            assert(longer.last() == c);
        }
        let next = match value.checked_mul(10) {
            Some(tens) => tens.checked_add(digit),
            None => None,
        };
        match next {
            Some(n) => {
                value = n;
            },
            None => {
                proof {
                    let longer = digits.subrange(0, i - start + 1);
                    assert(digits_value(longer) == value * 10 + digit);
                    assert(digits_value(longer) > usize::MAX);
                    if forall|j: int| 0 <= j < digits.len() ==> is_digit(digits[j]) {
                        lemma_digits_value_grows(digits, i - start + 1);
                    }
                }
                return None;
            },
        }
        i += 1;
    }
    assert(digits.subrange(0, i - start) =~= digits);
    Some(value)
}

/// How many rows the command-line arguments `args` ask for.
pub fn requested_entries(args: &Vec<String>) -> (entries: usize)
    ensures
        entries == requested_entries_of(args@.map_values(|a: String| a@)),
{
    let ghost texts = args@.map_values(|a: String| a@);
    let mut i: usize = 0;
    while i < args.len()
        invariant
            i <= args.len(),
            texts == args@.map_values(|a: String| a@),
            forall|j: int| 0 <= j < i ==> texts[j] != "-r"@,
        decreases args.len() - i,
    {
        if same_text(args[i].as_str(), "-r") {
            proof {
                assert(is_first_flag(texts, i as int));
                let flag = choose|k: int| is_first_flag(texts, k);
                assert(flag == i);
            }
            if i + 1 < args.len() {
                return match parse_count(args[i + 1].as_str()) {
                    Some(count) => count,
                    None => DEFAULT_ENTRIES,
                };
            } else {
                return DEFAULT_ENTRIES;
            }
        }
        i += 1;
    }
    DEFAULT_ENTRIES
}

} // verus!
