//! Placeholders of a command template. A placeholder is written `${N}`, with
//! `N` one or more ASCII digits; it stands for the argument of that index.

use vstd::prelude::*;
use crate::text::{all_digits, chars_of, is_digit, lemma_number_grows, number, string_of};

verus! {

/// The number of consecutive digits of `t` that start at `from`.
pub open spec fn digit_run(t: Seq<char>, from: int) -> nat
    decreases t.len() - from,
{
    if 0 <= from < t.len() && is_digit(t[from]) {
        1 + digit_run(t, from + 1)
    } else {
        0
    }
}

/// The length of the placeholder that starts at `at`, and 0 where none starts
/// there: a dollar sign, an opening brace, at least one digit, a closing brace.
pub open spec fn placeholder_len(t: Seq<char>, at: int) -> nat {
    let run = digit_run(t, at + 2);
    if 0 <= at && at + 2 + run < t.len() && t[at] == '$' && t[at + 1] == '{' && run >= 1 && t[at
        + 2 + run] == '}' {
        run + 3
    } else {
        0
    }
}

/// The digits of the placeholder that starts at `at`.
pub open spec fn placeholder_digits(t: Seq<char>, at: int) -> Seq<char> {
    t.subrange(at + 2, at + 2 + digit_run(t, at + 2))
}

/// The index that the placeholder at `at` names.
pub open spec fn placeholder_index(t: Seq<char>, at: int) -> nat {
    number(placeholder_digits(t, at))
}

/// Whether `t`, read from `at` on, holds a placeholder whose index is not
/// below `count`.
pub open spec fn unbound_from(t: Seq<char>, at: int, count: nat) -> bool
    decreases t.len() - at,
{
    if at < 0 || at >= t.len() {
        false
    } else {
        let n = placeholder_len(t, at);
        if n > 0 {
            placeholder_index(t, at) >= count || unbound_from(t, at + n, count)
        } else {
            unbound_from(t, at + 1, count)
        }
    }
}

/// Whether `t` holds a placeholder that `count` arguments leave without a value.
pub open spec fn has_unbound(t: Seq<char>, count: nat) -> bool {
    unbound_from(t, 0, count)
}

/// `t` from `at` on, each placeholder replaced by the argument it names. The
/// text is read from left to right, a placeholder is taken where it starts,
/// and what was put in is not read again.
pub open spec fn substitute_from(t: Seq<char>, at: int, args: Seq<Seq<char>>) -> Seq<char>
    decreases t.len() - at,
{
    if at < 0 || at >= t.len() {
        Seq::<char>::empty()
    } else {
        let n = placeholder_len(t, at);
        if n > 0 {
            args[placeholder_index(t, at) as int] + substitute_from(t, at + n, args)
        } else {
            seq![t[at]] + substitute_from(t, at + 1, args)
        }
    }
}

/// `t` with each placeholder replaced by the argument it names.
pub open spec fn substitute(t: Seq<char>, args: Seq<Seq<char>>) -> Seq<char> {
    substitute_from(t, 0, args)
}

/// Whether `c` is a single or a double quote.
pub open spec fn is_quote(c: char) -> bool {
    c == '"' || c == '\''
}

/// `t` without one layer of surrounding quotes: where it begins and ends with
/// the same quote character, both are dropped; any other text is unchanged.
pub open spec fn strip_quotes(t: Seq<char>) -> Seq<char> {
    if t.len() >= 2 && is_quote(t[0]) && t.last() == t[0] {
        t.subrange(1, t.len() - 1)
    } else {
        t
    }
}

/// The digit texts of the placeholders of `t` from `at` on, in the order in
/// which they stand, repeats included.
pub open spec fn names_from(t: Seq<char>, at: int) -> Seq<Seq<char>>
    decreases t.len() - at,
{
    if at < 0 || at >= t.len() {
        Seq::<Seq<char>>::empty()
    } else {
        let n = placeholder_len(t, at);
        if n > 0 {
            seq![placeholder_digits(t, at)] + names_from(t, at + n)
        } else {
            names_from(t, at + 1)
        }
    }
}

/// The digit texts of all placeholders of `t`.
pub open spec fn names(t: Seq<char>) -> Seq<Seq<char>> {
    names_from(t, 0)
}

/// A text without placeholders is its own expansion, whatever the arguments,
/// and leaves no placeholder without a value.
pub proof fn lemma_plain_text(t: Seq<char>, at: int, args: Seq<Seq<char>>, count: nat)
    requires
        0 <= at <= t.len(),
        names_from(t, at).len() == 0,
    ensures
        substitute_from(t, at, args) == t.skip(at),
        !unbound_from(t, at, count),
    decreases t.len() - at,
{
    if at < t.len() && placeholder_len(t, at) == 0 {
        lemma_plain_text(t, at + 1, args, count);
    }
}

fn digit_at(t: &Vec<char>, i: usize) -> (r: bool)
    ensures
        r == (i < t.len() && is_digit(t@[i as int])),
{
    i < t.len() && (t[i] as u32) >= 48 && (t[i] as u32) <= 57
}

/// Measures the placeholder that starts at `at`: its whole length, 0 where
/// none starts there.
pub fn measure(t: &Vec<char>, at: usize) -> (len: usize)
    requires
        at < t.len(),
    ensures
        len == placeholder_len(t@, at as int),
        at + len <= t.len(),
{
    if t.len() - at < 4 || t[at] != '$' || t[at + 1] != '{' {
        return 0;
    }
    let mut end: usize = at + 2;
    while digit_at(t, end)
        invariant
            at + 2 <= end <= t.len(),
            digit_run(t@, at + 2) == (end - (at + 2)) + digit_run(t@, end as int),
        decreases t.len() - end,
    {
        end += 1;
    }
    if end > at + 2 && end < t.len() && t[end] == '}' {
        end + 1 - at
    } else {
        0
    }
}

/// A run of digits ends inside the text.
pub proof fn lemma_run_bound(t: Seq<char>, from: int)
    requires
        0 <= from,
    ensures
        from + digit_run(t, from) <= t.len() || (from > t.len() && digit_run(t, from) == 0),
        forall|k: int| from <= k < from + digit_run(t, from) ==> is_digit(#[trigger] t[k]),
    decreases t.len() - from,
{
    if from < t.len() && is_digit(t[from]) {
        lemma_run_bound(t, from + 1);
    }
}

/// Reads the index that the digits `t[from..to]` write, where it is below
/// `limit`.
pub fn index_below(t: &Vec<char>, from: usize, to: usize, limit: usize) -> (r: Option<usize>)
    requires
        from <= to <= t.len(),
        forall|k: int| from <= k < to ==> is_digit(#[trigger] t@[k]),
    ensures
        match r {
            Some(i) => i == number(t@.subrange(from as int, to as int)) && i < limit,
            None => number(t@.subrange(from as int, to as int)) >= limit,
        },
{
    let ghost digits = t@.subrange(from as int, to as int);
    let mut value: u128 = 0;
    let mut i: usize = from;
    while i < to
        invariant
            from <= i <= to <= t.len(),
            digits == t@.subrange(from as int, to as int),
            forall|k: int| from <= k < to ==> is_digit(#[trigger] t@[k]),
            forall|k: int| 0 <= k < digits.len() ==> is_digit(#[trigger] digits[k]),
            value == number(digits.take(i - from)),
            value < limit || (i == from && value == 0),
        decreases to - i,
    {
        let d: u128 = ((t[i] as u32) - 48) as u128;
        proof {
            let longer = digits.take(i + 1 - from);
            assert(longer.drop_last() == digits.take(i - from));
        }
        value = value * 10 + d;
        i += 1;
        if value >= limit as u128 {
            proof {
                lemma_number_grows(digits, i - from);
            }
            return None;
        }
    }
    assert(digits.take(to - from) == digits);
    if value < limit as u128 {
        Some(value as usize)
    } else {
        None
    }
}

/// Replaces the placeholders of `token` by the arguments they name. Returns
/// `None` where a placeholder names an index that `arguments` does not have.
pub fn fill(token: &str, arguments: &Vec<String>) -> (r: Option<Vec<char>>)
    ensures
        match r {
            Some(out) => !has_unbound(token@, arguments@.len()) && out@ == substitute(
                token@,
                crate::text::views(arguments@),
            ),
            None => has_unbound(token@, arguments@.len()),
        },
{
    let t = chars_of(token);
    let ghost args = crate::text::views(arguments@);
    let mut out: Vec<char> = Vec::new();
    let mut i: usize = 0;
    while i < t.len()
        invariant
            i <= t.len(),
            t@ == token@,
            args == crate::text::views(arguments@),
            out@ + substitute_from(t@, i as int, args) == substitute(t@, args),
            unbound_from(t@, i as int, arguments@.len()) == has_unbound(t@, arguments@.len()),
        decreases t.len() - i,
    {
        let n = measure(&t, i);
        if n > 0 {
            proof {
                lemma_run_bound(t@, i + 2);
            }
            match index_below(&t, i + 2, i + n - 1, arguments.len()) {
                None => {
                    return None;
                },
                Some(index) => {
                    let mut value = chars_of(arguments[index].as_str());
                    out.append(&mut value);
                },
            }
            i += n;
        } else {
            out.push(t[i]);
            i += 1;
        }
    }
    Some(out)
}

/// The digit texts of the placeholders of `template`, in the order in which
/// they stand, repeats included.
pub fn placeholder_names(template: &str) -> (out: Vec<String>)
    ensures
        crate::text::views(out@) == names(template@),
{
    let t = chars_of(template);
    let mut out: Vec<String> = Vec::new();
    let mut i: usize = 0;
    while i < t.len()
        invariant
            i <= t.len(),
            t@ == template@,
            crate::text::views(out@) + names_from(t@, i as int) == names(t@),
        decreases t.len() - i,
    {
        let n = measure(&t, i);
        if n > 0 {
            let name = string_of(&t, i + 2, i + n - 1);
            out.push(name);
            i += n;
        } else {
            i += 1;
        }
    }
    out
}

/// Drops one layer of surrounding quotes from `t`.
pub fn unquote(t: &Vec<char>) -> (out: String)
    ensures
        out@ == strip_quotes(t@),
{
    let n = t.len();
    if n >= 2 && (t[0] == '"' || t[0] == '\'') && t[n - 1] == t[0] {
        string_of(t, 1, n - 1)
    } else {
        let out = string_of(t, 0, n);
        out
    }
}

} // verus!
