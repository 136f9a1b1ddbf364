//! Text operations the rest of the crate is built on, each stated over the characters of a string.

use vstd::prelude::*;

verus! {

/// `String::push` appends one character to the end of the string.
pub assume_specification[ String::push ](text: &mut String, c: char)
    ensures
        final(text)@ == old(text)@.push(c),
;

/// `part` occurs in `text` with its first character at `at`.
pub open spec fn occurs_at(text: Seq<char>, part: Seq<char>, at: int) -> bool {
    &&& 0 <= at
    &&& at + part.len() <= text.len()
    &&& text.subrange(at, at + part.len()) == part
}

/// `part` occurs somewhere in `text`.
pub open spec fn occurs_in(text: Seq<char>, part: Seq<char>) -> bool {
    exists|at: int| occurs_at(text, part, at)
}

/// Alphabetical order by code point: `left` comes strictly before `right`.
pub open spec fn text_before(left: Seq<char>, right: Seq<char>) -> bool
    decreases left.len(),
{
    if right.len() == 0 {
        false
    } else if left.len() == 0 {
        true
    } else if left[0] != right[0] {
        left[0] < right[0]
    } else {
        text_before(left.drop_first(), right.drop_first())
    }
}

pub open spec fn is_digit(c: char) -> bool {
    '0' <= c <= '9'
}

/// The number that a run of decimal digits denotes, most significant digit first.
pub open spec fn digits_value(digits: Seq<char>) -> nat
    decreases digits.len(),
{
    if digits.len() == 0 {
        0
    } else {
        digits_value(digits.drop_last()) * 10 + (digits.last() as nat - '0' as nat) as nat
    }
}

/// A key without its leading `+`, where it has one.
pub open spec fn digits_of_key(key: Seq<char>) -> Seq<char> {
    if key.len() > 0 && key[0] == '+' {
        key.drop_first()
    } else {
        key
    }
}

/// A step index as it is written in a key: an optional `+`, then one or more decimal digits whose
/// value fits in 32 bits. Anything else denotes no index.
pub open spec fn index_of_key(key: Seq<char>) -> Option<u32> {
    let digits = digits_of_key(key);
    if digits.len() > 0 && (forall|i: int| 0 <= i < digits.len() ==> is_digit(#[trigger] digits[i]))
        && digits_value(digits) <= u32::MAX {
        Some(digits_value(digits) as u32)
    } else {
        None
    }
}

/// `n` in decimal, without leading zeros.
pub open spec fn decimal(n: nat) -> Seq<char>
    decreases n,
{
    if n < 10 {
        seq![('0' as nat + n) as char]
    } else {
        decimal(n / 10).push(('0' as nat + n % 10) as char)
    }
}

/// How many times `c` occurs in `text`.
pub open spec fn occurrences(text: Seq<char>, c: char) -> nat
    decreases text.len(),
{
    if text.len() == 0 {
        0
    } else {
        occurrences(text.drop_last(), c) + if text.last() == c {
            1nat
        } else {
            0nat
        }
    }
}

/// `text` with the first `limit` occurrences of `from` turned into `to`.
pub open spec fn with_first_replaced(
    text: Seq<char>,
    from: char,
    to: char,
    limit: nat,
) -> Seq<char> {
    Seq::new(
        text.len(),
        |i: int|
            if text[i] == from && occurrences(text.take(i), from) < limit {
                to
            } else {
                text[i]
            },
    )
}

/// The characters of `text`, in order.
pub fn chars_of(text: &str) -> (chars: Vec<char>)
    ensures
        chars@ == text@,
{
    let mut chars: Vec<char> = Vec::new();
    for c in it: text.chars()
        invariant
            it.seq() == text@,
            chars@ == text@.take(it.index()),
    {
        chars.push(c);
        assert(text@.take(it.index() + 1) =~= text@.take(it.index()).push(c));
    }
    assert(text@.take(text@.len() as int) =~= text@);
    chars
}

fn matches_at(text: &Vec<char>, part: &Vec<char>, at: usize) -> (found: bool)
    requires
        at + part.len() <= text.len(),
    ensures
        found == occurs_at(text@, part@, at as int),
{
    for i in 0..part.len()
        invariant
            at + part.len() <= text.len(),
            forall|k: int| 0 <= k < i ==> text[at + k] == part[k],
    {
        if text[at + i] != part[i] {
            assert(text@.subrange(at as int, at + part@.len())[i as int] != part@[i as int]);
            return false;
        }
    }
    assert(text@.subrange(at as int, at + part@.len()) =~= part@);
    true
}

/// Whether `text` begins with `prefix`.
pub fn starts_with(text: &str, prefix: &str) -> (found: bool)
    ensures
        found == occurs_at(text@, prefix@, 0),
{
    let text = chars_of(text);
    let prefix = chars_of(prefix);
    prefix.len() <= text.len() && matches_at(&text, &prefix, 0)
}

/// Whether `part` occurs anywhere in `text`.
pub fn contains(text: &str, part: &str) -> (found: bool)
    ensures
        found == occurs_in(text@, part@),
{
    let whole = chars_of(text);
    let wanted = chars_of(part);
    if wanted.len() > whole.len() {
        return false;
    }
    let last: usize = whole.len() - wanted.len();
    let mut at: usize = 0;
    while !matches_at(&whole, &wanted, at)
        invariant
            whole@ == text@,
            wanted@ == part@,
            at <= last,
            last + wanted.len() == whole.len(),
            forall|k: int| 0 <= k < at ==> !occurs_at(text@, part@, k),
        decreases last - at,
    {
        if at == last {
            return false;
        }
        at += 1;
    }
    true
}

/// Whether `left` comes strictly before `right`, comparing code points.
pub fn is_before(left: &str, right: &str) -> (before: bool)
    ensures
        before == text_before(left@, right@),
{
    let a = chars_of(left);
    let b = chars_of(right);
    let mut i: usize = 0;
    assert(a@.skip(0) =~= a@);
    assert(b@.skip(0) =~= b@);
    while i < a.len() && i < b.len()
        invariant
            a@ == left@,
            b@ == right@,
            i <= a.len(),
            i <= b.len(),
            text_before(left@, right@) == text_before(a@.skip(i as int), b@.skip(i as int)),
        decreases a.len() - i,
    {
        if a[i] != b[i] {
            return a[i] < b[i];
        }
        assert(a@.skip(i as int).drop_first() =~= a@.skip(i + 1));
        assert(b@.skip(i as int).drop_first() =~= b@.skip(i + 1));
        i += 1;
    }
    i < b.len()
}

/// Reads a step index out of a key.
pub fn parse_index(key: &str) -> (index: Option<u32>)
    ensures
        index == index_of_key(key@),
{
    let chars = chars_of(key);
    let start: usize = if chars.len() > 0 && chars[0] == '+' {
        1
    } else {
        0
    };
    let ghost digits = chars@.skip(start as int);
    assert(start == 0 ==> digits =~= key@);
    assert(start == 1 ==> digits =~= key@.drop_first());
    assert(digits == digits_of_key(key@));
    if start == chars.len() {
        return None;
    }
    let mut value: u32 = 0;
    let mut i: usize = start;
    assert(digits.take(0) =~= Seq::<char>::empty());
    while i < chars.len()
        invariant
            chars@ == key@,
            start < chars.len(),
            start <= i <= chars.len(),
            digits == chars@.skip(start as int),
            digits == digits_of_key(key@),
            forall|k: int| 0 <= k < i - start ==> is_digit(#[trigger] digits[k]),
            value == digits_value(digits.take(i - start)),
        ensures
            i == chars.len(),
        decreases chars.len() - i,
    {
        let c = chars[i];
        let ghost done = i - start;
        assert(digits[done] == c);
        if c < '0' || '9' < c {
            assert(!is_digit(digits[done]));
            return None;
        }
        let digit: u32 = c as u32 - '0' as u32;
        proof {
            assert(digits.take(done + 1).drop_last() =~= digits.take(done));
            assert(digits_value(digits.take(done + 1)) == value * 10 + digit);
        }
        if value > (u32::MAX - digit) / 10 {
            proof {
                assert(value * 10 + digit > u32::MAX);
                lemma_prefix_value(digits, done + 1);
            }
            return None;
        }
        value = value * 10 + digit;
        i += 1;
    }
    assert(digits.take(digits.len() as int) =~= digits);
    Some(value)
}

/// A longer run of digits never denotes a smaller number.
proof fn lemma_prefix_value(digits: Seq<char>, n: int)
    requires
        0 <= n <= digits.len(),
    ensures
        digits_value(digits.take(n)) <= digits_value(digits),
    decreases digits.len(),
{
    if n == digits.len() {
        assert(digits.take(n) =~= digits);
    } else {
        lemma_prefix_value(digits.drop_last(), n);
        assert(digits.drop_last().take(n) =~= digits.take(n));
    }
}

/// Writes `n` in decimal.
pub fn to_decimal(n: u32) -> (text: String)
    ensures
        text@ == decimal(n as nat),
    decreases n,
{
    let mut text = if n < 10 {
        String::new()
    } else {
        to_decimal(n / 10)
    };
    let digit: u8 = 48 + (n % 10) as u8;
    text.push(digit as char);
    assert(text@ =~= decimal(n as nat));
    text
}

/// Turns the first `limit` occurrences of `from` into `to`.
pub fn replace_first(text: &str, from: char, to: char, limit: usize) -> (replaced: String)
    ensures
        replaced@ == with_first_replaced(text@, from, to, limit as nat),
{
    let chars = chars_of(text);
    let mut replaced = String::new();
    let mut seen: usize = 0;
    for i in 0..chars.len()
        invariant
            chars@ == text@,
            seen <= i,
            seen == occurrences(text@.take(i as int), from),
            replaced@ == with_first_replaced(text@, from, to, limit as nat).take(i as int),
    {
        let c = chars[i];
        assert(text@.take(i + 1).drop_last() =~= text@.take(i as int));
        if c == from && seen < limit {
            replaced.push(to);
        } else {
            replaced.push(c);
        }
        if c == from {
            seen += 1;
        }
        assert(replaced@ =~= with_first_replaced(text@, from, to, limit as nat).take(i + 1));
    }
    assert(replaced@ =~= with_first_replaced(text@, from, to, limit as nat));
    replaced
}

proof fn lemma_decimal_reads_back(n: nat)
    ensures
        decimal(n).len() > 0,
        forall|i: int| 0 <= i < decimal(n).len() ==> is_digit(#[trigger] decimal(n)[i]),
        digits_value(decimal(n)) == n,
    decreases n,
{
    if n < 10 {
        assert(decimal(n).drop_last() =~= Seq::<char>::empty());
        assert(digits_value(decimal(n).drop_last()) == 0);
    } else {
        lemma_decimal_reads_back(n / 10);
        assert(decimal(n).drop_last() =~= decimal(n / 10));
    }
}

/// A step index written in decimal is read back as the same index, so a map of steps keyed by
/// decimal text keeps every index.
pub proof fn index_survives_its_key(index: u32)
    ensures
        index_of_key(decimal(index as nat)) == Some(index),
{
    lemma_decimal_reads_back(index as nat);
    assert(is_digit(decimal(index as nat)[0]));
}

/// No text comes before itself.
pub proof fn text_is_not_before_itself(text: Seq<char>)
    ensures
        !text_before(text, text),
    decreases text.len(),
{
    if text.len() > 0 {
        text_is_not_before_itself(text.drop_first());
    }
}

/// Of two texts, at most one comes before the other.
pub proof fn text_order_is_one_way(left: Seq<char>, right: Seq<char>)
    ensures
        !(text_before(left, right) && text_before(right, left)),
    decreases left.len(),
{
    if left.len() > 0 && right.len() > 0 {
        text_order_is_one_way(left.drop_first(), right.drop_first());
    }
}

} // verus!
