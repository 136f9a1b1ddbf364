//! What the text operations come down to, character by character.

use crate::text::{
    decimal, digits_of_key, digits_value, index_of_key, is_digit, occurrences, occurs_at, occurs_in,
    text_before, with_first_replaced,
};
use vstd::prelude::*;

verus! {

/// A part occurs at a place exactly where each of its characters stands there.
pub proof fn occurrence_shows_every_character(text: Seq<char>, part: Seq<char>, at: int)
    ensures
        occurs_at(text, part, at) <==> 0 <= at && at + part.len() <= text.len() && (forall|k: int|
            0 <= k < part.len() ==> text[at + k] == #[trigger] part[k]),
{
    if occurs_at(text, part, at) {
        assert forall|k: int| 0 <= k < part.len() implies text[at + k] == #[trigger] part[k] by {
            assert(text.subrange(at, at + part.len())[k] == part[k]);
        }
    }
    if 0 <= at && at + part.len() <= text.len() && (forall|k: int|
        0 <= k < part.len() ==> text[at + k] == #[trigger] part[k]) {
        assert(text.subrange(at, at + part.len()) =~= part);
    }
}

/// A text contains what it is put together from, and only that: where it contains a part, it is put
/// together from the part, something before it, and something behind it.
pub proof fn text_contains_what_it_is_made_of(
    text: Seq<char>,
    part: Seq<char>,
    before: Seq<char>,
    after: Seq<char>,
)
    ensures
        occurs_in(before + part + after, part),
        occurs_at(part + after, part, 0),
        occurs_in(text, part) ==> exists|b: Seq<char>, a: Seq<char>|
            text == #[trigger] (b + part + a),
        occurs_at(text, part, 0) ==> exists|a: Seq<char>| text == #[trigger] (part + a),
{
    let whole = before + part + after;
    let at = before.len() as int;
    assert(whole.subrange(at, at + part.len()) =~= part);
    assert(occurs_at(whole, part, at));
    assert((part + after).subrange(0, part.len() as int) =~= part);
    if occurs_in(text, part) {
        let at = choose|at: int| occurs_at(text, part, at);
        let b = text.subrange(0, at);
        let a = text.subrange(at + part.len(), text.len() as int);
        assert(text =~= b + text.subrange(at, at + part.len()) + a);
        assert(text == b + part + a);
    }
    if occurs_at(text, part, 0) {
        let a = text.subrange(part.len() as int, text.len() as int);
        assert(text =~= text.subrange(0, part.len() as int) + a);
        assert(text == part + a);
    }
}

/// The first character in which two texts differ decides which comes first; a text comes before any
/// longer one that begins with it.
pub proof fn first_difference_decides(
    common: Seq<char>,
    c: char,
    d: char,
    left: Seq<char>,
    right: Seq<char>,
)
    ensures
        c < d ==> text_before(common.push(c) + left, common.push(d) + right),
        text_before(common, common.push(d) + right),
    decreases common.len(),
{
    let l = common.push(c) + left;
    let r = common.push(d) + right;
    if common.len() > 0 {
        let rest = common.drop_first();
        first_difference_decides(rest, c, d, left, right);
        assert(l.drop_first() =~= rest.push(c) + left);
        assert(r.drop_first() =~= rest.push(d) + right);
    }
}

/// Of two different texts, one comes before the other.
pub proof fn text_order_is_total(left: Seq<char>, right: Seq<char>)
    ensures
        left == right || text_before(left, right) || text_before(right, left),
    decreases left.len(),
{
    if left.len() > 0 && right.len() > 0 && left[0] == right[0] {
        text_order_is_total(left.drop_first(), right.drop_first());
        if left.drop_first() == right.drop_first() {
            assert(left =~= seq![left[0]] + left.drop_first());
            assert(right =~= seq![right[0]] + right.drop_first());
        }
    } else if left.len() == 0 && right.len() == 0 {
        assert(left =~= right);
    }
}

/// A number below ten is one digit, and a larger one is written as its tenth followed by its last
/// digit.
pub proof fn decimal_grows_by_digits(tens: nat, digit: nat)
    requires
        digit < 10,
    ensures
        decimal(digit) == seq![(48 + digit) as char],
        tens > 0 ==> decimal(10 * tens + digit) == decimal(tens).push((48 + digit) as char),
{
}

/// A single decimal digit, with or without a plus sign, denotes its value; no text and a lone plus
/// sign denote nothing.
pub proof fn digit_denotes_its_value(c: char)
    requires
        '0' <= c <= '9',
    ensures
        index_of_key(seq![c]) == Some((c as u32 - 48) as u32),
        index_of_key(seq!['+', c]) == Some((c as u32 - 48) as u32),
        index_of_key(Seq::empty()) is None,
        index_of_key(seq!['+']) is None,
{
    let one = seq![c];
    assert(digits_of_key(one) == one);
    assert(digits_of_key(seq!['+', c]) =~= one);
    assert(one.drop_last() =~= Seq::<char>::empty());
    assert(digits_value(one.drop_last()) == 0);
    assert(digits_value(one) == c as nat - 48);
    assert(digits_of_key(seq!['+']) =~= Seq::<char>::empty());
}

/// Another character behind a key makes it denote nothing unless it is a decimal digit. Another
/// digit makes it denote ten times as much and the digit, as long as that fits in 32 bits, and a key
/// that denotes nothing still denotes nothing.
pub proof fn key_grows_by_digits(key: Seq<char>, c: char)
    requires
        key.len() > 0,
        key != seq!['+'],
    ensures
        !('0' <= c <= '9') ==> index_of_key(key.push(c)) is None,
        '0' <= c <= '9' ==> (match index_of_key(key) {
            None => index_of_key(key.push(c)) is None,
            Some(index) => {
                let value = index * 10 + (c as int - 48);
                if value <= u32::MAX {
                    index_of_key(key.push(c)) == Some(value as u32)
                } else {
                    index_of_key(key.push(c)) is None
                }
            },
        }),
{
    let digits = digits_of_key(key);
    let longer = digits_of_key(key.push(c));
    assert(longer =~= digits.push(c));
    assert(digits.len() > 0) by {
        if digits.len() == 0 {
            assert(key =~= seq!['+']);
        }
    }
    assert(longer.drop_last() =~= digits);
    assert(longer[digits.len() as int] == c);
    assert(forall|i: int| 0 <= i < digits.len() ==> longer[i] == digits[i]);
    if '0' <= c <= '9' {
        assert(digits_value(longer) == digits_value(digits) * 10 + (c as int - 48));
        if forall|i: int| 0 <= i < digits.len() ==> is_digit(#[trigger] digits[i]) {
            assert(forall|i: int|
                0 <= i < longer.len() ==> is_digit(#[trigger] longer[i]));
        } else {
            let i = choose|i: int|
                0 <= i < digits.len() && !is_digit(#[trigger] digits[i]);
            assert(!is_digit(longer[i]));
        }
    } else {
        assert(!is_digit(longer[digits.len() as int]));
    }
}

proof fn lemma_no_occurrences(text: Seq<char>, c: char)
    requires
        forall|i: int| 0 <= i < text.len() ==> #[trigger] text[i] != c,
    ensures
        occurrences(text, c) == 0,
    decreases text.len(),
{
    if text.len() > 0 {
        assert(forall|i: int|
            0 <= i < text.len() - 1 ==> #[trigger] text.drop_last()[i] == text[i]);
        assert(text[text.len() - 1] != c);
        lemma_no_occurrences(text.drop_last(), c);
    }
}

proof fn lemma_occurrences_add_up(left: Seq<char>, right: Seq<char>, c: char)
    ensures
        occurrences(left + right, c) == occurrences(left, c) + occurrences(right, c),
    decreases right.len(),
{
    if right.len() == 0 {
        assert(left + right =~= left);
    } else {
        assert((left + right).drop_last() =~= left + right.drop_last());
        lemma_occurrences_add_up(left, right.drop_last(), c);
    }
}

/// A text without the character to replace stays as it is, and so does every text where nothing is
/// to be replaced.
pub proof fn nothing_is_replaced(text: Seq<char>, from: char, to: char, limit: nat)
    requires
        limit == 0 || (forall|i: int| 0 <= i < text.len() ==> #[trigger] text[i] != from),
    ensures
        with_first_replaced(text, from, to, limit) == text,
{
    assert(with_first_replaced(text, from, to, limit) =~= text);
}

/// The first occurrence is replaced where any is to be, and what comes behind it has one replacement
/// fewer.
pub proof fn first_occurrence_is_replaced(
    before: Seq<char>,
    after: Seq<char>,
    from: char,
    to: char,
    limit: nat,
)
    requires
        limit > 0,
        forall|i: int| 0 <= i < before.len() ==> #[trigger] before[i] != from,
    ensures
        with_first_replaced(before.push(from) + after, from, to, limit) == before.push(to)
            + with_first_replaced(after, from, to, (limit - 1) as nat),
{
    let text = before.push(from) + after;
    let left = with_first_replaced(text, from, to, limit);
    let right = before.push(to) + with_first_replaced(after, from, to, (limit - 1) as nat);
    lemma_no_occurrences(before, from);
    assert(before.push(from).drop_last() =~= before);
    assert forall|i: int| 0 <= i < text.len() implies left[i] == right[i] by {
        if i < before.len() {
            assert(text[i] == before[i]);
        } else if i == before.len() {
            assert(text.take(i) =~= before);
        } else {
            let n = i - before.len() - 1;
            assert(text.take(i) =~= before.push(from) + after.take(n));
            lemma_occurrences_add_up(before.push(from), after.take(n), from);
            assert(text[i] == after[n]);
        }
    }
    assert(left =~= right);
}

} // verus!
