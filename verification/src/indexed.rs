//! Fields of the form `<name>[<index>]`.

use vstd::prelude::*;

use crate::text::{begins_with, chars_of, has_prefix, is_digit};

verus! {

/// The number that decimal digits spell.
pub open spec fn digits_value(digits: Seq<char>) -> nat
    decreases digits.len(),
{
    if digits.len() == 0 {
        0
    } else {
        digits_value(digits.drop_last()) * 10 + (digits.last() as nat - '0' as nat) as nat
    }
}

/// Every character is a decimal digit.
pub open spec fn all_digits(text: Seq<char>) -> bool {
    forall|i: int| 0 <= i < text.len() ==> is_digit(#[trigger] text[i])
}

/// The number that `digits` spell: at least one digit, nothing else, and no more than a machine
/// word holds.
pub open spec fn number_of(digits: Seq<char>) -> Option<usize> {
    if digits.len() > 0 && all_digits(digits) && digits_value(digits) <= usize::MAX {
        Some(digits_value(digits) as usize)
    } else {
        None
    }
}

/// The index that `text` spells: a number, with or without a plus sign before it.
pub open spec fn index_of_text(text: Seq<char>) -> Option<usize> {
    if text.len() > 0 && text[0] == '+' {
        number_of(text.drop_first())
    } else {
        number_of(text)
    }
}

/// The index in `field`, where `field` is `<name>[<index>]`.
pub open spec fn indexed(field: Seq<char>, name: Seq<char>) -> Option<usize> {
    let head = name.push('[');
    if begins_with(field, head) && field.len() > head.len() && field.last() == ']' {
        index_of_text(field.subrange(head.len() as int, field.len() - 1))
    } else {
        None
    }
}

/// The value of the digits of a longer text is no smaller than that of its beginning.
proof fn lemma_value_grows(digits: Seq<char>, n: int)
    requires
        0 <= n <= digits.len(),
        all_digits(digits),
    ensures
        digits_value(digits.take(n)) <= digits_value(digits),
    decreases digits.len() - n,
{
    if n == digits.len() {
        assert(digits.take(n) =~= digits);
    } else {
        lemma_value_grows(digits, n + 1);
        assert(digits.take(n + 1).drop_last() =~= digits.take(n));
    }
}

/// Reads the characters `from..to` of `chars` as an index.
fn parse_index(chars: &Vec<char>, from: usize, to: usize) -> (r: Option<usize>)
    requires
        from <= to <= chars.len(),
    ensures
        r == index_of_text(chars@.subrange(from as int, to as int)),
{
    let ghost text = chars@.subrange(from as int, to as int);
    let start: usize = if from < to && chars[from] == '+' {
        from + 1
    } else {
        from
    };
    let ghost digits = chars@.subrange(start as int, to as int);
    assert(index_of_text(text) == number_of(digits)) by {
        if text.len() > 0 && text[0] == '+' {
            assert(digits =~= text.drop_first());
        } else {
            assert(digits =~= text);
        }
    }
    if start == to {
        return None;
    }
    let mut value: usize = 0;
    let mut i: usize = start;
    assert(digits.take(0) =~= Seq::<char>::empty());
    while i < to
        invariant
            start <= i <= to <= chars.len(),
            digits == chars@.subrange(start as int, to as int),
            value == digits_value(digits.take(i - start)),
            forall|j: int| 0 <= j < i - start ==> is_digit(#[trigger] digits[j]),
            digits.len() > 0,
            index_of_text(chars@.subrange(from as int, to as int)) == number_of(digits),
        decreases to - i,
    {
        let c = chars[i];
        assert(digits[i - start] == c);
        if !('0' <= c && c <= '9') {
            return None;
        }
        let digit: usize = (c as u32 - '0' as u32) as usize;
        proof {
            assert(digits.take(i + 1 - start).drop_last() =~= digits.take(i - start));
            assert(digits.take(i + 1 - start).last() == c);
            if all_digits(digits) {
                lemma_value_grows(digits, i + 1 - start);
            }
        }
        if value > usize::MAX / 10 {
            return None;
        }
        let tens: usize = value * 10;
        if tens > usize::MAX - digit {
            return None;
        }
        value = tens + digit;
        i = i + 1;
    }
    assert(digits.take(to - start) =~= digits);
    Some(value)
}

/// Reads `<name>[<index>]`: the index, where the name is `name`.
pub fn parse_indexed(field: &str, name: &str) -> (r: Option<usize>)
    ensures
        r == indexed(field@, name@),
{
    let chars = chars_of(field);
    let mut head = name.to_owned();
    head.push('[');
    let count = chars_of(head.as_str()).len();
    if !has_prefix(&chars, head.as_str()) {
        return None;
    }
    if chars.len() <= count || chars[chars.len() - 1] != ']' {
        return None;
    }
    parse_index(&chars, count, chars.len() - 1)
}

/// The decimal digits of `n`, without leading zeros.
pub open spec fn decimal(n: nat) -> Seq<char>
    decreases n,
{
    let digit = ('0' as nat + n % 10) as char;
    if n < 10 {
        seq![digit]
    } else {
        decimal(n / 10).push(digit)
    }
}

proof fn lemma_decimal(n: nat)
    ensures
        decimal(n).len() > 0,
        all_digits(decimal(n)),
        digits_value(decimal(n)) == n,
    decreases n,
{
    let digit = ('0' as nat + n % 10) as char;
    assert(is_digit(digit));
    assert(digit as nat - '0' as nat == n % 10);
    if n < 10 {
        assert(decimal(n).drop_last() =~= Seq::<char>::empty());
        assert(digits_value(decimal(n).drop_last()) == 0);
    } else {
        lemma_decimal(n / 10);
        assert(decimal(n).drop_last() =~= decimal(n / 10));
        assert(decimal(n).last() == digit);
    }
}

/// Every index can be written: `<name>[N]` is read as `N`, whatever the name.
pub proof fn indexed_reads_every_index(name: Seq<char>, n: usize)
    ensures
        indexed(name.push('[') + decimal(n as nat) + "]"@, name) == Some(n),
{
    reveal_strlit("]");
    lemma_decimal(n as nat);
    let head = name.push('[');
    let field = head + decimal(n as nat) + "]"@;
    assert(field.take(head.len() as int) =~= head);
    assert(field.subrange(head.len() as int, field.len() - 1) =~= decimal(n as nat));
    assert(is_digit(decimal(n as nat)[0]));
}

/// A field without a number between its brackets, or with another name before them, has no index:
/// what has one is the name, an opening bracket, a plus sign or none, digits, at least one, and a
/// closing bracket.
pub proof fn indexed_fields_are_names_with_numbers(field: Seq<char>, name: Seq<char>)
    ensures
        indexed(field, name) is Some ==> exists|digits: Seq<char>|
            #![trigger digits.len()]
            digits.len() > 0 && (forall|i: int|
                0 <= i < digits.len() ==> '0' <= #[trigger] digits[i] <= '9') && (field == name
                + seq!['['] + digits + seq![']'] || field == name + seq!['[', '+'] + digits + seq![
                ']',
            ]),
{
    if indexed(field, name) is Some {
        let head = name.push('[');
        let text = field.subrange(head.len() as int, field.len() - 1);
        assert(field =~= head + text + seq![field.last()]) by {
            assert(field.take(head.len() as int) == head);
            assert(forall|i: int| 0 <= i < head.len() ==> field.take(head.len() as int)[i] == field[i]);
        }
        if text.len() > 0 && text[0] == '+' {
            let digits = text.drop_first();
            assert(digits.len() > 0);
            assert(forall|i: int| 0 <= i < digits.len() ==> is_digit(#[trigger] digits[i]));
            assert(field =~= name + seq!['[', '+'] + digits + seq![']']);
        } else {
            assert(text.len() > 0);
            assert(forall|i: int| 0 <= i < text.len() ==> is_digit(#[trigger] text[i]));
            assert(field =~= name + seq!['['] + text + seq![']']);
        }
    }
}

/// What lies between the brackets is read as a number.
proof fn lemma_indexed_text(name: Seq<char>, text: Seq<char>)
    ensures
        indexed(name + seq!['['] + text + seq![']'], name) == index_of_text(text),
{
    let head = name.push('[');
    let field = name + seq!['['] + text + seq![']'];
    assert(field.take(head.len() as int) =~= head);
    assert(field.subrange(head.len() as int, field.len() - 1) =~= text);
}

/// A single digit between the brackets is the index that it tells.
pub proof fn indexed_reads_a_digit(name: Seq<char>, digit: char)
    requires
        '0' <= digit <= '9',
    ensures
        indexed(name + seq!['[', digit, ']'], name) == Some((digit as int - '0' as int) as usize),
{
    let text = seq![digit];
    lemma_indexed_text(name, text);
    assert(name + seq!['['] + text + seq![']'] =~= name + seq!['[', digit, ']']);
    assert(text.drop_last() =~= Seq::<char>::empty());
    assert(digits_value(text.drop_last()) == 0);
    assert(all_digits(text));
}

/// One digit more behind the others makes the index ten times as large, and the digit more; there is
/// no index beyond what a machine word holds.
pub proof fn indexed_reads_one_digit_more(name: Seq<char>, digits: Seq<char>, digit: char)
    requires
        digits.len() > 0,
        forall|i: int| 0 <= i < digits.len() ==> '0' <= #[trigger] digits[i] <= '9',
        '0' <= digit <= '9',
    ensures
        ({
            let less = indexed(name + seq!['['] + digits + seq![']'], name);
            let more = indexed(name + seq!['['] + digits.push(digit) + seq![']'], name);
            let value = less->0 * 10 + (digit as int - '0' as int);
            &&& less is None ==> more is None
            &&& less is Some && value <= usize::MAX ==> more is Some && more->0 == value
            &&& less is Some && value > usize::MAX ==> more is None
        }),
{
    let longer = digits.push(digit);
    lemma_indexed_text(name, digits);
    lemma_indexed_text(name, longer);
    assert(longer.drop_last() =~= digits);
    assert(longer[0] == digits[0]);
    assert(all_digits(digits));
    assert(all_digits(longer));
}

/// A plus sign before the digits changes nothing.
pub proof fn indexed_takes_a_plus_sign(name: Seq<char>, digits: Seq<char>)
    requires
        forall|i: int| 0 <= i < digits.len() ==> '0' <= #[trigger] digits[i] <= '9',
    ensures
        indexed(name + seq!['[', '+'] + digits + seq![']'], name) == indexed(
            name + seq!['['] + digits + seq![']'],
            name,
        ),
{
    let signed = seq!['+'] + digits;
    lemma_indexed_text(name, digits);
    lemma_indexed_text(name, signed);
    assert(signed.drop_first() =~= digits);
    assert(name + seq!['['] + signed + seq![']'] =~= name + seq!['[', '+'] + digits + seq![']']);
}

} // verus!
