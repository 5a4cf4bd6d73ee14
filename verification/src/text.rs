//! Strings as sequences of characters: comparison, search and conversion.

use vstd::prelude::*;
use vstd::utf8::{encode_utf8, encode_utf8_decode_utf8};

verus! {

/// `String::push`: appends one character and leaves what was there before it.
pub assume_specification[ String::push ](text: &mut String, c: char)
    ensures
        final(text)@ == old(text)@.push(c),
;

/// The text of an optional string.
pub open spec fn opt_text(text: Option<String>) -> Option<Seq<char>> {
    match text {
        Some(t) => Some(t@),
        None => None,
    }
}

/// The text of an optional string slice.
pub open spec fn opt_str(text: Option<&str>) -> Option<Seq<char>> {
    match text {
        Some(t) => Some(t@),
        None => None,
    }
}

/// The texts of a list of strings, in its order.
pub open spec fn texts(list: Seq<String>) -> Seq<Seq<char>> {
    list.map_values(|s: String| s@)
}

/// `text` begins with `prefix`.
pub open spec fn begins_with(text: Seq<char>, prefix: Seq<char>) -> bool {
    prefix.len() <= text.len() && text.take(prefix.len() as int) == prefix
}

/// The characters of the Unicode property White_Space.
pub open spec fn is_white_space(c: char) -> bool {
    ||| '\u{9}' <= c <= '\u{d}'
    ||| c == ' '
    ||| c == '\u{85}'
    ||| c == '\u{a0}'
    ||| c == '\u{1680}'
    ||| '\u{2000}' <= c <= '\u{200a}'
    ||| c == '\u{2028}'
    ||| c == '\u{2029}'
    ||| c == '\u{202f}'
    ||| c == '\u{205f}'
    ||| c == '\u{3000}'
}

/// Nothing is left of `text` once white space is trimmed off.
pub open spec fn is_blank(text: Seq<char>) -> bool {
    forall|i: int| 0 <= i < text.len() ==> is_white_space(#[trigger] text[i])
}

/// An ASCII letter or digit.
pub open spec fn is_alphanumeric(c: char) -> bool {
    ||| 'a' <= c <= 'z'
    ||| 'A' <= c <= 'Z'
    ||| '0' <= c <= '9'
}

/// An ASCII digit.
pub open spec fn is_digit(c: char) -> bool {
    '0' <= c <= '9'
}

/// Whether `c` is an ASCII letter or digit.
pub(crate) fn alphanumeric(c: char) -> (r: bool)
    ensures
        r == is_alphanumeric(c),
{
    ('a' <= c && c <= 'z') || ('A' <= c && c <= 'Z') || ('0' <= c && c <= '9')
}

/// Whether `c` has the Unicode property White_Space.
pub(crate) fn white_space(c: char) -> (r: bool)
    ensures
        r == is_white_space(c),
{
    ('\u{9}' <= c && c <= '\u{d}') || c == ' ' || c == '\u{85}' || c == '\u{a0}' || c == '\u{1680}'
        || ('\u{2000}' <= c && c <= '\u{200a}') || c == '\u{2028}' || c == '\u{2029}' || c
        == '\u{202f}' || c == '\u{205f}' || c == '\u{3000}'
}

/// The characters of `text`, in order.
pub(crate) fn chars_of(text: &str) -> (r: Vec<char>)
    ensures
        r@ == text@,
{
    let mut r: Vec<char> = Vec::new();
    for c in it: text.chars()
        invariant
            r@ == it.seq().take(it.index() as int),
            it.seq() == text@,
    {
        r.push(c);
        assert(it.seq().take(it.index() as int).push(c) =~= it.seq().take(it.index() + 1));
    }
    assert(text@.take(text@.len() as int) =~= text@);
    r
}

/// The string made of the characters `from..to` of `chars`.
pub(crate) fn string_of(chars: &Vec<char>, from: usize, to: usize) -> (r: String)
    requires
        from <= to <= chars.len(),
    ensures
        r@ == chars@.subrange(from as int, to as int),
{
    let mut r = String::new();
    let mut i: usize = from;
    while i < to
        invariant
            from <= i <= to <= chars.len(),
            r@ == chars@.subrange(from as int, i as int),
        decreases to - i,
    {
        r.push(chars[i]);
        i = i + 1;
        assert(r@ =~= chars@.subrange(from as int, i as int));
    }
    r
}

/// Whether `text` is blank.
pub(crate) fn blank(text: &str) -> (r: bool)
    ensures
        r == is_blank(text@),
{
    let chars = chars_of(text);
    let mut i: usize = 0;
    while i < chars.len()
        invariant
            i <= chars.len(),
            chars@ == text@,
            forall|j: int| 0 <= j < i ==> is_white_space(#[trigger] text@[j]),
        decreases chars.len() - i,
    {
        if !white_space(chars[i]) {
            return false;
        }
        i = i + 1;
    }
    true
}

/// Whether the characters of `chars` begin with those of `prefix`.
pub(crate) fn has_prefix(chars: &Vec<char>, prefix: &str) -> (r: bool)
    ensures
        r == begins_with(chars@, prefix@),
{
    let head = chars_of(prefix);
    if head.len() > chars.len() {
        return false;
    }
    let mut i: usize = 0;
    while i < head.len()
        invariant
            i <= head.len() <= chars.len(),
            head@ == prefix@,
            forall|j: int| 0 <= j < i ==> chars@[j] == head@[j],
        decreases head.len() - i,
    {
        if chars[i] != head[i] {
            assert(chars@.take(head.len() as int)[i as int] != prefix@[i as int]);
            return false;
        }
        i = i + 1;
    }
    assert(chars@.take(head.len() as int) =~= prefix@);
    true
}

/// Equal encodings come from equal texts.
pub(crate) proof fn lemma_encoding_injective(a: Seq<char>, b: Seq<char>)
    ensures
        encode_utf8(a) == encode_utf8(b) ==> a == b,
{
    encode_utf8_decode_utf8(a);
    encode_utf8_decode_utf8(b);
}

/// Whether two texts are the same.
pub(crate) fn same_text(a: &str, b: &str) -> (r: bool)
    ensures
        r == (a@ == b@),
{
    proof {
        lemma_encoding_injective(a@, b@);
    }
    let x = a.as_bytes();
    let y = b.as_bytes();
    if x.len() != y.len() {
        return false;
    }
    let mut i: usize = 0;
    while i < x.len()
        invariant
            i <= x.len() == y.len(),
            x@ == encode_utf8(a@),
            y@ == encode_utf8(b@),
            forall|j: int| 0 <= j < i ==> x@[j] == y@[j],
        decreases x.len() - i,
    {
        if x[i] != y[i] {
            return false;
        }
        i = i + 1;
    }
    assert(x@ =~= y@);
    true
}

/// The text of an optional string is that of the string, where there is one.
pub proof fn optional_texts(text: Option<String>, slice: Option<&str>)
    ensures
        opt_text(text) is Some <==> text is Some,
        text is Some ==> opt_text(text)->0 == text->0@,
        opt_str(slice) is Some <==> slice is Some,
        slice is Some ==> opt_str(slice)->0 == slice->0@,
{
}

/// A list of texts has each text at the place of its string.
pub proof fn listed_texts(list: Seq<String>)
    ensures
        texts(list).len() == list.len(),
        forall|i: int| 0 <= i < list.len() ==> #[trigger] texts(list)[i] == list[i]@,
{
}

/// A text begins with a prefix if and only if it is the prefix with something behind it.
pub proof fn beginnings_of_texts(text: Seq<char>, prefix: Seq<char>)
    ensures
        begins_with(text, prefix) <==> exists|rest: Seq<char>| text == #[trigger] (prefix + rest),
{
    if begins_with(text, prefix) {
        assert(text =~= prefix + text.skip(prefix.len() as int));
    }
    assert forall|rest: Seq<char>| text == #[trigger] (prefix + rest) implies begins_with(
        text,
        prefix,
    ) by {
        assert(text.take(prefix.len() as int) =~= prefix);
    }
}

/// A text is blank if and only if it is made of white space alone: tab to carriage return, space,
/// and the spaces and separators of Unicode.
pub proof fn blank_texts(text: Seq<char>)
    ensures
        is_blank(text) <==> forall|i: int|
            0 <= i < text.len() ==> {
                let c = #[trigger] text[i];
                ||| '\u{9}' <= c <= '\u{d}'
                ||| c == ' '
                ||| c == '\u{85}'
                ||| c == '\u{a0}'
                ||| c == '\u{1680}'
                ||| '\u{2000}' <= c <= '\u{200a}'
                ||| c == '\u{2028}'
                ||| c == '\u{2029}'
                ||| c == '\u{202f}'
                ||| c == '\u{205f}'
                ||| c == '\u{3000}'
            },
{
}

} // verus!
