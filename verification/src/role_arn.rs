//! The shape of an IAM role ARN: `arn:<partition>:iam::<account>:role/<name>`.

use vstd::prelude::*;
use vstd::utf8::{encode_utf8, is_ascii_chars, is_ascii_chars_encode_utf8};

use crate::text::{alphanumeric, begins_with, chars_of, has_prefix, is_alphanumeric, is_digit};

verus! {

/// The most bytes that a role ARN may take.
pub const MAX_ROLE_ARN_BYTES: usize = 2048;

/// What lies between the colons of `text`: one segment more than there are colons.
pub open spec fn segments(text: Seq<char>) -> Seq<Seq<char>>
    decreases text.len(),
{
    if text.len() == 0 {
        seq![Seq::empty()]
    } else {
        let before = segments(text.drop_last());
        if text.last() == ':' {
            before.push(Seq::empty())
        } else {
            before.drop_last().push(before.last().push(text.last()))
        }
    }
}

/// A character of a partition: `[A-Za-z0-9-]`.
pub open spec fn is_partition_char(c: char) -> bool {
    is_alphanumeric(c) || c == '-'
}

/// A character of a role's path and name: `[A-Za-z0-9+=,.@_/-]`.
pub open spec fn is_role_name_char(c: char) -> bool {
    ||| is_alphanumeric(c)
    ||| c == '+'
    ||| c == '='
    ||| c == ','
    ||| c == '.'
    ||| c == '@'
    ||| c == '_'
    ||| c == '/'
    ||| c == '-'
}

/// A partition of AWS.
pub open spec fn is_partition(text: Seq<char>) -> bool {
    &&& text.len() > 0
    &&& forall|i: int| 0 <= i < text.len() ==> is_partition_char(#[trigger] text[i])
}

/// An account of AWS: twelve digits.
pub open spec fn is_account(text: Seq<char>) -> bool {
    &&& text.len() == 12
    &&& forall|i: int| 0 <= i < text.len() ==> is_digit(#[trigger] text[i])
}

/// The path and name of a role.
pub open spec fn is_role_name(text: Seq<char>) -> bool {
    &&& text.len() > 0
    &&& forall|i: int| 0 <= i < text.len() ==> is_role_name_char(#[trigger] text[i])
}

/// `text` is a well-formed IAM role ARN.
pub open spec fn is_role_arn(text: Seq<char>) -> bool {
    let parts = segments(text);
    &&& encode_utf8(text).len() <= MAX_ROLE_ARN_BYTES
    &&& parts.len() == 6
    &&& parts[0] == "arn"@
    &&& is_partition(parts[1])
    &&& parts[2] == "iam"@
    &&& parts[3].len() == 0
    &&& is_account(parts[4])
    &&& begins_with(parts[5], "role/"@)
    &&& is_role_name(parts[5].skip("role/"@.len() as int))
}

/// The role ARN of the given partition, account and role.
pub open spec fn role_arn_of(partition: Seq<char>, account: Seq<char>, role: Seq<char>) -> Seq<char> {
    "arn:"@ + partition + ":iam::"@ + account + ":role/"@ + role
}

/// The characters between the colons of `chars`.
fn split_at_colons(chars: &Vec<char>) -> (r: Vec<Vec<char>>)
    ensures
        r@.map_values(|part: Vec<char>| part@) == segments(chars@),
{
    let mut done: Vec<Vec<char>> = Vec::new();
    let mut part: Vec<char> = Vec::new();
    let mut i: usize = 0;
    assert(chars@.take(0).len() == 0);
    assert(done@.map_values(|p: Vec<char>| p@).push(part@) =~= segments(chars@.take(0)));
    while i < chars.len()
        invariant
            i <= chars.len(),
            done@.map_values(|p: Vec<char>| p@).push(part@) == segments(chars@.take(i as int)),
        decreases chars.len() - i,
    {
        let ghost seen = done@.map_values(|p: Vec<char>| p@);
        let ghost prior = part@;
        let c = chars[i];
        assert(chars@.take(i + 1).drop_last() =~= chars@.take(i as int));
        assert(chars@.take(i + 1).last() == c);
        assert(seen.push(prior).drop_last() =~= seen);
        if c == ':' {
            done.push(part);
            part = Vec::new();
            assert(done@.map_values(|p: Vec<char>| p@) =~= seen.push(prior));
            assert(part@ =~= Seq::<char>::empty());
        } else {
            part.push(c);
        }
        i = i + 1;
    }
    assert(chars@.take(i as int) =~= chars@);
    let ghost seen = done@.map_values(|p: Vec<char>| p@);
    let ghost prior = part@;
    done.push(part);
    assert(done@.map_values(|p: Vec<char>| p@) =~= seen.push(prior));
    done
}

/// Whether `chars` are those of `text`.
fn spells(chars: &Vec<char>, text: &str) -> (r: bool)
    ensures
        r == (chars@ == text@),
{
    let same = has_prefix(chars, text);
    assert(begins_with(chars@, text@) && chars@.len() == text@.len() ==> chars@ =~= text@) by {
        assert(chars@.take(chars@.len() as int) =~= chars@);
    }
    assert(chars@ == text@ ==> begins_with(chars@, text@)) by {
        assert(chars@.take(chars@.len() as int) =~= chars@);
    }
    let want = chars_of(text);
    same && chars.len() == want.len()
}

fn partition_shape(chars: &Vec<char>) -> (r: bool)
    ensures
        r == is_partition(chars@),
{
    let mut i: usize = 0;
    while i < chars.len()
        invariant
            i <= chars.len(),
            forall|j: int| 0 <= j < i ==> is_partition_char(#[trigger] chars@[j]),
        decreases chars.len() - i,
    {
        if !(alphanumeric(chars[i]) || chars[i] == '-') {
            return false;
        }
        i = i + 1;
    }
    chars.len() > 0
}

fn account_shape(chars: &Vec<char>) -> (r: bool)
    ensures
        r == is_account(chars@),
{
    let mut i: usize = 0;
    while i < chars.len()
        invariant
            i <= chars.len(),
            forall|j: int| 0 <= j < i ==> is_digit(#[trigger] chars@[j]),
        decreases chars.len() - i,
    {
        if !('0' <= chars[i] && chars[i] <= '9') {
            return false;
        }
        i = i + 1;
    }
    chars.len() == 12
}

/// Whether the characters of `chars` from `from` on are the path and name of a role.
fn role_name_shape(chars: &Vec<char>, from: usize) -> (r: bool)
    requires
        from <= chars.len(),
    ensures
        r == is_role_name(chars@.skip(from as int)),
{
    let mut i: usize = from;
    while i < chars.len()
        invariant
            from <= i <= chars.len(),
            forall|j: int| 0 <= j < i - from ==> is_role_name_char(#[trigger] chars@.skip(from as int)[j]),
        decreases chars.len() - i,
    {
        let c = chars[i];
        let fits = alphanumeric(c) || c == '+' || c == '=' || c == ',' || c == '.' || c == '@' || c
            == '_' || c == '/' || c == '-';
        assert(chars@.skip(from as int)[i - from] == c);
        if !fits {
            return false;
        }
        i = i + 1;
    }
    chars.len() > from
}

/// Whether `arn` is a well-formed IAM role ARN: six segments between colons, of which the first is
/// `arn`, the third `iam` and the fourth (the region) empty; a partition of letters, digits and
/// hyphens; an account of twelve digits; and `role/` before a path and name.
///
/// The ARN is handed to STS as it stands, so anything else is turned away before the call.
pub fn is_valid_role_arn(arn: &str) -> (r: bool)
    ensures
        r == is_role_arn(arn@),
{
    if arn.as_bytes().len() > MAX_ROLE_ARN_BYTES {
        return false;
    }
    let chars = chars_of(arn);
    let parts = split_at_colons(&chars);
    let ghost seen = parts@.map_values(|p: Vec<char>| p@);
    assert(seen == segments(arn@));
    assert(seen.len() == parts.len());
    if parts.len() != 6 {
        return false;
    }
    assert(forall|i: int| 0 <= i < 6 ==> seen[i] == parts@[i]@);
    proof {
        reveal_strlit("role/");
    }
    spells(&parts[0], "arn") && spells(&parts[2], "iam") && parts[3].len() == 0 && partition_shape(
        &parts[1],
    ) && account_shape(&parts[4]) && has_prefix(&parts[5], "role/") && role_name_shape(&parts[5], 5)
}

/// `text` holds no colon.
pub open spec fn colon_free(text: Seq<char>) -> bool {
    forall|i: int| 0 <= i < text.len() ==> #[trigger] text[i] != ':'
}

/// The segments with a colon between each two.
pub open spec fn joined(parts: Seq<Seq<char>>) -> Seq<char>
    decreases parts.len(),
{
    if parts.len() == 0 {
        Seq::empty()
    } else if parts.len() == 1 {
        parts[0]
    } else {
        joined(parts.drop_last()).push(':') + parts.last()
    }
}

/// The segments of a text, put together again with colons, are the text; none of them holds a
/// colon.
pub proof fn segments_join_to_the_text(text: Seq<char>)
    ensures
        segments(text).len() >= 1,
        joined(segments(text)) == text,
        forall|i: int| 0 <= i < segments(text).len() ==> colon_free(#[trigger] segments(text)[i]),
    decreases text.len(),
{
    let parts = segments(text);
    if text.len() == 0 {
        assert(parts[0] =~= text);
    } else {
        let before = segments(text.drop_last());
        segments_join_to_the_text(text.drop_last());
        assert(text =~= text.drop_last().push(text.last()));
        if text.last() == ':' {
            assert(parts.drop_last() =~= before);
            assert(joined(parts) =~= joined(before).push(':'));
        } else {
            assert(parts.drop_last() =~= before.drop_last());
            assert(parts.last() == before.last().push(text.last()));
            if before.len() == 1 {
                assert(joined(parts) == parts[0]);
                assert(before.last() == before[0]);
            } else {
                assert(joined(parts) =~= joined(before).push(text.last()));
            }
            assert forall|i: int| 0 <= i < parts.len() implies colon_free(#[trigger] parts[i]) by {
                if i < parts.len() - 1 {
                    assert(parts[i] == before[i]);
                } else {
                    assert(colon_free(before[before.len() - 1]));
                }
            }
        }
    }
}

/// A colon-free text is its own single segment, also behind a colon.
proof fn lemma_segments_of_next(text: Seq<char>, next: Seq<char>)
    requires
        colon_free(next),
    ensures
        segments(next) == seq![next],
        segments(text.push(':') + next) == segments(text).push(next),
    decreases next.len(),
{
    let whole = text.push(':') + next;
    if next.len() == 0 {
        assert(next =~= Seq::empty());
        assert(whole =~= text.push(':'));
        assert(whole.drop_last() =~= text);
    } else {
        lemma_segments_of_next(text, next.drop_last());
        assert(next =~= next.drop_last().push(next.last()));
        assert(next.last() == next[next.len() - 1]);
        assert(segments(next) =~= seq![next]);
        assert(whole.drop_last() =~= text.push(':') + next.drop_last());
        assert(whole.last() == next.last());
        assert(segments(text).push(next.drop_last()).drop_last() =~= segments(text));
        assert(segments(whole) =~= segments(text).push(next));
    }
}

/// What an ARN is made of has no colon in it.
proof fn lemma_pieces(partition: Seq<char>, account: Seq<char>, role: Seq<char>)
    requires
        is_partition(partition),
        is_account(account),
        is_role_name(role),
    ensures
        colon_free(partition),
        colon_free(account),
        colon_free("role/"@ + role),
        is_ascii_chars(role_arn_of(partition, account, role)),
        segments(role_arn_of(partition, account, role)) == seq![
            "arn"@,
            partition,
            "iam"@,
            Seq::empty(),
            account,
            "role/"@ + role,
        ],
{
    reveal_strlit("arn");
    reveal_strlit("arn:");
    reveal_strlit("iam");
    reveal_strlit(":iam::");
    reveal_strlit("role/");
    reveal_strlit(":role/");
    let resource = "role/"@ + role;
    assert forall|i: int| 0 <= i < resource.len() implies #[trigger] resource[i] != ':' by {
        if i >= 5 {
            assert(is_role_name_char(role[i - 5]));
        }
    }
    let text = role_arn_of(partition, account, role);
    assert forall|i: int| 0 <= i < text.len() implies '\0' <= #[trigger] text[i] <= '\u{7f}' by {
        let p = partition.len() as int;
        if 4 <= i < 4 + p {
            assert(is_partition_char(partition[i - 4]));
        } else if 10 + p <= i < 22 + p {
            assert(is_digit(account[i - 10 - p]));
        } else if 28 + p <= i {
            assert(is_role_name_char(role[i - 28 - p]));
        }
    }
    let one = "arn"@;
    let two = one.push(':') + partition;
    let three = two.push(':') + "iam"@;
    let four = three.push(':') + Seq::empty();
    let five = four.push(':') + account;
    let six = five.push(':') + resource;
    lemma_segments_of_next(one, one);
    lemma_segments_of_next(one, partition);
    lemma_segments_of_next(two, "iam"@);
    lemma_segments_of_next(three, Seq::empty());
    lemma_segments_of_next(four, account);
    lemma_segments_of_next(five, resource);
    assert(six =~= text);
    assert(segments(text) =~= seq![one, partition, "iam"@, Seq::empty(), account, resource]);
}

/// A text is a well-formed role ARN if and only if it is
/// `arn:<partition>:iam::<account>:role/<name>` for some partition, account and name, and no
/// longer than the limit.
pub proof fn role_arn_shape(text: Seq<char>)
    ensures
        is_role_arn(text) <==> text.len() <= MAX_ROLE_ARN_BYTES && exists|
            partition: Seq<char>,
            account: Seq<char>,
            role: Seq<char>,
        |
            is_partition(partition) && is_account(account) && is_role_name(role) && text
                == #[trigger] role_arn_of(partition, account, role),
{
    reveal_strlit("role/");
    if is_role_arn(text) {
        let parts = segments(text);
        let partition = parts[1];
        let account = parts[4];
        let role = parts[5].skip(5);
        segments_join_to_the_text(text);
        reveal_with_fuel(joined, 6);
        reveal_strlit("arn");
        reveal_strlit("arn:");
        reveal_strlit("iam");
        reveal_strlit(":iam::");
        reveal_strlit(":role/");
        assert(parts[5] =~= "role/"@ + role);
        let p2 = parts.take(2);
        let p3 = parts.take(3);
        let p4 = parts.take(4);
        let p5 = parts.take(5);
        assert(parts.drop_last() =~= p5);
        assert(p5.drop_last() =~= p4);
        assert(p4.drop_last() =~= p3);
        assert(p3.drop_last() =~= p2);
        assert(p2.drop_last() =~= seq![parts[0]]);
        assert(joined(p2) =~= parts[0].push(':') + parts[1]);
        assert(joined(p3) =~= joined(p2).push(':') + parts[2]);
        assert(joined(p4) =~= joined(p3).push(':') + parts[3]);
        assert(joined(p5) =~= joined(p4).push(':') + parts[4]);
        assert(joined(parts) =~= joined(p5).push(':') + parts[5]);
        assert(text =~= role_arn_of(partition, account, role));
        lemma_pieces(partition, account, role);
        is_ascii_chars_encode_utf8(text);
    }
    assert forall|partition: Seq<char>, account: Seq<char>, role: Seq<char>|
        is_partition(partition) && is_account(account) && is_role_name(role) && text
            == #[trigger] role_arn_of(partition, account, role) && text.len()
            <= MAX_ROLE_ARN_BYTES implies is_role_arn(text) by {
        lemma_pieces(partition, account, role);
        is_ascii_chars_encode_utf8(text);
        let parts = segments(text);
        assert(parts[5].take(5) =~= "role/"@);
        assert(parts[5].skip(5) =~= role);
    }
}

/// What a role ARN is made of: a partition is ASCII letters, digits and hyphens, at least one; an
/// account is twelve digits; a role is ASCII letters, digits and `+=,.@_/-`, at least one. They stand
/// behind `arn:`, `:iam::` and `:role/`, and 2048 bytes are the most that an ARN may take.
pub proof fn parts_of_role_arns(partition: Seq<char>, account: Seq<char>, role: Seq<char>)
    ensures
        is_partition(partition) <==> partition.len() > 0 && forall|i: int|
            0 <= i < partition.len() ==> {
                let c = #[trigger] partition[i];
                'a' <= c <= 'z' || 'A' <= c <= 'Z' || '0' <= c <= '9' || c == '-'
            },
        is_account(account) <==> account.len() == 12 && forall|i: int|
            0 <= i < 12 ==> '0' <= #[trigger] account[i] <= '9',
        is_role_name(role) <==> role.len() > 0 && forall|i: int|
            0 <= i < role.len() ==> {
                let c = #[trigger] role[i];
                'a' <= c <= 'z' || 'A' <= c <= 'Z' || '0' <= c <= '9' || c == '+' || c == '=' || c
                    == ',' || c == '.' || c == '@' || c == '_' || c == '/' || c == '-'
            },
        role_arn_of(partition, account, role) == "arn:"@ + partition + ":iam::"@ + account
            + ":role/"@ + role,
        MAX_ROLE_ARN_BYTES == 2048,
{
}

} // verus!
