//! The name of a session and the time for which its credential may be cached.

use vstd::prelude::*;
use vstd::utf8::{encode_scalar, encode_utf8};

use crate::text::{alphanumeric, begins_with, chars_of, is_alphanumeric, opt_str, string_of};

verus! {

/// The most characters that STS takes in a session name.
pub const MAX_SESSION_NAME: usize = 64;

/// The fewest characters that STS takes in a session name.
pub const MIN_SESSION_NAME: usize = 2;

/// A character that STS takes in a session name: `[A-Za-z0-9_+=,.@-]`.
pub open spec fn is_session_char(c: char) -> bool {
    ||| is_alphanumeric(c)
    ||| c == '_'
    ||| c == '+'
    ||| c == '='
    ||| c == ','
    ||| c == '.'
    ||| c == '@'
    ||| c == '-'
}

/// What STS takes as a session name.
pub open spec fn is_session_name(text: Seq<char>) -> bool {
    &&& MIN_SESSION_NAME <= text.len() <= MAX_SESSION_NAME
    &&& forall|i: int| 0 <= i < text.len() ==> is_session_char(#[trigger] text[i])
}

/// What stands in a session name for the character `c`: the character itself, where STS takes it,
/// and else a hyphen for each of its bytes.
pub open spec fn stand_in(c: char) -> Seq<char> {
    if is_session_char(c) {
        seq![c]
    } else {
        Seq::new(encode_scalar(c as u32).len(), |i: int| '-')
    }
}

/// `text` with a hyphen for each byte of the characters that STS does not take.
pub open spec fn sanitised(text: Seq<char>) -> Seq<char>
    decreases text.len(),
{
    if text.len() == 0 {
        Seq::empty()
    } else {
        stand_in(text[0]) + sanitised(text.drop_first())
    }
}

/// `prefix` with a hyphen for each character that STS does not take.
pub open spec fn sanitised_prefix(prefix: Seq<char>) -> Seq<char> {
    prefix.map_values(
        |c: char|
            if is_session_char(c) {
                c
            } else {
                '-'
            },
    )
}

/// The text, where there is one that is not empty.
pub open spec fn given(text: Option<Seq<char>>) -> Option<Seq<char>> {
    if text is Some && text->0.len() > 0 {
        text
    } else {
        None
    }
}

/// The name before it is cut to length: the caller's subject, or `anonymous`, behind the prefix
/// and a hyphen where there is a prefix.
pub open spec fn full_session_name(subject: Option<Seq<char>>, prefix: Option<Seq<char>>) -> Seq<
    char,
> {
    let stamped = sanitised(
        match given(subject) {
            Some(text) => text,
            None => "anonymous"@,
        },
    );
    match given(prefix) {
        Some(text) => sanitised_prefix(text).push('-') + stamped,
        None => stamped,
    }
}

/// The session name of a caller.
pub open spec fn session_name_of(subject: Option<Seq<char>>, prefix: Option<Seq<char>>) -> Seq<
    char,
> {
    let full = full_session_name(subject, prefix);
    if full.len() > MAX_SESSION_NAME {
        full.take(MAX_SESSION_NAME as int)
    } else if full.len() < MIN_SESSION_NAME {
        "mcpg-session"@
    } else {
        full
    }
}

/// Whether STS takes `c` in a session name.
fn session_char(c: char) -> (r: bool)
    ensures
        r == is_session_char(c),
{
    alphanumeric(c) || c == '_' || c == '+' || c == '=' || c == ',' || c == '.' || c == '@' || c
        == '-'
}

/// The number of bytes of a character.
fn bytes_of(c: char) -> (r: usize)
    ensures
        r == encode_scalar(c as u32).len(),
{
    let code: u32 = c as u32;
    if code <= 0x7f {
        1
    } else if code <= 0x7ff {
        2
    } else if code <= 0xffff {
        3
    } else {
        4
    }
}

/// Adds the characters of `text` to `out`, with a hyphen for each byte of those that STS does not
/// take.
fn push_sanitised(out: &mut Vec<char>, text: &str)
    ensures
        final(out)@ == old(out)@ + sanitised(text@),
{
    let chars = chars_of(text);
    let ghost goal = out@ + sanitised(text@);
    let mut i: usize = 0;
    assert(text@.skip(0) =~= text@);
    while i < chars.len()
        invariant
            i <= chars.len(),
            chars@ == text@,
            out@ + sanitised(text@.skip(i as int)) == goal,
        decreases chars.len() - i,
    {
        let c = chars[i];
        let ghost start = out@;
        if session_char(c) {
            out.push(c);
        } else {
            let n = bytes_of(c);
            let mut k: usize = 0;
            while k < n
                invariant
                    k <= n,
                    out@ == start + Seq::new(k as nat, |j: int| '-'),
                decreases n - k,
            {
                out.push('-');
                k = k + 1;
                assert(out@ =~= start + Seq::new(k as nat, |j: int| '-'));
            }
        }
        assert(out@ =~= start + stand_in(c));
        assert(text@.skip(i as int).drop_first() =~= text@.skip(i + 1));
        assert(out@ + sanitised(text@.skip(i + 1)) =~= start + sanitised(text@.skip(i as int)));
        i = i + 1;
    }
    assert(out@ + sanitised(text@.skip(i as int)) =~= out@);
}

/// Adds the characters of the prefix `text` to `out`, with a hyphen for each that STS does not take.
fn push_prefix(out: &mut Vec<char>, text: &str)
    ensures
        final(out)@ == old(out)@ + sanitised_prefix(text@),
{
    let chars = chars_of(text);
    let ghost start = out@;
    let mut i: usize = 0;
    assert(out@ =~= start + sanitised_prefix(text@).take(0));
    while i < chars.len()
        invariant
            i <= chars.len(),
            chars@ == text@,
            out@ == start + sanitised_prefix(text@).take(i as int),
        decreases chars.len() - i,
    {
        let c = chars[i];
        let kept = if session_char(c) {
            c
        } else {
            '-'
        };
        out.push(kept);
        i = i + 1;
        assert(out@ =~= start + sanitised_prefix(text@).take(i as int));
    }
    assert(sanitised_prefix(text@).take(i as int) =~= sanitised_prefix(text@));
}

/// The name of the session in which a caller assumes a role, by which the caller's actions can be
/// told in CloudTrail: the caller's subject, behind the operator's prefix, in the characters and
/// the length that STS takes.
///
/// It attributes what is done and grants nothing: that is for the role's own policies.
pub fn session_name(subject: Option<&str>, prefix: Option<&str>) -> (r: String)
    ensures
        r@ == session_name_of(opt_str(subject), opt_str(prefix)),
        2 <= r@.len() <= 64,
        forall|i: int| 0 <= i < r@.len() ==> is_session_char(#[trigger] r@[i]),
{
    proof {
        session_names_suit_sts(opt_str(subject), opt_str(prefix));
    }
    let mut name: Vec<char> = Vec::new();
    if let Some(text) = prefix {
        if !text.is_empty() {
            push_prefix(&mut name, text);
            name.push('-');
        }
    }
    let ghost head = name@;
    let raw = match subject {
        Some(text) => if text.is_empty() {
            "anonymous"
        } else {
            text
        },
        None => "anonymous",
    };
    push_sanitised(&mut name, raw);
    assert(name@ =~= full_session_name(opt_str(subject), opt_str(prefix)));
    if name.len() > MAX_SESSION_NAME {
        string_of(&name, 0, MAX_SESSION_NAME)
    } else if name.len() < MIN_SESSION_NAME {
        "mcpg-session".to_owned()
    } else {
        let r = string_of(&name, 0, name.len());
        assert(name@.subrange(0, name.len() as int) =~= name@);
        r
    }
}

/// What is left of a subject after sanitising are characters that STS takes, as many as it has
/// bytes.
pub proof fn sanitising_leaves_one_character_a_byte(text: Seq<char>)
    ensures
        forall|i: int| 0 <= i < sanitised(text).len() ==> is_session_char(#[trigger] sanitised(text)[i]),
        sanitised(text).len() == encode_utf8(text).len(),
    decreases text.len(),
{
    if text.len() > 0 {
        let rest = text.drop_first();
        sanitising_leaves_one_character_a_byte(rest);
        let head = stand_in(text[0]);
        assert forall|i: int| 0 <= i < sanitised(text).len() implies is_session_char(
            #[trigger] sanitised(text)[i],
        ) by {
            if i >= head.len() {
                assert(sanitised(text)[i] == sanitised(rest)[i - head.len()]);
            }
        }
    }
}

/// A text of characters that STS takes is left as it is.
pub proof fn sanitising_leaves_good_texts_alone(text: Seq<char>)
    requires
        forall|i: int| 0 <= i < text.len() ==> is_session_char(#[trigger] text[i]),
    ensures
        sanitised(text) == text,
    decreases text.len(),
{
    if text.len() > 0 {
        let rest = text.drop_first();
        assert forall|i: int| 0 <= i < rest.len() implies is_session_char(#[trigger] rest[i]) by {
            assert(rest[i] == text[i + 1]);
        }
        sanitising_leaves_good_texts_alone(rest);
        assert(sanitised(text) =~= text);
    } else {
        assert(sanitised(text) =~= text);
    }
}

/// Every session name is one that STS takes.
pub proof fn session_names_suit_sts(subject: Option<Seq<char>>, prefix: Option<Seq<char>>)
    ensures
        is_session_name(session_name_of(subject, prefix)),
{
    reveal_strlit("mcpg-session");
    let full = full_session_name(subject, prefix);
    let raw = match given(subject) {
        Some(text) => text,
        None => "anonymous"@,
    };
    sanitising_leaves_one_character_a_byte(raw);
    if given(prefix) is Some {
        let head = sanitised_prefix(given(prefix)->0).push('-');
        assert forall|i: int| 0 <= i < full.len() implies is_session_char(#[trigger] full[i]) by {
            if i >= head.len() {
                assert(full[i] == sanitised(raw)[i - head.len()]);
            }
        }
    }
}

/// A subject that STS takes as it is names the session unchanged, where there is no prefix.
pub proof fn session_name_is_the_subject(subject: Seq<char>)
    requires
        is_session_name(subject),
    ensures
        session_name_of(Some(subject), None) == subject,
{
    sanitising_leaves_good_texts_alone(subject);
}

/// Every session name begins with the operator's prefix and a hyphen, as far as the length allows,
/// whoever the caller is.
pub proof fn session_name_begins_with_prefix(subject: Option<Seq<char>>, prefix: Seq<char>)
    requires
        0 < prefix.len() < MAX_SESSION_NAME,
    ensures
        begins_with(session_name_of(subject, Some(prefix)), sanitised_prefix(prefix).push('-')),
{
    reveal_strlit("anonymous");
    let head = sanitised_prefix(prefix).push('-');
    let name = session_name_of(subject, Some(prefix));
    let raw = match given(subject) {
        Some(text) => text,
        None => "anonymous"@,
    };
    assert(stand_in(raw[0]).len() >= 1);
    assert(name.take(head.len() as int) =~= head);
}

/// A prefix and a subject that make a name that STS takes stand in it unchanged, with a hyphen
/// between them.
pub proof fn session_name_keeps_prefix_and_subject(prefix: Seq<char>, subject: Seq<char>)
    requires
        0 < prefix.len(),
        0 < subject.len(),
        is_session_name(prefix.push('-') + subject),
    ensures
        session_name_of(Some(subject), Some(prefix)) == prefix.push('-') + subject,
{
    let full = prefix.push('-') + subject;
    assert forall|i: int| 0 <= i < prefix.len() implies is_session_char(#[trigger] prefix[i]) by {
        assert(full[i] == prefix[i]);
    }
    assert forall|i: int| 0 <= i < subject.len() implies is_session_char(#[trigger] subject[i]) by {
        assert(full[prefix.len() + 1 + i] == subject[i]);
    }
    assert(sanitised_prefix(prefix) =~= prefix);
    sanitising_leaves_good_texts_alone(subject);
}

/// A caller without a subject is `anonymous`, also where the subject is the empty text.
pub proof fn session_name_of_nobody(prefix: Option<Seq<char>>)
    ensures
        session_name_of(None, prefix) == session_name_of(Some("anonymous"@), prefix),
        session_name_of(Some(Seq::empty()), prefix) == session_name_of(None, prefix),
        session_name_of(None, None) == "anonymous"@,
{
    reveal_strlit("anonymous");
    sanitising_leaves_good_texts_alone("anonymous"@);
}

/// The cache time of a credential, in seconds.
pub open spec fn capped_ttl(expiry_secs: int, max_cache_ttl_ms: int) -> int {
    let cap = if max_cache_ttl_ms / 1000 > 1 {
        max_cache_ttl_ms / 1000
    } else {
        1
    };
    if cap < expiry_secs {
        cap
    } else {
        expiry_secs
    }
}

/// The time for which a credential may be cached, in seconds: what is left of the session, or the
/// operator's limit in milliseconds where that is less. A limit under a second counts as a second,
/// so that it never makes a credential expire at once.
pub fn cap_ttl_seconds(expiry_secs: u64, max_cache_ttl_ms: u64) -> (r: u64)
    ensures
        r == capped_ttl(expiry_secs as int, max_cache_ttl_ms as int),
        r <= expiry_secs,
        1000 <= max_cache_ttl_ms ==> r * 1000 <= max_cache_ttl_ms,
        max_cache_ttl_ms < 1000 ==> r <= 1,
        r < expiry_secs ==> 1 <= r && max_cache_ttl_ms < (r + 1) * 1000,
{
    let whole: u64 = max_cache_ttl_ms / 1000;
    let cap: u64 = if whole > 1 {
        whole
    } else {
        1
    };
    if cap < expiry_secs {
        cap
    } else {
        expiry_secs
    }
}

/// A credential is never cached beyond its session, nor beyond the operator's limit (with a second
/// as the least limit), and never for no time at all while the session lasts.
pub proof fn cache_outlives_nothing(expiry_secs: int, max_cache_ttl_ms: int)
    requires
        0 <= expiry_secs,
        0 <= max_cache_ttl_ms,
    ensures
        capped_ttl(expiry_secs, max_cache_ttl_ms) <= expiry_secs,
        1000 <= max_cache_ttl_ms ==> capped_ttl(expiry_secs, max_cache_ttl_ms) * 1000
            <= max_cache_ttl_ms,
        max_cache_ttl_ms < 1000 ==> capped_ttl(expiry_secs, max_cache_ttl_ms) <= 1,
        1 <= expiry_secs ==> 1 <= capped_ttl(expiry_secs, max_cache_ttl_ms),
{
}

/// A credential is cached for as long as its session and the operator's limit allow: where it is
/// given up before its session ends, another second would be beyond the limit.
pub proof fn cache_lasts_as_long_as_it_may(expiry_secs: int, max_cache_ttl_ms: int)
    requires
        0 <= expiry_secs,
        0 <= max_cache_ttl_ms,
    ensures
        capped_ttl(expiry_secs, max_cache_ttl_ms) < expiry_secs ==> max_cache_ttl_ms < (capped_ttl(
            expiry_secs,
            max_cache_ttl_ms,
        ) + 1) * 1000 && 1 <= capped_ttl(expiry_secs, max_cache_ttl_ms),
        expiry_secs * 1000 <= max_cache_ttl_ms ==> capped_ttl(expiry_secs, max_cache_ttl_ms)
            == expiry_secs,
{
}

/// More time left, or a longer limit, never shortens the cache time.
pub proof fn cache_time_grows_with_its_limits(
    expiry_secs: int,
    more_secs: int,
    max_cache_ttl_ms: int,
    more_ms: int,
)
    requires
        0 <= expiry_secs <= more_secs,
        0 <= max_cache_ttl_ms <= more_ms,
    ensures
        capped_ttl(expiry_secs, max_cache_ttl_ms) <= capped_ttl(more_secs, more_ms),
{
}

/// What STS takes as a session name: two to 64 characters, each an ASCII letter or digit or one of
/// `_+=,.@-`.
pub proof fn characters_of_session_names(c: char, name: Seq<char>)
    ensures
        is_session_char(c) <==> 'a' <= c <= 'z' || 'A' <= c <= 'Z' || '0' <= c <= '9' || c == '_' || c
            == '+' || c == '=' || c == ',' || c == '.' || c == '@' || c == '-',
        is_session_name(name) <==> 2 <= name.len() <= 64 && forall|i: int|
            0 <= i < name.len() ==> is_session_char(#[trigger] name[i]),
{
}

/// Sanitising goes character by character: what becomes of one part of a text has nothing to do
/// with the rest of it.
pub proof fn sanitising_goes_character_by_character(a: Seq<char>, b: Seq<char>)
    ensures
        sanitised(a + b) == sanitised(a) + sanitised(b),
    decreases a.len(),
{
    if a.len() == 0 {
        assert(a + b =~= b);
        assert(sanitised(a) + sanitised(b) =~= sanitised(b));
    } else {
        let rest = a.drop_first();
        sanitising_goes_character_by_character(rest, b);
        assert((a + b).drop_first() =~= rest + b);
        assert((a + b)[0] == a[0]);
        assert(stand_in(a[0]) + (sanitised(rest) + sanitised(b)) =~= stand_in(a[0]) + sanitised(
            rest,
        ) + sanitised(b));
    }
}

/// A character that STS takes stands for itself. Any other becomes hyphens, one for each byte that
/// it has in UTF-8.
pub proof fn sanitising_one_character(c: char)
    ensures
        is_session_char(c) ==> sanitised(seq![c]) == seq![c],
        !is_session_char(c) ==> (forall|i: int|
            0 <= i < sanitised(seq![c]).len() ==> #[trigger] sanitised(seq![c])[i] == '-'),
        !is_session_char(c) ==> sanitised(seq![c]).len() == if c <= '\u{7f}' {
            1nat
        } else if c <= '\u{7ff}' {
            2
        } else if c <= '\u{ffff}' {
            3
        } else {
            4
        },
{
    let text = seq![c];
    assert(text.drop_first() =~= Seq::<char>::empty());
    assert(sanitised(text) =~= stand_in(c) + sanitised(Seq::<char>::empty()));
    assert(sanitised(text) =~= stand_in(c));
}

proof fn lemma_ascii_stand_in(c: char)
    requires
        c <= '\u{7f}',
    ensures
        stand_in(c).len() == 1,
{
    assert(encode_scalar(c as u32).len() == 1);
}

/// An ASCII subject keeps its length, and at each place the character that stands there, where STS
/// takes it, and else a hyphen.
pub proof fn ascii_subjects_keep_their_places(text: Seq<char>)
    requires
        forall|i: int| 0 <= i < text.len() ==> #[trigger] text[i] <= '\u{7f}',
    ensures
        sanitised(text).len() == text.len(),
        forall|i: int|
            0 <= i < text.len() ==> #[trigger] sanitised(text)[i] == if is_session_char(text[i]) {
                text[i]
            } else {
                '-'
            },
    decreases text.len(),
{
    if text.len() > 0 {
        let rest = text.drop_first();
        assert forall|i: int| 0 <= i < rest.len() implies #[trigger] rest[i] <= '\u{7f}' by {
            assert(rest[i] == text[i + 1]);
        }
        ascii_subjects_keep_their_places(rest);
        assert(text[0] <= '\u{7f}');
        lemma_ascii_stand_in(text[0]);
        assert forall|i: int| 0 <= i < text.len() implies #[trigger] sanitised(text)[i]
            == if is_session_char(text[i]) {
            text[i]
        } else {
            '-'
        } by {
            if i > 0 {
                assert(sanitised(text)[i] == sanitised(rest)[i - 1]);
                assert(rest[i - 1] == text[i]);
            }
        }
    }
}

/// A prefix keeps its length, and at each place the character that stands there, where STS takes it,
/// and else a hyphen.
pub proof fn prefixes_keep_their_places(prefix: Seq<char>)
    ensures
        sanitised_prefix(prefix).len() == prefix.len(),
        forall|i: int|
            0 <= i < prefix.len() ==> #[trigger] sanitised_prefix(prefix)[i] == if is_session_char(
                prefix[i],
            ) {
                prefix[i]
            } else {
                '-'
            },
{
}

/// A session name is what becomes of the prefix, a hyphen and what becomes of the subject, one
/// behind the other, or of the subject alone where there is no prefix; the first 64 characters of
/// that where it is longer, and `mcpg-session` where it is under two. A caller without a subject
/// counts as `anonymous`.
pub proof fn session_names_spelled_out(subject: Option<Seq<char>>, prefix: Option<Seq<char>>)
    ensures
        ({
            let told = subject is Some && subject->0.len() > 0;
            let who = sanitised(
                if told {
                    subject->0
                } else {
                    "anonymous"@
                },
            );
            let whole = if prefix is Some && prefix->0.len() > 0 {
                sanitised_prefix(prefix->0) + seq!['-'] + who
            } else {
                who
            };
            let name = session_name_of(subject, prefix);
            &&& whole.len() > 64 ==> name == whole.take(64)
            &&& 2 <= whole.len() <= 64 ==> name == whole
            &&& whole.len() < 2 ==> name == "mcpg-session"@
        }),
{
    if given(prefix) is Some {
        let head = sanitised_prefix(prefix->0);
        assert(head.push('-') =~= head + seq!['-']);
    }
}

/// Callers whose subjects STS takes as they are have session names of their own: the name tells one
/// from the other.
pub proof fn session_names_tell_callers_apart(a: Seq<char>, b: Seq<char>)
    requires
        is_session_name(a),
        is_session_name(b),
        session_name_of(Some(a), None) == session_name_of(Some(b), None),
    ensures
        a == b,
{
    session_name_is_the_subject(a);
    session_name_is_the_subject(b);
}

} // verus!
