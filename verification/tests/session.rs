use credential_aws_sts::session::{cap_ttl_seconds, session_name};

fn suits_sts(name: &str) -> bool {
    (2..=64).contains(&name.len())
        && name
            .chars()
            .all(|c| c.is_ascii_alphanumeric() || matches!(c, '_' | '+' | '=' | ',' | '.' | '@' | '-'))
}

#[test]
fn cap_ttl_clamps_long_session() {
    assert_eq!(cap_ttl_seconds(3600, 60_000), 60);
}

#[test]
fn cap_ttl_uses_session_when_below_cap() {
    assert_eq!(cap_ttl_seconds(45, 3_600_000), 45);
}

#[test]
fn cap_ttl_sub_second_cap_floors_to_one() {
    assert_eq!(cap_ttl_seconds(3600, 500), 1);
}

#[test]
fn cap_ttl_at_the_edges() {
    assert_eq!(cap_ttl_seconds(0, 60_000), 0);
    assert_eq!(cap_ttl_seconds(1, 1), 1);
    assert_eq!(cap_ttl_seconds(10, 0), 1);
    assert_eq!(cap_ttl_seconds(10, 1_999), 1);
    assert_eq!(cap_ttl_seconds(10, 2_000), 2);
    assert_eq!(cap_ttl_seconds(u64::MAX, u64::MAX), u64::MAX / 1000);
}

#[test]
fn session_name_sanitises_and_prefixes() {
    // disallowed chars (`:` `/`) become `-`.
    let n = session_name(Some("arn:aws:iam::1:role/x"), Some("mcpg"));
    assert!(n.starts_with("mcpg-"));
    assert!(
        n.chars().all(|c| c.is_ascii_alphanumeric()
            || matches!(c, '_' | '+' | '=' | ',' | '.' | '@' | '-'))
    );
}

#[test]
fn session_name_handles_anonymous_and_length() {
    let n = session_name(None, None);
    assert_eq!(n, "anonymous");
    let long = "u".repeat(200);
    let n = session_name(Some(&long), Some("p"));
    assert!(n.len() <= 64);
    assert!(n.len() >= 2);
}

#[test]
fn session_name_degenerate_falls_back() {
    // A single-char subject with no prefix would be < 2 chars.
    let n = session_name(Some("a"), None);
    assert_eq!(n, "mcpg-session");
}

#[test]
fn session_name_in_full() {
    assert_eq!(
        session_name(Some("arn:aws:iam::1:role/x"), Some("mcpg")),
        "mcpg-arn-aws-iam--1-role-x"
    );
    assert_eq!(session_name(Some("ann@example.com"), None), "ann@example.com");
    assert_eq!(session_name(Some("ann"), Some("a b")), "a-b-ann");
    assert_eq!(session_name(Some(""), Some("")), "anonymous");
    assert_eq!(session_name(Some("a"), Some("p")), "p-a");
    assert_eq!(session_name(None, Some("p")), "p-anonymous");
    // one hyphen for each byte of a character
    assert_eq!(session_name(Some("\u{e9}a"), None), "--a");
    assert_eq!(session_name(Some("b\u{f6}b \u{2603}"), None), "b--b----");
    assert_eq!(session_name(Some("\u{1f600}"), Some("\u{7ff}")), "------");
    // in the prefix, one hyphen for each character
    assert_eq!(session_name(Some("a"), Some("\u{e9}")), "--a");
    assert_eq!(session_name(Some("a"), Some("x\u{2603}y")), "x-y-a");
    assert_eq!(session_name(Some("\u{e9}"), None), "--");
    assert_eq!(session_name(Some("/"), None), "mcpg-session");
}

#[test]
fn sanitised_names_are_as_long_as_the_subject_in_bytes() {
    for c in ["\u{7f}", "\u{80}", "\u{7ff}", "\u{800}", "\u{ffff}", "\u{10000}", "\u{10ffff}"] {
        let subject = format!("x{c}y");
        assert_eq!(
            session_name(Some(&subject), None),
            format!("x{}y", "-".repeat(c.len()))
        );
    }
}

#[test]
fn session_name_is_cut_at_its_end() {
    let long = "u".repeat(200);
    assert_eq!(session_name(Some(&long), None), "u".repeat(64));
    assert_eq!(session_name(Some(&long), Some("p")), format!("p-{}", "u".repeat(62)));
    assert_eq!(session_name(Some("ann"), Some(&long)), "u".repeat(64));
    let exact = "x".repeat(64);
    assert_eq!(session_name(Some(&exact), None), exact);
}

#[test]
fn session_names_always_suit_sts() {
    let long = "\u{2603}".repeat(100);
    for subject in [None, Some(""), Some("a"), Some("\u{2603}"), Some("a b"), Some(long.as_str())] {
        for prefix in [None, Some(""), Some("p"), Some("/"), Some(long.as_str())] {
            assert!(suits_sts(&session_name(subject, prefix)), "{subject:?} {prefix:?}");
        }
    }
}
