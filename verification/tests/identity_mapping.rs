use credential_aws_sts::identity_mapping::{
    expand, resolve_field, resolve_role, substitute, PluginIdentity, Resolution, TemplateFault,
};
use credential_aws_sts::indexed::parse_indexed;
use credential_aws_sts::name_map::NameMap;
use credential_aws_sts::{IdentityMapping, TargetConfig};

const ARN_A: &str = "arn:aws:iam::123456789012:role/team-a";
const ARN_B: &str = "arn:aws:iam::123456789012:role/team-b";

fn ident(subject: Option<&str>) -> PluginIdentity {
    let mut attrs = NameMap::new();
    attrs.insert("team".into(), "team-a".into());
    PluginIdentity {
        kind: "verified".into(),
        trust_level: "verified".into(),
        subject_id: subject.map(|s| s.to_owned()),
        auth_provider: Some("okta".into()),
        issuer: Some("https://okta.example.com".into()),
        roles: vec![ARN_A.into(), ARN_B.into()],
        groups: vec!["sec".into()],
        scopes: vec![],
        attributes: attrs,
    }
}

fn target(mapping: IdentityMapping, role_arn: &str, template: Option<&str>) -> TargetConfig {
    TargetConfig {
        role_arn: role_arn.into(),
        identity_mapping: mapping,
        role_arn_template: template.map(|s| s.to_owned()),
        allowed_role_arns: None,
        session_name_prefix: None,
        external_id: None,
        session_policy: None,
        duration_seconds: None,
        max_cache_ttl_ms: 60_000,
    }
}

fn assert_role(r: &Resolution, want: &str, want_derived: bool) {
    match r {
        Resolution::Role {
            arn,
            identity_derived,
        } => {
            assert_eq!(arn, want, "arn");
            assert_eq!(*identity_derived, want_derived, "identity_derived");
        }
        other => panic!("expected Role, got {other:?}"),
    }
}

fn assert_failed(r: &Resolution, want: &str) {
    match r {
        Resolution::SubstitutionFailed { field } => assert_eq!(field, want),
        other => panic!("expected SubstitutionFailed, got {other:?}"),
    }
}

#[test]
fn static_returns_configured_arn_not_derived() {
    let r = resolve_role(
        &ident(Some("x")),
        &target(IdentityMapping::Static, ARN_A, None),
    );
    assert_role(&r, ARN_A, false);
}

#[test]
fn subject_id_returns_caller_subject_derived() {
    let r = resolve_role(
        &ident(Some(ARN_B)),
        &target(IdentityMapping::SubjectId, ARN_A, None),
    );
    assert_role(&r, ARN_B, true);
}

#[test]
fn subject_id_falls_back_when_anonymous_not_derived() {
    let r = resolve_role(
        &ident(None),
        &target(IdentityMapping::SubjectId, ARN_A, None),
    );
    assert_role(&r, ARN_A, false);
    let r = resolve_role(
        &ident(Some("")),
        &target(IdentityMapping::SubjectId, ARN_A, None),
    );
    assert_role(&r, ARN_A, false);
}

#[test]
fn subject_id_empty_derived_without_fallback() {
    let r = resolve_role(&ident(None), &target(IdentityMapping::SubjectId, "", None));
    assert!(matches!(r, Resolution::EmptyDerived { .. }));
    match r {
        Resolution::EmptyDerived { reason } => assert_eq!(
            reason,
            "identity has no subject_id and no static fallback role_arn"
        ),
        other => panic!("{other:?}"),
    }
}

#[test]
fn from_role_returns_first_role_derived() {
    let r = resolve_role(
        &ident(Some("x")),
        &target(IdentityMapping::FromRole, ARN_A, None),
    );
    assert_role(&r, ARN_A, true);
}

#[test]
fn from_role_falls_back_without_a_first_role() {
    let mut caller = ident(Some("x"));
    caller.roles = vec!["".into(), ARN_B.into()];
    let r = resolve_role(&caller, &target(IdentityMapping::FromRole, ARN_A, None));
    assert_role(&r, ARN_A, false);
    caller.roles = vec![];
    let r = resolve_role(&caller, &target(IdentityMapping::FromRole, ARN_A, None));
    assert_role(&r, ARN_A, false);
    match resolve_role(&caller, &target(IdentityMapping::FromRole, "", None)) {
        Resolution::EmptyDerived { reason } => assert_eq!(
            reason,
            "identity has no roles and no static fallback role_arn"
        ),
        other => panic!("{other:?}"),
    }
}

#[test]
fn template_substitutes_attribute_derived() {
    let r = resolve_role(
        &ident(Some("x")),
        &target(
            IdentityMapping::Template,
            "",
            Some("arn:aws:iam::123456789012:role/${identity.attributes.team}"),
        ),
    );
    assert_role(&r, ARN_A, true);
}

#[test]
fn template_substitution_failure_surfaces_field() {
    let r = resolve_role(
        &ident(None),
        &target(
            IdentityMapping::Template,
            "",
            Some("arn:aws:iam::123456789012:role/${identity.subject_id}"),
        ),
    );
    match r {
        Resolution::SubstitutionFailed { field } => assert_eq!(field, "subject_id"),
        other => panic!("{other:?}"),
    }
}

#[test]
fn template_falls_back_without_a_usable_value() {
    let template = "arn:aws:iam::123456789012:role/${identity.subject_id}";
    // the field is missing, or empty
    for subject in [None, Some("")] {
        let r = resolve_role(
            &ident(subject),
            &target(IdentityMapping::Template, ARN_A, Some(template)),
        );
        assert_role(&r, ARN_A, false);
        let r = resolve_role(
            &ident(subject),
            &target(IdentityMapping::Template, "", Some(template)),
        );
        assert_failed(&r, "subject_id");
    }
    let r = resolve_role(
        &ident(Some("x")),
        &target(IdentityMapping::Template, ARN_A, Some(template)),
    );
    assert_role(&r, "arn:aws:iam::123456789012:role/x", true);
    // there is nothing to fill
    for template in [None, Some("")] {
        let r = resolve_role(&ident(None), &target(IdentityMapping::Template, ARN_A, template));
        assert_role(&r, ARN_A, false);
        match resolve_role(&ident(None), &target(IdentityMapping::Template, "", template)) {
            Resolution::EmptyDerived { reason } => {
                assert_eq!(reason, "template substitution produced an empty role ARN")
            }
            other => panic!("{other:?}"),
        }
    }
}

#[test]
fn unknown_field_does_not_fall_back() {
    for field in ["subject", "issuer", "roles", "roles[]", "roles[x]", "role[0]", "attributes", ""] {
        let template = format!("${{identity.{field}}}");
        let r = resolve_role(
            &ident(Some("x")),
            &target(IdentityMapping::Template, ARN_A, Some(template.as_str())),
        );
        assert_failed(&r, field);
    }
    // fields that there are, without a value
    for field in ["subject_id", "auth_provider", "attributes.none", "attributes.", "roles[2]", "groups[1]", "scopes[0]"] {
        let template = format!("${{identity.{field}}}");
        let mut caller = ident(None);
        caller.auth_provider = None;
        let r = resolve_role(
            &caller,
            &target(IdentityMapping::Template, ARN_A, Some(template.as_str())),
        );
        assert_role(&r, ARN_A, false);
    }
    let mut caller = ident(None);
    caller.kind = "".into();
    caller.trust_level = "".into();
    for template in ["${identity.kind}", "${identity.trust_level}"] {
        let r = resolve_role(&caller, &target(IdentityMapping::Template, ARN_A, Some(template)));
        assert_role(&r, ARN_A, false);
    }
}

#[test]
fn open_placeholder_does_not_fall_back() {
    let r = resolve_role(
        &ident(Some("x")),
        &target(IdentityMapping::Template, ARN_A, Some("${identity.subject_id")),
    );
    assert_failed(&r, "unterminated placeholder `${identity.subject_id`");
    assert!(matches!(
        expand("a${b", &ident(None)),
        Err(TemplateFault::Unterminated { placeholder }) if placeholder == "b"
    ));
    assert!(matches!(
        expand("a${b}", &ident(None)),
        Err(TemplateFault::NoValue { field }) if field == "b"
    ));
    assert!(matches!(expand("a${kind}", &ident(None)), Ok(text) if text == "averified"));
}

#[test]
fn template_in_many_shapes() {
    let caller = ident(Some("ann"));
    for (template, want) in [
        ("plain", "plain"),
        ("${identity.subject_id}", "ann"),
        ("${subject_id}", "ann"),
        ("a-${identity.kind}-${identity.trust_level}", "a-verified-verified"),
        ("${identity.auth_provider}${identity.groups[0]}", "oktasec"),
        ("${identity.roles[1]}!", "arn:aws:iam::123456789012:role/team-b!"),
        ("$", "$"),
        ("$$", "$$"),
        ("$x{y}", "$x{y}"),
        ("{identity.kind}", "{identity.kind}"),
        ("$${identity.subject_id}}", "$ann}"),
        ("\u{2603}${identity.subject_id}\u{2603}", "\u{2603}ann\u{2603}"),
    ] {
        assert_role(&substitute(template, &caller), want, true);
    }
}

#[test]
fn template_failures_name_the_first_field() {
    let caller = ident(None);
    for (template, field) in [
        ("${identity.subject_id}${identity.nothing}", "subject_id"),
        ("${identity.kind}${identity.nothing}", "nothing"),
        ("${identity.roles[2]}", "roles[2]"),
        ("${identity.scopes[0]}", "scopes[0]"),
        ("${identity.attributes.none}", "attributes.none"),
        ("${identity.issuer}", "issuer"),
        ("${identity.identity.kind}", "identity.kind"),
        ("${}", ""),
        ("x${identity.kind", "unterminated placeholder `${identity.kind`"),
        ("${", "unterminated placeholder `${`"),
        ("${identity.kind}${identity", "unterminated placeholder `${identity`"),
    ] {
        assert_failed(&substitute(template, &caller), field);
    }
    match substitute("", &caller) {
        Resolution::EmptyDerived { .. } => {}
        other => panic!("{other:?}"),
    }
}

#[test]
fn values_are_put_in_as_they_are() {
    let mut caller = ident(Some("${identity.kind}"));
    assert_role(&substitute("<${identity.subject_id}>", &caller), "<${identity.kind}>", true);
    caller.subject_id = Some("".into());
    assert_failed(&substitute("${identity.subject_id}", &caller), "subject_id");
}

#[test]
fn fields_by_name() {
    let mut caller = ident(Some("ann"));
    caller.scopes = vec!["read".into(), "".into()];
    caller.attributes.insert("".into(), "empty key".into());
    caller.attributes.insert("a.b[0]".into(), "odd key".into());
    for (field, want) in [
        ("subject_id", Some("ann")),
        ("kind", Some("verified")),
        ("trust_level", Some("verified")),
        ("auth_provider", Some("okta")),
        ("attributes.team", Some("team-a")),
        ("attributes.", Some("empty key")),
        ("attributes.a.b[0]", Some("odd key")),
        ("attributes", None),
        ("roles[0]", Some(ARN_A)),
        ("roles[+1]", Some(ARN_B)),
        ("roles[01]", Some(ARN_B)),
        ("roles[2]", None),
        ("roles", None),
        ("groups[0]", Some("sec")),
        ("scopes[0]", Some("read")),
        ("scopes[1]", Some("")),
        ("issuer", None),
        ("Kind", None),
        ("", None),
    ] {
        assert_eq!(resolve_field(field, &caller).as_deref(), want, "{field}");
    }
}

#[test]
fn indexes_are_read_as_std_reads_them() {
    let max = usize::MAX.to_string();
    let over = format!("{max}0");
    for index in [
        "0", "7", "+7", "007", "12345", max.as_str(), over.as_str(), "18446744073709551616", "", "+", "-", "-0",
        "++1", "+-1", " 1", "1 ", "1]", "0x1", "1_000", "\u{0661}", "1.0",
    ] {
        let field = format!("roles[{index}]");
        assert_eq!(parse_indexed(&field, "roles"), index.parse::<usize>().ok(), "{field}");
    }
    assert_eq!(parse_indexed("roles[3", "roles"), None);
    assert_eq!(parse_indexed("roles3]", "roles"), None);
    assert_eq!(parse_indexed("roles[", "roles"), None);
    assert_eq!(parse_indexed("roles]", "roles"), None);
    assert_eq!(parse_indexed("role[3]", "roles"), None);
    assert_eq!(parse_indexed("roles[3]x", "roles"), None);
    assert_eq!(parse_indexed("[3]", ""), Some(3));
}
