use credential_aws_sts::identity_mapping::{PluginIdentity, Resolution};
use credential_aws_sts::issue::{
    authorize_role, begin_issue, finish_issue, finish_issue_now, revoke, IssuePlan, RefusalKind,
};
use credential_aws_sts::name_map::NameMap;
use credential_aws_sts::sts_client::{
    classify_sdk_error, read_reply, AssumeRequest, AssumeRoleOutput, AssumedRoleUser, CredentialError,
    SdkFailure, StsCredentials,
};
use credential_aws_sts::{BaseCredentials, IdentityMapping, StsConfig, TargetConfig};

const ARN_RO: &str = "arn:aws:iam::123456789012:role/orders-readonly";

fn identity(trust: &str, subject: &str) -> PluginIdentity {
    PluginIdentity {
        kind: trust.to_owned(),
        trust_level: trust.to_owned(),
        subject_id: Some(subject.to_owned()),
        auth_provider: Some("okta".into()),
        issuer: Some("https://okta.example.com".into()),
        roles: vec![],
        groups: vec![],
        scopes: vec![],
        attributes: NameMap::new(),
    }
}

fn target(mapping: IdentityMapping, allowed: Option<Vec<&str>>) -> TargetConfig {
    TargetConfig {
        role_arn: ARN_RO.to_string(),
        identity_mapping: mapping,
        role_arn_template: None,
        allowed_role_arns: allowed.map(|list| list.into_iter().map(|a| a.to_string()).collect()),
        session_name_prefix: None,
        external_id: None,
        session_policy: None,
        duration_seconds: None,
        max_cache_ttl_ms: 3_600_000,
    }
}

fn config_with(target: TargetConfig) -> StsConfig {
    let mut targets = NameMap::new();
    targets.insert("t".to_string(), target);
    let cfg = StsConfig {
        region: "us-east-1".to_string(),
        endpoint_url: None,
        base_credentials: Some(BaseCredentials {
            access_key_id: "AKIA_TEST".to_string(),
            secret_access_key: "secret".to_string(),
            session_token: None,
        }),
        targets,
    };
    StsConfig::parse(Ok(cfg)).unwrap()
}

fn config_with_subject_target(allowed: Option<Vec<&str>>) -> StsConfig {
    config_with(target(IdentityMapping::SubjectId, allowed))
}

fn plan(max_cache_ttl_ms: u64) -> IssuePlan {
    IssuePlan {
        request: AssumeRequest {
            role_arn: ARN_RO.to_string(),
            session_name: "ann".to_string(),
            duration_seconds: None,
            external_id: None,
            session_policy: None,
        },
        max_cache_ttl_ms,
    }
}

fn output(expiration_secs: i64) -> AssumeRoleOutput {
    AssumeRoleOutput {
        credentials: Some(StsCredentials {
            access_key_id: "ASIA".to_string(),
            secret_access_key: "hidden".to_string(),
            session_token: "token".to_string(),
            expiration_secs,
        }),
        assumed_role_user: Some(AssumedRoleUser {
            assumed_role_id: "AROA:ann".to_string(),
            arn: "arn:aws:sts::123456789012:assumed-role/orders-readonly/ann".to_string(),
        }),
    }
}

fn walk(map: &NameMap<String>) -> Vec<(&str, &str)> {
    (0..map.len()).map(|i| (map.name_at(i), map.value_at(i).as_str())).collect()
}

#[test]
fn issue_rejects_identity_derived_arn_from_unverified_caller() {
    let config = config_with_subject_target(None);
    let err = begin_issue(
        &config,
        // a spoofable header-asserted caller whose subject is a valid
        // ARN: must still be refused before the STS call.
        &identity("header_asserted", "arn:aws:iam::123456789012:role/admin"),
        "t",
    )
    .expect_err("unverified identity-derived ARN must be refused");
    assert_eq!(err.kind, RefusalKind::UntrustedIdentity);
    assert!(
        matches!(err.error, CredentialError::NotAuthorized { ref reason } if reason.contains("Verified trust")),
        "{err:?}"
    );
    assert!(matches!(
        err.error,
        CredentialError::NotAuthorized { reason } if reason
            == "identity-derived role ARN requires Verified trust; caller trust is `header_asserted`"
    ));
}

#[test]
fn issue_rejects_non_arn_subject() {
    let config = config_with_subject_target(None);
    let err = begin_issue(&config, &identity("verified", "not-an-arn"), "t")
        .expect_err("a non-ARN subject must be refused");
    assert_eq!(err.kind, RefusalKind::InvalidRoleArn);
    assert!(
        matches!(err.error, CredentialError::NotAuthorized { ref reason } if reason.contains("valid IAM role ARN")),
        "{err:?}"
    );
}

#[test]
fn issue_rejects_arn_outside_allowlist() {
    let config = config_with_subject_target(Some(vec!["arn:aws:iam::123456789012:role/only-this"]));
    let err = begin_issue(
        &config,
        &identity("verified", "arn:aws:iam::123456789012:role/something-else"),
        "t",
    )
    .expect_err("ARN outside allowlist must be refused");
    assert_eq!(err.kind, RefusalKind::ArnNotAllowed);
    assert!(
        matches!(err.error, CredentialError::NotAuthorized { ref reason } if reason.contains("allowed_role_arns")),
        "{err:?}"
    );
}

#[test]
fn issue_rejects_unknown_target() {
    let config = config_with_subject_target(None);
    let err = begin_issue(&config, &identity("verified", ARN_RO), "no-such-target")
        .expect_err("unknown target must be refused");
    assert_eq!(err.kind, RefusalKind::UnknownTarget);
    assert!(
        matches!(err.error, CredentialError::Misconfigured { ref reason } if reason.contains("unknown target")),
        "{err:?}"
    );
    assert!(matches!(
        err.error,
        CredentialError::Misconfigured { reason } if reason == "unknown target: no-such-target"
    ));
}

#[test]
fn revoke_is_noop_ok() {
    assert!(revoke("any-lease").is_ok());
}

#[test]
fn verified_caller_gets_an_allowed_role() {
    let wanted = "arn:aws:iam::123456789012:role/second";
    let config = config_with_subject_target(Some(vec!["arn:aws:iam::123456789012:role/first", wanted]));
    let plan = begin_issue(&config, &identity("verified", wanted), "t").unwrap();
    assert_eq!(plan.request.role_arn, wanted);
    assert_eq!(plan.request.session_name, "arn-aws-iam--123456789012-role-second");
    let config = config_with_subject_target(Some(vec![]));
    assert!(begin_issue(&config, &identity("verified", wanted), "t").is_err());
}

#[test]
fn fixed_roles_are_for_everyone() {
    let elsewhere = || Some(vec!["arn:aws:iam::123456789012:role/only-this"]);
    // a static role is not held to the list of allowed ones
    let config = config_with(target(IdentityMapping::Static, elsewhere()));
    let plan = begin_issue(&config, &identity("anonymous", "ann"), "t").unwrap();
    assert_eq!(plan.request.role_arn, ARN_RO);
    // nor is the role for callers whose identity gives none
    for mapping in [IdentityMapping::SubjectId, IdentityMapping::FromRole] {
        let config = config_with(target(mapping, elsewhere()));
        let plan = begin_issue(&config, &identity("anonymous", ""), "t").unwrap();
        assert_eq!(plan.request.role_arn, ARN_RO);
        assert_eq!(plan.request.session_name, "anonymous");
    }
}

#[test]
fn fixed_role_behind_a_template() {
    let mut t = target(
        IdentityMapping::Template,
        Some(vec!["arn:aws:iam::123456789012:role/only-this"]),
    );
    t.role_arn_template = Some("arn:aws:iam::123456789012:role/${identity.roles[0]}".to_string());
    let mut caller = identity("anonymous", "ann");
    let plan = begin_issue(&config_with(t.clone()), &caller, "t").unwrap();
    assert_eq!(plan.request.role_arn, ARN_RO);
    // a value that is there is held to the rules
    caller.roles = vec!["x".to_string()];
    let err = begin_issue(&config_with(t.clone()), &caller, "t").unwrap_err();
    assert_eq!(err.kind, RefusalKind::UntrustedIdentity);
    // a fixed role that is none serves nobody
    caller.roles = vec![];
    t.role_arn = "nope".to_string();
    let err = begin_issue(&config_with(t), &caller, "t").unwrap_err();
    assert_eq!(err.kind, RefusalKind::InvalidRoleArn);
}

#[test]
fn refusals_of_identities_without_a_role() {
    let mut t = target(IdentityMapping::SubjectId, None);
    t.role_arn = String::new();
    let err = begin_issue(&config_with(t), &identity("verified", ""), "t").unwrap_err();
    assert_eq!(err.kind, RefusalKind::EmptyIdentity);
    assert!(matches!(
        err.error,
        CredentialError::NotAuthorized { reason }
            if reason == "identity has no subject_id and no static fallback role_arn"
    ));

    let mut t = target(IdentityMapping::Template, None);
    t.role_arn = String::new();
    t.role_arn_template = Some("arn:aws:iam::123456789012:role/${identity.roles[0]}".to_string());
    let config = config_with(t);
    let err = begin_issue(&config, &identity("verified", "ann"), "t").unwrap_err();
    assert_eq!(err.kind, RefusalKind::SubstitutionFailed);
    assert!(matches!(
        err.error,
        CredentialError::NotAuthorized { reason } if reason
            == "identity template substitution failed: field `roles[0]` is None or out-of-bounds"
    ));
    let mut caller = identity("verified", "ann");
    caller.roles = vec!["mcpg-platform".to_string()];
    let plan = begin_issue(&config, &caller, "t").unwrap();
    assert_eq!(plan.request.role_arn, "arn:aws:iam::123456789012:role/mcpg-platform");
    caller.trust_level = "Verified".to_string();
    let err = begin_issue(&config, &caller, "t").unwrap_err();
    assert_eq!(err.kind, RefusalKind::UntrustedIdentity);
}

#[test]
fn template_from_the_handbook() {
    let mut t = target(
        IdentityMapping::Template,
        Some(vec![
            "arn:aws:iam::123456789012:role/mcpg-platform",
            "arn:aws:iam::123456789012:role/mcpg-data",
        ]),
    );
    t.role_arn_template =
        Some("arn:aws:iam::123456789012:role/mcpg-${identity.attributes.team}".to_string());
    t.session_name_prefix = Some("mcpg".to_string());
    t.duration_seconds = Some(3600);
    t.external_id = Some("ext".to_string());
    t.session_policy = Some("{}".to_string());
    let config = config_with(t);
    let mut caller = identity("verified", "ann@example.com");
    caller.attributes.insert("team".to_string(), "data".to_string());
    let plan = begin_issue(&config, &caller, "t").unwrap();
    assert_eq!(plan.request.role_arn, "arn:aws:iam::123456789012:role/mcpg-data");
    assert_eq!(plan.request.session_name, "mcpg-ann@example.com");
    assert_eq!(plan.request.duration_seconds, Some(3600));
    assert_eq!(plan.request.external_id.as_deref(), Some("ext"));
    assert_eq!(plan.request.session_policy.as_deref(), Some("{}"));
    assert_eq!(plan.max_cache_ttl_ms, 3_600_000);
    caller.attributes.insert("team".to_string(), "sales".to_string());
    let err = begin_issue(&config, &caller, "t").unwrap_err();
    assert_eq!(err.kind, RefusalKind::ArnNotAllowed);
}

#[test]
fn untrusted_comes_before_malformed() {
    let found = || Resolution::Role { arn: "nope".to_string(), identity_derived: true };
    let err = authorize_role(found(), "none", &Some(vec![])).unwrap_err();
    assert_eq!(err.kind, RefusalKind::UntrustedIdentity);
    let err = authorize_role(found(), "verified", &Some(vec![])).unwrap_err();
    assert_eq!(err.kind, RefusalKind::InvalidRoleArn);
    let fixed = Resolution::Role { arn: "nope".to_string(), identity_derived: false };
    let err = authorize_role(fixed, "none", &None).unwrap_err();
    assert_eq!(err.kind, RefusalKind::InvalidRoleArn);
}

#[test]
fn refusals_are_counted_by_label() {
    assert_eq!(RefusalKind::UnknownTarget.label(), None);
    assert_eq!(RefusalKind::UntrustedIdentity.label(), Some("untrusted_identity"));
    assert_eq!(RefusalKind::InvalidRoleArn.label(), Some("invalid_role_arn"));
    assert_eq!(RefusalKind::ArnNotAllowed.label(), Some("arn_not_allowed"));
    assert_eq!(RefusalKind::EmptyIdentity.label(), Some("empty_identity"));
    assert_eq!(RefusalKind::SubstitutionFailed.label(), Some("substitution_failed"));
}

#[test]
fn credential_of_a_reply() {
    let c = finish_issue(plan(60_000), Ok(output(10_000)), 1_000, "2024-01-02T03:04:05Z".to_string())
        .unwrap();
    assert_eq!(c.value, None);
    assert_eq!(c.lease_id, None);
    assert_eq!(c.ttl_seconds, 60);
    assert_eq!(c.issued_at, "2024-01-02T03:04:05Z");
    assert_eq!(
        walk(&c.parts),
        vec![("access_key_id", "ASIA"), ("secret_access_key", "hidden"), ("session_token", "token")]
    );
    assert_eq!(
        walk(&c.metadata),
        vec![
            ("aws.assumed_role_arn", "arn:aws:sts::123456789012:assumed-role/orders-readonly/ann"),
            ("aws.assumed_role_id", "AROA:ann"),
            ("aws.role_arn", ARN_RO),
            ("aws.session_name", "ann"),
        ]
    );
    let mut bare = output(10_000);
    bare.assumed_role_user = None;
    let c = finish_issue(plan(60_000), Ok(bare), 1_000, String::new()).unwrap();
    assert_eq!(walk(&c.metadata), vec![("aws.role_arn", ARN_RO), ("aws.session_name", "ann")]);
}

#[test]
fn cache_time_of_a_reply() {
    for (expiration, now, limit, want) in [
        (4_600, 1_000, 3_600_000, 3_600),
        (4_599, 1_000, 3_600_000, 3_599),
        (4_600, 1_000, 500, 1),
        (1_000, 1_000, 60_000, 1),
        (1_001, 1_000, 60_000, 1),
        (1_002, 1_000, 60_000, 2),
        (0, 1_000, 60_000, 1),
        (i64::MIN, i64::MAX, 60_000, 1),
        (i64::MAX, 0, u64::MAX, 18_446_744_073_709_551),
    ] {
        let c = finish_issue(plan(limit), Ok(output(expiration)), now, String::new()).unwrap();
        assert_eq!(c.ttl_seconds, want, "{expiration} {now} {limit}");
    }
}

#[test]
fn reply_without_credentials_fails() {
    let empty = AssumeRoleOutput { credentials: None, assumed_role_user: None };
    assert!(matches!(
        finish_issue(plan(1), Ok(empty), 0, String::new()),
        Err(CredentialError::Backend { reason }) if reason == "STS AssumeRole returned no credentials"
    ));
}

#[test]
fn reply_is_read_in_full() {
    let creds = read_reply(Ok(output(1_900)), 1_000).unwrap();
    assert_eq!(creds.access_key_id, "ASIA");
    assert_eq!(creds.secret_access_key, "hidden");
    assert_eq!(creds.session_token, "token");
    assert_eq!(creds.expiry_secs, 900);
    assert_eq!(creds.assumed_role_id.as_deref(), Some("AROA:ann"));
    assert_eq!(
        creds.assumed_role_arn.as_deref(),
        Some("arn:aws:sts::123456789012:assumed-role/orders-readonly/ann")
    );
}

fn failure(code: Option<&str>, message: Option<&str>) -> SdkFailure {
    SdkFailure {
        code: code.map(|c| c.to_string()),
        message: message.map(|m| m.to_string()),
        text: "service error".to_string(),
    }
}

#[test]
fn failures_by_code() {
    for code in ["AccessDenied", "AccessDeniedException"] {
        assert!(matches!(
            classify_sdk_error(failure(Some(code), Some("no"))),
            CredentialError::NotAuthorized { reason } if reason == "no"
        ));
    }
    for code in ["Throttling", "ThrottlingException", "RequestLimitExceeded", "TooManyRequestsException"] {
        assert!(matches!(
            classify_sdk_error(failure(Some(code), None)),
            CredentialError::Throttled { reason } if reason == "service error"
        ));
    }
    assert!(matches!(
        classify_sdk_error(failure(Some("ExpiredToken"), Some("old"))),
        CredentialError::Backend { reason } if reason == "STS AssumeRole [ExpiredToken]: old"
    ));
    assert!(matches!(
        classify_sdk_error(failure(Some("accessdenied"), Some("no"))),
        CredentialError::Backend { reason } if reason == "STS AssumeRole [accessdenied]: no"
    ));
    for code in [None, Some("")] {
        assert!(matches!(
            classify_sdk_error(failure(code, None)),
            CredentialError::Backend { reason } if reason == "service error"
        ));
    }
    assert!(matches!(
        finish_issue(plan(1), Err(failure(Some("AccessDenied"), Some("no"))), 0, String::new()),
        Err(CredentialError::NotAuthorized { reason }) if reason == "no"
    ));
}

#[test]
fn the_present_is_read_off_the_clock() {
    let start = chrono::Utc::now();
    let c = finish_issue_now(plan(86_400_000), Ok(output(start.timestamp() + 3_600))).unwrap();
    let end = chrono::Utc::now();
    let passed = (end.timestamp() - start.timestamp()) as u64;
    assert!(c.ttl_seconds <= 3_600 && c.ttl_seconds + passed >= 3_600);
    let text = |t: chrono::DateTime<chrono::Utc>| t.format("%Y-%m-%dT%H:%M:%SZ").to_string();
    assert_eq!(c.issued_at.len(), 20);
    assert!(text(start) <= c.issued_at && c.issued_at <= text(end));
    // a session that has ended
    let c = finish_issue_now(plan(86_400_000), Ok(output(0))).unwrap();
    assert_eq!(c.ttl_seconds, 1);
}
