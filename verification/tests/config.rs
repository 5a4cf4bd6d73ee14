use credential_aws_sts::config::check_target;
use credential_aws_sts::name_map::NameMap;
use credential_aws_sts::{
    default_max_cache_ttl_ms, BaseCredentials, ConfigError, IdentityMapping, StsConfig, TargetConfig,
};

fn blank_target() -> TargetConfig {
    TargetConfig {
        role_arn: String::new(),
        identity_mapping: IdentityMapping::default(),
        role_arn_template: None,
        allowed_role_arns: None,
        session_name_prefix: None,
        external_id: None,
        session_policy: None,
        duration_seconds: None,
        max_cache_ttl_ms: default_max_cache_ttl_ms(),
    }
}

fn orders_ro() -> TargetConfig {
    TargetConfig {
        role_arn: "arn:aws:iam::123456789012:role/orders-readonly".to_string(),
        ..blank_target()
    }
}

fn with_target(target: TargetConfig) -> StsConfig {
    let mut targets = NameMap::new();
    targets.insert("orders-ro".to_string(), target);
    StsConfig {
        region: "us-east-1".to_string(),
        endpoint_url: None,
        base_credentials: None,
        targets,
    }
}

fn minimal() -> StsConfig {
    with_target(orders_ro())
}

#[test]
fn parses_minimal() {
    let cfg = StsConfig::parse(Ok(minimal())).unwrap();
    assert_eq!(cfg.region, "us-east-1");
    assert_eq!(cfg.targets.len(), 1);
    let t = cfg.targets.get("orders-ro").unwrap();
    assert_eq!(t.identity_mapping, IdentityMapping::Static);
    assert_eq!(t.max_cache_ttl_ms, 3_600_000);
}

#[test]
fn rejects_empty_region() {
    let mut v = minimal();
    v.region = "".to_string();
    assert!(matches!(
        StsConfig::parse(Ok(v)).unwrap_err(),
        ConfigError::EmptyRegion
    ));
}

#[test]
fn rejects_blank_region_in_any_white_space() {
    for region in [" ", "\t\r\n\u{b}\u{c}", "\u{85}\u{a0}", "\u{1680}\u{2003}\u{2028}\u{202f}\u{205f}\u{3000}"] {
        let mut v = minimal();
        v.region = region.to_string();
        assert!(region.trim().is_empty());
        assert!(matches!(v.validate(), Err(ConfigError::EmptyRegion)), "{region:?}");
    }
    // neither is white space
    for region in ["\u{200b}", "\u{180e}", " x "] {
        let mut v = minimal();
        v.region = region.to_string();
        assert!(!region.trim().is_empty());
        assert!(v.validate().is_ok(), "{region:?}");
    }
}

#[test]
fn white_space_is_what_std_takes_for_it() {
    for c in '\0'..=char::MAX {
        let mut v = minimal();
        v.region = c.to_string();
        assert_eq!(v.validate().is_err(), c.is_whitespace(), "{c:?}");
    }
}

#[test]
fn decoding_error_is_handed_on() {
    let error = serde_json::from_str::<serde_json::Value>("{ not json").unwrap_err();
    let text = error.to_string();
    match StsConfig::parse(Err(error)) {
        Err(ConfigError::InvalidJson(e)) => assert_eq!(e.to_string(), text),
        other => panic!("{other:?}"),
    }
    let error = serde_json::from_str::<serde_json::Value>("").unwrap_err();
    assert!(matches!(ConfigError::from(error), ConfigError::InvalidJson(_)));
}

#[test]
fn rejects_bad_endpoint_scheme() {
    let mut v = minimal();
    v.endpoint_url = Some("ftp://sts.local".to_string());
    assert!(matches!(
        StsConfig::parse(Ok(v)).unwrap_err(),
        ConfigError::InvalidEndpointScheme
    ));
}

#[test]
fn endpoint_scheme_at_the_edges() {
    for (url, fits) in [
        ("http://localhost:4566", true),
        ("https://sts.us-east-1.amazonaws.com", true),
        ("http://", true),
        ("https:/", false),
        ("HTTP://x", false),
        (" http://x", false),
        ("", false),
    ] {
        let mut v = minimal();
        v.endpoint_url = Some(url.to_string());
        assert_eq!(v.validate().is_ok(), fits, "{url}");
    }
}

#[test]
fn rejects_static_without_arn() {
    let mut t = orders_ro();
    t.role_arn = "".to_string();
    assert!(matches!(
        StsConfig::parse(Ok(with_target(t))).unwrap_err(),
        ConfigError::StaticTargetMissingArn { .. }
    ));
}

#[test]
fn rejects_static_with_malformed_arn() {
    let mut t = orders_ro();
    t.role_arn = "not-an-arn".to_string();
    assert!(matches!(
        StsConfig::parse(Ok(with_target(t))).unwrap_err(),
        ConfigError::InvalidRoleArn { .. }
    ));
}

#[test]
fn rejects_template_without_template() {
    let t = TargetConfig {
        identity_mapping: IdentityMapping::Template,
        ..blank_target()
    };
    assert!(matches!(
        StsConfig::parse(Ok(with_target(t))).unwrap_err(),
        ConfigError::TemplateTargetMissingTemplate { .. }
    ));
}

#[test]
fn rejects_empty_template_and_ignores_its_role_arn() {
    let mut t = TargetConfig {
        identity_mapping: IdentityMapping::Template,
        role_arn_template: Some("".to_string()),
        role_arn: "not-an-arn".to_string(),
        ..blank_target()
    };
    match with_target(t.clone()).validate() {
        Err(ConfigError::TemplateTargetMissingTemplate { name }) => assert_eq!(name, "orders-ro"),
        other => panic!("{other:?}"),
    }
    t.role_arn_template = Some("x".to_string());
    assert!(with_target(t).validate().is_ok());
}

#[test]
fn rejects_bad_allowlist_entry() {
    let mut t = orders_ro();
    t.identity_mapping = IdentityMapping::SubjectId;
    t.allowed_role_arns = Some(vec![
        "arn:aws:iam::123456789012:role/ok".to_string(),
        "garbage".to_string(),
    ]);
    assert!(matches!(
        StsConfig::parse(Ok(with_target(t))).unwrap_err(),
        ConfigError::InvalidAllowedRoleArn { .. }
    ));
}

#[test]
fn first_bad_allowlist_entry_is_named() {
    let mut t = orders_ro();
    t.allowed_role_arns = Some(vec![
        "arn:aws:iam::123456789012:role/ok".to_string(),
        "one".to_string(),
        "two".to_string(),
    ]);
    match with_target(t.clone()).validate() {
        Err(ConfigError::InvalidAllowedRoleArn { name, arn }) => {
            assert_eq!(name, "orders-ro");
            assert_eq!(arn, "one");
        }
        other => panic!("{other:?}"),
    }
    t.allowed_role_arns = Some(vec![]);
    assert!(with_target(t).validate().is_ok());
}

#[test]
fn fallback_arn_is_optional_but_well_formed() {
    for mapping in [IdentityMapping::SubjectId, IdentityMapping::FromRole] {
        let mut t = orders_ro();
        t.identity_mapping = mapping;
        assert!(with_target(t.clone()).validate().is_ok());
        t.role_arn = String::new();
        assert!(with_target(t.clone()).validate().is_ok());
        t.role_arn = "nope".to_string();
        match with_target(t).validate() {
            Err(ConfigError::InvalidRoleArn { name, arn }) => {
                assert_eq!(name, "orders-ro");
                assert_eq!(arn, "nope");
            }
            other => panic!("{other:?}"),
        }
    }
}

#[test]
fn rejects_out_of_range_duration() {
    let mut t = orders_ro();
    t.duration_seconds = Some(60);
    assert!(matches!(
        StsConfig::parse(Ok(with_target(t))).unwrap_err(),
        ConfigError::InvalidDuration { .. }
    ));
}

#[test]
fn accepts_in_range_duration() {
    let mut t = orders_ro();
    t.duration_seconds = Some(3600);
    assert!(StsConfig::parse(Ok(with_target(t))).is_ok());
}

#[test]
fn duration_at_the_edges() {
    for (secs, fits) in [(0, false), (899, false), (900, true), (43_200, true), (43_201, false)] {
        let mut t = orders_ro();
        t.duration_seconds = Some(secs);
        match with_target(t).validate() {
            Ok(()) => assert!(fits, "{secs}"),
            Err(ConfigError::InvalidDuration { secs: told, .. }) => {
                assert!(!fits, "{secs}");
                assert_eq!(told, secs);
            }
            other => panic!("{other:?}"),
        }
    }
}

#[test]
fn rejects_non_json_session_policy() {
    let mut t = orders_ro();
    t.session_policy = Some("{not json".to_string());
    assert!(matches!(
        StsConfig::parse(Ok(with_target(t))).unwrap_err(),
        ConfigError::SessionPolicyNotJson { .. }
    ));
}

#[test]
fn session_policy_is_json_and_short() {
    let longest = format!("\"{}\"", "p".repeat(2046));
    // characters are counted, however many bytes they take
    let accents = format!("\"{}\"", "\u{e9}".repeat(1100));
    let longest_accents = format!("\"{}\"", "\u{e9}".repeat(2046));
    for (policy, fits) in [
        ("{}", true),
        ("[1, 2]", true),
        (longest.as_str(), true),
        (accents.as_str(), true),
        (longest_accents.as_str(), true),
        ("", false),
        ("{} x", false),
    ] {
        let mut t = orders_ro();
        t.session_policy = Some(policy.to_string());
        assert_eq!(with_target(t).validate().is_ok(), fits, "{policy}");
    }
    for policy in [format!("{longest} "), format!("{longest_accents} "), "{".repeat(2049)] {
        let mut t = orders_ro();
        t.session_policy = Some(policy);
        assert!(matches!(
            with_target(t).validate(),
            Err(ConfigError::SessionPolicyTooLarge { .. })
        ));
    }
}

#[test]
fn target_check_goes_by_what_it_is_told_of_the_policy() {
    let mut t = orders_ro();
    assert!(check_target("t", &t, false).is_ok());
    t.session_policy = Some("{}".to_string());
    assert!(check_target("t", &t, true).is_ok());
    assert!(matches!(
        check_target("t", &t, false),
        Err(ConfigError::SessionPolicyNotJson { name }) if name == "t"
    ));
}

#[test]
fn rejects_zero_ttl() {
    let mut t = orders_ro();
    t.max_cache_ttl_ms = 0;
    assert!(matches!(
        StsConfig::parse(Ok(with_target(t))).unwrap_err(),
        ConfigError::InvalidMaxCacheTtl { .. }
    ));
}

#[test]
fn ttl_at_the_edges() {
    for (ttl, fits) in [(1, true), (86_400_000, true), (86_400_001, false), (u64::MAX, false)] {
        let mut t = orders_ro();
        t.max_cache_ttl_ms = ttl;
        match with_target(t).validate() {
            Ok(()) => assert!(fits, "{ttl}"),
            Err(ConfigError::InvalidMaxCacheTtl { ttl: told, .. }) => {
                assert!(!fits, "{ttl}");
                assert_eq!(told, ttl);
            }
            other => panic!("{other:?}"),
        }
    }
}

#[test]
fn rejects_empty_access_key() {
    let mut v = minimal();
    v.base_credentials = Some(BaseCredentials {
        access_key_id: "".to_string(),
        secret_access_key: "x".to_string(),
        session_token: None,
    });
    assert!(matches!(
        StsConfig::parse(Ok(v)).unwrap_err(),
        ConfigError::EmptyAccessKeyId
    ));
}

#[test]
fn rejects_empty_secret_key_but_not_a_blank_one() {
    let mut v = minimal();
    v.base_credentials = Some(BaseCredentials {
        access_key_id: "AKIA_TEST".to_string(),
        secret_access_key: "".to_string(),
        session_token: None,
    });
    assert!(matches!(v.validate(), Err(ConfigError::EmptySecretAccessKey)));
    v.base_credentials = Some(BaseCredentials {
        access_key_id: "AKIA_TEST".to_string(),
        secret_access_key: " ".to_string(),
        session_token: None,
    });
    assert!(v.validate().is_ok());
}

#[test]
fn base_credentials_roundtrip() {
    let mut v = minimal();
    v.base_credentials = Some(BaseCredentials {
        access_key_id: "AKIA_TEST".to_string(),
        secret_access_key: "secret".to_string(),
        session_token: Some("tok".to_string()),
    });
    let cfg = StsConfig::parse(Ok(v)).unwrap();
    let base = cfg.base_credentials.unwrap();
    assert_eq!(base.access_key_id, "AKIA_TEST");
    assert_eq!(base.session_token.as_deref(), Some("tok"));
}

#[test]
fn rejects_empty_targets() {
    let mut v = minimal();
    v.targets = NameMap::new();
    assert!(matches!(StsConfig::parse(Ok(v)), Err(ConfigError::EmptyTargets)));
}

#[test]
fn faults_come_in_order() {
    // of one target
    let mut t = orders_ro();
    t.role_arn = "nope".to_string();
    t.allowed_role_arns = Some(vec!["nope".to_string()]);
    t.duration_seconds = Some(1);
    t.session_policy = Some("x".to_string());
    t.max_cache_ttl_ms = 0;
    assert!(matches!(with_target(t.clone()).validate(), Err(ConfigError::InvalidRoleArn { .. })));
    t.role_arn = orders_ro().role_arn;
    assert!(matches!(
        with_target(t.clone()).validate(),
        Err(ConfigError::InvalidAllowedRoleArn { .. })
    ));
    t.allowed_role_arns = None;
    assert!(matches!(with_target(t.clone()).validate(), Err(ConfigError::InvalidDuration { .. })));
    t.duration_seconds = None;
    assert!(matches!(
        with_target(t.clone()).validate(),
        Err(ConfigError::SessionPolicyNotJson { .. })
    ));
    t.session_policy = None;
    assert!(matches!(
        with_target(t.clone()).validate(),
        Err(ConfigError::InvalidMaxCacheTtl { .. })
    ));
    // of several targets: by name, in whatever order they were put in
    let mut v = minimal();
    for name in ["zeta", "beta", "alpha", "gamma"] {
        let target = if name == "alpha" { orders_ro() } else { t.clone() };
        v.targets.insert(name.to_string(), target);
    }
    match v.validate() {
        Err(ConfigError::InvalidMaxCacheTtl { name, .. }) => assert_eq!(name, "beta"),
        other => panic!("{other:?}"),
    }
    // the client before the targets
    v.region = String::new();
    assert!(matches!(v.validate(), Err(ConfigError::EmptyRegion)));
}
