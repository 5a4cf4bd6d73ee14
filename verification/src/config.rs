//! The operator's configuration and the rules that it has to meet.

use vstd::prelude::*;

use crate::json::{is_json, json_document};
use crate::name_map::{has_name, place_of, NameMap};
use crate::role_arn::{is_role_arn, is_valid_role_arn};
use crate::text::{begins_with, blank, chars_of, has_prefix, is_blank};

verus! {

/// The configuration of the credential issuer.
#[derive(Debug, Clone)]
pub struct StsConfig {
    /// The AWS region of the STS client, such as `us-east-1`. It is needed also where
    /// `endpoint_url` points elsewhere.
    pub region: String,
    /// Another STS endpoint than the region's own, such as `http://localhost:4566`.
    pub endpoint_url: Option<String>,
    /// The keys with which `AssumeRole` is called; without them the default credential chain of
    /// AWS is used.
    pub base_credentials: Option<BaseCredentials>,
    /// The targets by their names, at least one.
    pub targets: NameMap<TargetConfig>,
}

/// Static keys of the principal that calls `AssumeRole`.
#[derive(Debug, Clone, PartialEq, Eq)]
pub struct BaseCredentials {
    pub access_key_id: String,
    pub secret_access_key: String,
    pub session_token: Option<String>,
}

/// How the role of one target is chosen and what is asked of STS for it.
#[derive(Debug, Clone, PartialEq, Eq)]
pub struct TargetConfig {
    /// The role to assume: always, where the mapping is static; in the other mappings, where the
    /// caller's identity gives no usable value.
    pub role_arn: String,
    /// How the role is chosen.
    pub identity_mapping: IdentityMapping,
    /// The template of the role ARN, with `${identity.<field>}` placeholders. The fields are
    /// `subject_id`, `kind`, `trust_level`, `auth_provider`, `roles[N]`, `groups[N]`, `scopes[N]`
    /// and `attributes.<key>`.
    pub role_arn_template: Option<String>,
    /// The role ARNs that a caller's identity may lead to. A role that the operator fixed is not
    /// held to the list.
    pub allowed_role_arns: Option<Vec<String>>,
    /// What the session name begins with.
    pub session_name_prefix: Option<String>,
    /// The `ExternalId` that the role's trust policy may ask for.
    pub external_id: Option<String>,
    /// An inline session policy in JSON, which narrows what the session may do.
    pub session_policy: Option<String>,
    /// The session duration to ask for, in seconds.
    pub duration_seconds: Option<u32>,
    /// The longest time for which the credential may be cached, in milliseconds.
    pub max_cache_ttl_ms: u64,
}

/// How a target's role is chosen.
#[derive(Debug, Clone, Copy, PartialEq, Eq, Structural)]
pub enum IdentityMapping {
    /// Every caller assumes the target's `role_arn`.
    Static,
    /// The caller's `subject_id` is the role ARN.
    SubjectId,
    /// The caller's identity is put into the target's `role_arn_template`.
    Template,
    /// The caller's first role is the role ARN.
    FromRole,
}

impl Default for IdentityMapping {
    fn default() -> (r: Self)
        ensures
            r == IdentityMapping::Static,
    {
        IdentityMapping::Static
    }
}

/// The cache limit of a target that names none: one hour.
pub fn default_max_cache_ttl_ms() -> (r: u64)
    ensures
        r == 3_600_000,
{
    3_600_000
}

/// The longest session that STS gives, in seconds.
pub const MAX_DURATION_SECONDS: u32 = 43_200;

/// The shortest session that STS gives, in seconds.
pub const MIN_DURATION_SECONDS: u32 = 900;

/// The most characters that a session policy may have.
pub const MAX_SESSION_POLICY_CHARS: usize = 2048;

/// The longest cache limit, in milliseconds: one day.
pub const MAX_CACHE_TTL_MS: u64 = 86_400_000;

/// What is wrong with a configuration.
#[derive(Debug)]
pub enum ConfigError {
    /// The text is no JSON of a configuration.
    InvalidJson(serde_json::Error),
    /// The region is blank.
    EmptyRegion,
    /// The endpoint begins with neither `http://` nor `https://`.
    InvalidEndpointScheme,
    /// The access key of the base credentials is blank.
    EmptyAccessKeyId,
    /// The secret key of the base credentials is empty.
    EmptySecretAccessKey,
    /// There are no targets.
    EmptyTargets,
    /// A target with a static mapping has no role ARN.
    StaticTargetMissingArn { name: String },
    /// A target with a mapping by template has no template.
    TemplateTargetMissingTemplate { name: String },
    /// The role ARN of a target is not well-formed.
    InvalidRoleArn { name: String, arn: String },
    /// A role ARN in a target's list of allowed ones is not well-formed.
    InvalidAllowedRoleArn { name: String, arn: String },
    /// A target's session duration is not one that STS gives.
    InvalidDuration { name: String, secs: u32 },
    /// A target's session policy is too long.
    SessionPolicyTooLarge { name: String },
    /// A target's session policy is no JSON.
    SessionPolicyNotJson { name: String },
    /// A target's cache limit is zero or longer than a day.
    InvalidMaxCacheTtl { name: String, ttl: u64 },
}

/// A configuration error with its texts as sequences of characters.
pub enum ConfigErrorView {
    InvalidJson(serde_json::Error),
    EmptyRegion,
    InvalidEndpointScheme,
    EmptyAccessKeyId,
    EmptySecretAccessKey,
    EmptyTargets,
    StaticTargetMissingArn { name: Seq<char> },
    TemplateTargetMissingTemplate { name: Seq<char> },
    InvalidRoleArn { name: Seq<char>, arn: Seq<char> },
    InvalidAllowedRoleArn { name: Seq<char>, arn: Seq<char> },
    InvalidDuration { name: Seq<char>, secs: u32 },
    SessionPolicyTooLarge { name: Seq<char> },
    SessionPolicyNotJson { name: Seq<char> },
    InvalidMaxCacheTtl { name: Seq<char>, ttl: u64 },
}

impl View for ConfigError {
    type V = ConfigErrorView;

    open spec fn view(&self) -> ConfigErrorView {
        match *self {
            ConfigError::InvalidJson(error) => ConfigErrorView::InvalidJson(error),
            ConfigError::EmptyRegion => ConfigErrorView::EmptyRegion,
            ConfigError::InvalidEndpointScheme => ConfigErrorView::InvalidEndpointScheme,
            ConfigError::EmptyAccessKeyId => ConfigErrorView::EmptyAccessKeyId,
            ConfigError::EmptySecretAccessKey => ConfigErrorView::EmptySecretAccessKey,
            ConfigError::EmptyTargets => ConfigErrorView::EmptyTargets,
            ConfigError::StaticTargetMissingArn { name } => {
                ConfigErrorView::StaticTargetMissingArn { name: name@ }
            },
            ConfigError::TemplateTargetMissingTemplate { name } => {
                ConfigErrorView::TemplateTargetMissingTemplate { name: name@ }
            },
            ConfigError::InvalidRoleArn { name, arn } => ConfigErrorView::InvalidRoleArn {
                name: name@,
                arn: arn@,
            },
            ConfigError::InvalidAllowedRoleArn { name, arn } => {
                ConfigErrorView::InvalidAllowedRoleArn { name: name@, arn: arn@ }
            },
            ConfigError::InvalidDuration { name, secs } => ConfigErrorView::InvalidDuration {
                name: name@,
                secs,
            },
            ConfigError::SessionPolicyTooLarge { name } => {
                ConfigErrorView::SessionPolicyTooLarge { name: name@ }
            },
            ConfigError::SessionPolicyNotJson { name } => {
                ConfigErrorView::SessionPolicyNotJson { name: name@ }
            },
            ConfigError::InvalidMaxCacheTtl { name, ttl } => ConfigErrorView::InvalidMaxCacheTtl {
                name: name@,
                ttl,
            },
        }
    }
}

impl From<serde_json::Error> for ConfigError {
    fn from(error: serde_json::Error) -> (r: Self) {
        ConfigError::InvalidJson(error)
    }
}

impl vstd::std_specs::convert::FromSpecImpl<serde_json::Error> for ConfigError {
    open spec fn obeys_from_spec() -> bool {
        true
    }

    open spec fn from_spec(error: serde_json::Error) -> Self {
        ConfigError::InvalidJson(error)
    }
}

/// What is wrong with the roles of a target.
pub open spec fn role_fault(name: Seq<char>, target: TargetConfig) -> Option<ConfigErrorView> {
    let arn = target.role_arn@;
    match target.identity_mapping {
        IdentityMapping::Static => if arn.len() == 0 {
            Some(ConfigErrorView::StaticTargetMissingArn { name })
        } else if !is_role_arn(arn) {
            Some(ConfigErrorView::InvalidRoleArn { name, arn })
        } else {
            None
        },
        IdentityMapping::Template => if target.role_arn_template is None
            || target.role_arn_template->0@.len() == 0 {
            Some(ConfigErrorView::TemplateTargetMissingTemplate { name })
        } else {
            None
        },
        IdentityMapping::SubjectId | IdentityMapping::FromRole => if arn.len() > 0 && !is_role_arn(
            arn,
        ) {
            Some(ConfigErrorView::InvalidRoleArn { name, arn })
        } else {
            None
        },
    }
}

/// The first of `list` that is no role ARN.
pub open spec fn first_bad_arn(list: Seq<String>) -> Option<Seq<char>>
    decreases list.len(),
{
    if list.len() == 0 {
        None
    } else if !is_role_arn(list[0]@) {
        Some(list[0]@)
    } else {
        first_bad_arn(list.drop_first())
    }
}

/// What is wrong with a target's list of allowed role ARNs.
pub open spec fn allowlist_fault(name: Seq<char>, target: TargetConfig) -> Option<ConfigErrorView> {
    match target.allowed_role_arns {
        Some(list) => match first_bad_arn(list@) {
            Some(arn) => Some(ConfigErrorView::InvalidAllowedRoleArn { name, arn }),
            None => None,
        },
        None => None,
    }
}

/// What is wrong with the duration that a target asks for.
pub open spec fn duration_fault(name: Seq<char>, target: TargetConfig) -> Option<ConfigErrorView> {
    match target.duration_seconds {
        Some(secs) => if MIN_DURATION_SECONDS <= secs <= MAX_DURATION_SECONDS {
            None
        } else {
            Some(ConfigErrorView::InvalidDuration { name, secs })
        },
        None => None,
    }
}

/// What is wrong with a target's session policy, where `policy_is_json` tells whether it is JSON.
pub open spec fn policy_fault(
    name: Seq<char>,
    target: TargetConfig,
    policy_is_json: bool,
) -> Option<ConfigErrorView> {
    match target.session_policy {
        Some(policy) => if policy@.len() > MAX_SESSION_POLICY_CHARS {
            Some(ConfigErrorView::SessionPolicyTooLarge { name })
        } else if !policy_is_json {
            Some(ConfigErrorView::SessionPolicyNotJson { name })
        } else {
            None
        },
        None => None,
    }
}

/// What is wrong with a target's cache limit.
pub open spec fn ttl_fault(name: Seq<char>, target: TargetConfig) -> Option<ConfigErrorView> {
    let ttl = target.max_cache_ttl_ms;
    if ttl == 0 || ttl > MAX_CACHE_TTL_MS {
        Some(ConfigErrorView::InvalidMaxCacheTtl { name, ttl })
    } else {
        None
    }
}

/// The first thing that is wrong with a target, where `policy_is_json` tells whether its session
/// policy is JSON.
pub open spec fn target_fault(
    name: Seq<char>,
    target: TargetConfig,
    policy_is_json: bool,
) -> Option<ConfigErrorView> {
    if role_fault(name, target) is Some {
        role_fault(name, target)
    } else if allowlist_fault(name, target) is Some {
        allowlist_fault(name, target)
    } else if duration_fault(name, target) is Some {
        duration_fault(name, target)
    } else if policy_fault(name, target, policy_is_json) is Some {
        policy_fault(name, target, policy_is_json)
    } else {
        ttl_fault(name, target)
    }
}

/// A target's session policy, where it has one, is JSON.
pub open spec fn policy_is_json(target: TargetConfig) -> bool {
    target.session_policy is Some ==> json_document(target.session_policy->0@)
}

/// The first thing that is wrong with the targets, in the order of their names.
pub open spec fn targets_fault(targets: Seq<(Seq<char>, TargetConfig)>) -> Option<ConfigErrorView>
    decreases targets.len(),
{
    if targets.len() == 0 {
        None
    } else {
        let (name, target) = targets[0];
        match target_fault(name, target, policy_is_json(target)) {
            Some(fault) => Some(fault),
            None => targets_fault(targets.drop_first()),
        }
    }
}

/// What is wrong with a configuration before its targets are looked at one by one.
pub open spec fn client_fault(config: StsConfig) -> Option<ConfigErrorView> {
    if is_blank(config.region@) {
        Some(ConfigErrorView::EmptyRegion)
    } else if config.endpoint_url is Some && !begins_with(config.endpoint_url->0@, "http://"@)
        && !begins_with(config.endpoint_url->0@, "https://"@) {
        Some(ConfigErrorView::InvalidEndpointScheme)
    } else if config.base_credentials is Some && is_blank(
        config.base_credentials->0.access_key_id@,
    ) {
        Some(ConfigErrorView::EmptyAccessKeyId)
    } else if config.base_credentials is Some
        && config.base_credentials->0.secret_access_key@.len() == 0 {
        Some(ConfigErrorView::EmptySecretAccessKey)
    } else if config.targets.entries().len() == 0 {
        Some(ConfigErrorView::EmptyTargets)
    } else {
        None
    }
}

/// The first thing that is wrong with a configuration.
pub open spec fn config_fault(config: StsConfig) -> Option<ConfigErrorView> {
    match client_fault(config) {
        Some(fault) => Some(fault),
        None => targets_fault(config.targets.entries()),
    }
}

/// The outcome of a check agrees with the fault that there is.
pub open spec fn tells(outcome: Result<(), ConfigError>, fault: Option<ConfigErrorView>) -> bool {
    match fault {
        Some(view) => outcome is Err && outcome->Err_0@ == view,
        None => outcome is Ok,
    }
}

fn check_role(name: &str, target: &TargetConfig) -> (r: Result<(), ConfigError>)
    ensures
        tells(r, role_fault(name@, *target)),
{
    let arn = target.role_arn.as_str();
    match target.identity_mapping {
        IdentityMapping::Static => {
            if arn.is_empty() {
                return Err(ConfigError::StaticTargetMissingArn { name: name.to_owned() });
            }
            if !is_valid_role_arn(arn) {
                return Err(
                    ConfigError::InvalidRoleArn { name: name.to_owned(), arn: arn.to_owned() },
                );
            }
        },
        IdentityMapping::Template => {
            let missing = match &target.role_arn_template {
                Some(template) => template.as_str().is_empty(),
                None => true,
            };
            if missing {
                return Err(ConfigError::TemplateTargetMissingTemplate { name: name.to_owned() });
            }
        },
        IdentityMapping::SubjectId | IdentityMapping::FromRole => {
            if !arn.is_empty() && !is_valid_role_arn(arn) {
                return Err(
                    ConfigError::InvalidRoleArn { name: name.to_owned(), arn: arn.to_owned() },
                );
            }
        },
    }
    Ok(())
}

fn check_allowlist(name: &str, target: &TargetConfig) -> (r: Result<(), ConfigError>)
    ensures
        tells(r, allowlist_fault(name@, *target)),
{
    if let Some(list) = &target.allowed_role_arns {
        let mut i: usize = 0;
        assert(list@.skip(0) =~= list@);
        while i < list.len()
            invariant
                i <= list.len(),
                target.allowed_role_arns == Some(*list),
                first_bad_arn(list@) == first_bad_arn(list@.skip(i as int)),
            decreases list.len() - i,
        {
            assert(list@.skip(i as int).drop_first() =~= list@.skip(i + 1));
            if !is_valid_role_arn(list[i].as_str()) {
                return Err(
                    ConfigError::InvalidAllowedRoleArn {
                        name: name.to_owned(),
                        arn: list[i].clone(),
                    },
                );
            }
            i = i + 1;
        }
    }
    Ok(())
}

/// Holds the target `name` to the rules, where `policy_is_json` tells whether its session policy
/// is JSON. The first rule that is broken is the error: those on the role, on the allowed roles,
/// on the duration, on the session policy and on the cache limit, in this order.
pub fn check_target(name: &str, target: &TargetConfig, policy_is_json: bool) -> (r: Result<
    (),
    ConfigError,
>)
    ensures
        tells(r, target_fault(name@, *target, policy_is_json)),
        r is Ok <==> target_fault(name@, *target, policy_is_json) is None,
        r is Err ==> target_fault(name@, *target, policy_is_json) == Some(r->Err_0@),
{
    check_role(name, target)?;
    check_allowlist(name, target)?;
    if let Some(secs) = target.duration_seconds {
        if secs < MIN_DURATION_SECONDS || secs > MAX_DURATION_SECONDS {
            return Err(ConfigError::InvalidDuration { name: name.to_owned(), secs });
        }
    }
    if let Some(policy) = &target.session_policy {
        if chars_of(policy.as_str()).len() > MAX_SESSION_POLICY_CHARS {
            return Err(ConfigError::SessionPolicyTooLarge { name: name.to_owned() });
        }
        if !policy_is_json {
            return Err(ConfigError::SessionPolicyNotJson { name: name.to_owned() });
        }
    }
    let ttl = target.max_cache_ttl_ms;
    if ttl == 0 || ttl > MAX_CACHE_TTL_MS {
        return Err(ConfigError::InvalidMaxCacheTtl { name: name.to_owned(), ttl });
    }
    Ok(())
}

impl StsConfig {
    /// Takes a configuration as it was decoded from JSON and holds it to the rules.
    pub fn parse(decoded: Result<StsConfig, serde_json::Error>) -> (r: Result<Self, ConfigError>)
        ensures
            match decoded {
                Ok(config) => match config_fault(config) {
                    Some(fault) => r is Err && r->Err_0@ == fault,
                    None => r == Ok::<Self, ConfigError>(config),
                },
                Err(error) => r == Err::<Self, ConfigError>(ConfigError::InvalidJson(error)),
            },
    {
        match decoded {
            Ok(config) => match config.validate() {
                Ok(()) => Ok(config),
                Err(error) => Err(error),
            },
            Err(error) => Err(ConfigError::from(error)),
        }
    }

    /// Holds the configuration to the rules. The first rule that is broken is the error: those on
    /// the client before those on the targets, and the targets in the order of their names.
    pub fn validate(&self) -> (r: Result<(), ConfigError>)
        ensures
            tells(r, config_fault(*self)),
            r is Ok <==> config_fault(*self) is None,
            r is Err ==> config_fault(*self) == Some(r->Err_0@),
    {
        if blank(self.region.as_str()) {
            return Err(ConfigError::EmptyRegion);
        }
        if let Some(endpoint) = &self.endpoint_url {
            let chars = chars_of(endpoint.as_str());
            if !has_prefix(&chars, "http://") && !has_prefix(&chars, "https://") {
                return Err(ConfigError::InvalidEndpointScheme);
            }
        }
        if let Some(base) = &self.base_credentials {
            if blank(base.access_key_id.as_str()) {
                return Err(ConfigError::EmptyAccessKeyId);
            }
            if base.secret_access_key.as_str().is_empty() {
                return Err(ConfigError::EmptySecretAccessKey);
            }
        }
        if self.targets.is_empty() {
            return Err(ConfigError::EmptyTargets);
        }
        let ghost entries = self.targets.entries();
        let mut i: usize = 0;
        assert(entries.skip(0) =~= entries);
        while i < self.targets.len()
            invariant
                i <= entries.len(),
                entries == self.targets.entries(),
                client_fault(*self) is None,
                targets_fault(entries) == targets_fault(entries.skip(i as int)),
            decreases entries.len() - i,
        {
            let name = self.targets.name_at(i);
            let target = self.targets.value_at(i);
            let json = match &target.session_policy {
                Some(policy) => chars_of(policy.as_str()).len() <= MAX_SESSION_POLICY_CHARS
                    && is_json(policy.as_str()),
                None => true,
            };
            assert(entries.skip(i as int)[0] == (name@, *target));
            assert(entries.skip(i as int).drop_first() =~= entries.skip(i + 1));
            match check_target(name, target, json) {
                Ok(()) => {},
                Err(error) => {
                    return Err(error);
                },
            }
            i = i + 1;
        }
        Ok(())
    }
}

/// What the rules ask of a target.
pub open spec fn target_accepted(target: TargetConfig) -> bool {
    let arn = target.role_arn@;
    &&& target.identity_mapping == IdentityMapping::Static ==> is_role_arn(arn)
    &&& target.identity_mapping == IdentityMapping::SubjectId ==> arn.len() == 0 || is_role_arn(arn)
    &&& target.identity_mapping == IdentityMapping::FromRole ==> arn.len() == 0 || is_role_arn(arn)
    &&& target.identity_mapping == IdentityMapping::Template ==> target.role_arn_template is Some
        && target.role_arn_template->0@.len() > 0
    &&& target.allowed_role_arns is Some ==> forall|i: int|
        0 <= i < target.allowed_role_arns->0@.len() ==> is_role_arn(
            (#[trigger] target.allowed_role_arns->0@[i])@,
        )
    &&& target.duration_seconds is Some ==> MIN_DURATION_SECONDS <= target.duration_seconds->0
        <= MAX_DURATION_SECONDS
    &&& target.session_policy is Some ==> target.session_policy->0@.len()
        <= MAX_SESSION_POLICY_CHARS && json_document(target.session_policy->0@)
    &&& 1 <= target.max_cache_ttl_ms <= MAX_CACHE_TTL_MS
}

/// What the rules ask of a configuration.
pub open spec fn config_accepted(config: StsConfig) -> bool {
    let entries = config.targets.entries();
    &&& !is_blank(config.region@)
    &&& config.endpoint_url is Some ==> begins_with(config.endpoint_url->0@, "http://"@)
        || begins_with(config.endpoint_url->0@, "https://"@)
    &&& config.base_credentials is Some ==> !is_blank(config.base_credentials->0.access_key_id@)
        && config.base_credentials->0.secret_access_key@.len() > 0
    &&& entries.len() > 0
    &&& forall|i: int| 0 <= i < entries.len() ==> target_accepted((#[trigger] entries[i]).1)
}

proof fn lemma_bad_arn(list: Seq<String>)
    ensures
        first_bad_arn(list) is None <==> forall|i: int|
            0 <= i < list.len() ==> is_role_arn((#[trigger] list[i])@),
    decreases list.len(),
{
    if list.len() > 0 {
        let rest = list.drop_first();
        lemma_bad_arn(rest);
        if first_bad_arn(list) is None {
            assert forall|i: int| 0 <= i < list.len() implies is_role_arn((#[trigger] list[i])@) by {
                if i > 0 {
                    assert(list[i] == rest[i - 1]);
                }
            }
        } else if is_role_arn(list[0]@) {
            let i = choose|i: int| 0 <= i < rest.len() && !is_role_arn((#[trigger] rest[i])@);
            assert(list[i + 1] == rest[i]);
        }
    }
}

proof fn lemma_target(name: Seq<char>, target: TargetConfig)
    ensures
        target_fault(name, target, policy_is_json(target)) is None <==> target_accepted(target),
{
    reveal_with_fuel(crate::role_arn::segments, 1);
    if target.allowed_role_arns is Some {
        lemma_bad_arn(target.allowed_role_arns->0@);
    }
    if target.role_arn@.len() == 0 {
        assert(!is_role_arn(target.role_arn@));
    }
}

proof fn lemma_targets(entries: Seq<(Seq<char>, TargetConfig)>)
    ensures
        targets_fault(entries) is None <==> forall|i: int|
            0 <= i < entries.len() ==> target_accepted((#[trigger] entries[i]).1),
    decreases entries.len(),
{
    if entries.len() > 0 {
        let rest = entries.drop_first();
        lemma_targets(rest);
        lemma_target(entries[0].0, entries[0].1);
        if targets_fault(entries) is None {
            assert forall|i: int| 0 <= i < entries.len() implies target_accepted(
                (#[trigger] entries[i]).1,
            ) by {
                if i > 0 {
                    assert(entries[i] == rest[i - 1]);
                }
            }
        } else if target_accepted(entries[0].1) {
            let i = choose|i: int| 0 <= i < rest.len() && !target_accepted((#[trigger] rest[i]).1);
            assert(entries[i + 1] == rest[i]);
        }
    }
}

/// A configuration passes if and only if it meets every rule, whatever the order in which they are
/// held to it.
pub proof fn accepted_means_every_rule(config: StsConfig)
    ensures
        config_fault(config) is None <==> config_accepted(config),
{
    lemma_targets(config.targets.entries());
}

/// Every target of a configuration that passes meets the rules, by whatever name it is asked for.
pub proof fn accepted_targets_by_name(config: StsConfig, name: Seq<char>)
    requires
        config_fault(config) is None,
        config.targets@.contains_key(name),
    ensures
        target_accepted(config.targets@[name]),
{
    lemma_targets(config.targets.entries());
    let entries = config.targets.entries();
    assert(has_name(entries, name));
    assert(entries[place_of(entries, name)].0 == name);
}

/// A fault of the targets is that of the first target, in the order of the names, that breaks a
/// rule.
pub proof fn fault_is_of_the_first_bad_target(entries: Seq<(Seq<char>, TargetConfig)>)
    ensures
        targets_fault(entries) is Some ==> exists|i: int|
            #![trigger entries[i]]
            0 <= i < entries.len() && targets_fault(entries) == target_fault(
                entries[i].0,
                entries[i].1,
                policy_is_json(entries[i].1),
            ) && forall|j: int| 0 <= j < i ==> target_accepted((#[trigger] entries[j]).1),
    decreases entries.len(),
{
    if targets_fault(entries) is Some {
        let rest = entries.drop_first();
        lemma_target(entries[0].0, entries[0].1);
        if target_accepted(entries[0].1) {
            fault_is_of_the_first_bad_target(rest);
            let i = choose|i: int|
                #![trigger rest[i]]
                0 <= i < rest.len() && targets_fault(rest) == target_fault(
                    rest[i].0,
                    rest[i].1,
                    policy_is_json(rest[i].1),
                ) && forall|j: int| 0 <= j < i ==> target_accepted((#[trigger] rest[j]).1);
            assert(entries[i + 1] == rest[i]);
            assert forall|j: int| 0 <= j < i + 1 implies target_accepted((#[trigger] entries[j]).1) by {
                if j > 0 {
                    assert(entries[j] == rest[j - 1]);
                }
            }
        } else {
            assert(entries[0] == entries[0]);
        }
    }
}

/// What the first bad one of a list of role ARNs is: not well-formed, with none before it that is
/// not. There is one wherever a role ARN of the list is not well-formed.
pub proof fn first_bad_arn_is_the_first(list: Seq<String>)
    ensures
        first_bad_arn(list) is Some ==> exists|i: int|
            #![trigger list[i]]
            0 <= i < list.len() && first_bad_arn(list) == Some(list[i]@) && !is_role_arn(list[i]@)
                && forall|j: int| 0 <= j < i ==> is_role_arn((#[trigger] list[j])@),
        first_bad_arn(list) is None <==> forall|i: int|
            0 <= i < list.len() ==> is_role_arn((#[trigger] list[i])@),
    decreases list.len(),
{
    lemma_bad_arn(list);
    if first_bad_arn(list) is Some {
        let rest = list.drop_first();
        if is_role_arn(list[0]@) {
            first_bad_arn_is_the_first(rest);
            let i = choose|i: int|
                #![trigger rest[i]]
                0 <= i < rest.len() && first_bad_arn(rest) == Some(rest[i]@) && !is_role_arn(
                    rest[i]@,
                ) && forall|j: int| 0 <= j < i ==> is_role_arn((#[trigger] rest[j])@);
            assert(list[i + 1] == rest[i]);
            assert forall|j: int| 0 <= j < i + 1 implies is_role_arn((#[trigger] list[j])@) by {
                if j > 0 {
                    assert(list[j] == rest[j - 1]);
                }
            }
        } else {
            assert(list[0] == list[0]);
        }
    }
}

/// Each rule on a target has an error of its own, which tells the target's name and what breaks the
/// rule. A rule is told of where it is broken and none of those before it is: those on the role, on
/// the allowed roles, on the duration (900 to 43200 seconds), on the session policy (2048 characters
/// at most, and JSON) and on the cache limit (one to 86400000 milliseconds).
pub proof fn faults_of_targets(name: Seq<char>, target: TargetConfig, json: bool)
    ensures
        ({
            let arn = target.role_arn@;
            let by_template = target.identity_mapping == IdentityMapping::Template;
            let no_arn = target.identity_mapping == IdentityMapping::Static && arn.len() == 0;
            let bad_arn = !by_template && arn.len() > 0 && !is_role_arn(arn);
            let no_template = by_template && (target.role_arn_template is None
                || target.role_arn_template->0@.len() == 0);
            let bad_list = target.allowed_role_arns is Some && first_bad_arn(
                target.allowed_role_arns->0@,
            ) is Some;
            let bad_duration = target.duration_seconds is Some && !(900
                <= target.duration_seconds->0 <= 43_200);
            let long_policy = target.session_policy is Some && target.session_policy->0@.len()
                > 2048;
            let bad_policy = target.session_policy is Some && !json;
            let bad_ttl = target.max_cache_ttl_ms == 0 || target.max_cache_ttl_ms > 86_400_000;
            target_fault(name, target, json) == if no_arn {
                Some(ConfigErrorView::StaticTargetMissingArn { name })
            } else if bad_arn {
                Some(ConfigErrorView::InvalidRoleArn { name, arn })
            } else if no_template {
                Some(ConfigErrorView::TemplateTargetMissingTemplate { name })
            } else if bad_list {
                Some(
                    ConfigErrorView::InvalidAllowedRoleArn {
                        name,
                        arn: first_bad_arn(target.allowed_role_arns->0@)->0,
                    },
                )
            } else if bad_duration {
                Some(
                    ConfigErrorView::InvalidDuration { name, secs: target.duration_seconds->0 },
                )
            } else if long_policy {
                Some(ConfigErrorView::SessionPolicyTooLarge { name })
            } else if bad_policy {
                Some(ConfigErrorView::SessionPolicyNotJson { name })
            } else if bad_ttl {
                Some(ConfigErrorView::InvalidMaxCacheTtl { name, ttl: target.max_cache_ttl_ms })
            } else {
                None
            }
        }),
{
}

/// The targets are looked at one by one: a fault of the first is the fault of all, and where it has
/// none the others decide. A session policy counts as JSON where `serde_json` reads it.
pub proof fn faults_of_targets_in_turn(
    name: Seq<char>,
    target: TargetConfig,
    others: Seq<(Seq<char>, TargetConfig)>,
)
    ensures
        targets_fault(Seq::empty()) is None,
        ({
            let json = target.session_policy is Some ==> json_document(target.session_policy->0@);
            let first = target_fault(name, target, json);
            targets_fault(seq![(name, target)] + others) == if first is Some {
                first
            } else {
                targets_fault(others)
            }
        }),
{
    let all = seq![(name, target)] + others;
    assert(all.drop_first() =~= others);
    assert(all[0] == (name, target));
}

/// What is told of a configuration: a blank region, an endpoint that begins with neither `http://`
/// nor `https://`, a blank access key, an empty secret key, that there are no targets, and else the
/// fault of its targets, in this order.
pub proof fn faults_of_configurations(config: StsConfig)
    ensures
        ({
            let region = config.region@;
            let bad_endpoint = config.endpoint_url is Some && !begins_with(
                config.endpoint_url->0@,
                "http://"@,
            ) && !begins_with(config.endpoint_url->0@, "https://"@);
            let bad_key = config.base_credentials is Some && is_blank(
                config.base_credentials->0.access_key_id@,
            );
            let bad_secret = config.base_credentials is Some
                && config.base_credentials->0.secret_access_key@.len() == 0;
            config_fault(config) == if is_blank(region) {
                Some(ConfigErrorView::EmptyRegion)
            } else if bad_endpoint {
                Some(ConfigErrorView::InvalidEndpointScheme)
            } else if bad_key {
                Some(ConfigErrorView::EmptyAccessKeyId)
            } else if bad_secret {
                Some(ConfigErrorView::EmptySecretAccessKey)
            } else if config.targets.entries().len() == 0 {
                Some(ConfigErrorView::EmptyTargets)
            } else {
                targets_fault(config.targets.entries())
            }
        }),
{
}

/// The view of an error is its own variant with its own texts and numbers.
pub proof fn config_errors_as_texts(name: String, arn: String, secs: u32, ttl: u64)
    ensures
        ConfigError::EmptyRegion@ == ConfigErrorView::EmptyRegion,
        ConfigError::InvalidEndpointScheme@ == ConfigErrorView::InvalidEndpointScheme,
        ConfigError::EmptyAccessKeyId@ == ConfigErrorView::EmptyAccessKeyId,
        ConfigError::EmptySecretAccessKey@ == ConfigErrorView::EmptySecretAccessKey,
        ConfigError::EmptyTargets@ == ConfigErrorView::EmptyTargets,
        (ConfigError::StaticTargetMissingArn { name })@ == (
        ConfigErrorView::StaticTargetMissingArn { name: name@ }),
        (ConfigError::TemplateTargetMissingTemplate { name })@ == (
        ConfigErrorView::TemplateTargetMissingTemplate { name: name@ }),
        (ConfigError::InvalidRoleArn { name, arn })@ == (ConfigErrorView::InvalidRoleArn {
            name: name@,
            arn: arn@,
        }),
        (ConfigError::InvalidAllowedRoleArn { name, arn })@ == (
        ConfigErrorView::InvalidAllowedRoleArn { name: name@, arn: arn@ }),
        (ConfigError::InvalidDuration { name, secs })@ == (ConfigErrorView::InvalidDuration {
            name: name@,
            secs,
        }),
        (ConfigError::SessionPolicyTooLarge { name })@ == (
        ConfigErrorView::SessionPolicyTooLarge { name: name@ }),
        (ConfigError::SessionPolicyNotJson { name })@ == (ConfigErrorView::SessionPolicyNotJson {
            name: name@,
        }),
        (ConfigError::InvalidMaxCacheTtl { name, ttl })@ == (ConfigErrorView::InvalidMaxCacheTtl {
            name: name@,
            ttl,
        }),
{
}

} // verus!
