//! Issuing a credential: what is decided before STS is asked, and what is made of its reply.

use vstd::prelude::*;

use crate::clock::{
    clock_gave, clock_wrote, ends_as_utc_time, now_rfc3339, readings_are_of_the_clock, unix_now,
};
use crate::config::{
    accepted_targets_by_name, config_fault, IdentityMapping, StsConfig,
    TargetConfig, MAX_DURATION_SECONDS, MAX_SESSION_POLICY_CHARS, MIN_DURATION_SECONDS,
};
use crate::identity_mapping::{
    expansion, is_known_field, resolve_role, role_for, template_of, PluginIdentity, Resolution,
    ResolutionView, TemplateFaultView,
};
use crate::json::json_document;
use crate::name_map::NameMap;
use crate::role_arn::{is_role_arn, is_valid_role_arn, segments};
use crate::session::{
    cache_outlives_nothing, cap_ttl_seconds, capped_ttl, is_session_name, session_name,
    session_name_of, session_names_suit_sts,
};
use crate::sts_client::{
    failure_meaning, read_reply, seconds_left, AssumeRequest, AssumeRoleOutput, CredentialError,
    CredentialErrorView, SdkFailure,
};
use crate::text::{opt_text, same_text, texts};

verus! {

/// Why a request is refused before STS is asked.
#[derive(Debug, Clone, Copy, PartialEq, Eq, Structural)]
pub enum RefusalKind {
    /// The configuration has no target of that name.
    UnknownTarget,
    /// The role comes from an identity that is not verified.
    UntrustedIdentity,
    /// What was found is no role ARN.
    InvalidRoleArn,
    /// The role comes from the identity and is not among the target's allowed ones.
    ArnNotAllowed,
    /// The identity gives no role and the operator fixed none.
    EmptyIdentity,
    /// The template could not be filled.
    SubstitutionFailed,
}

impl RefusalKind {
    /// The label under which refusals of this kind are counted. Requests for unknown targets are
    /// not counted.
    pub open spec fn label_text(self) -> Option<Seq<char>> {
        match self {
            RefusalKind::UnknownTarget => None,
            RefusalKind::UntrustedIdentity => Some("untrusted_identity"@),
            RefusalKind::InvalidRoleArn => Some("invalid_role_arn"@),
            RefusalKind::ArnNotAllowed => Some("arn_not_allowed"@),
            RefusalKind::EmptyIdentity => Some("empty_identity"@),
            RefusalKind::SubstitutionFailed => Some("substitution_failed"@),
        }
    }

    /// The label under which refusals of this kind are counted.
    pub fn label(self) -> (r: Option<&'static str>)
        ensures
            match r {
                Some(label) => self.label_text() == Some(label@),
                None => self.label_text() is None,
            },
    {
        match self {
            RefusalKind::UnknownTarget => None,
            RefusalKind::UntrustedIdentity => Some("untrusted_identity"),
            RefusalKind::InvalidRoleArn => Some("invalid_role_arn"),
            RefusalKind::ArnNotAllowed => Some("arn_not_allowed"),
            RefusalKind::EmptyIdentity => Some("empty_identity"),
            RefusalKind::SubstitutionFailed => Some("substitution_failed"),
        }
    }
}

/// A request that is refused before STS is asked.
#[derive(Debug)]
pub struct Refusal {
    pub kind: RefusalKind,
    pub error: CredentialError,
}

/// A refusal with its text as a sequence of characters.
pub struct RefusalView {
    pub kind: RefusalKind,
    pub error: CredentialErrorView,
}

impl View for Refusal {
    type V = RefusalView;

    open spec fn view(&self) -> RefusalView {
        RefusalView { kind: self.kind, error: self.error@ }
    }
}

/// A refusal for want of authorization.
pub open spec fn refused(kind: RefusalKind, reason: Seq<char>) -> RefusalView {
    RefusalView { kind, error: CredentialErrorView::NotAuthorized { reason } }
}

/// The role that a caller may assume, of the one that was found.
///
/// A role that the caller's identity led to is for verified callers only, and has to be among the
/// target's allowed ones where the target lists them. A role that the operator fixed is for every
/// caller.
pub open spec fn permitted_role(
    found: ResolutionView,
    trust_level: Seq<char>,
    allowed: Option<Seq<Seq<char>>>,
) -> Result<Seq<char>, RefusalView> {
    match found {
        ResolutionView::Role { arn, identity_derived } => if identity_derived && trust_level
            != "verified"@ {
            Err(
                refused(
                    RefusalKind::UntrustedIdentity,
                    "identity-derived role ARN requires Verified trust; caller trust is `"@
                        + trust_level + "`"@,
                ),
            )
        } else if !is_role_arn(arn) {
            Err(
                refused(
                    RefusalKind::InvalidRoleArn,
                    "resolved value is not a valid IAM role ARN"@,
                ),
            )
        } else if identity_derived && allowed is Some && !allowed->0.contains(arn) {
            Err(
                refused(
                    RefusalKind::ArnNotAllowed,
                    "resolved role ARN is not in this target's allowed_role_arns"@,
                ),
            )
        } else {
            Ok(arn)
        },
        ResolutionView::EmptyDerived { reason } => Err(refused(RefusalKind::EmptyIdentity, reason)),
        ResolutionView::SubstitutionFailed { field } => Err(
            refused(
                RefusalKind::SubstitutionFailed,
                "identity template substitution failed: field `"@ + field
                    + "` is None or out-of-bounds"@,
            ),
        ),
    }
}

/// The texts of an optional list.
pub open spec fn opt_texts(list: Option<Vec<String>>) -> Option<Seq<Seq<char>>> {
    match list {
        Some(list) => Some(texts(list@)),
        None => None,
    }
}

fn lists(list: &Vec<String>, text: &String) -> (r: bool)
    ensures
        r == texts(list@).contains(text@),
{
    let mut i: usize = 0;
    while i < list.len()
        invariant
            i <= list.len(),
            forall|j: int| 0 <= j < i ==> (#[trigger] list@[j])@ != text@,
        decreases list.len() - i,
    {
        if list[i] == *text {
            assert(texts(list@)[i as int] == text@);
            return true;
        }
        i = i + 1;
    }
    assert forall|j: int| 0 <= j < texts(list@).len() implies texts(list@)[j] != text@ by {
        assert(texts(list@)[j] == list@[j]@);
    }
    false
}

fn not_authorized(kind: RefusalKind, reason: String) -> (r: Refusal)
    ensures
        r@ == refused(kind, reason@),
{
    Refusal { kind, error: CredentialError::NotAuthorized { reason } }
}

/// Holds the role that was found for a caller to the rules on who may assume what.
pub fn authorize_role(
    found: Resolution,
    trust_level: &str,
    allowed: &Option<Vec<String>>,
) -> (r: Result<String, Refusal>)
    ensures
        match permitted_role(found@, trust_level@, opt_texts(*allowed)) {
            Ok(arn) => r is Ok && r->Ok_0@ == arn,
            Err(refusal) => r is Err && r->Err_0@ == refusal,
        },
{
    match found {
        Resolution::Role { arn, identity_derived } => {
            if identity_derived && !same_text(trust_level, "verified") {
                let mut reason =
                    "identity-derived role ARN requires Verified trust; caller trust is `".to_owned();
                reason.append(trust_level);
                reason.append("`");
                return Err(not_authorized(RefusalKind::UntrustedIdentity, reason));
            }
            if !is_valid_role_arn(arn.as_str()) {
                return Err(
                    not_authorized(
                        RefusalKind::InvalidRoleArn,
                        "resolved value is not a valid IAM role ARN".to_owned(),
                    ),
                );
            }
            if identity_derived {
                if let Some(list) = allowed {
                    if !lists(list, &arn) {
                        return Err(
                            not_authorized(
                                RefusalKind::ArnNotAllowed,
                                "resolved role ARN is not in this target's allowed_role_arns".to_owned(),
                            ),
                        );
                    }
                }
            }
            Ok(arn)
        },
        Resolution::EmptyDerived { reason } => Err(
            not_authorized(RefusalKind::EmptyIdentity, reason),
        ),
        Resolution::SubstitutionFailed { field } => {
            let mut reason = "identity template substitution failed: field `".to_owned();
            reason.append(field.as_str());
            reason.append("` is None or out-of-bounds");
            Err(not_authorized(RefusalKind::SubstitutionFailed, reason))
        },
    }
}

/// What to ask of STS, and how long the credential may be cached.
#[derive(Debug)]
pub struct IssuePlan {
    pub request: AssumeRequest,
    pub max_cache_ttl_ms: u64,
}

/// A plan with its texts as sequences of characters.
pub struct IssuePlanView {
    pub role_arn: Seq<char>,
    pub session_name: Seq<char>,
    pub duration_seconds: Option<i32>,
    pub external_id: Option<Seq<char>>,
    pub session_policy: Option<Seq<char>>,
    pub max_cache_ttl_ms: u64,
}

impl View for IssuePlan {
    type V = IssuePlanView;

    open spec fn view(&self) -> IssuePlanView {
        IssuePlanView {
            role_arn: self.request.role_arn@,
            session_name: self.request.session_name@,
            duration_seconds: self.request.duration_seconds,
            external_id: opt_text(self.request.external_id),
            session_policy: opt_text(self.request.session_policy),
            max_cache_ttl_ms: self.max_cache_ttl_ms,
        }
    }
}

/// What is asked of STS for a caller and a target, once the role is settled.
pub open spec fn plan_of(
    role_arn: Seq<char>,
    identity: PluginIdentity,
    target: TargetConfig,
) -> IssuePlanView {
    IssuePlanView {
        role_arn,
        session_name: session_name_of(
            opt_text(identity.subject_id),
            opt_text(target.session_name_prefix),
        ),
        duration_seconds: match target.duration_seconds {
            Some(secs) => Some(secs as i32),
            None => None,
        },
        external_id: opt_text(target.external_id),
        session_policy: opt_text(target.session_policy),
        max_cache_ttl_ms: target.max_cache_ttl_ms,
    }
}

/// What a caller's request for a target leads to.
pub open spec fn ruling(
    config: StsConfig,
    identity: PluginIdentity,
    target: Seq<char>,
) -> Result<IssuePlanView, RefusalView> {
    if !config.targets@.contains_key(target) {
        Err(
            RefusalView {
                kind: RefusalKind::UnknownTarget,
                error: CredentialErrorView::Misconfigured { reason: "unknown target: "@ + target },
            },
        )
    } else {
        let chosen = config.targets@[target];
        match permitted_role(
            role_for(identity, chosen),
            identity.trust_level@,
            opt_texts(chosen.allowed_role_arns),
        ) {
            Ok(role_arn) => Ok(plan_of(role_arn, identity, chosen)),
            Err(refusal) => Err(refusal),
        }
    }
}

fn slice_of(text: &Option<String>) -> (r: Option<&str>)
    ensures
        crate::text::opt_str(r) == opt_text(*text),
{
    match text {
        Some(t) => Some(t.as_str()),
        None => None,
    }
}

/// Decides on a caller's request for a target: what to ask of STS, or why the request is refused.
pub fn begin_issue(config: &StsConfig, identity: &PluginIdentity, target: &str) -> (r: Result<
    IssuePlan,
    Refusal,
>)
    ensures
        match ruling(*config, *identity, target@) {
            Ok(plan) => r is Ok && r->Ok_0@ == plan,
            Err(refusal) => r is Err && r->Err_0@ == refusal,
        },
        r is Ok ==> config.targets@.contains_key(target@),
        r is Ok ==> ({
            let asked = r->Ok_0.request;
            let chosen = config.targets@[target@];
            &&& asked.external_id is Some <==> chosen.external_id is Some
            &&& chosen.external_id is Some ==> asked.external_id->0@ == chosen.external_id->0@
            &&& asked.session_policy is Some <==> chosen.session_policy is Some
            &&& chosen.session_policy is Some ==> asked.session_policy->0@
                == chosen.session_policy->0@
            &&& asked.duration_seconds is Some <==> chosen.duration_seconds is Some
            &&& chosen.duration_seconds is Some ==> asked.duration_seconds->0
                == chosen.duration_seconds->0 as i32
            &&& r->Ok_0.max_cache_ttl_ms == chosen.max_cache_ttl_ms
        }),
{
    let chosen = match config.targets.get(target) {
        Some(chosen) => chosen,
        None => {
            let mut reason = "unknown target: ".to_owned();
            reason.append(target);
            return Err(
                Refusal {
                    kind: RefusalKind::UnknownTarget,
                    error: CredentialError::Misconfigured { reason },
                },
            );
        },
    };
    let found = resolve_role(identity, chosen);
    let role_arn = match authorize_role(
        found,
        identity.trust_level.as_str(),
        &chosen.allowed_role_arns,
    ) {
        Ok(role_arn) => role_arn,
        Err(refusal) => {
            return Err(refusal);
        },
    };
    let name = session_name(slice_of(&identity.subject_id), slice_of(&chosen.session_name_prefix));
    let duration_seconds: Option<i32> = match chosen.duration_seconds {
        Some(secs) => Some(secs as i32),
        None => None,
    };
    Ok(
        IssuePlan {
            request: AssumeRequest {
                role_arn,
                session_name: name,
                duration_seconds,
                external_id: chosen.external_id.clone(),
                session_policy: chosen.session_policy.clone(),
            },
            max_cache_ttl_ms: chosen.max_cache_ttl_ms,
        },
    )
}

/// A credential as it is handed to the gateway.
#[derive(Debug)]
pub struct IssuedCredential {
    /// A credential in one piece; there is none of AWS.
    pub value: Option<String>,
    /// The pieces of the credential by their names.
    pub parts: NameMap<String>,
    /// For how long the credential may be cached.
    pub ttl_seconds: u64,
    /// A handle to revoke the credential by; sessions of STS have none and end by themselves.
    pub lease_id: Option<String>,
    /// The time of issue.
    pub issued_at: String,
    /// What is told of the credential beside it.
    pub metadata: NameMap<String>,
}

/// A credential with its texts as sequences of characters.
#[verifier::ext_equal]
pub struct IssuedCredentialView {
    pub value: Option<Seq<char>>,
    pub parts: Map<Seq<char>, Seq<char>>,
    pub ttl_seconds: int,
    pub lease_id: Option<Seq<char>>,
    pub issued_at: Seq<char>,
    pub metadata: Map<Seq<char>, Seq<char>>,
}

/// The names with the texts that they stand for.
pub open spec fn text_map(map: Map<Seq<char>, String>) -> Map<Seq<char>, Seq<char>> {
    map.map_values(|text: String| text@)
}

impl View for IssuedCredential {
    type V = IssuedCredentialView;

    open spec fn view(&self) -> IssuedCredentialView {
        IssuedCredentialView {
            value: opt_text(self.value),
            parts: text_map(self.parts@),
            ttl_seconds: self.ttl_seconds as int,
            lease_id: opt_text(self.lease_id),
            issued_at: self.issued_at@,
            metadata: text_map(self.metadata@),
        }
    }
}

/// What is told of a credential: the role and the session's name that were asked for, and the
/// principal that STS tells of, where it does.
pub open spec fn metadata_of(plan: IssuePlanView, output: AssumeRoleOutput) -> Map<
    Seq<char>,
    Seq<char>,
> {
    let asked = Map::<Seq<char>, Seq<char>>::empty().insert(
        "aws.role_arn"@,
        plan.role_arn,
    ).insert("aws.session_name"@, plan.session_name);
    match output.assumed_role_user {
        Some(user) => asked.insert("aws.assumed_role_id"@, user.assumed_role_id@).insert(
            "aws.assumed_role_arn"@,
            user.arn@,
        ),
        None => asked,
    }
}

/// What a plan and the reply of STS lead to, with the reply read at `now`, in seconds since 1970,
/// and the credential issued at `issued_at`.
pub open spec fn outcome(
    plan: IssuePlanView,
    reply: Result<AssumeRoleOutput, SdkFailure>,
    now: i64,
    issued_at: Seq<char>,
) -> Result<IssuedCredentialView, CredentialErrorView> {
    match reply {
        Ok(output) => match output.credentials {
            Some(creds) => Ok(
                IssuedCredentialView {
                    value: None,
                    parts: Map::<Seq<char>, Seq<char>>::empty().insert(
                        "access_key_id"@,
                        creds.access_key_id@,
                    ).insert("secret_access_key"@, creds.secret_access_key@).insert(
                        "session_token"@,
                        creds.session_token@,
                    ),
                    ttl_seconds: capped_ttl(
                        seconds_left(creds.expiration_secs as int, now as int),
                        plan.max_cache_ttl_ms as int,
                    ),
                    lease_id: None,
                    issued_at,
                    metadata: metadata_of(plan, output),
                },
            ),
            None => Err(
                CredentialErrorView::Backend { reason: "STS AssumeRole returned no credentials"@ },
            ),
        },
        Err(failure) => Err(failure_meaning(failure)),
    }
}

/// Binds the name `name` to `text`.
fn put(map: &mut NameMap<String>, name: &str, text: String)
    ensures
        text_map(final(map)@) == text_map(old(map)@).insert(name@, text@),
{
    map.insert(name.to_owned(), text);
    assert(text_map(map@) =~= text_map(old(map)@).insert(name@, text@));
}

fn new_map() -> (r: NameMap<String>)
    ensures
        text_map(r@) == Map::<Seq<char>, Seq<char>>::empty(),
{
    let r = NameMap::new();
    assert(text_map(r@) =~= Map::<Seq<char>, Seq<char>>::empty());
    r
}

/// Makes the credential of the reply to what `plan` asked of STS, with the reply read at `now`, in
/// seconds since 1970, and the credential issued at `issued_at`.
pub fn finish_issue(
    plan: IssuePlan,
    reply: Result<AssumeRoleOutput, SdkFailure>,
    now: i64,
    issued_at: String,
) -> (r: Result<IssuedCredential, CredentialError>)
    ensures
        match outcome(plan@, reply, now, issued_at@) {
            Ok(credential) => r is Ok && r->Ok_0@ == credential,
            Err(error) => r is Err && r->Err_0@ == error,
        },
        r is Ok ==> r->Ok_0.issued_at == issued_at,
{
    let creds = match read_reply(reply, now) {
        Ok(creds) => creds,
        Err(error) => {
            return Err(error);
        },
    };
    let ttl_seconds = cap_ttl_seconds(creds.expiry_secs, plan.max_cache_ttl_ms);
    let mut parts = new_map();
    put(&mut parts, "access_key_id", creds.access_key_id);
    put(&mut parts, "secret_access_key", creds.secret_access_key);
    put(&mut parts, "session_token", creds.session_token);
    let mut metadata = new_map();
    put(&mut metadata, "aws.role_arn", plan.request.role_arn);
    put(&mut metadata, "aws.session_name", plan.request.session_name);
    if let Some(id) = creds.assumed_role_id {
        put(&mut metadata, "aws.assumed_role_id", id);
    }
    if let Some(arn) = creds.assumed_role_arn {
        put(&mut metadata, "aws.assumed_role_arn", arn);
    }
    Ok(IssuedCredential { value: None, parts, ttl_seconds, lease_id: None, issued_at, metadata })
}

/// Makes the credential of the reply to what `plan` asked of STS, at the present time.
pub fn finish_issue_now(
    plan: IssuePlan,
    reply: Result<AssumeRoleOutput, SdkFailure>,
) -> (r: Result<IssuedCredential, CredentialError>)
    ensures
        r is Ok <==> reply is Ok && reply->Ok_0.credentials is Some,
        reply is Err ==> r->Err_0@ == failure_meaning(reply->Err_0),
        exists|now: i64, issued_at: Seq<char>|
            0 <= now && ends_as_utc_time(issued_at) && match #[trigger] outcome(
                plan@,
                reply,
                now,
                issued_at,
            ) {
                Ok(credential) => r is Ok && r->Ok_0@ == credential,
                Err(error) => r is Err && r->Err_0@ == error,
            },
        exists|now: i64, issued_at: String|
            #![trigger clock_gave(now), clock_wrote(issued_at)]
            clock_gave(now) && clock_wrote(issued_at) && match outcome(
                plan@,
                reply,
                now,
                issued_at@,
            ) {
                Ok(credential) => r is Ok && r->Ok_0@ == credential,
                Err(error) => r is Err && r->Err_0@ == error,
            },
        r is Ok ==> exists|now: i64|
            #[trigger] clock_gave(now) && ({
                let left = reply->Ok_0.credentials->0.expiration_secs - now;
                let limit = plan.max_cache_ttl_ms;
                let ttl = r->Ok_0.ttl_seconds;
                &&& 1 <= ttl
                &&& ttl <= left || ttl == 1
                &&& ttl * 1000 <= limit || ttl == 1
                &&& left <= ttl || limit < (ttl + 1) * 1000
            }),
        r is Ok ==> clock_wrote(r->Ok_0.issued_at),
{
    let now = unix_now();
    let issued_at = now_rfc3339();
    proof {
        readings_are_of_the_clock(now, issued_at);
        if reply is Ok && reply->Ok_0.credentials is Some {
            credentials_are_cached_within_limits(plan@, reply->Ok_0, now, issued_at@);
            credentials_are_cached_to_the_end(plan@, reply->Ok_0, now, issued_at@);
        }
    }
    finish_issue(plan, reply, now, issued_at)
}

/// Revokes a credential. Sessions of STS cannot be revoked one by one; they end by themselves, so
/// there is nothing to do.
pub fn revoke(_lease_id: &str) -> (r: Result<(), CredentialError>)
    ensures
        r is Ok,
{
    Ok(())
}

/// The role of every plan is well-formed, and is the one that the target's mapping gives the
/// caller. Where the caller's identity led to it, the caller is verified, and the role is among the
/// target's allowed ones where the target lists them.
pub proof fn security_floor(config: StsConfig, identity: PluginIdentity, target: Seq<char>)
    requires
        ruling(config, identity, target) is Ok,
    ensures
        config.targets@.contains_key(target),
        is_role_arn(ruling(config, identity, target)->Ok_0.role_arn),
        ({
            let chosen = config.targets@[target];
            let found = role_for(identity, chosen);
            &&& found is Role
            &&& found->arn == ruling(config, identity, target)->Ok_0.role_arn
            &&& found->identity_derived ==> identity.trust_level@ == "verified"@
            &&& found->identity_derived && chosen.allowed_role_arns is Some ==> texts(
                chosen.allowed_role_arns->0@,
            ).contains(found->arn)
        }),
{
}

/// A caller who is not verified has no say in the role: what such a caller may assume is the role
/// that the operator fixed for the target.
pub proof fn unverified_callers_steer_nothing(
    config: StsConfig,
    identity: PluginIdentity,
    target: Seq<char>,
)
    requires
        identity.trust_level@ != "verified"@,
        ruling(config, identity, target) is Ok,
    ensures
        ruling(config, identity, target)->Ok_0.role_arn == config.targets@[target].role_arn@,
{
}

/// A target with a static mapping serves every caller, verified or not, with the role that the
/// operator fixed, whatever the target's list of allowed roles.
pub proof fn static_targets_serve_everyone(
    config: StsConfig,
    identity: PluginIdentity,
    target: Seq<char>,
)
    requires
        config_fault(config) is None,
        config.targets@.contains_key(target),
        config.targets@[target].identity_mapping == IdentityMapping::Static,
    ensures
        ruling(config, identity, target) == Ok::<IssuePlanView, RefusalView>(
            plan_of(config.targets@[target].role_arn@, identity, config.targets@[target]),
        ),
{
    accepted_targets_by_name(config, target);
}

/// The identity gives no usable value for the target's mapping: no subject, no first role, or not
/// what the template speaks of.
pub open spec fn gives_no_role(identity: PluginIdentity, target: TargetConfig) -> bool {
    let filled = expansion(template_of(target), identity);
    ||| target.identity_mapping == IdentityMapping::SubjectId && (identity.subject_id is None
        || identity.subject_id->0@.len() == 0)
    ||| target.identity_mapping == IdentityMapping::FromRole && (identity.roles@.len() == 0
        || identity.roles@[0]@.len() == 0)
    ||| target.identity_mapping == IdentityMapping::Template && match filled {
        Ok(arn) => arn.len() == 0,
        Err(fault) => fault is NoValue && is_known_field(fault->field),
    }
}

/// A caller whose identity gives no role is served with the role that the operator fixed, whatever
/// the caller's trust and the target's list of allowed roles, and refused where the operator fixed
/// none. Only with a template can a configuration pass whose fixed role is not well-formed; such a
/// role serves nobody.
pub proof fn fixed_role_for_callers_without_one(
    config: StsConfig,
    identity: PluginIdentity,
    target: Seq<char>,
)
    requires
        config_fault(config) is None,
        config.targets@.contains_key(target),
        gives_no_role(identity, config.targets@[target]),
    ensures
        ({
            let chosen = config.targets@[target];
            let ruled = ruling(config, identity, target);
            &&& is_role_arn(chosen.role_arn@) ==> ruled == Ok::<IssuePlanView, RefusalView>(
                plan_of(chosen.role_arn@, identity, chosen),
            )
            &&& chosen.role_arn@.len() > 0 && !is_role_arn(chosen.role_arn@) ==> ruled is Err
                && ruled->Err_0.kind == RefusalKind::InvalidRoleArn && chosen.identity_mapping
                == IdentityMapping::Template
            &&& chosen.role_arn@.len() == 0 ==> ruled is Err && (ruled->Err_0.kind
                == RefusalKind::EmptyIdentity || ruled->Err_0.kind
                == RefusalKind::SubstitutionFailed)
        }),
{
    accepted_targets_by_name(config, target);
    reveal_with_fuel(segments, 1);
    if config.targets@[target].role_arn@.len() == 0 {
        assert(!is_role_arn(config.targets@[target].role_arn@));
    }
}

/// A template that is at fault itself, with a placeholder that is not closed or that names no field
/// there is, serves no caller who gets as far as that placeholder, whatever role the operator fixed.
pub proof fn faulty_templates_serve_nobody(
    config: StsConfig,
    identity: PluginIdentity,
    target: Seq<char>,
)
    requires
        config.targets@.contains_key(target),
        config.targets@[target].identity_mapping == IdentityMapping::Template,
        match expansion(template_of(config.targets@[target]), identity) {
            Ok(arn) => false,
            Err(fault) => fault is NoValue ==> !is_known_field(fault->field),
        },
    ensures
        ruling(config, identity, target) is Err,
        ruling(config, identity, target)->Err_0.kind == RefusalKind::SubstitutionFailed,
{
}

/// A verified caller gets the role that the identity leads to, if and only if it is a well-formed
/// role ARN and, where the target lists allowed roles, one of them.
pub proof fn verified_callers_get_their_role(
    config: StsConfig,
    identity: PluginIdentity,
    target: Seq<char>,
    arn: Seq<char>,
)
    requires
        config.targets@.contains_key(target),
        identity.trust_level@ == "verified"@,
        role_for(identity, config.targets@[target]) == (ResolutionView::Role {
            arn,
            identity_derived: true,
        }),
    ensures
        ruling(config, identity, target) is Ok <==> is_role_arn(arn) && (
        config.targets@[target].allowed_role_arns is Some ==> texts(
            config.targets@[target].allowed_role_arns->0@,
        ).contains(arn)),
        ruling(config, identity, target) is Ok ==> ruling(config, identity, target)->Ok_0
            == plan_of(arn, identity, config.targets@[target]),
{
}

/// That a caller cannot have a role is a matter of authorization; only a target that does not exist
/// is a matter of configuration.
pub proof fn refusals_are_about_authorization(
    config: StsConfig,
    identity: PluginIdentity,
    target: Seq<char>,
)
    requires
        ruling(config, identity, target) is Err,
    ensures
        config.targets@.contains_key(target) ==> ruling(config, identity, target)->Err_0.error
            is NotAuthorized,
        !config.targets@.contains_key(target) ==> ruling(config, identity, target)->Err_0.error
            is Misconfigured,
        ruling(config, identity, target)->Err_0.kind == RefusalKind::UnknownTarget
            <==> !config.targets@.contains_key(target),
{
}

/// What is asked of STS under a configuration that passes is within the limits of STS: a session
/// name that it takes, a duration that it gives, and a session policy in JSON.
pub proof fn plans_suit_sts(config: StsConfig, identity: PluginIdentity, target: Seq<char>)
    requires
        config_fault(config) is None,
        ruling(config, identity, target) is Ok,
    ensures
        ({
            let plan = ruling(config, identity, target)->Ok_0;
            &&& is_session_name(plan.session_name)
            &&& plan.duration_seconds is Some ==> MIN_DURATION_SECONDS <= plan.duration_seconds->0
                <= MAX_DURATION_SECONDS
            &&& plan.session_policy is Some ==> json_document(plan.session_policy->0)
                && plan.session_policy->0.len() <= MAX_SESSION_POLICY_CHARS
            &&& 1 <= plan.max_cache_ttl_ms
        }),
{
    accepted_targets_by_name(config, target);
    let chosen = config.targets@[target];
    session_names_suit_sts(opt_text(identity.subject_id), opt_text(chosen.session_name_prefix));
}

/// A credential is cached for at least a second, never beyond the end of its session (with a second
/// as the least that is left of one), and never beyond the operator's limit (with a second as the
/// least limit).
pub proof fn credentials_are_cached_within_limits(
    plan: IssuePlanView,
    output: AssumeRoleOutput,
    now: i64,
    issued_at: Seq<char>,
)
    requires
        output.credentials is Some,
    ensures
        ({
            let credential = outcome(plan, Ok(output), now, issued_at)->Ok_0;
            let left = output.credentials->0.expiration_secs - now;
            &&& outcome(plan, Ok(output), now, issued_at) is Ok
            &&& 1 <= credential.ttl_seconds
            &&& 1 <= left ==> credential.ttl_seconds <= left
            &&& left < 1 ==> credential.ttl_seconds == 1
            &&& 1000 <= plan.max_cache_ttl_ms ==> credential.ttl_seconds * 1000
                <= plan.max_cache_ttl_ms
            &&& plan.max_cache_ttl_ms < 1000 ==> credential.ttl_seconds == 1
        }),
{
    cache_outlives_nothing(
        seconds_left(output.credentials->0.expiration_secs as int, now as int),
        plan.max_cache_ttl_ms as int,
    );
}

/// A credential has the three parts of an AWS session and no others, each as STS gave it. It has no
/// value in one piece and no lease to revoke it by.
pub proof fn credentials_carry_the_session(
    plan: IssuePlanView,
    output: AssumeRoleOutput,
    now: i64,
    issued_at: Seq<char>,
)
    requires
        output.credentials is Some,
    ensures
        ({
            let credential = outcome(plan, Ok(output), now, issued_at)->Ok_0;
            let creds = output.credentials->0;
            &&& credential.parts.dom() == set![
                "access_key_id"@,
                "secret_access_key"@,
                "session_token"@,
            ]
            &&& credential.parts["access_key_id"@] == creds.access_key_id@
            &&& credential.parts["secret_access_key"@] == creds.secret_access_key@
            &&& credential.parts["session_token"@] == creds.session_token@
            &&& credential.value is None
            &&& credential.lease_id is None
        }),
{
    reveal_strlit("access_key_id");
    reveal_strlit("secret_access_key");
    reveal_strlit("session_token");
    assert("access_key_id"@[0] != "secret_access_key"@[0]);
    assert("access_key_id"@[0] != "session_token"@[0]);
    assert("secret_access_key"@[2] != "session_token"@[2]);
    let credential = outcome(plan, Ok(output), now, issued_at)->Ok_0;
    assert(credential.parts.dom() =~= set![
        "access_key_id"@,
        "secret_access_key"@,
        "session_token"@,
    ]);
}

/// A credential tells the role and the session name that were asked for, so that what is done with
/// it can be put down to the caller.
pub proof fn credentials_tell_role_and_session(
    plan: IssuePlanView,
    output: AssumeRoleOutput,
    now: i64,
    issued_at: Seq<char>,
)
    requires
        output.credentials is Some,
    ensures
        ({
            let credential = outcome(plan, Ok(output), now, issued_at)->Ok_0;
            &&& credential.metadata.contains_key("aws.role_arn"@)
            &&& credential.metadata["aws.role_arn"@] == plan.role_arn
            &&& credential.metadata.contains_key("aws.session_name"@)
            &&& credential.metadata["aws.session_name"@] == plan.session_name
        }),
{
    reveal_strlit("aws.role_arn");
    reveal_strlit("aws.session_name");
    reveal_strlit("aws.assumed_role_id");
    reveal_strlit("aws.assumed_role_arn");
    assert("aws.role_arn"@[4] != "aws.session_name"@[4]);
    assert("aws.role_arn"@[4] != "aws.assumed_role_id"@[4]);
    assert("aws.role_arn"@[4] != "aws.assumed_role_arn"@[4]);
    assert("aws.session_name"@[4] != "aws.assumed_role_id"@[4]);
    assert("aws.session_name"@[4] != "aws.assumed_role_arn"@[4]);
}

/// A credential is cached for as long as its session lasts or the operator's limit allows: another
/// second would be beyond one of the two.
pub proof fn credentials_are_cached_to_the_end(
    plan: IssuePlanView,
    output: AssumeRoleOutput,
    now: i64,
    issued_at: Seq<char>,
)
    requires
        output.credentials is Some,
    ensures
        ({
            let credential = outcome(plan, Ok(output), now, issued_at)->Ok_0;
            let left = output.credentials->0.expiration_secs - now;
            left <= credential.ttl_seconds || plan.max_cache_ttl_ms < (credential.ttl_seconds + 1)
                * 1000
        }),
{
}

/// Whatever is issued at the present time is reckoned by the clock: its cache time is what was left
/// of the session, or the operator's limit where that is less, at a time that the clock gave, and
/// its time of issue is one that the clock gave.
pub proof fn credentials_are_issued_by_the_clock(
    plan: IssuePlan,
    reply: Result<AssumeRoleOutput, SdkFailure>,
    r: Result<IssuedCredential, CredentialError>,
)
    requires
        call_ensures(finish_issue_now, (plan, reply), r),
    ensures
        r is Ok <==> reply is Ok && reply->Ok_0.credentials is Some,
        r is Ok ==> exists|now: i64|
            #[trigger] clock_gave(now) && ({
                let left = reply->Ok_0.credentials->0.expiration_secs - now;
                let limit = plan.max_cache_ttl_ms;
                let ttl = r->Ok_0.ttl_seconds;
                &&& 1 <= ttl
                &&& ttl <= left || ttl == 1
                &&& ttl * 1000 <= limit || ttl == 1
                &&& left <= ttl || limit < (ttl + 1) * 1000
            }),
        r is Ok ==> clock_wrote(r->Ok_0.issued_at),
{
}

/// Each plan asks for what its target says, field by field: the external id, the session policy, the
/// duration and the cache limit are each those of the target, whatever its other fields are and
/// whoever the caller is. The session name is that of the caller's subject behind the target's
/// prefix.
pub proof fn plans_ask_what_the_target_says(
    config: StsConfig,
    identity: PluginIdentity,
    target: Seq<char>,
)
    requires
        ruling(config, identity, target) is Ok,
    ensures
        config.targets@.contains_key(target),
        ({
            let plan = ruling(config, identity, target)->Ok_0;
            let chosen = config.targets@[target];
            &&& plan.external_id is Some <==> chosen.external_id is Some
            &&& chosen.external_id is Some ==> plan.external_id->0 == chosen.external_id->0@
            &&& plan.session_policy is Some <==> chosen.session_policy is Some
            &&& chosen.session_policy is Some ==> plan.session_policy->0
                == chosen.session_policy->0@
            &&& plan.duration_seconds is Some <==> chosen.duration_seconds is Some
            &&& chosen.duration_seconds is Some ==> plan.duration_seconds->0
                == chosen.duration_seconds->0 as i32
            &&& chosen.duration_seconds is Some && chosen.duration_seconds->0 <= i32::MAX
                ==> plan.duration_seconds->0 == chosen.duration_seconds->0
            &&& plan.max_cache_ttl_ms == chosen.max_cache_ttl_ms
            &&& plan.session_name == session_name_of(
                if identity.subject_id is Some {
                    Some(identity.subject_id->0@)
                } else {
                    None
                },
                if chosen.session_name_prefix is Some {
                    Some(chosen.session_name_prefix->0@)
                } else {
                    None
                },
            )
        }),
{
}

/// What two targets ask of STS for one field does not hang together with their other fields: plans
/// for targets with the same external id ask for the same one, and so with the session policy, the
/// duration and the cache limit, for whatever callers.
pub proof fn fields_of_plans_are_independent(
    config: StsConfig,
    a: PluginIdentity,
    b: PluginIdentity,
    one: Seq<char>,
    other: Seq<char>,
)
    requires
        ruling(config, a, one) is Ok,
        ruling(config, b, other) is Ok,
    ensures
        ({
            let x = config.targets@[one];
            let y = config.targets@[other];
            let p = ruling(config, a, one)->Ok_0;
            let q = ruling(config, b, other)->Ok_0;
            &&& x.external_id == y.external_id ==> p.external_id == q.external_id
            &&& x.session_policy == y.session_policy ==> p.session_policy == q.session_policy
            &&& x.duration_seconds == y.duration_seconds ==> p.duration_seconds
                == q.duration_seconds
            &&& x.max_cache_ttl_ms == y.max_cache_ttl_ms ==> p.max_cache_ttl_ms
                == q.max_cache_ttl_ms
        }),
{
}

/// A request for a target is ruled by the role that the target's mapping gives the caller, the
/// caller's trust and the target's list of allowed roles: it is refused as these refuse it, and else
/// asks for that role. A request for a target that does not exist is refused as such.
pub proof fn requests_are_ruled_by_their_target(
    config: StsConfig,
    identity: PluginIdentity,
    target: Seq<char>,
)
    ensures
        !config.targets@.contains_key(target) ==> ruling(config, identity, target) == Err::<
            IssuePlanView,
            RefusalView,
        >(
            RefusalView {
                kind: RefusalKind::UnknownTarget,
                error: CredentialErrorView::Misconfigured { reason: "unknown target: "@ + target },
            },
        ),
        config.targets@.contains_key(target) ==> ({
            let chosen = config.targets@[target];
            let allowed = if chosen.allowed_role_arns is Some {
                Some(texts(chosen.allowed_role_arns->0@))
            } else {
                None
            };
            match permitted_role(role_for(identity, chosen), identity.trust_level@, allowed) {
                Ok(arn) => ruling(config, identity, target) is Ok && ruling(
                    config,
                    identity,
                    target,
                )->Ok_0.role_arn == arn,
                Err(refusal) => ruling(config, identity, target) == Err::<
                    IssuePlanView,
                    RefusalView,
                >(refusal),
            }
        }),
{
}

/// A verified caller assumes the role that the identity leads to, whether or not the operator fixed
/// one: the subject, the first role or the filled template, as the target's mapping has it, wherever
/// that is a well-formed role ARN and, where the target lists allowed roles, one of them.
pub proof fn verified_callers_assume_what_they_are(
    config: StsConfig,
    identity: PluginIdentity,
    target: Seq<char>,
    arn: Seq<char>,
)
    requires
        config.targets@.contains_key(target),
        identity.trust_level@ == "verified"@,
        is_role_arn(arn),
        ({
            let chosen = config.targets@[target];
            &&& chosen.allowed_role_arns is Some ==> exists|i: int|
                0 <= i < chosen.allowed_role_arns->0@.len() && (
                #[trigger] chosen.allowed_role_arns->0@[i])@ == arn
            &&& match chosen.identity_mapping {
                IdentityMapping::Static => false,
                IdentityMapping::SubjectId => identity.subject_id is Some
                    && identity.subject_id->0@ == arn,
                IdentityMapping::FromRole => identity.roles@.len() > 0 && identity.roles@[0]@
                    == arn,
                IdentityMapping::Template => chosen.role_arn_template is Some && expansion(
                    chosen.role_arn_template->0@,
                    identity,
                ) == Ok::<Seq<char>, TemplateFaultView>(arn),
            }
        }),
    ensures
        ruling(config, identity, target) is Ok,
        ruling(config, identity, target)->Ok_0.role_arn == arn,
{
    let chosen = config.targets@[target];
    reveal_with_fuel(segments, 1);
    assert(arn.len() > 0) by {
        if arn.len() == 0 {
            assert(segments(arn).len() == 1);
        }
    }
    if chosen.allowed_role_arns is Some {
        let list = chosen.allowed_role_arns->0@;
        let i = choose|i: int| 0 <= i < list.len() && (#[trigger] list[i])@ == arn;
        assert(texts(list)[i] == arn);
    }
}

/// The rules on a role that was found, each with its refusal: a role that the identity led to is
/// refused to a caller whose trust is not `verified`; a role that is no role ARN is refused; a role
/// that the identity led to is refused where the target lists allowed roles without it. What none of
/// these refuses is permitted, as it stands. A role that the operator fixed is held to the second
/// rule alone.
pub proof fn rules_on_roles(
    arn: Seq<char>,
    identity_derived: bool,
    trust_level: Seq<char>,
    allowed: Option<Seq<Seq<char>>>,
)
    ensures
        ({
            let ruled = permitted_role(
                ResolutionView::Role { arn, identity_derived },
                trust_level,
                allowed,
            );
            let untrusted = identity_derived && trust_level != "verified"@;
            let unlisted = identity_derived && allowed is Some && !allowed->0.contains(arn);
            &&& ruled is Ok <==> !untrusted && is_role_arn(arn) && !unlisted
            &&& ruled is Ok ==> ruled->Ok_0 == arn
            &&& ruled is Err ==> ruled->Err_0.error is NotAuthorized
            &&& untrusted ==> ruled->Err_0.kind == RefusalKind::UntrustedIdentity
                && ruled->Err_0.error->NotAuthorized_reason
                == "identity-derived role ARN requires Verified trust; caller trust is `"@
                + trust_level + "`"@
            &&& !untrusted && !is_role_arn(arn) ==> ruled->Err_0.kind == RefusalKind::InvalidRoleArn
                && ruled->Err_0.error->NotAuthorized_reason
                == "resolved value is not a valid IAM role ARN"@
            &&& !untrusted && is_role_arn(arn) && unlisted ==> ruled->Err_0.kind
                == RefusalKind::ArnNotAllowed && ruled->Err_0.error->NotAuthorized_reason
                == "resolved role ARN is not in this target's allowed_role_arns"@
        }),
{
}

/// Where no role was found, none is permitted, whatever the caller's trust and the allowed roles,
/// and the refusal tells why there is none.
pub proof fn no_role_no_permission(
    text: Seq<char>,
    trust_level: Seq<char>,
    allowed: Option<Seq<Seq<char>>>,
)
    ensures
        permitted_role(ResolutionView::EmptyDerived { reason: text }, trust_level, allowed) == Err::<
            Seq<char>,
            RefusalView,
        >(
            RefusalView {
                kind: RefusalKind::EmptyIdentity,
                error: CredentialErrorView::NotAuthorized { reason: text },
            },
        ),
        permitted_role(ResolutionView::SubstitutionFailed { field: text }, trust_level, allowed)
            == Err::<Seq<char>, RefusalView>(
            RefusalView {
                kind: RefusalKind::SubstitutionFailed,
                error: CredentialErrorView::NotAuthorized {
                    reason: "identity template substitution failed: field `"@ + text
                        + "` is None or out-of-bounds"@,
                },
            },
        ),
{
}

/// A request that STS fails issues nothing, and its error is what the failure means; neither does a
/// reply without credentials, which is STS not serving the request. Every other reply issues a
/// credential. This holds at whatever time.
pub proof fn credentials_come_of_replies(
    plan: IssuePlanView,
    reply: Result<AssumeRoleOutput, SdkFailure>,
    now: i64,
    issued_at: Seq<char>,
)
    ensures
        ({
            let made = outcome(plan, reply, now, issued_at);
            &&& made is Ok <==> reply is Ok && reply->Ok_0.credentials is Some
            &&& reply is Err ==> made->Err_0 == failure_meaning(reply->Err_0)
            &&& reply is Ok && reply->Ok_0.credentials is None ==> made->Err_0 == (
            CredentialErrorView::Backend { reason: "STS AssumeRole returned no credentials"@ })
            &&& made is Ok ==> made->Ok_0.issued_at == issued_at
        }),
{
}

/// What is told of a credential beside it: the role and the session name that were asked for, the
/// id and the ARN of the principal where STS tells of one, and nothing else.
pub proof fn credentials_tell_the_principal(
    plan: IssuePlanView,
    output: AssumeRoleOutput,
    now: i64,
    issued_at: Seq<char>,
)
    requires
        output.credentials is Some,
    ensures
        ({
            let told = outcome(plan, Ok(output), now, issued_at)->Ok_0.metadata;
            let asked = set!["aws.role_arn"@, "aws.session_name"@];
            let user = output.assumed_role_user;
            &&& user is None ==> told.dom() == asked
            &&& user is Some ==> told.dom() == asked.insert("aws.assumed_role_id"@).insert(
                "aws.assumed_role_arn"@,
            )
            &&& user is Some ==> told["aws.assumed_role_id"@] == user->0.assumed_role_id@
            &&& user is Some ==> told["aws.assumed_role_arn"@] == user->0.arn@
        }),
{
    reveal_strlit("aws.assumed_role_id");
    reveal_strlit("aws.assumed_role_arn");
    assert("aws.assumed_role_id"@[17] == 'i' && "aws.assumed_role_arn"@[17] == 'a');
    let told = outcome(plan, Ok(output), now, issued_at)->Ok_0.metadata;
    let asked = set!["aws.role_arn"@, "aws.session_name"@];
    if output.assumed_role_user is Some {
        assert(told.dom() =~= asked.insert("aws.assumed_role_id"@).insert(
            "aws.assumed_role_arn"@,
        ));
    } else {
        assert(told.dom() =~= asked);
    }
}

/// Every refusal is counted under a label of its own, but for requests for targets that do not
/// exist, which are not counted.
pub proof fn labels_of_refusals(a: RefusalKind, b: RefusalKind)
    ensures
        a.label_text() is None <==> a == RefusalKind::UnknownTarget,
        a.label_text() == b.label_text() ==> a == b,
        RefusalKind::UntrustedIdentity.label_text() == Some("untrusted_identity"@),
        RefusalKind::InvalidRoleArn.label_text() == Some("invalid_role_arn"@),
        RefusalKind::ArnNotAllowed.label_text() == Some("arn_not_allowed"@),
        RefusalKind::EmptyIdentity.label_text() == Some("empty_identity"@),
        RefusalKind::SubstitutionFailed.label_text() == Some("substitution_failed"@),
{
    reveal_strlit("untrusted_identity");
    reveal_strlit("invalid_role_arn");
    reveal_strlit("arn_not_allowed");
    reveal_strlit("empty_identity");
    reveal_strlit("substitution_failed");
    assert("untrusted_identity"@[0] == 'u' && "invalid_role_arn"@[0] == 'i' && "arn_not_allowed"@[0]
        == 'a' && "empty_identity"@[0] == 'e' && "substitution_failed"@[0] == 's');
}

/// The views of a plan, a refusal and a credential tell what their fields hold.
pub proof fn plans_and_credentials_as_texts(
    plan: IssuePlan,
    refusal: Refusal,
    credential: IssuedCredential,
    name: Seq<char>,
)
    ensures
        plan@.role_arn == plan.request.role_arn@,
        plan@.session_name == plan.request.session_name@,
        plan@.duration_seconds == plan.request.duration_seconds,
        plan@.external_id is Some <==> plan.request.external_id is Some,
        plan.request.external_id is Some ==> plan@.external_id->0 == plan.request.external_id->0@,
        plan@.session_policy is Some <==> plan.request.session_policy is Some,
        plan.request.session_policy is Some ==> plan@.session_policy->0
            == plan.request.session_policy->0@,
        plan@.max_cache_ttl_ms == plan.max_cache_ttl_ms,
        refusal@.kind == refusal.kind,
        refusal@.error == refusal.error@,
        credential@.value is Some <==> credential.value is Some,
        credential@.lease_id is Some <==> credential.lease_id is Some,
        credential@.ttl_seconds == credential.ttl_seconds,
        credential@.issued_at == credential.issued_at@,
        credential@.parts.contains_key(name) <==> credential.parts@.contains_key(name),
        credential.parts@.contains_key(name) ==> credential@.parts[name]
            == credential.parts@[name]@,
        credential@.metadata.contains_key(name) <==> credential.metadata@.contains_key(name),
        credential.metadata@.contains_key(name) ==> credential@.metadata[name]
            == credential.metadata@[name]@,
{
}

} // verus!
