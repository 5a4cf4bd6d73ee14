//! What is asked of STS `AssumeRole`, and what its reply means.

use vstd::prelude::*;

use crate::text::{opt_text, same_text};

verus! {

/// Why no credential was issued.
#[derive(Debug)]
pub enum CredentialError {
    /// The configuration has no answer to the request.
    Misconfigured { reason: String },
    /// The caller may not have the credential.
    NotAuthorized { reason: String },
    /// STS asks for fewer requests.
    Throttled { reason: String },
    /// STS could not be reached or failed.
    Backend { reason: String },
}

/// A credential error with its text as a sequence of characters.
pub enum CredentialErrorView {
    Misconfigured { reason: Seq<char> },
    NotAuthorized { reason: Seq<char> },
    Throttled { reason: Seq<char> },
    Backend { reason: Seq<char> },
}

impl View for CredentialError {
    type V = CredentialErrorView;

    open spec fn view(&self) -> CredentialErrorView {
        match *self {
            CredentialError::Misconfigured { reason } => CredentialErrorView::Misconfigured {
                reason: reason@,
            },
            CredentialError::NotAuthorized { reason } => CredentialErrorView::NotAuthorized {
                reason: reason@,
            },
            CredentialError::Throttled { reason } => CredentialErrorView::Throttled {
                reason: reason@,
            },
            CredentialError::Backend { reason } => CredentialErrorView::Backend { reason: reason@ },
        }
    }
}

/// One request to assume a role.
#[derive(Debug)]
pub struct AssumeRequest {
    pub role_arn: String,
    pub session_name: String,
    pub duration_seconds: Option<i32>,
    pub external_id: Option<String>,
    pub session_policy: Option<String>,
}

/// The credentials in a reply of STS.
#[derive(Debug)]
pub struct StsCredentials {
    pub access_key_id: String,
    pub secret_access_key: String,
    pub session_token: String,
    /// The end of the session, in seconds since 1970.
    pub expiration_secs: i64,
}

/// The principal in a reply of STS.
#[derive(Debug)]
pub struct AssumedRoleUser {
    pub assumed_role_id: String,
    pub arn: String,
}

/// A reply of STS.
#[derive(Debug)]
pub struct AssumeRoleOutput {
    pub credentials: Option<StsCredentials>,
    pub assumed_role_user: Option<AssumedRoleUser>,
}

/// A failed request: the error code and the message of STS, where STS itself refused, and the
/// whole failure as text.
#[derive(Debug)]
pub struct SdkFailure {
    pub code: Option<String>,
    pub message: Option<String>,
    pub text: String,
}

/// Temporary credentials and how long they last.
#[derive(Debug)]
pub struct AssumedCreds {
    pub access_key_id: String,
    pub secret_access_key: String,
    pub session_token: String,
    /// The seconds until the session ends, at least one.
    pub expiry_secs: u64,
    pub assumed_role_id: Option<String>,
    pub assumed_role_arn: Option<String>,
}

/// `code` says that the caller may not assume the role.
pub open spec fn is_denial(code: Seq<char>) -> bool {
    code == "AccessDenied"@ || code == "AccessDeniedException"@
}

/// `code` says that there were too many requests.
pub open spec fn is_throttling(code: Seq<char>) -> bool {
    ||| code == "Throttling"@
    ||| code == "ThrottlingException"@
    ||| code == "RequestLimitExceeded"@
    ||| code == "TooManyRequestsException"@
}

/// What a failed request means to the caller.
pub open spec fn failure_meaning(failure: SdkFailure) -> CredentialErrorView {
    let code = match failure.code {
        Some(code) => code@,
        None => Seq::empty(),
    };
    let reason = match failure.message {
        Some(message) => message@,
        None => failure.text@,
    };
    if code.len() == 0 {
        CredentialErrorView::Backend { reason }
    } else if is_denial(code) {
        CredentialErrorView::NotAuthorized { reason }
    } else if is_throttling(code) {
        CredentialErrorView::Throttled { reason }
    } else {
        CredentialErrorView::Backend {
            reason: "STS AssumeRole ["@ + code + "]: "@ + reason,
        }
    }
}

/// Tells what a failed request means: a denial, too many requests, or that STS could not serve it,
/// which is also what a failure without an error code means.
pub fn classify_sdk_error(failure: SdkFailure) -> (r: CredentialError)
    ensures
        r@ == failure_meaning(failure),
        r is NotAuthorized <==> failure.code is Some && (failure.code->0@ == "AccessDenied"@
            || failure.code->0@ == "AccessDeniedException"@),
        r is Throttled <==> failure.code is Some && (failure.code->0@ == "Throttling"@
            || failure.code->0@ == "ThrottlingException"@ || failure.code->0@
            == "RequestLimitExceeded"@ || failure.code->0@ == "TooManyRequestsException"@),
        r is Backend <==> !(r is NotAuthorized) && !(r is Throttled),
{
    proof {
        failures_are_told_by_their_code(failure);
    }
    let code = match failure.code {
        Some(code) => code,
        None => String::new(),
    };
    let reason = match failure.message {
        Some(message) => message,
        None => failure.text,
    };
    let c = code.as_str();
    if c.is_empty() {
        CredentialError::Backend { reason }
    } else if same_text(c, "AccessDenied") || same_text(c, "AccessDeniedException") {
        CredentialError::NotAuthorized { reason }
    } else if same_text(c, "Throttling") || same_text(c, "ThrottlingException") || same_text(
        c,
        "RequestLimitExceeded",
    ) || same_text(c, "TooManyRequestsException") {
        CredentialError::Throttled { reason }
    } else {
        let mut text = "STS AssumeRole [".to_owned();
        text.append(c);
        text.append("]: ");
        text.append(reason.as_str());
        CredentialError::Backend { reason: text }
    }
}

/// The seconds from `now` until `expiration`, and one where that is past.
pub open spec fn seconds_left(expiration: int, now: int) -> int {
    if expiration - now > 1 {
        expiration - now
    } else {
        1
    }
}

/// The credentials that a reply gives at the time `now`, in seconds since 1970.
pub open spec fn gives(output: AssumeRoleOutput, now: i64, creds: AssumedCreds) -> bool {
    &&& output.credentials is Some
    &&& creds.access_key_id@ == output.credentials->0.access_key_id@
    &&& creds.secret_access_key@ == output.credentials->0.secret_access_key@
    &&& creds.session_token@ == output.credentials->0.session_token@
    &&& creds.expiry_secs == seconds_left(output.credentials->0.expiration_secs as int, now as int)
    &&& opt_text(creds.assumed_role_id) == match output.assumed_role_user {
        Some(user) => Some(user.assumed_role_id@),
        None => None,
    }
    &&& opt_text(creds.assumed_role_arn) == match output.assumed_role_user {
        Some(user) => Some(user.arn@),
        None => None,
    }
}

/// Reads the outcome of a request at the time `now`, in seconds since 1970. A session that ends
/// now, or ended before, counts as one second, so that a clock that is a little behind never makes
/// a credential expire at once.
pub fn read_reply(reply: Result<AssumeRoleOutput, SdkFailure>, now: i64) -> (r: Result<
    AssumedCreds,
    CredentialError,
>)
    ensures
        match reply {
            Ok(output) => if output.credentials is Some {
                r is Ok && gives(output, now, r->Ok_0)
            } else {
                r is Err && r->Err_0@ == (CredentialErrorView::Backend {
                    reason: "STS AssumeRole returned no credentials"@,
                })
            },
            Err(failure) => r is Err && r->Err_0@ == failure_meaning(failure),
        },
        r is Ok <==> reply is Ok && reply->Ok_0.credentials is Some,
        r is Ok ==> ({
            let creds = reply->Ok_0.credentials->0;
            let user = reply->Ok_0.assumed_role_user;
            &&& r->Ok_0.access_key_id@ == creds.access_key_id@
            &&& r->Ok_0.secret_access_key@ == creds.secret_access_key@
            &&& r->Ok_0.session_token@ == creds.session_token@
            &&& creds.expiration_secs - now >= 1 ==> r->Ok_0.expiry_secs == creds.expiration_secs
                - now
            &&& creds.expiration_secs - now < 1 ==> r->Ok_0.expiry_secs == 1
            &&& r->Ok_0.assumed_role_id is Some <==> user is Some
            &&& r->Ok_0.assumed_role_arn is Some <==> user is Some
            &&& user is Some ==> r->Ok_0.assumed_role_id->0@ == user->0.assumed_role_id@
                && r->Ok_0.assumed_role_arn->0@ == user->0.arn@
        }),
{
    let output = match reply {
        Ok(output) => output,
        Err(failure) => {
            return Err(classify_sdk_error(failure));
        },
    };
    let creds = match output.credentials {
        Some(creds) => creds,
        None => {
            return Err(
                CredentialError::Backend {
                    reason: "STS AssumeRole returned no credentials".to_owned(),
                },
            );
        },
    };
    let left: i128 = creds.expiration_secs as i128 - now as i128;
    let expiry_secs: u64 = if left > 1 {
        left as u64
    } else {
        1
    };
    let (assumed_role_id, assumed_role_arn) = match output.assumed_role_user {
        Some(user) => (Some(user.assumed_role_id), Some(user.arn)),
        None => (None, None),
    };
    Ok(
        AssumedCreds {
            access_key_id: creds.access_key_id,
            secret_access_key: creds.secret_access_key,
            session_token: creds.session_token,
            expiry_secs,
            assumed_role_id,
            assumed_role_arn,
        },
    )
}

/// What a failed request means is told by its error code alone, whatever the message and the text:
/// `AccessDenied` and `AccessDeniedException` are denials; `Throttling`, `ThrottlingException`,
/// `RequestLimitExceeded` and `TooManyRequestsException` are too many requests; every other code,
/// and a failure without one, is STS not serving the request.
pub proof fn failures_are_told_by_their_code(failure: SdkFailure)
    ensures
        failure_meaning(failure) is NotAuthorized <==> failure.code is Some && (failure.code->0@
            == "AccessDenied"@ || failure.code->0@ == "AccessDeniedException"@),
        failure_meaning(failure) is Throttled <==> failure.code is Some && (failure.code->0@
            == "Throttling"@ || failure.code->0@ == "ThrottlingException"@ || failure.code->0@
            == "RequestLimitExceeded"@ || failure.code->0@ == "TooManyRequestsException"@),
        failure_meaning(failure) is Backend <==> !(failure_meaning(failure) is NotAuthorized)
            && !(failure_meaning(failure) is Throttled),
{
    reveal_strlit("AccessDenied");
    reveal_strlit("AccessDeniedException");
    reveal_strlit("Throttling");
    reveal_strlit("ThrottlingException");
    reveal_strlit("RequestLimitExceeded");
    reveal_strlit("TooManyRequestsException");
    assert("AccessDenied"@[0] == 'A' && "AccessDeniedException"@[0] == 'A');
    assert("Throttling"@[0] == 'T' && "ThrottlingException"@[0] == 'T');
    assert("RequestLimitExceeded"@[0] == 'R' && "TooManyRequestsException"@[0] == 'T');
}

/// Two failures with the same error code mean the same kind of thing, whatever else is told of them.
pub proof fn same_code_same_meaning(a: SdkFailure, b: SdkFailure)
    requires
        a.code is Some <==> b.code is Some,
        a.code is Some ==> a.code->0@ == b.code->0@,
    ensures
        failure_meaning(a) is NotAuthorized <==> failure_meaning(b) is NotAuthorized,
        failure_meaning(a) is Throttled <==> failure_meaning(b) is Throttled,
        failure_meaning(a) is Backend <==> failure_meaning(b) is Backend,
{
}

/// The reason that is told of a failure is the message of STS, and where there is none the whole
/// failure as text. A code that is neither a denial nor too many requests stands before it.
pub proof fn failures_tell_their_message(failure: SdkFailure)
    ensures
        ({
            let told = if failure.message is Some {
                failure.message->0@
            } else {
                failure.text@
            };
            match failure_meaning(failure) {
                CredentialErrorView::Misconfigured { reason } => false,
                CredentialErrorView::NotAuthorized { reason } => reason == told,
                CredentialErrorView::Throttled { reason } => reason == told,
                CredentialErrorView::Backend { reason } => if failure.code is Some
                    && failure.code->0@.len() > 0 {
                    reason == "STS AssumeRole ["@ + failure.code->0@ + "]: "@ + told
                } else {
                    reason == told
                },
            }
        }),
{
}

/// What is left of a session is the time until it ends, to the second, and one second where it ends
/// now or has ended.
pub proof fn a_session_lasts_until_it_ends(expiration: int, now: int)
    ensures
        1 <= seconds_left(expiration, now),
        now < expiration ==> now + seconds_left(expiration, now) == expiration,
        expiration <= now ==> seconds_left(expiration, now) == 1,
{
}

/// The view of an error is its own variant with its own reason.
pub proof fn errors_as_texts(reason: String)
    ensures
        (CredentialError::Misconfigured { reason })@ == (CredentialErrorView::Misconfigured {
            reason: reason@,
        }),
        (CredentialError::NotAuthorized { reason })@ == (CredentialErrorView::NotAuthorized {
            reason: reason@,
        }),
        (CredentialError::Throttled { reason })@ == (CredentialErrorView::Throttled {
            reason: reason@,
        }),
        (CredentialError::Backend { reason })@ == (CredentialErrorView::Backend { reason: reason@ }),
{
}

} // verus!
