//! Short-lived AWS credentials through STS `AssumeRole`.
//!
//! A gateway calls AWS as one base principal and assumes, for each request, a role that is chosen
//! by the caller's identity. This crate holds everything that is decided on the way:
//!
//! - [`config`]: what the operator configures, and the rules that it has to meet;
//! - [`identity_mapping`]: which role a caller's identity leads to;
//! - [`issue`]: whether the caller may assume it, what is asked of STS, and the credential that is
//!   made of the reply;
//! - [`session`]: the session's name and the time for which the credential may be cached;
//! - [`sts_client`]: the request to STS, and what its reply means;
//! - [`role_arn`]: the shape of a role ARN.
//!
//! The call to STS itself is made by whoever uses the crate: [`issue::begin_issue`] says what to
//! ask, and [`issue::finish_issue_now`] takes the reply.

pub mod clock;
pub mod config;
pub mod identity_mapping;
pub mod indexed;
pub mod issue;
pub mod json;
pub mod name_map;
pub mod role_arn;
pub mod session;
pub mod sts_client;
pub mod text;

pub use config::{
    default_max_cache_ttl_ms, BaseCredentials, ConfigError, IdentityMapping, StsConfig, TargetConfig,
};
