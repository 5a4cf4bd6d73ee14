# AWS STS AssumeRole credentials

Short-lived AWS credentials for the callers of a gateway, by way of STS `AssumeRole`. The gateway
calls AWS as one base principal; for each request it assumes a role that is chosen by the caller's
identity, in a session that is named after the caller.

## Layout

- `src/`: the library. What it decides is proved with Verus: the rules for configurations, the shape
  of role ARNs, the mapping of identities to roles (with its templates), who may assume which role,
  session names, cache times, and what replies and failures of STS mean.
- `tests/`: its tests.
- `app/`: the plugin around the library: reading the configuration from JSON, the calls to STS, the
  metrics and the log. `app/host.rs` puts the plugin behind the gateway's traits and is built with
  `--cfg mcpg_host`, where the gateway's crates are at hand.

## What is proved

Each function states its result exactly; the one that reads the clock does so for whatever time it
is. Beyond that, the library proves among other things that

- a role to which the caller's identity led is assumed by verified callers only, is a well-formed
  role ARN, and is among the target's allowed ones where the target lists them
  (`issue::security_floor`); an unverified caller has no say in the role
  (`issue::unverified_callers_steer_nothing`);
- a static role is there for every caller (`issue::static_targets_serve_everyone`), and so is the
  role that the operator fixed for callers whose identity gives none
  (`issue::fixed_role_for_callers_without_one`);
- every session name is one that STS takes (`session::session_names_suit_sts`);
- a credential is cached within its session and the operator's limit, for at least a second
  (`issue::credentials_are_cached_within_limits`);
- a configuration passes if and only if it meets every rule (`config::accepted_means_every_rule`).

Taken on trust are what `serde_json` accepts as JSON, the clock of `chrono`, and `String::push`.
