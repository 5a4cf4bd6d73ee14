//! From a caller's identity to the IAM role that the caller may ask for.

use vstd::prelude::*;

use crate::config::{IdentityMapping, TargetConfig};
use crate::indexed::{decimal, indexed, indexed_reads_every_index, parse_indexed};
use crate::name_map::NameMap;
use crate::text::{
    beginnings_of_texts, begins_with, chars_of, has_prefix, opt_text, same_text, string_of,
};

verus! {

/// What the gateway knows of a caller.
#[derive(Debug, Clone)]
pub struct PluginIdentity {
    pub kind: String,
    pub trust_level: String,
    pub subject_id: Option<String>,
    pub auth_provider: Option<String>,
    pub issuer: Option<String>,
    pub roles: Vec<String>,
    pub groups: Vec<String>,
    pub scopes: Vec<String>,
    pub attributes: NameMap<String>,
}

/// The outcome of looking for a role.
#[derive(Debug)]
pub enum Resolution {
    /// The role ARN to assume. `identity_derived` tells an ARN that the caller's identity led to
    /// from one that the operator fixed.
    Role { arn: String, identity_derived: bool },
    /// The identity gave no value and the operator fixed no role.
    EmptyDerived { reason: String },
    /// The template speaks of a field that the identity does not have and the operator fixed no
    /// role, or a placeholder names no field there is or is not closed.
    SubstitutionFailed { field: String },
}

/// A resolution with its texts as sequences of characters.
#[verifier::ext_equal]
pub enum ResolutionView {
    Role { arn: Seq<char>, identity_derived: bool },
    EmptyDerived { reason: Seq<char> },
    SubstitutionFailed { field: Seq<char> },
}

impl View for Resolution {
    type V = ResolutionView;

    open spec fn view(&self) -> ResolutionView {
        match *self {
            Resolution::Role { arn, identity_derived } => ResolutionView::Role {
                arn: arn@,
                identity_derived,
            },
            Resolution::EmptyDerived { reason } => ResolutionView::EmptyDerived { reason: reason@ },
            Resolution::SubstitutionFailed { field } => ResolutionView::SubstitutionFailed {
                field: field@,
            },
        }
    }
}

/// The text at place `i` of `list`, if the list is that long.
pub open spec fn listed(list: Seq<String>, i: usize) -> Option<Seq<char>> {
    if i < list.len() {
        Some(list[i as int]@)
    } else {
        None
    }
}

/// The value of a field of an identity, by the field's name in a template.
pub open spec fn field_value(field: Seq<char>, identity: PluginIdentity) -> Option<Seq<char>> {
    if field == "subject_id"@ {
        opt_text(identity.subject_id)
    } else if field == "kind"@ {
        Some(identity.kind@)
    } else if field == "trust_level"@ {
        Some(identity.trust_level@)
    } else if field == "auth_provider"@ {
        opt_text(identity.auth_provider)
    } else if begins_with(field, "attributes."@) {
        let key = field.skip("attributes."@.len() as int);
        if identity.attributes@.contains_key(key) {
            Some(identity.attributes@[key]@)
        } else {
            None
        }
    } else if indexed(field, "roles"@) is Some {
        listed(identity.roles@, indexed(field, "roles"@)->0)
    } else if indexed(field, "groups"@) is Some {
        listed(identity.groups@, indexed(field, "groups"@)->0)
    } else if indexed(field, "scopes"@) is Some {
        listed(identity.scopes@, indexed(field, "scopes"@)->0)
    } else {
        None
    }
}

/// `field` is one of those that a template may name, whether or not an identity has a value for it.
pub open spec fn is_known_field(field: Seq<char>) -> bool {
    ||| field == "subject_id"@
    ||| field == "kind"@
    ||| field == "trust_level"@
    ||| field == "auth_provider"@
    ||| begins_with(field, "attributes."@)
    ||| indexed(field, "roles"@) is Some
    ||| indexed(field, "groups"@) is Some
    ||| indexed(field, "scopes"@) is Some
}

/// Whether `field` is one of those that a template may name.
fn known_field(field: &str) -> (r: bool)
    ensures
        r == is_known_field(field@),
{
    same_text(field, "subject_id") || same_text(field, "kind") || same_text(field, "trust_level")
        || same_text(field, "auth_provider") || has_prefix(&chars_of(field), "attributes.")
        || parse_indexed(field, "roles").is_some() || parse_indexed(field, "groups").is_some()
        || parse_indexed(field, "scopes").is_some()
}

fn list_item(list: &Vec<String>, i: usize) -> (r: Option<String>)
    ensures
        opt_text(r) == listed(list@, i),
{
    if i < list.len() {
        Some(list[i].clone())
    } else {
        None
    }
}

/// The value of the field `field` of `identity`.
pub fn resolve_field(field: &str, identity: &PluginIdentity) -> (r: Option<String>)
    ensures
        opt_text(r) == field_value(field@, *identity),
{
    if same_text(field, "subject_id") {
        return identity.subject_id.clone();
    }
    if same_text(field, "kind") {
        return Some(identity.kind.clone());
    }
    if same_text(field, "trust_level") {
        return Some(identity.trust_level.clone());
    }
    if same_text(field, "auth_provider") {
        return identity.auth_provider.clone();
    }
    let chars = chars_of(field);
    if has_prefix(&chars, "attributes.") {
        proof {
            reveal_strlit("attributes.");
        }
        let key = string_of(&chars, 11, chars.len());
        assert(key@ =~= field@.skip(11));
        return match identity.attributes.get(key.as_str()) {
            Some(value) => Some(value.clone()),
            None => None,
        };
    }
    if let Some(i) = parse_indexed(field, "roles") {
        return list_item(&identity.roles, i);
    }
    if let Some(i) = parse_indexed(field, "groups") {
        return list_item(&identity.groups, i);
    }
    if let Some(i) = parse_indexed(field, "scopes") {
        return list_item(&identity.scopes, i);
    }
    None
}

/// How many characters of `text` come before its first closing brace: all of them, where it has
/// none.
pub open spec fn before_brace(text: Seq<char>) -> nat
    decreases text.len(),
{
    if text.len() == 0 || text[0] == '}' {
        0
    } else {
        1 + before_brace(text.drop_first())
    }
}

/// A placeholder begins here.
pub open spec fn opens_placeholder(text: Seq<char>) -> bool {
    text.len() >= 2 && text[0] == '$' && text[1] == '{'
}

/// The field that a placeholder names, with or without `identity.` before it.
pub open spec fn bare_field(placeholder: Seq<char>) -> Seq<char> {
    if begins_with(placeholder, "identity."@) {
        placeholder.skip("identity."@.len() as int)
    } else {
        placeholder
    }
}

/// Why a template cannot be filled.
#[derive(Debug)]
pub enum TemplateFault {
    /// The identity has no value, or an empty one, for a field.
    NoValue { field: String },
    /// A placeholder is not closed; this is all of the template behind its opening.
    Unterminated { placeholder: String },
}

/// A template fault with its text as a sequence of characters.
pub enum TemplateFaultView {
    NoValue { field: Seq<char> },
    Unterminated { placeholder: Seq<char> },
}

impl View for TemplateFault {
    type V = TemplateFaultView;

    open spec fn view(&self) -> TemplateFaultView {
        match *self {
            TemplateFault::NoValue { field } => TemplateFaultView::NoValue { field: field@ },
            TemplateFault::Unterminated { placeholder } => TemplateFaultView::Unterminated {
                placeholder: placeholder@,
            },
        }
    }
}

/// `head` before a text that was found; a fault stays what it is.
pub open spec fn after(
    head: Seq<char>,
    tail: Result<Seq<char>, TemplateFaultView>,
) -> Result<Seq<char>, TemplateFaultView> {
    match tail {
        Ok(text) => Ok(head + text),
        Err(fault) => Err(fault),
    }
}

/// The template with each placeholder replaced by the value of its field, or else the first fault.
/// Values are put in as they are: what looks like a placeholder in a value is text.
pub open spec fn expansion(template: Seq<char>, identity: PluginIdentity) -> Result<
    Seq<char>,
    TemplateFaultView,
>
    decreases template.len(),
{
    if template.len() == 0 {
        Ok(Seq::empty())
    } else if opens_placeholder(template) {
        let body = template.skip(2);
        let n = before_brace(body) as int;
        if n >= body.len() {
            Err(TemplateFaultView::Unterminated { placeholder: body })
        } else {
            let field = bare_field(body.take(n));
            match field_value(field, identity) {
                Some(value) => if value.len() > 0 {
                    after(value, expansion(body.skip(n + 1), identity))
                } else {
                    Err(TemplateFaultView::NoValue { field })
                },
                None => Err(TemplateFaultView::NoValue { field }),
            }
        }
    } else {
        after(seq![template[0]], expansion(template.drop_first(), identity))
    }
}

/// The role that a filled template leads to, where `fixed` is the role that the operator fixed, or
/// empty. The fixed role serves callers whose identity lacks a value that the template may ask for,
/// or fills the template with nothing. A placeholder that is not closed, or that names no field
/// there is, is the template's own fault.
pub open spec fn template_role(
    filled: Result<Seq<char>, TemplateFaultView>,
    fixed: Seq<char>,
) -> ResolutionView {
    match filled {
        Ok(arn) => derived_or_fixed(
            Some(arn),
            fixed,
            "template substitution produced an empty role ARN"@,
        ),
        Err(TemplateFaultView::NoValue { field }) => if fixed.len() > 0 && is_known_field(field) {
            ResolutionView::Role { arn: fixed, identity_derived: false }
        } else {
            ResolutionView::SubstitutionFailed { field }
        },
        Err(TemplateFaultView::Unterminated { placeholder }) => {
            ResolutionView::SubstitutionFailed {
                field: "unterminated placeholder `${"@ + placeholder + "`"@,
            }
        },
    }
}

/// What a template leads to where the operator fixed no role.
pub open spec fn substitution(template: Seq<char>, identity: PluginIdentity) -> ResolutionView {
    template_role(expansion(template, identity), Seq::empty())
}

proof fn lemma_before_brace(text: Seq<char>, n: int)
    requires
        0 <= n <= text.len(),
        forall|j: int| 0 <= j < n ==> #[trigger] text[j] != '}',
        n < text.len() ==> text[n] == '}',
    ensures
        before_brace(text) == n,
    decreases text.len(),
{
    if n > 0 {
        assert(forall|j: int| 0 <= j < n - 1 ==> #[trigger] text.drop_first()[j] != '}') by {
            assert(forall|j: int| 0 <= j < n - 1 ==> text.drop_first()[j] == text[j + 1]);
        }
        lemma_before_brace(text.drop_first(), n - 1);
    }
}

/// `a` and then `b` before a text are `a + b` before it.
proof fn lemma_after_twice(a: Seq<char>, b: Seq<char>, tail: Result<Seq<char>, TemplateFaultView>)
    ensures
        after(a, after(b, tail)) == after(a + b, tail),
{
    if let Ok(text) = tail {
        assert(a + (b + text) =~= a + b + text);
    }
}

/// Fills the placeholders of `template` with the fields of `identity`.
pub fn expand(template: &str, identity: &PluginIdentity) -> (r: Result<String, TemplateFault>)
    ensures
        match expansion(template@, *identity) {
            Ok(text) => r is Ok && r->Ok_0@ == text,
            Err(fault) => r is Err && r->Err_0@ == fault,
        },
{
    let chars = chars_of(template);
    let ghost whole = expansion(template@, *identity);
    let mut out = String::new();
    let mut i: usize = 0;
    proof {
        assert(chars@.skip(0) =~= chars@);
        if let Ok(text) = whole {
            assert(Seq::<char>::empty() + text =~= text);
        }
    }
    while i < chars.len()
        invariant
            i <= chars.len(),
            chars@ == template@,
            whole == expansion(template@, *identity),
            after(out@, expansion(chars@.skip(i as int), *identity)) == whole,
        decreases chars.len() - i,
    {
        let ghost rest = chars@.skip(i as int);
        let ghost done = out@;
        if chars[i] == '$' && i + 1 < chars.len() && chars[i + 1] == '{' {
            let start: usize = i + 2;
            let ghost body = rest.skip(2);
            assert(body =~= chars@.skip(start as int));
            let mut end: usize = start;
            while end < chars.len() && chars[end] != '}'
                invariant
                    start <= end <= chars.len(),
                    body == chars@.skip(start as int),
                    forall|j: int| 0 <= j < end - start ==> #[trigger] body[j] != '}',
                decreases chars.len() - end,
            {
                assert(body[end - start] == chars@[end as int]);
                end = end + 1;
            }
            proof {
                if end < chars.len() {
                    assert(body[end - start] == chars@[end as int]);
                }
                lemma_before_brace(body, end - start);
            }
            if end == chars.len() {
                let placeholder = string_of(&chars, start, end);
                assert(placeholder@ =~= body);
                return Err(TemplateFault::Unterminated { placeholder });
            }
            let ghost placeholder = body.take(end - start);
            assert(placeholder =~= chars@.subrange(start as int, end as int));
            let text = chars_of(string_of(&chars, start, end).as_str());
            proof {
                reveal_strlit("identity.");
            }
            let skip: usize = if has_prefix(&text, "identity.") {
                9
            } else {
                0
            };
            let field = string_of(&text, skip, text.len());
            assert(field@ =~= bare_field(placeholder));
            assert(body.skip(end - start + 1) =~= chars@.skip(end + 1));
            match resolve_field(field.as_str(), identity) {
                Some(value) => {
                    if value.as_str().is_empty() {
                        return Err(TemplateFault::NoValue { field });
                    }
                    proof {
                        lemma_after_twice(
                            done,
                            value@,
                            expansion(chars@.skip(end + 1), *identity),
                        );
                    }
                    out.append(value.as_str());
                },
                None => {
                    return Err(TemplateFault::NoValue { field });
                },
            }
            i = end + 1;
        } else {
            proof {
                assert(rest.drop_first() =~= chars@.skip(i + 1));
                lemma_after_twice(
                    done,
                    seq![rest[0]],
                    expansion(chars@.skip(i + 1), *identity),
                );
                assert(done.push(chars@[i as int]) =~= done + seq![rest[0]]);
            }
            out.push(chars[i]);
            i = i + 1;
        }
    }
    assert(out@ + Seq::<char>::empty() =~= out@);
    Ok(out)
}

/// The value of the identity, where there is one; else the role that the operator fixed, where
/// there is one.
pub open spec fn derived_or_fixed(
    value: Option<Seq<char>>,
    fixed: Seq<char>,
    reason: Seq<char>,
) -> ResolutionView {
    if value is Some && value->0.len() > 0 {
        ResolutionView::Role { arn: value->0, identity_derived: true }
    } else if fixed.len() > 0 {
        ResolutionView::Role { arn: fixed, identity_derived: false }
    } else {
        ResolutionView::EmptyDerived { reason }
    }
}

/// The template of a target.
pub open spec fn template_of(target: TargetConfig) -> Seq<char> {
    match target.role_arn_template {
        Some(template) => template@,
        None => Seq::empty(),
    }
}

/// The role that a target's mapping gives a caller.
pub open spec fn role_for(identity: PluginIdentity, target: TargetConfig) -> ResolutionView {
    match target.identity_mapping {
        IdentityMapping::Static => ResolutionView::Role {
            arn: target.role_arn@,
            identity_derived: false,
        },
        IdentityMapping::SubjectId => derived_or_fixed(
            opt_text(identity.subject_id),
            target.role_arn@,
            "identity has no subject_id and no static fallback role_arn"@,
        ),
        IdentityMapping::FromRole => derived_or_fixed(
            listed(identity.roles@, 0),
            target.role_arn@,
            "identity has no roles and no static fallback role_arn"@,
        ),
        IdentityMapping::Template => template_role(
            expansion(template_of(target), identity),
            target.role_arn@,
        ),
    }
}

fn pick_role(value: Option<String>, fixed: &String, reason: &str) -> (r: Resolution)
    ensures
        r@ == derived_or_fixed(opt_text(value), fixed@, reason@),
{
    if let Some(arn) = value {
        if !arn.as_str().is_empty() {
            return Resolution::Role { arn, identity_derived: true };
        }
    }
    if !fixed.as_str().is_empty() {
        Resolution::Role { arn: fixed.clone(), identity_derived: false }
    } else {
        Resolution::EmptyDerived { reason: reason.to_owned() }
    }
}

fn settle_template(filled: Result<String, TemplateFault>, fixed: &String) -> (r: Resolution)
    ensures
        r@ == template_role(
            match filled {
                Ok(text) => Ok(text@),
                Err(fault) => Err(fault@),
            },
            fixed@,
        ),
{
    match filled {
        Ok(arn) => pick_role(
            Some(arn),
            fixed,
            "template substitution produced an empty role ARN",
        ),
        Err(TemplateFault::NoValue { field }) => {
            if !fixed.as_str().is_empty() && known_field(field.as_str()) {
                Resolution::Role { arn: fixed.clone(), identity_derived: false }
            } else {
                Resolution::SubstitutionFailed { field }
            }
        },
        Err(TemplateFault::Unterminated { placeholder }) => {
            let mut field = "unterminated placeholder `${".to_owned();
            field.append(placeholder.as_str());
            field.append("`");
            Resolution::SubstitutionFailed { field }
        },
    }
}

/// Puts the fields of `identity` into the placeholders of `template`, where the operator fixed no
/// role.
pub fn substitute(template: &str, identity: &PluginIdentity) -> (r: Resolution)
    ensures
        r@ == substitution(template@, *identity),
{
    let fixed = String::new();
    settle_template(expand(template, identity), &fixed)
}

/// Looks for the role that `target` gives the caller `identity`.
pub fn resolve_role(identity: &PluginIdentity, target: &TargetConfig) -> (r: Resolution)
    ensures
        r@ == role_for(*identity, *target),
        target.identity_mapping == IdentityMapping::Static ==> r is Role && r->arn@
            == target.role_arn@ && !r->identity_derived,
        target.identity_mapping == IdentityMapping::SubjectId && identity.subject_id is Some
            && identity.subject_id->0@.len() > 0 ==> r is Role && r->arn@
            == identity.subject_id->0@ && r->identity_derived,
        target.identity_mapping == IdentityMapping::FromRole && identity.roles@.len() > 0
            && identity.roles@[0]@.len() > 0 ==> r is Role && r->arn@ == identity.roles@[0]@
            && r->identity_derived,
        r is Role && !r->identity_derived ==> r->arn@ == target.role_arn@,
{
    match target.identity_mapping {
        IdentityMapping::Static => Resolution::Role {
            arn: target.role_arn.clone(),
            identity_derived: false,
        },
        IdentityMapping::SubjectId => pick_role(
            identity.subject_id.clone(),
            &target.role_arn,
            "identity has no subject_id and no static fallback role_arn",
        ),
        IdentityMapping::FromRole => pick_role(
            list_item(&identity.roles, 0),
            &target.role_arn,
            "identity has no roles and no static fallback role_arn",
        ),
        IdentityMapping::Template => match &target.role_arn_template {
            Some(template) => settle_template(
                expand(template.as_str(), identity),
                &target.role_arn,
            ),
            None => {
                let empty = String::new();
                settle_template(expand(empty.as_str(), identity), &target.role_arn)
            },
        },
    }
}

/// No placeholder begins in `text`, whatever follows it.
pub open spec fn is_plain(text: Seq<char>) -> bool {
    forall|i: int| 0 <= i < text.len() ==> #[trigger] text[i] != '$'
}

/// No placeholder begins anywhere in `text`.
pub open spec fn has_no_placeholder(text: Seq<char>) -> bool {
    forall|i: int| 0 <= i < text.len() - 1 ==> !(#[trigger] text[i] == '$' && text[i + 1] == '{')
}

/// The placeholder of a field.
pub open spec fn placeholder_of(field: Seq<char>) -> Seq<char> {
    "${identity."@ + field + "}"@
}

/// Plain text before a template stands before what the template becomes.
pub proof fn plain_text_stays(text: Seq<char>, rest: Seq<char>, identity: PluginIdentity)
    requires
        is_plain(text),
    ensures
        expansion(text + rest, identity) == after(text, expansion(rest, identity)),
    decreases text.len(),
{
    let whole = text + rest;
    let tail = expansion(rest, identity);
    if text.len() == 0 {
        assert(whole =~= rest);
        if tail is Ok {
            assert(text + tail->Ok_0 =~= tail->Ok_0);
        }
    } else {
        assert(text[0] != '$');
        assert(whole[0] == text[0]);
        assert(is_plain(text.drop_first())) by {
            assert(forall|i: int|
                0 <= i < text.drop_first().len() ==> text.drop_first()[i] == text[i + 1]);
        }
        plain_text_stays(text.drop_first(), rest, identity);
        assert(whole.drop_first() =~= text.drop_first() + rest);
        lemma_after_twice(seq![text[0]], text.drop_first(), tail);
        assert(seq![text[0]] + text.drop_first() =~= text);
    }
}

/// A template without placeholders is left as it is.
pub proof fn template_without_placeholders(template: Seq<char>, identity: PluginIdentity)
    requires
        has_no_placeholder(template),
    ensures
        expansion(template, identity) == Ok::<Seq<char>, TemplateFaultView>(template),
    decreases template.len(),
{
    if template.len() == 0 {
        assert(template =~= Seq::empty());
    } else {
        let rest = template.drop_first();
        if template.len() > 1 {
            assert(!(template[0] == '$' && template[1] == '{'));
        }
        assert forall|i: int| 0 <= i < rest.len() - 1 implies !(#[trigger] rest[i] == '$' && rest[i
            + 1] == '{') by {
            assert(rest[i] == template[i + 1]);
        }
        template_without_placeholders(rest, identity);
        assert(seq![template[0]] + rest =~= template);
    }
}

/// A placeholder becomes the value of its field, as it is, and the rest of the template becomes
/// what it would alone; a field without a value, or with an empty one, is what fails.
pub proof fn placeholder_becomes_its_value(
    field: Seq<char>,
    rest: Seq<char>,
    identity: PluginIdentity,
)
    requires
        !field.contains('}'),
    ensures
        match field_value(field, identity) {
            Some(value) => expansion(placeholder_of(field) + rest, identity) == if value.len() > 0 {
                after(value, expansion(rest, identity))
            } else {
                Err(TemplateFaultView::NoValue { field })
            },
            None => expansion(placeholder_of(field) + rest, identity) == Err::<
                Seq<char>,
                TemplateFaultView,
            >(TemplateFaultView::NoValue { field }),
        },
{
    reveal_strlit("${identity.");
    reveal_strlit("identity.");
    reveal_strlit("}");
    let whole = placeholder_of(field) + rest;
    let body = whole.skip(2);
    let n = 9 + field.len() as int;
    assert forall|j: int| 0 <= j < n implies #[trigger] body[j] != '}' by {
        if j < 9 {
            assert(body[j] == "${identity."@[j + 2]);
        } else {
            assert(body[j] == field[j - 9]);
            assert(field.contains(field[j - 9]));
        }
    }
    assert(body[n] == '}');
    lemma_before_brace(body, n);
    assert(body.take(n).take(9) =~= "identity."@);
    assert(body.take(n).skip(9) =~= field);
    assert(body.skip(n + 1) =~= rest);
    assert(opens_placeholder(whole));
}

/// A placeholder that is not closed fails the template, whatever the identity.
pub proof fn open_placeholder_fails(text: Seq<char>, body: Seq<char>, identity: PluginIdentity)
    requires
        is_plain(text),
        !body.contains('}'),
    ensures
        expansion(text + ("${"@ + body), identity) == Err::<Seq<char>, TemplateFaultView>(
            TemplateFaultView::Unterminated { placeholder: body },
        ),
{
    reveal_strlit("${");
    let open = "${"@ + body;
    plain_text_stays(text, open, identity);
    assert(open.skip(2) =~= body);
    assert forall|j: int| 0 <= j < body.len() implies #[trigger] body[j] != '}' by {
        assert(body.contains(body[j]));
    }
    lemma_before_brace(body, body.len() as int);
}

/// Only the fields that a template may name ever have a value.
pub proof fn only_known_fields_have_values(field: Seq<char>, identity: PluginIdentity)
    ensures
        field_value(field, identity) is Some ==> is_known_field(field),
{
}

/// The fields `subject_id`, `kind`, `trust_level` and `auth_provider` are those of the identity.
pub proof fn named_fields(identity: PluginIdentity)
    ensures
        field_value("subject_id"@, identity) == opt_text(identity.subject_id),
        field_value("kind"@, identity) == Some(identity.kind@),
        field_value("trust_level"@, identity) == Some(identity.trust_level@),
        field_value("auth_provider"@, identity) == opt_text(identity.auth_provider),
{
    reveal_strlit("subject_id");
    reveal_strlit("kind");
    reveal_strlit("trust_level");
    reveal_strlit("auth_provider");
    assert("subject_id"@[0] != "kind"@[0] && "subject_id"@[0] != "trust_level"@[0]
        && "subject_id"@[0] != "auth_provider"@[0]);
    assert("kind"@[0] != "trust_level"@[0] && "kind"@[0] != "auth_provider"@[0]);
    assert("trust_level"@[0] != "auth_provider"@[0]);
}

/// A field `attributes.<key>` is the attribute of that key.
pub proof fn attribute_fields(key: Seq<char>, identity: PluginIdentity)
    ensures
        field_value("attributes."@ + key, identity) == if identity.attributes@.contains_key(key) {
            Some(identity.attributes@[key]@)
        } else {
            None
        },
{
    reveal_strlit("attributes.");
    reveal_strlit("subject_id");
    reveal_strlit("kind");
    reveal_strlit("trust_level");
    reveal_strlit("auth_provider");
    let field = "attributes."@ + key;
    assert(field[0] == 'a' && field[1] == 't');
    assert(field.take(11) =~= "attributes."@);
    assert(field.skip(11) =~= key);
    assert("auth_provider"@[1] != field[1]);
    assert("subject_id"@[0] != field[0]);
    assert("kind"@[0] != field[0]);
    assert("trust_level"@[0] != field[0]);
}

proof fn lemma_first_char(text: Seq<char>, prefix: Seq<char>)
    requires
        prefix.len() > 0,
    ensures
        begins_with(text, prefix) ==> text[0] == prefix[0],
{
    if begins_with(text, prefix) {
        assert(text.take(prefix.len() as int)[0] == text[0]);
    }
}

/// The field `<name>[n]`.
pub open spec fn item_field(name: Seq<char>, n: usize) -> Seq<char> {
    name.push('[') + decimal(n as nat) + "]"@
}

/// The fields `roles[N]`, `groups[N]` and `scopes[N]` are the items of those lists, for every `N`,
/// and have no value beyond the end of the list.
pub proof fn item_fields(n: usize, identity: PluginIdentity)
    ensures
        field_value(item_field("roles"@, n), identity) == listed(identity.roles@, n),
        field_value(item_field("groups"@, n), identity) == listed(identity.groups@, n),
        field_value(item_field("scopes"@, n), identity) == listed(identity.scopes@, n),
{
    reveal_strlit("attributes.");
    reveal_strlit("subject_id");
    reveal_strlit("kind");
    reveal_strlit("trust_level");
    reveal_strlit("auth_provider");
    reveal_strlit("roles");
    reveal_strlit("groups");
    reveal_strlit("scopes");
    reveal_strlit("]");
    indexed_reads_every_index("roles"@, n);
    indexed_reads_every_index("groups"@, n);
    indexed_reads_every_index("scopes"@, n);
    let r = item_field("roles"@, n);
    let g = item_field("groups"@, n);
    let s = item_field("scopes"@, n);
    assert(r[0] == 'r' && g[0] == 'g' && s[0] == 's' && s[1] == 'c');
    assert("subject_id"@[0] == 's' && "subject_id"@[1] == 'u');
    assert("kind"@[0] == 'k' && "trust_level"@[0] == 't' && "auth_provider"@[0] == 'a');
    assert("attributes."@[0] == 'a');
    lemma_first_char(r, "attributes."@);
    lemma_first_char(g, "attributes."@);
    lemma_first_char(s, "attributes."@);
    lemma_first_char(g, "roles"@.push('['));
    lemma_first_char(s, "roles"@.push('['));
    lemma_first_char(s, "groups"@.push('['));
}

/// A target with a static mapping has its own role for every identity.
pub proof fn static_targets_have_one_role(identity: PluginIdentity, target: TargetConfig)
    requires
        target.identity_mapping == IdentityMapping::Static,
    ensures
        role_for(identity, target) == (ResolutionView::Role {
            arn: target.role_arn@,
            identity_derived: false,
        }),
{
}

/// Where the subject is the role, a subject that is there and not empty is the role, whether or not
/// the operator fixed one, and counts as the identity's. Without a subject the role is the one that
/// the operator fixed, and there is none where the operator fixed none.
pub proof fn subjects_are_roles(identity: PluginIdentity, target: TargetConfig)
    requires
        target.identity_mapping == IdentityMapping::SubjectId,
    ensures
        ({
            let there = identity.subject_id is Some && identity.subject_id->0@.len() > 0;
            let found = role_for(identity, target);
            &&& there ==> found == (ResolutionView::Role {
                arn: identity.subject_id->0@,
                identity_derived: true,
            })
            &&& !there && target.role_arn@.len() > 0 ==> found == (ResolutionView::Role {
                arn: target.role_arn@,
                identity_derived: false,
            })
            &&& !there && target.role_arn@.len() == 0 ==> found == (ResolutionView::EmptyDerived {
                reason: "identity has no subject_id and no static fallback role_arn"@,
            })
        }),
{
}

/// Where the caller's first role is the role, a first role that is there and not empty is the role,
/// whether or not the operator fixed one, and counts as the identity's. Without it the role is the
/// one that the operator fixed, and there is none where the operator fixed none.
pub proof fn first_roles_are_roles(identity: PluginIdentity, target: TargetConfig)
    requires
        target.identity_mapping == IdentityMapping::FromRole,
    ensures
        ({
            let there = identity.roles@.len() > 0 && identity.roles@[0]@.len() > 0;
            let found = role_for(identity, target);
            &&& there ==> found == (ResolutionView::Role {
                arn: identity.roles@[0]@,
                identity_derived: true,
            })
            &&& !there && target.role_arn@.len() > 0 ==> found == (ResolutionView::Role {
                arn: target.role_arn@,
                identity_derived: false,
            })
            &&& !there && target.role_arn@.len() == 0 ==> found == (ResolutionView::EmptyDerived {
                reason: "identity has no roles and no static fallback role_arn"@,
            })
        }),
{
}

/// Where a template tells the role, the filled template is the role, whether or not the operator
/// fixed one, and counts as the identity's, unless nothing is left of it. A caller who lacks a value
/// for a field that a template may name, or with whom nothing is left of the template, has the role
/// that the operator fixed. Any other fault, and a missing value where the operator fixed no role,
/// is told.
pub proof fn filled_templates_are_roles(identity: PluginIdentity, target: TargetConfig)
    requires
        target.identity_mapping == IdentityMapping::Template,
        target.role_arn_template is Some,
    ensures
        ({
            let fixed = target.role_arn@;
            let found = role_for(identity, target);
            match expansion(target.role_arn_template->0@, identity) {
                Ok(arn) => {
                    &&& arn.len() > 0 ==> found == (ResolutionView::Role {
                        arn,
                        identity_derived: true,
                    })
                    &&& arn.len() == 0 && fixed.len() > 0 ==> found == (ResolutionView::Role {
                        arn: fixed,
                        identity_derived: false,
                    })
                    &&& arn.len() == 0 && fixed.len() == 0 ==> found == (
                    ResolutionView::EmptyDerived {
                        reason: "template substitution produced an empty role ARN"@,
                    })
                },
                Err(TemplateFaultView::NoValue { field }) => {
                    &&& fixed.len() > 0 && is_known_field(field) ==> found == (
                    ResolutionView::Role { arn: fixed, identity_derived: false })
                    &&& fixed.len() == 0 || !is_known_field(field) ==> found == (
                    ResolutionView::SubstitutionFailed { field })
                },
                Err(TemplateFaultView::Unterminated { placeholder }) => found == (
                ResolutionView::SubstitutionFailed {
                    field: "unterminated placeholder `${"@ + placeholder + "`"@,
                }),
            }
        }),
{
}

/// A target whose template is missing has the role that the operator fixed, for every identity, and
/// none where the operator fixed none.
pub proof fn missing_templates_lead_to_the_fixed_role(identity: PluginIdentity, target: TargetConfig)
    requires
        target.identity_mapping == IdentityMapping::Template,
        target.role_arn_template is None,
    ensures
        role_for(identity, target) == if target.role_arn@.len() > 0 {
            ResolutionView::Role { arn: target.role_arn@, identity_derived: false }
        } else {
            ResolutionView::EmptyDerived {
                reason: "template substitution produced an empty role ARN"@,
            }
        },
{
}

/// A template that is filled on its own leads where it leads for a target without a fixed role.
pub proof fn substitution_fixes_no_role(
    template: Seq<char>,
    identity: PluginIdentity,
    target: TargetConfig,
)
    requires
        target.identity_mapping == IdentityMapping::Template,
        target.role_arn_template is Some,
        target.role_arn_template->0@ == template,
        target.role_arn@.len() == 0,
    ensures
        substitution(template, identity) == role_for(identity, target),
{
    assert(target.role_arn@ =~= Seq::<char>::empty());
}

/// Only what the target's mapping looks at makes a difference to the role: two callers with the same
/// subject and the same first role, whatever else is told of them, are given the same role by every
/// target whose role is no template.
pub proof fn the_rest_of_the_identity_leads_nowhere(
    a: PluginIdentity,
    b: PluginIdentity,
    target: TargetConfig,
)
    requires
        target.identity_mapping != IdentityMapping::Template,
        a.subject_id is Some <==> b.subject_id is Some,
        a.subject_id is Some ==> a.subject_id->0@ == b.subject_id->0@,
        a.roles@.len() > 0 <==> b.roles@.len() > 0,
        a.roles@.len() > 0 ==> a.roles@[0]@ == b.roles@[0]@,
    ensures
        role_for(a, target) == role_for(b, target),
{
}

/// The fields that a template may name: `subject_id`, `kind`, `trust_level`, `auth_provider`,
/// `attributes.` with a key behind it, and the items of `roles`, `groups` and `scopes`.
pub proof fn fields_that_templates_may_name(field: Seq<char>)
    ensures
        is_known_field(field) <==> field == "subject_id"@ || field == "kind"@ || field
            == "trust_level"@ || field == "auth_provider"@ || (exists|key: Seq<char>|
            field == #[trigger] ("attributes."@ + key)) || indexed(field, "roles"@) is Some
            || indexed(field, "groups"@) is Some || indexed(field, "scopes"@) is Some,
{
    beginnings_of_texts(field, "attributes."@);
}

/// A field that is read as an item of `roles`, `groups` or `scopes`, however its index is written,
/// has the value of that item, and none beyond the end of the list.
pub proof fn written_items(field: Seq<char>, identity: PluginIdentity)
    ensures
        indexed(field, "roles"@) is Some ==> ({
            let i = indexed(field, "roles"@)->0 as int;
            field_value(field, identity) == if i < identity.roles@.len() {
                Some(identity.roles@[i]@)
            } else {
                None
            }
        }),
        indexed(field, "groups"@) is Some ==> ({
            let i = indexed(field, "groups"@)->0 as int;
            field_value(field, identity) == if i < identity.groups@.len() {
                Some(identity.groups@[i]@)
            } else {
                None
            }
        }),
        indexed(field, "scopes"@) is Some ==> ({
            let i = indexed(field, "scopes"@)->0 as int;
            field_value(field, identity) == if i < identity.scopes@.len() {
                Some(identity.scopes@[i]@)
            } else {
                None
            }
        }),
{
    reveal_strlit("attributes.");
    reveal_strlit("subject_id");
    reveal_strlit("kind");
    reveal_strlit("trust_level");
    reveal_strlit("auth_provider");
    reveal_strlit("roles");
    reveal_strlit("groups");
    reveal_strlit("scopes");
    assert("subject_id"@[0] == 's' && "subject_id"@[1] == 'u');
    assert("kind"@[0] == 'k' && "trust_level"@[0] == 't' && "auth_provider"@[0] == 'a');
    assert("attributes."@[0] == 'a');
    assert("roles"@[0] == 'r' && "groups"@[0] == 'g' && "scopes"@[0] == 's' && "scopes"@[1] == 'c');
    lemma_first_char(field, "attributes."@);
    lemma_first_char(field, "roles"@.push('['));
    lemma_first_char(field, "groups"@.push('['));
    lemma_first_char(field, "scopes"@.push('['));
    if begins_with(field, "scopes"@.push('[')) {
        assert(field.take("scopes"@.push('[').len() as int)[1] == field[1]);
    }
}

/// Text in which no placeholder begins stays as it is, before whatever the rest of the template
/// becomes. A dollar sign without a brace behind it is such text.
pub proof fn text_outside_placeholders_stays(
    text: Seq<char>,
    rest: Seq<char>,
    identity: PluginIdentity,
)
    requires
        forall|i: int|
            0 <= i < text.len() ==> !(#[trigger] (text + rest)[i] == '$' && i + 1 < text.len()
                + rest.len() && (text + rest)[i + 1] == '{'),
    ensures
        match expansion(rest, identity) {
            Ok(filled) => expansion(text + rest, identity) == Ok::<Seq<char>, TemplateFaultView>(
                text + filled,
            ),
            Err(fault) => expansion(text + rest, identity) == Err::<Seq<char>, TemplateFaultView>(
                fault,
            ),
        },
    decreases text.len(),
{
    let whole = text + rest;
    if text.len() == 0 {
        assert(whole =~= rest);
        if let Ok(filled) = expansion(rest, identity) {
            assert(text + filled =~= filled);
        }
    } else {
        let less = text.drop_first();
        assert(whole.drop_first() =~= less + rest);
        assert(!(whole[0] == '$' && 1 < text.len() + rest.len() && whole[1] == '{'));
        assert forall|i: int| 0 <= i < less.len() implies !(#[trigger] (less + rest)[i] == '$' && i
            + 1 < less.len() + rest.len() && (less + rest)[i + 1] == '{') by {
            assert((less + rest)[i] == whole[i + 1]);
            if i + 1 < less.len() + rest.len() {
                assert((less + rest)[i + 1] == whole[i + 2]);
            }
        }
        text_outside_placeholders_stays(less, rest, identity);
        assert(!opens_placeholder(whole));
        if let Ok(filled) = expansion(rest, identity) {
            assert(seq![text[0]] + (less + filled) =~= text + filled);
        }
    }
}

/// A closed placeholder becomes the value of the field that it names, with or without `identity.`
/// before it, as the value stands, and the rest of the template becomes what it would alone. A field
/// without a value, or with an empty one, is told instead, whatever follows.
pub proof fn placeholders_become_values(
    field: Seq<char>,
    rest: Seq<char>,
    identity: PluginIdentity,
)
    requires
        !field.contains('}'),
    ensures
        ({
            let value = field_value(field, identity);
            let filled = if value is Some && value->0.len() > 0 {
                match expansion(rest, identity) {
                    Ok(text) => Ok(value->0 + text),
                    Err(fault) => Err(fault),
                }
            } else {
                Err(TemplateFaultView::NoValue { field })
            };
            &&& expansion("${identity."@ + field + "}"@ + rest, identity) == filled
            &&& !begins_with(field, "identity."@) ==> expansion(
                "${"@ + field + "}"@ + rest,
                identity,
            ) == filled
        }),
{
    placeholder_becomes_its_value(field, rest, identity);
    reveal_strlit("${");
    reveal_strlit("}");
    let whole = "${"@ + field + "}"@ + rest;
    let body = whole.skip(2);
    let n = field.len() as int;
    assert forall|j: int| 0 <= j < n implies #[trigger] body[j] != '}' by {
        assert(body[j] == field[j]);
        assert(field.contains(field[j]));
    }
    assert(body[n] == '}');
    lemma_before_brace(body, n);
    assert(body.take(n) =~= field);
    assert(body.skip(n + 1) =~= rest);
    assert(opens_placeholder(whole));
}

/// The view of a resolution, and that of a template's fault, is its own variant with its own text.
pub proof fn resolutions_as_texts(text: String, derived: bool)
    ensures
        (Resolution::Role { arn: text, identity_derived: derived })@ == (ResolutionView::Role {
            arn: text@,
            identity_derived: derived,
        }),
        (Resolution::EmptyDerived { reason: text })@ == (ResolutionView::EmptyDerived {
            reason: text@,
        }),
        (Resolution::SubstitutionFailed { field: text })@ == (ResolutionView::SubstitutionFailed {
            field: text@,
        }),
        (TemplateFault::NoValue { field: text })@ == (TemplateFaultView::NoValue { field: text@ }),
        (TemplateFault::Unterminated { placeholder: text })@ == (TemplateFaultView::Unterminated {
            placeholder: text@,
        }),
{
}

} // verus!
