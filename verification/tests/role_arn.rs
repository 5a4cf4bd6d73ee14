use credential_aws_sts::role_arn::is_valid_role_arn;

const ARN_A: &str = "arn:aws:iam::123456789012:role/team-a";

#[test]
fn arn_validation_accepts_real_arns() {
    assert!(is_valid_role_arn(ARN_A));
    assert!(is_valid_role_arn(
        "arn:aws:iam::000000000000:role/path/to/Role_Name-1"
    ));
    assert!(is_valid_role_arn(
        "arn:aws-us-gov:iam::123456789012:role/gov"
    ));
}

#[test]
fn arn_validation_rejects_garbage_and_injection() {
    assert!(!is_valid_role_arn(""));
    assert!(!is_valid_role_arn("not-an-arn"));
    // wrong service
    assert!(!is_valid_role_arn("arn:aws:s3::123456789012:role/x"));
    // non-empty region segment
    assert!(!is_valid_role_arn(
        "arn:aws:iam:us-east-1:123456789012:role/x"
    ));
    // account not 12 digits
    assert!(!is_valid_role_arn("arn:aws:iam::123:role/x"));
    // not a role resource
    assert!(!is_valid_role_arn("arn:aws:iam::123456789012:user/x"));
    // missing role name
    assert!(!is_valid_role_arn("arn:aws:iam::123456789012:role/"));
    // a space sneaks in
    assert!(!is_valid_role_arn("arn:aws:iam::123456789012:role/a b"));
}

#[test]
fn arn_validation_at_the_edges() {
    assert!(is_valid_role_arn("arn:aws:iam::123456789012:role/+=,.@_/-"));
    assert!(is_valid_role_arn("arn:-:iam::123456789012:role//"));
    // one segment too many, one too few
    assert!(!is_valid_role_arn("arn:aws:iam::123456789012:role/x:y"));
    assert!(!is_valid_role_arn("arn:aws:iam:123456789012:role/x"));
    // empty or odd partition
    assert!(!is_valid_role_arn("arn::iam::123456789012:role/x"));
    assert!(!is_valid_role_arn("arn:a_s:iam::123456789012:role/x"));
    // digits of another script, a letter, one digit too many
    assert!(!is_valid_role_arn("arn:aws:iam::12345678901\u{0662}:role/x"));
    assert!(!is_valid_role_arn("arn:aws:iam::12345678901x:role/x"));
    assert!(!is_valid_role_arn("arn:aws:iam::1234567890123:role/x"));
    // case matters
    assert!(!is_valid_role_arn("ARN:aws:iam::123456789012:role/x"));
    assert!(!is_valid_role_arn("arn:aws:IAM::123456789012:role/x"));
    assert!(!is_valid_role_arn("arn:aws:iam::123456789012:Role/x"));
    assert!(!is_valid_role_arn("arn:aws:iam::123456789012:role"));
    assert!(!is_valid_role_arn(" arn:aws:iam::123456789012:role/x"));
    assert!(!is_valid_role_arn("arn:aws:iam::123456789012:role/x\n"));
}

#[test]
fn arn_validation_limits_the_length() {
    let head = "arn:aws:iam::123456789012:role/";
    let longest = format!("{head}{}", "r".repeat(2048 - head.len()));
    assert!(is_valid_role_arn(&longest));
    assert!(!is_valid_role_arn(&format!("{longest}r")));
}
