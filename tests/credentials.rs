use polkahub::credentials::{
    read_email_and_password, read_token, split_credentials, split_scheme, validate_credentials,
    AuthError,
};
use polkahub::password::{password_with_salt, to_hex};

#[test]
fn bearer_token_is_read() {
    assert_eq!(read_token(Some("Bearer abc123")), Ok("abc123".to_string()));
}

#[test]
fn malformed_bearer_values_are_refused() {
    assert_eq!(read_token(None), Err(AuthError::InvalidToken));
    assert_eq!(read_token(Some("Basic abc")), Err(AuthError::InvalidToken));
    assert_eq!(read_token(Some("Bearer a b")), Err(AuthError::InvalidToken));
    assert_eq!(read_token(Some("Bearer")), Err(AuthError::InvalidToken));
    assert_eq!(read_token(Some("bearer abc")), Err(AuthError::InvalidToken));
}

#[test]
fn scheme_split_needs_exactly_two_parts() {
    assert_eq!(split_scheme("Basic xyz", "Basic"), Some("xyz".to_string()));
    assert_eq!(split_scheme("Basic", "Basic"), None);
    assert_eq!(split_scheme("Basic  xyz", "Basic"), None);
    assert_eq!(split_scheme("Basicxyz", "Basic"), None);
}

#[test]
fn basic_credentials_are_decoded() {
    let r = read_email_and_password(Some("Basic YWxpY2VAZXhhbXBsZS5jb206cHctYWJjZGVmZ2g="));
    assert_eq!(r, Ok(("alice@example.com".to_string(), "pw-abcdefgh".to_string())));
}

#[test]
fn password_may_hold_colons() {
    let r = read_email_and_password(Some("Basic Ym9iQGV4YW1wbGUuY29tOnBhc3M6d29yZDox"));
    assert_eq!(r, Ok(("bob@example.com".to_string(), "pass:word:1".to_string())));
}

#[test]
fn malformed_basic_values_are_refused() {
    let bad = Err(AuthError::InvalidEmailAndPassword);
    assert_eq!(read_email_and_password(None), bad);
    assert_eq!(read_email_and_password(Some("Basic bm8tY29sb24taGVyZQ==")), bad);
    assert_eq!(read_email_and_password(Some("Basic !!!notbase64")), bad);
    assert_eq!(read_email_and_password(Some("Basic //46YWJjZGVmZ2hpag==")), bad);
    assert_eq!(read_email_and_password(Some("Bearer YWxpY2VAZXhhbXBsZS5jb206cHctYWJjZGVmZ2g=")), bad);
}

#[test]
fn credentials_split_at_first_colon() {
    assert_eq!(split_credentials("a:b:c"), Ok(("a".to_string(), "b:c".to_string())));
    assert_eq!(split_credentials(":x"), Ok(("".to_string(), "x".to_string())));
    assert_eq!(split_credentials("abc"), Err(AuthError::InvalidEmailAndPassword));
}

#[test]
fn credential_policy() {
    assert_eq!(validate_credentials("a@b.c", "12345678"), Ok(()));
    assert_eq!(validate_credentials("", "12345678"), Err(AuthError::InvalidEmailAndPassword));
    assert_eq!(validate_credentials("a@b.c", "1234567"), Err(AuthError::InvalidEmailAndPassword));
}

#[test]
fn auth_error_reasons_are_stable() {
    assert_eq!(AuthError::InvalidToken.reason(), "invalid-token");
    assert_eq!(AuthError::InvalidEmailAndPassword.reason(), "invalid-email-and-password");
    assert_eq!(AuthError::AccountNotFound.reason(), "account-not-found");
    assert_eq!(AuthError::EmailNotVerified.reason(), "email-not-verified");
    assert_eq!(AuthError::InternalError.reason(), "internal-error");
}

#[test]
fn hex_is_lowercase_two_digits_per_byte() {
    assert_eq!(to_hex(&vec![0x00, 0x0f, 0xa5, 0xff]), "000fa5ff");
    assert_eq!(to_hex(&vec![]), "");
}

#[test]
fn salted_hash_is_sha256_of_salt_then_password() {
    assert_eq!(
        password_with_salt("pepper", "pw-abcdefgh"),
        "c02ff817c2f922c3d21e61ed1b14c3af378108f1892fa863ec02acebaad24059"
    );
    assert_eq!(
        password_with_salt("", ""),
        "e3b0c44298fc1c149afbf4c8996fb92427ae41e4649b934ca495991b7852b855"
    );
}
