use vstd::prelude::*;
use vstd::string::*;
use vstd::utf8::{decode_utf8, valid_utf8};

use crate::text::{has_char, string_of_range, to_chars};

verus! {

/// Why a request could not be resolved to a login.
#[derive(Clone, Copy, Debug, PartialEq, Eq, Structural)]
pub enum AuthError {
    InvalidToken,
    InvalidEmailAndPassword,
    AccountNotFound,
    EmailNotVerified,
    InternalError,
}

impl AuthError {
    pub open spec fn reason_spec(&self) -> Seq<char> {
        match self {
            AuthError::InvalidToken => "invalid-token"@,
            AuthError::InvalidEmailAndPassword => "invalid-email-and-password"@,
            AuthError::AccountNotFound => "account-not-found"@,
            AuthError::EmailNotVerified => "email-not-verified"@,
            AuthError::InternalError => "internal-error"@,
        }
    }

    /// The stable user-visible reason.
    pub fn reason(&self) -> (r: String)
        ensures
            r@ == self.reason_spec(),
    {
        match self {
            AuthError::InvalidToken => String::from_str("invalid-token"),
            AuthError::InvalidEmailAndPassword => String::from_str("invalid-email-and-password"),
            AuthError::AccountNotFound => String::from_str("account-not-found"),
            AuthError::EmailNotVerified => String::from_str("email-not-verified"),
            AuthError::InternalError => String::from_str("internal-error"),
        }
    }
}

/// What follows `<scheme> ` in an `Authorization` value that splits on spaces
/// into exactly the scheme and one more part.
pub open spec fn scheme_payload(h: Seq<char>, scheme: Seq<char>) -> Option<Seq<char>> {
    if h.len() > scheme.len() && h.subrange(0, scheme.len() as int) == scheme && h[scheme.len() as int]
        == ' ' && !has_char(scheme, ' ') && !has_char(h.subrange(scheme.len() as int + 1, h.len() as int), ' ') {
        Some(h.subrange(scheme.len() as int + 1, h.len() as int))
    } else {
        None
    }
}

pub open spec fn bearer_token_of(h: Seq<char>) -> Option<Seq<char>> {
    scheme_payload(h, "Bearer"@)
}

/// The part after the scheme, if `header` is `<scheme> <payload>` with no other space.
pub fn split_scheme(header: &str, scheme: &str) -> (r: Option<String>)
    ensures
        match r {
            Some(p) => scheme_payload(header@, scheme@) == Some(p@),
            None => scheme_payload(header@, scheme@) is None,
        },
{
    let h = to_chars(header);
    let s = to_chars(scheme);
    let n = s.len();
    if h.len() <= n || h[n] != ' ' {
        return None;
    }
    let mut i: usize = 0;
    while i < n
        invariant
            h@ == header@,
            s@ == scheme@,
            n == s@.len() < h@.len(),
            i <= n,
            forall|k: int| 0 <= k < i ==> #[trigger] s@[k] == h@[k] && s@[k] != ' ',
        decreases n - i,
    {
        if s[i] != h[i] || s[i] == ' ' {
            proof {
                if h@.subrange(0, n as int) == s@ {
                    assert(h@.subrange(0, n as int)[i as int] == h@[i as int]);
                }
                if s@[i as int] == ' ' {
                    assert(has_char(s@, ' '));
                }
            }
            return None;
        }
        i = i + 1;
    }
    assert(h@.subrange(0, n as int) =~= s@);
    let mut j: usize = n + 1;
    while j < h.len()
        invariant
            h@ == header@,
            s@ == scheme@,
            n == s@.len() < h@.len(),
            n + 1 <= j <= h@.len(),
            forall|k: int| n + 1 <= k < j ==> #[trigger] h@[k] != ' ',
        decreases h@.len() - j,
    {
        if h[j] == ' ' {
            assert(h@.subrange(n + 1, h@.len() as int)[j - n - 1] == ' ');
            assert(has_char(h@.subrange(n + 1, h@.len() as int), ' '));
            return None;
        }
        j = j + 1;
    }
    proof {
        assert(!has_char(s@, ' '));
        let rest = h@.subrange(n + 1, h@.len() as int);
        assert(!has_char(rest, ' ')) by {
            if has_char(rest, ' ') {
                let k = choose|k: int| 0 <= k < rest.len() && #[trigger] rest[k] == ' ';
                assert(h@[k + n + 1] != ' ');
            }
        }
    }
    Some(string_of_range(&h, n + 1, h.len()))
}

/// The bearer token of an `Authorization` value `Bearer <token>`.
pub fn read_token(authorization: Option<&str>) -> (r: Result<String, AuthError>)
    ensures
        match authorization {
            Some(h) => match bearer_token_of(h@) {
                Some(t) => r matches Ok(s) && s@ == t,
                None => r == Err::<String, AuthError>(AuthError::InvalidToken),
            },
            None => r == Err::<String, AuthError>(AuthError::InvalidToken),
        },
{
    match authorization {
        Some(h) => match split_scheme(h, "Bearer") {
            Some(t) => Ok(t),
            None => Err(AuthError::InvalidToken),
        },
        None => Err(AuthError::InvalidToken),
    }
}

/// What `base64::decode` gives for a text: the bytes, or nothing where the
/// text is not valid base64.
pub uninterp spec fn base64_decoded(s: Seq<char>) -> Option<Seq<u8>>;

/// Relies on `base64::decode` (standard alphabet): decodes the text, or fails.
#[verifier::external_body]
fn decode_base64(s: &str) -> (r: Option<Vec<u8>>)
    ensures
        match r {
            Some(v) => base64_decoded(s@) == Some(v@),
            None => base64_decoded(s@) is None,
        },
{
    base64::decode(s).ok()
}

/// Relies on `String::from_utf8`: succeeds exactly on valid UTF-8, with the
/// decoded characters.
#[verifier::external_body]
fn utf8_string(b: Vec<u8>) -> (r: Option<String>)
    ensures
        r is Some <==> valid_utf8(b@),
        r matches Some(s) ==> s@ == decode_utf8(b@),
{
    String::from_utf8(b).ok()
}

/// The decoded text of an `Authorization` value `Basic <base64>`.
pub open spec fn basic_text_of(h: Seq<char>) -> Option<Seq<char>> {
    match scheme_payload(h, "Basic"@) {
        Some(b) => match base64_decoded(b) {
            Some(bytes) => if valid_utf8(bytes) {
                Some(decode_utf8(bytes))
            } else {
                None
            },
            None => None,
        },
        None => None,
    }
}

/// `email:password` split at the first `:` (a password may hold `:`).
pub fn split_credentials(text: &str) -> (r: Result<(String, String), AuthError>)
    ensures
        r is Ok <==> has_char(text@, ':'),
        r matches Ok((e, p)) ==> text@ == e@ + seq![':'] + p@ && !has_char(e@, ':'),
        r matches Err(x) ==> x == AuthError::InvalidEmailAndPassword,
{
    let t = to_chars(text);
    let mut i: usize = 0;
    while i < t.len()
        invariant
            t@ == text@,
            i <= t@.len(),
            forall|k: int| 0 <= k < i ==> #[trigger] t@[k] != ':',
        decreases t@.len() - i,
    {
        if t[i] == ':' {
            let e = string_of_range(&t, 0, i);
            let p = string_of_range(&t, i + 1, t.len());
            proof {
                assert(text@ =~= e@ + seq![':'] + p@);
                assert(!has_char(e@, ':')) by {
                    if has_char(e@, ':') {
                        let k = choose|k: int| 0 <= k < e@.len() && e@[k] == ':';
                        assert(t@[k] != ':');
                    }
                }
            }
            return Ok((e, p));
        }
        i = i + 1;
    }
    Err(AuthError::InvalidEmailAndPassword)
}

/// Email and password from an `Authorization` value `Basic <base64(email:password)>`.
pub fn read_email_and_password(authorization: Option<&str>) -> (r: Result<(String, String), AuthError>)
    ensures
        r is Ok <==> (authorization matches Some(h) && basic_text_of(h@) matches Some(t) && has_char(t, ':')),
        r matches Ok((e, p)) ==> (authorization matches Some(h) && basic_text_of(h@) == Some(e@ + seq![':'] + p@)
            && !has_char(e@, ':')),
        r matches Err(x) ==> x == AuthError::InvalidEmailAndPassword,
{
    let h = match authorization {
        Some(h) => h,
        None => return Err(AuthError::InvalidEmailAndPassword),
    };
    let payload = match split_scheme(h, "Basic") {
        Some(p) => p,
        None => return Err(AuthError::InvalidEmailAndPassword),
    };
    let bytes = match decode_base64(payload.as_str()) {
        Some(b) => b,
        None => return Err(AuthError::InvalidEmailAndPassword),
    };
    let text = match utf8_string(bytes) {
        Some(t) => t,
        None => return Err(AuthError::InvalidEmailAndPassword),
    };
    split_credentials(text.as_str())
}

/// The ingress policy on credentials: a nonempty email and a password of at
/// least eight characters.
pub open spec fn acceptable_credentials(email: Seq<char>, password: Seq<char>) -> bool {
    email.len() > 0 && password.len() >= 8
}

/// Checks the ingress policy on an email and password.
pub fn validate_credentials(email: &str, password: &str) -> (r: Result<(), AuthError>)
    ensures
        r is Ok <==> acceptable_credentials(email@, password@),
        r matches Err(x) ==> x == AuthError::InvalidEmailAndPassword,
{
    if email.unicode_len() == 0 || password.unicode_len() < 8 {
        Err(AuthError::InvalidEmailAndPassword)
    } else {
        Ok(())
    }
}

} // verus!
