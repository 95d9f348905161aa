//! Bearer-token verification. A request carries `Authorization: Bearer <jwt>`;
//! the token is checked by the JWT library with HMAC-SHA256 under the
//! configured secret, with expiry enforced. A request already tagged as
//! whitelisted skips verification and gets empty claims. The decision — which
//! error for which header shape — is verified here; only the cryptographic
//! decode itself is trusted.

use vstd::prelude::*;

use crate::config::spec_is_space;
use crate::text::chars_of;
use crate::text::slice_starts_with;
use crate::text::spec_starts_with;
use crate::text::string_from_chars;

verus! {

/// What a decoded token carries: subject, expiry (unix seconds), tenant.
#[derive(Debug, Clone)]
pub struct Claims {
    pub sub: String,
    pub exp: u64,
    pub tenant_id: String,
}

/// Why verification failed, each mapped to one response.
#[derive(Debug, Clone, Copy, PartialEq, Eq)]
pub enum AuthError {
    MissingHeader,
    InvalidToken,
    DecodeError,
    ConfigMissing,
}

impl AuthError {
    /// The HTTP status this error answers with.
    pub fn status(&self) -> (r: u16)
        ensures
            r == match self {
                AuthError::MissingHeader => 401u16,
                AuthError::InvalidToken => 401u16,
                AuthError::DecodeError => 401u16,
                AuthError::ConfigMissing => 500u16,
            },
    {
        match self {
            AuthError::MissingHeader => 401,
            AuthError::InvalidToken => 401,
            AuthError::DecodeError => 401,
            AuthError::ConfigMissing => 500,
        }
    }

    /// The response body this error answers with.
    pub fn message(&self) -> (r: &'static str)
        ensures
            r@ == match self {
                AuthError::MissingHeader => "Missing authorization header"@,
                AuthError::InvalidToken => "Invalid token"@,
                AuthError::DecodeError => "Token decode error"@,
                AuthError::ConfigMissing => "Config missing"@,
            },
    {
        match self {
            AuthError::MissingHeader => "Missing authorization header",
            AuthError::InvalidToken => "Invalid token",
            AuthError::DecodeError => "Token decode error",
            AuthError::ConfigMissing => "Config missing",
        }
    }
}

/// The verified claims of one request.
#[derive(Debug, Clone)]
pub struct JwtAuth(pub Claims);

/// The payload a well-formed token decodes to: subject, expiry, tenant. A
/// token's payload is a function of the token text alone.
pub uninterp spec fn jwt_payload(token: Seq<char>) -> (Seq<char>, u64, Seq<char>);

/// Relies on jsonwebtoken::decode with HMAC-SHA256 and default validation
/// (expiry enforced): on success the claims are the token's own payload —
/// a function of the token text — with `sub`, `exp` and `tenant_id` read
/// from it. Whether decoding succeeds also depends on the secret and on the
/// clock, so nothing is assumed about when `Some` is returned.
#[verifier::external_body]
fn jwt_decode(token: &str, secret: &str) -> (r: Option<(String, u64, String)>)
    ensures
        r is Some ==> ({
            let (sub, exp, tenant) = jwt_payload(token@);
            r.unwrap().0@ == sub && r.unwrap().1 == exp && r.unwrap().2@ == tenant
        }),
{
    let key = jsonwebtoken::DecodingKey::from_secret(secret.as_bytes());
    let validation = jsonwebtoken::Validation::new(jsonwebtoken::Algorithm::HS256);
    let data = jsonwebtoken::decode::<serde_json::Value>(token, &key, &validation).ok()?;
    let sub = data.claims.get("sub").and_then(|v| v.as_str())?.to_string();
    let exp = data.claims.get("exp").and_then(|v| v.as_u64())?;
    let tenant_id = data.claims.get("tenant_id").and_then(|v| v.as_str())?.to_string();
    Some((sub, exp, tenant_id))
}

/// The bearer scheme prefix of the authorization header.
pub open spec fn spec_bearer() -> Seq<char> {
    seq!['B', 'e', 'a', 'r', 'e', 'r', ' ']
}

/// The header value with every leading repetition of `Bearer ` removed.
pub open spec fn spec_strip_bearer(s: Seq<char>) -> Seq<char>
    decreases s.len(),
{
    if spec_starts_with(s, spec_bearer()) {
        spec_strip_bearer(s.skip(7))
    } else {
        s
    }
}

/// The sequence with leading whitespace removed.
pub open spec fn spec_trim_start(s: Seq<char>) -> Seq<char>
    decreases s.len(),
{
    if s.len() > 0 && spec_is_space(s[0]) {
        spec_trim_start(s.skip(1))
    } else {
        s
    }
}

/// The sequence with trailing whitespace removed.
pub open spec fn spec_trim_end(s: Seq<char>) -> Seq<char>
    decreases s.len(),
{
    if s.len() > 0 && spec_is_space(s.last()) {
        spec_trim_end(s.drop_last())
    } else {
        s
    }
}

/// The sequence with whitespace removed at both ends (the four ASCII
/// whitespace characters; an exotic Unicode space stays part of the token).
pub open spec fn spec_trim(s: Seq<char>) -> Seq<char> {
    spec_trim_end(spec_trim_start(s))
}

/// The token text inside a bearer header value.
pub open spec fn spec_bearer_token(header: Seq<char>) -> Seq<char> {
    spec_trim(spec_strip_bearer(header))
}

fn strip_bearer(cs: Vec<char>) -> (r: Vec<char>)
    ensures
        r@ == spec_strip_bearer(cs@),
{
    let bearer = chars_of("Bearer ");
    proof {
        reveal_strlit("Bearer ");
        assert(bearer@ =~= spec_bearer());
    }
    let mut cur = cs;
    while cur.len() >= 7 && slice_starts_with(cur.as_slice(), bearer.as_slice())
        invariant
            bearer@ == spec_bearer(),
            spec_strip_bearer(cs@) == spec_strip_bearer(cur@),
        decreases cur.len(),
    {
        let mut next: Vec<char> = Vec::new();
        crate::text::push_range(&mut next, cur.as_slice(), 7, cur.len());
        proof {
            assert(next@ =~= cur@.skip(7));
        }
        cur = next;
    }
    proof {
        if spec_starts_with(cur@, spec_bearer()) {
            assert(cur@.len() >= 7);
        }
    }
    cur
}

fn trim_chars(cs: &Vec<char>) -> (r: Vec<char>)
    ensures
        r@ == spec_trim(cs@),
{
    let mut lo: usize = 0;
    proof {
        assert(cs@.skip(0) == cs@);
    }
    while lo < cs.len() && (cs[lo] == ' ' || cs[lo] == '\t' || cs[lo] == '\r' || cs[lo] == '\n')
        invariant
            0 <= lo <= cs@.len(),
            spec_trim_start(cs@) == spec_trim_start(cs@.skip(lo as int)),
        decreases cs.len() - lo,
    {
        proof {
            assert(cs@.skip(lo as int)[0] == cs@[lo as int]);
            assert(cs@.skip(lo as int).skip(1) =~= cs@.skip(lo + 1 as int));
        }
        lo += 1;
    }
    let ghost started = spec_trim_start(cs@);
    proof {
        if lo < cs@.len() {
            assert(cs@.skip(lo as int)[0] == cs@[lo as int]);
        }
        assert(started == cs@.skip(lo as int));
    }
    let mut hi: usize = cs.len();
    while hi > lo && (cs[hi - 1] == ' ' || cs[hi - 1] == '\t' || cs[hi - 1] == '\r' || cs[hi - 1]
        == '\n')
        invariant
            lo <= hi <= cs@.len(),
            started == cs@.skip(lo as int),
            spec_trim_end(started) == spec_trim_end(cs@.subrange(lo as int, hi as int)),
        decreases hi,
    {
        proof {
            let cur = cs@.subrange(lo as int, hi as int);
            assert(cur.last() == cs@[hi - 1]);
            assert(cur.drop_last() =~= cs@.subrange(lo as int, hi - 1));
        }
        hi -= 1;
    }
    proof {
        let cur = cs@.subrange(lo as int, hi as int);
        if cur.len() > 0 {
            assert(cur.last() == cs@[hi - 1]);
        }
        assert(spec_trim_end(started) == cur);
    }
    let mut out: Vec<char> = Vec::new();
    crate::text::push_range(&mut out, cs.as_slice(), lo, hi);
    out
}

impl JwtAuth {
    /// Verify one request. A whitelisted request passes with empty claims; a
    /// missing header, a header without the bearer scheme, and a token the
    /// JWT library rejects (malformed, bad signature, or expired) each map
    /// to their own error.
    pub fn verify(bypass: bool, auth_header: Option<&str>, secret: &str) -> (r: Result<
        JwtAuth,
        AuthError,
    >)
        ensures
            bypass ==> r is Ok && r.unwrap().0.sub@ == Seq::<char>::empty() && r.unwrap().0.exp
                == 0 && r.unwrap().0.tenant_id@ == Seq::<char>::empty(),
            !bypass && auth_header is None ==> r == Err::<JwtAuth, AuthError>(
                AuthError::MissingHeader,
            ),
            !bypass && auth_header is Some && !spec_starts_with(
                auth_header.unwrap()@,
                spec_bearer(),
            ) ==> r == Err::<JwtAuth, AuthError>(AuthError::InvalidToken),
            !bypass && auth_header is Some && spec_starts_with(
                auth_header.unwrap()@,
                spec_bearer(),
            ) ==> match r {
                Ok(auth) => ({
                    let (sub, exp, tenant) = jwt_payload(spec_bearer_token(auth_header.unwrap()@));
                    auth.0.sub@ == sub && auth.0.exp == exp && auth.0.tenant_id@ == tenant
                }),
                Err(e) => e == AuthError::DecodeError,
            },
    {
        if bypass {
            return Ok(
                JwtAuth(
                    Claims { sub: String::new(), exp: 0, tenant_id: String::new() },
                ),
            );
        }
        let header = match auth_header {
            Some(h) => h,
            None => {
                return Err(AuthError::MissingHeader);
            },
        };
        let header_cs = chars_of(header);
        let bearer = chars_of("Bearer ");
        proof {
            reveal_strlit("Bearer ");
            assert(bearer@ =~= spec_bearer());
        }
        if !slice_starts_with(header_cs.as_slice(), bearer.as_slice()) {
            return Err(AuthError::InvalidToken);
        }
        let stripped = strip_bearer(header_cs);
        let token_cs = trim_chars(&stripped);
        let token = string_from_chars(&token_cs);
        match jwt_decode(token.as_str(), secret) {
            Some((sub, exp, tenant_id)) => Ok(JwtAuth(Claims { sub, exp, tenant_id })),
            None => Err(AuthError::DecodeError),
        }
    }
}

} // verus!
