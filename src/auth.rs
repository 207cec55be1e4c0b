//! Token claims, the OAuth sign-in URL, and start-up flags.

use vstd::prelude::*;
use vstd::utf8::encode_utf8;
use crate::error::AppError;
use crate::records::Claims;

verus! {

/// How long an issued token is valid, in seconds (seven days).
pub const TOKEN_LIFETIME: usize = 604800;

impl Claims {
    /// The claims of a token issued to `user_id` at `now` (seconds since the
    /// epoch), valid for seven days.
    pub fn issue(user_id: String, now: usize) -> (r: Claims)
        requires
            now + TOKEN_LIFETIME <= usize::MAX,
        ensures
            r.sub == user_id,
            r.iat == now,
            r.exp == now + TOKEN_LIFETIME,
    {
        Claims { sub: user_id, exp: now + TOKEN_LIFETIME, iat: now }
    }
}

/// Bytes kept as they are in a URL component.
pub open spec fn unreserved(b: u8) -> bool {
    (48 <= b <= 57) || (65 <= b <= 90) || (97 <= b <= 122) || b == 45 || b == 46 || b == 95 || b
        == 126
}

pub open spec fn hex_digit(n: u8) -> char {
    if n < 10 {
        (48 + n) as u8 as char
    } else {
        (55 + n) as u8 as char
    }
}

/// Percent-encoding of the bytes: unreserved bytes kept, every other byte
/// written `%XX` in upper-case hex.
pub open spec fn percent_encoded(bs: Seq<u8>) -> Seq<char>
    decreases bs.len(),
{
    if bs.len() == 0 {
        seq![]
    } else {
        let b = bs.last();
        percent_encoded(bs.drop_last()) + if unreserved(b) {
            seq![b as char]
        } else {
            seq!['%', hex_digit(b / 16), hex_digit(b % 16)]
        }
    }
}

/// Relies on `urlencoding::encode`: percent-encodes the UTF-8 bytes of the
/// text, keeping `A-Z a-z 0-9 - . _ ~`.
#[verifier::external_body]
fn url_encode(s: &str) -> (r: String)
    ensures
        r@ == percent_encoded(encode_utf8(s@)),
{
    urlencoding::encode(s).into_owned()
}

/// The Google sign-in URL for this client, returning to `redirect_uri`, with
/// the anti-forgery `state`.
pub open spec fn google_url(client_id: Seq<char>, redirect_uri: Seq<char>, state: Seq<char>) -> Seq<
    char,
> {
    "https://accounts.google.com/o/oauth2/auth?client_id="@ + client_id + "&redirect_uri="@
        + percent_encoded(encode_utf8(redirect_uri))
        + "&scope=openid email profile&response_type=code&state="@ + state
}

/// The Google sign-in URL; without a configured client id it is a bad request.
pub fn google_auth_url(client_id: &Option<String>, redirect_uri: &str, state: &str) -> (r: Result<
    String,
    AppError,
>)
    ensures
        client_id is None ==> (r is Err && r->Err_0 is BadRequest && r->Err_0->BadRequest_0@
            == "Google OAuth not configured"@),
        client_id is Some ==> (r is Ok && r->Ok_0@ == google_url(
            client_id->0@,
            redirect_uri@,
            state@,
        )),
{
    match client_id {
        None => Err(AppError::BadRequest(String::from_str("Google OAuth not configured"))),
        Some(id) => {
            let mut u = String::from_str("https://accounts.google.com/o/oauth2/auth?client_id=");
            u.append(id.as_str());
            u.append("&redirect_uri=");
            let e = url_encode(redirect_uri);
            u.append(e.as_str());
            u.append("&scope=openid email profile&response_type=code&state=");
            u.append(state);
            Ok(u)
        },
    }
}

/// Whether a start-up flag's text switches it on: "true" in any case, or "1".
pub open spec fn flag_on(v: Seq<char>) -> bool {
    crate::models::lower_of(v) == "true"@ || v == "1"@
}

pub fn parse_flag(v: &str) -> (r: bool)
    ensures
        r == flag_on(v@),
{
    let l = crate::models::lowercase(v);
    crate::text::same_text(l.as_str(), "true") || crate::text::same_text(v, "1")
}

} // verus!
