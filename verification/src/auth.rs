//! The credential exchange: building the Basic-authentication header for the
//! OAuth client-credentials request, and reading the bearer token out of the
//! token endpoint's response.

use vstd::prelude::*;
use vstd::string::*;

use crate::json::{json_of, json_get, parse_json, spec_get, Json};

verus! {

/// Why no token was obtained: a non-success HTTP status (fatal at startup),
/// or a response whose JSON lacks a string `access_token` field.
#[derive(Debug)]
pub enum AuthError {
    Http { status: u16, body: String },
    MalformedResponse,
}

/// The mathematical value of an `AuthError`.
pub enum AuthErrorV {
    Http { status: u16, body: Seq<char> },
    MalformedResponse,
}

impl View for AuthError {
    type V = AuthErrorV;

    open spec fn view(&self) -> AuthErrorV {
        match self {
            AuthError::Http { status, body } => AuthErrorV::Http { status: *status, body: body@ },
            AuthError::MalformedResponse => AuthErrorV::MalformedResponse,
        }
    }
}

/// What the standard Base64 alphabet (with padding) encodes the UTF-8 bytes
/// of this text to. The result depends on the text alone.
pub uninterp spec fn base64_std_of(s: Seq<char>) -> Seq<char>;

/// Relies on `base64::engine::general_purpose::STANDARD` and its `Engine::encode`:
/// a deterministic encoding of the argument's UTF-8 bytes into the standard
/// alphabet with padding; the empty text encodes to the empty string.
#[verifier::external_body]
fn base64_encode_str(s: &str) -> (r: String)
    ensures
        r@ == base64_std_of(s@),
        s@.len() == 0 ==> r@.len() == 0,
{
    base64::Engine::encode(&base64::engine::general_purpose::STANDARD, s.as_bytes())
}

/// The userinfo the token endpoint authenticates: `client_id:client_secret`.
pub open spec fn spec_userinfo(client_id: Seq<char>, client_secret: Seq<char>) -> Seq<char> {
    client_id + ":"@ + client_secret
}

/// The value of the `Authorization` header for the token request: `Basic `
/// followed by the Base64 form of `client_id:client_secret`.
pub fn build_basic_auth(client_id: &str, client_secret: &str) -> (r: String)
    ensures
        r@ == "Basic "@ + base64_std_of(spec_userinfo(client_id@, client_secret@)),
{
    let mut userinfo = client_id.to_owned();
    userinfo.append(":");
    userinfo.append(client_secret);
    proof {
        assert(userinfo@ =~= spec_userinfo(client_id@, client_secret@));
    }
    let encoded = base64_encode_str(userinfo.as_str());
    let mut out = "Basic ".to_owned();
    out.append(encoded.as_str());
    out
}

/// The bearer token the token endpoint's response carries, or the error: a
/// function of the HTTP status and body alone.
pub open spec fn spec_token_from_response(status: u16, body: Seq<char>) -> Result<
    Seq<char>,
    AuthErrorV,
> {
    if !crate::listing::spec_is_success(status) {
        Err(AuthErrorV::Http { status, body })
    } else {
        match json_of(body) {
            None => Err(AuthErrorV::MalformedResponse),
            Some(v) => match spec_get(v, "access_token"@) {
                Some(Json::Str(s)) => Ok(s@),
                _ => Err(AuthErrorV::MalformedResponse),
            },
        }
    }
}

/// Reads the access token out of the token endpoint's raw response.
///
/// Success is owed exactly when the status reports success and the body is
/// JSON with a string `access_token` field; a non-success status yields
/// `Http` with that status and body, and any other body yields
/// `MalformedResponse`.
pub fn token_from_response(status: u16, body: &str) -> (r: Result<String, AuthError>)
    ensures
        match r {
            Ok(tok) => spec_token_from_response(status, body@) == Ok::<_, AuthErrorV>(tok@),
            Err(e) => spec_token_from_response(status, body@) == Err::<Seq<char>, _>(e@),
        },
{
    if !(200 <= status && status < 300) {
        return Err(AuthError::Http { status, body: body.to_owned() });
    }
    match parse_json(body) {
        None => Err(AuthError::MalformedResponse),
        Some(v) => match json_get(&v, "access_token") {
            Some(j) => match j {
                Json::Str(s) => Ok(s.clone()),
                _ => Err(AuthError::MalformedResponse),
            },
            None => Err(AuthError::MalformedResponse),
        },
    }
}

} // verus!
