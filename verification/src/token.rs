//! Signing a claim set into a three-segment token, and verifying one.
use vstd::prelude::*;
use base64::Engine;
use crate::claims::Claims;
use crate::errors::JwtError;
use crate::render::chars_to_string;
use crate::render::dec_str;
use crate::render::json_escaped;
use crate::render::push_dec;
use crate::render::push_json_escaped;
use crate::render::push_str_chars;

verus! {

/// How an optional identity claim appears in the payload: a JSON string
/// literal, or `null`.
pub open spec fn json_opt_string(o: Option<String>) -> Seq<char> {
    match o {
        None => "null"@,
        Some(s) => seq!['"'] + json_escaped(s@) + seq!['"'],
    }
}

/// How an optional timestamp claim appears in the payload: a decimal
/// number, or `null`.
pub open spec fn json_opt_num(o: Option<usize>) -> Seq<char> {
    match o {
        None => "null"@,
        Some(n) => dec_str(n as int),
    }
}

/// The JSON serialization of a claim set: all six keys in a fixed order,
/// `null` standing for each absent field.
pub open spec fn claims_json(c: Claims) -> Seq<char> {
    "{\"exp\":"@ + dec_str(c.exp as int) + ",\"sub\":"@ + json_opt_string(c.sub) + ",\"aud\":"@
        + json_opt_string(c.aud) + ",\"iss\":"@ + json_opt_string(c.iss) + ",\"iat\":"@
        + json_opt_num(c.iat) + ",\"nbf\":"@ + json_opt_num(c.nbf) + "}"@
}

fn push_json_opt_string(o: &Option<String>, out: &mut Vec<char>)
    ensures
        final(out)@ == old(out)@ + json_opt_string(*o),
{
    match o {
        None => push_str_chars("null", out),
        Some(s) => {
            out.push('"');
            push_json_escaped(s.as_str(), out);
            out.push('"');
            proof {
                assert(out@ =~= old(out)@ + json_opt_string(*o));
            }
        },
    }
}

fn push_json_opt_num(o: &Option<usize>, out: &mut Vec<char>)
    ensures
        final(out)@ == old(out)@ + json_opt_num(*o),
{
    match o {
        None => push_str_chars("null", out),
        Some(n) => push_dec(*n as u64, out),
    }
}

/// Renders the claim set as the JSON text that stands in the token's
/// payload segment.
pub fn claims_to_json(c: &Claims) -> (s: String)
    ensures
        s@ == claims_json(*c),
{
    let mut out: Vec<char> = Vec::new();
    push_str_chars("{\"exp\":", &mut out);
    push_dec(c.exp as u64, &mut out);
    push_str_chars(",\"sub\":", &mut out);
    push_json_opt_string(&c.sub, &mut out);
    push_str_chars(",\"aud\":", &mut out);
    push_json_opt_string(&c.aud, &mut out);
    push_str_chars(",\"iss\":", &mut out);
    push_json_opt_string(&c.iss, &mut out);
    push_str_chars(",\"iat\":", &mut out);
    push_json_opt_num(&c.iat, &mut out);
    push_str_chars(",\"nbf\":", &mut out);
    push_json_opt_num(&c.nbf, &mut out);
    push_str_chars("}", &mut out);
    proof {
        assert(out@ =~= claims_json(*c));
    }
    chars_to_string(&out)
}

/// What the base64url encoding of a text's UTF-8 bytes is.
pub uninterp spec fn b64url_of(s: Seq<char>) -> Seq<char>;

/// Relies on base64's `URL_SAFE_NO_PAD` engine: the unpadded URL-safe
/// base64 of the UTF-8 bytes of the input, a function of the input alone.
#[verifier::external_body]
fn b64url_encode(s: &str) -> (r: String)
    ensures
        r@ == b64url_of(s@),
{
    base64::engine::general_purpose::URL_SAFE_NO_PAD.encode(s.as_bytes())
}

/// What the HMAC-SHA256 tag of a message under a secret is, in base64url.
pub uninterp spec fn hs256_sig_of(secret: Seq<u8>, msg: Seq<char>) -> Seq<char>;

/// Relies on `jsonwebtoken::crypto::sign` with `Algorithm::HS256`: the
/// base64url HMAC-SHA256 tag over the message bytes under the secret, a
/// function of secret and message alone. Per its source the HMAC arm always
/// returns `Ok`, so the error arm below is never taken.
#[verifier::external_body]
fn hs256_sign(secret: &[u8], msg: &str) -> (r: String)
    ensures
        r@ == hs256_sig_of(secret@, msg@),
{
    let key = jsonwebtoken::EncodingKey::from_secret(secret);
    match jsonwebtoken::crypto::sign(msg.as_bytes(), &key, jsonwebtoken::Algorithm::HS256) {
        Ok(sig) => sig,
        Err(_) => String::new(),
    }
}

/// The base64url of the fixed JSON header naming HMAC-SHA256.
pub open spec fn header_b64() -> Seq<char> {
    "eyJ0eXAiOiJKV1QiLCJhbGciOiJIUzI1NiJ9"@
}

/// The signed token for a claim set under a secret: the fixed header and
/// the serialized claims, each base64url and dot-separated, followed by the
/// HMAC tag computed over the first two segments.
pub open spec fn token_of(secret: Seq<u8>, c: Claims) -> Seq<char> {
    header_b64() + "."@ + b64url_of(claims_json(c)) + "."@ + hs256_sig_of(
        secret,
        header_b64() + "."@ + b64url_of(claims_json(c)),
    )
}

/// Serializes the claim set and signs it under `secret`.
///
/// Every claim set has a JSON rendering and HMAC signing cannot fail, so
/// the result is always `Ok`.
pub fn process_jwt_sign(claims: Claims, secret: &[u8]) -> (r: Result<String, JwtError>)
    ensures
        r is Ok,
        r matches Ok(t) ==> t@ == token_of(secret@, claims),
{
    let payload = claims_to_json(&claims);
    let payload_b64 = b64url_encode(payload.as_str());
    let mut message = String::from_str("eyJ0eXAiOiJKV1QiLCJhbGciOiJIUzI1NiJ9");
    message.append(".");
    message.append(payload_b64.as_str());
    let sig = hs256_sign(secret, message.as_str());
    let mut token = message;
    token.append(".");
    token.append(sig.as_str());
    proof {
        assert(token@ =~= token_of(secret@, claims));
    }
    Ok(token)
}

#[verifier::external_type_specification]
#[verifier::external_body]
pub struct ExTokenError(jsonwebtoken::errors::Error);

/// What decoding a token under a secret and an audience list yields:
/// `None` where the decode fails, otherwise the token's `exp` and `aud`
/// claims as far as they are present.
pub uninterp spec fn decoded_claims_of(
    token: Seq<char>,
    secret: Seq<u8>,
    auds: Seq<Seq<char>>,
) -> Option<(Option<u64>, Option<Seq<char>>)>;

/// Relies on `jsonwebtoken::decode::<serde_json::Value>` with `HS256`, the
/// given audience list, and the required-claim and expiry checks turned
/// off, and on `serde_json::Value::{get, as_u64, as_str}` to hand the `exp`
/// and `aud` claims out as plain values: the outcome is a function of
/// token, secret and audience list alone.
#[verifier::external_body]
fn decode_claims(token: &str, secret: &[u8], auds: &Vec<String>) -> (r: Result<
    (Option<u64>, Option<String>),
    jsonwebtoken::errors::Error,
>)
    ensures
        r matches Ok(p) ==> decoded_claims_of(token@, secret@, auds.deep_view()) == Some(
            (p.0, p.1.deep_view()),
        ),
        r is Err ==> decoded_claims_of(token@, secret@, auds.deep_view()) is None,
{
    let mut validation = jsonwebtoken::Validation::new(jsonwebtoken::Algorithm::HS256);
    validation.set_audience(auds);
    validation.validate_exp = false;
    validation.required_spec_claims = std::collections::HashSet::new();
    let key = jsonwebtoken::DecodingKey::from_secret(secret);
    let data = jsonwebtoken::decode::<serde_json::Value>(token, &key, &validation)?;
    let exp = data.claims.get("exp").and_then(serde_json::Value::as_u64);
    let aud = data.claims.get("aud").and_then(serde_json::Value::as_str).map(String::from);
    Ok((exp, aud))
}

/// Relies on `jsonwebtoken::errors::Error::kind` to tell the failure
/// variants apart: a failed signature comparison and a rejected audience
/// keep their identity, every other decoding failure is a malformed token.
#[verifier::external_body]
fn classify_decode_error(e: &jsonwebtoken::errors::Error) -> (r: JwtError)
    ensures
        r == JwtError::TokenMalformed || r == JwtError::SignatureInvalid || r
            == JwtError::AudienceRejected,
{
    match e.kind() {
        jsonwebtoken::errors::ErrorKind::InvalidSignature => JwtError::SignatureInvalid,
        jsonwebtoken::errors::ErrorKind::InvalidAudience => JwtError::AudienceRejected,
        _ => JwtError::TokenMalformed,
    }
}

/// The audience allow-list: the three device identities.
pub open spec fn allowed_audiences_spec() -> Seq<Seq<char>> {
    seq!["device1"@, "device2"@, "device3"@]
}

/// The fixed audience allow-list a token's `aud` claim must come from.
pub fn allowed_audiences() -> (r: Vec<String>)
    ensures
        r.deep_view() == allowed_audiences_spec(),
{
    let mut v: Vec<String> = Vec::new();
    v.push(String::from_str("device1"));
    v.push(String::from_str("device2"));
    v.push(String::from_str("device3"));
    proof {
        assert(v.deep_view() =~= allowed_audiences_spec());
    }
    v
}

/// Whether an audience claim passes the allow-list: present and equal to
/// one of the allowed identities.
pub open spec fn audience_ok(aud: Option<Seq<char>>) -> bool {
    match aud {
        None => false,
        Some(a) => a == "device1"@ || a == "device2"@ || a == "device3"@,
    }
}

/// What verification reports once decoding has handed back the `exp` and
/// `aud` claims: a missing `exp` is a malformed token, a missing or
/// unlisted audience is rejected, and otherwise the token is live exactly
/// when its expiration is still in the future.
pub open spec fn decoded_verdict(exp: Option<u64>, aud: Option<Seq<char>>, now: u64) -> Result<
    bool,
    JwtError,
> {
    match exp {
        None => Err(JwtError::TokenMalformed),
        Some(e) => if !audience_ok(aud) {
            Err(JwtError::AudienceRejected)
        } else {
            Ok(e > now)
        },
    }
}

fn string_eq_lit(a: &String, lit: &str) -> (b: bool)
    ensures
        b == (a@ == lit@),
{
    let t = String::from_str(lit);
    a.eq(&t)
}

/// Applies the verification policy to the claims a decode handed back.
pub fn evaluate_decoded(exp: Option<u64>, aud: Option<String>, now: u64) -> (r: Result<
    bool,
    JwtError,
>)
    ensures
        r == decoded_verdict(exp, aud.deep_view(), now),
{
    match exp {
        None => Err(JwtError::TokenMalformed),
        Some(e) => {
            let ok = match &aud {
                None => false,
                Some(a) => string_eq_lit(a, "device1") || string_eq_lit(a, "device2")
                    || string_eq_lit(a, "device3"),
            };
            if !ok {
                Err(JwtError::AudienceRejected)
            } else {
                Ok(e > now)
            }
        },
    }
}

/// Authenticates a token and reports whether it is still live at `now`.
///
/// Where decoding succeeds the result follows `decoded_verdict`; where it
/// fails the error keeps the decoding failure's class and is always one of
/// the three verification failures.
pub fn process_jwt_verify(token: &str, secret: &[u8], now: u64) -> (r: Result<bool, JwtError>)
    ensures
        decoded_claims_of(token@, secret@, allowed_audiences_spec()) matches Some(p) ==> r
            == decoded_verdict(p.0, p.1, now),
        decoded_claims_of(token@, secret@, allowed_audiences_spec()) is None ==> (r matches Err(e)
            && (e == JwtError::TokenMalformed || e == JwtError::SignatureInvalid || e
            == JwtError::AudienceRejected)),
{
    let auds = allowed_audiences();
    match decode_claims(token, secret, &auds) {
        Ok(claims) => evaluate_decoded(claims.0, claims.1, now),
        Err(e) => Err(classify_decode_error(&e)),
    }
}

} // verus!
