use rjwt::allowed_audiences;
use rjwt::calculate_time;
use rjwt::claims_to_json;
use rjwt::evaluate_decoded;
use rjwt::parse_duration;
use rjwt::parse_seconds;
use rjwt::process_jwt_sign;
use rjwt::process_jwt_verify;
use rjwt::Claims;
use rjwt::JwtError;
use rjwt::JwtSignOpts;
use std::time::SystemTime;
use std::time::UNIX_EPOCH;

const SECRET: &[u8] = b"secret";

fn now() -> u64 {
    SystemTime::now()
        .duration_since(UNIX_EPOCH)
        .unwrap()
        .as_secs()
}

fn opts(exp: &str, aud: Option<&str>) -> JwtSignOpts {
    JwtSignOpts {
        exp: exp.to_string(),
        sub: Some("alice".to_string()),
        aud: aud.map(|s| s.to_string()),
        iss: None,
        iat: None,
        nbf: None,
    }
}

#[test]
fn sign_then_verify_future_exp_is_live() {
    let t = now();
    let claims = opts("3600", Some("device1")).build_claims(t).unwrap();
    let token = process_jwt_sign(claims, SECRET).unwrap();
    assert_eq!(process_jwt_verify(&token, SECRET, now()), Ok(true));
}

#[test]
fn sign_then_verify_zero_offset_is_expired() {
    let t = now();
    let offset = parse_duration("0s").unwrap();
    let claims = opts(&offset.to_string(), Some("device2"))
        .build_claims(t)
        .unwrap();
    let token = process_jwt_sign(claims, SECRET).unwrap();
    assert_eq!(process_jwt_verify(&token, SECRET, t), Ok(false));
}

#[test]
fn verify_rejects_unlisted_audience() {
    let t = now();
    let claims = opts("3600", Some("device9")).build_claims(t).unwrap();
    let token = process_jwt_sign(claims, SECRET).unwrap();
    assert_eq!(
        process_jwt_verify(&token, SECRET, t),
        Err(JwtError::AudienceRejected)
    );
}

#[test]
fn verify_rejects_missing_audience() {
    let t = now();
    let claims = opts("3600", None).build_claims(t).unwrap();
    let token = process_jwt_sign(claims, SECRET).unwrap();
    assert_eq!(
        process_jwt_verify(&token, SECRET, t),
        Err(JwtError::AudienceRejected)
    );
}

#[test]
fn verify_rejects_non_token_text() {
    assert_eq!(
        process_jwt_verify("not.a.token", SECRET, now()),
        Err(JwtError::TokenMalformed)
    );
    assert_eq!(
        process_jwt_verify("", SECRET, now()),
        Err(JwtError::TokenMalformed)
    );
}

#[test]
fn verify_rejects_other_secret() {
    let t = now();
    let claims = opts("3600", Some("device1")).build_claims(t).unwrap();
    let token = process_jwt_sign(claims, b"another-secret").unwrap();
    assert_eq!(
        process_jwt_verify(&token, SECRET, t),
        Err(JwtError::SignatureInvalid)
    );
}

#[test]
fn signed_token_decodes_with_jsonwebtoken() {
    let t = now();
    let source = JwtSignOpts {
        exp: "3600".to_string(),
        sub: Some("alice".to_string()),
        aud: Some("device3".to_string()),
        iss: Some("acme".to_string()),
        iat: Some("0".to_string()),
        nbf: None,
    };
    let claims = source.build_claims(t).unwrap();
    let token = process_jwt_sign(claims, SECRET).unwrap();
    let mut validation = jsonwebtoken::Validation::new(jsonwebtoken::Algorithm::HS256);
    validation.set_audience(&["device3"]);
    let data = jsonwebtoken::decode::<serde_json::Value>(
        &token,
        &jsonwebtoken::DecodingKey::from_secret(SECRET),
        &validation,
    )
    .unwrap();
    assert_eq!(
        data.claims.get("exp").and_then(|v| v.as_u64()),
        Some(t + 3600)
    );
    assert_eq!(data.claims.get("sub").and_then(|v| v.as_str()), Some("alice"));
    assert_eq!(data.claims.get("iss").and_then(|v| v.as_str()), Some("acme"));
    assert_eq!(data.claims.get("iat").and_then(|v| v.as_u64()), Some(t));
    assert_eq!(data.claims.get("nbf"), Some(&serde_json::Value::Null));
}

#[test]
fn claims_json_shape_and_escaping() {
    let claims = Claims {
        exp: 12,
        sub: Some("a\"b\\c\nd".to_string()),
        aud: None,
        iss: None,
        iat: Some(5),
        nbf: None,
    };
    assert_eq!(
        claims_to_json(&claims),
        "{\"exp\":12,\"sub\":\"a\\\"b\\\\c\\u000ad\",\"aud\":null,\"iss\":null,\"iat\":5,\"nbf\":null}"
    );
}

#[test]
fn build_claims_rejects_bad_offsets() {
    let t = now();
    assert_eq!(
        opts("abc", None).build_claims(t).err(),
        Some(JwtError::DurationFormat)
    );
    assert_eq!(
        opts("", None).build_claims(t).err(),
        Some(JwtError::DurationFormat)
    );
    assert_eq!(
        opts("18446744073709551615", None).build_claims(t).err(),
        Some(JwtError::TimestampRange)
    );
}

#[test]
fn build_claims_fills_every_field() {
    let source = JwtSignOpts {
        exp: "60".to_string(),
        sub: Some("s".to_string()),
        aud: Some("a".to_string()),
        iss: Some("i".to_string()),
        iat: Some("0".to_string()),
        nbf: Some("30".to_string()),
    };
    let claims = source.build_claims(100).unwrap();
    assert_eq!(claims.exp, 160);
    assert_eq!(claims.sub.as_deref(), Some("s"));
    assert_eq!(claims.aud.as_deref(), Some("a"));
    assert_eq!(claims.iss.as_deref(), Some("i"));
    assert_eq!(claims.iat, Some(100));
    assert_eq!(claims.nbf, Some(130));
}

#[test]
fn calculate_time_adds_and_checks_range() {
    assert_eq!(calculate_time(100, 60), Ok(160));
    assert_eq!(calculate_time(u64::MAX, 1), Err(JwtError::TimestampRange));
}

#[test]
fn parse_seconds_reads_decimal_digits_only() {
    assert_eq!(parse_seconds("3600"), Some(3600));
    assert_eq!(parse_seconds(""), None);
    assert_eq!(parse_seconds("12a"), None);
    assert_eq!(parse_seconds("18446744073709551616"), None);
}

#[test]
fn evaluate_decoded_applies_the_policy() {
    assert_eq!(evaluate_decoded(None, Some("device1".to_string()), 0), Err(JwtError::TokenMalformed));
    assert_eq!(evaluate_decoded(Some(10), None, 0), Err(JwtError::AudienceRejected));
    assert_eq!(
        evaluate_decoded(Some(10), Some("device9".to_string()), 0),
        Err(JwtError::AudienceRejected)
    );
    assert_eq!(evaluate_decoded(Some(10), Some("device1".to_string()), 5), Ok(true));
    assert_eq!(evaluate_decoded(Some(10), Some("device1".to_string()), 10), Ok(false));
}

#[test]
fn allow_list_holds_the_three_devices() {
    assert_eq!(
        allowed_audiences(),
        vec![
            "device1".to_string(),
            "device2".to_string(),
            "device3".to_string()
        ]
    );
}

#[test]
fn error_messages_name_the_failure() {
    assert_eq!(JwtError::TokenMalformed.message(), "token is malformed");
    assert_eq!(
        JwtError::AudienceRejected.message(),
        "token audience is not allowed"
    );
}
