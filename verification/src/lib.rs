//! Relative-duration token issuance and verification.
//!
//! A compact duration language (`1h30m`, `2w`) is resolved to seconds, turned
//! into absolute timestamp claims, and signed into a three-segment HMAC token.
//! Verification checks the signature, the audience allow-list, and reports
//! whether the token is still live.
use vstd::prelude::*;

mod claims;
mod cli;
mod duration;
mod errors;
mod render;
mod token;

pub use claims::Claims;
pub use claims::calculate_time;
pub use claims::lemma_dec_roundtrip;
pub use claims::parse_seconds;
pub use cli::JwtSignOpts;
pub use cli::JwtSubCommand;
pub use cli::JwtVerifyOpts;
pub use cli::Opts;
pub use cli::SubCommand;
pub use cli::verify_file;
pub use cli::verify_path;
pub use duration::lemma_duration_fragments;
pub use duration::parse_duration;
pub use duration::parser_date;
pub use errors::JwtError;
pub use token::allowed_audiences;
pub use token::claims_to_json;
pub use token::evaluate_decoded;
pub use token::process_jwt_sign;
pub use token::process_jwt_verify;

verus! {

} // verus!
