//! Command inputs, and the checks a command runs on its file arguments.
use vstd::prelude::*;
use crate::claims::Claims;
use crate::claims::calculate_time;
use crate::claims::dec_value;
use crate::claims::parse_seconds;
use crate::errors::JwtError;

verus! {

/// The sign command's inputs: an expiration offset in decimal seconds
/// (required), optional identity fields, and optional issued-at and
/// not-before offsets, also in decimal seconds.
#[derive(Debug)]
pub struct JwtSignOpts {
    pub exp: String,
    pub sub: Option<String>,
    pub aud: Option<String>,
    pub iss: Option<String>,
    pub iat: Option<String>,
    pub nbf: Option<String>,
}

/// The verify command's input: the token to check.
#[derive(Debug)]
pub struct JwtVerifyOpts {
    pub token: String,
}

/// The token subcommands.
#[derive(Debug)]
pub enum JwtSubCommand {
    Sign(JwtSignOpts),
    Verify(JwtVerifyOpts),
}

/// The commands the library models: the token commands. The front end adds
/// further commands (CSV, passwords, encodings, file serving); those are
/// I/O glue around outside crates and stay outside the library.
#[derive(Debug)]
pub enum SubCommand {
    Jwt(JwtSubCommand),
}

/// A parsed invocation: one command.
#[derive(Debug)]
pub struct Opts {
    pub cmd: SubCommand,
}

/// The absolute timestamp a decimal offset yields at time `now`.
pub open spec fn offset_time(now: u64, off: Seq<char>) -> Result<usize, JwtError> {
    match dec_value(off) {
        None => Err(JwtError::DurationFormat),
        Some(d) => if now + d <= usize::MAX {
            Ok((now + d) as usize)
        } else {
            Err(JwtError::TimestampRange)
        },
    }
}

/// `offset_time` lifted to an optional offset.
pub open spec fn opt_offset_time(now: u64, off: Option<String>) -> Result<
    Option<usize>,
    JwtError,
> {
    match off {
        None => Ok(None),
        Some(s) => match offset_time(now, s@) {
            Ok(v) => Ok(Some(v)),
            Err(e) => Err(e),
        },
    }
}

/// The claim set the sign options yield at time `now`: each present temporal
/// field is `now` plus its decimal offset, identity fields pass through, and
/// the first offset that is malformed or out of range decides the error,
/// in the order `exp`, `iat`, `nbf`.
pub open spec fn claims_spec(opts: JwtSignOpts, now: u64) -> Result<Claims, JwtError> {
    match offset_time(now, opts.exp@) {
        Err(e) => Err(e),
        Ok(exp) => match opt_offset_time(now, opts.iat) {
            Err(e) => Err(e),
            Ok(iat) => match opt_offset_time(now, opts.nbf) {
                Err(e) => Err(e),
                Ok(nbf) => Ok(
                    Claims { exp, sub: opts.sub, aud: opts.aud, iss: opts.iss, iat, nbf },
                ),
            },
        },
    }
}

impl JwtSignOpts {
    /// Builds the claim set for signing at time `now`.
    pub fn build_claims(self, now: u64) -> (r: Result<Claims, JwtError>)
        ensures
            r == claims_spec(self, now),
    {
        let JwtSignOpts { exp, sub, aud, iss, iat, nbf } = self;
        let exp_time = match parse_seconds(exp.as_str()) {
            None => {
                return Err(JwtError::DurationFormat);
            },
            Some(d) => match calculate_time(now, d) {
                Err(e) => {
                    return Err(e);
                },
                Ok(t) => t,
            },
        };
        let iat_time = match iat {
            None => None,
            Some(s) => match parse_seconds(s.as_str()) {
                None => {
                    return Err(JwtError::DurationFormat);
                },
                Some(d) => match calculate_time(now, d) {
                    Err(e) => {
                        return Err(e);
                    },
                    Ok(t) => Some(t),
                },
            },
        };
        let nbf_time = match nbf {
            None => None,
            Some(s) => match parse_seconds(s.as_str()) {
                None => {
                    return Err(JwtError::DurationFormat);
                },
                Some(d) => match calculate_time(now, d) {
                    Err(e) => {
                        return Err(e);
                    },
                    Ok(t) => Some(t),
                },
            },
        };
        Ok(Claims { exp: exp_time, sub, aud, iss, iat: iat_time, nbf: nbf_time })
    }
}

/// Relies on `std::path::Path::exists`: whether the name refers to anything
/// on disk at the time of the call; nothing is assumed of the result.
#[verifier::external_body]
fn path_exists(p: &str) -> bool {
    std::path::Path::new(p).exists()
}

/// Relies on `std::path::Path::is_dir`: whether the name refers to a
/// directory on disk at the time of the call; nothing is assumed of the
/// result.
#[verifier::external_body]
fn path_is_dir(p: &str) -> bool {
    std::path::Path::new(p).is_dir()
}

#[verifier::external_type_specification]
#[verifier::external_body]
pub struct ExPathBuf(std::path::PathBuf);

/// Relies on `PathBuf::from` on a string slice: wraps the name as an owned
/// path value.
#[verifier::external_body]
fn pathbuf_from(p: &str) -> std::path::PathBuf {
    std::path::PathBuf::from(p)
}

fn is_dash(s: &str) -> (b: bool)
    ensures
        b == (s@ == "-"@),
{
    proof {
        reveal_strlit("-");
    }
    let n = s.unicode_len();
    if n == 1 {
        let c = s.get_char(0);
        if c == '-' {
            proof {
                assert(s@ =~= "-"@);
            }
            true
        } else {
            false
        }
    } else {
        false
    }
}

/// Accepts `-`, standing for standard input, or the name of an existing
/// file; the existence check reads the file system.
pub fn verify_file(filename: &str) -> (r: Result<String, &'static str>)
    ensures
        filename@ == "-"@ ==> r is Ok,
        r matches Ok(f) ==> f@ == filename@,
        r matches Err(e) ==> e@ == "File does not exist"@ && filename@ != "-"@,
{
    if is_dash(filename) || path_exists(filename) {
        Ok(filename.to_owned())
    } else {
        Err("File does not exist")
    }
}

/// Accepts the name of an existing directory; the check reads the file
/// system.
pub fn verify_path(path: &str) -> (r: Result<std::path::PathBuf, &'static str>)
    ensures
        r matches Err(e) ==> e@ == "Path does not exist or is not a directory"@,
{
    if path_exists(path) && path_is_dir(path) {
        Ok(pathbuf_from(path))
    } else {
        Err("Path does not exist or is not a directory")
    }
}

} // verus!
