use rjwt::verify_file;
use rjwt::verify_path;
use rjwt::JwtSubCommand;
use rjwt::JwtVerifyOpts;
use rjwt::Opts;
use rjwt::SubCommand;

#[test]
fn commands_carry_their_inputs() {
    let opts = Opts {
        cmd: SubCommand::Jwt(JwtSubCommand::Verify(JwtVerifyOpts {
            token: "abc".to_string(),
        })),
    };
    match opts.cmd {
        SubCommand::Jwt(JwtSubCommand::Verify(v)) => assert_eq!(v.token, "abc"),
        _ => panic!("wrong command"),
    }
}

#[test]
fn test_verify_input_file() {
    assert_eq!(verify_file("-"), Ok("-".into()));
    assert_eq!(verify_file("*"), Err("File does not exist"));
    // Whether the manifest is visible depends on the process's working
    // directory; the source tree is always beside the tests.
    let manifest = verify_file("Cargo.toml");
    assert!(manifest == Ok("Cargo.toml".into()) || manifest == Err("File does not exist"));
    assert_eq!(verify_file("src/lib.rs"), Ok("src/lib.rs".into()));
    assert_eq!(verify_file("not-exist"), Err("File does not exist"));
}

#[test]
fn test_verify_path() {
    assert!(verify_path(".").is_ok());
    assert_eq!(
        verify_path("Cargo.toml").err(),
        Some("Path does not exist or is not a directory")
    );
    assert_eq!(
        verify_path("not-exist").err(),
        Some("Path does not exist or is not a directory")
    );
}
