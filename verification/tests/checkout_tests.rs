use inc::checkout::{checkout_exit_code, effective_service, parse_checkout_args};
use inc::executor::CliError;

fn args(list: &[&str]) -> Vec<String> {
    list.iter().map(|a| a.to_string()).collect()
}

#[test]
fn checkout_no_args() {
    match parse_checkout_args(&args(&[])) {
        Err(e) => {
            assert!(e.fatal);
            assert_eq!(
                e.message,
                "No repository specified. Review `inc checkout --help` for options."
            );
        }
        Ok(_) => panic!("a checkout without a repository must fail fast"),
    }
}

#[test]
fn service_flag_and_positionals() {
    let parsed = parse_checkout_args(&args(&[
        "-vvv",
        "--service=foobar",
        "something-random",
        "/tmp/dest",
    ]))
    .expect("arguments should parse");
    assert_eq!(parsed.service, Some("foobar".to_string()));
    assert_eq!(parsed.repository, Some("something-random".to_string()));
    assert_eq!(parsed.directory, Some("/tmp/dest".to_string()));
    assert!(!parsed.list);
}

#[test]
fn separate_service_value() {
    let parsed = parse_checkout_args(&args(&["-s", "foobar", "repo"])).expect("should parse");
    assert_eq!(parsed.service, Some("foobar".to_string()));
    assert_eq!(parsed.repository, Some("repo".to_string()));
}

#[test]
fn missing_service_value_fails() {
    match parse_checkout_args(&args(&["repo", "-s"])) {
        Err(e) => {
            assert!(e.fatal);
            assert_eq!(e.message, "The --service option is missing its value");
        }
        Ok(_) => panic!("a dangling service flag must fail"),
    }
}

#[test]
fn list_needs_no_repository() {
    let parsed = parse_checkout_args(&args(&["--list"])).expect("listing should parse");
    assert!(parsed.list);
    assert_eq!(parsed.repository, None);
}

#[test]
fn service_precedence() {
    let requested = Some("cli".to_string());
    let home = Some("home".to_string());
    assert_eq!(effective_service(&requested, &home), "cli");
    assert_eq!(effective_service(&None, &home), "home");
    assert_eq!(effective_service(&None, &None), "github");
}

#[test]
fn checkout_codes() {
    assert_eq!(checkout_exit_code(&Ok(0)), 0);
    assert_eq!(checkout_exit_code(&Ok(5)), 5);
    assert_eq!(checkout_exit_code(&Err(CliError::new(2, "x".to_string()))), 1);
}
