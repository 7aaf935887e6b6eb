use inc::executor::{
    build_env_updates, build_path, command_result, compose_command_line, exit_code_of_status,
    output_result, CliError, CliParseError, RawOutcome,
};
use inc::runner::{outcome_of_codes, resolve_command, CommandRunner, RunOutcome};
use inc::signal::{GuardAction, GuardPhase, SignalGuard};
use inc::config::ConfigContainer;

#[test]
fn cli_error_new_keeps_fields() {
    let e = CliError::new(10, "broken".to_string());
    assert_eq!(e.code, 10);
    assert_eq!(e.message, "broken");
}

#[test]
fn parse_error_becomes_cli_error() {
    let p = CliParseError { fatal: true, message: "bad flag".to_string() };
    let e = CliError::from(p);
    assert_eq!(e.code, 101);
    assert_eq!(e.message, "bad flag");
}

#[test]
fn command_line_is_space_joined() {
    let args = vec!["clone".to_string(), "repo".to_string()];
    assert_eq!(compose_command_line("git", &args), "git clone repo");
    assert_eq!(compose_command_line("ls", &vec![]), "ls");
}

#[test]
fn own_directory_is_prepended_to_path() {
    let path = "/usr/bin:/bin".to_string();
    let exe = "/opt/inc".to_string();
    assert_eq!(build_path(Some(&path), Some(&exe)), "/opt/inc:/usr/bin:/bin");
    assert_eq!(build_path(Some(&path), None), "/usr/bin:/bin");
    assert_eq!(build_path(None, Some(&exe)), "/opt/inc:");
}

fn env_value(env: &Vec<(String, String)>, key: &str) -> Option<String> {
    for (k, v) in env {
        if k == key {
            return Some(v.clone());
        }
    }
    None
}

#[test]
fn child_env_composition() {
    let inherited = vec![
        ("PATH".to_string(), "/bin".to_string()),
        ("HOME".to_string(), "/home/me".to_string()),
        ("LANG".to_string(), "C".to_string()),
    ];
    let exe = "/opt/inc".to_string();
    let extra = vec![("LANG".to_string(), "en_US".to_string())];
    let env = build_env_updates(&inherited, Some(&exe), &extra);
    assert_eq!(env_value(&env, "PATH"), Some("/opt/inc:/bin".to_string()));
    assert_eq!(env_value(&env, "HOME"), Some("/home/me".to_string()));
    assert_eq!(env_value(&env, "LANG"), Some("en_US".to_string()));
    assert_eq!(env.len(), 3);
}

#[test]
fn exit_codes_from_status() {
    assert_eq!(exit_code_of_status(Some(7)), 7);
    assert_eq!(exit_code_of_status(None), 0);
}

#[test]
fn spawn_failure_is_code_ten() {
    let (out, err, res) = command_result(RawOutcome::SpawnFailed("no shell".to_string()));
    assert_eq!(out, "");
    assert_eq!(err, "");
    match res {
        Err(e) => {
            assert_eq!(e.code, 10);
            assert_eq!(e.message, "Unable to execute command: no shell");
        }
        Ok(_) => panic!("a spawn failure is never success"),
    }
}

#[test]
fn wait_failure_is_code_ten() {
    let (_, _, res) = command_result(RawOutcome::WaitFailed("interrupted".to_string()));
    match res {
        Err(e) => {
            assert_eq!(e.code, 10);
            assert_eq!(e.message, "Unable to wait for the command: interrupted");
        }
        Ok(_) => panic!("a wait failure is never success"),
    }
}

#[test]
fn exited_child_hands_back_streams() {
    let (out, err, res) = command_result(RawOutcome::Exited {
        stdout: "hello".to_string(),
        stderr: "warn".to_string(),
        code: Some(3),
    });
    assert_eq!(out, "hello");
    assert_eq!(err, "warn");
    assert_eq!(res.ok(), Some(3));
}

#[test]
fn captured_output_is_trimmed() {
    let r = output_result(RawOutcome::Exited {
        stdout: "one line\n".to_string(),
        stderr: String::new(),
        code: Some(0),
    });
    assert_eq!(r.unwrap(), "one line");
}

#[test]
fn captured_failure_carries_buffers() {
    let r = output_result(RawOutcome::Exited {
        stdout: "out text".to_string(),
        stderr: "err text".to_string(),
        code: Some(9),
    });
    match r {
        Err(e) => {
            assert_eq!(e.code, 9);
            assert_eq!(e.message, "command failed\nstdout:\nout text\nstderr:\nerr text");
        }
        Ok(_) => panic!("a non-zero exit is never success in captured mode"),
    }
}

#[test]
fn ignore_failures_runs_second_step() {
    let steps = vec!["false".to_string(), "true".to_string()];
    let mut runner = CommandRunner::start(steps, true);
    assert_eq!(runner.current_step().unwrap().as_str(), "false");
    runner.record_result(1);
    assert_eq!(runner.current_step().unwrap().as_str(), "true");
    runner.record_result(0);
    assert!(runner.current_step().is_none());
    assert_eq!(runner.outcome(), Some(RunOutcome::Completed(0)));
}

#[test]
fn first_failure_aborts_without_ignore() {
    let steps = vec!["false".to_string(), "true".to_string()];
    let mut runner = CommandRunner::start(steps, false);
    runner.record_result(4);
    assert!(runner.current_step().is_none());
    assert_eq!(runner.outcome(), Some(RunOutcome::Failed(4)));
    let codes = vec![4, 0];
    assert_eq!(outcome_of_codes(vec!["a".to_string(), "b".to_string()], false, &codes),
        RunOutcome::Failed(4));
    assert_eq!(outcome_of_codes(vec!["a".to_string(), "b".to_string()], true, &codes),
        RunOutcome::Completed(0));
}

#[test]
fn unknown_command_is_distinct_failure() {
    let container = ConfigContainer::new(&vec![], &None);
    let table = container.get_exec_configs();
    match resolve_command(&table, "missing") {
        Err(e) => {
            assert_eq!(e.code, 127);
            assert_eq!(e.message, "No such command: missing");
        }
        Ok(_) => panic!("an empty table resolves nothing"),
    }
}

#[test]
fn escalation_window() {
    let mut guard = SignalGuard::arm();
    assert!(matches!(guard.phase, GuardPhase::Armed));
    assert_eq!(guard.on_interrupt(), GuardAction::SendTerm);
    let mut kill_seen = false;
    for poll in 1..=50u32 {
        let action = guard.on_poll(true);
        if poll == 50 {
            assert_eq!(action, GuardAction::SendKill);
            kill_seen = true;
        } else if poll % 10 == 0 {
            assert_eq!(action, GuardAction::Notice((50 - poll) / 10));
        } else {
            assert_eq!(action, GuardAction::KeepWaiting);
        }
    }
    assert!(kill_seen);
    assert!(matches!(guard.phase, GuardPhase::Escalated));
    assert_eq!(guard.elapsed_ms, 5100);
    assert!(5000 <= guard.elapsed_ms && guard.elapsed_ms <= 5200);
    guard.disarm();
    assert!(matches!(guard.phase, GuardPhase::Disarmed));
}

#[test]
fn dead_child_disarms_without_kill() {
    let mut guard = SignalGuard::arm();
    assert_eq!(guard.on_interrupt(), GuardAction::SendTerm);
    assert_eq!(guard.on_poll(true), GuardAction::KeepWaiting);
    assert_eq!(guard.on_poll(false), GuardAction::Disarm);
    assert!(matches!(guard.phase, GuardPhase::Disarmed));
}
