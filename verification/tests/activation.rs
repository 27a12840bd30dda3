//! Activation of a system configuration that is on disk.

use std::io::Write;

use stage2::activation::{
    activate_path, activation_run, check_system_config, maybe_run_activation_script,
    record_boot_config, run_activation_script,
};
use stage2::files::create_required_directories;
use stage2::request::{Reply, Request};
use stage2::task::{BootError, Session, Steps};

fn quiet() -> Session {
    Session { log_dest: None, tracing: false, captured: None }
}

/// A directory with an `activate` script that exits 0, and the handle that keeps the script.
fn tempdir_with_activate() -> (tempfile::TempDir, tempfile::NamedTempFile) {
    let dir = tempfile::tempdir().expect("failed to create tempdir");
    let mut script = tempfile::Builder::new()
        .prefix("activate")
        .rand_bytes(0)
        .tempfile_in(dir.path())
        .expect("failed to create activate script");
    script.write_all(b"#!/bin/sh\nexit 0\n").expect("failed to write activate script");
    (dir, script)
}

/// Activates what is in the directory, with a script that exits 0 if there is one.
fn activate(dir: &tempfile::TempDir, strict: bool) -> Result<Vec<Request>, BootError> {
    let config = dir.path().to_str().expect("path is not a text");
    let script = activate_path(config);
    let exists = std::path::Path::new(&script).exists();
    let mut requests: Vec<Request> = Vec::new();
    let mut steps: Steps = maybe_run_activation_script(config, strict, exists);
    if exists && steps.is_ok() {
        steps = run_activation_script(config, exists, &quiet());
    }
    for task in steps? {
        if let Request::Spawn { program, .. } = &task.request {
            let reply = Reply::Exited {
                success: true,
                code: Some(0),
                text: "exit status: 0".to_string(),
            };
            activation_run(program, reply)?;
        }
        requests.push(task.request);
    }
    Ok(requests)
}

#[test]
fn strict_activation_missing_script_errors() {
    let dir = tempfile::tempdir().expect("failed to create tempdir");
    let result = activate(&dir, true);
    assert!(
        result.is_err(),
        "expected error when activate script is missing and strict_activation=true"
    );
    let msg = result.unwrap_err().message;
    assert!(msg.contains("no activate script"), "unexpected error message: {msg}");
}

#[test]
fn non_strict_activation_missing_script_succeeds() {
    let dir = tempfile::tempdir().expect("failed to create tempdir");
    let result = activate(&dir, false);
    assert!(
        result.is_ok(),
        "expected Ok when activate script is missing and strict_activation=false"
    );
    let requests = result.unwrap();
    assert_eq!(requests.len(), 1);
    assert!(matches!(
        &requests[0],
        Request::Warn { text } if text.ends_with(" has no activate script; skipping activation")
    ));
}

#[test]
fn activation_runs_when_script_present() {
    let (dir, script) = tempdir_with_activate();
    let result = activate(&dir, false);
    assert!(result.is_ok(), "expected Ok when activate script exists and exits 0");
    let path = script.path().to_str().expect("path is not a text");
    assert!(matches!(
        result.unwrap().last(),
        Some(Request::Spawn { program, args, stdin: None }) if program == path && args.is_empty()
    ));
}

#[test]
fn strict_activation_runs_when_script_present() {
    let (dir, _script) = tempdir_with_activate();
    let result = activate(&dir, true);
    assert!(
        result.is_ok(),
        "expected Ok when activate script exists and strict_activation=true"
    );
    assert!(matches!(result.unwrap().last(), Some(Request::Spawn { .. })));
}

#[test]
fn the_script_is_an_entry_of_the_configuration() {
    for config in ["/nix/store/x-nixos", "/", "/a/", "", "relative", "/\u{e9}t\u{e9}"] {
        let joined = std::path::Path::new(config).join("activate");
        assert_eq!(activate_path(config), joined.to_str().unwrap(), "{config:?}");
    }
}

#[test]
fn a_configuration_has_to_exist() {
    assert!(check_system_config("/sys/config", true).unwrap().is_empty());
    let error = check_system_config("/sys/config", false).unwrap_err();
    assert_eq!(error.message, "System configuration path does not exist: /sys/config");
    assert_eq!(error.cause, None);
}

#[test]
fn a_script_that_is_killed_is_warned_of() {
    let killed = Reply::Exited { success: false, code: None, text: "signal: 15".to_string() };
    let tasks = activation_run("/sys/config/activate", killed).unwrap();
    assert_eq!(tasks.len(), 1);
    assert!(matches!(
        &tasks[0].request,
        Request::Warn { text } if text == "Activation script exited with code None (continuing)"
    ));
}

#[test]
fn the_record_points_to_the_configuration() {
    let session = Session {
        log_dest: Some("/run/log/x".to_string()),
        tracing: false,
        captured: None,
    };
    let tasks = record_boot_config("/sys/config", false, &session);
    assert_eq!(tasks.len(), 2);
    assert_eq!(
        format!("{:?}", tasks[0].request),
        "Log { dest: Some(\"/run/log/x\"), text: \"stage-2-init: recording boot configuration: \
         /run/booted-system -> /sys/config\" }"
    );
    assert_eq!(
        format!("{:?}", tasks[1].request),
        "Symlink { target: \"/sys/config\", link: \"/run/booted-system\", atomic: false }"
    );
    let tasks = record_boot_config("/sys/config", true, &session);
    assert_eq!(
        format!("{:?}", tasks[1].request),
        "Symlink { target: \"/sys/config\", link: \"/run/booted-system\", atomic: true }"
    );
}

#[test]
fn all_required_directories_are_created() {
    let made: Vec<String> = create_required_directories(&quiet())
        .into_iter()
        .filter_map(|task| match task.request {
            Request::CreateDirectory { path } => Some(path),
            _ => None,
        })
        .collect();
    assert_eq!(made, ["/etc", "/etc/nixos", "/tmp", "/run/keys"]);
}
