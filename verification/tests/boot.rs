//! Whole boots and handoffs, driven by a made-up system.

use std::collections::BTreeMap;

use nix::mount::MsFlags;
use stage2::machine::{exec_systemd, run, Machine};
use stage2::request::{Reply, Request};
use stage2::store::{continue_without_store, find_wanted, store_bound, store_remounted};
use stage2::task::{Args, Stage};

/// One line for a request.
fn line(request: &Request) -> String {
    match request {
        Request::Print { text } => format!("print {text}"),
        Request::PrintError { text } => format!("stderr {text}"),
        Request::Log { dest, text } => match dest {
            Some(path) => format!("log [{path}] {text}"),
            None => format!("log {text}"),
        },
        Request::Info { text } => format!("info {text}"),
        Request::Warn { text } => format!("warn {text}"),
        Request::EnableTracing => "trace on".to_string(),
        Request::ReadEnv { name } => format!("env {name}?"),
        Request::HasEnv { name } => format!("has {name}?"),
        Request::SetEnv { name, value } => format!("set {name}={value}"),
        Request::RemoveEnv { name } => format!("unset {name}"),
        Request::ReadFile { path } => format!("read {path}"),
        Request::PathExists { path } => format!("exists {path}?"),
        Request::CanAppend { path } => format!("append {path}?"),
        Request::CreateDirectory { path } => format!("mkdir {path}"),
        Request::Chown { path, uid, gid } => format!("chown {uid}:{gid} {path}"),
        Request::Chmod { path, mode } => format!("chmod {mode:o} {path}"),
        Request::Symlink { target, link, atomic } => {
            let how = if *atomic { "atomic link" } else { "link" };
            format!("{how} {link} -> {target}")
        }
        Request::IsMounted { path } => format!("mounted {path}?"),
        Request::MountOptions { path } => format!("options {path}?"),
        Request::Mount { source, target, fstype, flags, data } => {
            format!("mount {source:?} {target} {fstype:?} {:#x} {data:?}", flags.bits())
        }
        Request::LookupGroup { name } => format!("group {name}?"),
        Request::Spawn { program, args, stdin } => format!("spawn {program} {args:?} {stdin:?}"),
        Request::DuplicateStdio => "dup".to_string(),
        Request::StartCapture { command } => format!("capture {command}"),
        Request::RedirectStdio => "redirect".to_string(),
        Request::RestoreStdio { stdout, stderr } => format!("restore {stdout} {stderr}"),
        Request::ProcessId => "pid?".to_string(),
        Request::Exec { program, args } => format!("exec {program} {args:?}"),
        Request::Exit { code } => format!("exit {code}"),
    }
}

/// A system that answers every request.
struct World {
    present: Vec<&'static str>,
    mounted: Vec<&'static str>,
    systemd: Option<&'static str>,
    container: bool,
    cmdline: Option<&'static str>,
    root_options: Option<Vec<&'static str>>,
    store_options: Option<Vec<&'static str>>,
    group: Option<u32>,
    kernel_log: bool,
    duplicates: (i32, i32),
    pid: i32,
    /// The replies to requests whose line starts like this.
    special: Vec<(&'static str, Reply)>,
}

impl World {
    /// A bare system without a first stage: nothing is mounted, and everything works.
    fn bare() -> World {
        World {
            present: vec!["/nix/store", "/sys/config", "/sys/config/activate"],
            mounted: vec![],
            systemd: None,
            container: false,
            cmdline: None,
            root_options: None,
            store_options: None,
            group: Some(30001),
            kernel_log: true,
            duplicates: (10, 11),
            pid: 1,
            special: vec![],
        }
    }

    fn answer(&mut self, request: &Request) -> Reply {
        let text = line(request);
        if let Some(i) = self.special.iter().position(|(start, _)| text.starts_with(start)) {
            return self.special.remove(i).1;
        }
        match request {
            Request::ReadEnv { .. } => Reply::Text { content: self.systemd.map(str::to_string) },
            Request::HasEnv { .. } => Reply::Flag { value: self.container },
            Request::ReadFile { .. } => Reply::Text { content: self.cmdline.map(str::to_string) },
            Request::PathExists { path } => Reply::Flag {
                value: self.present.contains(&path.as_str()),
            },
            Request::CanAppend { .. } => Reply::Flag { value: self.kernel_log },
            Request::IsMounted { path } => Reply::Flag {
                value: self.mounted.contains(&path.as_str()),
            },
            Request::MountOptions { path } => {
                let options = if path == "/" { &self.root_options } else { &self.store_options };
                Reply::Options {
                    list: options.as_ref().map(|l| l.iter().map(|o| o.to_string()).collect()),
                }
            }
            Request::LookupGroup { .. } => Reply::Group { gid: self.group },
            Request::Spawn { .. } => Reply::Exited {
                success: true,
                code: Some(0),
                text: "exit status: 0".to_string(),
            },
            Request::DuplicateStdio => Reply::Duplicates {
                stdout: self.duplicates.0,
                stderr: self.duplicates.1,
                reason: "too many open files".to_string(),
            },
            Request::ProcessId => Reply::Pid { pid: self.pid },
            _ => Reply::Done,
        }
    }

    /// Runs a machine to its end.
    fn drive(mut self, machine: &mut Machine) -> Vec<String> {
        let mut lines = Vec::new();
        while let Some(request) = machine.request() {
            lines.push(line(request));
            let reply = self.answer(request);
            machine.resume(reply);
            assert!(lines.len() <= 81, "more requests than a boot can make");
        }
        lines
    }

    fn boots(self, args: Args) -> Vec<String> {
        let mut machine = run(args, false);
        let lines = self.drive(&mut machine);
        assert!(machine.failure().is_none(), "unexpected failure");
        lines
    }

    /// Runs a boot that fails: its last line, its stage's context, its message, its cause.
    fn fails(self, args: Args) -> (Stage, Option<&'static str>, String, Option<String>) {
        let mut machine = run(args, false);
        self.drive(&mut machine);
        let failure = machine.failure().expect("the boot should have failed");
        (
            failure.stage,
            failure.stage.context(),
            failure.error.message.clone(),
            failure.error.cause.clone(),
        )
    }

    fn hands_off(self) -> Vec<String> {
        let args = vec!["--log-level=debug".to_string(), "a b".to_string()];
        let mut machine = exec_systemd("/run/systemd", args);
        let lines = self.drive(&mut machine);
        assert!(machine.failure().is_none());
        lines
    }
}

fn broken() -> Reply {
    Reply::Failed { reason: "broken".to_string() }
}

fn exited(code: i32) -> Reply {
    Reply::Exited { success: code == 0, code: Some(code), text: format!("exit status: {code}") }
}

fn killed() -> Reply {
    Reply::Exited { success: false, code: None, text: "signal: 9 (SIGKILL)".to_string() }
}

fn plain_args() -> Args {
    Args {
        greeting: "<<< NixOS Stage 2 >>>".to_string(),
        path: "/run/current-system/sw/bin".to_string(),
        system_config: "/sys/config".to_string(),
        early_mount_script: None,
        nix_store_mount_opts: "ro,nosuid,nodev".to_string(),
        use_host_resolv_conf: false,
        strict_activation: false,
        atomic_symlinks: false,
        post_boot_commands: None,
        post_boot_shell: "/bin/bash".to_string(),
    }
}

const LOG: &str = "log [/run/log/stage-2-init.log] stage-2-init:";

fn logged(text: &str) -> String {
    format!("{LOG} {text}")
}

fn position(lines: &[String], wanted: &str) -> usize {
    lines.iter().position(|l| l == wanted).unwrap_or_else(|| panic!("no line {wanted:?} in {lines:#?}"))
}

fn starts(lines: &[String], start: &str) -> bool {
    lines.iter().any(|l| l.starts_with(start))
}

#[test]
fn a_bare_boot_from_start_to_end() {
    let lines = World::bare().boots(plain_args());
    let expected = vec![
        "mkdir /run/log".to_string(),
        "print <<< NixOS Stage 2 >>>".to_string(),
        logged("<<< NixOS Stage 2 >>>"),
        "info Setting PATH to: /run/current-system/sw/bin".to_string(),
        "set PATH=/run/current-system/sw/bin".to_string(),
        "env IN_NIXOS_SYSTEMD_STAGE1?".to_string(),
        "read /proc/cmdline".to_string(),
        "has container?".to_string(),
        "options /?".to_string(),
        logged("remounting / read-write"),
        "mount None / None 0x20 None".to_string(),
        "exists /proc/1?".to_string(),
        logged(
            "warning: no --early-mount-script; only mounting the hardcoded /proc, /dev, /sys, \
             /dev/pts, /dev/shm set. Any additional boot.specialFileSystems entries will be \
             absent.",
        ),
        logged("mounting special filesystems"),
        "mounted /proc?".to_string(),
        "mkdir /proc".to_string(),
        "mount Some(\"proc\") /proc Some(\"proc\") 0xe None".to_string(),
        "mounted /dev?".to_string(),
        "mkdir /dev".to_string(),
        "mount Some(\"devtmpfs\") /dev Some(\"devtmpfs\") 0xa None".to_string(),
        "mounted /sys?".to_string(),
        "mkdir /sys".to_string(),
        "mount Some(\"sysfs\") /sys Some(\"sysfs\") 0xe None".to_string(),
        "mounted /dev/pts?".to_string(),
        "mkdir /dev/pts".to_string(),
        "mount Some(\"devpts\") /dev/pts Some(\"devpts\") 0xa Some(\"mode=620,ptmxmode=0666\")"
            .to_string(),
        "mounted /dev/shm?".to_string(),
        "mkdir /dev/shm".to_string(),
        "mount Some(\"tmpfs\") /dev/shm Some(\"tmpfs\") 0x6 Some(\"mode=1777\")".to_string(),
        "exists /nix/store?".to_string(),
        logged("setting up /nix/store permissions"),
        "group nixbld?".to_string(),
        "chown 0:30001 /nix/store".to_string(),
        "chmod 1775 /nix/store".to_string(),
        "options /nix/store?".to_string(),
        logged(
            "applying mount options to /nix/store: flags=MsFlags(MS_RDONLY | MS_NOSUID | \
             MS_NODEV) data=[]",
        ),
        "has container?".to_string(),
        "mount Some(\"/nix/store\") /nix/store None 0x1000 None".to_string(),
        "mount None /nix/store None 0x1027 None".to_string(),
        logged("creating directory /etc"),
        "mkdir /etc".to_string(),
        logged("creating directory /etc/nixos"),
        "mkdir /etc/nixos".to_string(),
        logged("creating directory /tmp"),
        "mkdir /tmp".to_string(),
        logged("creating directory /run/keys"),
        "mkdir /run/keys".to_string(),
        "chmod 1777 /tmp".to_string(),
        "exists /sys/config?".to_string(),
        "dup".to_string(),
        "append /dev/kmsg?".to_string(),
        "capture set +x; exec tee -i /proc/self/fd/10 | while IFS= read -r line; do if [ -n \
         \"$line\" ]; then printf '<7>stage-2-init: %s\\n' \"$line\" > /dev/kmsg; fi; done"
            .to_string(),
        "redirect".to_string(),
        logged("capturing stdio via /dev/kmsg"),
        "exists /sys/config/activate?".to_string(),
        "exists /sys/config/activate?".to_string(),
        logged("running activation script: /sys/config/activate"),
        "set NIXOS_SYSTEM_CONFIG=/sys/config".to_string(),
        "spawn /sys/config/activate [] None".to_string(),
        logged("recording boot configuration: /run/booted-system -> /sys/config"),
        "link /run/booted-system -> /sys/config".to_string(),
        logged("activation complete, starting systemd"),
        "restore 10 11".to_string(),
    ];
    assert_eq!(lines, expected);
}

#[test]
fn systemd_has_done_its_part() {
    let mut world = World::bare();
    world.systemd = Some("true");
    world.present.push("/etc/resolv.conf");
    let mut args = plain_args();
    args.use_host_resolv_conf = true;
    args.early_mount_script = Some("/early".to_string());
    let lines = world.boots(args);
    let expected = vec![
        "mkdir /run/log".to_string(),
        "print <<< NixOS Stage 2 >>>".to_string(),
        logged("<<< NixOS Stage 2 >>>"),
        "info Setting PATH to: /run/current-system/sw/bin".to_string(),
        "set PATH=/run/current-system/sw/bin".to_string(),
        "env IN_NIXOS_SYSTEMD_STAGE1?".to_string(),
        logged("running in systemd stage 1 mode, skipping early mount setup"),
        "read /proc/cmdline".to_string(),
        "has container?".to_string(),
        "options /?".to_string(),
        logged("remounting / read-write"),
        "mount None / None 0x20 None".to_string(),
        "exists /nix/store?".to_string(),
    ];
    assert_eq!(&lines[..expected.len()], expected.as_slice());
    for start in ["exists /proc/1", "stderr", "dup", "restore", "spawn resolvconf"] {
        assert!(!starts(&lines, start), "{start}");
    }
    assert_eq!(lines.last(), Some(&logged("activation complete, starting systemd")));
}

#[test]
fn only_the_word_true_tells_of_systemd() {
    for value in ["1", "True", "true ", ""] {
        let mut world = World::bare();
        world.systemd = Some(value);
        let lines = world.boots(plain_args());
        assert!(starts(&lines, "exists /proc/1?"), "{value:?}");
    }
}

#[test]
fn a_traced_boot_announces_its_commands() {
    let mut world = World::bare();
    world.cmdline = Some("root=/dev/sda1 boot.debugtrace quiet\n");
    world.present.extend(["/etc/resolv.conf", "/hook"]);
    let mut args = plain_args();
    args.use_host_resolv_conf = true;
    args.early_mount_script = Some("/it's".to_string());
    args.post_boot_commands = Some("/hook".to_string());
    let mut machine = run(args, false);
    let lines = world.drive(&mut machine);
    let at = position(&lines, "trace on");
    assert_eq!(lines[at - 1], "read /proc/cmdline");
    assert_eq!(lines[at + 1], "set SHELLOPTS=xtrace");
    assert_eq!(
        lines[at + 2],
        logged("boot.debugtrace set; xtrace + subprocess tracing enabled")
    );
    let wrapper = r#"set -ex
specialMount() {
    local device="$1"
    local mountPoint="$2"
    local options="$3"
    local fsType="$4"
    if [ "${IN_NIXOS_SYSTEMD_STAGE1:-}" = "true" ] && [ "$mountPoint" = "/run" ]; then
        return
    fi
    install -m 0755 -d "$mountPoint"
    mount -n -t "$fsType" -o "$options" "$device" "$mountPoint"
}
. '/it'\''s'
"#;
    let at = position(&lines, &logged("sourcing early mount script: /it's"));
    assert_eq!(lines[at + 1], format!("stderr + /bin/sh -c {wrapper}"));
    assert_eq!(lines[at + 2], format!("spawn /bin/sh {:?} None", ["-c", wrapper]));
    let at = position(
        &lines,
        "spawn resolvconf [\"-m\", \"1000\", \"-a\", \"host\"] Some(\"/etc/resolv.conf\")",
    );
    assert_eq!(lines[at - 1], "stderr + resolvconf -m 1000 -a host");
    assert_eq!(lines[at + 1], logged("registered host resolv.conf via resolvconf"));
    let at = position(&lines, "spawn /sys/config/activate [] None");
    assert_eq!(lines[at - 1], "stderr + /sys/config/activate");
    let at = position(&lines, "spawn /bin/bash [\"-x\", \"/hook\"] None");
    assert_eq!(lines[at - 1], "stderr + /bin/bash -x /hook");
    assert_eq!(lines[at - 2], logged("running post-boot commands: /bin/bash /hook"));
}

#[test]
fn the_flag_traces_a_boot_after_systemd_too() {
    let mut world = World::bare();
    world.systemd = Some("true");
    world.cmdline = Some("quiet boot.debugtrace");
    world.present.push("/hook");
    let mut args = plain_args();
    args.post_boot_commands = Some("/hook".to_string());
    let lines = world.boots(args);
    let at = position(&lines, "read /proc/cmdline");
    assert_eq!(
        lines[at - 1],
        logged("running in systemd stage 1 mode, skipping early mount setup")
    );
    assert_eq!(lines[at + 1], "trace on");
    assert_eq!(lines[at + 2], "set SHELLOPTS=xtrace");
    let at = position(&lines, "spawn /sys/config/activate [] None");
    assert_eq!(lines[at - 1], "stderr + /sys/config/activate");
    let at = position(&lines, "spawn /bin/bash [\"-x\", \"/hook\"] None");
    assert_eq!(lines[at - 1], "stderr + /bin/bash -x /hook");
    assert!(!starts(&lines, "exists /proc/1"));
    assert!(!starts(&lines, "dup"));
}

#[test]
fn an_untraced_boot_is_silent() {
    let mut world = World::bare();
    world.cmdline = Some("boot.debugtrace=1 xboot.debugtrace boot.debugtraces");
    world.present.extend(["/etc/resolv.conf", "/hook"]);
    let mut args = plain_args();
    args.use_host_resolv_conf = true;
    args.early_mount_script = Some("/early".to_string());
    args.post_boot_commands = Some("/hook".to_string());
    let lines = world.boots(args);
    assert!(!starts(&lines, "stderr"));
    assert!(!starts(&lines, "trace on"));
    assert!(starts(&lines, "spawn /bin/sh [\"-c\", \"set -e\\nspecialMount() {"));
    assert!(starts(&lines, "spawn /bin/bash [\"/hook\"] None"));
}

#[test]
fn a_logger_that_traces_is_enough_to_trace() {
    let mut machine = run(plain_args(), true);
    let lines = World::bare().drive(&mut machine);
    let at = position(&lines, "spawn /sys/config/activate [] None");
    assert_eq!(lines[at - 1], "stderr + /sys/config/activate");
    assert!(!starts(&lines, "trace on"));
}

#[test]
fn the_log_goes_to_one_place() {
    let mut world = World::bare();
    world.special.push(("mkdir /run/log", broken()));
    let lines = world.boots(plain_args());
    assert_eq!(lines[2], "log stage-2-init: <<< NixOS Stage 2 >>>");
    assert!(!starts(&lines, "log ["));
    assert!(starts(&lines, "log stage-2-init: activation complete"));
}

#[test]
fn the_root_of_a_container_is_left_alone() {
    let mut world = World::bare();
    world.container = true;
    let lines = world.boots(plain_args());
    assert!(!starts(&lines, "options /?"));
    assert!(!starts(&lines, "mount None / "));
    position(&lines, "mount Some(\"/nix/store\") /nix/store None 0x5000 None");
}

#[test]
fn the_root_keeps_its_properties() {
    let mut world = World::bare();
    world.root_options = Some(vec!["ro", "relatime", "nosuid", "errors=remount-ro"]);
    let lines = world.boots(plain_args());
    let flags = MsFlags::MS_REMOUNT | MsFlags::MS_NOSUID | MsFlags::MS_RELATIME;
    position(&lines, &format!("mount None / None {:#x} None", flags.bits()));
}

#[test]
fn mounted_file_systems_are_left_alone() {
    let mut world = World::bare();
    world.mounted = vec!["/proc", "/sys", "/dev/pts"];
    let lines = world.boots(plain_args());
    assert!(!starts(&lines, "mount Some(\"proc\")"));
    assert!(!starts(&lines, "mkdir /sys"));
    assert!(starts(&lines, "mount Some(\"devtmpfs\")"));
    assert!(starts(&lines, "mount Some(\"tmpfs\")"));

    let mut world = World::bare();
    world.present.push("/proc/1");
    let mut args = plain_args();
    args.early_mount_script = Some("/early".to_string());
    let lines = world.boots(args);
    let at = position(&lines, "exists /proc/1?");
    assert_eq!(lines[at + 1], "exists /nix/store?");
}

#[test]
fn a_successful_boot_has_its_directories() {
    let lines = World::bare().boots(plain_args());
    let at = position(&lines, "mkdir /etc");
    assert_eq!(lines[at + 2], "mkdir /etc/nixos");
    assert_eq!(lines[at + 4], "mkdir /tmp");
    assert_eq!(lines[at + 6], "mkdir /run/keys");
    assert_eq!(lines[at + 7], "chmod 1777 /tmp");
}

#[test]
fn links_are_replaced_in_one_step_only_on_request() {
    let mut args = plain_args();
    args.atomic_symlinks = true;
    let lines = World::bare().boots(args);
    position(&lines, "atomic link /run/booted-system -> /sys/config");

    let lines = World::bare().boots(plain_args());
    position(&lines, "link /run/booted-system -> /sys/config");
    assert!(!starts(&lines, "atomic link"));
}

#[test]
fn the_store_never_stops_a_boot() {
    let mut world = World::bare();
    world.group = None;
    world.special = vec![
        ("chown", broken()),
        ("chmod 1775", broken()),
        ("mount Some(\"/nix/store\")", broken()),
    ];
    let lines = world.boots(plain_args());
    let at = position(&lines, "chown 0:30000 /nix/store");
    assert_eq!(lines[at + 1], "warn Failed to chown /nix/store: broken (continuing)");
    assert_eq!(lines[at + 2], "chmod 1775 /nix/store");
    assert_eq!(lines[at + 3], "warn Failed to chmod /nix/store: broken (continuing)");
    assert_eq!(lines[at + 4], "options /nix/store?");
    let at = position(&lines, "mount Some(\"/nix/store\") /nix/store None 0x1000 None");
    let warning = "warn Failed to set up /nix/store: Failed to apply /nix/store mount options \
                   (continuing)";
    assert_eq!(lines[at + 1], warning);
    assert_eq!(lines[at + 2], logged("creating directory /etc"));

    let mut world = World::bare();
    world.special = vec![("mount None /nix/store", broken())];
    let lines = world.boots(plain_args());
    let at = position(&lines, "mount None /nix/store None 0x1027 None");
    assert_eq!(lines[at + 1], warning);
    assert_eq!(lines[at + 2], logged("creating directory /etc"));
}

#[test]
fn a_boot_without_a_store() {
    let mut world = World::bare();
    world.present.retain(|p| *p != "/nix/store");
    let lines = world.boots(plain_args());
    let at = position(&lines, "exists /nix/store?");
    assert_eq!(lines[at + 1], logged("/nix/store does not exist, skipping setup"));
    assert_eq!(lines[at + 2], logged("creating directory /etc"));
}

#[test]
fn a_complete_store_is_left_alone() {
    let mut world = World::bare();
    world.store_options = Some(vec!["nodev", "relatime", "ro", "nosuid"]);
    let lines = world.boots(plain_args());
    let at = position(&lines, "options /nix/store?");
    assert_eq!(lines[at + 1], logged("creating directory /etc"));
}

#[test]
fn what_is_missing_is_applied_and_no_flag_is_lost() {
    let mut world = World::bare();
    world.store_options = Some(vec!["ro"]);
    let mut args = plain_args();
    args.nix_store_mount_opts = " ro, nodev,,discard , compress=\"zstd\"".to_string();
    let lines = world.boots(args);
    let at = position(&lines, "options /nix/store?");
    assert_eq!(
        lines[at + 1],
        logged(
            "applying mount options to /nix/store: flags=MsFlags(MS_NODEV) data=[\"discard\", \
             \"compress=\\\"zstd\\\"\"]"
        )
    );
    assert_eq!(
        lines[at + 4],
        "mount None /nix/store None 0x1025 Some(\"discard,compress=\\\"zstd\\\"\")"
    );
}

#[test]
fn options_without_a_flag_are_still_applied() {
    let mut args = plain_args();
    args.nix_store_mount_opts = "discard".to_string();
    let lines = World::bare().boots(args);
    let at = position(&lines, "options /nix/store?");
    assert_eq!(
        lines[at + 1],
        logged("applying mount options to /nix/store: flags=MsFlags(0x0) data=[\"discard\"]")
    );
    assert_eq!(lines[at + 4], "mount None /nix/store None 0x1020 Some(\"discard\")");
}

#[test]
fn a_capture_into_the_log_file() {
    let mut world = World::bare();
    world.kernel_log = false;
    world.duplicates = (7, 8);
    let lines = world.boots(plain_args());
    let at = position(&lines, "append /dev/kmsg?");
    assert_eq!(
        lines[at + 1],
        "capture set +x; mkdir -p /run/log && exec tee -i /proc/self/fd/7 \
         /run/log/stage-2-init.log"
    );
    assert_eq!(lines[at + 3], logged("capturing stdio via /run/log/stage-2-init.log"));
    assert_eq!(lines.last().map(String::as_str), Some("restore 7 8"));
}

#[test]
fn a_capture_that_fails_stops_nothing() {
    let unavailable = |why: &str| logged(&format!("warning: stdio capture unavailable: {why}"));
    for duplicates in [(-1, 11), (10, -1), (-1, -1)] {
        let mut world = World::bare();
        world.duplicates = duplicates;
        let lines = world.boots(plain_args());
        let at = position(&lines, "dup");
        assert_eq!(
            lines[at + 1],
            unavailable("dup of stdout/stderr failed: too many open files")
        );
        assert_eq!(lines[at + 2], "exists /sys/config/activate?");
        assert!(!starts(&lines, "restore"));
    }

    let cases = [
        ("capture", broken(), "Failed to spawn stdio capture helper: broken"),
        ("capture", Reply::NoPipe, "capture child missing stdin"),
    ];
    for (start, reply, why) in cases {
        let mut world = World::bare();
        world.special = vec![(start, reply)];
        let lines = world.boots(plain_args());
        let at = position(&lines, &unavailable(why));
        assert!(lines[at - 1].starts_with(start));
        assert_eq!(lines[at + 1], "exists /sys/config/activate?");
        assert!(!starts(&lines, "restore"));
    }
}

#[test]
fn a_failed_redirect_is_undone_at_once() {
    let mut world = World::bare();
    world.special = vec![("redirect", broken())];
    let lines = world.boots(plain_args());
    let at = position(&lines, "redirect");
    assert_eq!(lines[at + 1], "restore 10 11");
    assert_eq!(
        lines[at + 2],
        logged("warning: stdio capture unavailable: dup2 onto stdio failed: broken")
    );
    assert_eq!(lines[at + 3], "exists /sys/config/activate?");
    assert_eq!(lines.iter().filter(|l| l.starts_with("restore")).count(), 1);
    assert_eq!(lines.last(), Some(&logged("activation complete, starting systemd")));
}

#[test]
fn a_remount_of_the_store_keeps_the_flags_it_has() {
    let mut world = World::bare();
    world.store_options = Some(vec!["ro", "nosuid"]);
    let lines = world.boots(plain_args());
    let at = position(&lines, "options /nix/store?");
    assert_eq!(
        lines[at + 1],
        logged("applying mount options to /nix/store: flags=MsFlags(MS_NODEV) data=[]")
    );
    let flags = MsFlags::MS_REMOUNT
        | MsFlags::MS_BIND
        | MsFlags::MS_RDONLY
        | MsFlags::MS_NOSUID
        | MsFlags::MS_NODEV;
    assert_eq!(lines[at + 4], format!("mount None /nix/store None {:#x} None", flags.bits()));
}

#[test]
fn errors_of_the_store_say_what_failed() {
    let error = store_bound(MsFlags::empty(), &Vec::new(), broken()).unwrap_err();
    assert_eq!(error.message, "Failed to bind mount /nix/store");
    assert_eq!(error.cause.as_deref(), Some("broken"));
    let error = store_remounted(broken()).unwrap_err();
    assert_eq!(error.message, "Failed to remount /nix/store");
    assert_eq!(error.cause.as_deref(), Some("broken"));
    assert!(store_remounted(Reply::Done).unwrap().is_empty());
    let wanted = vec!["ro".to_string(), "discard".to_string(), "nodev".to_string()];
    assert_eq!(find_wanted(&wanted), MsFlags::MS_RDONLY | MsFlags::MS_NODEV);
    assert_eq!(continue_without_store(store_remounted(broken())).len(), 1);
}

#[test]
fn stdio_is_given_back_after_a_failure() {
    let mut world = World::bare();
    world.special = vec![("link", broken())];
    let mut machine = run(plain_args(), false);
    let lines = world.drive(&mut machine);
    let at = position(&lines, "link /run/booted-system -> /sys/config");
    assert_eq!(&lines[at + 1..], ["restore 10 11".to_string()]);
    let failure = machine.failure().expect("the link could not be made");
    assert_eq!(failure.stage, Stage::BootRecord);
    assert_eq!(
        failure.error.message,
        "Failed to create symlink: /run/booted-system -> /sys/config"
    );
    assert_eq!(failure.error.cause.as_deref(), Some("broken"));
}

#[test]
fn nothing_follows_a_failure_before_the_capture() {
    let mut world = World::bare();
    world.special = vec![("mkdir /tmp", broken())];
    let mut machine = run(plain_args(), false);
    let lines = world.drive(&mut machine);
    assert_eq!(lines.last().map(String::as_str), Some("mkdir /tmp"));
    machine.resume(Reply::Done);
    assert!(machine.request().is_none());
    assert!(machine.failure().is_some());
}

#[test]
fn every_failure_is_introduced_by_its_stage() {
    let mut script = plain_args();
    script.early_mount_script = Some("/early".to_string());
    let mut world = World::bare();
    world.special = vec![("mount None / ", broken())];
    assert_eq!(
        world.fails(plain_args()),
        (
            Stage::RemountRoot,
            Some("Failed to remount / rw"),
            "mount -o remount,rw / failed".to_string(),
            Some("broken".to_string()),
        )
    );

    let mut world = World::bare();
    world.special = vec![("spawn /bin/sh", broken())];
    assert_eq!(
        world.fails(script),
        (
            Stage::EarlyMountScript,
            Some("Failed to run early mount script"),
            "Failed to invoke /bin/sh to run /early".to_string(),
            Some("broken".to_string()),
        )
    );

    let mut script = plain_args();
    script.early_mount_script = Some("/early".to_string());
    let mut world = World::bare();
    world.special = vec![("spawn /bin/sh", killed())];
    assert_eq!(
        world.fails(script),
        (
            Stage::EarlyMountScript,
            Some("Failed to run early mount script"),
            "early mount script /early exited with status signal: 9 (SIGKILL)".to_string(),
            None,
        )
    );

    let mut world = World::bare();
    world.special = vec![("mkdir /dev/pts", broken())];
    assert_eq!(
        world.fails(plain_args()),
        (
            Stage::SpecialFilesystems,
            Some("Failed to mount special filesystems"),
            "broken".to_string(),
            None,
        )
    );

    let mut world = World::bare();
    world.special = vec![("mount Some(\"sysfs\")", broken())];
    assert_eq!(
        world.fails(plain_args()),
        (
            Stage::SpecialFilesystems,
            Some("Failed to mount special filesystems"),
            "Failed to mount /sys".to_string(),
            Some("broken".to_string()),
        )
    );

    let mut world = World::bare();
    world.special = vec![("mkdir /run/keys", broken())];
    assert_eq!(
        world.fails(plain_args()),
        (
            Stage::Directories,
            Some("Failed to create required directories"),
            "Failed to create directory: /run/keys".to_string(),
            Some("broken".to_string()),
        )
    );

    let mut world = World::bare();
    world.special = vec![("chmod 1777", broken())];
    assert_eq!(
        world.fails(plain_args()),
        (
            Stage::Directories,
            Some("Failed to create required directories"),
            "Failed to chmod /tmp".to_string(),
            Some("broken".to_string()),
        )
    );

    let mut args = plain_args();
    args.use_host_resolv_conf = true;
    let mut world = World::bare();
    world.present.push("/etc/resolv.conf");
    world.special = vec![("spawn resolvconf", Reply::NoInput { reason: "gone".to_string() })];
    assert_eq!(
        world.fails(args),
        (
            Stage::ResolvConf,
            Some("Failed to set up resolv.conf"),
            "Failed to open /etc/resolv.conf for resolvconf".to_string(),
            Some("gone".to_string()),
        )
    );

    let mut world = World::bare();
    world.present.retain(|p| *p != "/sys/config");
    assert_eq!(
        world.fails(plain_args()),
        (
            Stage::SystemConfig,
            None,
            "System configuration path does not exist: /sys/config".to_string(),
            None,
        )
    );

    let mut args = plain_args();
    args.strict_activation = true;
    let mut world = World::bare();
    world.present.retain(|p| *p != "/sys/config/activate");
    assert_eq!(
        world.fails(args),
        (
            Stage::Activation,
            Some("Activation script failed"),
            "system config at /sys/config has no activate script".to_string(),
            None,
        )
    );

    let mut world = World::bare();
    world.present.retain(|p| *p != "/sys/config/activate");
    world.special = vec![("exists /sys/config/activate?", Reply::Flag { value: true })];
    assert_eq!(
        world.fails(plain_args()),
        (
            Stage::Activation,
            Some("Activation script failed"),
            "Activation script not found: /sys/config/activate".to_string(),
            None,
        )
    );

    let mut world = World::bare();
    world.special = vec![("spawn /sys/config/activate", broken())];
    assert_eq!(
        world.fails(plain_args()),
        (
            Stage::Activation,
            Some("Activation script failed"),
            "Failed to execute activation script: /sys/config/activate".to_string(),
            Some("broken".to_string()),
        )
    );

    let mut world = World::bare();
    world.special = vec![("link", broken())];
    assert_eq!(
        world.fails(plain_args()),
        (
            Stage::BootRecord,
            Some("Failed to record boot configuration"),
            "Failed to create symlink: /run/booted-system -> /sys/config".to_string(),
            Some("broken".to_string()),
        )
    );

    let mut args = plain_args();
    args.post_boot_commands = Some("/hook".to_string());
    let mut world = World::bare();
    world.present.push("/hook");
    world.special = vec![("spawn /bin/bash", broken())];
    assert_eq!(
        world.fails(args),
        (
            Stage::PostBoot,
            Some("Post-boot commands failed"),
            "Failed to execute post-boot commands: /bin/bash /hook".to_string(),
            Some("broken".to_string()),
        )
    );
}

#[test]
fn scripts_that_end_badly_stop_nothing() {
    let mut args = plain_args();
    args.use_host_resolv_conf = true;
    args.post_boot_commands = Some("/hook".to_string());
    let mut world = World::bare();
    world.present.extend(["/etc/resolv.conf", "/hook"]);
    world.special = vec![
        ("spawn resolvconf", exited(3)),
        ("spawn /sys/config/activate", exited(2)),
        ("spawn /bin/bash", killed()),
    ];
    let lines = world.boots(args);
    position(&lines, &logged("warning: resolvconf exited with exit status: 3"));
    position(&lines, "warn Activation script exited with code Some(2) (continuing)");
    position(&lines, &logged("warning: post-boot commands failed with exit code: None"));

    let mut args = plain_args();
    args.use_host_resolv_conf = true;
    let mut world = World::bare();
    world.present.push("/etc/resolv.conf");
    world.special = vec![("spawn resolvconf", broken())];
    let lines = world.boots(args);
    position(&lines, &logged("warning: failed to invoke resolvconf: broken"));
}

#[test]
fn what_is_not_ordered_is_not_done() {
    let mut world = World::bare();
    world.present.push("/etc/resolv.conf");
    let lines = world.boots(plain_args());
    assert!(!starts(&lines, "exists /etc/resolv.conf"));
    assert!(!starts(&lines, "spawn /bin/bash"));

    let mut args = plain_args();
    args.use_host_resolv_conf = true;
    args.post_boot_commands = Some("/hook".to_string());
    let lines = World::bare().boots(args);
    position(&lines, "exists /etc/resolv.conf?");
    position(&lines, "exists /hook?");
    assert!(!starts(&lines, "spawn resolvconf"));
    assert!(!starts(&lines, "spawn /bin/bash"));
}

#[test]
fn a_strict_boot_is_activated() {
    let mut args = plain_args();
    args.strict_activation = true;
    let lines = World::bare().boots(args);
    position(&lines, "spawn /sys/config/activate [] None");
    position(&lines, "link /run/booted-system -> /sys/config");

    let mut world = World::bare();
    world.present.retain(|p| *p != "/sys/config/activate");
    let lines = world.boots(plain_args());
    position(
        &lines,
        "warn system config at /sys/config has no activate script; skipping activation",
    );
    assert!(!starts(&lines, "spawn /sys/config/activate"));
    position(&lines, "link /run/booted-system -> /sys/config");
}

#[test]
fn every_boot_ends_whatever_the_replies() {
    let replies: [fn() -> Reply; 6] = [
        || Reply::Done,
        broken,
        || Reply::Flag { value: true },
        || Reply::Text { content: Some("true".to_string()) },
        || Reply::NoPipe,
        || Reply::Pid { pid: 7 },
    ];
    for reply in replies {
        let mut args = plain_args();
        args.use_host_resolv_conf = true;
        args.post_boot_commands = Some("/hook".to_string());
        let mut machine = run(args, true);
        let mut count = 0;
        while machine.request().is_some() {
            machine.resume(reply());
            count += 1;
            assert!(count <= 81);
        }
    }
}

#[test]
fn a_handoff_from_the_first_process() {
    let lines = World::bare().hands_off();
    let expected = [
        "info Exec-ing systemd: /run/systemd [\"--log-level=debug\", \"a b\"]",
        "pid?",
        "unset SYSTEM_CONFIG",
        "unset STAGE2_GREETING",
        "unset NIX_STORE_MOUNT_OPTS",
        "unset POST_BOOT_COMMANDS",
        "unset USE_HOST_RESOLV_CONF",
        "unset STAGE2_PATH",
        "unset SYSTEMD_EXECUTABLE",
        "unset EARLY_MOUNT_SCRIPT",
        "exec /run/systemd [\"--log-level=debug\", \"a b\"]",
    ];
    assert_eq!(&lines[..expected.len()], expected);
}

#[test]
fn a_handoff_that_fails_falls_back_to_a_shell() {
    let mut world = World::bare();
    world.pid = 42;
    world.special = vec![("exec /run/systemd", broken()), ("exec /bin/sh", broken())];
    let lines = world.hands_off();
    assert_eq!(lines.len(), 15);
    assert_eq!(lines[2], "warn Not running as PID 1, but continuing anyway");
    assert_eq!(lines[3], "unset SYSTEM_CONFIG");
    assert_eq!(lines[12], "stderr FATAL: Failed to exec systemd at /run/systemd: broken");
    assert_eq!(lines[13], "exec /bin/sh []");
    assert_eq!(lines[14], "exit 1");
}

#[test]
fn the_store_changes_nothing_later() {
    let store = |l: &String| {
        l.contains("/nix/store") || l == "group nixbld?" || l == "has container?"
    };
    let plain: Vec<String> =
        World::bare().boots(plain_args()).into_iter().filter(|l| !store(l)).collect();
    let cases: [Vec<(&'static str, Reply)>; 5] = [
        vec![("exists /nix/store", broken())],
        vec![("group", broken()), ("chown", broken()), ("chmod 1775", broken())],
        vec![("options /nix/store", broken())],
        vec![("mount Some(\"/nix/store\")", broken())],
        vec![("mount None /nix/store", broken())],
    ];
    for special in cases {
        let mut world = World::bare();
        world.special = special;
        let lines: Vec<String> =
            world.boots(plain_args()).into_iter().filter(|l| !store(l)).collect();
        assert_eq!(lines, plain);
    }
}

#[test]
fn success_is_owed_where_nothing_fatal_happens() {
    let mut args = plain_args();
    args.use_host_resolv_conf = true;
    args.post_boot_commands = Some("/hook".to_string());
    let mut world = World::bare();
    world.present.extend(["/etc/resolv.conf", "/hook"]);
    world.special = vec![
        ("mkdir /run/log", broken()),
        ("options /?", broken()),
        ("group", broken()),
        ("chown", broken()),
        ("chmod 1775", broken()),
        ("options /nix/store", broken()),
        ("mount Some(\"/nix/store\")", broken()),
        ("spawn resolvconf", broken()),
        ("dup", broken()),
        ("spawn /sys/config/activate", killed()),
        ("spawn /bin/bash", exited(1)),
    ];
    let lines = world.boots(args);
    position(&lines, "link /run/booted-system -> /sys/config");
    assert_eq!(
        lines.last().map(String::as_str),
        Some("log stage-2-init: activation complete, starting systemd")
    );
}

#[test]
fn the_descriptors_come_back() {
    // Whether the redirection works, fails at once, or fails after the first descriptor.
    for redirected in [vec![1, 2], vec![], vec![1]] {
        let before = BTreeMap::from([(0, "input"), (1, "console"), (2, "errors")]);
        let mut files = before.clone();
        let mut world = World::bare();
        let mut machine = run(plain_args(), false);
        while let Some(request) = machine.request() {
            let mut reply = world.answer(request);
            match request {
                Request::DuplicateStdio => {
                    files.insert(10, files[&1]);
                    files.insert(11, files[&2]);
                }
                Request::RedirectStdio => {
                    for fd in &redirected {
                        files.insert(*fd, "pipe");
                    }
                    if redirected.len() < 2 {
                        reply = broken();
                    }
                }
                Request::RestoreStdio { stdout, stderr } => {
                    files.insert(1, files[stdout]);
                    files.insert(2, files[stderr]);
                    files.remove(stdout);
                    files.remove(stderr);
                }
                _ => {}
            }
            machine.resume(reply);
        }
        assert!(machine.failure().is_none());
        assert_eq!(files, before);
    }
}
