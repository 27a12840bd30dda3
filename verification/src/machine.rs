//! The machine that runs the boot sequence: it hands out one request at a time and takes the
//! reply to it.

use vstd::prelude::*;

use crate::activation::{
    activation_run, activation_run_steps, activation_steps, boot_recorded, boot_recorded_steps,
    check_system_config, maybe_activation_steps, maybe_run_activation_script, post_boot_run,
    post_boot_run_steps, post_boot_steps, run_activation_script, run_post_boot_commands,
    system_config_steps,
};
use crate::boot::{
    command_line_steps, container_steps, first_step, first_task, greet, greeting_steps,
    kernel_command_line, log_file, remount_unless_container, setup_logging, systemd_stage1,
    systemd_stage1_steps, traces,
};
use crate::files::{
    directory_made, directory_made_steps, resolv_conf_run, resolv_conf_run_steps,
    resolv_conf_steps, setup_resolv_conf, tmp_mode, tmp_mode_steps,
};
use crate::handoff::{
    handoff_steps, handoff_tasks, init_failed, init_failed_steps, init_pid, init_pid_steps,
};
use crate::mounts::{
    early_mounts, early_mounts_steps, early_script_run, early_script_run_steps, remount_root_rw,
    remount_root_steps, root_remounted, root_remounted_steps, special_directory,
    special_directory_steps, special_mount, special_mount_steps, special_mounted,
    special_mounted_steps,
};
use crate::request::{Reply, ReplyView, Request, RequestView};
use crate::stdio::{
    capture_started, capture_started_steps, captured_after, kernel_log_steps, restore_stdio,
    restore_step, start_capture, stdio_duplicated, stdio_duplicated_steps, stdio_redirected,
    stdio_redirected_steps,
};
use crate::store::{
    apply_nix_store_mount_opts, continue_without_store, despite_store_errors, nix_store_steps,
    setup_nix_store, store_bound, store_bound_steps,
    store_container, store_container_steps, store_group, store_group_steps, store_mode,
    store_options_steps, store_owner, store_remounted, store_remounted_steps,
    store_warning_steps,
};
use crate::task::{
    add_tasks, no_tasks, one_task, steps_view, Args, ArgsView, BootError, BootErrorView, Handler,
    HandlerView, Session, SessionView, Stage, Steps, StepsView, Task, TaskView,
};

verus! {

// ---------------------------------------------------------------------------------------------
// What a reply leads to.
// ---------------------------------------------------------------------------------------------

/// The options in a reply, or none if they could not be found.
pub open spec fn options_or_none(reply: ReplyView) -> Option<Seq<Seq<char>>> {
    match reply {
        ReplyView::Options { list } => list,
        _ => None,
    }
}

/// The options in a reply, or an empty list if they could not be found.
pub open spec fn options_or_empty(reply: ReplyView) -> Seq<Seq<char>> {
    match options_or_none(reply) {
        Some(options) => options,
        None => Seq::empty(),
    }
}

/// What is known of the process after a reply.
pub open spec fn session_after(
    handler: HandlerView,
    reply: ReplyView,
    session: SessionView,
) -> SessionView {
    match handler {
        HandlerView::LogDirectory { .. } => SessionView {
            log_dest: log_file(reply.failure() is None),
            ..session
        },
        HandlerView::KernelCommandLine { .. } => SessionView {
            tracing: session.tracing || traces(reply),
            ..session
        },
        HandlerView::StdioRedirected { saved, .. } => SessionView {
            captured: captured_after(saved, reply),
            ..session
        },
        _ => session,
    }
}

/// The steps that a reply leads to, or the error that it is.
pub open spec fn steps_after(
    handler: HandlerView,
    reply: ReplyView,
    session: SessionView,
) -> StepsView {
    match handler {
        HandlerView::Ignore => Ok(Seq::empty()),
        HandlerView::LogDirectory { args } => Ok(
            greeting_steps(args, session_after(handler, reply, session)),
        ),
        HandlerView::SystemdStage1 { args } => Ok(systemd_stage1_steps(args, reply, session)),
        HandlerView::KernelCommandLine { args, after_systemd } => Ok(
            command_line_steps(args, after_systemd, reply, session_after(handler, reply, session)),
        ),
        HandlerView::Container => Ok(container_steps(reply.is_yes())),
        HandlerView::RootOptions => Ok(remount_root_steps(options_or_none(reply), session)),
        HandlerView::RootRemounted => root_remounted_steps(reply),
        HandlerView::ProcMounted { early_script } => Ok(
            early_mounts_steps(reply.is_yes(), early_script, session),
        ),
        HandlerView::EarlyScriptRun { script } => early_script_run_steps(script, reply),
        HandlerView::SpecialMounted { fs } => Ok(special_mounted_steps(fs, reply.is_yes())),
        HandlerView::SpecialDirectory => special_directory_steps(reply),
        HandlerView::SpecialMount { fs } => special_mount_steps(fs, reply),
        HandlerView::StoreExists { options } => Ok(
            nix_store_steps(reply.is_yes(), options, session),
        ),
        HandlerView::StoreGroup => Ok(store_group_steps(reply)),
        HandlerView::StoreOwner => Ok(
            store_warning_steps("Failed to chown /nix/store: "@, reply),
        ),
        HandlerView::StoreMode => Ok(store_warning_steps("Failed to chmod /nix/store: "@, reply)),
        HandlerView::StoreOptions { desired } => Ok(
            store_options_steps(desired, options_or_empty(reply), session),
        ),
        HandlerView::StoreContainer { flags, data } => Ok(
            store_container_steps(reply.is_yes(), flags, data),
        ),
        HandlerView::StoreBound { flags, data } => Ok(
            despite_store_errors(store_bound_steps(flags, data, reply)),
        ),
        HandlerView::StoreRemounted => Ok(despite_store_errors(store_remounted_steps(reply))),
        HandlerView::DirectoryMade { path } => directory_made_steps(path, reply),
        HandlerView::TmpMode => tmp_mode_steps(reply),
        HandlerView::ResolvConfExists => Ok(resolv_conf_steps(reply.is_yes(), session)),
        HandlerView::ResolvConfRun => resolv_conf_run_steps(reply, session),
        HandlerView::SystemConfigExists { system_config } => system_config_steps(
            system_config,
            reply.is_yes(),
        ),
        HandlerView::StdioDuplicated => Ok(stdio_duplicated_steps(reply, session)),
        HandlerView::KernelLog { saved } => Ok(kernel_log_steps(saved, reply.is_yes())),
        HandlerView::CaptureStarted { saved, kernel_log } => Ok(
            capture_started_steps(saved, kernel_log, reply, session),
        ),
        HandlerView::StdioRedirected { saved, kernel_log } => Ok(
            stdio_redirected_steps(saved, kernel_log, reply, session),
        ),
        HandlerView::ActivationExists { system_config, strict } => maybe_activation_steps(
            system_config,
            strict,
            reply.is_yes(),
        ),
        HandlerView::ActivationStillExists { system_config } => activation_steps(
            system_config,
            reply.is_yes(),
            session,
        ),
        HandlerView::ActivationRun { script } => activation_run_steps(script, reply),
        HandlerView::BootRecorded { system_config } => boot_recorded_steps(system_config, reply),
        HandlerView::PostBootExists { shell, commands } => Ok(
            post_boot_steps(shell, commands, reply.is_yes(), session),
        ),
        HandlerView::PostBootRun { shell, commands } => post_boot_run_steps(
            shell,
            commands,
            reply,
            session,
        ),
        HandlerView::InitPid => Ok(init_pid_steps(reply)),
        HandlerView::InitFailed { program } => Ok(init_failed_steps(program, reply)),
    }
}

/// Takes a reply: notes what it tells of the process, and works out the steps that it leads to.
pub fn settle(handler: Handler, reply: Reply, session: &mut Session) -> (r: Steps)
    ensures
        final(session)@ == session_after(handler@, reply@, old(session)@),
        steps_view(r) == steps_after(handler@, reply@, old(session)@),
{
    match handler {
        Handler::Ignore => Ok(no_tasks()),
        Handler::LogDirectory { args } => {
            let created = reply.failure().is_none();
            session.log_dest = setup_logging(created);
            Ok(greet(args, session))
        },
        Handler::SystemdStage1 { args } => Ok(systemd_stage1(args, reply, session)),
        Handler::KernelCommandLine { args, after_systemd } => Ok(
            kernel_command_line(args, after_systemd, reply, session),
        ),
        Handler::Container => Ok(remount_unless_container(reply.is_yes())),
        Handler::RootOptions => {
            let options = match reply {
                Reply::Options { list } => list,
                _ => None,
            };
            Ok(remount_root_rw(&options, session))
        },
        Handler::RootRemounted => root_remounted(reply),
        Handler::ProcMounted { early_script } => Ok(
            early_mounts(reply.is_yes(), &early_script, session),
        ),
        Handler::EarlyScriptRun { script } => early_script_run(script.as_str(), reply),
        Handler::SpecialMounted { fs } => Ok(special_mounted(fs, reply.is_yes())),
        Handler::SpecialDirectory => special_directory(reply),
        Handler::SpecialMount { fs } => special_mount(fs, reply),
        Handler::StoreExists { options } => Ok(
            setup_nix_store(reply.is_yes(), options.as_str(), session),
        ),
        Handler::StoreGroup => Ok(store_group(reply)),
        Handler::StoreOwner => Ok(store_owner(reply)),
        Handler::StoreMode => Ok(store_mode(reply)),
        Handler::StoreOptions { desired } => {
            let none: Vec<String> = Vec::new();
            assert(none.deep_view() =~= Seq::empty());
            let current = match reply {
                Reply::Options { list: Some(options) } => options,
                _ => none,
            };
            Ok(apply_nix_store_mount_opts(&desired, &current, session))
        },
        Handler::StoreContainer { flags, data } => Ok(
            store_container(reply.is_yes(), flags, data),
        ),
        Handler::StoreBound { flags, data } => Ok(
            continue_without_store(store_bound(flags, &data, reply)),
        ),
        Handler::StoreRemounted => Ok(continue_without_store(store_remounted(reply))),
        Handler::DirectoryMade { path } => directory_made(path.as_str(), reply),
        Handler::TmpMode => tmp_mode(reply),
        Handler::ResolvConfExists => Ok(setup_resolv_conf(reply.is_yes(), session)),
        Handler::ResolvConfRun => resolv_conf_run(reply, session),
        Handler::SystemConfigExists { system_config } => check_system_config(
            system_config.as_str(),
            reply.is_yes(),
        ),
        Handler::StdioDuplicated => Ok(stdio_duplicated(reply, session)),
        Handler::KernelLog { saved } => Ok(start_capture(saved, reply.is_yes())),
        Handler::CaptureStarted { saved, kernel_log } => Ok(
            capture_started(saved, kernel_log, reply, session),
        ),
        Handler::StdioRedirected { saved, kernel_log } => Ok(
            stdio_redirected(saved, kernel_log, reply, session),
        ),
        Handler::ActivationExists { system_config, strict } => maybe_run_activation_script(
            system_config.as_str(),
            strict,
            reply.is_yes(),
        ),
        Handler::ActivationStillExists { system_config } => run_activation_script(
            system_config.as_str(),
            reply.is_yes(),
            session,
        ),
        Handler::ActivationRun { script } => activation_run(script.as_str(), reply),
        Handler::BootRecorded { system_config } => boot_recorded(system_config.as_str(), reply),
        Handler::PostBootExists { shell, commands } => Ok(
            run_post_boot_commands(shell.as_str(), commands.as_str(), reply.is_yes(), session),
        ),
        Handler::PostBootRun { shell, commands } => post_boot_run(
            shell.as_str(),
            commands.as_str(),
            reply,
            session,
        ),
        Handler::InitPid => Ok(init_pid(reply)),
        Handler::InitFailed { program } => Ok(init_failed(program.as_str(), reply)),
    }
}

// ---------------------------------------------------------------------------------------------
// The machine.
// ---------------------------------------------------------------------------------------------

/// Where and why the boot sequence stopped short.
#[derive(Debug)]
pub struct Failure {
    pub stage: Stage,
    pub error: BootError,
}

#[verifier::ext_equal]
pub struct FailureView {
    pub stage: Stage,
    pub error: BootErrorView,
}

impl View for Failure {
    type V = FailureView;

    open spec fn view(&self) -> FailureView {
        FailureView { stage: self.stage, error: self.error@ }
    }
}

impl DeepView for Failure {
    type V = FailureView;

    open spec fn deep_view(&self) -> FailureView {
        self@
    }
}

/// A sequence of steps that is being run.
#[derive(Debug)]
pub struct Machine {
    session: Session,
    agenda: Vec<Task>,
    failure: Option<Failure>,
}

#[verifier::ext_equal]
pub struct MachineView {
    /// What is known of the process.
    pub session: SessionView,
    /// The steps that are still to be taken; the reply that is awaited is to the first of them.
    pub agenda: Seq<TaskView>,
    /// The error that cut the sequence short, if one did.
    pub failure: Option<FailureView>,
}

impl View for Machine {
    type V = MachineView;

    closed spec fn view(&self) -> MachineView {
        MachineView {
            session: self.session@,
            agenda: self.agenda.deep_view(),
            failure: self.failure.deep_view(),
        }
    }
}

impl MachineView {
    /// The request that is to be performed next.
    pub open spec fn request(self) -> Option<RequestView> {
        if self.agenda.len() > 0 {
            Some(self.agenda[0].request)
        } else {
            None
        }
    }

    /// Nothing is left to be done.
    pub open spec fn finished(self) -> bool {
        self.agenda.len() == 0
    }

    /// A machine that is at the end of its steps gives standard output and standard error back, if
    /// they are captured.
    pub open spec fn wound_up(self) -> MachineView {
        match self.session.captured {
            Some(saved) => if self.agenda.len() == 0 {
                MachineView {
                    session: SessionView { captured: None, ..self.session },
                    agenda: seq![restore_step(saved)],
                    ..self
                }
            } else {
                self
            },
            None => self,
        }
    }

    /// The machine after a reply to its next request: the steps that the reply leads to come before
    /// those that were left, and an error takes the place of them all.
    pub open spec fn resumed(self, reply: ReplyView) -> MachineView {
        if self.agenda.len() == 0 {
            self
        } else {
            let task = self.agenda[0];
            let session = session_after(task.handler, reply, self.session);
            match steps_after(task.handler, reply, self.session) {
                Ok(steps) => MachineView {
                    session,
                    agenda: steps + self.agenda.skip(1),
                    ..self
                }.wound_up(),
                Err(error) => MachineView {
                    session,
                    agenda: Seq::empty(),
                    failure: Some(FailureView { stage: task.stage, error }),
                }.wound_up(),
            }
        }
    }
}

/// What is known of the process when nothing has been found out yet.
pub open spec fn fresh_session(tracing: bool) -> SessionView {
    SessionView { log_dest: None, tracing, captured: None }
}

/// A machine at the start of the boot sequence.
pub open spec fn booting(args: ArgsView, tracing: bool) -> MachineView {
    MachineView {
        session: fresh_session(tracing),
        agenda: seq![first_step(args)],
        failure: None,
    }
}

/// A machine that is about to hand over to init.
pub open spec fn handing_off(program: Seq<char>, args: Seq<Seq<char>>) -> MachineView {
    MachineView {
        session: fresh_session(false),
        agenda: handoff_steps(program, args),
        failure: None,
    }
}

/// Starts the boot sequence.  `tracing` tells whether every command is to be traced from the
/// start, whatever the kernel command line says.
pub fn run(args: Args, tracing: bool) -> (r: Machine)
    ensures
        r@ == booting(args@, tracing),
{
    Machine {
        session: Session { log_dest: None, tracing, captured: None },
        agenda: one_task(first_task(args)),
        failure: None,
    }
}

/// Starts to hand over to init: to `systemd_path` with the arguments that were passed on.
pub fn exec_systemd(systemd_path: &str, systemd_args: Vec<String>) -> (r: Machine)
    ensures
        r@ == handing_off(systemd_path@, systemd_args.deep_view()),
{
    Machine {
        session: Session { log_dest: None, tracing: false, captured: None },
        agenda: handoff_tasks(systemd_path, systemd_args),
        failure: None,
    }
}

impl Machine {
    /// The request that is to be performed next, or `None` if nothing is left to be done.
    pub fn request(&self) -> (r: Option<&Request>)
        ensures
            match r {
                Some(request) => self@.request() == Some(request@),
                None => self@.request() is None,
            },
    {
        if self.agenda.len() > 0 {
            assert(self.agenda.deep_view()[0] == self.agenda[0]@);
            Some(&self.agenda[0].request)
        } else {
            None
        }
    }

    /// Where and why the sequence was cut short, if it was.
    pub fn failure(&self) -> (r: Option<&Failure>)
        ensures
            match r {
                Some(failure) => self@.failure == Some(failure@),
                None => self@.failure is None,
            },
    {
        match &self.failure {
            Some(failure) => Some(failure),
            None => None,
        }
    }

    /// Takes the reply to the request that was to be performed.
    pub fn resume(&mut self, reply: Reply)
        ensures
            final(self)@ == old(self)@.resumed(reply@),
    {
        if self.agenda.len() == 0 {
            return ;
        }
        let ghost before = self@;
        let task = self.agenda.remove(0);
        assert(task@ == before.agenda[0]);
        assert(self.agenda.deep_view() =~= before.agenda.skip(1));
        match settle(task.handler, reply, &mut self.session) {
            Ok(tasks) => {
                let mut tasks = tasks;
                let mut rest: Vec<Task> = Vec::new();
                std::mem::swap(&mut rest, &mut self.agenda);
                add_tasks(&mut tasks, rest);
                self.agenda = tasks;
            },
            Err(error) => {
                self.agenda = no_tasks();
                self.failure = Some(Failure { stage: task.stage, error });
            },
        }
        if self.agenda.len() == 0 {
            if let Some(saved) = self.session.captured {
                self.session.captured = None;
                self.agenda = one_task(restore_stdio(saved));
            }
        }
    }
}

} // verus!
