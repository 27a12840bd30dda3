//! Activating the system configuration, recording it, and the commands that come after.

use vstd::prelude::*;

use crate::request::{Reply, ReplyView, Request, RequestView};
use crate::shell::{trace_spawn, trace_steps};
use crate::task::{
    add_task, add_tasks, ask, asked, caused, fail, fail_because, failed, log_message, logged,
    no_tasks, one_task, steps_view, tell, told, Handler, HandlerView, Session, SessionView, Stage,
    Steps, StepsView, Task, TaskView,
};
use crate::text::{cat2, cat3, cat4, debug_number, optional_number};

verus! {

/// The path of an entry of a directory.
pub open spec fn entry(directory: Seq<char>, name: Seq<char>) -> Seq<char> {
    if directory.len() == 0 {
        name
    } else if directory.last() == '/' {
        directory + name
    } else {
        directory + "/"@ + name
    }
}

/// The activation script of a system configuration.
pub open spec fn activation_script(system_config: Seq<char>) -> Seq<char> {
    entry(system_config, "activate"@)
}

/// The path of the activation script of a system configuration.
pub fn activate_path(system_config: &str) -> (r: String)
    ensures
        r@ == activation_script(system_config@),
{
    let n: usize = system_config.unicode_len();
    if n == 0 {
        "activate".to_owned()
    } else if system_config.get_char(n - 1) == '/' {
        cat2(system_config, "activate")
    } else {
        cat3(system_config, "/", "activate")
    }
}

// ---------------------------------------------------------------------------------------------
// The system configuration.
// ---------------------------------------------------------------------------------------------

/// What follows from whether the system configuration exists.
pub open spec fn system_config_steps(system_config: Seq<char>, exists_already: bool) -> StepsView {
    if exists_already {
        Ok(Seq::empty())
    } else {
        failed("System configuration path does not exist: "@ + system_config)
    }
}

/// A system configuration that does not exist ends the sequence.
pub fn check_system_config(system_config: &str, exists_already: bool) -> (r: Steps)
    ensures
        steps_view(r) == system_config_steps(system_config@, exists_already),
{
    if exists_already {
        Ok(no_tasks())
    } else {
        fail(cat2("System configuration path does not exist: ", system_config))
    }
}

// ---------------------------------------------------------------------------------------------
// Activation.
// ---------------------------------------------------------------------------------------------

/// What follows from whether there is an activation script.
pub open spec fn maybe_activation_steps(
    system_config: Seq<char>,
    strict: bool,
    exists_already: bool,
) -> StepsView {
    if exists_already {
        Ok(
            seq![
                asked(
                    Stage::Activation,
                    RequestView::PathExists { path: activation_script(system_config) },
                    HandlerView::ActivationStillExists { system_config },
                ),
            ],
        )
    } else if strict {
        failed("system config at "@ + system_config + " has no activate script"@)
    } else {
        Ok(
            seq![
                told(
                    Stage::Activation,
                    RequestView::Warn {
                        text: "system config at "@ + system_config
                            + " has no activate script; skipping activation"@,
                    },
                ),
            ],
        )
    }
}

/// Activates the system configuration if it has an activation script.  One that has none is an
/// error if activation is strict, and is warned of otherwise.
pub fn maybe_run_activation_script(
    system_config: &str,
    strict_activation: bool,
    exists_already: bool,
) -> (r: Steps)
    ensures
        steps_view(r) == maybe_activation_steps(system_config@, strict_activation, exists_already),
{
    if !exists_already {
        if strict_activation {
            return fail(cat3("system config at ", system_config, " has no activate script"));
        }
        return Ok(
            one_task(
                tell(
                    Stage::Activation,
                    Request::Warn {
                        text: cat3(
                            "system config at ",
                            system_config,
                            " has no activate script; skipping activation",
                        ),
                    },
                ),
            ),
        );
    }
    Ok(
        one_task(
            ask(
                Stage::Activation,
                Request::PathExists { path: activate_path(system_config) },
                Handler::ActivationStillExists { system_config: system_config.to_owned() },
            ),
        ),
    )
}

/// A missing activation script is an error exactly if activation is strict, and one that is there
/// never is.
pub proof fn law_only_strict_activation_needs_a_script(
    system_config: Seq<char>,
    strict: bool,
    exists_already: bool,
)
    ensures
        maybe_activation_steps(system_config, strict, exists_already) is Err <==> strict
            && !exists_already,
{
}

/// The steps that run the activation script, given whether it is there.
pub open spec fn activation_steps(
    system_config: Seq<char>,
    exists_already: bool,
    session: SessionView,
) -> StepsView {
    let script = activation_script(system_config);
    if exists_already {
        Ok(
            seq![
                logged(
                    Stage::Activation,
                    session,
                    "stage-2-init: running activation script: "@ + script,
                ),
                told(
                    Stage::Activation,
                    RequestView::SetEnv { name: "NIXOS_SYSTEM_CONFIG"@, value: system_config },
                ),
            ] + trace_steps(Stage::Activation, session, script, Seq::empty()) + seq![
                asked(
                    Stage::Activation,
                    RequestView::Spawn { program: script, args: Seq::empty(), stdin: None },
                    HandlerView::ActivationRun { script },
                ),
            ],
        )
    } else {
        failed("Activation script not found: "@ + script)
    }
}

/// Runs the activation script, with the system configuration in its environment.
pub fn run_activation_script(
    system_config: &str,
    exists_already: bool,
    session: &Session,
) -> (r: Steps)
    ensures
        steps_view(r) == activation_steps(system_config@, exists_already, session@),
{
    let script = activate_path(system_config);
    if !exists_already {
        return fail(cat2("Activation script not found: ", script.as_str()));
    }
    let mut tasks = one_task(
        log_message(
            Stage::Activation,
            session,
            cat2("stage-2-init: running activation script: ", script.as_str()),
        ),
    );
    add_task(
        &mut tasks,
        tell(
            Stage::Activation,
            Request::SetEnv {
                name: "NIXOS_SYSTEM_CONFIG".to_owned(),
                value: system_config.to_owned(),
            },
        ),
    );
    let args: Vec<String> = Vec::new();
    assert(args.deep_view() =~= Seq::empty());
    let trace = trace_spawn(Stage::Activation, session, script.as_str(), &args);
    add_tasks(&mut tasks, trace);
    add_task(
        &mut tasks,
        ask(
            Stage::Activation,
            Request::Spawn { program: script.clone(), args, stdin: None },
            Handler::ActivationRun { script },
        ),
    );
    assert(tasks.deep_view() =~= activation_steps(system_config@, exists_already, session@)->Ok_0);
    Ok(tasks)
}

/// What the end of the activation script leads to.
pub open spec fn activation_run_steps(script: Seq<char>, reply: ReplyView) -> StepsView {
    match reply {
        ReplyView::Failed { reason } => caused(
            "Failed to execute activation script: "@ + script,
            reason,
        ),
        ReplyView::Exited { success: false, code, .. } => Ok(
            seq![
                told(
                    Stage::Activation,
                    RequestView::Warn {
                        text: "Activation script exited with code "@ + optional_number(code)
                            + " (continuing)"@,
                    },
                ),
            ],
        ),
        _ => Ok(Seq::empty()),
    }
}

/// An activation script that cannot be run ends the sequence; one that fails is warned of, since
/// parts of it can fail on a valid configuration.
pub fn activation_run(script: &str, reply: Reply) -> (r: Steps)
    ensures
        steps_view(r) == activation_run_steps(script@, reply@),
{
    match reply {
        Reply::Failed { reason } => fail_because(
            cat2("Failed to execute activation script: ", script),
            reason,
        ),
        Reply::Exited { success, code, .. } => {
            if success {
                Ok(no_tasks())
            } else {
                Ok(
                    one_task(
                        tell(
                            Stage::Activation,
                            Request::Warn {
                                text: cat3(
                                    "Activation script exited with code ",
                                    debug_number(code).as_str(),
                                    " (continuing)",
                                ),
                            },
                        ),
                    ),
                )
            }
        },
        _ => Ok(no_tasks()),
    }
}

// ---------------------------------------------------------------------------------------------
// The record of what was booted.
// ---------------------------------------------------------------------------------------------

/// The steps that record which system configuration was booted.
pub open spec fn boot_record_steps(
    system_config: Seq<char>,
    atomic: bool,
    session: SessionView,
) -> Seq<TaskView> {
    seq![
        logged(
            Stage::BootRecord,
            session,
            "stage-2-init: recording boot configuration: /run/booted-system -> "@ + system_config,
        ),
        asked(
            Stage::BootRecord,
            RequestView::Symlink { target: system_config, link: "/run/booted-system"@, atomic },
            HandlerView::BootRecorded { system_config },
        ),
    ]
}

/// Points `/run/booted-system` to the system configuration: by a simple link, unless links are to
/// be replaced in one step.
pub fn record_boot_config(system_config: &str, atomic: bool, session: &Session) -> (r: Vec<Task>)
    ensures
        r.deep_view() == boot_record_steps(system_config@, atomic, session@),
{
    let mut tasks = one_task(
        log_message(
            Stage::BootRecord,
            session,
            cat2(
                "stage-2-init: recording boot configuration: /run/booted-system -> ",
                system_config,
            ),
        ),
    );
    add_task(
        &mut tasks,
        ask(
            Stage::BootRecord,
            Request::Symlink {
                target: system_config.to_owned(),
                link: "/run/booted-system".to_owned(),
                atomic,
            },
            Handler::BootRecorded { system_config: system_config.to_owned() },
        ),
    );
    assert(tasks.deep_view() =~= boot_record_steps(system_config@, atomic, session@));
    tasks
}

/// What the outcome of that record leads to.
pub open spec fn boot_recorded_steps(system_config: Seq<char>, reply: ReplyView) -> StepsView {
    match reply.failure() {
        Some(reason) => caused(
            "Failed to create symlink: /run/booted-system -> "@ + system_config,
            reason,
        ),
        None => Ok(Seq::empty()),
    }
}

/// A system configuration that cannot be recorded ends the sequence.
pub fn boot_recorded(system_config: &str, reply: Reply) -> (r: Steps)
    ensures
        steps_view(r) == boot_recorded_steps(system_config@, reply@),
{
    match reply.failure() {
        Some(reason) => fail_because(
            cat2("Failed to create symlink: /run/booted-system -> ", system_config),
            reason,
        ),
        None => Ok(no_tasks()),
    }
}

// ---------------------------------------------------------------------------------------------
// Post-boot commands.
// ---------------------------------------------------------------------------------------------

/// The arguments with which the shell runs the post-boot commands.
pub open spec fn post_boot_args(commands: Seq<char>, tracing: bool) -> Seq<Seq<char>> {
    if tracing {
        seq!["-x"@, commands]
    } else {
        seq![commands]
    }
}

/// The steps that run the post-boot commands, given whether they are there.
pub open spec fn post_boot_steps(
    shell: Seq<char>,
    commands: Seq<char>,
    exists_already: bool,
    session: SessionView,
) -> Seq<TaskView> {
    let args = post_boot_args(commands, session.tracing);
    if exists_already {
        seq![
            logged(
                Stage::PostBoot,
                session,
                "stage-2-init: running post-boot commands: "@ + shell + " "@ + commands,
            ),
        ] + trace_steps(Stage::PostBoot, session, shell, args) + seq![
            asked(
                Stage::PostBoot,
                RequestView::Spawn { program: shell, args, stdin: None },
                HandlerView::PostBootRun { shell, commands },
            ),
        ]
    } else {
        Seq::empty()
    }
}

/// Runs the post-boot commands, always through the shell: their file need not be executable.
pub fn run_post_boot_commands(
    shell: &str,
    commands: &str,
    exists_already: bool,
    session: &Session,
) -> (r: Vec<Task>)
    ensures
        r.deep_view() == post_boot_steps(shell@, commands@, exists_already, session@),
{
    if !exists_already {
        return no_tasks();
    }
    let mut tasks = one_task(
        log_message(
            Stage::PostBoot,
            session,
            cat4("stage-2-init: running post-boot commands: ", shell, " ", commands),
        ),
    );
    let args: Vec<String> = if session.tracing {
        vec!["-x".to_owned(), commands.to_owned()]
    } else {
        vec![commands.to_owned()]
    };
    assert(args.deep_view() =~= post_boot_args(commands@, session@.tracing));
    let trace = trace_spawn(Stage::PostBoot, session, shell, &args);
    add_tasks(&mut tasks, trace);
    add_task(
        &mut tasks,
        ask(
            Stage::PostBoot,
            Request::Spawn { program: shell.to_owned(), args, stdin: None },
            Handler::PostBootRun { shell: shell.to_owned(), commands: commands.to_owned() },
        ),
    );
    assert(tasks.deep_view() =~= post_boot_steps(shell@, commands@, exists_already, session@));
    tasks
}

/// What the end of the post-boot commands leads to.
pub open spec fn post_boot_run_steps(
    shell: Seq<char>,
    commands: Seq<char>,
    reply: ReplyView,
    session: SessionView,
) -> StepsView {
    match reply {
        ReplyView::Failed { reason } => caused(
            "Failed to execute post-boot commands: "@ + shell + " "@ + commands,
            reason,
        ),
        ReplyView::Exited { success: false, code, .. } => Ok(
            seq![
                logged(
                    Stage::PostBoot,
                    session,
                    "stage-2-init: warning: post-boot commands failed with exit code: "@
                        + optional_number(code),
                ),
            ],
        ),
        _ => Ok(Seq::empty()),
    }
}

/// Post-boot commands that cannot be run end the sequence; if they fail, that is logged.
pub fn post_boot_run(shell: &str, commands: &str, reply: Reply, session: &Session) -> (r: Steps)
    ensures
        steps_view(r) == post_boot_run_steps(shell@, commands@, reply@, session@),
{
    match reply {
        Reply::Failed { reason } => fail_because(
            cat4("Failed to execute post-boot commands: ", shell, " ", commands),
            reason,
        ),
        Reply::Exited { success, code, .. } => {
            if success {
                Ok(no_tasks())
            } else {
                Ok(
                    one_task(
                        log_message(
                            Stage::PostBoot,
                            session,
                            cat2(
                                "stage-2-init: warning: post-boot commands failed with exit code: ",
                                debug_number(code).as_str(),
                            ),
                        ),
                    ),
                )
            }
        },
        _ => Ok(no_tasks()),
    }
}

} // verus!
