//! Handing the machine over to its init process.

use vstd::prelude::*;

use crate::request::{Reply, ReplyView, Request, RequestView};
use crate::task::{
    add_task, ask, asked, no_tasks, one_task, tell, told, Handler, HandlerView, Stage, Task,
    TaskView,
};
use crate::text::{cat4, debug_list, list_debug};

verus! {

/// The variables that configure the boot sequence and that init is not to see.
pub open spec fn private_variables() -> Seq<Seq<char>> {
    seq![
        "SYSTEM_CONFIG"@,
        "STAGE2_GREETING"@,
        "NIX_STORE_MOUNT_OPTS"@,
        "POST_BOOT_COMMANDS"@,
        "USE_HOST_RESOLV_CONF"@,
        "STAGE2_PATH"@,
        "SYSTEMD_EXECUTABLE"@,
        "EARLY_MOUNT_SCRIPT"@,
    ]
}

/// The step that removes one variable from the environment.
pub open spec fn removal(name: Seq<char>) -> TaskView {
    told(Stage::Handoff, RequestView::RemoveEnv { name })
}

/// The steps that remove the variables that init is not to see.
pub open spec fn removals() -> Seq<TaskView> {
    private_variables().map_values(|name: Seq<char>| removal(name))
}

/// The steps that replace this process by init.
pub open spec fn handoff_steps(program: Seq<char>, args: Seq<Seq<char>>) -> Seq<TaskView> {
    seq![
        told(
            Stage::Handoff,
            RequestView::Info {
                text: "Exec-ing systemd: "@ + program + " "@ + list_debug(args),
            },
        ),
        asked(Stage::Handoff, RequestView::ProcessId, HandlerView::InitPid),
    ] + removals() + seq![
        asked(
            Stage::Handoff,
            RequestView::Exec { program, args },
            HandlerView::InitFailed { program },
        ),
    ]
}

fn removal_of(name: &str) -> (r: Task)
    ensures
        r@ == removal(name@),
{
    tell(Stage::Handoff, Request::RemoveEnv { name: name.to_owned() })
}

/// The steps that replace this process by init.
pub fn handoff_tasks(program: &str, args: Vec<String>) -> (r: Vec<Task>)
    ensures
        r.deep_view() == handoff_steps(program@, args.deep_view()),
{
    let mut tasks = one_task(
        tell(
            Stage::Handoff,
            Request::Info {
                text: cat4("Exec-ing systemd: ", program, " ", debug_list(&args).as_str()),
            },
        ),
    );
    add_task(&mut tasks, ask(Stage::Handoff, Request::ProcessId, Handler::InitPid));
    let ghost start = tasks.deep_view();
    add_task(&mut tasks, removal_of("SYSTEM_CONFIG"));
    add_task(&mut tasks, removal_of("STAGE2_GREETING"));
    add_task(&mut tasks, removal_of("NIX_STORE_MOUNT_OPTS"));
    add_task(&mut tasks, removal_of("POST_BOOT_COMMANDS"));
    add_task(&mut tasks, removal_of("USE_HOST_RESOLV_CONF"));
    add_task(&mut tasks, removal_of("STAGE2_PATH"));
    add_task(&mut tasks, removal_of("SYSTEMD_EXECUTABLE"));
    add_task(&mut tasks, removal_of("EARLY_MOUNT_SCRIPT"));
    assert(tasks.deep_view() =~= start + removals());
    add_task(
        &mut tasks,
        ask(
            Stage::Handoff,
            Request::Exec { program: program.to_owned(), args },
            Handler::InitFailed { program: program.to_owned() },
        ),
    );
    assert(tasks.deep_view() =~= handoff_steps(program@, args.deep_view()));
    tasks
}

/// What the number of this process leads to.
pub open spec fn init_pid_steps(reply: ReplyView) -> Seq<TaskView> {
    match reply {
        ReplyView::Pid { pid } => if pid == 1 {
            Seq::empty()
        } else {
            seq![
                told(
                    Stage::Handoff,
                    RequestView::Warn { text: "Not running as PID 1, but continuing anyway"@ },
                ),
            ]
        },
        _ => Seq::empty(),
    }
}

/// Warns of a process that is not the first one.
pub fn init_pid(reply: Reply) -> (r: Vec<Task>)
    ensures
        r.deep_view() == init_pid_steps(reply@),
{
    match reply {
        Reply::Pid { pid } => {
            if pid == 1 {
                no_tasks()
            } else {
                one_task(
                    tell(
                        Stage::Handoff,
                        Request::Warn {
                            text: "Not running as PID 1, but continuing anyway".to_owned(),
                        },
                    ),
                )
            }
        },
        _ => no_tasks(),
    }
}

/// What is done when init could not be started: a shell, and if there is none either, the end.
pub open spec fn init_failed_steps(program: Seq<char>, reply: ReplyView) -> Seq<TaskView> {
    let reason = match reply.failure() {
        Some(reason) => reason,
        None => Seq::empty(),
    };
    seq![
        told(
            Stage::Handoff,
            RequestView::PrintError {
                text: "FATAL: Failed to exec systemd at "@ + program + ": "@ + reason,
            },
        ),
        told(Stage::Handoff, RequestView::Exec { program: "/bin/sh"@, args: Seq::empty() }),
        told(Stage::Handoff, RequestView::Exit { code: 1 }),
    ]
}

/// Falls back to a shell, and exits if there is none either.
pub fn init_failed(program: &str, reply: Reply) -> (r: Vec<Task>)
    ensures
        r.deep_view() == init_failed_steps(program@, reply@),
{
    let reason = match reply.failure() {
        Some(reason) => reason,
        None => String::new(),
    };
    let mut tasks = one_task(
        tell(
            Stage::Handoff,
            Request::PrintError {
                text: cat4("FATAL: Failed to exec systemd at ", program, ": ", reason.as_str()),
            },
        ),
    );
    let args: Vec<String> = Vec::new();
    assert(args.deep_view() =~= Seq::empty());
    add_task(
        &mut tasks,
        tell(Stage::Handoff, Request::Exec { program: "/bin/sh".to_owned(), args }),
    );
    add_task(&mut tasks, tell(Stage::Handoff, Request::Exit { code: 1 }));
    assert(tasks.deep_view() =~= init_failed_steps(program@, reply@));
    tasks
}

} // verus!
