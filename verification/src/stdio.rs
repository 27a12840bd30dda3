//! Capturing standard output and standard error, so that what is run later is logged too.
//!
//! Capturing is for diagnosis only: whatever goes wrong with it is logged, and the boot goes on.

use vstd::prelude::*;

use crate::request::{Reply, ReplyView, Request, RequestView};
use crate::task::{
    add_tasks, ask, asked, log_message, logged, no_tasks, one_task, tell, told, Handler, HandlerView,
    SavedStdio, Session, SessionView, Stage, Task, TaskView,
};
use crate::text::{cat2, cat3, number, signed_decimal};

verus! {

/// The first step of a capture: copies of both descriptors, to get them back from.
pub open spec fn capture_step() -> TaskView {
    asked(Stage::CaptureStdio, RequestView::DuplicateStdio, HandlerView::StdioDuplicated)
}

/// Begins to capture standard output and standard error.
pub fn capture_stdio() -> (r: Task)
    ensures
        r@ == capture_step(),
{
    ask(Stage::CaptureStdio, Request::DuplicateStdio, Handler::StdioDuplicated)
}

/// The line that says that nothing is captured, and why.
pub open spec fn unavailable(session: SessionView, why: Seq<char>) -> Seq<TaskView> {
    seq![
        logged(
            Stage::CaptureStdio,
            session,
            "stage-2-init: warning: stdio capture unavailable: "@ + why,
        ),
    ]
}

fn log_unavailable(session: &Session, why: &str) -> (r: Vec<Task>)
    ensures
        r.deep_view() == unavailable(session@, why@),
{
    one_task(
        log_message(
            Stage::CaptureStdio,
            session,
            cat2("stage-2-init: warning: stdio capture unavailable: ", why),
        ),
    )
}

/// What the copies of the descriptors lead to.
pub open spec fn stdio_duplicated_steps(reply: ReplyView, session: SessionView) -> Seq<TaskView> {
    match reply {
        ReplyView::Duplicates { stdout, stderr, reason } => if stdout < 0 || stderr < 0 {
            unavailable(session, "dup of stdout/stderr failed: "@ + reason)
        } else {
            seq![
                asked(
                    Stage::CaptureStdio,
                    RequestView::CanAppend { path: "/dev/kmsg"@ },
                    HandlerView::KernelLog { saved: SavedStdio { stdout, stderr } },
                ),
            ]
        },
        _ => Seq::empty(),
    }
}

/// With copies of both descriptors, asks whether the kernel log can take what is captured.
pub fn stdio_duplicated(reply: Reply, session: &Session) -> (r: Vec<Task>)
    ensures
        r.deep_view() == stdio_duplicated_steps(reply@, session@),
{
    match reply {
        Reply::Duplicates { stdout, stderr, reason } => {
            if stdout < 0 || stderr < 0 {
                log_unavailable(
                    session,
                    cat2("dup of stdout/stderr failed: ", reason.as_str()).as_str(),
                )
            } else {
                one_task(
                    ask(
                        Stage::CaptureStdio,
                        Request::CanAppend { path: "/dev/kmsg".to_owned() },
                        Handler::KernelLog { saved: SavedStdio { stdout, stderr } },
                    ),
                )
            }
        },
        _ => no_tasks(),
    }
}

/// The commands that pass every line on to the saved standard output, and also write it to the
/// kernel log, or else to the log file.
pub open spec fn capture_commands(stdout: i32, kernel_log: bool) -> Seq<char> {
    if kernel_log {
        "set +x; exec tee -i /proc/self/fd/"@ + signed_decimal(stdout as int)
            + " | while IFS= read -r line; do if [ -n \"$line\" ]; then printf '<7>stage-2-init: %s\\n' \"$line\" > /dev/kmsg; fi; done"@
    } else {
        "set +x; mkdir -p /run/log && exec tee -i /proc/self/fd/"@ + signed_decimal(stdout as int)
            + " /run/log/stage-2-init.log"@
    }
}

fn capture_command(stdout: i32, kernel_log: bool) -> (r: String)
    ensures
        r@ == capture_commands(stdout, kernel_log),
{
    let fd = number(stdout);
    if kernel_log {
        cat3(
            "set +x; exec tee -i /proc/self/fd/",
            fd.as_str(),
            " | while IFS= read -r line; do if [ -n \"$line\" ]; then printf '<7>stage-2-init: %s\\n' \"$line\" > /dev/kmsg; fi; done",
        )
    } else {
        cat3(
            "set +x; mkdir -p /run/log && exec tee -i /proc/self/fd/",
            fd.as_str(),
            " /run/log/stage-2-init.log",
        )
    }
}

/// The step that starts the capture.
pub open spec fn kernel_log_steps(saved: SavedStdio, kernel_log: bool) -> Seq<TaskView> {
    seq![
        asked(
            Stage::CaptureStdio,
            RequestView::StartCapture { command: capture_commands(saved.stdout, kernel_log) },
            HandlerView::CaptureStarted { saved, kernel_log },
        ),
    ]
}

/// Starts the capture, into the kernel log if it can be written.
pub fn start_capture(saved: SavedStdio, kernel_log: bool) -> (r: Vec<Task>)
    ensures
        r.deep_view() == kernel_log_steps(saved, kernel_log),
{
    one_task(
        ask(
            Stage::CaptureStdio,
            Request::StartCapture { command: capture_command(saved.stdout, kernel_log) },
            Handler::CaptureStarted { saved, kernel_log },
        ),
    )
}

/// What the start of the capture leads to.
pub open spec fn capture_started_steps(
    saved: SavedStdio,
    kernel_log: bool,
    reply: ReplyView,
    session: SessionView,
) -> Seq<TaskView> {
    match reply {
        ReplyView::Failed { reason } => unavailable(
            session,
            "Failed to spawn stdio capture helper: "@ + reason,
        ),
        ReplyView::NoPipe => unavailable(session, "capture child missing stdin"@),
        _ => seq![
            asked(
                Stage::CaptureStdio,
                RequestView::RedirectStdio,
                HandlerView::StdioRedirected { saved, kernel_log },
            ),
        ],
    }
}

/// With the capture running, puts both descriptors onto its pipe.
pub fn capture_started(
    saved: SavedStdio,
    kernel_log: bool,
    reply: Reply,
    session: &Session,
) -> (r: Vec<Task>)
    ensures
        r.deep_view() == capture_started_steps(saved, kernel_log, reply@, session@),
{
    match reply {
        Reply::Failed { reason } => log_unavailable(
            session,
            cat2("Failed to spawn stdio capture helper: ", reason.as_str()).as_str(),
        ),
        Reply::NoPipe => log_unavailable(session, "capture child missing stdin"),
        _ => one_task(
            ask(
                Stage::CaptureStdio,
                Request::RedirectStdio,
                Handler::StdioRedirected { saved, kernel_log },
            ),
        ),
    }
}

/// What is captured once both descriptors have been put onto the pipe, or that failed.
pub open spec fn captured_after(saved: SavedStdio, reply: ReplyView) -> Option<SavedStdio> {
    match reply.failure() {
        Some(_) => None,
        None => Some(saved),
    }
}

/// The line that says where the capture goes, or why there is none.  In the second case the saved
/// descriptors are put back first, since one of the two may be on the pipe already.
pub open spec fn stdio_redirected_steps(
    saved: SavedStdio,
    kernel_log: bool,
    reply: ReplyView,
    session: SessionView,
) -> Seq<TaskView> {
    match reply.failure() {
        Some(reason) => seq![told(Stage::CaptureStdio, restoring(saved))] + unavailable(
            session,
            "dup2 onto stdio failed: "@ + reason,
        ),
        None => seq![
            logged(
                Stage::CaptureStdio,
                session,
                "stage-2-init: capturing stdio via "@ + if kernel_log {
                    "/dev/kmsg"@
                } else {
                    "/run/log/stage-2-init.log"@
                },
            ),
        ],
    }
}

/// Takes note of the descriptors that are to be restored, and says where the capture goes; or puts
/// them back at once, if they could not both be redirected.
pub fn stdio_redirected(
    saved: SavedStdio,
    kernel_log: bool,
    reply: Reply,
    session: &mut Session,
) -> (r: Vec<Task>)
    ensures
        final(session)@ == (SessionView {
            captured: captured_after(saved, reply@),
            ..old(session)@
        }),
        r.deep_view() == stdio_redirected_steps(saved, kernel_log, reply@, old(session)@),
{
    match reply.failure() {
        Some(reason) => {
            session.captured = None;
            let mut tasks = one_task(
                tell(
                    Stage::CaptureStdio,
                    Request::RestoreStdio { stdout: saved.stdout, stderr: saved.stderr },
                ),
            );
            let line = log_unavailable(
                session,
                cat2("dup2 onto stdio failed: ", reason.as_str()).as_str(),
            );
            add_tasks(&mut tasks, line);
            tasks
        },
        None => {
            session.captured = Some(saved);
            let to = if kernel_log {
                "/dev/kmsg"
            } else {
                "/run/log/stage-2-init.log"
            };
            one_task(
                log_message(
                    Stage::CaptureStdio,
                    session,
                    cat2("stage-2-init: capturing stdio via ", to),
                ),
            )
        },
    }
}

/// The request that gives standard output and standard error back.
pub open spec fn restoring(saved: SavedStdio) -> RequestView {
    RequestView::RestoreStdio { stdout: saved.stdout, stderr: saved.stderr }
}

/// The step that gives standard output and standard error back at the end.
pub open spec fn restore_step(saved: SavedStdio) -> TaskView {
    told(Stage::RestoreStdio, restoring(saved))
}

/// Gives standard output and standard error back.
pub fn restore_stdio(saved: SavedStdio) -> (r: Task)
    ensures
        r@ == restore_step(saved),
{
    tell(
        Stage::RestoreStdio,
        Request::RestoreStdio { stdout: saved.stdout, stderr: saved.stderr },
    )
}

// ---------------------------------------------------------------------------------------------
// The descriptors.
// ---------------------------------------------------------------------------------------------

/// The open files of a process: which file each of its descriptors refers to.
pub type Descriptors<File> = Map<int, File>;

/// The open files once standard output and standard error have been duplicated.
pub open spec fn copied<File>(files: Descriptors<File>, saved: SavedStdio) -> Descriptors<File> {
    files.insert(saved.stdout as int, files[1]).insert(saved.stderr as int, files[2])
}

/// The open files once standard output, standard error, or both of them have been put onto a pipe.
pub open spec fn redirected<File>(
    files: Descriptors<File>,
    pipe: File,
    output: bool,
    error: bool,
) -> Descriptors<File> {
    let first = if output {
        files.insert(1, pipe)
    } else {
        files
    };
    if error {
        first.insert(2, pipe)
    } else {
        first
    }
}

/// The open files once the saved descriptors have been put back, and the copies have been closed.
pub open spec fn restored<File>(files: Descriptors<File>, saved: SavedStdio) -> Descriptors<File> {
    files.insert(1, files[saved.stdout as int]).insert(2, files[saved.stderr as int]).remove(
        saved.stdout as int,
    ).remove(saved.stderr as int)
}

/// The descriptors come back as they were: whatever part of the redirection took place, standard
/// output and standard error then refer to the files that they referred to before the capture, each
/// to its own, the copies are closed, and no other descriptor has changed.
pub proof fn law_the_descriptors_come_back<File>(
    files: Descriptors<File>,
    saved: SavedStdio,
    pipe: File,
    output: bool,
    error: bool,
)
    requires
        files.contains_key(1),
        files.contains_key(2),
        !files.contains_key(saved.stdout as int),
        !files.contains_key(saved.stderr as int),
        saved.stdout != saved.stderr,
    ensures
        restored(redirected(copied(files, saved), pipe, output, error), saved) == files,
        !restored(redirected(copied(files, saved), pipe, output, error), saved).contains_key(
            saved.stdout as int,
        ),
        !restored(redirected(copied(files, saved), pipe, output, error), saved).contains_key(
            saved.stderr as int,
        ),
{
    assert(restored(redirected(copied(files, saved), pipe, output, error), saved) =~= files);
}

} // verus!
