//! Directories that have to exist, and the resolver configuration of the host.

use vstd::prelude::*;

use crate::request::{Reply, ReplyView, Request, RequestView};
use crate::shell::{trace_spawn, trace_steps};
use crate::task::{
    add_task, ask, asked, caused, fail_because, log_message, logged, no_tasks, one_task,
    steps_view, Handler, HandlerView, Session, SessionView, Stage, Steps, StepsView, Task,
    TaskView,
};
use crate::text::cat2;

verus! {

/// Everyone may create files, and only owners may remove them.
pub const TMP_MODE: u32 = 0o1777;

// ---------------------------------------------------------------------------------------------
// Directories.
// ---------------------------------------------------------------------------------------------

/// The directories that have to exist, in the order in which they are created.
pub open spec fn required_directories() -> Seq<Seq<char>> {
    seq!["/etc"@, "/etc/nixos"@, "/tmp"@, "/run/keys"@]
}

/// The steps that create one directory.
pub open spec fn directory_steps(path: Seq<char>, session: SessionView) -> Seq<TaskView> {
    seq![
        logged(Stage::Directories, session, "stage-2-init: creating directory "@ + path),
        asked(
            Stage::Directories,
            RequestView::CreateDirectory { path },
            HandlerView::DirectoryMade { path },
        ),
    ]
}

/// The steps that create each of the directories in turn.
pub open spec fn directories_steps(
    paths: Seq<Seq<char>>,
    session: SessionView,
) -> Seq<TaskView>
    decreases paths.len(),
{
    if paths.len() == 0 {
        Seq::empty()
    } else {
        directories_steps(paths.drop_last(), session) + directory_steps(paths.last(), session)
    }
}

/// The steps that create the directories that have to exist, and open up `/tmp`.
pub open spec fn required_directories_steps(session: SessionView) -> Seq<TaskView> {
    directories_steps(required_directories(), session).push(
        asked(
            Stage::Directories,
            RequestView::Chmod { path: "/tmp"@, mode: TMP_MODE },
            HandlerView::TmpMode,
        ),
    )
}

/// Creates the directories that have to exist, and lets everyone use `/tmp`.  To create one that is
/// there already does no harm.
pub fn create_required_directories(session: &Session) -> (r: Vec<Task>)
    ensures
        r.deep_view() == required_directories_steps(session@),
{
    let dirs: Vec<String> = vec![
        "/etc".to_owned(),
        "/etc/nixos".to_owned(),
        "/tmp".to_owned(),
        "/run/keys".to_owned(),
    ];
    let ghost paths = dirs.deep_view();
    assert(paths =~= required_directories());
    let mut tasks = no_tasks();
    let mut i: usize = 0;
    while i < dirs.len()
        invariant
            i <= dirs.len(),
            paths == dirs.deep_view(),
            tasks.deep_view() == directories_steps(paths.take(i as int), session@),
        decreases dirs.len() - i,
    {
        let ghost before = tasks.deep_view();
        let dir = &dirs[i];
        add_task(
            &mut tasks,
            log_message(
                Stage::Directories,
                session,
                cat2("stage-2-init: creating directory ", dir.as_str()),
            ),
        );
        add_task(
            &mut tasks,
            ask(
                Stage::Directories,
                Request::CreateDirectory { path: dir.clone() },
                Handler::DirectoryMade { path: dir.clone() },
            ),
        );
        assert(paths.take(i + 1).drop_last() =~= paths.take(i as int));
        assert(tasks.deep_view() =~= before + directory_steps(paths[i as int], session@));
        i += 1;
    }
    assert(paths.take(paths.len() as int) =~= paths);
    add_task(
        &mut tasks,
        ask(
            Stage::Directories,
            Request::Chmod { path: "/tmp".to_owned(), mode: TMP_MODE },
            Handler::TmpMode,
        ),
    );
    tasks
}

/// What the outcome of creating a directory leads to.
pub open spec fn directory_made_steps(path: Seq<char>, reply: ReplyView) -> StepsView {
    match reply.failure() {
        Some(reason) => caused("Failed to create directory: "@ + path, reason),
        None => Ok(Seq::empty()),
    }
}

/// A directory that cannot be created ends the sequence.
pub fn directory_made(path: &str, reply: Reply) -> (r: Steps)
    ensures
        steps_view(r) == directory_made_steps(path@, reply@),
{
    match reply.failure() {
        Some(reason) => fail_because(cat2("Failed to create directory: ", path), reason),
        None => Ok(no_tasks()),
    }
}

/// What the outcome of opening up `/tmp` leads to.
pub open spec fn tmp_mode_steps(reply: ReplyView) -> StepsView {
    match reply.failure() {
        Some(reason) => caused("Failed to chmod /tmp"@, reason),
        None => Ok(Seq::empty()),
    }
}

/// A `/tmp` that not everyone can use ends the sequence.
pub fn tmp_mode(reply: Reply) -> (r: Steps)
    ensures
        steps_view(r) == tmp_mode_steps(reply@),
{
    match reply.failure() {
        Some(reason) => fail_because("Failed to chmod /tmp".to_owned(), reason),
        None => Ok(no_tasks()),
    }
}

// ---------------------------------------------------------------------------------------------
// The resolver configuration.
// ---------------------------------------------------------------------------------------------

/// The arguments that register a configuration under the name of the host.
pub open spec fn resolvconf_args() -> Seq<Seq<char>> {
    seq!["-m"@, "1000"@, "-a"@, "host"@]
}

/// The steps that register the host's resolver configuration, given whether there is one.
pub open spec fn resolv_conf_steps(exists_already: bool, session: SessionView) -> Seq<TaskView> {
    if exists_already {
        trace_steps(Stage::ResolvConf, session, "resolvconf"@, resolvconf_args()) + seq![
            asked(
                Stage::ResolvConf,
                RequestView::Spawn {
                    program: "resolvconf"@,
                    args: resolvconf_args(),
                    stdin: Some("/etc/resolv.conf"@),
                },
                HandlerView::ResolvConfRun,
            ),
        ]
    } else {
        Seq::empty()
    }
}

/// Registers the host's resolver configuration, which a container finds at `/etc/resolv.conf`.
pub fn setup_resolv_conf(exists_already: bool, session: &Session) -> (r: Vec<Task>)
    ensures
        r.deep_view() == resolv_conf_steps(exists_already, session@),
{
    if !exists_already {
        return no_tasks();
    }
    let args = vec!["-m".to_owned(), "1000".to_owned(), "-a".to_owned(), "host".to_owned()];
    assert(args.deep_view() =~= resolvconf_args());
    let mut tasks = trace_spawn(Stage::ResolvConf, session, "resolvconf", &args);
    add_task(
        &mut tasks,
        ask(
            Stage::ResolvConf,
            Request::Spawn {
                program: "resolvconf".to_owned(),
                args,
                stdin: Some("/etc/resolv.conf".to_owned()),
            },
            Handler::ResolvConfRun,
        ),
    );
    assert(tasks.deep_view() =~= resolv_conf_steps(exists_already, session@));
    tasks
}

/// What the end of that registration leads to.
pub open spec fn resolv_conf_run_steps(reply: ReplyView, session: SessionView) -> StepsView {
    match reply {
        ReplyView::NoInput { reason } => caused(
            "Failed to open /etc/resolv.conf for resolvconf"@,
            reason,
        ),
        ReplyView::Exited { success: true, .. } => Ok(
            seq![
                logged(
                    Stage::ResolvConf,
                    session,
                    "stage-2-init: registered host resolv.conf via resolvconf"@,
                ),
            ],
        ),
        ReplyView::Exited { success: false, text, .. } => Ok(
            seq![
                logged(
                    Stage::ResolvConf,
                    session,
                    "stage-2-init: warning: resolvconf exited with "@ + text,
                ),
            ],
        ),
        ReplyView::Failed { reason } => Ok(
            seq![
                logged(
                    Stage::ResolvConf,
                    session,
                    "stage-2-init: warning: failed to invoke resolvconf: "@ + reason,
                ),
            ],
        ),
        _ => Ok(Seq::empty()),
    }
}

/// Logs how the registration went.  Only a configuration that cannot be read ends the sequence.
pub fn resolv_conf_run(reply: Reply, session: &Session) -> (r: Steps)
    ensures
        steps_view(r) == resolv_conf_run_steps(reply@, session@),
{
    let text = match reply {
        Reply::NoInput { reason } => {
            return fail_because(
                "Failed to open /etc/resolv.conf for resolvconf".to_owned(),
                reason,
            );
        },
        Reply::Exited { success, text, .. } => {
            if success {
                "stage-2-init: registered host resolv.conf via resolvconf".to_owned()
            } else {
                cat2("stage-2-init: warning: resolvconf exited with ", text.as_str())
            }
        },
        Reply::Failed { reason } => cat2(
            "stage-2-init: warning: failed to invoke resolvconf: ",
            reason.as_str(),
        ),
        _ => {
            return Ok(no_tasks());
        },
    };
    Ok(one_task(log_message(Stage::ResolvConf, session, text)))
}

} // verus!
