//! The mounts that come first: the root file system for writing, then the special file systems.

use nix::mount::MsFlags;
use vstd::prelude::*;

use crate::flags::{
    flag_bits, law_a_remount_is_for_writing, remount_bits, remount_flags_from_options, Attribute,
    Operation,
};
use crate::request::{Reply, ReplyView, Request, RequestView};
use crate::shell::{early_mount_commands, early_mount_wrapper, trace_spawn, trace_steps};
use crate::task::{
    add_task, add_tasks, ask, asked, caused, fail, fail_because, failed, log_message, logged,
    no_tasks, one_task, steps_view, Handler, HandlerView, Session, SessionView,
    SpecialFs, Stage, Steps, StepsView, Task, TaskView,
};
use crate::text::{cat2, cat4};

verus! {

// ---------------------------------------------------------------------------------------------
// The root file system.
// ---------------------------------------------------------------------------------------------

/// The steps that remount the root file system for writing, given its options if they are known.
pub open spec fn remount_root_steps(
    options: Option<Seq<Seq<char>>>,
    session: SessionView,
) -> Seq<TaskView> {
    let kept = match options {
        Some(opts) => remount_bits(opts),
        None => Set::<nat>::empty(),
    };
    seq![
        logged(Stage::RemountRoot, session, "stage-2-init: remounting / read-write"@),
        asked(
            Stage::RemountRoot,
            RequestView::Mount {
                source: None,
                target: "/"@,
                fstype: None,
                flags: set![Operation::Remount.bit()].union(kept),
                data: None,
            },
            HandlerView::RootRemounted,
        ),
    ]
}

/// Remounts the root file system for writing and keeps its other properties, as far as they could
/// be found out.
pub fn remount_root_rw(options: &Option<Vec<String>>, session: &Session) -> (r: Vec<Task>)
    ensures
        r.deep_view() == remount_root_steps(options.deep_view(), session@),
{
    let kept = match options {
        Some(opts) => remount_flags_from_options(opts.as_slice()),
        None => MsFlags::empty(),
    };
    let flags = Operation::Remount.flag().union(kept);
    let mut tasks = one_task(
        log_message(
            Stage::RemountRoot,
            session,
            "stage-2-init: remounting / read-write".to_owned(),
        ),
    );
    add_task(
        &mut tasks,
        ask(
            Stage::RemountRoot,
            Request::Mount {
                source: None,
                target: "/".to_owned(),
                fstype: None,
                flags,
                data: None,
            },
            Handler::RootRemounted,
        ),
    );
    assert(tasks.deep_view() =~= remount_root_steps(options.deep_view(), session@));
    tasks
}

/// The root file system is remounted in place, and always for writing.
pub proof fn law_the_root_becomes_writable(options: Option<Seq<Seq<char>>>, session: SessionView)
    ensures
        remount_root_steps(options, session).last().request matches RequestView::Mount {
            target,
            flags,
            ..
        } && target == "/"@ && flags.contains(Operation::Remount.bit()) && !flags.contains(
            Attribute::ReadOnly.bit(),
        ),
{
    if let Some(opts) = options {
        law_a_remount_is_for_writing(opts);
    }
}

/// What the outcome of that remount leads to.
pub open spec fn root_remounted_steps(reply: ReplyView) -> StepsView {
    match reply.failure() {
        Some(reason) => caused("mount -o remount,rw / failed"@, reason),
        None => Ok(Seq::empty()),
    }
}

/// A root file system that cannot be remounted ends the sequence.
pub fn root_remounted(reply: Reply) -> (r: Steps)
    ensures
        steps_view(r) == root_remounted_steps(reply@),
{
    match reply.failure() {
        Some(reason) => fail_because("mount -o remount,rw / failed".to_owned(), reason),
        None => Ok(no_tasks()),
    }
}

// ---------------------------------------------------------------------------------------------
// The early mount script.
// ---------------------------------------------------------------------------------------------

/// The arguments with which the shell runs a command text.
pub open spec fn shell_args(command: Seq<char>) -> Seq<Seq<char>> {
    seq!["-c"@, command]
}

/// The steps that source the early mount script.
pub open spec fn early_mount_steps(script: Seq<char>, session: SessionView) -> Seq<TaskView> {
    let args = shell_args(early_mount_commands(script, session.tracing));
    seq![
        logged(
            Stage::EarlyMountScript,
            session,
            "stage-2-init: sourcing early mount script: "@ + script,
        ),
    ] + trace_steps(Stage::EarlyMountScript, session, "/bin/sh"@, args) + seq![
        asked(
            Stage::EarlyMountScript,
            RequestView::Spawn { program: "/bin/sh"@, args, stdin: None },
            HandlerView::EarlyScriptRun { script },
        ),
    ]
}

/// Sources the early mount script in a shell that has the helper it relies on.
pub fn run_early_mount_script(script: &str, session: &Session) -> (r: Vec<Task>)
    ensures
        r.deep_view() == early_mount_steps(script@, session@),
{
    let wrapper = early_mount_wrapper(script, session.tracing);
    let args = vec!["-c".to_owned(), wrapper];
    assert(args.deep_view() =~= shell_args(early_mount_commands(script@, session@.tracing)));
    let mut tasks = one_task(
        log_message(
            Stage::EarlyMountScript,
            session,
            cat2("stage-2-init: sourcing early mount script: ", script),
        ),
    );
    let trace = trace_spawn(Stage::EarlyMountScript, session, "/bin/sh", &args);
    add_tasks(&mut tasks, trace);
    add_task(
        &mut tasks,
        ask(
            Stage::EarlyMountScript,
            Request::Spawn { program: "/bin/sh".to_owned(), args, stdin: None },
            Handler::EarlyScriptRun { script: script.to_owned() },
        ),
    );
    assert(tasks.deep_view() =~= early_mount_steps(script@, session@));
    tasks
}

/// What the end of the early mount script leads to.
pub open spec fn early_script_run_steps(script: Seq<char>, reply: ReplyView) -> StepsView {
    match reply {
        ReplyView::Failed { reason } => caused(
            "Failed to invoke /bin/sh to run "@ + script,
            reason,
        ),
        ReplyView::Exited { success: false, text, .. } => failed(
            "early mount script "@ + script + " exited with status "@ + text,
        ),
        _ => Ok(Seq::empty()),
    }
}

/// An early mount script that cannot be run, or that fails, ends the sequence.
pub fn early_script_run(script: &str, reply: Reply) -> (r: Steps)
    ensures
        steps_view(r) == early_script_run_steps(script@, reply@),
{
    match reply {
        Reply::Failed { reason } => fail_because(
            cat2("Failed to invoke /bin/sh to run ", script),
            reason,
        ),
        Reply::Exited { success, text, .. } => {
            if success {
                Ok(no_tasks())
            } else {
                fail(cat4("early mount script ", script, " exited with status ", text.as_str()))
            }
        },
        _ => Ok(no_tasks()),
    }
}

// ---------------------------------------------------------------------------------------------
// The special file systems.
// ---------------------------------------------------------------------------------------------

impl SpecialFs {
    /// Where the file system is mounted.
    pub open spec fn spec_target(self) -> Seq<char> {
        match self {
            SpecialFs::Proc => "/proc"@,
            SpecialFs::Dev => "/dev"@,
            SpecialFs::Sys => "/sys"@,
            SpecialFs::DevPts => "/dev/pts"@,
            SpecialFs::DevShm => "/dev/shm"@,
        }
    }

    /// The type of the file system, which is also given as its source.
    pub open spec fn spec_fstype(self) -> Seq<char> {
        match self {
            SpecialFs::Proc => "proc"@,
            SpecialFs::Dev => "devtmpfs"@,
            SpecialFs::Sys => "sysfs"@,
            SpecialFs::DevPts => "devpts"@,
            SpecialFs::DevShm => "tmpfs"@,
        }
    }

    /// Whether programs on the file system cannot be run.
    pub open spec fn is_noexec(self) -> bool {
        self != SpecialFs::DevShm
    }

    /// Whether device nodes on the file system are dead.
    pub open spec fn is_nodev(self) -> bool {
        self != SpecialFs::Dev && self != SpecialFs::DevPts
    }

    /// The properties of the mount.
    pub open spec fn spec_flags(self) -> Set<nat> {
        Set::new(
            |b: nat|
                {
                    ||| b == Attribute::NoSuid.bit()
                    ||| b == Attribute::NoExec.bit() && self.is_noexec()
                    ||| b == Attribute::NoDev.bit() && self.is_nodev()
                },
        )
    }

    /// The options that are for the file system itself.
    pub open spec fn spec_data(self) -> Option<Seq<char>> {
        match self {
            SpecialFs::DevPts => Some("mode=620,ptmxmode=0666"@),
            SpecialFs::DevShm => Some("mode=1777"@),
            _ => None,
        }
    }

    fn target(self) -> (r: &'static str)
        ensures
            r@ == self.spec_target(),
    {
        match self {
            SpecialFs::Proc => "/proc",
            SpecialFs::Dev => "/dev",
            SpecialFs::Sys => "/sys",
            SpecialFs::DevPts => "/dev/pts",
            SpecialFs::DevShm => "/dev/shm",
        }
    }

    fn fstype(self) -> (r: &'static str)
        ensures
            r@ == self.spec_fstype(),
    {
        match self {
            SpecialFs::Proc => "proc",
            SpecialFs::Dev => "devtmpfs",
            SpecialFs::Sys => "sysfs",
            SpecialFs::DevPts => "devpts",
            SpecialFs::DevShm => "tmpfs",
        }
    }

    fn flags(self) -> (r: MsFlags)
        ensures
            flag_bits(r) == self.spec_flags(),
    {
        let mut flags = Attribute::NoSuid.flag();
        if self != SpecialFs::DevShm {
            flags = flags.union(Attribute::NoExec.flag());
        }
        // Device nodes have to work below /dev.
        if self != SpecialFs::Dev && self != SpecialFs::DevPts {
            flags = flags.union(Attribute::NoDev.flag());
        }
        assert(flag_bits(flags) =~= self.spec_flags());
        flags
    }

    fn data(self) -> (r: Option<String>)
        ensures
            r.deep_view() == self.spec_data(),
    {
        match self {
            SpecialFs::DevPts => Some("mode=620,ptmxmode=0666".to_owned()),
            SpecialFs::DevShm => Some("mode=1777".to_owned()),
            _ => None,
        }
    }
}

/// A special file system never lends privileges, and device nodes work on those below `/dev` that
/// are made of them, and on no other.
pub proof fn law_special_mounts_lend_no_privileges(fs: SpecialFs)
    ensures
        fs.spec_flags().contains(Attribute::NoSuid.bit()),
        fs.spec_flags().contains(Attribute::NoDev.bit()) <==> fs != SpecialFs::Dev && fs
            != SpecialFs::DevPts,
        !fs.spec_flags().contains(Attribute::ReadOnly.bit()),
{
}

/// The question whether a special file system is mounted already.
pub open spec fn special_question(fs: SpecialFs) -> TaskView {
    asked(
        Stage::SpecialFilesystems,
        RequestView::IsMounted { path: fs.spec_target() },
        HandlerView::SpecialMounted { fs },
    )
}

/// The steps that mount the special file systems.
pub open spec fn special_filesystems_steps(session: SessionView) -> Seq<TaskView> {
    seq![
        logged(Stage::SpecialFilesystems, session, "stage-2-init: mounting special filesystems"@),
        special_question(SpecialFs::Proc),
        special_question(SpecialFs::Dev),
        special_question(SpecialFs::Sys),
        special_question(SpecialFs::DevPts),
        special_question(SpecialFs::DevShm),
    ]
}

fn question(fs: SpecialFs) -> (r: Task)
    ensures
        r@ == special_question(fs),
{
    ask(
        Stage::SpecialFilesystems,
        Request::IsMounted { path: fs.target().to_owned() },
        Handler::SpecialMounted { fs },
    )
}

/// Mounts each of the special file systems that is not mounted yet.
pub fn mount_special_filesystems(session: &Session) -> (r: Vec<Task>)
    ensures
        r.deep_view() == special_filesystems_steps(session@),
{
    let mut tasks = one_task(
        log_message(
            Stage::SpecialFilesystems,
            session,
            "stage-2-init: mounting special filesystems".to_owned(),
        ),
    );
    add_task(&mut tasks, question(SpecialFs::Proc));
    add_task(&mut tasks, question(SpecialFs::Dev));
    add_task(&mut tasks, question(SpecialFs::Sys));
    add_task(&mut tasks, question(SpecialFs::DevPts));
    add_task(&mut tasks, question(SpecialFs::DevShm));
    assert(tasks.deep_view() =~= special_filesystems_steps(session@));
    tasks
}

/// The steps for one special file system, given whether it is mounted.
pub open spec fn special_mounted_steps(fs: SpecialFs, mounted: bool) -> Seq<TaskView> {
    if mounted {
        Seq::empty()
    } else {
        seq![
            asked(
                Stage::SpecialFilesystems,
                RequestView::CreateDirectory { path: fs.spec_target() },
                HandlerView::SpecialDirectory,
            ),
            asked(
                Stage::SpecialFilesystems,
                RequestView::Mount {
                    source: Some(fs.spec_fstype()),
                    target: fs.spec_target(),
                    fstype: Some(fs.spec_fstype()),
                    flags: fs.spec_flags(),
                    data: fs.spec_data(),
                },
                HandlerView::SpecialMount { fs },
            ),
        ]
    }
}

/// Mounts a special file system, unless it is mounted.
pub fn special_mounted(fs: SpecialFs, mounted: bool) -> (r: Vec<Task>)
    ensures
        r.deep_view() == special_mounted_steps(fs, mounted),
{
    if mounted {
        return no_tasks();
    }
    let mut tasks = one_task(
        ask(
            Stage::SpecialFilesystems,
            Request::CreateDirectory { path: fs.target().to_owned() },
            Handler::SpecialDirectory,
        ),
    );
    add_task(
        &mut tasks,
        ask(
            Stage::SpecialFilesystems,
            Request::Mount {
                source: Some(fs.fstype().to_owned()),
                target: fs.target().to_owned(),
                fstype: Some(fs.fstype().to_owned()),
                flags: fs.flags(),
                data: fs.data(),
            },
            Handler::SpecialMount { fs },
        ),
    );
    assert(tasks.deep_view() =~= special_mounted_steps(fs, mounted));
    tasks
}

/// What the outcome of creating a mount point leads to.
pub open spec fn special_directory_steps(reply: ReplyView) -> StepsView {
    match reply.failure() {
        Some(reason) => failed(reason),
        None => Ok(Seq::empty()),
    }
}

/// A mount point that cannot be created ends the sequence.
pub fn special_directory(reply: Reply) -> (r: Steps)
    ensures
        steps_view(r) == special_directory_steps(reply@),
{
    match reply.failure() {
        Some(reason) => fail(reason),
        None => Ok(no_tasks()),
    }
}

/// What the outcome of mounting a special file system leads to.
pub open spec fn special_mount_steps(fs: SpecialFs, reply: ReplyView) -> StepsView {
    match reply.failure() {
        Some(reason) => caused("Failed to mount "@ + fs.spec_target(), reason),
        None => Ok(Seq::empty()),
    }
}

/// A special file system that cannot be mounted ends the sequence.
pub fn special_mount(fs: SpecialFs, reply: Reply) -> (r: Steps)
    ensures
        steps_view(r) == special_mount_steps(fs, reply@),
{
    match reply.failure() {
        Some(reason) => fail_because(cat2("Failed to mount ", fs.target()), reason),
        None => Ok(no_tasks()),
    }
}

// ---------------------------------------------------------------------------------------------
// Which of the two.
// ---------------------------------------------------------------------------------------------

/// The steps that mount what the running system needs, given whether `/proc` is there already.
pub open spec fn early_mounts_steps(
    proc_mounted: bool,
    script: Option<Seq<char>>,
    session: SessionView,
) -> Seq<TaskView> {
    if proc_mounted {
        Seq::empty()
    } else {
        match script {
            Some(s) => early_mount_steps(s, session),
            None => seq![
                logged(
                    Stage::EarlyMounts,
                    session,
                    "stage-2-init: warning: no --early-mount-script; only mounting the hardcoded /proc, /dev, /sys, /dev/pts, /dev/shm set. Any additional boot.specialFileSystems entries will be absent."@,
                ),
            ] + special_filesystems_steps(session),
        }
    }
}

/// Mounts what the running system needs, unless an earlier stage has done so: by the script if
/// there is one, and otherwise by a short fixed list.
pub fn early_mounts(proc_mounted: bool, script: &Option<String>, session: &Session) -> (r: Vec<
    Task,
>)
    ensures
        r.deep_view() == early_mounts_steps(proc_mounted, script.deep_view(), session@),
{
    if proc_mounted {
        return no_tasks();
    }
    match script {
        Some(s) => run_early_mount_script(s.as_str(), session),
        None => {
            let mut tasks = one_task(
                log_message(
                    Stage::EarlyMounts,
                    session,
                    "stage-2-init: warning: no --early-mount-script; only mounting the hardcoded /proc, /dev, /sys, /dev/pts, /dev/shm set. Any additional boot.specialFileSystems entries will be absent.".to_owned(),
                ),
            );
            let mounts = mount_special_filesystems(session);
            add_tasks(&mut tasks, mounts);
            tasks
        },
    }
}

} // verus!
