//! The steps of the boot sequence: a request, and what its reply leads to.

use nix::mount::MsFlags;
use vstd::prelude::*;

use crate::flags::flag_bits;
use crate::request::{Request, RequestView};
use crate::text::copy_of;

verus! {

/// What the boot sequence is told to do.
#[derive(Debug)]
pub struct Args {
    /// The line that is printed first.
    pub greeting: String,
    /// The value of `PATH` for everything that is run.
    pub path: String,
    /// The system configuration to activate.
    pub system_config: String,
    /// The script that mounts the special file systems, if there is one.
    pub early_mount_script: Option<String>,
    /// The mount options for the store, separated by commas.
    pub nix_store_mount_opts: String,
    /// Register the host's `resolv.conf`.
    pub use_host_resolv_conf: bool,
    /// Treat a system configuration without an activation script as an error.
    pub strict_activation: bool,
    /// Replace links in one step.
    pub atomic_symlinks: bool,
    /// Commands to run once the system is activated, if there are any.
    pub post_boot_commands: Option<String>,
    /// The shell that runs those commands.
    pub post_boot_shell: String,
}

#[verifier::ext_equal]
pub struct ArgsView {
    pub greeting: Seq<char>,
    pub path: Seq<char>,
    pub system_config: Seq<char>,
    pub early_mount_script: Option<Seq<char>>,
    pub nix_store_mount_opts: Seq<char>,
    pub use_host_resolv_conf: bool,
    pub strict_activation: bool,
    pub atomic_symlinks: bool,
    pub post_boot_commands: Option<Seq<char>>,
    pub post_boot_shell: Seq<char>,
}

impl View for Args {
    type V = ArgsView;

    open spec fn view(&self) -> ArgsView {
        ArgsView {
            greeting: self.greeting@,
            path: self.path@,
            system_config: self.system_config@,
            early_mount_script: self.early_mount_script.deep_view(),
            nix_store_mount_opts: self.nix_store_mount_opts@,
            use_host_resolv_conf: self.use_host_resolv_conf,
            strict_activation: self.strict_activation,
            atomic_symlinks: self.atomic_symlinks,
            post_boot_commands: self.post_boot_commands.deep_view(),
            post_boot_shell: self.post_boot_shell@,
        }
    }
}

/// Nothing that a boot is told is lost or changed on the way into its view.
pub proof fn law_orders_are_seen_as_they_are(args: Args)
    ensures
        args@.greeting == args.greeting@,
        args@.path == args.path@,
        args@.system_config == args.system_config@,
        args@.early_mount_script == args.early_mount_script.deep_view(),
        args@.nix_store_mount_opts == args.nix_store_mount_opts@,
        args@.use_host_resolv_conf == args.use_host_resolv_conf,
        args@.strict_activation == args.strict_activation,
        args@.atomic_symlinks == args.atomic_symlinks,
        args@.post_boot_commands == args.post_boot_commands.deep_view(),
        args@.post_boot_shell == args.post_boot_shell@,
{
}

/// Standard output and standard error, as they were before they were captured.
#[derive(Clone, Copy, Debug, PartialEq, Eq, Structural)]
pub struct SavedStdio {
    pub stdout: i32,
    pub stderr: i32,
}

/// What the steps know of the process that runs them.
#[derive(Debug)]
pub struct Session {
    /// The log file, once its directory is known to exist.
    pub log_dest: Option<String>,
    /// Is every command to be traced?
    pub tracing: bool,
    /// Where to get standard output and standard error back from, while they are captured.
    pub captured: Option<SavedStdio>,
}

#[verifier::ext_equal]
pub struct SessionView {
    pub log_dest: Option<Seq<char>>,
    pub tracing: bool,
    pub captured: Option<SavedStdio>,
}

impl View for Session {
    type V = SessionView;

    open spec fn view(&self) -> SessionView {
        SessionView {
            log_dest: self.log_dest.deep_view(),
            tracing: self.tracing,
            captured: self.captured,
        }
    }
}

/// Why the boot sequence stopped short.
#[derive(Debug)]
pub struct BootError {
    /// What failed.
    pub message: String,
    /// Why it failed, where the system gave a reason of its own.
    pub cause: Option<String>,
}

#[verifier::ext_equal]
pub struct BootErrorView {
    pub message: Seq<char>,
    pub cause: Option<Seq<char>>,
}

impl View for BootError {
    type V = BootErrorView;

    open spec fn view(&self) -> BootErrorView {
        BootErrorView { message: self.message@, cause: self.cause.deep_view() }
    }
}

/// The parts of the boot sequence, in the order in which they come.
#[derive(Clone, Copy, Debug, PartialEq, Eq, Structural)]
pub enum Stage {
    Setup,
    RemountRoot,
    EarlyMounts,
    EarlyMountScript,
    SpecialFilesystems,
    NixStore,
    Directories,
    ResolvConf,
    SystemConfig,
    CaptureStdio,
    Activation,
    BootRecord,
    PostBoot,
    Completed,
    RestoreStdio,
    Handoff,
}

impl Stage {
    /// The place of the stage in the sequence.
    pub open spec fn rank(self) -> nat {
        match self {
            Stage::Setup => 0,
            Stage::RemountRoot => 1,
            Stage::EarlyMounts => 2,
            Stage::EarlyMountScript => 3,
            Stage::SpecialFilesystems => 4,
            Stage::NixStore => 5,
            Stage::Directories => 6,
            Stage::ResolvConf => 7,
            Stage::SystemConfig => 8,
            Stage::CaptureStdio => 9,
            Stage::Activation => 10,
            Stage::BootRecord => 11,
            Stage::PostBoot => 12,
            Stage::Completed => 13,
            Stage::RestoreStdio => 14,
            Stage::Handoff => 15,
        }
    }

    /// What an error of this stage is introduced with.
    pub open spec fn spec_context(self) -> Option<Seq<char>> {
        match self {
            Stage::RemountRoot => Some("Failed to remount / rw"@),
            Stage::EarlyMountScript => Some("Failed to run early mount script"@),
            Stage::SpecialFilesystems => Some("Failed to mount special filesystems"@),
            Stage::Directories => Some("Failed to create required directories"@),
            Stage::ResolvConf => Some("Failed to set up resolv.conf"@),
            Stage::Activation => Some("Activation script failed"@),
            Stage::BootRecord => Some("Failed to record boot configuration"@),
            Stage::PostBoot => Some("Post-boot commands failed"@),
            _ => None,
        }
    }

    /// What an error of this stage is introduced with, if it is introduced at all.
    pub fn context(self) -> (r: Option<&'static str>)
        ensures
            match self.spec_context() {
                Some(text) => r is Some && r->0@ == text,
                None => r is None,
            },
    {
        match self {
            Stage::RemountRoot => Some("Failed to remount / rw"),
            Stage::EarlyMountScript => Some("Failed to run early mount script"),
            Stage::SpecialFilesystems => Some("Failed to mount special filesystems"),
            Stage::Directories => Some("Failed to create required directories"),
            Stage::ResolvConf => Some("Failed to set up resolv.conf"),
            Stage::Activation => Some("Activation script failed"),
            Stage::BootRecord => Some("Failed to record boot configuration"),
            Stage::PostBoot => Some("Post-boot commands failed"),
            _ => None,
        }
    }
}

/// The file systems that are mounted where no script mounts them.
#[derive(Clone, Copy, Debug, PartialEq, Eq, Structural)]
pub enum SpecialFs {
    Proc,
    Dev,
    Sys,
    DevPts,
    DevShm,
}

/// What the reply to a request is for.
#[derive(Debug)]
pub enum Handler {
    /// Nothing depends on the reply.
    Ignore,
    LogDirectory { args: Args },
    SystemdStage1 { args: Args },
    KernelCommandLine { args: Args, after_systemd: bool },
    Container,
    RootOptions,
    RootRemounted,
    ProcMounted { early_script: Option<String> },
    EarlyScriptRun { script: String },
    SpecialMounted { fs: SpecialFs },
    SpecialDirectory,
    SpecialMount { fs: SpecialFs },
    StoreExists { options: String },
    StoreGroup,
    StoreOwner,
    StoreMode,
    StoreOptions { desired: Vec<String> },
    StoreContainer { flags: MsFlags, data: Vec<String> },
    StoreBound { flags: MsFlags, data: Vec<String> },
    StoreRemounted,
    DirectoryMade { path: String },
    TmpMode,
    ResolvConfExists,
    ResolvConfRun,
    SystemConfigExists { system_config: String },
    StdioDuplicated,
    KernelLog { saved: SavedStdio },
    CaptureStarted { saved: SavedStdio, kernel_log: bool },
    StdioRedirected { saved: SavedStdio, kernel_log: bool },
    ActivationExists { system_config: String, strict: bool },
    ActivationStillExists { system_config: String },
    ActivationRun { script: String },
    BootRecorded { system_config: String },
    PostBootExists { shell: String, commands: String },
    PostBootRun { shell: String, commands: String },
    InitPid,
    InitFailed { program: String },
}

#[verifier::ext_equal]
pub enum HandlerView {
    Ignore,
    LogDirectory { args: ArgsView },
    SystemdStage1 { args: ArgsView },
    KernelCommandLine { args: ArgsView, after_systemd: bool },
    Container,
    RootOptions,
    RootRemounted,
    ProcMounted { early_script: Option<Seq<char>> },
    EarlyScriptRun { script: Seq<char> },
    SpecialMounted { fs: SpecialFs },
    SpecialDirectory,
    SpecialMount { fs: SpecialFs },
    StoreExists { options: Seq<char> },
    StoreGroup,
    StoreOwner,
    StoreMode,
    StoreOptions { desired: Seq<Seq<char>> },
    StoreContainer { flags: Set<nat>, data: Seq<Seq<char>> },
    StoreBound { flags: Set<nat>, data: Seq<Seq<char>> },
    StoreRemounted,
    DirectoryMade { path: Seq<char> },
    TmpMode,
    ResolvConfExists,
    ResolvConfRun,
    SystemConfigExists { system_config: Seq<char> },
    StdioDuplicated,
    KernelLog { saved: SavedStdio },
    CaptureStarted { saved: SavedStdio, kernel_log: bool },
    StdioRedirected { saved: SavedStdio, kernel_log: bool },
    ActivationExists { system_config: Seq<char>, strict: bool },
    ActivationStillExists { system_config: Seq<char> },
    ActivationRun { script: Seq<char> },
    BootRecorded { system_config: Seq<char> },
    PostBootExists { shell: Seq<char>, commands: Seq<char> },
    PostBootRun { shell: Seq<char>, commands: Seq<char> },
    InitPid,
    InitFailed { program: Seq<char> },
}

impl View for Handler {
    type V = HandlerView;

    open spec fn view(&self) -> HandlerView {
        match *self {
            Handler::Ignore => HandlerView::Ignore,
            Handler::LogDirectory { args } => HandlerView::LogDirectory { args: args@ },
            Handler::SystemdStage1 { args } => HandlerView::SystemdStage1 { args: args@ },
            Handler::KernelCommandLine { args, after_systemd } => HandlerView::KernelCommandLine {
                args: args@,
                after_systemd,
            },
            Handler::Container => HandlerView::Container,
            Handler::RootOptions => HandlerView::RootOptions,
            Handler::RootRemounted => HandlerView::RootRemounted,
            Handler::ProcMounted { early_script } => HandlerView::ProcMounted {
                early_script: early_script.deep_view(),
            },
            Handler::EarlyScriptRun { script } => HandlerView::EarlyScriptRun { script: script@ },
            Handler::SpecialMounted { fs } => HandlerView::SpecialMounted { fs },
            Handler::SpecialDirectory => HandlerView::SpecialDirectory,
            Handler::SpecialMount { fs } => HandlerView::SpecialMount { fs },
            Handler::StoreExists { options } => HandlerView::StoreExists { options: options@ },
            Handler::StoreGroup => HandlerView::StoreGroup,
            Handler::StoreOwner => HandlerView::StoreOwner,
            Handler::StoreMode => HandlerView::StoreMode,
            Handler::StoreOptions { desired } => HandlerView::StoreOptions {
                desired: desired.deep_view(),
            },
            Handler::StoreContainer { flags, data } => HandlerView::StoreContainer {
                flags: flag_bits(flags),
                data: data.deep_view(),
            },
            Handler::StoreBound { flags, data } => HandlerView::StoreBound {
                flags: flag_bits(flags),
                data: data.deep_view(),
            },
            Handler::StoreRemounted => HandlerView::StoreRemounted,
            Handler::DirectoryMade { path } => HandlerView::DirectoryMade { path: path@ },
            Handler::TmpMode => HandlerView::TmpMode,
            Handler::ResolvConfExists => HandlerView::ResolvConfExists,
            Handler::ResolvConfRun => HandlerView::ResolvConfRun,
            Handler::SystemConfigExists { system_config } => HandlerView::SystemConfigExists {
                system_config: system_config@,
            },
            Handler::StdioDuplicated => HandlerView::StdioDuplicated,
            Handler::KernelLog { saved } => HandlerView::KernelLog { saved },
            Handler::CaptureStarted { saved, kernel_log } => HandlerView::CaptureStarted {
                saved,
                kernel_log,
            },
            Handler::StdioRedirected { saved, kernel_log } => HandlerView::StdioRedirected {
                saved,
                kernel_log,
            },
            Handler::ActivationExists { system_config, strict } => HandlerView::ActivationExists {
                system_config: system_config@,
                strict,
            },
            Handler::ActivationStillExists { system_config } =>
                HandlerView::ActivationStillExists { system_config: system_config@ },
            Handler::ActivationRun { script } => HandlerView::ActivationRun { script: script@ },
            Handler::BootRecorded { system_config } => HandlerView::BootRecorded {
                system_config: system_config@,
            },
            Handler::PostBootExists { shell, commands } => HandlerView::PostBootExists {
                shell: shell@,
                commands: commands@,
            },
            Handler::PostBootRun { shell, commands } => HandlerView::PostBootRun {
                shell: shell@,
                commands: commands@,
            },
            Handler::InitPid => HandlerView::InitPid,
            Handler::InitFailed { program } => HandlerView::InitFailed { program: program@ },
        }
    }
}

/// One step: a request, and what its reply is for.
#[derive(Debug)]
pub struct Task {
    pub stage: Stage,
    pub request: Request,
    pub handler: Handler,
}

#[verifier::ext_equal]
pub struct TaskView {
    pub stage: Stage,
    pub request: RequestView,
    pub handler: HandlerView,
}

impl View for Task {
    type V = TaskView;

    open spec fn view(&self) -> TaskView {
        TaskView { stage: self.stage, request: self.request@, handler: self.handler@ }
    }
}

impl DeepView for Task {
    type V = TaskView;

    open spec fn deep_view(&self) -> TaskView {
        self@
    }
}

/// What a reply leads to: more steps, or the end of the sequence.
pub type Steps = Result<Vec<Task>, BootError>;

/// [`Steps`] over views.
pub type StepsView = Result<Seq<TaskView>, BootErrorView>;

/// The view of [`Steps`].
pub open spec fn steps_view(steps: Steps) -> StepsView {
    match steps {
        Ok(tasks) => Ok(tasks.deep_view()),
        Err(error) => Err(error@),
    }
}

/// A step on whose reply nothing depends.
pub open spec fn told(stage: Stage, request: RequestView) -> TaskView {
    TaskView { stage, request, handler: HandlerView::Ignore }
}

/// A step whose reply decides what follows.
pub open spec fn asked(stage: Stage, request: RequestView, handler: HandlerView) -> TaskView {
    TaskView { stage, request, handler }
}

/// A line for the boot log.
pub open spec fn logged(stage: Stage, session: SessionView, text: Seq<char>) -> TaskView {
    told(stage, RequestView::Log { dest: session.log_dest, text })
}

/// An error with the reason that the system gave.
pub open spec fn caused(message: Seq<char>, cause: Seq<char>) -> StepsView {
    Err(BootErrorView { message, cause: Some(cause) })
}

/// An error without any further reason.
pub open spec fn failed(message: Seq<char>) -> StepsView {
    Err(BootErrorView { message, cause: None })
}

/// A step on whose reply nothing depends.
pub(crate) fn tell(stage: Stage, request: Request) -> (r: Task)
    ensures
        r@ == told(stage, request@),
{
    Task { stage, request, handler: Handler::Ignore }
}

/// A step whose reply decides what follows.
pub(crate) fn ask(stage: Stage, request: Request, handler: Handler) -> (r: Task)
    ensures
        r@ == asked(stage, request@, handler@),
{
    Task { stage, request, handler }
}

/// A line for the boot log.
pub(crate) fn log_message(stage: Stage, session: &Session, text: String) -> (r: Task)
    ensures
        r@ == logged(stage, session@, text@),
{
    tell(stage, Request::Log { dest: copy_of(&session.log_dest), text })
}

/// An error with the reason that the system gave.
pub(crate) fn fail_because(message: String, cause: String) -> (r: Steps)
    ensures
        steps_view(r) == caused(message@, cause@),
{
    Err(BootError { message, cause: Some(cause) })
}

/// An error without any further reason.
pub(crate) fn fail(message: String) -> (r: Steps)
    ensures
        steps_view(r) == failed(message@),
{
    Err(BootError { message, cause: None })
}

/// No steps.
pub(crate) fn no_tasks() -> (r: Vec<Task>)
    ensures
        r.deep_view() == Seq::<TaskView>::empty(),
{
    let out: Vec<Task> = Vec::new();
    assert(out.deep_view() =~= Seq::<TaskView>::empty());
    out
}

/// A single step.
pub(crate) fn one_task(task: Task) -> (r: Vec<Task>)
    ensures
        r.deep_view() == seq![task@],
{
    let mut out: Vec<Task> = Vec::new();
    out.push(task);
    assert(out.deep_view() =~= seq![task@]);
    out
}

/// Adds a step at the end.
pub(crate) fn add_task(tasks: &mut Vec<Task>, task: Task)
    ensures
        final(tasks).deep_view() == old(tasks).deep_view().push(task@),
{
    tasks.push(task);
    assert(tasks.deep_view() =~= old(tasks).deep_view().push(task@));
}

/// Adds a list of steps at the end.
pub(crate) fn add_tasks(tasks: &mut Vec<Task>, more: Vec<Task>)
    ensures
        final(tasks).deep_view() == old(tasks).deep_view() + more.deep_view(),
{
    let ghost first = tasks.deep_view();
    let ghost second = more.deep_view();
    let mut more = more;
    tasks.append(&mut more);
    assert(tasks.deep_view() =~= first + second);
}

} // verus!
