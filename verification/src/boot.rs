//! The boot sequence: what is found out first, and the stages that follow.

use vstd::prelude::*;

use crate::activation::{activate_path, activation_script, boot_record_steps, record_boot_config};
use crate::files::{create_required_directories, required_directories_steps};
use crate::request::{Reply, ReplyView, Request, RequestView};
use crate::stdio::{capture_stdio, capture_step};
use crate::task::{
    add_task, add_tasks, ask, asked, log_message, logged, no_tasks, one_task, tell, told, Args,
    ArgsView, Handler, HandlerView, Session, SessionView, Stage, Task, TaskView,
};
use crate::text::{cat2, find_word, has_word, same_text};

verus! {

// ---------------------------------------------------------------------------------------------
// Setting up.
// ---------------------------------------------------------------------------------------------

/// The log file, where its directory could be created.
pub open spec fn log_file(created: bool) -> Option<Seq<char>> {
    if created {
        Some("/run/log/stage-2-init.log"@)
    } else {
        None
    }
}

/// Settles on a log file, given whether its directory could be created.
pub fn setup_logging(created: bool) -> (r: Option<String>)
    ensures
        r.deep_view() == log_file(created),
{
    if created {
        Some("/run/log/stage-2-init.log".to_owned())
    } else {
        None
    }
}

/// The first step of the boot sequence: the directory of the log file.
pub open spec fn first_step(args: ArgsView) -> TaskView {
    asked(
        Stage::Setup,
        RequestView::CreateDirectory { path: "/run/log"@ },
        HandlerView::LogDirectory { args },
    )
}

/// The first step of the boot sequence.
pub(crate) fn first_task(args: Args) -> (r: Task)
    ensures
        r@ == first_step(args@),
{
    ask(
        Stage::Setup,
        Request::CreateDirectory { path: "/run/log".to_owned() },
        Handler::LogDirectory { args },
    )
}

/// The steps that set the search path for programs.
pub open spec fn path_steps(path: Seq<char>) -> Seq<TaskView> {
    seq![
        told(Stage::Setup, RequestView::Info { text: "Setting PATH to: "@ + path }),
        told(Stage::Setup, RequestView::SetEnv { name: "PATH"@, value: path }),
    ]
}

/// Sets the search path for programs.
pub fn setup_path(path: &str) -> (r: Vec<Task>)
    ensures
        r.deep_view() == path_steps(path@),
{
    let mut tasks = one_task(
        tell(Stage::Setup, Request::Info { text: cat2("Setting PATH to: ", path) }),
    );
    add_task(
        &mut tasks,
        tell(Stage::Setup, Request::SetEnv { name: "PATH".to_owned(), value: path.to_owned() }),
    );
    assert(tasks.deep_view() =~= path_steps(path@));
    tasks
}

/// The steps that greet, set the search path, and ask whether systemd ran the first stage.
pub open spec fn greeting_steps(args: ArgsView, session: SessionView) -> Seq<TaskView> {
    seq![
        told(Stage::Setup, RequestView::Print { text: args.greeting }),
        logged(Stage::Setup, session, "stage-2-init: "@ + args.greeting),
    ] + path_steps(args.path) + seq![
        asked(
            Stage::Setup,
            RequestView::ReadEnv { name: "IN_NIXOS_SYSTEMD_STAGE1"@ },
            HandlerView::SystemdStage1 { args },
        ),
    ]
}

/// Greets, sets the search path, and asks whether systemd ran the first stage.
pub fn greet(args: Args, session: &Session) -> (r: Vec<Task>)
    ensures
        r.deep_view() == greeting_steps(args@, session@),
{
    let ghost view = args@;
    let mut tasks = one_task(tell(Stage::Setup, Request::Print { text: args.greeting.clone() }));
    add_task(
        &mut tasks,
        log_message(Stage::Setup, session, cat2("stage-2-init: ", args.greeting.as_str())),
    );
    let path = setup_path(args.path.as_str());
    add_tasks(&mut tasks, path);
    add_task(
        &mut tasks,
        ask(
            Stage::Setup,
            Request::ReadEnv { name: "IN_NIXOS_SYSTEMD_STAGE1".to_owned() },
            Handler::SystemdStage1 { args },
        ),
    );
    assert(tasks.deep_view() =~= greeting_steps(view, session@));
    tasks
}

// ---------------------------------------------------------------------------------------------
// What runs us, and how.
// ---------------------------------------------------------------------------------------------

/// The answer says that systemd ran the first stage.
pub open spec fn in_systemd_stage1(reply: ReplyView) -> bool {
    reply == (ReplyView::Text { content: Some("true"@) })
}

/// The steps that follow from whether systemd ran the first stage.
pub open spec fn systemd_stage1_steps(
    args: ArgsView,
    reply: ReplyView,
    session: SessionView,
) -> Seq<TaskView> {
    only_if(
        in_systemd_stage1(reply),
        seq![
            logged(
                Stage::Setup,
                session,
                "stage-2-init: running in systemd stage 1 mode, skipping early mount setup"@,
            ),
        ],
    ) + seq![
        asked(
            Stage::Setup,
            RequestView::ReadFile { path: "/proc/cmdline"@ },
            HandlerView::KernelCommandLine { args, after_systemd: in_systemd_stage1(reply) },
        ),
    ]
}

/// Takes note of whether systemd ran the first stage, and looks at the kernel command line either
/// way.
pub fn systemd_stage1(args: Args, reply: Reply, session: &Session) -> (r: Vec<Task>)
    ensures
        r.deep_view() == systemd_stage1_steps(args@, reply@, session@),
{
    let ghost view = args@;
    let after_systemd = match &reply {
        Reply::Text { content: Some(text) } => same_text(text.as_str(), "true"),
        _ => false,
    };
    assert(after_systemd == in_systemd_stage1(reply@));
    let mut tasks = no_tasks();
    if after_systemd {
        add_task(
            &mut tasks,
            log_message(
                Stage::Setup,
                session,
                "stage-2-init: running in systemd stage 1 mode, skipping early mount setup".to_owned(),
            ),
        );
    }
    add_task(
        &mut tasks,
        ask(
            Stage::Setup,
            Request::ReadFile { path: "/proc/cmdline".to_owned() },
            Handler::KernelCommandLine { args, after_systemd },
        ),
    );
    assert(tasks.deep_view() =~= systemd_stage1_steps(view, reply@, session@));
    tasks
}

/// The kernel command line, if it could be read, has the flag as one of its words.
pub open spec fn has_flag(cmdline: Option<Seq<char>>, flag: Seq<char>) -> bool {
    match cmdline {
        Some(text) => has_word(text, flag),
        None => false,
    }
}

/// Does the kernel command line hold a bare flag?  Only a whole word counts: neither the start of
/// one nor the key of a setting does.
pub fn has_kernel_cmdline_flag(cmdline: &Option<String>, flag: &str) -> (r: bool)
    ensures
        r == has_flag(cmdline.deep_view(), flag@),
{
    match cmdline {
        Some(text) => find_word(text.as_str(), flag),
        None => false,
    }
}

/// The answer says that the boot is to be traced.
pub open spec fn traces(reply: ReplyView) -> bool {
    match reply {
        ReplyView::Text { content } => has_flag(content, "boot.debugtrace"@),
        _ => false,
    }
}

/// The steps that follow from the kernel command line.
pub open spec fn command_line_steps(
    args: ArgsView,
    after_systemd: bool,
    reply: ReplyView,
    session: SessionView,
) -> Seq<TaskView> {
    if traces(reply) {
        seq![
            told(Stage::Setup, RequestView::EnableTracing),
            told(Stage::Setup, RequestView::SetEnv { name: "SHELLOPTS"@, value: "xtrace"@ }),
            logged(
                Stage::Setup,
                session,
                "stage-2-init: boot.debugtrace set; xtrace + subprocess tracing enabled"@,
            ),
        ] + stages(args, after_systemd, session)
    } else {
        stages(args, after_systemd, session)
    }
}

/// Turns tracing on if the kernel command line asks for it, and goes on with the stages.
pub fn kernel_command_line(
    args: Args,
    after_systemd: bool,
    reply: Reply,
    session: &mut Session,
) -> (r: Vec<Task>)
    ensures
        final(session)@ == (SessionView {
            tracing: old(session)@.tracing || traces(reply@),
            ..old(session)@
        }),
        r.deep_view() == command_line_steps(args@, after_systemd, reply@, final(session)@),
{
    let traced = match &reply {
        Reply::Text { content } => has_kernel_cmdline_flag(content, "boot.debugtrace"),
        _ => false,
    };
    if traced {
        session.tracing = true;
        let mut tasks = one_task(tell(Stage::Setup, Request::EnableTracing));
        add_task(
            &mut tasks,
            tell(
                Stage::Setup,
                Request::SetEnv { name: "SHELLOPTS".to_owned(), value: "xtrace".to_owned() },
            ),
        );
        add_task(
            &mut tasks,
            log_message(
                Stage::Setup,
                session,
                "stage-2-init: boot.debugtrace set; xtrace + subprocess tracing enabled".to_owned(),
            ),
        );
        let rest = boot_stages(args, after_systemd, session);
        add_tasks(&mut tasks, rest);
        assert(tasks.deep_view() =~= command_line_steps(args@, after_systemd, reply@, session@));
        tasks
    } else {
        boot_stages(args, after_systemd, session)
    }
}

// ---------------------------------------------------------------------------------------------
// The stages.
// ---------------------------------------------------------------------------------------------

/// The steps, if they are to be taken at all.
pub open spec fn only_if(wanted: bool, steps: Seq<TaskView>) -> Seq<TaskView> {
    if wanted {
        steps
    } else {
        Seq::empty()
    }
}

/// The question that begins the remount of the root file system.
pub open spec fn remount_stage() -> Seq<TaskView> {
    seq![
        asked(
            Stage::RemountRoot,
            RequestView::HasEnv { name: "container"@ },
            HandlerView::Container,
        ),
    ]
}

/// The question that begins the early mounts.
pub open spec fn early_mounts_stage(script: Option<Seq<char>>) -> Seq<TaskView> {
    seq![
        asked(
            Stage::EarlyMounts,
            RequestView::PathExists { path: "/proc/1"@ },
            HandlerView::ProcMounted { early_script: script },
        ),
    ]
}

/// The question that begins the setup of the store.
pub open spec fn store_stage(options: Seq<char>) -> Seq<TaskView> {
    seq![
        asked(
            Stage::NixStore,
            RequestView::PathExists { path: "/nix/store"@ },
            HandlerView::StoreExists { options },
        ),
    ]
}

/// The question that begins the registration of the resolver configuration.
pub open spec fn resolv_conf_stage() -> Seq<TaskView> {
    seq![
        asked(
            Stage::ResolvConf,
            RequestView::PathExists { path: "/etc/resolv.conf"@ },
            HandlerView::ResolvConfExists,
        ),
    ]
}

/// The question whether there is a system configuration.
pub open spec fn system_config_stage(system_config: Seq<char>) -> Seq<TaskView> {
    seq![
        asked(
            Stage::SystemConfig,
            RequestView::PathExists { path: system_config },
            HandlerView::SystemConfigExists { system_config },
        ),
    ]
}

/// The question that begins the activation.
pub open spec fn activation_stage(system_config: Seq<char>, strict: bool) -> Seq<TaskView> {
    seq![
        asked(
            Stage::Activation,
            RequestView::PathExists { path: activation_script(system_config) },
            HandlerView::ActivationExists { system_config, strict },
        ),
    ]
}

/// The question that begins the post-boot commands, if there are any.
pub open spec fn post_boot_stage(commands: Option<Seq<char>>, shell: Seq<char>) -> Seq<TaskView> {
    match commands {
        Some(commands) => seq![
            asked(
                Stage::PostBoot,
                RequestView::PathExists { path: commands },
                HandlerView::PostBootExists { shell, commands },
            ),
        ],
        None => Seq::empty(),
    }
}

/// The line that ends the boot sequence.
pub open spec fn completed_stage(session: SessionView) -> Seq<TaskView> {
    seq![
        logged(
            Stage::Completed,
            session,
            "stage-2-init: activation complete, starting systemd"@,
        ),
    ]
}

/// The stages of the boot sequence.  After a first stage under systemd there is nothing left to
/// mount early, the resolver is configured, and standard output is already taken care of.
pub open spec fn stages(
    args: ArgsView,
    after_systemd: bool,
    session: SessionView,
) -> Seq<TaskView> {
    remount_stage() + only_if(!after_systemd, early_mounts_stage(args.early_mount_script))
        + store_stage(args.nix_store_mount_opts) + required_directories_steps(session) + only_if(
        args.use_host_resolv_conf && !after_systemd,
        resolv_conf_stage(),
    ) + system_config_stage(args.system_config) + only_if(!after_systemd, seq![capture_step()])
        + activation_stage(args.system_config, args.strict_activation) + boot_record_steps(
        args.system_config,
        args.atomic_symlinks,
        session,
    ) + post_boot_stage(args.post_boot_commands, args.post_boot_shell) + completed_stage(session)
}

/// The stages of the boot sequence.
pub fn boot_stages(args: Args, after_systemd: bool, session: &Session) -> (r: Vec<Task>)
    ensures
        r.deep_view() == stages(args@, after_systemd, session@),
{
    let mut tasks = one_task(
        ask(
            Stage::RemountRoot,
            Request::HasEnv { name: "container".to_owned() },
            Handler::Container,
        ),
    );
    let ghost acc = remount_stage();
    if !after_systemd {
        add_task(
            &mut tasks,
            ask(
                Stage::EarlyMounts,
                Request::PathExists { path: "/proc/1".to_owned() },
                Handler::ProcMounted { early_script: args.early_mount_script },
            ),
        );
    }
    let ghost acc = acc + only_if(!after_systemd, early_mounts_stage(args@.early_mount_script));
    assert(tasks.deep_view() =~= acc);
    add_task(
        &mut tasks,
        ask(
            Stage::NixStore,
            Request::PathExists { path: "/nix/store".to_owned() },
            Handler::StoreExists { options: args.nix_store_mount_opts },
        ),
    );
    let ghost acc = acc + store_stage(args@.nix_store_mount_opts);
    assert(tasks.deep_view() =~= acc);
    let directories = create_required_directories(session);
    add_tasks(&mut tasks, directories);
    let ghost acc = acc + required_directories_steps(session@);
    assert(tasks.deep_view() =~= acc);
    if args.use_host_resolv_conf && !after_systemd {
        add_task(
            &mut tasks,
            ask(
                Stage::ResolvConf,
                Request::PathExists { path: "/etc/resolv.conf".to_owned() },
                Handler::ResolvConfExists,
            ),
        );
    }
    let ghost acc = acc + only_if(
        args@.use_host_resolv_conf && !after_systemd,
        resolv_conf_stage(),
    );
    assert(tasks.deep_view() =~= acc);
    add_task(
        &mut tasks,
        ask(
            Stage::SystemConfig,
            Request::PathExists { path: args.system_config.clone() },
            Handler::SystemConfigExists { system_config: args.system_config.clone() },
        ),
    );
    let ghost acc = acc + system_config_stage(args@.system_config);
    assert(tasks.deep_view() =~= acc);
    if !after_systemd {
        add_task(&mut tasks, capture_stdio());
    }
    let ghost acc = acc + only_if(!after_systemd, seq![capture_step()]);
    assert(tasks.deep_view() =~= acc);
    add_task(
        &mut tasks,
        ask(
            Stage::Activation,
            Request::PathExists { path: activate_path(args.system_config.as_str()) },
            Handler::ActivationExists {
                system_config: args.system_config.clone(),
                strict: args.strict_activation,
            },
        ),
    );
    let ghost acc = acc + activation_stage(args@.system_config, args@.strict_activation);
    assert(tasks.deep_view() =~= acc);
    let record = record_boot_config(
        args.system_config.as_str(),
        args.atomic_symlinks,
        session,
    );
    add_tasks(&mut tasks, record);
    let ghost acc = acc + boot_record_steps(
        args@.system_config,
        args@.atomic_symlinks,
        session@,
    );
    assert(tasks.deep_view() =~= acc);
    let ghost acc = acc + post_boot_stage(args@.post_boot_commands, args@.post_boot_shell);
    if let Some(commands) = args.post_boot_commands {
        add_task(
            &mut tasks,
            ask(
                Stage::PostBoot,
                Request::PathExists { path: commands.clone() },
                Handler::PostBootExists { shell: args.post_boot_shell, commands },
            ),
        );
    }
    assert(tasks.deep_view() =~= acc);
    add_task(
        &mut tasks,
        log_message(
            Stage::Completed,
            session,
            "stage-2-init: activation complete, starting systemd".to_owned(),
        ),
    );
    assert(tasks.deep_view() =~= acc + completed_stage(session@));
    tasks
}

/// The steps that follow from whether this is a container.
pub open spec fn container_steps(in_container: bool) -> Seq<TaskView> {
    if in_container {
        Seq::empty()
    } else {
        seq![
            asked(
                Stage::RemountRoot,
                RequestView::MountOptions { path: "/"@ },
                HandlerView::RootOptions,
            ),
        ]
    }
}

/// Leaves the root file system of a container alone, and looks at the options of any other.
pub fn remount_unless_container(in_container: bool) -> (r: Vec<Task>)
    ensures
        r.deep_view() == container_steps(in_container),
{
    if in_container {
        no_tasks()
    } else {
        one_task(
            ask(
                Stage::RemountRoot,
                Request::MountOptions { path: "/".to_owned() },
                Handler::RootOptions,
            ),
        )
    }
}

} // verus!
