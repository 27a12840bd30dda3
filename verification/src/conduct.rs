//! What every boot does, and what it never does, whatever the replies are.

use vstd::prelude::*;

use crate::activation::activation_script;
use crate::boot::stages;
use crate::capture::{copied_at, deals_with, lemma_copied_before};
use crate::effects::{
    is_script_of, law_the_console_keeps_seeing_every_line, leads_to, line, passes_on, sources, st,
};
use crate::files::{directories_steps, directory_steps, required_directories};
use crate::machine::{booting, handing_off, session_after, steps_after, MachineView};
use crate::order::{in_place, is_scout, lemma_boot_ordered};
use crate::outcome::law_nothing_follows_a_failure;
use crate::request::{ReplyView, RequestView};
use crate::shell::{early_mount_commands, law_the_wrapper_sources_the_script};
use crate::store::option_list;
use crate::task::{ArgsView, HandlerView, SavedStdio, SessionView, Stage, TaskView};
use crate::text::list_debug;
use crate::trace::{after, asks, lemma_next, step};

verus! {

// ---------------------------------------------------------------------------------------------
// The plan.
// ---------------------------------------------------------------------------------------------

/// The line and the request that create a directory.
pub open spec fn creation(path: Seq<char>, session: SessionView) -> Seq<TaskView> {
    seq![
        line(Stage::Directories, session, "stage-2-init: creating directory "@ + path),
        st(
            Stage::Directories,
            RequestView::CreateDirectory { path },
            HandlerView::DirectoryMade { path },
        ),
    ]
}

/// A step that is planned under a condition.
pub open spec fn provided(condition: bool, task: TaskView) -> Seq<TaskView> {
    if condition {
        seq![task]
    } else {
        Seq::empty()
    }
}

/// What a boot plans once it knows whether systemd ran the first stage, and in which order.  Systemd
/// makes a difference for the early mounts, the resolver and the capture, and for nothing else.
pub proof fn law_the_plan_of_a_boot(args: ArgsView, after_systemd: bool, session: SessionView)
    ensures
        exists|script: Seq<char>| #[trigger]
            is_script_of(script, args.system_config) && stages(args, after_systemd, session)
                =~~= seq![
                st(
                    Stage::RemountRoot,
                    RequestView::HasEnv { name: "container"@ },
                    HandlerView::Container,
                ),
            ] + provided(
                !after_systemd,
                st(
                    Stage::EarlyMounts,
                    RequestView::PathExists { path: "/proc/1"@ },
                    HandlerView::ProcMounted { early_script: args.early_mount_script },
                ),
            ) + seq![
                st(
                    Stage::NixStore,
                    RequestView::PathExists { path: "/nix/store"@ },
                    HandlerView::StoreExists { options: args.nix_store_mount_opts },
                ),
            ] + creation("/etc"@, session) + creation("/etc/nixos"@, session) + creation(
                "/tmp"@,
                session,
            ) + creation("/run/keys"@, session) + seq![
                st(
                    Stage::Directories,
                    RequestView::Chmod { path: "/tmp"@, mode: 0o1777 },
                    HandlerView::TmpMode,
                ),
            ] + provided(
                args.use_host_resolv_conf && !after_systemd,
                st(
                    Stage::ResolvConf,
                    RequestView::PathExists { path: "/etc/resolv.conf"@ },
                    HandlerView::ResolvConfExists,
                ),
            ) + seq![
                st(
                    Stage::SystemConfig,
                    RequestView::PathExists { path: args.system_config },
                    HandlerView::SystemConfigExists { system_config: args.system_config },
                ),
            ] + provided(
                !after_systemd,
                st(
                    Stage::CaptureStdio,
                    RequestView::DuplicateStdio,
                    HandlerView::StdioDuplicated,
                ),
            ) + seq![
                st(
                    Stage::Activation,
                    RequestView::PathExists { path: script },
                    HandlerView::ActivationExists {
                        system_config: args.system_config,
                        strict: args.strict_activation,
                    },
                ),
                line(
                    Stage::BootRecord,
                    session,
                    "stage-2-init: recording boot configuration: /run/booted-system -> "@
                        + args.system_config,
                ),
                st(
                    Stage::BootRecord,
                    RequestView::Symlink {
                        target: args.system_config,
                        link: "/run/booted-system"@,
                        atomic: args.atomic_symlinks,
                    },
                    HandlerView::BootRecorded { system_config: args.system_config },
                ),
            ] + (match args.post_boot_commands {
                Some(commands) => seq![
                    st(
                        Stage::PostBoot,
                        RequestView::PathExists { path: commands },
                        HandlerView::PostBootExists { shell: args.post_boot_shell, commands },
                    ),
                ],
                None => Seq::empty(),
            }) + seq![
                line(
                    Stage::Completed,
                    session,
                    "stage-2-init: activation complete, starting systemd"@,
                ),
            ],
{
    assert(is_script_of(activation_script(args.system_config), args.system_config));
    let paths = required_directories();
    let p3 = paths.drop_last();
    let p2 = p3.drop_last();
    let p1 = p2.drop_last();
    assert(p1.drop_last() =~= Seq::<Seq<char>>::empty());
    reveal_with_fuel(directories_steps, 5);
    assert(directories_steps(paths, session) =~= creation("/etc"@, session) + creation(
        "/etc/nixos"@,
        session,
    ) + creation("/tmp"@, session) + creation("/run/keys"@, session));
}

/// A boot starts by creating the directory of its log, on behalf of what it was told, and traces its
/// commands from the start exactly if it was told so.
pub proof fn law_a_boot_starts_with_its_log(args: ArgsView, tracing: bool)
    ensures
        booting(args, tracing) =~~= (MachineView {
            session: SessionView { log_dest: None, tracing, captured: None },
            agenda: seq![
                st(
                    Stage::Setup,
                    RequestView::CreateDirectory { path: "/run/log"@ },
                    HandlerView::LogDirectory { args },
                ),
            ],
            failure: None,
        }),
{
}

// ---------------------------------------------------------------------------------------------
// What is planned is done.
// ---------------------------------------------------------------------------------------------

/// The step is taken, and there is a reply to it.
pub open spec fn taken(machine: MachineView, replies: Seq<ReplyView>, task: TaskView, k: int) -> bool {
    0 <= k < replies.len() && asks(machine, replies, k) && step(machine, replies, k) == task
}

/// The boot comes to its end, and without a failure.
pub open spec fn succeeds(machine: MachineView, replies: Seq<ReplyView>) -> bool {
    &&& after(machine, replies, replies.len() as int).finished()
    &&& after(machine, replies, replies.len() as int).failure is None
}

proof fn lemma_taken(
    args: ArgsView,
    tracing: bool,
    replies: Seq<ReplyView>,
    task: TaskView,
    k: int,
)
    requires
        0 <= k <= replies.len(),
        after(booting(args, tracing), replies, k).agenda.contains(task),
        succeeds(booting(args, tracing), replies),
    ensures
        exists|j: int| k <= j && #[trigger] taken(booting(args, tracing), replies, task, j),
    decreases replies.len() - k,
{
    let m = booting(args, tracing);
    let now = after(m, replies, k);
    let i = choose|i: int| 0 <= i < now.agenda.len() && now.agenda[i] == task;
    assert(k < replies.len());
    if i == 0 {
        assert(taken(m, replies, task, k));
    } else {
        lemma_next(m, replies, k);
        let next = after(m, replies, k + 1);
        if steps_after(now.agenda[0].handler, replies[k], now.session) is Err {
            assert(next.failure is Some);
            law_nothing_follows_a_failure(args, tracing, replies, k + 1, replies.len() as int);
        } else {
            let steps = steps_after(now.agenda[0].handler, replies[k], now.session)->Ok_0;
            let all = steps + now.agenda.skip(1);
            assert(all[steps.len() + i - 1] == task);
            assert(next.agenda == all);
            assert(next.agenda.contains(task));
            lemma_taken(args, tracing, replies, task, k + 1);
        }
    }
}

/// What a reply leads to is done, in a boot that succeeds.
pub proof fn law_what_a_reply_leads_to_is_done(
    args: ArgsView,
    tracing: bool,
    replies: Seq<ReplyView>,
    steps: Seq<TaskView>,
    task: TaskView,
    j: int,
)
    requires
        0 <= j < replies.len(),
        asks(booting(args, tracing), replies, j),
        leads_to(
            step(booting(args, tracing), replies, j).handler,
            replies[j],
            after(booting(args, tracing), replies, j).session,
            steps,
        ),
        steps.contains(task),
        succeeds(booting(args, tracing), replies),
    ensures
        exists|k: int| j < k && #[trigger] taken(booting(args, tracing), replies, task, k),
{
    let m = booting(args, tracing);
    let now = after(m, replies, j);
    lemma_next(m, replies, j);
    let found = steps_after(now.agenda[0].handler, replies[j], now.session)->Ok_0;
    assert(found =~~= steps);
    let n = choose|n: int| 0 <= n < steps.len() && steps[n] == task;
    let all = found + now.agenda.skip(1);
    assert(all[n] == task);
    assert(after(m, replies, j + 1).agenda == all);
    lemma_taken(args, tracing, replies, task, j + 1);
}

/// The step that asks whether systemd ran the first stage.
pub open spec fn systemd_question(args: ArgsView) -> TaskView {
    st(
        Stage::Setup,
        RequestView::ReadEnv { name: "IN_NIXOS_SYSTEMD_STAGE1"@ },
        HandlerView::SystemdStage1 { args },
    )
}

/// The step that reads the kernel command line.
pub open spec fn command_line_question(args: ArgsView, after_systemd: bool) -> TaskView {
    st(
        Stage::Setup,
        RequestView::ReadFile { path: "/proc/cmdline"@ },
        HandlerView::KernelCommandLine { args, after_systemd },
    )
}

/// Every boot that succeeds asks about systemd and then reads the kernel command line, knowing the
/// answer.
pub proof fn law_every_boot_finds_out_about_systemd(
    args: ArgsView,
    tracing: bool,
    replies: Seq<ReplyView>,
) -> (r: (int, int))
    requires
        succeeds(booting(args, tracing), replies),
    ensures
        taken(booting(args, tracing), replies, systemd_question(args), r.0),
        r.0 < r.1,
        taken(
            booting(args, tracing),
            replies,
            command_line_question(
                args,
                replies[r.0] == (ReplyView::Text { content: Some("true"@) }),
            ),
            r.1,
        ),
{
    let m = booting(args, tracing);
    assert(after(m, replies, 0) == m);
    assert(m.agenda[0].handler == (HandlerView::LogDirectory { args }));
    assert(replies.len() > 0);
    let q = systemd_question(args);
    let first = steps_after(m.agenda[0].handler, replies[0], m.session)->Ok_0;
    assert(first[4] == q);
    law_what_a_reply_leads_to_is_done(args, tracing, replies, first, q, 0);
    let j = choose|j: int| 0 < j && #[trigger] taken(m, replies, q, j);
    let now = after(m, replies, j);
    let second = steps_after(now.agenda[0].handler, replies[j], now.session)->Ok_0;
    let after_systemd = replies[j] == (ReplyView::Text { content: Some("true"@) });
    let c = command_line_question(args, after_systemd);
    assert(second[second.len() - 1] == c);
    law_what_a_reply_leads_to_is_done(args, tracing, replies, second, c, j);
    let k = choose|k: int| j < k && #[trigger] taken(m, replies, c, k);
    (j, k)
}

proof fn lemma_planned_is_done(
    args: ArgsView,
    tracing: bool,
    replies: Seq<ReplyView>,
    after_systemd: bool,
    task: TaskView,
    j: int,
)
    requires
        succeeds(booting(args, tracing), replies),
        taken(booting(args, tracing), replies, command_line_question(args, after_systemd), j),
        forall|session: SessionView|
            (#[trigger] stages(args, after_systemd, session)).contains(task),
    ensures
        exists|k: int| j < k && #[trigger] taken(booting(args, tracing), replies, task, k),
{
    let m = booting(args, tracing);
    let now = after(m, replies, j);
    let handler = now.agenda[0].handler;
    let known = session_after(handler, replies[j], now.session);
    let planned = stages(args, after_systemd, known);
    let steps = steps_after(handler, replies[j], now.session)->Ok_0;
    assert(planned.contains(task));
    let n = choose|n: int| 0 <= n < planned.len() && planned[n] == task;
    assert(steps[steps.len() - planned.len() + n] == task);
    law_what_a_reply_leads_to_is_done(args, tracing, replies, steps, task, j);
}

proof fn lemma_always_done(args: ArgsView, tracing: bool, replies: Seq<ReplyView>, task: TaskView)
    requires
        succeeds(booting(args, tracing), replies),
        forall|after_systemd: bool, session: SessionView|
            (#[trigger] stages(args, after_systemd, session)).contains(task),
    ensures
        exists|k: int| #[trigger] taken(booting(args, tracing), replies, task, k),
{
    let (i, j) = law_every_boot_finds_out_about_systemd(args, tracing, replies);
    let after_systemd = replies[i] == (ReplyView::Text { content: Some("true"@) });
    lemma_planned_is_done(args, tracing, replies, after_systemd, task, j);
}

/// The step that asks whether the store is there, holding the options that were ordered for it.
pub open spec fn store_question(args: ArgsView) -> TaskView {
    st(
        Stage::NixStore,
        RequestView::PathExists { path: "/nix/store"@ },
        HandlerView::StoreExists { options: args.nix_store_mount_opts },
    )
}

/// The step that looks at the options of the store's mount, holding those that were ordered.
pub open spec fn store_options_question(args: ArgsView) -> TaskView {
    st(
        Stage::NixStore,
        RequestView::MountOptions { path: "/nix/store"@ },
        HandlerView::StoreOptions { desired: option_list(args.nix_store_mount_opts) },
    )
}

/// Every boot that succeeds, after systemd or not, asks whether there is a store, with the very
/// options that were ordered; and where there is one, the options of its mount are held against all
/// of those.
pub proof fn law_every_boot_looks_after_the_store(
    args: ArgsView,
    tracing: bool,
    replies: Seq<ReplyView>,
)
    requires
        succeeds(booting(args, tracing), replies),
    ensures
        exists|j: int| #[trigger]
            taken(booting(args, tracing), replies, store_question(args), j) && (replies[j] == (
            ReplyView::Flag { value: true }) ==> exists|k: int|
                j < k && #[trigger] taken(
                    booting(args, tracing),
                    replies,
                    store_options_question(args),
                    k,
                )),
{
    let m = booting(args, tracing);
    let q = store_question(args);
    assert forall|after_systemd: bool, session: SessionView| true implies (#[trigger] stages(
        args,
        after_systemd,
        session,
    )).contains(q) by {
        let all = stages(args, after_systemd, session);
        let at: int = if after_systemd {
            1
        } else {
            2
        };
        assert(all[at] == q);
    }
    lemma_always_done(args, tracing, replies, q);
    let j = choose|j: int| #[trigger] taken(m, replies, q, j);
    if replies[j] == (ReplyView::Flag { value: true }) {
        let now = after(m, replies, j);
        let steps = steps_after(now.agenda[0].handler, replies[j], now.session)->Ok_0;
        assert(steps[3] == store_options_question(args));
        law_what_a_reply_leads_to_is_done(
            args,
            tracing,
            replies,
            steps,
            store_options_question(args),
            j,
        );
    }
}

/// Every boot that succeeds asks whether it is in a container, opens `/tmp` to everyone, asks for the
/// system configuration that was ordered, and for its activation script.
pub proof fn law_every_boot_goes_through_its_stages(
    args: ArgsView,
    tracing: bool,
    replies: Seq<ReplyView>,
)
    requires
        succeeds(booting(args, tracing), replies),
    ensures
        exists|k: int| #[trigger]
            taken(
                booting(args, tracing),
                replies,
                st(
                    Stage::RemountRoot,
                    RequestView::HasEnv { name: "container"@ },
                    HandlerView::Container,
                ),
                k,
            ),
        exists|k: int| #[trigger]
            taken(
                booting(args, tracing),
                replies,
                st(
                    Stage::Directories,
                    RequestView::Chmod { path: "/tmp"@, mode: 0o1777 },
                    HandlerView::TmpMode,
                ),
                k,
            ),
        exists|k: int| #[trigger]
            taken(
                booting(args, tracing),
                replies,
                st(
                    Stage::SystemConfig,
                    RequestView::PathExists { path: args.system_config },
                    HandlerView::SystemConfigExists { system_config: args.system_config },
                ),
                k,
            ),
        exists|k: int, script: Seq<char>|
            is_script_of(script, args.system_config) && #[trigger] taken(
                booting(args, tracing),
                replies,
                st(
                    Stage::Activation,
                    RequestView::PathExists { path: script },
                    HandlerView::ActivationExists {
                        system_config: args.system_config,
                        strict: args.strict_activation,
                    },
                ),
                k,
            ),
{
    let m = booting(args, tracing);
    let container = st(
        Stage::RemountRoot,
        RequestView::HasEnv { name: "container"@ },
        HandlerView::Container,
    );
    let tmp = st(
        Stage::Directories,
        RequestView::Chmod { path: "/tmp"@, mode: 0o1777 },
        HandlerView::TmpMode,
    );
    let config = st(
        Stage::SystemConfig,
        RequestView::PathExists { path: args.system_config },
        HandlerView::SystemConfigExists { system_config: args.system_config },
    );
    let script = activation_script(args.system_config);
    let activation = st(
        Stage::Activation,
        RequestView::PathExists { path: script },
        HandlerView::ActivationExists {
            system_config: args.system_config,
            strict: args.strict_activation,
        },
    );
    assert forall|after_systemd: bool, session: SessionView| true implies {
        &&& (#[trigger] stages(args, after_systemd, session)).contains(container)
        &&& stages(args, after_systemd, session).contains(tmp)
        &&& stages(args, after_systemd, session).contains(config)
        &&& stages(args, after_systemd, session).contains(activation)
    } by {
        lemma_plan_holds(args, after_systemd, session);
    }
    lemma_always_done(args, tracing, replies, container);
    lemma_always_done(args, tracing, replies, tmp);
    lemma_always_done(args, tracing, replies, config);
    lemma_always_done(args, tracing, replies, activation);
    assert(is_script_of(script, args.system_config));
    let k = choose|k: int| #[trigger] taken(m, replies, activation, k);
    assert(is_script_of(script, args.system_config) && taken(m, replies, activation, k));
}

proof fn lemma_plan_holds(args: ArgsView, after_systemd: bool, session: SessionView)
    ensures
        ({
            let all = stages(args, after_systemd, session);
            let script = activation_script(args.system_config);
            &&& all.contains(
                st(
                    Stage::RemountRoot,
                    RequestView::HasEnv { name: "container"@ },
                    HandlerView::Container,
                ),
            )
            &&& all.contains(
                st(
                    Stage::Directories,
                    RequestView::Chmod { path: "/tmp"@, mode: 0o1777 },
                    HandlerView::TmpMode,
                ),
            )
            &&& all.contains(
                st(
                    Stage::SystemConfig,
                    RequestView::PathExists { path: args.system_config },
                    HandlerView::SystemConfigExists { system_config: args.system_config },
                ),
            )
            &&& all.contains(
                st(
                    Stage::Activation,
                    RequestView::PathExists { path: script },
                    HandlerView::ActivationExists {
                        system_config: args.system_config,
                        strict: args.strict_activation,
                    },
                ),
            )
        }),
{
    let all = stages(args, after_systemd, session);
    law_the_plan_of_a_boot(args, after_systemd, session);
    let early: int = if after_systemd {
        0
    } else {
        1
    };
    let resolver: int = if args.use_host_resolv_conf && !after_systemd {
        1
    } else {
        0
    };
    let at = 11 + early + resolver;
    assert(all[0].handler == HandlerView::Container);
    assert(all[10 + early].handler == HandlerView::TmpMode);
    assert(all[at].handler is SystemConfigExists);
    assert(all[at + 1 + early].handler is ActivationExists);
    assert(all[0].request is HasEnv && all[10 + early].request is Chmod);
}

proof fn lemma_plan_without_systemd(args: ArgsView, session: SessionView)
    ensures
        ({
            let all = stages(args, false, session);
            &&& all.contains(
                st(
                    Stage::EarlyMounts,
                    RequestView::PathExists { path: "/proc/1"@ },
                    HandlerView::ProcMounted { early_script: args.early_mount_script },
                ),
            )
            &&& all.contains(
                st(
                    Stage::CaptureStdio,
                    RequestView::DuplicateStdio,
                    HandlerView::StdioDuplicated,
                ),
            )
            &&& args.use_host_resolv_conf ==> all.contains(
                st(
                    Stage::ResolvConf,
                    RequestView::PathExists { path: "/etc/resolv.conf"@ },
                    HandlerView::ResolvConfExists,
                ),
            )
        }),
{
    let all = stages(args, false, session);
    law_the_plan_of_a_boot(args, false, session);
    let at: int = if args.use_host_resolv_conf {
        14
    } else {
        13
    };
    assert(all[1].handler is ProcMounted);
    assert(all[at].handler is StdioDuplicated);
    if args.use_host_resolv_conf {
        assert(all[12].handler is ResolvConfExists);
    }
}

/// Without systemd, every boot that succeeds asks whether `/proc` is there, holding the script that
/// was ordered, sets out to capture standard output, and asks for the resolver configuration of the
/// host if that is to be used.
pub proof fn law_without_systemd_nothing_is_left_out(
    args: ArgsView,
    tracing: bool,
    replies: Seq<ReplyView>,
    j: int,
)
    requires
        succeeds(booting(args, tracing), replies),
        taken(booting(args, tracing), replies, command_line_question(args, false), j),
    ensures
        exists|k: int| #[trigger]
            taken(
                booting(args, tracing),
                replies,
                st(
                    Stage::EarlyMounts,
                    RequestView::PathExists { path: "/proc/1"@ },
                    HandlerView::ProcMounted { early_script: args.early_mount_script },
                ),
                k,
            ),
        exists|k: int| #[trigger]
            taken(
                booting(args, tracing),
                replies,
                st(
                    Stage::CaptureStdio,
                    RequestView::DuplicateStdio,
                    HandlerView::StdioDuplicated,
                ),
                k,
            ),
        args.use_host_resolv_conf ==> exists|k: int| #[trigger]
            taken(
                booting(args, tracing),
                replies,
                st(
                    Stage::ResolvConf,
                    RequestView::PathExists { path: "/etc/resolv.conf"@ },
                    HandlerView::ResolvConfExists,
                ),
                k,
            ),
{
    let early = st(
        Stage::EarlyMounts,
        RequestView::PathExists { path: "/proc/1"@ },
        HandlerView::ProcMounted { early_script: args.early_mount_script },
    );
    let capture = st(
        Stage::CaptureStdio,
        RequestView::DuplicateStdio,
        HandlerView::StdioDuplicated,
    );
    let resolver = st(
        Stage::ResolvConf,
        RequestView::PathExists { path: "/etc/resolv.conf"@ },
        HandlerView::ResolvConfExists,
    );
    assert forall|session: SessionView| true implies {
        &&& (#[trigger] stages(args, false, session)).contains(early)
        &&& stages(args, false, session).contains(capture)
        &&& args.use_host_resolv_conf ==> stages(args, false, session).contains(resolver)
    } by {
        lemma_plan_without_systemd(args, session);
    }
    lemma_planned_is_done(args, tracing, replies, false, early, j);
    lemma_planned_is_done(args, tracing, replies, false, capture, j);
    if args.use_host_resolv_conf {
        lemma_planned_is_done(args, tracing, replies, false, resolver, j);
    }
}

// ---------------------------------------------------------------------------------------------
// What is never done.
// ---------------------------------------------------------------------------------------------

/// A command that a boot may run, by the stage that runs it.
pub open spec fn may_run(
    stage: Stage,
    program: Seq<char>,
    words: Seq<Seq<char>>,
    stdin: Option<Seq<char>>,
    args: ArgsView,
) -> bool {
    match stage {
        Stage::EarlyMountScript => {
            &&& program == "/bin/sh"@
            &&& words.len() == 2
            &&& words[0] == "-c"@
            &&& args.early_mount_script matches Some(script) && exists|tracing: bool| #[trigger]
                sources(words[1], script, tracing)
            &&& stdin is None
        },
        Stage::ResolvConf => {
            &&& program == "resolvconf"@
            &&& words == seq!["-m"@, "1000"@, "-a"@, "host"@]
            &&& stdin == Some("/etc/resolv.conf"@)
        },
        Stage::Activation => {
            &&& is_script_of(program, args.system_config)
            &&& words == Seq::<Seq<char>>::empty()
            &&& stdin is None
        },
        Stage::PostBoot => {
            &&& program == args.post_boot_shell
            &&& args.post_boot_commands matches Some(commands) && (words == seq![commands] || words
                == seq!["-x"@, commands])
            &&& stdin is None
        },
        _ => false,
    }
}

/// A request that a boot may make, by the stage that makes it and by the handler of its reply.
pub open spec fn may_ask(task: TaskView, args: ArgsView) -> bool {
    match task.request {
        RequestView::Print { text } => text == args.greeting,
        RequestView::PrintError { .. } => true,
        RequestView::Log { .. } => true,
        RequestView::Info { .. } => true,
        RequestView::Warn { .. } => true,
        RequestView::EnableTracing => true,
        RequestView::ReadEnv { name } => name == "IN_NIXOS_SYSTEMD_STAGE1"@,
        RequestView::HasEnv { name } => name == "container"@,
        RequestView::SetEnv { name, value } => {
            ||| name == "PATH"@ && value == args.path
            ||| name == "SHELLOPTS"@ && value == "xtrace"@
            ||| name == "NIXOS_SYSTEM_CONFIG"@ && value == args.system_config
        },
        RequestView::RemoveEnv { .. } => false,
        RequestView::ReadFile { path } => path == "/proc/cmdline"@,
        RequestView::PathExists { .. } => true,
        RequestView::CanAppend { path } => path == "/dev/kmsg"@,
        RequestView::CreateDirectory { path } => {
            ||| path == "/run/log"@
            ||| path == "/proc"@
            ||| path == "/dev"@
            ||| path == "/sys"@
            ||| path == "/dev/pts"@
            ||| path == "/dev/shm"@
            ||| path == "/etc"@
            ||| path == "/etc/nixos"@
            ||| path == "/tmp"@
            ||| path == "/run/keys"@
        },
        RequestView::Chown { path, uid, .. } => path == "/nix/store"@ && uid == 0,
        RequestView::Chmod { path, mode } => {
            ||| path == "/nix/store"@ && mode == 0o1775
            ||| path == "/tmp"@ && mode == 0o1777
        },
        RequestView::Symlink { target, link, atomic } => {
            &&& target == args.system_config
            &&& link == "/run/booted-system"@
            &&& atomic == args.atomic_symlinks
        },
        RequestView::IsMounted { .. } => task.stage == Stage::SpecialFilesystems,
        RequestView::MountOptions { path } => path == "/"@ || path == "/nix/store"@,
        RequestView::Mount { source, target, .. } => {
            ||| task.stage == Stage::RemountRoot && target == "/"@ && source is None
            ||| task.stage == Stage::SpecialFilesystems && (target == "/proc"@ || target == "/dev"@
                || target == "/sys"@ || target == "/dev/pts"@ || target == "/dev/shm"@)
            ||| task.stage == Stage::NixStore && target == "/nix/store"@
        },
        RequestView::LookupGroup { name } => name == "nixbld"@,
        RequestView::Spawn { program, args: words, stdin } => may_run(
            task.stage,
            program,
            words,
            stdin,
            args,
        ),
        RequestView::DuplicateStdio => task.handler is StdioDuplicated,
        RequestView::StartCapture { command } => {
            &&& task.handler matches HandlerView::CaptureStarted { saved, kernel_log }
            &&& saved.stdout >= 0 ==> passes_on(command, saved.stdout as nat, kernel_log)
        },
        RequestView::RedirectStdio => task.handler is StdioRedirected,
        RequestView::RestoreStdio { .. } => true,
        RequestView::ProcessId => false,
        RequestView::Exec { .. } => false,
        RequestView::Exit { .. } => false,
    }
}

/// A handler holds what the boot was told.
pub open spec fn holds_orders(handler: HandlerView, args: ArgsView) -> bool {
    match handler {
        HandlerView::LogDirectory { args: a } => a == args,
        HandlerView::SystemdStage1 { args: a } => a == args,
        HandlerView::KernelCommandLine { args: a, .. } => a == args,
        HandlerView::ProcMounted { early_script } => early_script == args.early_mount_script,
        HandlerView::StoreExists { options } => options == args.nix_store_mount_opts,
        HandlerView::StoreOptions { desired } => desired == option_list(args.nix_store_mount_opts),
        HandlerView::SystemConfigExists { system_config } => system_config == args.system_config,
        HandlerView::ActivationExists { system_config, strict } => {
            &&& system_config == args.system_config
            &&& strict == args.strict_activation
        },
        HandlerView::ActivationStillExists { system_config } => system_config
            == args.system_config,
        HandlerView::BootRecorded { system_config } => system_config == args.system_config,
        HandlerView::PostBootExists { shell, commands } => {
            &&& shell == args.post_boot_shell
            &&& args.post_boot_commands == Some(commands)
        },
        _ => true,
    }
}

/// All the steps are such as a boot may take.
spec fn all_proper(tasks: Seq<TaskView>, args: ArgsView) -> bool {
    forall|i: int|
        0 <= i < tasks.len() ==> may_ask(#[trigger] tasks[i], args) && holds_orders(
            tasks[i].handler,
            args,
        )
}

/// A reply to a proper step leads to proper steps.
spec fn keeps_proper(task: TaskView, reply: ReplyView, session: SessionView, args: ArgsView) -> bool {
    match steps_after(task.handler, reply, session) {
        Ok(steps) => all_proper(steps, args),
        Err(_) => true,
    }
}

proof fn lemma_proper_add(a: Seq<TaskView>, b: Seq<TaskView>, args: ArgsView)
    requires
        all_proper(a, args),
        all_proper(b, args),
    ensures
        all_proper(a + b, args),
{
    let c = a + b;
    assert forall|i: int| 0 <= i < c.len() implies may_ask(#[trigger] c[i], args) && holds_orders(
        c[i].handler,
        args,
    ) by {
        if i < a.len() {
            assert(c[i] == a[i]);
        } else {
            assert(c[i] == b[i - a.len()]);
        }
    }
}

proof fn lemma_directories_proper(session: SessionView, args: ArgsView)
    ensures
        all_proper(directories_steps(required_directories(), session), args),
{
    let paths = required_directories();
    let p3 = paths.drop_last();
    let p2 = p3.drop_last();
    let p1 = p2.drop_last();
    let p0 = p1.drop_last();
    assert(p0 =~= Seq::<Seq<char>>::empty());
    assert(all_proper(directories_steps(p0, session), args));
    assert(all_proper(directory_steps(p1.last(), session), args));
    lemma_proper_add(directories_steps(p0, session), directory_steps(p1.last(), session), args);
    assert(all_proper(directory_steps(p2.last(), session), args));
    lemma_proper_add(directories_steps(p1, session), directory_steps(p2.last(), session), args);
    assert(all_proper(directory_steps(p3.last(), session), args));
    lemma_proper_add(directories_steps(p2, session), directory_steps(p3.last(), session), args);
    assert(all_proper(directory_steps(paths.last(), session), args));
    lemma_proper_add(directories_steps(p3, session), directory_steps(paths.last(), session), args);
}

proof fn lemma_stages_proper(args: ArgsView, after_systemd: bool, session: SessionView)
    ensures
        all_proper(stages(args, after_systemd, session), args),
{
    lemma_directories_proper(session, args);
}

proof fn lemma_setup_proper(
    task: TaskView,
    reply: ReplyView,
    session: SessionView,
    args: ArgsView,
)
    requires
        is_scout(task.handler),
        holds_orders(task.handler, args),
    ensures
        keeps_proper(task, reply, session, args),
{
    let steps = steps_after(task.handler, reply, session)->Ok_0;
    match task.handler {
        HandlerView::KernelCommandLine { after_systemd, .. } => {
            let known = session_after(task.handler, reply, session);
            let planned = stages(args, after_systemd, known);
            let first = steps.take(steps.len() - planned.len());
            lemma_stages_proper(args, after_systemd, known);
            assert(steps =~= first + planned);
            assert(all_proper(first, args));
            lemma_proper_add(first, planned, args);
        },
        _ => {
            assert(all_proper(steps, args));
        },
    }
}

proof fn lemma_mounts_proper(
    task: TaskView,
    reply: ReplyView,
    session: SessionView,
    args: ArgsView,
)
    requires
        in_place(task),
        !is_scout(task.handler),
        task.stage.rank() <= 4,
        holds_orders(task.handler, args),
    ensures
        keeps_proper(task, reply, session, args),
{
    if let HandlerView::ProcMounted { early_script: Some(script) } = task.handler {
        let commands = early_mount_commands(script, session.tracing);
        law_the_wrapper_sources_the_script(script, session.tracing);
        assert(sources(commands, script, session.tracing));
    }
}

proof fn lemma_store_proper(
    task: TaskView,
    reply: ReplyView,
    session: SessionView,
    args: ArgsView,
)
    requires
        in_place(task),
        task.stage == Stage::NixStore,
        holds_orders(task.handler, args),
    ensures
        keeps_proper(task, reply, session, args),
{
}

proof fn lemma_files_proper(
    task: TaskView,
    reply: ReplyView,
    session: SessionView,
    args: ArgsView,
)
    requires
        in_place(task),
        6 <= task.stage.rank() <= 8,
        holds_orders(task.handler, args),
    ensures
        keeps_proper(task, reply, session, args),
{
}

proof fn lemma_stdio_proper(
    task: TaskView,
    reply: ReplyView,
    session: SessionView,
    args: ArgsView,
)
    requires
        in_place(task),
        task.stage == Stage::CaptureStdio,
    ensures
        keeps_proper(task, reply, session, args),
{
    if let HandlerView::KernelLog { saved } = task.handler {
        if saved.stdout >= 0 {
            law_the_console_keeps_seeing_every_line(saved, reply, session);
        }
    }
}

proof fn lemma_activation_proper(
    task: TaskView,
    reply: ReplyView,
    session: SessionView,
    args: ArgsView,
)
    requires
        in_place(task),
        10 <= task.stage.rank(),
        holds_orders(task.handler, args),
    ensures
        keeps_proper(task, reply, session, args),
{
    assert(is_script_of(activation_script(args.system_config), args.system_config));
}

proof fn lemma_keeps_proper(
    task: TaskView,
    reply: ReplyView,
    session: SessionView,
    args: ArgsView,
)
    requires
        in_place(task),
        holds_orders(task.handler, args),
    ensures
        keeps_proper(task, reply, session, args),
{
    if is_scout(task.handler) {
        lemma_setup_proper(task, reply, session, args);
    } else if task.stage.rank() <= 4 {
        lemma_mounts_proper(task, reply, session, args);
    } else if task.stage == Stage::NixStore {
        lemma_store_proper(task, reply, session, args);
    } else if task.stage.rank() <= 8 {
        lemma_files_proper(task, reply, session, args);
    } else if task.stage == Stage::CaptureStdio {
        lemma_stdio_proper(task, reply, session, args);
    } else {
        lemma_activation_proper(task, reply, session, args);
    }
}

proof fn lemma_boot_proper(args: ArgsView, tracing: bool, replies: Seq<ReplyView>, k: int)
    requires
        0 <= k <= replies.len(),
    ensures
        all_proper(after(booting(args, tracing), replies, k).agenda, args),
    decreases k,
{
    let m = booting(args, tracing);
    if k == 0 {
        assert(after(m, replies, 0) == m);
    } else {
        let before = after(m, replies, k - 1);
        lemma_next(m, replies, k - 1);
        lemma_boot_proper(args, tracing, replies, k - 1);
        lemma_boot_ordered(args, tracing, replies, 0, k - 1);
        if !before.finished() {
            let task = before.agenda[0];
            let rest = before.agenda.skip(1);
            assert(in_place(task));
            lemma_keeps_proper(task, replies[k - 1], before.session, args);
            assert forall|i: int| 0 <= i < rest.len() implies may_ask(#[trigger] rest[i], args)
                && holds_orders(rest[i].handler, args) by {
                assert(rest[i] == before.agenda[i + 1]);
            }
            if let Ok(steps) = steps_after(task.handler, replies[k - 1], before.session) {
                lemma_proper_add(steps, rest, args);
            }
        }
    }
}

/// A boot makes no request but those that its stages call for, and each of its steps holds the very
/// orders that the boot was given.  In particular the resolver is registered from its file or not at
/// all, and no boot replaces its process.
pub proof fn law_a_boot_asks_for_nothing_else(
    args: ArgsView,
    tracing: bool,
    replies: Seq<ReplyView>,
    k: int,
)
    requires
        asks(booting(args, tracing), replies, k),
    ensures
        may_ask(step(booting(args, tracing), replies, k), args),
        holds_orders(step(booting(args, tracing), replies, k).handler, args),
{
    lemma_boot_proper(args, tracing, replies, k);
}

/// Whenever the resolver stage of a boot runs a command, traced or not, it registers the file
/// `/etc/resolv.conf` under the name of the host.
pub proof fn law_the_resolver_is_fed_from_its_file(
    args: ArgsView,
    tracing: bool,
    replies: Seq<ReplyView>,
    k: int,
)
    requires
        asks(booting(args, tracing), replies, k),
        step(booting(args, tracing), replies, k).stage == Stage::ResolvConf,
    ensures
        step(booting(args, tracing), replies, k).request matches RequestView::Spawn {
            program,
            args: words,
            stdin,
        } ==> program == "resolvconf"@ && words == seq!["-m"@, "1000"@, "-a"@, "host"@] && stdin
            == Some("/etc/resolv.conf"@),
{
    lemma_boot_proper(args, tracing, replies, k);
}

/// Whenever a capture is started, copies of standard output and standard error have been made before,
/// and its command passes every line on to that copy of standard output, by its number.
pub proof fn law_a_capture_goes_to_the_copy_that_was_made(
    args: ArgsView,
    tracing: bool,
    replies: Seq<ReplyView>,
    command: Seq<char>,
    k: int,
)
    requires
        asks(booting(args, tracing), replies, k),
        step(booting(args, tracing), replies, k).request == (RequestView::StartCapture { command }),
    ensures
        exists|saved: SavedStdio, j: int|
            0 <= j < k && #[trigger] copied_at(booting(args, tracing), replies, saved, j) && (
            passes_on(command, saved.stdout as nat, true) || passes_on(
                command,
                saved.stdout as nat,
                false,
            )),
{
    let m = booting(args, tracing);
    let task = step(m, replies, k);
    lemma_boot_proper(args, tracing, replies, k);
    assert(may_ask(after(m, replies, k).agenda[0], args));
    let saved = task.handler->CaptureStarted_saved;
    assert(deals_with(after(m, replies, k).agenda[0], saved));
    lemma_copied_before(args, tracing, replies, saved, k);
    let j = choose|j: int| 0 <= j < k && #[trigger] copied_at(m, replies, saved, j);
    assert(copied_at(m, replies, saved, j));
}

// ---------------------------------------------------------------------------------------------
// Handing over.
// ---------------------------------------------------------------------------------------------

/// The step that replaces this process by init.
pub open spec fn init_step(program: Seq<char>, args: Seq<Seq<char>>) -> TaskView {
    st(
        Stage::Handoff,
        RequestView::Exec { program, args },
        HandlerView::InitFailed { program },
    )
}

/// A handoff reports what it is about to do, asks for the number of this process, removes the
/// variables that configured the boot, and then replaces the process by the given program.
pub proof fn law_the_plan_of_a_handoff(program: Seq<char>, args: Seq<Seq<char>>)
    ensures
        ({
            let unset = |name: Seq<char>|
                st(Stage::Handoff, RequestView::RemoveEnv { name }, HandlerView::Ignore);
            handing_off(program, args) =~~= (MachineView {
                session: SessionView { log_dest: None, tracing: false, captured: None },
                agenda: seq![
                    st(
                        Stage::Handoff,
                        RequestView::Info {
                            text: "Exec-ing systemd: "@ + program + " "@ + list_debug(args),
                        },
                        HandlerView::Ignore,
                    ),
                    st(Stage::Handoff, RequestView::ProcessId, HandlerView::InitPid),
                    unset("SYSTEM_CONFIG"@),
                    unset("STAGE2_GREETING"@),
                    unset("NIX_STORE_MOUNT_OPTS"@),
                    unset("POST_BOOT_COMMANDS"@),
                    unset("USE_HOST_RESOLV_CONF"@),
                    unset("STAGE2_PATH"@),
                    unset("SYSTEMD_EXECUTABLE"@),
                    unset("EARLY_MOUNT_SCRIPT"@),
                    init_step(program, args),
                ],
                failure: None,
            })
        }),
{
}

/// The only step that replaces this process is the one for init, and it comes last.
spec fn init_is_last(machine: MachineView, program: Seq<char>, args: Seq<Seq<char>>) -> bool {
    &&& machine.session.captured is None
    &&& machine.agenda.len() > 0
    &&& machine.agenda.last() == init_step(program, args)
    &&& forall|i: int|
        0 <= i < machine.agenda.len() - 1 ==> {
            &&& !((#[trigger] machine.agenda[i]).request is Exec)
            &&& machine.agenda[i].handler is Ignore || machine.agenda[i].handler is InitPid
        }
}

proof fn lemma_init_is_last(
    program: Seq<char>,
    args: Seq<Seq<char>>,
    replies: Seq<ReplyView>,
    k: int,
)
    requires
        0 <= k <= replies.len(),
    ensures
        init_is_last(after(handing_off(program, args), replies, k), program, args) || exists|j: int|
            0 <= j < k && #[trigger] taken(
                handing_off(program, args),
                replies,
                init_step(program, args),
                j,
            ),
    decreases k,
{
    let m = handing_off(program, args);
    if k == 0 {
        assert(after(m, replies, 0) == m);
        assert(init_is_last(m, program, args));
    } else {
        let before = after(m, replies, k - 1);
        let now = after(m, replies, k);
        lemma_next(m, replies, k - 1);
        lemma_init_is_last(program, args, replies, k - 1);
        if init_is_last(before, program, args) {
            if before.agenda.len() == 1 {
                assert(taken(m, replies, init_step(program, args), k - 1));
            } else {
                let task = before.agenda[0];
                let rest = before.agenda.skip(1);
                let steps = steps_after(task.handler, replies[k - 1], before.session)->Ok_0;
                assert(now.agenda == steps + rest);
                assert(now.agenda.last() == before.agenda.last());
                assert forall|i: int| 0 <= i < now.agenda.len() - 1 implies {
                    &&& !((#[trigger] now.agenda[i]).request is Exec)
                    &&& now.agenda[i].handler is Ignore || now.agenda[i].handler is InitPid
                } by {
                    if i < steps.len() {
                        assert(now.agenda[i] == steps[i]);
                    } else {
                        assert(now.agenda[i] == before.agenda[i - steps.len() + 1]);
                    }
                }
            }
        }
    }
}

/// The first thing that a handoff tries to become is the given program with exactly the given
/// arguments; anything else, such as a shell, is asked for only after there was a reply to that.
pub proof fn law_init_is_tried_first(
    program: Seq<char>,
    args: Seq<Seq<char>>,
    replies: Seq<ReplyView>,
    k: int,
)
    requires
        asks(handing_off(program, args), replies, k),
        step(handing_off(program, args), replies, k).request is Exec,
    ensures
        step(handing_off(program, args), replies, k) == init_step(program, args) || exists|j: int|
            0 <= j < k && #[trigger] taken(
                handing_off(program, args),
                replies,
                init_step(program, args),
                j,
            ),
{
    lemma_init_is_last(program, args, replies, k);
}

/// A handoff does not come to its end without having tried init.
pub proof fn law_init_is_always_tried(
    program: Seq<char>,
    args: Seq<Seq<char>>,
    replies: Seq<ReplyView>,
)
    requires
        after(handing_off(program, args), replies, replies.len() as int).finished(),
    ensures
        exists|j: int| #[trigger]
            taken(handing_off(program, args), replies, init_step(program, args), j),
{
    lemma_init_is_last(program, args, replies, replies.len() as int);
}

} // verus!
