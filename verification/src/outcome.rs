//! How a boot ends: what can stop it, what a successful one has done, what becomes of the store, and
//! what init is handed.

use vstd::prelude::*;

use crate::activation::activation_script;
use crate::boot::stages;
use crate::files::{directories_steps, required_directories, required_directories_steps};
use crate::flags::Operation;
use crate::handoff::{private_variables, removal};
use crate::machine::{
    booting, handing_off, options_or_empty, session_after, steps_after, MachineView,
};
use crate::order::{in_place, lemma_boot_ordered, lemma_leads_on, ordered, orders};
use crate::request::{ReplyView, RequestView};
use crate::store::{
    law_a_complete_store_is_left_alone, nix_store_steps, option_list, store_options_steps,
    wanted_flags,
};
use crate::task::{asked, ArgsView, HandlerView, SessionView, Stage, TaskView};
use crate::trace::{after, asks, lemma_next, step};

verus! {

// ---------------------------------------------------------------------------------------------
// Failures.
// ---------------------------------------------------------------------------------------------

/// The stages that can stop a boot.  The store, the capture of standard output, and all logging are
/// not among them.
pub open spec fn can_stop(stage: Stage) -> bool {
    stage == Stage::RemountRoot || stage == Stage::EarlyMountScript || stage
        == Stage::SpecialFilesystems || stage == Stage::Directories || stage == Stage::ResolvConf
        || stage == Stage::SystemConfig || stage == Stage::Activation || stage == Stage::BootRecord
        || stage == Stage::PostBoot
}

/// A machine that has failed has nothing left to do but to give standard output back.
spec fn stopped(machine: MachineView) -> bool {
    machine.failure is Some ==> {
        &&& can_stop(machine.failure->0.stage)
        &&& machine.session.captured is None
        &&& machine.agenda.len() > 0 ==> {
            &&& machine.agenda.len() == 1
            &&& machine.agenda[0].request is RestoreStdio
            &&& machine.agenda[0].handler is Ignore
        }
    }
}

proof fn lemma_boot_stopped(args: ArgsView, tracing: bool, replies: Seq<ReplyView>, k: int)
    requires
        0 <= k <= replies.len(),
    ensures
        stopped(after(booting(args, tracing), replies, k)),
    decreases k,
{
    if k > 0 {
        lemma_next(booting(args, tracing), replies, k - 1);
        lemma_boot_stopped(args, tracing, replies, k - 1);
        lemma_boot_ordered(args, tracing, replies, 0, k - 1);
    }
}

/// Only some stages can stop a boot, whatever the replies: a store that cannot be set up does not,
/// and neither does standard output that cannot be captured.
pub proof fn law_the_store_never_stops_a_boot(
    args: ArgsView,
    tracing: bool,
    replies: Seq<ReplyView>,
    k: int,
)
    requires
        0 <= k <= replies.len(),
        after(booting(args, tracing), replies, k).failure is Some,
    ensures
        can_stop(after(booting(args, tracing), replies, k).failure->0.stage),
{
    lemma_boot_stopped(args, tracing, replies, k);
}

/// Nothing follows a failure, except that standard output is given back; and the failure stands.
pub proof fn law_nothing_follows_a_failure(
    args: ArgsView,
    tracing: bool,
    replies: Seq<ReplyView>,
    j: int,
    k: int,
)
    requires
        0 <= j <= k <= replies.len(),
        after(booting(args, tracing), replies, j).failure is Some,
    ensures
        after(booting(args, tracing), replies, k).failure == after(
            booting(args, tracing),
            replies,
            j,
        ).failure,
        asks(booting(args, tracing), replies, k) ==> step(
            booting(args, tracing),
            replies,
            k,
        ).request is RestoreStdio,
    decreases k,
{
    lemma_boot_stopped(args, tracing, replies, k);
    if j < k {
        lemma_next(booting(args, tracing), replies, k - 1);
        lemma_boot_stopped(args, tracing, replies, k - 1);
        law_nothing_follows_a_failure(args, tracing, replies, j, k - 1);
    }
}

// ---------------------------------------------------------------------------------------------
// Success.
// ---------------------------------------------------------------------------------------------

/// The step that points `/run/booted-system` to the system configuration.
pub open spec fn record_step(args: ArgsView) -> TaskView {
    asked(
        Stage::BootRecord,
        RequestView::Symlink {
            target: args.system_config,
            link: "/run/booted-system"@,
            atomic: args.atomic_symlinks,
        },
        HandlerView::BootRecorded { system_config: args.system_config },
    )
}

/// The step that creates one of the directories that have to exist.
pub open spec fn directory_step(path: Seq<char>) -> TaskView {
    asked(
        Stage::Directories,
        RequestView::CreateDirectory { path },
        HandlerView::DirectoryMade { path },
    )
}

/// The steps that no successful boot goes without.
spec fn essential(task: TaskView, args: ArgsView) -> bool {
    ||| task == record_step(args)
    ||| exists|path: Seq<char>|
        required_directories().contains(path) && task == #[trigger] directory_step(path)
}

/// The step is still to come: it is on the agenda, or a scout that will put it there.
spec fn due(tasks: Seq<TaskView>, args: ArgsView, task: TaskView) -> bool {
    exists|i: int|
        0 <= i < tasks.len() && (#[trigger] tasks[i] == task || orders(tasks[i].handler) == Some(
            args,
        ))
}

/// The step has been taken, with a reply that did not fail it.
pub open spec fn succeeded(
    machine: MachineView,
    replies: Seq<ReplyView>,
    task: TaskView,
    k: int,
) -> bool {
    &&& 0 <= k < replies.len()
    &&& asks(machine, replies, k)
    &&& step(machine, replies, k) == task
    &&& replies[k].failure() is None
}

proof fn lemma_directories_made(session: SessionView, path: Seq<char>)
    requires
        required_directories().contains(path),
    ensures
        required_directories_steps(session).contains(directory_step(path)),
{
    let all = required_directories_steps(session);
    let paths = required_directories();
    let n = choose|n: int| 0 <= n < paths.len() && paths[n] == path;
    reveal_with_fuel(directories_steps, 5);
    let p3 = paths.drop_last();
    let p2 = p3.drop_last();
    let p1 = p2.drop_last();
    assert(p1.drop_last() =~= Seq::<Seq<char>>::empty());
    assert(all[1] == directory_step(paths[0]));
    assert(all[3] == directory_step(paths[1]));
    assert(all[5] == directory_step(paths[2]));
    assert(all[7] == directory_step(paths[3]));
    assert(all[2 * n + 1] == directory_step(path));
}

proof fn lemma_stages_hold(
    args: ArgsView,
    after_systemd: bool,
    session: SessionView,
    task: TaskView,
)
    requires
        essential(task, args),
    ensures
        stages(args, after_systemd, session).contains(task),
{
    let all = stages(args, after_systemd, session);
    if task == record_step(args) {
        let at = if args.post_boot_commands is Some {
            all.len() - 3
        } else {
            all.len() - 2
        };
        assert(all[at] == task);
    } else {
        let path = choose|path: Seq<char>|
            required_directories().contains(path) && task == #[trigger] directory_step(path);
        let made = required_directories_steps(session);
        let offset: int = if after_systemd {
            2
        } else {
            3
        };
        lemma_directories_made(session, path);
        let n = choose|n: int| 0 <= n < made.len() && made[n] == task;
        assert(all[offset + n] == made[n]);
    }
}

proof fn lemma_scout_plans(
    handler: HandlerView,
    reply: ReplyView,
    session: SessionView,
    args: ArgsView,
    task: TaskView,
)
    requires
        orders(handler) == Some(args),
        essential(task, args),
    ensures
        steps_after(handler, reply, session) is Ok,
        due(steps_after(handler, reply, session)->Ok_0, args, task),
{
    let steps = steps_after(handler, reply, session)->Ok_0;
    match handler {
        HandlerView::KernelCommandLine { after_systemd, .. } => {
            let known = session_after(handler, reply, session);
            let planned = stages(args, after_systemd, known);
            lemma_stages_hold(args, after_systemd, known, task);
            let at = choose|i: int| 0 <= i < planned.len() && planned[i] == task;
            assert(steps[steps.len() - planned.len() + at] == task);
        },
        _ => {
            assert(orders(steps[steps.len() - 1].handler) == Some(args));
        },
    }
}

proof fn lemma_boot_takes(
    args: ArgsView,
    tracing: bool,
    replies: Seq<ReplyView>,
    task: TaskView,
    k: int,
)
    requires
        0 <= k <= replies.len(),
        essential(task, args),
        after(booting(args, tracing), replies, k).failure is None,
    ensures
        due(after(booting(args, tracing), replies, k).agenda, args, task) || exists|i: int|
            i < k && #[trigger] succeeded(booting(args, tracing), replies, task, i),
    decreases k,
{
    let m = booting(args, tracing);
    let now = after(m, replies, k);
    if k == 0 {
        assert(orders(now.agenda[0].handler) == Some(args));
    } else {
        let before = after(m, replies, k - 1);
        let reply = replies[k - 1];
        lemma_next(m, replies, k - 1);
        lemma_boot_takes(args, tracing, replies, task, k - 1);
        if !before.finished() && due(before.agenda, args, task) {
            let first = before.agenda[0];
            let rest = before.agenda.skip(1);
            let steps = steps_after(first.handler, reply, before.session)->Ok_0;
            let i = choose|i: int|
                0 <= i < before.agenda.len() && (#[trigger] before.agenda[i] == task || orders(
                    before.agenda[i].handler,
                ) == Some(args));
            if i > 0 {
                let there = steps.len() + i - 1;
                assert((steps + rest)[there] == before.agenda[i]);
                assert(now.agenda[there] == before.agenda[i]);
            } else if orders(first.handler) == Some(args) {
                lemma_scout_plans(first.handler, reply, before.session, args, task);
                let n = choose|n: int|
                    0 <= n < steps.len() && (#[trigger] steps[n] == task || orders(
                        steps[n].handler,
                    ) == Some(args));
                assert(now.agenda[n] == steps[n]);
            } else {
                assert(succeeded(m, replies, task, k - 1));
            }
        }
    }
}

/// A boot that comes to its end without a failure has recorded the system configuration that was
/// booted, by the kind of link that was ordered.
pub proof fn law_a_successful_boot_is_recorded(
    args: ArgsView,
    tracing: bool,
    replies: Seq<ReplyView>,
)
    requires
        after(booting(args, tracing), replies, replies.len() as int).finished(),
        after(booting(args, tracing), replies, replies.len() as int).failure is None,
    ensures
        exists|k: int| #[trigger]
            succeeded(booting(args, tracing), replies, record_step(args), k),
{
    lemma_boot_takes(args, tracing, replies, record_step(args), replies.len() as int);
}

/// A boot that comes to its end without a failure has created every directory that has to exist.
pub proof fn law_a_successful_boot_has_its_directories(
    args: ArgsView,
    tracing: bool,
    replies: Seq<ReplyView>,
    path: Seq<char>,
)
    requires
        required_directories().contains(path),
        after(booting(args, tracing), replies, replies.len() as int).finished(),
        after(booting(args, tracing), replies, replies.len() as int).failure is None,
    ensures
        exists|k: int| #[trigger]
            succeeded(booting(args, tracing), replies, directory_step(path), k),
{
    lemma_boot_takes(args, tracing, replies, directory_step(path), replies.len() as int);
}

/// The step that runs the activation script.
pub open spec fn activation_step(system_config: Seq<char>) -> TaskView {
    asked(
        Stage::Activation,
        RequestView::Spawn {
            program: activation_script(system_config),
            args: Seq::empty(),
            stdin: None,
        },
        HandlerView::ActivationRun { script: activation_script(system_config) },
    )
}

/// The step is the run of the activation script, or leads to it, to a failure, or to the warning that
/// there is no script.
spec fn will_activate(task: TaskView, args: ArgsView) -> bool {
    ||| orders(task.handler) == Some(args)
    ||| task.handler == (HandlerView::ActivationExists {
        system_config: args.system_config,
        strict: args.strict_activation,
    })
    ||| task.handler == (HandlerView::ActivationStillExists { system_config: args.system_config })
    ||| task == activation_step(args.system_config)
}

/// The run of the activation script is still to come.
spec fn activation_due(tasks: Seq<TaskView>, args: ArgsView) -> bool {
    exists|i: int| 0 <= i < tasks.len() && will_activate(#[trigger] tasks[i], args)
}

/// The activation script has been run, or at least it could be started.
pub open spec fn activated(
    machine: MachineView,
    replies: Seq<ReplyView>,
    args: ArgsView,
    k: int,
) -> bool {
    &&& 0 <= k < replies.len()
    &&& asks(machine, replies, k)
    &&& step(machine, replies, k) == activation_step(args.system_config)
    &&& replies[k].failure() is None
}

/// Whenever the boot asks whether there is an activation script, the answer is yes.
pub open spec fn script_found(machine: MachineView, replies: Seq<ReplyView>) -> bool {
    forall|j: int|
        0 <= j < replies.len() && asks(machine, replies, j) && (#[trigger] step(
            machine,
            replies,
            j,
        )).handler is ActivationExists ==> replies[j].is_yes()
}

proof fn lemma_stages_activate(args: ArgsView, after_systemd: bool, session: SessionView)
    ensures
        activation_due(stages(args, after_systemd, session), args),
{
    let all = stages(args, after_systemd, session);
    let at = if args.post_boot_commands is Some {
        all.len() - 5
    } else {
        all.len() - 4
    };
    assert(will_activate(all[at], args));
}

proof fn lemma_activation_leads_on(
    task: TaskView,
    reply: ReplyView,
    session: SessionView,
    args: ArgsView,
)
    requires
        will_activate(task, args),
        task.handler is ActivationExists ==> args.strict_activation || reply.is_yes(),
        steps_after(task.handler, reply, session) is Ok,
    ensures
        activation_due(steps_after(task.handler, reply, session)->Ok_0, args) || task
            == activation_step(args.system_config) && reply.failure() is None,
{
    let steps = steps_after(task.handler, reply, session)->Ok_0;
    let known = session_after(task.handler, reply, session);
    match task.handler {
        HandlerView::LogDirectory { .. } => {
            assert(will_activate(steps[4], args));
        },
        HandlerView::SystemdStage1 { .. } => {
            assert(will_activate(steps[steps.len() - 1], args));
        },
        HandlerView::KernelCommandLine { after_systemd, .. } => {
            let planned = stages(args, after_systemd, known);
            lemma_stages_activate(args, after_systemd, known);
            let at = choose|i: int|
                0 <= i < planned.len() && will_activate(#[trigger] planned[i], args);
            assert(steps[steps.len() - planned.len() + at] == planned[at]);
        },
        HandlerView::ActivationExists { .. } => {
            assert(will_activate(steps[0], args));
        },
        HandlerView::ActivationStillExists { .. } => {
            assert(steps.last() == activation_step(args.system_config));
            assert(will_activate(steps[steps.len() - 1], args));
        },
        _ => {},
    }
}

proof fn lemma_boot_activates(args: ArgsView, tracing: bool, replies: Seq<ReplyView>, k: int)
    requires
        0 <= k <= replies.len(),
        args.strict_activation || script_found(booting(args, tracing), replies),
        after(booting(args, tracing), replies, k).failure is None,
    ensures
        activation_due(after(booting(args, tracing), replies, k).agenda, args) || exists|i: int|
            i < k && #[trigger] activated(booting(args, tracing), replies, args, i),
    decreases k,
{
    let m = booting(args, tracing);
    let now = after(m, replies, k);
    if k == 0 {
        assert(will_activate(now.agenda[0], args));
    } else {
        let before = after(m, replies, k - 1);
        let reply = replies[k - 1];
        lemma_next(m, replies, k - 1);
        lemma_boot_activates(args, tracing, replies, k - 1);
        if !before.finished() && activation_due(before.agenda, args) {
            let task = before.agenda[0];
            let rest = before.agenda.skip(1);
            let steps = steps_after(task.handler, reply, before.session)->Ok_0;
            let i = choose|i: int|
                0 <= i < before.agenda.len() && will_activate(#[trigger] before.agenda[i], args);
            if i > 0 {
                let there = steps.len() + i - 1;
                assert((steps + rest)[there] == before.agenda[i]);
                assert(now.agenda[there] == before.agenda[i]);
            } else {
                assert(step(m, replies, k - 1) == task);
                lemma_activation_leads_on(task, reply, before.session, args);
                if activation_due(steps, args) {
                    let n = choose|n: int|
                        0 <= n < steps.len() && will_activate(#[trigger] steps[n], args);
                    assert(now.agenda[n] == steps[n]);
                } else {
                    assert(activated(m, replies, args, k - 1));
                }
            }
        }
    }
}

/// Under strict activation, a boot that comes to its end without a failure has started the
/// activation script of the system configuration.
pub proof fn law_a_strict_boot_is_activated(
    args: ArgsView,
    tracing: bool,
    replies: Seq<ReplyView>,
)
    requires
        args.strict_activation,
        after(booting(args, tracing), replies, replies.len() as int).finished(),
        after(booting(args, tracing), replies, replies.len() as int).failure is None,
    ensures
        exists|k: int| #[trigger] activated(booting(args, tracing), replies, args, k),
{
    lemma_boot_activates(args, tracing, replies, replies.len() as int);
}

/// An activation script that is there is run, strict or not: a boot that finds one and comes to its
/// end without a failure has started it.
pub proof fn law_a_script_that_is_there_is_run(
    args: ArgsView,
    tracing: bool,
    replies: Seq<ReplyView>,
)
    requires
        script_found(booting(args, tracing), replies),
        after(booting(args, tracing), replies, replies.len() as int).finished(),
        after(booting(args, tracing), replies, replies.len() as int).failure is None,
    ensures
        exists|k: int| #[trigger] activated(booting(args, tracing), replies, args, k),
{
    lemma_boot_activates(args, tracing, replies, replies.len() as int);
}

// ---------------------------------------------------------------------------------------------
// The options of the store.
// ---------------------------------------------------------------------------------------------

/// The options of the store are still to be looked at, and only steps for the store come before.
spec fn options_due(tasks: Seq<TaskView>, desired: Seq<Seq<char>>) -> bool {
    exists|i: int|
        0 <= i < tasks.len() && (#[trigger] tasks[i]).handler == (HandlerView::StoreOptions {
            desired,
        }) && store_before(tasks, i)
}

/// Only steps for the store come before this place.
spec fn store_before(tasks: Seq<TaskView>, i: int) -> bool {
    forall|j: int| 0 <= j < i ==> (#[trigger] tasks[j]).stage == Stage::NixStore
}

/// The options of the store are looked at, with a view to those that are wanted.
pub open spec fn options_at(
    machine: MachineView,
    replies: Seq<ReplyView>,
    desired: Seq<Seq<char>>,
    k: int,
) -> bool {
    &&& 0 <= k < replies.len()
    &&& asks(machine, replies, k)
    &&& step(machine, replies, k).handler == (HandlerView::StoreOptions { desired })
}

proof fn lemma_options_due(
    args: ArgsView,
    tracing: bool,
    replies: Seq<ReplyView>,
    desired: Seq<Seq<char>>,
    j: int,
)
    requires
        0 <= j <= replies.len(),
        options_due(after(booting(args, tracing), replies, j).agenda, desired),
        after(booting(args, tracing), replies, replies.len() as int).finished(),
    ensures
        exists|k: int| j <= k && #[trigger] options_at(booting(args, tracing), replies, desired, k),
    decreases replies.len() - j,
{
    let m = booting(args, tracing);
    if j < replies.len() {
        let before = after(m, replies, j);
        let i = choose|i: int|
            0 <= i < before.agenda.len() && (#[trigger] before.agenda[i]).handler == (
            HandlerView::StoreOptions { desired }) && store_before(before.agenda, i);
        if i == 0 {
            assert(options_at(m, replies, desired, j));
        } else {
            let task = before.agenda[0];
            let rest = before.agenda.skip(1);
            let now = after(m, replies, j + 1).agenda;
            lemma_next(m, replies, j);
            lemma_boot_ordered(args, tracing, replies, 0, j);
            assert(in_place(task));
            assert(task.stage == Stage::NixStore);
            lemma_leads_on(task, replies[j], before.session);
            let steps = steps_after(task.handler, replies[j], before.session)->Ok_0;
            let there = steps.len() + i - 1;
            assert((steps + rest)[there] == before.agenda[i]);
            assert(now == steps + rest);
            assert forall|q: int| 0 <= q < there implies (#[trigger] now[q]).stage
                == Stage::NixStore by {
                if q < steps.len() {
                    assert(now[q] == steps[q]);
                } else {
                    assert(now[q] == before.agenda[q - steps.len() + 1]);
                }
            }
            assert(store_before(now, there));
            lemma_options_due(args, tracing, replies, desired, j + 1);
        }
    }
}

/// A store that exists always gets its options looked at, even if it takes neither its owner nor
/// its permissions.
pub proof fn law_the_store_gets_its_options(
    args: ArgsView,
    tracing: bool,
    replies: Seq<ReplyView>,
    options: Seq<char>,
    j: int,
)
    requires
        0 <= j < replies.len(),
        asks(booting(args, tracing), replies, j),
        step(booting(args, tracing), replies, j).handler == (HandlerView::StoreExists { options }),
        replies[j].is_yes(),
        after(booting(args, tracing), replies, replies.len() as int).finished(),
    ensures
        exists|k: int|
            j < k && #[trigger] options_at(
                booting(args, tracing),
                replies,
                option_list(options),
                k,
            ),
{
    let m = booting(args, tracing);
    let before = after(m, replies, j);
    let now = after(m, replies, j + 1).agenda;
    lemma_next(m, replies, j);
    let steps = nix_store_steps(true, options, before.session);
    assert(now == steps + before.agenda.skip(1));
    assert(now[3] == steps[3]);
    assert(now[0] == steps[0] && now[1] == steps[1] && now[2] == steps[2]);
    assert(store_before(now, 3));
    lemma_options_due(args, tracing, replies, option_list(options), j + 1);
}

/// A store that lacks any of its options ends up with them all: unless it cannot be mounted onto
/// itself, it is remounted with every flag that a wanted option stands for.
pub proof fn law_the_store_is_remounted_with_all_its_flags(
    args: ArgsView,
    tracing: bool,
    replies: Seq<ReplyView>,
    desired: Seq<Seq<char>>,
    j: int,
)
    requires
        0 <= j,
        j + 3 < replies.len(),
        asks(booting(args, tracing), replies, j),
        step(booting(args, tracing), replies, j).handler == (HandlerView::StoreOptions { desired }),
        exists|opt: Seq<char>|
            desired.contains(opt) && !(#[trigger] options_or_empty(replies[j]).contains(opt)),
        replies[j + 3].failure() is None,
    ensures
        asks(booting(args, tracing), replies, j + 4),
        step(booting(args, tracing), replies, j + 4).request matches RequestView::Mount {
            target,
            flags,
            ..
        } && target == "/nix/store"@ && flags == set![
            Operation::Remount.bit(),
            Operation::Bind.bit(),
        ].union(wanted_flags(desired)),
{
    let m = booting(args, tracing);
    let s0 = after(m, replies, j);
    let current = options_or_empty(replies[j]);
    law_a_complete_store_is_left_alone(desired, current, s0.session);
    lemma_next(m, replies, j);
    let rest = s0.agenda.skip(1);
    let steps = store_options_steps(desired, current, s0.session);
    assert(steps.len() == 2);
    let s1 = after(m, replies, j + 1);
    assert(s1.agenda[0] == steps[0] && s1.agenda[1] == steps[1]);
    lemma_next(m, replies, j + 1);
    let s2 = after(m, replies, j + 2);
    assert(s2.agenda[0] == s1.agenda[1]);
    lemma_next(m, replies, j + 2);
    lemma_next(m, replies, j + 3);
}

/// Nothing is captured before the stage that does so.
proof fn lemma_captured_late(args: ArgsView, tracing: bool, replies: Seq<ReplyView>, k: int)
    requires
        0 <= k <= replies.len(),
        after(booting(args, tracing), replies, k).session.captured is Some,
    ensures
        ordered(after(booting(args, tracing), replies, k).agenda, 9, 14),
    decreases k,
{
    let m = booting(args, tracing);
    if k > 0 {
        let before = after(m, replies, k - 1);
        lemma_next(m, replies, k - 1);
        lemma_boot_ordered(args, tracing, replies, k - 1, k);
        lemma_boot_ordered(args, tracing, replies, k - 1, k - 1);
        if before.session.captured is Some {
            lemma_captured_late(args, tracing, replies, k - 1);
        }
        if !before.finished() {
            assert(in_place(before.agenda[0]));
            assert(before.agenda[0].stage.rank() >= 9);
        }
    }
}

/// The setup of the store is over after `k` replies: until then every step was for the store, and
/// now the machine is as if there had been none of them.
pub open spec fn store_left_behind(
    machine: MachineView,
    replies: Seq<ReplyView>,
    before: MachineView,
    j: int,
    k: int,
) -> bool {
    &&& j <= k <= replies.len()
    &&& forall|i: int|
        j <= i < k ==> (#[trigger] step(machine, replies, i)).stage == Stage::NixStore && after(
            machine,
            replies,
            i,
        ).session == before.session && after(machine, replies, i).failure == before.failure
    &&& after(machine, replies, k) == before
}

proof fn lemma_store_left_behind(
    args: ArgsView,
    tracing: bool,
    replies: Seq<ReplyView>,
    before: MachineView,
    pending: Seq<TaskView>,
    j: int,
)
    requires
        0 <= j <= replies.len(),
        after(booting(args, tracing), replies, j) == (MachineView {
            agenda: pending + before.agenda,
            ..before
        }),
        store_before(pending, pending.len() as int),
        before.session.captured is None,
        after(booting(args, tracing), replies, replies.len() as int).finished(),
    ensures
        exists|k: int| #[trigger]
            store_left_behind(booting(args, tracing), replies, before, j, k),
    decreases replies.len() - j,
{
    let m = booting(args, tracing);
    let now = after(m, replies, j);
    if pending.len() == 0 {
        assert(pending + before.agenda =~= before.agenda);
        assert(now == before);
        assert(store_left_behind(m, replies, before, j, j));
    } else {
        let task = now.agenda[0];
        assert(task == pending[0]);
        assert(j < replies.len());
        lemma_next(m, replies, j);
        lemma_boot_ordered(args, tracing, replies, 0, j);
        assert(in_place(task));
        lemma_leads_on(task, replies[j], now.session);
        let steps = steps_after(task.handler, replies[j], now.session)->Ok_0;
        let left = steps + pending.skip(1);
        assert(steps + now.agenda.skip(1) =~= left + before.agenda);
        assert(after(m, replies, j + 1) == (MachineView {
            agenda: left + before.agenda,
            ..before
        }));
        assert forall|i: int| 0 <= i < left.len() implies (#[trigger] left[i]).stage
            == Stage::NixStore by {
            if i < steps.len() {
                assert(left[i] == steps[i]);
            } else {
                assert(left[i] == pending[i - steps.len() + 1]);
            }
        }
        lemma_store_left_behind(args, tracing, replies, before, left, j + 1);
        let k = choose|k: int| #[trigger] store_left_behind(m, replies, before, j + 1, k);
        assert(step(m, replies, j) == task);
        assert(store_left_behind(m, replies, before, j, k));
    }
}

/// Whatever comes of the store, it changes nothing for the rest of the boot: once its setup is over,
/// the machine has the session, the failure and the steps that it would have had without it.
pub proof fn law_the_store_changes_nothing_later(
    args: ArgsView,
    tracing: bool,
    replies: Seq<ReplyView>,
    j: int,
)
    requires
        0 <= j <= replies.len(),
        asks(booting(args, tracing), replies, j),
        step(booting(args, tracing), replies, j).handler is StoreExists,
        after(booting(args, tracing), replies, replies.len() as int).finished(),
    ensures
        exists|k: int| #[trigger]
            store_left_behind(
                booting(args, tracing),
                replies,
                without_first(after(booting(args, tracing), replies, j)),
                j,
                k,
            ),
{
    let m = booting(args, tracing);
    let now = after(m, replies, j);
    let pending = seq![now.agenda[0]];
    lemma_boot_ordered(args, tracing, replies, 0, j);
    assert(in_place(now.agenda[0]));
    if now.session.captured is Some {
        lemma_captured_late(args, tracing, replies, j);
    }
    assert(pending + now.agenda.skip(1) =~= now.agenda);
    lemma_store_left_behind(args, tracing, replies, without_first(now), pending, j);
}

/// The machine without the step that it is at.
pub open spec fn without_first(machine: MachineView) -> MachineView {
    MachineView { agenda: machine.agenda.skip(1), ..machine }
}

// ---------------------------------------------------------------------------------------------
// Handing over.
// ---------------------------------------------------------------------------------------------

/// The variable is still to be removed, before anything takes the place of this process.
spec fn removal_due(tasks: Seq<TaskView>, name: Seq<char>) -> bool {
    exists|i: int|
        0 <= i < tasks.len() && #[trigger] tasks[i] == removal(name) && all_before(tasks, i)
}

/// Nothing before this place takes the place of this process.
spec fn all_before(tasks: Seq<TaskView>, i: int) -> bool {
    forall|j: int| 0 <= j < i ==> stays_put(#[trigger] tasks[j])
}

/// The step does not replace this process and does not lead to one that does.
spec fn stays_put(task: TaskView) -> bool {
    (task.handler is Ignore || task.handler is InitPid) && !(task.request is Exec)
}

/// The step removes the variable.
pub open spec fn removed_at(
    machine: MachineView,
    replies: Seq<ReplyView>,
    name: Seq<char>,
    k: int,
) -> bool {
    asks(machine, replies, k) && step(machine, replies, k) == removal(name)
}

proof fn lemma_removal_due(
    program: Seq<char>,
    args: Seq<Seq<char>>,
    replies: Seq<ReplyView>,
    name: Seq<char>,
    k: int,
)
    requires
        0 <= k <= replies.len(),
        private_variables().contains(name),
    ensures
        ({
            &&& removal_due(after(handing_off(program, args), replies, k).agenda, name)
            &&& after(handing_off(program, args), replies, k).session.captured is None
        }) || exists|j: int|
            0 <= j < k && #[trigger] removed_at(handing_off(program, args), replies, name, j),
    decreases k,
{
    let m = handing_off(program, args);
    if k == 0 {
        let steps = m.agenda;
        let n = choose|n: int| 0 <= n < private_variables().len() && private_variables()[n] == name;
        assert(after(m, replies, 0) == m);
        assert(steps[n + 2] == removal(name));
        assert forall|j: int| 0 <= j < n + 2 implies stays_put(#[trigger] steps[j]) by {
            if j >= 2 {
                assert(steps[j] == removal(private_variables()[j - 2]));
            }
        }
        assert(all_before(steps, n + 2));
    } else {
        let before = after(m, replies, k - 1);
        lemma_next(m, replies, k - 1);
        lemma_removal_due(program, args, replies, name, k - 1);
        if removal_due(before.agenda, name) && before.session.captured is None {
            let i = choose|i: int|
                0 <= i < before.agenda.len() && #[trigger] before.agenda[i] == removal(name)
                    && all_before(before.agenda, i);
            if i == 0 {
                assert(removed_at(m, replies, name, k - 1));
            } else {
                let task = before.agenda[0];
                let rest = before.agenda.skip(1);
                assert(stays_put(before.agenda[0]));
                let steps = steps_after(task.handler, replies[k - 1], before.session)->Ok_0;
                let now = after(m, replies, k).agenda;
                assert(now == steps + rest);
                let there = steps.len() + i - 1;
                assert(now[there] == before.agenda[i]);
                assert forall|j: int| 0 <= j < there implies stays_put(#[trigger] now[j]) by {
                    if j >= steps.len() {
                        assert(now[j] == before.agenda[j - steps.len() + 1]);
                    } else {
                        assert(now[j] == steps[j]);
                    }
                }
                assert(all_before(now, there));
            }
        }
    }
}

/// Whatever takes the place of this process sees none of the variables that configured the boot:
/// each of them has been removed before.
pub proof fn law_init_sees_no_private_variable(
    program: Seq<char>,
    args: Seq<Seq<char>>,
    replies: Seq<ReplyView>,
    name: Seq<char>,
    k: int,
)
    requires
        asks(handing_off(program, args), replies, k),
        step(handing_off(program, args), replies, k).request is Exec,
        private_variables().contains(name),
    ensures
        exists|j: int|
            0 <= j < k && #[trigger] removed_at(handing_off(program, args), replies, name, j),
{
    lemma_removal_due(program, args, replies, name, k);
    let agenda = after(handing_off(program, args), replies, k).agenda;
    if removal_due(agenda, name) {
        let i = choose|i: int|
            0 <= i < agenda.len() && #[trigger] agenda[i] == removal(name) && all_before(agenda, i);
        if i > 0 {
            assert(stays_put(agenda[0]));
        }
    }
}

/// What takes the place of this process: init, with the arguments that were passed on, or a shell
/// without any.
pub open spec fn takes_over(request: RequestView, program: Seq<char>, args: Seq<Seq<char>>) -> bool {
    request == (RequestView::Exec { program, args }) || request == (RequestView::Exec {
        program: "/bin/sh"@,
        args: Seq::empty(),
    })
}

spec fn all_take_over(tasks: Seq<TaskView>, program: Seq<char>, args: Seq<Seq<char>>) -> bool {
    forall|i: int|
        0 <= i < tasks.len() ==> {
            &&& (#[trigger] tasks[i]).request is Exec ==> takes_over(tasks[i].request, program, args)
            &&& tasks[i].handler is Ignore || tasks[i].handler is InitPid
                || tasks[i].handler is InitFailed
        }
}

proof fn lemma_all_take_over(
    program: Seq<char>,
    args: Seq<Seq<char>>,
    replies: Seq<ReplyView>,
    k: int,
)
    requires
        0 <= k <= replies.len(),
    ensures
        all_take_over(after(handing_off(program, args), replies, k).agenda, program, args),
        after(handing_off(program, args), replies, k).session.captured is None,
        after(handing_off(program, args), replies, k).failure is None,
    decreases k,
{
    let m = handing_off(program, args);
    let now = after(m, replies, k).agenda;
    if k == 0 {
        assert(after(m, replies, 0) == m);
    } else {
        let before = after(m, replies, k - 1);
        lemma_next(m, replies, k - 1);
        lemma_all_take_over(program, args, replies, k - 1);
        if !before.finished() {
            let task = before.agenda[0];
            let steps = steps_after(task.handler, replies[k - 1], before.session)->Ok_0;
            assert(all_take_over(steps, program, args));
            assert forall|i: int| 0 <= i < now.len() implies {
                &&& (#[trigger] now[i]).request is Exec ==> takes_over(
                    now[i].request,
                    program,
                    args,
                )
                &&& now[i].handler is Ignore || now[i].handler is InitPid
                    || now[i].handler is InitFailed
            } by {
                if i < steps.len() {
                    assert(now[i] == steps[i]);
                } else {
                    assert(now[i] == before.agenda[i - steps.len() + 1]);
                }
            }
        }
    }
}

/// Only init with its arguments, or a bare shell in its stead, ever takes the place of this
/// process; and handing over never fails short of the exit.
pub proof fn law_only_init_or_a_shell_takes_over(
    program: Seq<char>,
    args: Seq<Seq<char>>,
    replies: Seq<ReplyView>,
    k: int,
)
    requires
        0 <= k <= replies.len(),
    ensures
        asks(handing_off(program, args), replies, k) && step(
            handing_off(program, args),
            replies,
            k,
        ).request is Exec ==> takes_over(
            step(handing_off(program, args), replies, k).request,
            program,
            args,
        ),
        after(handing_off(program, args), replies, k).failure is None,
{
    lemma_all_take_over(program, args, replies, k);
}

} // verus!
