//! When a boot succeeds, and that a successful one runs its post-boot commands.

use vstd::prelude::*;

use crate::activation::post_boot_args;
use crate::boot::stages;
use crate::machine::{booting, session_after, steps_after, MachineView};
use crate::order::{follows, in_place, is_scout, lemma_boot_ordered, orders};
use crate::request::{ReplyView, RequestView};
use crate::task::{asked, ArgsView, HandlerView, SessionView, Stage, TaskView};
use crate::trace::{after, asks, lemma_next, step};

verus! {

// ---------------------------------------------------------------------------------------------
// Success is owed.
// ---------------------------------------------------------------------------------------------

/// The replies that stop a boot, by the step that they are for.
pub open spec fn fatal(handler: HandlerView, reply: ReplyView) -> bool {
    match handler {
        HandlerView::RootRemounted => reply is Failed,
        HandlerView::EarlyScriptRun { .. } => reply is Failed || reply matches ReplyView::Exited {
            success: false,
            ..
        },
        HandlerView::SpecialDirectory => reply is Failed,
        HandlerView::SpecialMount { .. } => reply is Failed,
        HandlerView::DirectoryMade { .. } => reply is Failed,
        HandlerView::TmpMode => reply is Failed,
        HandlerView::ResolvConfRun => reply is NoInput,
        HandlerView::SystemConfigExists { .. } => !reply.is_yes(),
        HandlerView::ActivationExists { strict, .. } => strict && !reply.is_yes(),
        HandlerView::ActivationStillExists { .. } => !reply.is_yes(),
        HandlerView::ActivationRun { .. } => reply is Failed,
        HandlerView::BootRecorded { .. } => reply is Failed,
        HandlerView::PostBootRun { .. } => reply is Failed,
        _ => false,
    }
}

/// The reply to the `k`-th request is one that stops a boot.
pub open spec fn fatal_at(machine: MachineView, replies: Seq<ReplyView>, k: int) -> bool {
    &&& 0 <= k < replies.len()
    &&& asks(machine, replies, k)
    &&& fatal(step(machine, replies, k).handler, replies[k])
}

proof fn lemma_fatal(handler: HandlerView, reply: ReplyView, session: SessionView)
    ensures
        steps_after(handler, reply, session) is Err <==> fatal(handler, reply),
{
}

/// A boot succeeds exactly as long as none of the replies is one that stops it: no other reply can
/// make it fail, and none of those can be passed over.
pub proof fn law_success_is_owed(
    args: ArgsView,
    tracing: bool,
    replies: Seq<ReplyView>,
    k: int,
)
    requires
        0 <= k <= replies.len(),
    ensures
        after(booting(args, tracing), replies, k).failure is None <==> forall|j: int|
            0 <= j < k ==> !#[trigger] fatal_at(booting(args, tracing), replies, j),
    decreases k,
{
    let m = booting(args, tracing);
    if k > 0 {
        let before = after(m, replies, k - 1);
        lemma_next(m, replies, k - 1);
        law_success_is_owed(args, tracing, replies, k - 1);
        if !before.finished() {
            lemma_fatal(before.agenda[0].handler, replies[k - 1], before.session);
            lemma_failure_of(before, replies[k - 1]);
            assert(step(m, replies, k - 1) == before.agenda[0]);
        }
        assert(fatal_at(m, replies, k - 1) <==> !before.finished() && fatal(
            before.agenda[0].handler,
            replies[k - 1],
        ));
    }
}

/// A failure comes from an error, and it stays.
proof fn lemma_failure_of(machine: MachineView, reply: ReplyView)
    requires
        !machine.finished(),
    ensures
        machine.resumed(reply).failure is None <==> machine.failure is None && steps_after(
            machine.agenda[0].handler,
            reply,
            machine.session,
        ) is Ok,
{
}

// ---------------------------------------------------------------------------------------------
// Post-boot commands.
// ---------------------------------------------------------------------------------------------

/// The step that runs the post-boot commands through their shell.
pub open spec fn post_boot_step(args: ArgsView, commands: Seq<char>, tracing: bool) -> TaskView {
    asked(
        Stage::PostBoot,
        RequestView::Spawn {
            program: args.post_boot_shell,
            args: post_boot_args(commands, tracing),
            stdin: None,
        },
        HandlerView::PostBootRun { shell: args.post_boot_shell, commands },
    )
}

/// Whenever the boot asks whether the post-boot commands are there, the answer is yes.
pub open spec fn commands_found(machine: MachineView, replies: Seq<ReplyView>) -> bool {
    forall|j: int|
        0 <= j < replies.len() && asks(machine, replies, j) && (#[trigger] step(
            machine,
            replies,
            j,
        )).handler is PostBootExists ==> replies[j].is_yes()
}

/// The shell has been started on the post-boot commands, and traces them if commands are traced.
pub open spec fn commands_run(
    machine: MachineView,
    replies: Seq<ReplyView>,
    args: ArgsView,
    commands: Seq<char>,
    k: int,
) -> bool {
    &&& 0 <= k < replies.len()
    &&& asks(machine, replies, k)
    &&& step(machine, replies, k) == post_boot_step(
        args,
        commands,
        after(machine, replies, k).session.tracing,
    )
    &&& replies[k].failure() is None
}

/// The step is the run of the post-boot commands, or leads to it.
spec fn will_run(task: TaskView, args: ArgsView, commands: Seq<char>, tracing: bool) -> bool {
    ||| orders(task.handler) == Some(args)
    ||| task.stage == Stage::PostBoot && task.handler == (HandlerView::PostBootExists {
        shell: args.post_boot_shell,
        commands,
    })
    ||| task == post_boot_step(args, commands, tracing)
}

/// The run of the post-boot commands is still to come.
spec fn run_due(tasks: Seq<TaskView>, args: ArgsView, commands: Seq<char>, tracing: bool) -> bool {
    exists|i: int| 0 <= i < tasks.len() && will_run(#[trigger] tasks[i], args, commands, tracing)
}

proof fn lemma_run_leads_on(
    task: TaskView,
    reply: ReplyView,
    session: SessionView,
    args: ArgsView,
    commands: Seq<char>,
)
    requires
        args.post_boot_commands == Some(commands),
        will_run(task, args, commands, session.tracing),
        task.handler is PostBootExists ==> reply.is_yes(),
        steps_after(task.handler, reply, session) is Ok,
    ensures
        run_due(
            steps_after(task.handler, reply, session)->Ok_0,
            args,
            commands,
            session_after(task.handler, reply, session).tracing,
        ) || task == post_boot_step(args, commands, session.tracing) && reply.failure() is None,
{
    let steps = steps_after(task.handler, reply, session)->Ok_0;
    let known = session_after(task.handler, reply, session);
    match task.handler {
        HandlerView::LogDirectory { .. } => {
            assert(will_run(steps[steps.len() - 1], args, commands, known.tracing));
        },
        HandlerView::SystemdStage1 { .. } => {
            assert(will_run(steps[steps.len() - 1], args, commands, known.tracing));
        },
        HandlerView::KernelCommandLine { after_systemd, .. } => {
            let planned = stages(args, after_systemd, known);
            let offset = steps.len() - planned.len();
            assert(will_run(planned[planned.len() - 2], args, commands, known.tracing));
            assert(steps[offset + planned.len() - 2] == planned[planned.len() - 2]);
        },
        HandlerView::PostBootExists { .. } => {
            assert(steps[steps.len() - 1] == post_boot_step(args, commands, known.tracing));
            assert(will_run(steps[steps.len() - 1], args, commands, known.tracing));
        },
        _ => {},
    }
}

proof fn lemma_boot_runs(
    args: ArgsView,
    tracing: bool,
    replies: Seq<ReplyView>,
    commands: Seq<char>,
    k: int,
)
    requires
        0 <= k <= replies.len(),
        args.post_boot_commands == Some(commands),
        commands_found(booting(args, tracing), replies),
        after(booting(args, tracing), replies, k).failure is None,
    ensures
        run_due(
            after(booting(args, tracing), replies, k).agenda,
            args,
            commands,
            after(booting(args, tracing), replies, k).session.tracing,
        ) || exists|i: int|
            i < k && #[trigger] commands_run(booting(args, tracing), replies, args, commands, i),
    decreases k,
{
    let m = booting(args, tracing);
    let now = after(m, replies, k);
    if k == 0 {
        assert(will_run(now.agenda[0], args, commands, now.session.tracing));
    } else {
        let before = after(m, replies, k - 1);
        let reply = replies[k - 1];
        lemma_next(m, replies, k - 1);
        lemma_boot_ordered(args, tracing, replies, 0, k - 1);
        lemma_boot_runs(args, tracing, replies, commands, k - 1);
        if !before.finished() && run_due(before.agenda, args, commands, before.session.tracing) {
            let task = before.agenda[0];
            let rest = before.agenda.skip(1);
            let steps = steps_after(task.handler, reply, before.session)->Ok_0;
            let i = choose|i: int|
                0 <= i < before.agenda.len() && will_run(
                    #[trigger] before.agenda[i],
                    args,
                    commands,
                    before.session.tracing,
                );
            if i > 0 {
                let there = steps.len() + i - 1;
                assert((steps + rest)[there] == before.agenda[i]);
                assert(now.agenda[there] == before.agenda[i]);
                assert(follows(before.agenda[0], before.agenda[i]));
                assert(in_place(before.agenda[i]));
                assert(!is_scout(task.handler));
                assert(will_run(now.agenda[there], args, commands, now.session.tracing));
            } else {
                assert(step(m, replies, k - 1) == task);
                lemma_run_leads_on(task, reply, before.session, args, commands);
                let known = session_after(task.handler, reply, before.session);
                if run_due(steps, args, commands, known.tracing) {
                    let n = choose|n: int|
                        0 <= n < steps.len() && will_run(
                            #[trigger] steps[n],
                            args,
                            commands,
                            known.tracing,
                        );
                    assert(now.agenda[n] == steps[n]);
                } else {
                    assert(commands_run(m, replies, args, commands, k - 1));
                }
            }
        }
    }
}

/// Post-boot commands that were ordered and that are there are run: a boot that comes to its end
/// without a failure has started the shell on them.
pub proof fn law_post_boot_commands_are_run(
    args: ArgsView,
    tracing: bool,
    replies: Seq<ReplyView>,
    commands: Seq<char>,
)
    requires
        args.post_boot_commands == Some(commands),
        commands_found(booting(args, tracing), replies),
        after(booting(args, tracing), replies, replies.len() as int).finished(),
        after(booting(args, tracing), replies, replies.len() as int).failure is None,
    ensures
        exists|k: int| #[trigger]
            commands_run(booting(args, tracing), replies, args, commands, k),
{
    lemma_boot_runs(args, tracing, replies, commands, replies.len() as int);
}

} // verus!
