//! Every run comes to an end.

use vstd::prelude::*;

use crate::boot::stages;
use crate::files::{directories_steps, required_directories};
use crate::machine::{booting, handing_off, session_after, steps_after, MachineView};
use crate::request::ReplyView;
use crate::task::{ArgsView, HandlerView, SessionView, TaskView};
use crate::trace::driven;

verus! {

/// The most requests that a step with this handler can come to, its own among them.
pub open spec fn cost(handler: HandlerView) -> nat {
    match handler {
        HandlerView::Ignore => 1,
        HandlerView::LogDirectory { .. } => 81,
        HandlerView::SystemdStage1 { .. } => 76,
        HandlerView::KernelCommandLine { .. } => 74,
        HandlerView::Container => 4,
        HandlerView::RootOptions => 3,
        HandlerView::RootRemounted => 1,
        HandlerView::ProcMounted { .. } => 18,
        HandlerView::EarlyScriptRun { .. } => 1,
        HandlerView::SpecialMounted { .. } => 3,
        HandlerView::SpecialDirectory => 1,
        HandlerView::SpecialMount { .. } => 1,
        HandlerView::StoreExists { .. } => 13,
        HandlerView::StoreGroup => 3,
        HandlerView::StoreOwner => 2,
        HandlerView::StoreMode => 2,
        HandlerView::StoreOptions { .. } => 6,
        HandlerView::StoreContainer { .. } => 4,
        HandlerView::StoreBound { .. } => 3,
        HandlerView::StoreRemounted => 2,
        HandlerView::DirectoryMade { .. } => 1,
        HandlerView::TmpMode => 1,
        HandlerView::ResolvConfExists => 4,
        HandlerView::ResolvConfRun => 2,
        HandlerView::SystemConfigExists { .. } => 1,
        HandlerView::StdioDuplicated => 6,
        HandlerView::KernelLog { .. } => 5,
        HandlerView::CaptureStarted { .. } => 4,
        HandlerView::StdioRedirected { .. } => 3,
        HandlerView::ActivationExists { .. } => 7,
        HandlerView::ActivationStillExists { .. } => 6,
        HandlerView::ActivationRun { .. } => 2,
        HandlerView::BootRecorded { .. } => 1,
        HandlerView::PostBootExists { .. } => 5,
        HandlerView::PostBootRun { .. } => 2,
        HandlerView::InitPid => 2,
        HandlerView::InitFailed { .. } => 4,
    }
}

/// The most requests that these steps can come to.
pub open spec fn total_cost(tasks: Seq<TaskView>) -> nat
    decreases tasks.len(),
{
    if tasks.len() == 0 {
        0
    } else {
        total_cost(tasks.drop_last()) + cost(tasks.last().handler)
    }
}

/// The request that gives standard output and standard error back, while they are captured.
pub open spec fn owed(session: SessionView) -> nat {
    if session.captured is Some {
        1
    } else {
        0
    }
}

/// The most requests that a machine can still make.
pub open spec fn remaining(machine: MachineView) -> nat {
    total_cost(machine.agenda) + owed(machine.session)
}

/// A reply leads to fewer requests than the step could come to.
pub open spec fn spends(handler: HandlerView, reply: ReplyView, session: SessionView) -> bool {
    let after = owed(session_after(handler, reply, session));
    match steps_after(handler, reply, session) {
        Ok(steps) => total_cost(steps) + after < cost(handler) + owed(session),
        Err(_) => after < cost(handler) + owed(session),
    }
}

/// The cost of the step at a place, if there is a step there.
spec fn cost_at(tasks: Seq<TaskView>, i: int) -> nat {
    if 0 <= i < tasks.len() {
        cost(tasks[i].handler)
    } else {
        0
    }
}

broadcast proof fn lemma_cost_push(tasks: Seq<TaskView>, task: TaskView)
    ensures
        #[trigger] total_cost(tasks.push(task)) == total_cost(tasks) + cost(task.handler),
{
    assert(tasks.push(task).drop_last() =~= tasks);
}

broadcast proof fn lemma_cost_short(tasks: Seq<TaskView>)
    ensures
        tasks.len() <= 8 ==> #[trigger] total_cost(tasks) == cost_at(tasks, 0) + cost_at(tasks, 1)
            + cost_at(tasks, 2) + cost_at(tasks, 3) + cost_at(tasks, 4) + cost_at(tasks, 5)
            + cost_at(tasks, 6) + cost_at(tasks, 7),
    decreases tasks.len(),
{
    if 0 < tasks.len() {
        lemma_cost_short(tasks.drop_last());
    }
}

broadcast proof fn lemma_cost_add(a: Seq<TaskView>, b: Seq<TaskView>)
    ensures
        #[trigger] total_cost(a + b) == total_cost(a) + total_cost(b),
    decreases b.len(),
{
    if b.len() == 0 {
        assert(a + b =~= a);
    } else {
        lemma_cost_add(a, b.drop_last());
        assert((a + b).drop_last() =~= a + b.drop_last());
    }
}

broadcast group group_cost {
    lemma_cost_push,
    lemma_cost_short,
    lemma_cost_add,
}

proof fn lemma_stages_cost(args: ArgsView, after_systemd: bool, session: SessionView)
    ensures
        total_cost(stages(args, after_systemd, session)) <= 70,
{
    broadcast use group_cost;

    lemma_directories_cost(required_directories(), session);

}

proof fn lemma_directories_cost(paths: Seq<Seq<char>>, session: SessionView)
    ensures
        total_cost(directories_steps(paths, session)) == 2 * paths.len(),
    decreases paths.len(),
{
    broadcast use group_cost;

    if paths.len() > 0 {
        lemma_directories_cost(paths.drop_last(), session);
    }
}

proof fn lemma_setup_spends(handler: HandlerView, reply: ReplyView, session: SessionView)
    requires
        handler is LogDirectory || handler is SystemdStage1 || handler is KernelCommandLine,
    ensures
        spends(handler, reply, session),
{
    broadcast use group_cost;

    match handler {
        HandlerView::KernelCommandLine { args, after_systemd } => {
            lemma_stages_cost(args, after_systemd, session_after(handler, reply, session));
        },
        _ => {},
    }
}

proof fn lemma_mounts_spend(handler: HandlerView, reply: ReplyView, session: SessionView)
    requires
        handler is Ignore || handler is Container || handler is RootOptions
            || handler is RootRemounted || handler is ProcMounted || handler is EarlyScriptRun
            || handler is SpecialMounted || handler is SpecialDirectory || handler is SpecialMount,
    ensures
        spends(handler, reply, session),
{
    broadcast use group_cost;

}

proof fn lemma_store_spends(handler: HandlerView, reply: ReplyView, session: SessionView)
    requires
        handler is StoreExists || handler is StoreGroup || handler is StoreOwner
            || handler is StoreMode || handler is StoreOptions || handler is StoreContainer
            || handler is StoreBound || handler is StoreRemounted,
    ensures
        spends(handler, reply, session),
{
    broadcast use group_cost;

}

proof fn lemma_files_spend(handler: HandlerView, reply: ReplyView, session: SessionView)
    requires
        handler is DirectoryMade || handler is TmpMode
            || handler is ResolvConfExists || handler is ResolvConfRun
            || handler is SystemConfigExists,
    ensures
        spends(handler, reply, session),
{
    broadcast use group_cost;

}

proof fn lemma_stdio_spends(handler: HandlerView, reply: ReplyView, session: SessionView)
    requires
        handler is StdioDuplicated || handler is KernelLog || handler is CaptureStarted
            || handler is StdioRedirected,
    ensures
        spends(handler, reply, session),
{
    broadcast use group_cost;

}

proof fn lemma_activation_spends(handler: HandlerView, reply: ReplyView, session: SessionView)
    requires
        handler is ActivationExists || handler is ActivationStillExists || handler is ActivationRun
            || handler is BootRecorded || handler is PostBootExists || handler is PostBootRun,
    ensures
        spends(handler, reply, session),
{
    broadcast use group_cost;

}

proof fn lemma_handoff_spends(handler: HandlerView, reply: ReplyView, session: SessionView)
    requires
        handler is InitPid || handler is InitFailed,
    ensures
        spends(handler, reply, session),
{
    broadcast use group_cost;

}

proof fn lemma_spends(handler: HandlerView, reply: ReplyView, session: SessionView)
    ensures
        spends(handler, reply, session),
{
    if handler is LogDirectory || handler is SystemdStage1 || handler is KernelCommandLine {
        lemma_setup_spends(handler, reply, session);
    } else if handler is StoreExists || handler is StoreGroup || handler is StoreOwner
        || handler is StoreMode || handler is StoreOptions || handler is StoreContainer
        || handler is StoreBound || handler is StoreRemounted {
        lemma_store_spends(handler, reply, session);
    } else if handler is DirectoryMade || handler is TmpMode
        || handler is ResolvConfExists || handler is ResolvConfRun || handler is SystemConfigExists {
        lemma_files_spend(handler, reply, session);
    } else if handler is StdioDuplicated || handler is KernelLog || handler is CaptureStarted
        || handler is StdioRedirected {
        lemma_stdio_spends(handler, reply, session);
    } else if handler is ActivationExists || handler is ActivationStillExists
        || handler is ActivationRun || handler is BootRecorded || handler is PostBootExists
        || handler is PostBootRun {
        lemma_activation_spends(handler, reply, session);
    } else if handler is InitPid || handler is InitFailed {
        lemma_handoff_spends(handler, reply, session);
    } else {
        lemma_mounts_spend(handler, reply, session);
    }
}

/// Each reply brings a machine nearer to its end, whatever the reply is.
pub proof fn law_each_reply_counts(machine: MachineView, reply: ReplyView)
    requires
        !machine.finished(),
    ensures
        remaining(machine.resumed(reply)) < remaining(machine),
{
    broadcast use group_cost;

    let task = machine.agenda[0];
    let rest = machine.agenda.skip(1);
    lemma_spends(task.handler, reply, machine.session);
    assert(machine.agenda =~= seq![task] + rest);
    assert(total_cost(seq![task]) == cost(task.handler));
}

proof fn lemma_driven_remaining(machine: MachineView, replies: Seq<ReplyView>)
    ensures
        driven(machine, replies).finished() || remaining(driven(machine, replies)) + replies.len()
            <= remaining(machine),
    decreases replies.len(),
{
    if replies.len() > 0 {
        let before = driven(machine, replies.drop_last());
        lemma_driven_remaining(machine, replies.drop_last());
        if !before.finished() {
            law_each_reply_counts(before, replies.last());
        }
    }
}

/// A boot makes at most 81 requests, whatever the replies to them are.
pub proof fn law_every_boot_ends(args: ArgsView, tracing: bool, replies: Seq<ReplyView>)
    requires
        replies.len() >= 81,
    ensures
        driven(booting(args, tracing), replies).finished(),
{
    broadcast use group_cost;

    lemma_driven_remaining(booting(args, tracing), replies);
}

/// A handoff makes at most 15 requests, if none of them replaces the process.
pub proof fn law_every_handoff_ends(
    program: Seq<char>,
    args: Seq<Seq<char>>,
    replies: Seq<ReplyView>,
)
    requires
        replies.len() >= 15,
    ensures
        driven(handing_off(program, args), replies).finished(),
{
    broadcast use group_cost;

    lemma_driven_remaining(handing_off(program, args), replies);
}

} // verus!
