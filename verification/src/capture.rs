//! Standard output and standard error are always given back, and each from the copy that was made
//! of it.

use vstd::prelude::*;

use crate::boot::stages;
use crate::files::{directories_steps, directory_steps, required_directories};
use crate::machine::{booting, session_after, steps_after, MachineView};
use crate::order::{follows, in_place, is_scout, lemma_boot_ordered, lemma_leads_on};
use crate::request::{ReplyView, RequestView};
use crate::stdio::{restore_step, restoring};
use crate::task::{ArgsView, HandlerView, SavedStdio, SessionView, Stage, TaskView};
use crate::trace::{after, asks, lemma_next, step};

verus! {

/// The steps of the capture, and those that can lead to it.
spec fn can_capture(handler: HandlerView) -> bool {
    is_scout(handler) || handler is StdioDuplicated || handler is KernelLog
        || handler is CaptureStarted || handler is StdioRedirected
}

spec fn no_capture(tasks: Seq<TaskView>) -> bool {
    forall|i: int| 0 <= i < tasks.len() ==> !can_capture((#[trigger] tasks[i]).handler)
}

/// The descriptors are held, to be given back before the end, or they are being given back.
spec fn gives_back(machine: MachineView, saved: SavedStdio) -> bool {
    ||| {
        &&& machine.session.captured == Some(saved)
        &&& machine.agenda.len() > 0
        &&& no_capture(machine.agenda)
    }
    ||| {
        &&& machine.session.captured is None
        &&& machine.agenda == seq![restore_step(saved)]
    }
}

proof fn lemma_no_capture(task: TaskView, reply: ReplyView, session: SessionView)
    requires
        in_place(task),
        !can_capture(task.handler),
    ensures
        match steps_after(task.handler, reply, session) {
            Ok(steps) => no_capture(steps),
            Err(_) => true,
        },
        session_after(task.handler, reply, session).captured == session.captured,
{
    lemma_leads_on(task, reply, session);
}

proof fn lemma_keeps_giving_back(
    args: ArgsView,
    tracing: bool,
    replies: Seq<ReplyView>,
    saved: SavedStdio,
    k: int,
)
    requires
        0 <= k < replies.len(),
        gives_back(after(booting(args, tracing), replies, k), saved),
    ensures
        gives_back(after(booting(args, tracing), replies, k + 1), saved) || step(
            booting(args, tracing),
            replies,
            k,
        ) == restore_step(saved) && after(booting(args, tracing), replies, k + 1).finished(),
{
    let m = booting(args, tracing);
    let before = after(m, replies, k);
    let now = after(m, replies, k + 1);
    lemma_next(m, replies, k);
    lemma_boot_ordered(args, tracing, replies, 0, k);
    let task = before.agenda[0];
    let rest = before.agenda.skip(1);
    if before.session.captured is Some {
        lemma_no_capture(task, replies[k], before.session);
        if let Ok(steps) = steps_after(task.handler, replies[k], before.session) {
            let all = steps + rest;
            assert forall|i: int| 0 <= i < all.len() implies !can_capture(
                (#[trigger] all[i]).handler,
            ) by {
                if i >= steps.len() {
                    assert(all[i] == before.agenda[i - steps.len() + 1]);
                } else {
                    assert(all[i] == steps[i]);
                }
            }
        }
    } else {
        assert(rest =~= Seq::empty());
        assert(now.agenda =~= Seq::empty());
    }
}

/// The step gives the saved descriptors back, and it is the last one.
pub open spec fn given_back(
    machine: MachineView,
    replies: Seq<ReplyView>,
    saved: SavedStdio,
    k: int,
) -> bool {
    &&& 0 <= k < replies.len()
    &&& asks(machine, replies, k)
    &&& step(machine, replies, k) == (TaskView {
        stage: Stage::RestoreStdio,
        request: RequestView::RestoreStdio { stdout: saved.stdout, stderr: saved.stderr },
        handler: HandlerView::Ignore,
    })
    &&& after(machine, replies, k + 1).finished()
}

proof fn lemma_given_back(
    args: ArgsView,
    tracing: bool,
    replies: Seq<ReplyView>,
    saved: SavedStdio,
    j: int,
)
    requires
        0 <= j <= replies.len(),
        gives_back(after(booting(args, tracing), replies, j), saved),
        after(booting(args, tracing), replies, replies.len() as int).finished(),
    ensures
        exists|k: int| j <= k && #[trigger] given_back(booting(args, tracing), replies, saved, k),
    decreases replies.len() - j,
{
    let m = booting(args, tracing);
    if j < replies.len() {
        lemma_keeps_giving_back(args, tracing, replies, saved, j);
        if gives_back(after(m, replies, j + 1), saved) {
            lemma_given_back(args, tracing, replies, saved, j + 1);
        } else {
            assert(given_back(m, replies, saved, j));
        }
    }
}

/// Once standard output and standard error have been captured, they are given back as the very
/// last thing that a boot does, whether it fails or succeeds.
pub proof fn law_stdio_is_given_back(
    args: ArgsView,
    tracing: bool,
    replies: Seq<ReplyView>,
    saved: SavedStdio,
    j: int,
)
    requires
        0 <= j < replies.len(),
        asks(booting(args, tracing), replies, j),
        step(booting(args, tracing), replies, j).handler matches HandlerView::StdioRedirected {
            saved: s,
            ..
        } && s == saved,
        replies[j].failure() is None,
        after(booting(args, tracing), replies, replies.len() as int).finished(),
    ensures
        exists|k: int| j < k && #[trigger] given_back(booting(args, tracing), replies, saved, k),
{
    let m = booting(args, tracing);
    let before = after(m, replies, j);
    let now = after(m, replies, j + 1);
    lemma_next(m, replies, j);
    lemma_boot_ordered(args, tracing, replies, 0, j);
    let rest = before.agenda.skip(1);
    let steps = steps_after(before.agenda[0].handler, replies[j], before.session)->Ok_0;
    assert forall|i: int| 0 <= i < now.agenda.len() implies !can_capture(
        (#[trigger] now.agenda[i]).handler,
    ) by {
        if i > 0 {
            assert(now.agenda[i] == before.agenda[i]);
            assert(follows(before.agenda[0], before.agenda[i]));
            assert(in_place(before.agenda[i]));
        }
    }
    lemma_given_back(args, tracing, replies, saved, j + 1);
}

/// If standard output and standard error could not both be redirected, they are given back at once:
/// neither is left on the pipe.
pub proof fn law_a_failed_redirect_is_undone(
    args: ArgsView,
    tracing: bool,
    replies: Seq<ReplyView>,
    saved: SavedStdio,
    j: int,
)
    requires
        0 <= j < replies.len(),
        asks(booting(args, tracing), replies, j),
        step(booting(args, tracing), replies, j).handler matches HandlerView::StdioRedirected {
            saved: s,
            ..
        } && s == saved,
        replies[j].failure() is Some,
    ensures
        asks(booting(args, tracing), replies, j + 1),
        step(booting(args, tracing), replies, j + 1).request == (RequestView::RestoreStdio {
            stdout: saved.stdout,
            stderr: saved.stderr,
        }),
        after(booting(args, tracing), replies, j + 1).session.captured is None,
{
    lemma_next(booting(args, tracing), replies, j);
}

/// The descriptors of a capture are given back, whatever comes of the redirection and of the boot.
pub proof fn law_no_redirect_is_left_standing(
    args: ArgsView,
    tracing: bool,
    replies: Seq<ReplyView>,
    saved: SavedStdio,
    j: int,
)
    requires
        0 <= j < replies.len(),
        asks(booting(args, tracing), replies, j),
        step(booting(args, tracing), replies, j).handler matches HandlerView::StdioRedirected {
            saved: s,
            ..
        } && s == saved,
        after(booting(args, tracing), replies, replies.len() as int).finished(),
    ensures
        exists|k: int|
            j < k < replies.len() && #[trigger] step(booting(args, tracing), replies, k).request
                == (RequestView::RestoreStdio { stdout: saved.stdout, stderr: saved.stderr }),
{
    let m = booting(args, tracing);
    if replies[j].failure() is Some {
        law_a_failed_redirect_is_undone(args, tracing, replies, saved, j);
        assert(j + 1 < replies.len());
        assert(step(m, replies, j + 1).request == restoring(saved));
    } else {
        law_stdio_is_given_back(args, tracing, replies, saved, j);
        let k = choose|k: int| j < k && #[trigger] given_back(m, replies, saved, k);
        assert(step(m, replies, k).request == restoring(saved));
    }
}

/// The copies of standard output and standard error that a handler has been handed.
pub(crate) open spec fn held_by(handler: HandlerView) -> Option<SavedStdio> {
    match handler {
        HandlerView::KernelLog { saved } => Some(saved),
        HandlerView::CaptureStarted { saved, .. } => Some(saved),
        HandlerView::StdioRedirected { saved, .. } => Some(saved),
        _ => None,
    }
}

/// The step holds these copies, or gives them back.
pub(crate) open spec fn deals_with(task: TaskView, saved: SavedStdio) -> bool {
    held_by(task.handler) == Some(saved) || task.request == restoring(saved)
}

/// The reply brings these copies.
spec fn brings(task: TaskView, reply: ReplyView, saved: SavedStdio) -> bool {
    &&& task.handler is StdioDuplicated
    &&& saved.stdout >= 0 && saved.stderr >= 0
    &&& reply matches ReplyView::Duplicates { stdout, stderr, .. } && stdout == saved.stdout
        && stderr == saved.stderr
}

/// None of the steps has anything to do with copies.
spec fn hold_nothing(tasks: Seq<TaskView>) -> bool {
    forall|i: int|
        0 <= i < tasks.len() ==> held_by((#[trigger] tasks[i]).handler) is None && !(
        tasks[i].request is RestoreStdio)
}

proof fn lemma_hold_nothing_add(a: Seq<TaskView>, b: Seq<TaskView>)
    requires
        hold_nothing(a),
        hold_nothing(b),
    ensures
        hold_nothing(a + b),
{
    let c = a + b;
    assert forall|i: int| 0 <= i < c.len() implies held_by((#[trigger] c[i]).handler) is None && !(
    c[i].request is RestoreStdio) by {
        if i < a.len() {
            assert(c[i] == a[i]);
        } else {
            assert(c[i] == b[i - a.len()]);
        }
    }
}

proof fn lemma_directories_hold_nothing(paths: Seq<Seq<char>>, session: SessionView)
    ensures
        hold_nothing(directories_steps(paths, session)),
    decreases paths.len(),
{
    if paths.len() > 0 {
        lemma_directories_hold_nothing(paths.drop_last(), session);
        lemma_hold_nothing_add(
            directories_steps(paths.drop_last(), session),
            directory_steps(paths.last(), session),
        );
    }
}

proof fn lemma_stages_hold_nothing(args: ArgsView, after_systemd: bool, session: SessionView)
    ensures
        hold_nothing(stages(args, after_systemd, session)),
{
    lemma_directories_hold_nothing(required_directories(), session);
}

/// Only the stage that captures standard output deals with copies.
proof fn lemma_holds_nothing(task: TaskView, reply: ReplyView, session: SessionView)
    requires
        in_place(task),
        task.stage != Stage::CaptureStdio,
        steps_after(task.handler, reply, session) is Ok,
    ensures
        hold_nothing(steps_after(task.handler, reply, session)->Ok_0),
{
    if let HandlerView::KernelCommandLine { args, after_systemd } = task.handler {
        let steps = steps_after(task.handler, reply, session)->Ok_0;
        let known = session_after(task.handler, reply, session);
        let planned = stages(args, after_systemd, known);
        let first = steps.take(steps.len() - planned.len());
        lemma_stages_hold_nothing(args, after_systemd, known);
        assert(steps =~= first + planned);
        assert(hold_nothing(first));
        lemma_hold_nothing_add(first, planned);
    }
}

/// The steps that a reply leads to deal with the copies that the step held, or with those that the
/// reply brings.
proof fn lemma_steps_deal_with(
    task: TaskView,
    reply: ReplyView,
    session: SessionView,
    saved: SavedStdio,
    i: int,
)
    requires
        in_place(task),
        steps_after(task.handler, reply, session) is Ok,
        0 <= i < steps_after(task.handler, reply, session)->Ok_0.len(),
        deals_with(steps_after(task.handler, reply, session)->Ok_0[i], saved),
    ensures
        held_by(task.handler) == Some(saved) || brings(task, reply, saved),
{
    if task.stage != Stage::CaptureStdio {
        lemma_holds_nothing(task, reply, session);
    }
}

/// A machine that deals with copies after a reply dealt with them before, or was brought them.
proof fn lemma_resumed_deals_with(machine: MachineView, reply: ReplyView, saved: SavedStdio)
    requires
        !machine.finished(),
        in_place(machine.agenda[0]),
        machine_deals_with(machine.resumed(reply), saved),
    ensures
        machine_deals_with(machine, saved) || brings(machine.agenda[0], reply, saved),
{
    let task = machine.agenda[0];
    let now = machine.resumed(reply);
    let known = session_after(task.handler, reply, machine.session);
    let rest = machine.agenda.skip(1);
    lemma_captured_from(task, reply, machine.session);
    assert(deals_with(machine.agenda[0], saved) ==> machine_deals_with(machine, saved));
    if known.captured != Some(saved) {
        assert(now.session.captured != Some(saved));
        let n = choose|n: int| 0 <= n < now.agenda.len() && deals_with(#[trigger] now.agenda[n], saved);
        if let Ok(steps) = steps_after(task.handler, reply, machine.session) {
            let all = steps + rest;
            if all.len() > 0 {
                assert(now.agenda == all);
                if n < steps.len() {
                    assert(all[n] == steps[n]);
                    lemma_steps_deal_with(task, reply, machine.session, saved, n);
                } else {
                    assert(all[n] == machine.agenda[n - steps.len() + 1]);
                }
            }
        }
    }
}

/// What is captured after a reply was captured before, or the step held it.
proof fn lemma_captured_from(task: TaskView, reply: ReplyView, session: SessionView)
    ensures
        session_after(task.handler, reply, session).captured matches Some(saved)
            ==> session.captured == Some(saved) || held_by(task.handler) == Some(saved),
{
}

/// The machine holds these copies, or is to give them back.
pub(crate) open spec fn machine_deals_with(machine: MachineView, saved: SavedStdio) -> bool {
    ||| machine.session.captured == Some(saved)
    ||| exists|i: int|
        0 <= i < machine.agenda.len() && deals_with(#[trigger] machine.agenda[i], saved)
}

/// These are the copies that were made when the boot asked for them.
pub open spec fn copied_at(
    machine: MachineView,
    replies: Seq<ReplyView>,
    saved: SavedStdio,
    k: int,
) -> bool {
    &&& 0 <= k < replies.len()
    &&& asks(machine, replies, k)
    &&& step(machine, replies, k).handler is StdioDuplicated
    &&& saved.stdout >= 0 && saved.stderr >= 0
    &&& replies[k] matches ReplyView::Duplicates { stdout, stderr, .. } && stdout == saved.stdout
        && stderr == saved.stderr
}

pub(crate) proof fn lemma_copied_before(
    args: ArgsView,
    tracing: bool,
    replies: Seq<ReplyView>,
    saved: SavedStdio,
    k: int,
)
    requires
        0 <= k <= replies.len(),
        machine_deals_with(after(booting(args, tracing), replies, k), saved),
    ensures
        exists|j: int|
            0 <= j < k && #[trigger] copied_at(booting(args, tracing), replies, saved, j),
    decreases k,
{
    let m = booting(args, tracing);
    if k == 0 {
        assert(after(m, replies, 0) == m);
    } else {
        let before = after(m, replies, k - 1);
        lemma_next(m, replies, k - 1);
        lemma_boot_ordered(args, tracing, replies, 0, k - 1);
        if !before.finished() {
            lemma_resumed_deals_with(before, replies[k - 1], saved);
        }
        if machine_deals_with(before, saved) {
            lemma_copied_before(args, tracing, replies, saved, k - 1);
        } else {
            assert(copied_at(m, replies, saved, k - 1));
        }
    }
}

/// Standard output and standard error are only ever given back from the copies that were made of
/// them, each from its own.
pub proof fn law_what_was_copied_is_given_back(
    args: ArgsView,
    tracing: bool,
    replies: Seq<ReplyView>,
    saved: SavedStdio,
    k: int,
)
    requires
        asks(booting(args, tracing), replies, k),
        step(booting(args, tracing), replies, k).request == (RequestView::RestoreStdio {
            stdout: saved.stdout,
            stderr: saved.stderr,
        }),
    ensures
        exists|j: int|
            0 <= j < k && #[trigger] copied_at(booting(args, tracing), replies, saved, j),
{
    let m = booting(args, tracing);
    assert(deals_with(after(m, replies, k).agenda[0], saved));
    lemma_copied_before(args, tracing, replies, saved, k);
}

/// A boot at its end holds no captured descriptors.
pub proof fn law_nothing_stays_captured(
    args: ArgsView,
    tracing: bool,
    replies: Seq<ReplyView>,
    k: int,
)
    requires
        0 <= k <= replies.len(),
        after(booting(args, tracing), replies, k).finished(),
    ensures
        after(booting(args, tracing), replies, k).session.captured is None,
    decreases k,
{
    if k > 0 {
        lemma_next(booting(args, tracing), replies, k - 1);
        if after(booting(args, tracing), replies, k - 1).finished() {
            law_nothing_stays_captured(args, tracing, replies, k - 1);
        }
    }
}

} // verus!
