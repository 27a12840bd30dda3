//! The stages come in their order, and what is left out stays out.

use vstd::prelude::*;

use crate::activation::boot_record_steps;
use crate::boot::{
    activation_stage, completed_stage, early_mounts_stage, in_systemd_stage1,
    only_if, post_boot_stage, remount_stage, resolv_conf_stage, stages, store_stage,
    system_config_stage,
};
use crate::files::{
    directories_steps, directory_steps, required_directories, required_directories_steps,
};
use crate::machine::{booting, session_after, steps_after, MachineView};
use crate::request::ReplyView;
use crate::stdio::capture_step;
use crate::task::{ArgsView, BootErrorView, HandlerView, SessionView, Stage, TaskView};
use crate::trace::{after, asks, lemma_asked_before, lemma_next, step};

verus! {

// ---------------------------------------------------------------------------------------------
// Where a step can lead.
// ---------------------------------------------------------------------------------------------

/// The handlers of a boot, each at the stage that it belongs to; and no command is run without a
/// look at how it went.
pub open spec fn in_place(task: TaskView) -> bool {
    match task.handler {
        HandlerView::Ignore => task.stage != Stage::Handoff && !(task.request is Spawn),
        HandlerView::LogDirectory { .. } => task.stage == Stage::Setup,
        HandlerView::SystemdStage1 { .. } => task.stage == Stage::Setup,
        HandlerView::KernelCommandLine { .. } => task.stage == Stage::Setup,
        HandlerView::Container => task.stage == Stage::RemountRoot,
        HandlerView::RootOptions => task.stage == Stage::RemountRoot,
        HandlerView::RootRemounted => task.stage == Stage::RemountRoot,
        HandlerView::ProcMounted { .. } => task.stage == Stage::EarlyMounts,
        HandlerView::EarlyScriptRun { .. } => task.stage == Stage::EarlyMountScript,
        HandlerView::SpecialMounted { .. } => task.stage == Stage::SpecialFilesystems,
        HandlerView::SpecialDirectory => task.stage == Stage::SpecialFilesystems,
        HandlerView::SpecialMount { .. } => task.stage == Stage::SpecialFilesystems,
        HandlerView::StoreExists { .. } => task.stage == Stage::NixStore,
        HandlerView::StoreGroup => task.stage == Stage::NixStore,
        HandlerView::StoreOwner => task.stage == Stage::NixStore,
        HandlerView::StoreMode => task.stage == Stage::NixStore,
        HandlerView::StoreOptions { .. } => task.stage == Stage::NixStore,
        HandlerView::StoreContainer { .. } => task.stage == Stage::NixStore,
        HandlerView::StoreBound { .. } => task.stage == Stage::NixStore,
        HandlerView::StoreRemounted => task.stage == Stage::NixStore,
        HandlerView::DirectoryMade { .. } => task.stage == Stage::Directories,
        HandlerView::TmpMode => task.stage == Stage::Directories,
        HandlerView::ResolvConfExists => task.stage == Stage::ResolvConf,
        HandlerView::ResolvConfRun => task.stage == Stage::ResolvConf,
        HandlerView::SystemConfigExists { .. } => task.stage == Stage::SystemConfig,
        HandlerView::StdioDuplicated => task.stage == Stage::CaptureStdio,
        HandlerView::KernelLog { .. } => task.stage == Stage::CaptureStdio,
        HandlerView::CaptureStarted { .. } => task.stage == Stage::CaptureStdio,
        HandlerView::StdioRedirected { .. } => task.stage == Stage::CaptureStdio,
        HandlerView::ActivationExists { .. } => task.stage == Stage::Activation,
        HandlerView::ActivationStillExists { .. } => task.stage == Stage::Activation,
        HandlerView::ActivationRun { .. } => task.stage == Stage::Activation,
        HandlerView::BootRecorded { .. } => task.stage == Stage::BootRecord,
        HandlerView::PostBootExists { .. } => task.stage == Stage::PostBoot,
        HandlerView::PostBootRun { .. } => task.stage == Stage::PostBoot,
        HandlerView::InitPid => false,
        HandlerView::InitFailed { .. } => false,
    }
}

/// The handlers that find out what is to be done at all.
pub open spec fn is_scout(handler: HandlerView) -> bool {
    handler is LogDirectory || handler is SystemdStage1 || handler is KernelCommandLine
}

/// The last stage that a step can lead to.
pub open spec fn horizon(task: TaskView) -> nat {
    if is_scout(task.handler) {
        Stage::Completed.rank()
    } else if task.handler is ProcMounted {
        Stage::SpecialFilesystems.rank()
    } else {
        task.stage.rank()
    }
}

/// The handlers behind which nothing of their stage is left to be done.
pub open spec fn is_sole(handler: HandlerView) -> bool {
    is_scout(handler) || handler is Container || handler is ProcMounted || handler is StoreExists
        || handler is ResolvConfExists || handler is SystemConfigExists
        || handler is StdioDuplicated || handler is KernelLog || handler is CaptureStarted
        || handler is StdioRedirected || handler is ActivationExists || handler is PostBootExists
}

/// The steps lie between two stages, none of them can lead beyond the one that follows it, and the
/// questions that decide over a stage have it to themselves.
pub open spec fn ordered(tasks: Seq<TaskView>, low: nat, high: nat) -> bool {
    &&& forall|i: int|
        0 <= i < tasks.len() ==> {
            &&& in_place(#[trigger] tasks[i])
            &&& low <= tasks[i].stage.rank()
            &&& horizon(tasks[i]) <= high
        }
    &&& forall|i: int, j: int|
        #![trigger tasks[i], tasks[j]]
        0 <= i < j < tasks.len() ==> follows(tasks[i], tasks[j])
}

/// One step can come after another, now or later.
pub open spec fn follows(first: TaskView, second: TaskView) -> bool {
    &&& horizon(first) <= second.stage.rank()
    &&& is_sole(first.handler) ==> horizon(first) < second.stage.rank()
}

/// None of the steps has its stage to itself.
pub(crate) open spec fn none_sole(tasks: Seq<TaskView>) -> bool {
    forall|i: int| 0 <= i < tasks.len() ==> !is_sole((#[trigger] tasks[i]).handler)
}

proof fn lemma_ordered_add(
    a: Seq<TaskView>,
    b: Seq<TaskView>,
    low: nat,
    mid: nat,
    next: nat,
    high: nat,
)
    requires
        ordered(a, low, mid),
        ordered(b, next, high),
        low <= next,
        mid < next || mid == next && none_sole(a),
        mid <= high,
    ensures
        ordered(a + b, low, high),
{
    let c = a + b;
    assert forall|i: int| 0 <= i < c.len() implies {
        &&& in_place(#[trigger] c[i])
        &&& low <= c[i].stage.rank()
        &&& horizon(c[i]) <= high
    } by {
        if i < a.len() {
            assert(c[i] == a[i]);
        } else {
            assert(c[i] == b[i - a.len()]);
        }
    }
    assert forall|i: int, j: int|
        #![trigger c[i], c[j]]
        0 <= i < j < c.len() implies follows(c[i], c[j]) by {
        if j < a.len() {
            assert(c[i] == a[i] && c[j] == a[j]);
        } else if i < a.len() {
            assert(c[i] == a[i] && c[j] == b[j - a.len()]);
        } else {
            assert(c[i] == b[i - a.len()] && c[j] == b[j - a.len()]);
        }
    }
}

proof fn lemma_directories_ordered(paths: Seq<Seq<char>>, session: SessionView)
    ensures
        ordered(directories_steps(paths, session), 6, 6),
        none_sole(directories_steps(paths, session)),
    decreases paths.len(),
{
    if paths.len() > 0 {
        lemma_directories_ordered(paths.drop_last(), session);
        assert(ordered(directory_steps(paths.last(), session), 6, 6));
        assert(none_sole(directory_steps(paths.last(), session)));
        lemma_ordered_add(
            directories_steps(paths.drop_last(), session),
            directory_steps(paths.last(), session),
            6,
            6,
            6,
            6,
        );
    }
}

proof fn lemma_required_ordered(session: SessionView)
    ensures
        ordered(required_directories_steps(session), 6, 6),
{
    let steps = required_directories_steps(session);
    let made = directories_steps(required_directories(), session);
    let last = seq![steps.last()];
    lemma_directories_ordered(required_directories(), session);
    assert(steps =~= made + last);
    assert(ordered(last, 6, 6));
    lemma_ordered_add(made, last, 6, 6, 6, 6);
}

proof fn lemma_stages_ordered(args: ArgsView, after_systemd: bool, session: SessionView)
    ensures
        ordered(stages(args, after_systemd, session), 1, 13),
{
    let s0 = remount_stage();
    assert(ordered(s0, 1, 1));
    let p1 = only_if(!after_systemd, early_mounts_stage(args.early_mount_script));
    assert(ordered(p1, 2, 4));
    lemma_ordered_add(s0, p1, 1, 1, 2, 4);
    let s1 = s0 + p1;
    let p2 = store_stage(args.nix_store_mount_opts);
    assert(ordered(p2, 5, 5));
    lemma_ordered_add(s1, p2, 1, 4, 5, 5);
    let s2 = s1 + p2;
    let p3 = required_directories_steps(session);
    lemma_required_ordered(session);
    lemma_ordered_add(s2, p3, 1, 5, 6, 6);
    let s3 = s2 + p3;
    let p4 = only_if(args.use_host_resolv_conf && !after_systemd, resolv_conf_stage());
    assert(ordered(p4, 7, 7));
    lemma_ordered_add(s3, p4, 1, 6, 7, 7);
    let s4 = s3 + p4;
    let p5 = system_config_stage(args.system_config);
    assert(ordered(p5, 8, 8));
    lemma_ordered_add(s4, p5, 1, 7, 8, 8);
    let s5 = s4 + p5;
    let p6 = only_if(!after_systemd, seq![capture_step()]);
    assert(ordered(p6, 9, 9));
    lemma_ordered_add(s5, p6, 1, 8, 9, 9);
    let s6 = s5 + p6;
    let p7 = activation_stage(args.system_config, args.strict_activation);
    assert(ordered(p7, 10, 10));
    lemma_ordered_add(s6, p7, 1, 9, 10, 10);
    let s7 = s6 + p7;
    let p8 = boot_record_steps(args.system_config, args.atomic_symlinks, session);
    assert(ordered(p8, 11, 11));
    lemma_ordered_add(s7, p8, 1, 10, 11, 11);
    let s8 = s7 + p8;
    let p9 = post_boot_stage(args.post_boot_commands, args.post_boot_shell);
    assert(ordered(p9, 12, 12));
    lemma_ordered_add(s8, p9, 1, 11, 12, 12);
    let s9 = s8 + p9;
    let p10 = completed_stage(session);
    assert(ordered(p10, 13, 13));
    lemma_ordered_add(s9, p10, 1, 12, 13, 13);
}

/// The steps that a reply leads to lie between the step's own stage and its horizon.
pub(crate) open spec fn leads_on(task: TaskView, reply: ReplyView, session: SessionView) -> bool {
    match steps_after(task.handler, reply, session) {
        Ok(steps) => {
            &&& ordered(steps, task.stage.rank(), horizon(task))
            &&& !is_sole(task.handler) ==> none_sole(steps)
        },
        Err(_) => true,
    }
}

proof fn lemma_setup_leads_on(task: TaskView, reply: ReplyView, session: SessionView)
    requires
        in_place(task),
        is_scout(task.handler),
    ensures
        leads_on(task, reply, session),
{
    let steps = steps_after(task.handler, reply, session)->Ok_0;
    match task.handler {
        HandlerView::LogDirectory { args } => {
            assert(ordered(steps, 0, 13));
        },
        HandlerView::SystemdStage1 { args } => {
            assert(ordered(steps, 0, 13));
        },
        HandlerView::KernelCommandLine { args, after_systemd } => {
            let after = session_after(task.handler, reply, session);
            let rest = stages(args, after_systemd, after);
            lemma_stages_ordered(args, after_systemd, after);
            let first = steps.take(steps.len() - rest.len());
            assert(steps =~= first + rest);
            assert(ordered(first, 0, 0));
            lemma_ordered_add(first, rest, 0, 0, 1, 13);
        },
        _ => {},
    }
}

proof fn lemma_mounts_lead_on(task: TaskView, reply: ReplyView, session: SessionView)
    requires
        in_place(task),
        1 <= task.stage.rank() <= 4,
    ensures
        leads_on(task, reply, session),
{
}

proof fn lemma_store_leads_on(task: TaskView, reply: ReplyView, session: SessionView)
    requires
        in_place(task),
        task.stage == Stage::NixStore,
    ensures
        leads_on(task, reply, session),
{
}

proof fn lemma_files_lead_on(task: TaskView, reply: ReplyView, session: SessionView)
    requires
        in_place(task),
        6 <= task.stage.rank() <= 8,
    ensures
        leads_on(task, reply, session),
{
}

proof fn lemma_stdio_leads_on(task: TaskView, reply: ReplyView, session: SessionView)
    requires
        in_place(task),
        task.stage == Stage::CaptureStdio,
    ensures
        leads_on(task, reply, session),
{
}

proof fn lemma_activation_leads_on(task: TaskView, reply: ReplyView, session: SessionView)
    requires
        in_place(task),
        10 <= task.stage.rank() <= 14,
    ensures
        leads_on(task, reply, session),
{
}

pub(crate) proof fn lemma_leads_on(task: TaskView, reply: ReplyView, session: SessionView)
    requires
        in_place(task),
    ensures
        leads_on(task, reply, session),
{
    if is_scout(task.handler) {
        lemma_setup_leads_on(task, reply, session);
    } else if task.stage == Stage::Setup {
    } else if task.stage.rank() <= 4 {
        lemma_mounts_lead_on(task, reply, session);
    } else if task.stage == Stage::NixStore {
        lemma_store_leads_on(task, reply, session);
    } else if task.stage.rank() <= 8 {
        lemma_files_lead_on(task, reply, session);
    } else if task.stage == Stage::CaptureStdio {
        lemma_stdio_leads_on(task, reply, session);
    } else {
        lemma_activation_leads_on(task, reply, session);
    }
}

/// A reply leaves the steps in order, and none of them before the stage that it came from.
proof fn lemma_resumed_ordered(machine: MachineView, reply: ReplyView)
    requires
        !machine.finished(),
        ordered(machine.agenda, 0, 14),
    ensures
        ordered(machine.resumed(reply).agenda, machine.agenda[0].stage.rank(), 14),
{
    let task = machine.agenda[0];
    let rest = machine.agenda.skip(1);
    let low = task.stage.rank();
    lemma_leads_on(task, reply, machine.session);
    assert forall|i: int| 0 <= i < rest.len() implies rest[i] == machine.agenda[i + 1] by {}
    let next = if is_sole(task.handler) {
        horizon(task) + 1
    } else {
        horizon(task)
    };
    assert(ordered(rest, next, 14));
    if let Ok(steps) = steps_after(task.handler, reply, machine.session) {
        lemma_ordered_add(steps, rest, low, horizon(task), next, 14);
    }
}

// ---------------------------------------------------------------------------------------------
// The order of the stages.
// ---------------------------------------------------------------------------------------------

/// Whatever the replies, the steps of a boot are in order, and from any point on they do not go
/// back behind the stage that was reached there.
pub(crate) proof fn lemma_boot_ordered(
    args: ArgsView,
    tracing: bool,
    replies: Seq<ReplyView>,
    j: int,
    k: int,
)
    requires
        0 <= j <= k <= replies.len(),
    ensures
        ordered(after(booting(args, tracing), replies, k).agenda, 0, 14),
        asks(booting(args, tracing), replies, j) ==> ordered(
            after(booting(args, tracing), replies, k).agenda,
            step(booting(args, tracing), replies, j).stage.rank(),
            14,
        ),
    decreases k,
{
    let m = booting(args, tracing);
    let now = after(m, replies, k);
    if k == 0 {
        assert(ordered(now.agenda, 0, 14));
    } else {
        let before = after(m, replies, k - 1);
        lemma_next(m, replies, k - 1);
        lemma_boot_ordered(args, tracing, replies, if j < k { j } else { 0 }, k - 1);
        if !before.finished() {
            lemma_resumed_ordered(before, replies[k - 1]);
        }
    }
    if j == k && !now.finished() {
        let low = now.agenda[0].stage.rank();
        assert forall|i: int| 0 <= i < now.agenda.len() implies low <= (
        #[trigger] now.agenda[i]).stage.rank() by {
            if i > 0 {
                assert(follows(now.agenda[0], now.agenda[i]));
            }
        }
        assert(ordered(now.agenda, low, 14));
    }
}

/// The stages of a boot come in their order: no step belongs to an earlier stage than a step
/// before it.
pub proof fn law_stages_come_in_order(
    args: ArgsView,
    tracing: bool,
    replies: Seq<ReplyView>,
    j: int,
    k: int,
)
    requires
        0 <= j <= k,
        asks(booting(args, tracing), replies, k),
    ensures
        step(booting(args, tracing), replies, j).stage.rank() <= step(
            booting(args, tracing),
            replies,
            k,
        ).stage.rank(),
{
    lemma_asked_before(booting(args, tracing), replies, j, k);
    lemma_boot_ordered(args, tracing, replies, j, k);
}

// ---------------------------------------------------------------------------------------------
// Stages that are left out.
// ---------------------------------------------------------------------------------------------

/// The step is not of this stage and cannot lead to it.
pub open spec fn avoids(task: TaskView, stage: Stage) -> bool {
    stage.rank() < task.stage.rank() || horizon(task) < stage.rank()
}

/// None of the steps is of this stage or can lead to it.
pub open spec fn all_avoid(tasks: Seq<TaskView>, stage: Stage) -> bool {
    forall|i: int| 0 <= i < tasks.len() ==> avoids(#[trigger] tasks[i], stage)
}

proof fn lemma_avoid_add(a: Seq<TaskView>, b: Seq<TaskView>, stage: Stage)
    requires
        all_avoid(a, stage),
        all_avoid(b, stage),
    ensures
        all_avoid(a + b, stage),
{
    assert forall|i: int| 0 <= i < (a + b).len() implies avoids(#[trigger] (a + b)[i], stage) by {
        if i < a.len() {
            assert((a + b)[i] == a[i]);
        } else {
            assert((a + b)[i] == b[i - a.len()]);
        }
    }
}

/// After a reply that leads to nothing, a question that has its stage to itself is followed by a
/// later stage.
proof fn lemma_resumed_with_nothing(machine: MachineView, reply: ReplyView)
    requires
        !machine.finished(),
        steps_after(machine.agenda[0].handler, reply, machine.session) == Ok::<
            Seq<TaskView>,
            BootErrorView,
        >(Seq::empty()),
        !machine.resumed(reply).finished(),
        ordered(machine.agenda, 0, 14),
        is_sole(machine.agenda[0].handler),
    ensures
        horizon(machine.agenda[0]) < machine.resumed(reply).agenda[0].stage.rank(),
{
    let rest = machine.agenda.skip(1);
    assert(Seq::<TaskView>::empty() + rest =~= rest);
    if rest.len() > 0 {
        assert(follows(machine.agenda[0], machine.agenda[1]));
    }
}

/// A stage is left out altogether if the reply to the question that opens it leads to nothing: in
/// a container the root file system is not remounted, where `/proc` is mounted nothing is mounted
/// early, and so on.
pub proof fn law_a_skipped_stage_stays_skipped(
    args: ArgsView,
    tracing: bool,
    replies: Seq<ReplyView>,
    j: int,
    k: int,
)
    requires
        0 <= j < k,
        asks(booting(args, tracing), replies, k),
        is_sole(step(booting(args, tracing), replies, j).handler),
        steps_after(
            step(booting(args, tracing), replies, j).handler,
            replies[j],
            after(booting(args, tracing), replies, j).session,
        ) == Ok::<Seq<TaskView>, BootErrorView>(Seq::empty()),
    ensures
        horizon(step(booting(args, tracing), replies, j)) < step(
            booting(args, tracing),
            replies,
            k,
        ).stage.rank(),
{
    let m = booting(args, tracing);
    lemma_asked_before(m, replies, j, k);
    lemma_asked_before(m, replies, j + 1, k);
    lemma_boot_ordered(args, tracing, replies, j, j);
    lemma_next(m, replies, j);
    let before = after(m, replies, j);
    lemma_resumed_with_nothing(before, replies[j]);
    law_stages_come_in_order(args, tracing, replies, j + 1, k);
}

/// The stages that a first stage under systemd leaves nothing to do for.
pub open spec fn done_by_systemd(stage: Stage) -> bool {
    stage == Stage::EarlyMounts || stage == Stage::EarlyMountScript || stage
        == Stage::SpecialFilesystems || stage == Stage::ResolvConf || stage == Stage::CaptureStdio
}

proof fn lemma_stages_avoid(
    args: ArgsView,
    after_systemd: bool,
    session: SessionView,
    stage: Stage,
)
    requires
        after_systemd && done_by_systemd(stage) || stage == Stage::ResolvConf
            && !args.use_host_resolv_conf || stage == Stage::PostBoot
            && args.post_boot_commands is None,
    ensures
        all_avoid(stages(args, after_systemd, session), stage),
{
    let s0 = remount_stage();
    assert(all_avoid(s0, stage));
    let p1 = only_if(!after_systemd, early_mounts_stage(args.early_mount_script));
    assert(all_avoid(p1, stage));
    lemma_avoid_add(s0, p1, stage);
    let s1 = s0 + p1;
    let p2 = store_stage(args.nix_store_mount_opts);
    assert(all_avoid(p2, stage));
    lemma_avoid_add(s1, p2, stage);
    let s2 = s1 + p2;
    let p3 = required_directories_steps(session);
    lemma_required_ordered(session);
    assert(all_avoid(p3, stage));
    lemma_avoid_add(s2, p3, stage);
    let s3 = s2 + p3;
    let p4 = only_if(args.use_host_resolv_conf && !after_systemd, resolv_conf_stage());
    assert(all_avoid(p4, stage));
    lemma_avoid_add(s3, p4, stage);
    let s4 = s3 + p4;
    let p5 = system_config_stage(args.system_config);
    assert(all_avoid(p5, stage));
    lemma_avoid_add(s4, p5, stage);
    let s5 = s4 + p5;
    let p6 = only_if(!after_systemd, seq![capture_step()]);
    assert(all_avoid(p6, stage));
    lemma_avoid_add(s5, p6, stage);
    let s6 = s5 + p6;
    let p7 = activation_stage(args.system_config, args.strict_activation);
    assert(all_avoid(p7, stage));
    lemma_avoid_add(s6, p7, stage);
    let s7 = s6 + p7;
    let p8 = boot_record_steps(args.system_config, args.atomic_symlinks, session);
    assert(all_avoid(p8, stage));
    lemma_avoid_add(s7, p8, stage);
    let s8 = s7 + p8;
    let p9 = post_boot_stage(args.post_boot_commands, args.post_boot_shell);
    assert(all_avoid(p9, stage));
    lemma_avoid_add(s8, p9, stage);
    let s9 = s8 + p9;
    let p10 = completed_stage(session);
    assert(all_avoid(p10, stage));
    lemma_avoid_add(s9, p10, stage);
}

/// What a scout is told to do.
pub open spec fn orders(handler: HandlerView) -> Option<ArgsView> {
    match handler {
        HandlerView::LogDirectory { args } => Some(args),
        HandlerView::SystemdStage1 { args } => Some(args),
        HandlerView::KernelCommandLine { args, .. } => Some(args),
        _ => None,
    }
}

/// The arguments leave the stage out.
pub open spec fn not_ordered(args: ArgsView, stage: Stage) -> bool {
    stage == Stage::ResolvConf && !args.use_host_resolv_conf || stage == Stage::PostBoot
        && args.post_boot_commands is None
}

/// The step keeps off the stage; a scout does if its orders leave the stage out, or if it knows
/// that systemd has taken care of it.
spec fn skips(task: TaskView, args: ArgsView, stage: Stage) -> bool {
    if is_scout(task.handler) {
        &&& orders(task.handler) == Some(args)
        &&& not_ordered(args, stage) || done_by_systemd(stage)
            && task.handler matches HandlerView::KernelCommandLine { after_systemd: true, .. }
    } else {
        avoids(task, stage)
    }
}

/// All the steps keep off the stage.
spec fn all_skip(tasks: Seq<TaskView>, args: ArgsView, stage: Stage) -> bool {
    forall|i: int| 0 <= i < tasks.len() ==> skips(#[trigger] tasks[i], args, stage)
}

proof fn lemma_skip_add(a: Seq<TaskView>, b: Seq<TaskView>, args: ArgsView, stage: Stage)
    requires
        all_skip(a, args, stage),
        all_skip(b, args, stage),
    ensures
        all_skip(a + b, args, stage),
{
    let c = a + b;
    assert forall|i: int| 0 <= i < c.len() implies skips(#[trigger] c[i], args, stage) by {
        if i < a.len() {
            assert(c[i] == a[i]);
        } else {
            assert(c[i] == b[i - a.len()]);
        }
    }
}

proof fn lemma_stages_skip(
    args: ArgsView,
    after_systemd: bool,
    session: SessionView,
    stage: Stage,
)
    requires
        not_ordered(args, stage) || after_systemd && done_by_systemd(stage),
    ensures
        all_skip(stages(args, after_systemd, session), args, stage),
{
    lemma_stages_avoid(args, after_systemd, session, stage);
    lemma_stages_ordered(args, after_systemd, session);
}

proof fn lemma_steps_skip(
    task: TaskView,
    reply: ReplyView,
    session: SessionView,
    args: ArgsView,
    stage: Stage,
)
    requires
        in_place(task),
        skips(task, args, stage),
        stage != Stage::Setup,
    ensures
        match steps_after(task.handler, reply, session) {
            Ok(steps) => all_skip(steps, args, stage),
            Err(_) => true,
        },
{
    lemma_leads_on(task, reply, session);
    if is_scout(task.handler) {
        let steps = steps_after(task.handler, reply, session)->Ok_0;
        match task.handler {
            HandlerView::KernelCommandLine { after_systemd, .. } => {
                let known = session_after(task.handler, reply, session);
                let planned = stages(args, after_systemd, known);
                let first = steps.take(steps.len() - planned.len());
                lemma_stages_skip(args, after_systemd, known, stage);
                assert(steps =~= first + planned);
                assert(all_skip(first, args, stage));
                lemma_skip_add(first, planned, args, stage);
            },
            _ => {
                assert(all_skip(steps, args, stage));
            },
        }
    }
}

/// Once the steps of a boot keep off a stage, they keep off it to the end.
proof fn lemma_boot_skips(
    args: ArgsView,
    tracing: bool,
    replies: Seq<ReplyView>,
    told: ArgsView,
    stage: Stage,
    j: int,
    k: int,
)
    requires
        0 <= j <= k <= replies.len(),
        all_skip(after(booting(args, tracing), replies, j).agenda, told, stage),
        stage != Stage::Setup,
        stage != Stage::RestoreStdio,
    ensures
        all_skip(after(booting(args, tracing), replies, k).agenda, told, stage),
    decreases k - j,
{
    let m = booting(args, tracing);
    if j < k {
        let before = after(m, replies, k - 1);
        lemma_boot_skips(args, tracing, replies, told, stage, j, k - 1);
        lemma_boot_ordered(args, tracing, replies, 0, k - 1);
        lemma_next(m, replies, k - 1);
        if !before.finished() {
            let task = before.agenda[0];
            let rest = before.agenda.skip(1);
            lemma_steps_skip(task, replies[k - 1], before.session, told, stage);
            assert forall|i: int| 0 <= i < rest.len() implies skips(
                #[trigger] rest[i],
                told,
                stage,
            ) by {
                assert(rest[i] == before.agenda[i + 1]);
            }
            if let Ok(steps) = steps_after(task.handler, replies[k - 1], before.session) {
                lemma_skip_add(steps, rest, told, stage);
            }
        }
    }
}

/// After a first stage under systemd nothing is mounted early, the resolver is left alone, and
/// standard output is not captured.
pub proof fn law_systemd_has_done_its_part(
    args: ArgsView,
    tracing: bool,
    replies: Seq<ReplyView>,
    j: int,
    k: int,
)
    requires
        0 <= j < k,
        asks(booting(args, tracing), replies, k),
        step(booting(args, tracing), replies, j).handler is SystemdStage1,
        in_systemd_stage1(replies[j]),
    ensures
        !done_by_systemd(step(booting(args, tracing), replies, k).stage),
{
    let m = booting(args, tracing);
    lemma_asked_before(m, replies, j, k);
    lemma_boot_ordered(args, tracing, replies, j, j);
    lemma_next(m, replies, j);
    let before = after(m, replies, j);
    let task = before.agenda[0];
    let told = task.handler->SystemdStage1_args;
    let rest = before.agenda.skip(1);
    let steps = steps_after(task.handler, replies[j], before.session)->Ok_0;
    let stage = step(m, replies, k).stage;
    if done_by_systemd(stage) {
        assert(all_skip(steps, told, stage));
        assert forall|i: int| 0 <= i < rest.len() implies skips(#[trigger] rest[i], told, stage) by {
            assert(rest[i] == before.agenda[i + 1]);
            assert(follows(before.agenda[0], before.agenda[i + 1]));
            assert(in_place(before.agenda[i + 1]));
        }
        lemma_skip_add(steps, rest, told, stage);
        lemma_boot_skips(args, tracing, replies, told, stage, j + 1, k);
        lemma_boot_ordered(args, tracing, replies, j, k);
        assert(in_place(step(m, replies, k)));
        assert(skips(step(m, replies, k), told, stage));
    }
}

/// What was not ordered is not done: the resolver is left alone unless the host's configuration
/// is to be used, and there is no post-boot stage without post-boot commands.
pub proof fn law_what_is_not_ordered_is_not_done(
    args: ArgsView,
    tracing: bool,
    replies: Seq<ReplyView>,
    k: int,
)
    requires
        asks(booting(args, tracing), replies, k),
    ensures
        !not_ordered(args, step(booting(args, tracing), replies, k).stage),
{
    let m = booting(args, tracing);
    let stage = step(m, replies, k).stage;
    if not_ordered(args, stage) {
        assert(all_skip(after(m, replies, 0).agenda, args, stage));
        lemma_boot_skips(args, tracing, replies, args, stage, 0, k);
        lemma_boot_ordered(args, tracing, replies, 0, k);
        assert(in_place(step(m, replies, k)));
        assert(skips(step(m, replies, k), args, stage));
    }
}

} // verus!
