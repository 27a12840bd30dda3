//! What a boot shows of itself: where its log goes, and what it traces.

use vstd::prelude::*;

use crate::boot::{log_file, stages, traces};
use crate::files::{directories_steps, directory_steps, required_directories};
use crate::machine::{booting, session_after, steps_after, MachineView};
use crate::order::{follows, in_place, is_scout, lemma_boot_ordered, ordered};
use crate::request::{ReplyView, RequestView};
use crate::shell::trace_line;
use crate::task::{ArgsView, HandlerView, SessionView, Stage, TaskView};
use crate::trace::{after, asks, lemma_next, step};

verus! {

/// None of the steps writes to standard error.
spec fn silent(tasks: Seq<TaskView>) -> bool {
    forall|i: int| 0 <= i < tasks.len() ==> !((#[trigger] tasks[i]).request is PrintError)
}

/// The request is the trace line of a command.
pub open spec fn announces(line: RequestView, command: RequestView) -> bool {
    command matches RequestView::Spawn { program, args, .. } && line == (RequestView::PrintError {
        text: trace_line(program, args),
    })
}

/// Every command among the steps comes right after its trace line.
spec fn announced(tasks: Seq<TaskView>) -> bool {
    &&& tasks.len() > 0 ==> !(tasks[0].request is Spawn)
    &&& forall|i: int, j: int|
        #![trigger tasks[i], tasks[j]]
        0 <= i && j == i + 1 && j < tasks.len() ==> in_turn(tasks[i], tasks[j])
}

/// If the second step is a command, then the first is its trace line.
spec fn in_turn(first: TaskView, second: TaskView) -> bool {
    second.request is Spawn ==> announces(first.request, second.request) && first.handler is Ignore
}

/// What the steps after a reply show: nothing if commands are not traced, and every command if
/// they are.
spec fn shows(task: TaskView, reply: ReplyView, session: SessionView) -> bool {
    match steps_after(task.handler, reply, session) {
        Ok(steps) => if session_after(task.handler, reply, session).tracing {
            announced(steps)
        } else {
            silent(steps)
        },
        Err(_) => true,
    }
}

proof fn lemma_announced_add(a: Seq<TaskView>, b: Seq<TaskView>)
    requires
        announced(a),
        announced(b),
    ensures
        announced(a + b),
{
    let c = a + b;
    if a.len() > 0 {
        assert(c[0] == a[0]);
    } else {
        assert(c =~= b);
    }
    assert forall|i: int, j: int|
        #![trigger c[i], c[j]]
        0 <= i && j == i + 1 && j < c.len() implies in_turn(c[i], c[j]) by {
        if j < a.len() {
            assert(c[i] == a[i] && c[j] == a[j]);
        } else if i >= a.len() {
            assert(c[i] == b[i - a.len()] && c[j] == b[j - a.len()]);
        } else {
            assert(c[j] == b[0]);
        }
    }
}

proof fn lemma_silent_add(a: Seq<TaskView>, b: Seq<TaskView>)
    requires
        silent(a),
        silent(b),
    ensures
        silent(a + b),
{
    let c = a + b;
    assert forall|i: int| 0 <= i < c.len() implies !((#[trigger] c[i]).request is PrintError) by {
        if i < a.len() {
            assert(c[i] == a[i]);
        } else {
            assert(c[i] == b[i - a.len()]);
        }
    }
}

/// Steps show what they should if they are a few lines of the log, and then what has been planned.
proof fn lemma_plan_shows(steps: Seq<TaskView>, n: int, planned: Seq<TaskView>)
    requires
        0 <= n <= steps.len(),
        steps.skip(n) == planned,
        forall|i: int|
            0 <= i < n ==> !((#[trigger] steps[i]).request is PrintError) && !(
            steps[i].request is Spawn),
        silent(planned),
        announced(planned),
    ensures
        silent(steps),
        announced(steps),
{
    let first = steps.take(n);
    assert(steps =~= first + planned);
    assert(silent(first));
    assert(announced(first));
    lemma_silent_add(first, planned);
    lemma_announced_add(first, planned);
}

proof fn lemma_directories_show(paths: Seq<Seq<char>>, session: SessionView)
    ensures
        silent(directories_steps(paths, session)),
        announced(directories_steps(paths, session)),
    decreases paths.len(),
{
    if paths.len() > 0 {
        lemma_directories_show(paths.drop_last(), session);
    }
}

proof fn lemma_stages_show(args: ArgsView, after_systemd: bool, session: SessionView)
    ensures
        silent(stages(args, after_systemd, session)),
        announced(stages(args, after_systemd, session)),
{
    lemma_directories_show(required_directories(), session);
}

proof fn lemma_setup_shows(task: TaskView, reply: ReplyView, session: SessionView)
    requires
        is_scout(task.handler),
    ensures
        shows(task, reply, session),
{
    let known = session_after(task.handler, reply, session);
    let steps = steps_after(task.handler, reply, session)->Ok_0;
    match task.handler {
        HandlerView::LogDirectory { .. } => {
            assert(silent(steps));
            assert(announced(steps));
        },
        HandlerView::SystemdStage1 { .. } => {
            assert(silent(steps));
            assert(announced(steps));
        },
        HandlerView::KernelCommandLine { args, after_systemd } => {
            lemma_stages_show(args, after_systemd, known);
            let planned = stages(args, after_systemd, known);
            assert(steps.skip(steps.len() - planned.len()) =~= planned);
            lemma_plan_shows(steps, steps.len() - planned.len(), planned);
        },
        _ => {},
    }
}

proof fn lemma_mounts_show(task: TaskView, reply: ReplyView, session: SessionView)
    requires
        in_place(task),
        !is_scout(task.handler),
        task.stage.rank() <= 4,
    ensures
        shows(task, reply, session),
{
}

proof fn lemma_store_shows(task: TaskView, reply: ReplyView, session: SessionView)
    requires
        in_place(task),
        task.stage == Stage::NixStore,
    ensures
        shows(task, reply, session),
{
}

proof fn lemma_files_show(task: TaskView, reply: ReplyView, session: SessionView)
    requires
        in_place(task),
        6 <= task.stage.rank() <= 8,
    ensures
        shows(task, reply, session),
{
}

proof fn lemma_activation_shows(task: TaskView, reply: ReplyView, session: SessionView)
    requires
        in_place(task),
        9 <= task.stage.rank(),
    ensures
        shows(task, reply, session),
{
}

proof fn lemma_shows(task: TaskView, reply: ReplyView, session: SessionView)
    requires
        in_place(task),
    ensures
        shows(task, reply, session),
{
    if is_scout(task.handler) {
        lemma_setup_shows(task, reply, session);
    } else if task.stage.rank() <= 4 {
        lemma_mounts_show(task, reply, session);
    } else if task.stage == Stage::NixStore {
        lemma_store_shows(task, reply, session);
    } else if task.stage.rank() <= 8 {
        lemma_files_show(task, reply, session);
    } else {
        lemma_activation_shows(task, reply, session);
    }
}

/// Tracing is never turned off.
pub proof fn law_tracing_stays_on(
    machine: MachineView,
    replies: Seq<ReplyView>,
    j: int,
    k: int,
)
    requires
        0 <= j <= k <= replies.len(),
        after(machine, replies, j).session.tracing,
    ensures
        after(machine, replies, k).session.tracing,
    decreases k - j,
{
    if j < k {
        law_tracing_stays_on(machine, replies, j, k - 1);
        lemma_next(machine, replies, k - 1);
    }
}

proof fn lemma_boot_silent(args: ArgsView, tracing: bool, replies: Seq<ReplyView>, k: int)
    requires
        0 <= k <= replies.len(),
        !after(booting(args, tracing), replies, k).session.tracing,
    ensures
        silent(after(booting(args, tracing), replies, k).agenda),
    decreases k,
{
    let m = booting(args, tracing);
    if k > 0 {
        let before = after(m, replies, k - 1);
        lemma_next(m, replies, k - 1);
        lemma_boot_ordered(args, tracing, replies, 0, k - 1);
        if before.session.tracing {
            law_tracing_stays_on(m, replies, k - 1, k);
        }
        lemma_boot_silent(args, tracing, replies, k - 1);
        if !before.finished() {
            let task = before.agenda[0];
            let rest = before.agenda.skip(1);
            lemma_shows(task, replies[k - 1], before.session);
            assert forall|i: int| 0 <= i < rest.len() implies !((
            #[trigger] rest[i]).request is PrintError) by {
                assert(rest[i] == before.agenda[i + 1]);
            }
            if let Ok(steps) = steps_after(task.handler, replies[k - 1], before.session) {
                lemma_silent_add(steps, rest);
            }
        }
    }
}

/// A boot that is not traced writes nothing to standard error.
pub proof fn law_an_untraced_boot_is_silent(
    args: ArgsView,
    tracing: bool,
    replies: Seq<ReplyView>,
    k: int,
)
    requires
        asks(booting(args, tracing), replies, k),
        !after(booting(args, tracing), replies, k).session.tracing,
    ensures
        !(step(booting(args, tracing), replies, k).request is PrintError),
{
    lemma_boot_silent(args, tracing, replies, k);
}

/// The steps after `k` replies are announced, the first of them perhaps by the step before it.
spec fn announced_at(machine: MachineView, replies: Seq<ReplyView>, k: int) -> bool {
    let agenda = after(machine, replies, k).agenda;
    ||| announced(agenda)
    ||| {
        &&& k > 0
        &&& agenda.len() > 0
        &&& announces(step(machine, replies, k - 1).request, agenda[0].request)
        &&& announced(agenda.skip(1))
    }
}

proof fn lemma_announced_rest(tasks: Seq<TaskView>)
    requires
        announced(tasks),
        tasks.len() > 0,
    ensures
        tasks.len() > 1 ==> in_turn(tasks[0], tasks[1]),
        tasks.len() > 1 && tasks[1].request is Spawn ==> announced(tasks.skip(1).skip(1)),
        tasks.len() > 1 && !(tasks[1].request is Spawn) || tasks.len() == 1 ==> announced(
            tasks.skip(1),
        ),
{
    let rest = tasks.skip(1);
    assert forall|i: int, j: int|
        #![trigger rest[i], rest[j]]
        0 <= i && j == i + 1 && j < rest.len() implies in_turn(rest[i], rest[j]) by {
        assert(rest[i] == tasks[i + 1] && rest[j] == tasks[j + 1]);
    }
    if tasks.len() > 1 && tasks[1].request is Spawn {
        let more = rest.skip(1);
        assert forall|i: int, j: int|
            #![trigger more[i], more[j]]
            0 <= i && j == i + 1 && j < more.len() implies in_turn(more[i], more[j]) by {
            assert(more[i] == rest[i + 1] && more[j] == rest[j + 1]);
        }
        if more.len() > 0 {
            assert(more[0] == tasks[2]);
            assert(in_turn(tasks[1], tasks[2]));
        }
    }
}

/// No command is planned before it is known whether commands are traced.
proof fn lemma_nothing_to_announce(agenda: Seq<TaskView>)
    requires
        ordered(agenda, 0, 14),
        agenda.len() > 0,
        agenda[0].handler is KernelCommandLine,
    ensures
        announced(agenda.skip(1)),
{
    let rest = agenda.skip(1);
    assert forall|i: int| 0 <= i < rest.len() implies !((#[trigger] rest[i]).request is Spawn) by {
        assert(rest[i] == agenda[i + 1]);
        assert(follows(agenda[0], agenda[i + 1]));
        assert(in_place(agenda[i + 1]));
    }
}

/// What the steps are announced by after one more reply.
proof fn lemma_still_announced(
    machine: MachineView,
    replies: Seq<ReplyView>,
    k: int,
    steps: Seq<TaskView>,
)
    requires
        0 <= k,
        after(machine, replies, k).agenda.len() > 0,
        announced_at(machine, replies, k),
        announced(steps),
        after(machine, replies, k).agenda[0].handler is Ignore ==> steps.len() == 0,
        after(machine, replies, k + 1).agenda == steps + after(machine, replies, k).agenda.skip(1),
    ensures
        announced_at(machine, replies, k + 1),
{
    let agenda = after(machine, replies, k).agenda;
    let rest = agenda.skip(1);
    if announced(agenda) {
        lemma_announced_rest(agenda);
        if rest.len() > 0 && rest[0].request is Spawn {
            assert(steps + rest =~= rest);
        } else {
            lemma_announced_add(steps, rest);
        }
    } else {
        lemma_announced_add(steps, rest);
    }
}

proof fn lemma_boot_announced(args: ArgsView, tracing: bool, replies: Seq<ReplyView>, k: int)
    requires
        0 <= k <= replies.len(),
        after(booting(args, tracing), replies, k).session.tracing,
    ensures
        announced_at(booting(args, tracing), replies, k),
    decreases k,
{
    let m = booting(args, tracing);
    let now = after(m, replies, k);
    if k == 0 {
        assert(announced(now.agenda));
    } else {
        let before = after(m, replies, k - 1);
        let reply = replies[k - 1];
        lemma_next(m, replies, k - 1);
        lemma_boot_ordered(args, tracing, replies, 0, k - 1);
        if before.session.tracing {
            lemma_boot_announced(args, tracing, replies, k - 1);
        }
        if !before.finished() {
            let task = before.agenda[0];
            let rest = before.agenda.skip(1);
            lemma_shows(task, reply, before.session);
            if steps_after(task.handler, reply, before.session) is Err || now.session.captured
                != session_after(task.handler, reply, before.session).captured {
                assert(announced(now.agenda));
            } else {
                let steps = steps_after(task.handler, reply, before.session)->Ok_0;
                assert(now.agenda == steps + rest);
                if before.session.tracing {
                    lemma_still_announced(m, replies, k - 1, steps);
                } else {
                    lemma_nothing_to_announce(before.agenda);
                    lemma_announced_add(steps, rest);
                }
            }
        }
    }
}

/// In a traced boot every command that is run comes right after its trace line.
pub proof fn law_a_traced_boot_announces_its_commands(
    args: ArgsView,
    tracing: bool,
    replies: Seq<ReplyView>,
    k: int,
)
    requires
        asks(booting(args, tracing), replies, k),
        after(booting(args, tracing), replies, k).session.tracing,
        step(booting(args, tracing), replies, k).request is Spawn,
    ensures
        k > 0,
        announces(
            step(booting(args, tracing), replies, k - 1).request,
            step(booting(args, tracing), replies, k).request,
        ),
{
    lemma_boot_announced(args, tracing, replies, k);
}

/// The steps set up the boot, and none of them runs a command.
spec fn setting_up(tasks: Seq<TaskView>) -> bool {
    forall|i: int|
        0 <= i < tasks.len() ==> (#[trigger] tasks[i]).stage == Stage::Setup && !(
        tasks[i].request is Spawn)
}

/// The kernel command line is read.
pub open spec fn reads_command_line(machine: MachineView, replies: Seq<ReplyView>, k: int) -> bool {
    &&& asks(machine, replies, k)
    &&& step(machine, replies, k).handler is KernelCommandLine
}

proof fn lemma_setup_comes_first(
    args: ArgsView,
    tracing: bool,
    replies: Seq<ReplyView>,
    k: int,
)
    requires
        0 <= k <= replies.len(),
    ensures
        ({
            &&& setting_up(after(booting(args, tracing), replies, k).agenda)
            &&& after(booting(args, tracing), replies, k).session.captured is None
        }) || exists|j: int|
            0 <= j < k && #[trigger] reads_command_line(booting(args, tracing), replies, j),
    decreases k,
{
    let m = booting(args, tracing);
    if k > 0 {
        let before = after(m, replies, k - 1);
        let now = after(m, replies, k).agenda;
        lemma_next(m, replies, k - 1);
        lemma_setup_comes_first(args, tracing, replies, k - 1);
        lemma_boot_ordered(args, tracing, replies, 0, k - 1);
        if !before.finished() {
            let task = before.agenda[0];
            if task.handler is KernelCommandLine {
                assert(reads_command_line(m, replies, k - 1));
            } else if setting_up(before.agenda) && before.session.captured is None {
                assert(in_place(task));
                let steps = steps_after(task.handler, replies[k - 1], before.session)->Ok_0;
                assert(setting_up(steps));
                assert(now == steps + before.agenda.skip(1));
                assert forall|i: int| 0 <= i < now.len() implies (#[trigger] now[i]).stage
                    == Stage::Setup && !(now[i].request is Spawn) by {
                    if i < steps.len() {
                        assert(now[i] == steps[i]);
                    } else {
                        assert(now[i] == before.agenda[i - steps.len() + 1]);
                    }
                }
            }
        }
    }
}

/// Before a boot runs any command, it has read the kernel command line, whether systemd ran the
/// first stage or not.
pub proof fn law_the_command_line_is_read_first(
    args: ArgsView,
    tracing: bool,
    replies: Seq<ReplyView>,
    k: int,
)
    requires
        asks(booting(args, tracing), replies, k),
        step(booting(args, tracing), replies, k).request is Spawn,
    ensures
        exists|j: int|
            0 <= j < k && #[trigger] reads_command_line(booting(args, tracing), replies, j),
{
    lemma_setup_comes_first(args, tracing, replies, k);
}

/// Whenever `boot.debugtrace` is on the kernel command line, every command that is run comes right
/// after its trace line.
pub proof fn law_the_flag_makes_every_command_announced(
    args: ArgsView,
    tracing: bool,
    replies: Seq<ReplyView>,
    k: int,
)
    requires
        asks(booting(args, tracing), replies, k),
        step(booting(args, tracing), replies, k).request is Spawn,
        forall|j: int|
            0 <= j < k && #[trigger] reads_command_line(booting(args, tracing), replies, j)
                ==> traces(replies[j]),
    ensures
        k > 0,
        announces(
            step(booting(args, tracing), replies, k - 1).request,
            step(booting(args, tracing), replies, k).request,
        ),
{
    let m = booting(args, tracing);
    law_the_command_line_is_read_first(args, tracing, replies, k);
    let j = choose|j: int| 0 <= j < k && #[trigger] reads_command_line(m, replies, j);
    lemma_next(m, replies, j);
    law_tracing_stays_on(m, replies, j + 1, k);
    law_a_traced_boot_announces_its_commands(args, tracing, replies, k);
}

// ---------------------------------------------------------------------------------------------
// The log.
// ---------------------------------------------------------------------------------------------

/// Every line for the log goes to this file, or to none.
spec fn all_logged(tasks: Seq<TaskView>, dest: Option<Seq<char>>) -> bool {
    forall|i: int|
        0 <= i < tasks.len() ==> {
            &&& ((#[trigger] tasks[i]).request matches RequestView::Log { dest: d, .. } ==> d == dest)
            &&& !(tasks[i].handler is LogDirectory)
        }
}

proof fn lemma_logged_add(a: Seq<TaskView>, b: Seq<TaskView>, dest: Option<Seq<char>>)
    requires
        all_logged(a, dest),
        all_logged(b, dest),
    ensures
        all_logged(a + b, dest),
{
    let c = a + b;
    assert forall|i: int| 0 <= i < c.len() implies {
        &&& ((#[trigger] c[i]).request matches RequestView::Log { dest: d, .. } ==> d == dest)
        &&& !(c[i].handler is LogDirectory)
    } by {
        if i < a.len() {
            assert(c[i] == a[i]);
        } else {
            assert(c[i] == b[i - a.len()]);
        }
    }
}

/// What a reply leads to is logged where the session says.
spec fn logs(task: TaskView, reply: ReplyView, session: SessionView) -> bool {
    match steps_after(task.handler, reply, session) {
        Ok(steps) => all_logged(steps, session_after(task.handler, reply, session).log_dest),
        Err(_) => true,
    }
}

proof fn lemma_directories_log(paths: Seq<Seq<char>>, session: SessionView)
    ensures
        all_logged(directories_steps(paths, session), session.log_dest),
    decreases paths.len(),
{
    if paths.len() > 0 {
        lemma_directories_log(paths.drop_last(), session);
        lemma_logged_add(
            directories_steps(paths.drop_last(), session),
            directory_steps(paths.last(), session),
            session.log_dest,
        );
    }
}

proof fn lemma_stages_log(args: ArgsView, after_systemd: bool, session: SessionView)
    ensures
        all_logged(stages(args, after_systemd, session), session.log_dest),
{
    lemma_directories_log(required_directories(), session);
}

proof fn lemma_setup_logs(task: TaskView, reply: ReplyView, session: SessionView)
    requires
        is_scout(task.handler),
    ensures
        logs(task, reply, session),
{
    let known = session_after(task.handler, reply, session);
    let steps = steps_after(task.handler, reply, session)->Ok_0;
    match task.handler {
        HandlerView::KernelCommandLine { args, after_systemd } => {
            let planned = stages(args, after_systemd, known);
            let first = steps.take(steps.len() - planned.len());
            lemma_stages_log(args, after_systemd, known);
            assert(steps =~= first + planned);
            lemma_logged_add(first, planned, known.log_dest);
        },
        _ => {},
    }
}

proof fn lemma_mounts_log(task: TaskView, reply: ReplyView, session: SessionView)
    requires
        in_place(task),
        !is_scout(task.handler),
        task.stage.rank() <= 5,
    ensures
        logs(task, reply, session),
{
}

proof fn lemma_files_log(task: TaskView, reply: ReplyView, session: SessionView)
    requires
        in_place(task),
        6 <= task.stage.rank() <= 8,
    ensures
        logs(task, reply, session),
{
}

proof fn lemma_activation_logs(task: TaskView, reply: ReplyView, session: SessionView)
    requires
        in_place(task),
        9 <= task.stage.rank(),
    ensures
        logs(task, reply, session),
{
}

proof fn lemma_logs(task: TaskView, reply: ReplyView, session: SessionView)
    requires
        in_place(task),
    ensures
        logs(task, reply, session),
{
    if is_scout(task.handler) {
        lemma_setup_logs(task, reply, session);
    } else if task.stage.rank() <= 5 {
        lemma_mounts_log(task, reply, session);
    } else if task.stage.rank() <= 8 {
        lemma_files_log(task, reply, session);
    } else {
        lemma_activation_logs(task, reply, session);
    }
}

proof fn lemma_boot_logs(args: ArgsView, tracing: bool, replies: Seq<ReplyView>, k: int)
    requires
        0 < k <= replies.len(),
    ensures
        after(booting(args, tracing), replies, k).session.log_dest == log_file(
            replies[0].failure() is None,
        ),
        all_logged(
            after(booting(args, tracing), replies, k).agenda,
            log_file(replies[0].failure() is None),
        ),
    decreases k,
{
    let m = booting(args, tracing);
    let before = after(m, replies, k - 1);
    lemma_next(m, replies, k - 1);
    lemma_boot_ordered(args, tracing, replies, 0, k - 1);
    if k == 1 {
        assert(before == m);
    } else {
        lemma_boot_logs(args, tracing, replies, k - 1);
    }
    if !before.finished() {
        let task = before.agenda[0];
        let rest = before.agenda.skip(1);
        lemma_logs(task, replies[k - 1], before.session);
        let dest = log_file(replies[0].failure() is None);
        assert forall|i: int| 0 <= i < rest.len() implies {
            &&& ((#[trigger] rest[i]).request matches RequestView::Log { dest: d, .. } ==> d == dest)
            &&& !(rest[i].handler is LogDirectory)
        } by {
            assert(rest[i] == before.agenda[i + 1]);
        }
        if let Ok(steps) = steps_after(task.handler, replies[k - 1], before.session) {
            lemma_logged_add(steps, rest, dest);
        }
    }
}

/// Every line of a boot's log goes to the log file, if its directory could be created as the first
/// thing of all, and to no file otherwise.
pub proof fn law_the_log_goes_to_one_place(
    args: ArgsView,
    tracing: bool,
    replies: Seq<ReplyView>,
    k: int,
)
    requires
        asks(booting(args, tracing), replies, k),
    ensures
        step(booting(args, tracing), replies, k).request matches RequestView::Log { dest, .. }
            ==> k > 0 && dest == log_file(replies[0].failure() is None),
{
    if k > 0 {
        lemma_boot_logs(args, tracing, replies, k);
    }
}

} // verus!
