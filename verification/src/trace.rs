//! The runs of a machine: what it asks for, given the replies that it gets.

use vstd::prelude::*;

use crate::machine::MachineView;
use crate::request::ReplyView;
use crate::task::TaskView;

verus! {

/// The machine after a sequence of replies.
pub open spec fn driven(machine: MachineView, replies: Seq<ReplyView>) -> MachineView
    decreases replies.len(),
{
    if replies.len() == 0 {
        machine
    } else {
        driven(machine, replies.drop_last()).resumed(replies.last())
    }
}

/// The machine after the first `k` of the replies.
pub open spec fn after(machine: MachineView, replies: Seq<ReplyView>, k: int) -> MachineView {
    driven(machine, replies.take(k))
}

/// After the first `k` of the replies, the machine asks for something more.
pub open spec fn asks(machine: MachineView, replies: Seq<ReplyView>, k: int) -> bool {
    0 <= k <= replies.len() && !after(machine, replies, k).finished()
}

/// The step to which `replies[k]` is the reply.
pub open spec fn step(machine: MachineView, replies: Seq<ReplyView>, k: int) -> TaskView {
    after(machine, replies, k).agenda[0]
}

/// Each reply takes the machine one step on.
pub(crate) proof fn lemma_next(machine: MachineView, replies: Seq<ReplyView>, k: int)
    requires
        0 <= k < replies.len(),
    ensures
        after(machine, replies, k + 1) == after(machine, replies, k).resumed(replies[k]),
{
    assert(replies.take(k + 1).drop_last() =~= replies.take(k));
}

/// A machine that is at its end stays there.
pub(crate) proof fn lemma_asked_before(
    machine: MachineView,
    replies: Seq<ReplyView>,
    j: int,
    k: int,
)
    requires
        0 <= j <= k,
        asks(machine, replies, k),
    ensures
        asks(machine, replies, j),
    decreases k - j,
{
    if j < k {
        lemma_next(machine, replies, k - 1);
        lemma_asked_before(machine, replies, j, k - 1);
    }
}

} // verus!
