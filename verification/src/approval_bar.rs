//! The bar in which the user goes through tool calls and approves or rejects each.

use vstd::prelude::*;
use crate::models::ToolCall;
use crate::text::same_text;

verus! {

/// What the user decided of a tool call.
#[derive(Clone, Copy, Debug, PartialEq, Eq, Structural)]
pub enum ApprovalStatus {
    Approved,
    Rejected,
}

/// A tool call in the bar.
#[derive(Debug)]
pub struct ApprovalAction {
    pub tool_call: ToolCall,
    pub status: ApprovalStatus,
}

/// The tool calls, the one that is selected, and whether a first escape waits for a second one. The
/// bar is shown while there is a tool call in it.
#[derive(Debug)]
pub struct ApprovalBar {
    pub actions: Vec<ApprovalAction>,
    pub selected: usize,
    pub esc_pending: bool,
}

/// The actions with a status for each of them.
pub open spec fn all_with(actions: Seq<ApprovalAction>, status: ApprovalStatus) -> Seq<
    ApprovalAction,
> {
    actions.map_values(|a: ApprovalAction| ApprovalAction { status, ..a })
}

/// The tool calls of the actions with the given status, in their order.
pub open spec fn calls_with(actions: Seq<ApprovalAction>, status: ApprovalStatus) -> Seq<ToolCall>
    decreases actions.len(),
{
    if actions.len() == 0 {
        Seq::empty()
    } else if actions.last().status == status {
        calls_with(actions.drop_last(), status).push(actions.last().tool_call)
    } else {
        calls_with(actions.drop_last(), status)
    }
}

/// Whether a tool call with the identifier is in the bar.
pub open spec fn has_call(actions: Seq<ApprovalAction>, id: Seq<char>) -> bool {
    exists|i: int| 0 <= i < actions.len() && (#[trigger] actions[i]).tool_call.id@ == id
}

/// The actions after tool calls were put in, one after the other. A call that is in the bar already
/// is not put in again; a new one counts as approved until the user says otherwise.
pub open spec fn with_calls(actions: Seq<ApprovalAction>, calls: Seq<ToolCall>) -> Seq<
    ApprovalAction,
>
    decreases calls.len(),
{
    if calls.len() == 0 {
        actions
    } else {
        let before = with_calls(actions, calls.drop_last());
        let call = calls.last();
        if has_call(before, call.id@) {
            before
        } else {
            before.push(ApprovalAction { tool_call: call, status: ApprovalStatus::Approved })
        }
    }
}

proof fn lemma_with_call(actions: Seq<ApprovalAction>, call: ToolCall)
    ensures
        with_calls(actions, seq![call]) == (if has_call(actions, call.id@) {
            actions
        } else {
            actions.push(ApprovalAction { tool_call: call, status: ApprovalStatus::Approved })
        }),
{
    assert(seq![call].drop_last() =~= Seq::<ToolCall>::empty());
    assert(with_calls(actions, Seq::<ToolCall>::empty()) == actions);
}

pub open spec fn flipped(s: ApprovalStatus) -> ApprovalStatus {
    match s {
        ApprovalStatus::Approved => ApprovalStatus::Rejected,
        ApprovalStatus::Rejected => ApprovalStatus::Approved,
    }
}

impl ApprovalBar {
    pub open spec fn empty(&self) -> bool {
        self.actions@.len() == 0 && self.selected == 0 && !self.esc_pending
    }

    /// Whether there is anything in the bar.
    pub open spec fn shown(&self) -> bool {
        self.actions@.len() > 0
    }

    /// The bar without tool calls.
    pub fn new() -> (r: ApprovalBar)
        ensures
            r.empty(),
    {
        ApprovalBar { actions: Vec::new(), selected: 0, esc_pending: false }
    }

    /// Whether there is anything in the bar.
    pub fn is_visible(&self) -> (r: bool)
        ensures
            r == self.shown(),
    {
        self.actions.len() > 0
    }

    /// Takes everything out.
    pub fn clear(&mut self)
        ensures
            final(self).empty(),
    {
        self.actions.clear();
        self.selected = 0;
        self.esc_pending = false;
    }

    /// Puts a tool call in, unless it is there.
    pub fn add_action(&mut self, call: ToolCall)
        ensures
            final(self).actions@ == with_calls(old(self).actions@, seq![call]),
            final(self).selected == old(self).selected,
            final(self).esc_pending == old(self).esc_pending,
    {
        let ghost before = self.actions@;
        let mut i: usize = 0;
        while i < self.actions.len()
            invariant
                i <= self.actions@.len(),
                self.actions@ == before,
                *self == *old(self),
                forall|j: int| 0 <= j < i ==> (#[trigger] before[j]).tool_call.id@ != call.id@,
            decreases self.actions@.len() - i,
        {
            if same_text(self.actions[i].tool_call.id.as_str(), call.id.as_str()) {
                proof {
                    lemma_with_call(before, call);
                    assert(has_call(before, call.id@));
                }
                return;
            }
            i += 1;
        }
        proof {
            lemma_with_call(before, call);
            assert(!has_call(before, call.id@));
        }
        self.actions.push(ApprovalAction { tool_call: call, status: ApprovalStatus::Approved });
    }

    /// Puts tool calls in, each unless it is there.
    pub fn add_actions(&mut self, calls: &Vec<ToolCall>)
        ensures
            final(self).actions@ == with_calls(old(self).actions@, calls@),
            final(self).selected == old(self).selected,
            final(self).esc_pending == old(self).esc_pending,
    {
        let ghost before = self.actions@;
        let mut i: usize = 0;
        assert(calls@.take(0) =~= Seq::<ToolCall>::empty());
        while i < calls.len()
            invariant
                i <= calls@.len(),
                self.actions@ == with_calls(before, calls@.take(i as int)),
                self.selected == old(self).selected,
                self.esc_pending == old(self).esc_pending,
            decreases calls@.len() - i,
        {
            proof {
                lemma_with_call(self.actions@, calls@[i as int]);
                assert(calls@.take(i + 1).drop_last() =~= calls@.take(i as int));
            }
            self.add_action(calls[i].clone());
            i += 1;
        }
        assert(calls@.take(i as int) =~= calls@);
    }

    fn set_all(&mut self, status: ApprovalStatus)
        ensures
            final(self).actions@ == all_with(old(self).actions@, status),
            final(self).selected == old(self).selected,
            final(self).esc_pending == old(self).esc_pending,
    {
        let ghost before = self.actions@;
        let mut i: usize = 0;
        while i < self.actions.len()
            invariant
                i <= self.actions@.len(),
                self.actions@.len() == before.len(),
                forall|j: int|
                    0 <= j < i ==> #[trigger] self.actions@[j] == (ApprovalAction {
                        status,
                        ..before[j]
                    }),
                forall|j: int| i <= j < before.len() ==> #[trigger] self.actions@[j] == before[j],
                self.selected == old(self).selected,
                self.esc_pending == old(self).esc_pending,
            decreases self.actions@.len() - i,
        {
            let call: ToolCall = self.actions[i].tool_call.clone();
            self.actions.set(i, ApprovalAction { tool_call: call, status });
            i += 1;
        }
        assert(self.actions@ =~= all_with(before, status));
    }

    /// Approves every tool call.
    pub fn approve_all(&mut self)
        ensures
            final(self).actions@ == all_with(old(self).actions@, ApprovalStatus::Approved),
            final(self).selected == old(self).selected,
            final(self).esc_pending == old(self).esc_pending,
    {
        self.set_all(ApprovalStatus::Approved);
    }

    /// Rejects every tool call.
    pub fn reject_all(&mut self)
        ensures
            final(self).actions@ == all_with(old(self).actions@, ApprovalStatus::Rejected),
            final(self).selected == old(self).selected,
            final(self).esc_pending == old(self).esc_pending,
    {
        self.set_all(ApprovalStatus::Rejected);
    }

    /// Gives the selected tool call a status.
    pub fn set_selected(&mut self, status: ApprovalStatus)
        ensures
            final(self).actions@ == (if old(self).selected < old(self).actions@.len() {
                old(self).actions@.update(
                    old(self).selected as int,
                    ApprovalAction { status, ..old(self).actions@[old(self).selected as int] },
                )
            } else {
                old(self).actions@
            }),
            final(self).selected == old(self).selected,
            final(self).esc_pending == old(self).esc_pending,
    {
        let i: usize = self.selected;
        if i < self.actions.len() {
            let call: ToolCall = self.actions[i].tool_call.clone();
            self.actions.set(i, ApprovalAction { tool_call: call, status });
        }
    }

    /// Approves the selected tool call where it was rejected, and the other way round.
    pub fn toggle_selected(&mut self)
        ensures
            final(self).actions@ == (if old(self).selected < old(self).actions@.len() {
                let a = old(self).actions@[old(self).selected as int];
                old(self).actions@.update(
                    old(self).selected as int,
                    ApprovalAction { status: flipped(a.status), ..a },
                )
            } else {
                old(self).actions@
            }),
            final(self).selected == old(self).selected,
            final(self).esc_pending == old(self).esc_pending,
    {
        let i: usize = self.selected;
        if i < self.actions.len() {
            let status: ApprovalStatus = match self.actions[i].status {
                ApprovalStatus::Approved => ApprovalStatus::Rejected,
                ApprovalStatus::Rejected => ApprovalStatus::Approved,
            };
            self.set_selected(status);
        }
    }

    pub open spec fn next_index(&self) -> int {
        if self.selected + 1 < self.actions@.len() {
            self.selected + 1
        } else {
            0
        }
    }

    pub open spec fn prev_index(&self) -> int {
        if self.actions@.len() == 0 {
            0
        } else if self.selected > 0 {
            self.selected - 1
        } else {
            self.actions@.len() - 1
        }
    }

    /// Selects the tool call behind the selected one; behind the last, the first.
    pub fn select_next(&mut self)
        ensures
            final(self).selected == old(self).next_index(),
            *final(self) == (ApprovalBar { selected: final(self).selected, ..*old(self) }),
    {
        if self.actions.len() > 0 && self.selected < self.actions.len() - 1 {
            self.selected = self.selected + 1;
        } else {
            self.selected = 0;
        }
    }

    /// Selects the tool call before the selected one; before the first, the last.
    pub fn select_prev(&mut self)
        ensures
            final(self).selected == old(self).prev_index(),
            *final(self) == (ApprovalBar { selected: final(self).selected, ..*old(self) }),
    {
        if self.actions.len() == 0 {
            self.selected = 0;
        } else if self.selected > 0 {
            self.selected = self.selected - 1;
        } else {
            self.selected = self.actions.len() - 1;
        }
    }

    /// Selects a tool call by its place, counted from one. A place that is not there is ignored.
    pub fn select_action(&mut self, index: usize)
        ensures
            final(self).selected == (if 1 <= index <= old(self).actions@.len() {
                index - 1
            } else {
                old(self).selected as int
            }),
            *final(self) == (ApprovalBar { selected: final(self).selected, ..*old(self) }),
    {
        if index >= 1 && index <= self.actions.len() {
            self.selected = index - 1;
        }
    }

    /// The tool calls with the given status, in their order.
    pub fn tool_calls_with(&self, status: ApprovalStatus) -> (r: Vec<ToolCall>)
        ensures
            r@ == calls_with(self.actions@, status),
    {
        let mut r: Vec<ToolCall> = Vec::new();
        let mut i: usize = 0;
        assert(self.actions@.take(0) =~= Seq::<ApprovalAction>::empty());
        while i < self.actions.len()
            invariant
                i <= self.actions@.len(),
                r@ == calls_with(self.actions@.take(i as int), status),
            decreases self.actions@.len() - i,
        {
            assert(self.actions@.take(i + 1).drop_last() =~= self.actions@.take(i as int));
            if self.actions[i].status == status {
                r.push(self.actions[i].tool_call.clone());
            }
            i += 1;
        }
        assert(self.actions@.take(i as int) =~= self.actions@);
        r
    }
}

/// Every tool call of the bar is approved or rejected, and none is both.
pub proof fn law_calls_split(actions: Seq<ApprovalAction>)
    ensures
        calls_with(actions, ApprovalStatus::Approved).len() + calls_with(
            actions,
            ApprovalStatus::Rejected,
        ).len() == actions.len(),
    decreases actions.len(),
{
    if actions.len() > 0 {
        law_calls_split(actions.drop_last());
    }
}

/// After all are rejected, none is approved; and the other way round.
pub proof fn law_set_all(actions: Seq<ApprovalAction>, status: ApprovalStatus)
    ensures
        calls_with(all_with(actions, status), flipped(status)).len() == 0,
        calls_with(all_with(actions, status), status) == actions.map_values(
            |a: ApprovalAction| a.tool_call,
        ),
    decreases actions.len(),
{
    let set = all_with(actions, status);
    let calls = actions.map_values(|a: ApprovalAction| a.tool_call);
    if actions.len() > 0 {
        law_set_all(actions.drop_last(), status);
        assert(set.drop_last() =~= all_with(actions.drop_last(), status));
        assert(calls =~= actions.drop_last().map_values(|a: ApprovalAction| a.tool_call).push(
            actions.last().tool_call,
        ));
    } else {
        assert(calls =~= Seq::<ToolCall>::empty());
    }
}

/// Calls that are put in the bar: what was in it stays in front, each of the calls is in it, and
/// each that is new in it is one of the calls, counts as approved, and stands in it once.
pub proof fn law_with_calls(actions: Seq<ApprovalAction>, calls: Seq<ToolCall>)
    ensures
        with_calls(actions, calls).len() >= actions.len(),
        with_calls(actions, calls).take(actions.len() as int) == actions,
        forall|j: int|
            0 <= j < calls.len() ==> exists|k: int|
                0 <= k < with_calls(actions, calls).len() && (#[trigger] with_calls(
                    actions,
                    calls,
                )[k]).tool_call.id@ == (#[trigger] calls[j]).id@,
        forall|k: int|
            actions.len() <= k < with_calls(actions, calls).len() ==> (#[trigger] with_calls(
                actions,
                calls,
            )[k]).status == ApprovalStatus::Approved && calls.contains(
                with_calls(actions, calls)[k].tool_call,
            ),
        forall|j: int, k: int|
            0 <= j < k < with_calls(actions, calls).len() && actions.len() <= k ==> (
            #[trigger] with_calls(actions, calls)[j]).tool_call.id@ != (#[trigger] with_calls(
                actions,
                calls,
            )[k]).tool_call.id@,
    decreases calls.len(),
{
    let r = with_calls(actions, calls);
    if calls.len() > 0 {
        let rest = calls.drop_last();
        let b = with_calls(actions, rest);
        let call = calls.last();
        law_with_calls(actions, rest);
        assert(r.take(actions.len() as int) =~= b.take(actions.len() as int));
        assert(forall|k: int| 0 <= k < b.len() ==> #[trigger] r[k] == b[k]);
        assert(call == calls[calls.len() - 1]);
        if has_call(b, call.id@) {
            let m = choose|m: int| 0 <= m < b.len() && (#[trigger] b[m]).tool_call.id@ == call.id@;
            assert(r[m].tool_call.id@ == call.id@);
        } else {
            assert(r[b.len() as int].tool_call.id@ == call.id@);
        }
        assert forall|j: int| 0 <= j < calls.len() implies exists|k: int|
            0 <= k < r.len() && (#[trigger] r[k]).tool_call.id@ == (#[trigger] calls[j]).id@ by {
            if j < rest.len() {
                assert(rest[j] == calls[j]);
                let k = choose|k: int|
                    0 <= k < b.len() && (#[trigger] b[k]).tool_call.id@ == rest[j].id@;
                assert(r[k].tool_call.id@ == calls[j].id@);
            }
        }
        assert forall|k: int| actions.len() <= k < r.len() implies (
        #[trigger] r[k]).status == ApprovalStatus::Approved && calls.contains(r[k].tool_call) by {
            if k < b.len() {
                let x = choose|x: int| 0 <= x < rest.len() && rest[x] == b[k].tool_call;
                assert(calls[x] == r[k].tool_call);
            }
        }
    } else {
        assert(r.take(actions.len() as int) =~= actions);
    }
}

/// The calls with a status, of two bars one behind the other, are those of the first and then those
/// of the second; of a single action it is its call or none.
pub proof fn law_calls_with(
    a: Seq<ApprovalAction>,
    b: Seq<ApprovalAction>,
    x: ApprovalAction,
    status: ApprovalStatus,
)
    ensures
        calls_with(a + b, status) == calls_with(a, status) + calls_with(b, status),
        x.status == status ==> calls_with(seq![x], status) == seq![x.tool_call],
        x.status != status ==> calls_with(seq![x], status).len() == 0,
    decreases b.len(),
{
    assert(seq![x].drop_last() =~= Seq::<ApprovalAction>::empty());
    assert(calls_with(seq![x].drop_last(), status) =~= Seq::<ToolCall>::empty());
    if b.len() == 0 {
        assert(a + b =~= a);
    } else {
        law_calls_with(a, b.drop_last(), x, status);
        assert((a + b).drop_last() =~= a + b.drop_last());
    }
}

/// Every call of the bar is among those with its status, and only those are.
pub proof fn law_calls_with_status(actions: Seq<ApprovalAction>, status: ApprovalStatus, c: ToolCall)
    ensures
        calls_with(actions, status).contains(c) <==> exists|i: int|
            0 <= i < actions.len() && (#[trigger] actions[i]).status == status
                && actions[i].tool_call == c,
    decreases actions.len(),
{
    if actions.len() > 0 {
        let rest = actions.drop_last();
        let r = calls_with(actions, status);
        let w = calls_with(rest, status);
        law_calls_with_status(rest, status, c);
        if r.contains(c) {
            let k = choose|k: int| 0 <= k < r.len() && r[k] == c;
            if k < w.len() {
                assert(w[k] == c);
                let i = choose|i: int|
                    0 <= i < rest.len() && (#[trigger] rest[i]).status == status
                        && rest[i].tool_call == c;
                assert(actions[i].tool_call == c);
            } else {
                assert(actions[actions.len() - 1].tool_call == c);
            }
        }
        if exists|i: int|
            0 <= i < actions.len() && (#[trigger] actions[i]).status == status
                && actions[i].tool_call == c {
            let i = choose|i: int|
                0 <= i < actions.len() && (#[trigger] actions[i]).status == status
                    && actions[i].tool_call == c;
            if i < rest.len() {
                assert(rest[i].tool_call == c);
                let k = choose|k: int| 0 <= k < w.len() && w[k] == c;
                assert(r[k] == c);
            } else {
                assert(r[w.len() as int] == c);
            }
        }
    }
}

/// Going on and going back from any call of the bar come to the same call again, by way of another
/// where there is one; both stay in the bar.
pub proof fn law_selection_goes_round(b: ApprovalBar, c: ApprovalBar)
    requires
        b.selected < b.actions@.len(),
        c.actions@ == b.actions@,
    ensures
        0 <= b.next_index() < b.actions@.len(),
        0 <= b.prev_index() < b.actions@.len(),
        b.selected + 1 < b.actions@.len() ==> b.next_index() == b.selected + 1,
        b.selected + 1 == b.actions@.len() ==> b.next_index() == 0,
        c.selected == b.next_index() ==> c.prev_index() == b.selected,
        c.selected == b.prev_index() ==> c.next_index() == b.selected,
{
}

} // verus!
