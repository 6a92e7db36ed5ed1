//! Identities of runs.
use crate::runner::laws::whole_trace;
use crate::runner::run::{RunInputView, RunView};
use vstd::prelude::*;

verus! {

/// Hands out the identities of runs. One that is shared by all runs of a process keeps
/// them apart.
#[derive(Debug)]
pub struct RunIds {
    next: usize,
}

impl View for RunIds {
    type V = usize;

    closed spec fn view(&self) -> usize {
        self.next
    }
}

/// The identity that is handed out after `id`. After the last one they start again.
pub open spec fn id_after(id: usize) -> usize {
    if id < usize::MAX {
        (id + 1) as usize
    } else {
        0
    }
}

impl RunIds {
    /// Nothing has been handed out yet.
    pub fn new() -> (res: Self)
        ensures
            res@ == 0,
    {
        RunIds { next: 0 }
    }

    /// Hands out the next identity.
    pub fn next_run_id(&mut self) -> (res: usize)
        ensures
            res == old(self)@,
            final(self)@ == id_after(old(self)@),
    {
        let id: usize = self.next;
        self.next = if id < usize::MAX {
            id + 1
        } else {
            0
        };
        id
    }
}

/// The identity that is handed out `count` times after `first`.
pub open spec fn id_at(first: usize, count: nat) -> usize
    decreases count,
{
    if count == 0 {
        first
    } else {
        id_after(id_at(first, (count - 1) as nat))
    }
}

/// Identities count up, modulo how many there are.
proof fn lemma_id_at(first: usize, count: nat)
    ensures
        id_at(first, count) as int == (first + count) % (usize::MAX + 1),
    decreases count,
{
    let all = usize::MAX + 1;
    if count == 0 {
        vstd::arithmetic::div_mod::lemma_small_mod(first as nat, all as nat);
    } else {
        lemma_id_at(first, (count - 1) as nat);
        let before = first + count - 1;
        vstd::arithmetic::div_mod::lemma_add_mod_noop(before, 1, all);
        vstd::arithmetic::div_mod::lemma_small_mod(1, all as nat);
        if before % all < usize::MAX {
            vstd::arithmetic::div_mod::lemma_small_mod((before % all + 1) as nat, all as nat);
        } else {
            vstd::arithmetic::div_mod::lemma_mod_self_0(all);
        }
    }
}

/// No identity is handed out twice, unless all of them have been handed out in
/// between.
pub proof fn law_ids_differ(first: usize, i: nat, j: nat)
    requires
        i < j <= i + usize::MAX,
    ensures
        id_at(first, i) != id_at(first, j),
{
    lemma_id_at(first, i);
    lemma_id_at(first, j);
    let all = usize::MAX + 1;
    let x = first + i;
    let y = first + j;
    if x % all == y % all {
        vstd::arithmetic::div_mod::lemma_fundamental_div_mod(x, all);
        vstd::arithmetic::div_mod::lemma_fundamental_div_mod(y, all);
        let turns = y / all - x / all;
        assert(y - x == all * turns) by (nonlinear_arith)
            requires
                x == all * (x / all) + x % all,
                y == all * (y / all) + y % all,
                x % all == y % all,
                turns == y / all - x / all,
        ;
        assert(false) by (nonlinear_arith)
            requires
                y - x == all * turns,
                0 < y - x < all,
        ;
    }
}

/// Events bear the same identity exactly if they come from the same run: `left` is the
/// run that took the identity number `i`, `right` the one that took number `j`.
pub proof fn law_ids_tell_runs_apart(
    first: usize,
    i: nat,
    j: nat,
    left: RunView,
    right: RunView,
    left_inputs: Seq<RunInputView>,
    right_inputs: Seq<RunInputView>,
    m: int,
    n: int,
)
    requires
        left.run_id == id_at(first, i),
        right.run_id == id_at(first, j),
        i <= j + usize::MAX,
        j <= i + usize::MAX,
        0 <= m < whole_trace(left, left_inputs).len(),
        0 <= n < whole_trace(right, right_inputs).len(),
    ensures
        whole_trace(left, left_inputs)[m].run_id == whole_trace(right, right_inputs)[n].run_id
            <==> i == j,
{
    if i < j {
        law_ids_differ(first, i, j);
    } else if j < i {
        law_ids_differ(first, j, i);
    }
}

/// Identities count up by one, and start again at zero only after the last.
pub proof fn law_ids_count_up(id: usize)
    ensures
        id < usize::MAX ==> id_after(id) == id + 1,
        id == usize::MAX ==> id_after(id) == 0,
{
}

} // verus!
