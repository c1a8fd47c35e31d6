//! A run over a set of targets: the probes to perform, and the recording of
//! what they gave.
//!
//! The caller performs the probes, concurrently if it likes, and hands back
//! each outcome together with the position of its target, in whatever order
//! the checks finish. Results are written by position and each only once, so
//! the report is in declaration order however the checks were scheduled.

use crate::probe::Probe;
use crate::report::{
    lemma_report_follows_declaration, report_text, slots, success_text, texts, Outcome,
};
use crate::target::{NetworkResources, Resource};
use vstd::prelude::*;

verus! {

impl Resource {
    /// Whether `other` is defined as this target is: the same in everything
    /// but the result slot.
    pub open spec fn same_definition(&self, other: Resource) -> bool {
        &&& other.desc == self.desc
        &&& other.addr == self.addr
        &&& other.custom == self.custom
        &&& other.kind == self.kind
    }

    /// The result slot of this target once `outcome` has been recorded. A
    /// result is written once: a filled slot stays as it is.
    pub open spec fn slot_after(&self, outcome: Outcome) -> Option<Seq<char>> {
        match self.slot() {
            Some(text) => Some(text),
            None => Some(self.line(outcome)),
        }
    }

    /// Records the outcome of this target's check in its result slot, unless
    /// the slot is already filled. Returns whether the result was written.
    pub fn record(&mut self, outcome: &Outcome) -> (written: bool)
        ensures
            old(self).same_definition(*final(self)),
            final(self).slot() == old(self).slot_after(*outcome),
            written == old(self).pending(),
    {
        if self.res.is_none() {
            let line = self.result_line(outcome);
            self.res = Some(line);
            true
        } else {
            false
        }
    }
}

/// Whether two sequences hold the same target definitions, position by
/// position.
pub open spec fn same_definitions(before: Seq<Resource>, after: Seq<Resource>) -> bool {
    &&& before.len() == after.len()
    &&& forall|i: int| 0 <= i < before.len() ==> (#[trigger] before[i]).same_definition(after[i])
}

/// The outcome that counts for the target at position `index`, among
/// outcomes listed in the order in which they arrived: the first one that
/// names the position, if there is any.
pub open spec fn arrival_for(arrivals: Seq<(usize, Outcome)>, index: int) -> Option<Outcome>
    decreases arrivals.len(),
{
    if arrivals.len() == 0 {
        None
    } else if arrivals.first().0 == index {
        Some(arrivals.first().1)
    } else {
        arrival_for(arrivals.drop_first(), index)
    }
}

/// The result slots of `targets` once `arrivals` have been recorded.
///
/// A slot that was filled stays as it was. A pending target receives the line
/// for the outcome that counts for its position, and stays pending where no
/// outcome names it. An arrival that names no position of the set has no
/// effect.
pub open spec fn slots_after(targets: Seq<Resource>, arrivals: Seq<(usize, Outcome)>) -> Seq<
    Option<Seq<char>>,
> {
    Seq::new(
        targets.len(),
        |i: int|
            match arrival_for(arrivals, i) {
                Some(outcome) => targets[i].slot_after(outcome),
                None => targets[i].slot(),
            },
    )
}

/// The outcome that counts for a position is not changed by a later arrival,
/// unless none had arrived for it yet.
proof fn lemma_arrival_for_push(arrivals: Seq<(usize, Outcome)>, last: (usize, Outcome), index: int)
    ensures
        arrival_for(arrivals.push(last), index) == match arrival_for(arrivals, index) {
            Some(outcome) => Some(outcome),
            None => if last.0 == index {
                Some(last.1)
            } else {
                None
            },
        },
    decreases arrivals.len(),
{
    let all = arrivals.push(last);
    if arrivals.len() == 0 {
        assert(all.drop_first() =~= arrivals);
    } else {
        assert(all.first() == arrivals.first());
        assert(all.drop_first() =~= arrivals.drop_first().push(last));
        if arrivals.first().0 != index {
            lemma_arrival_for_push(arrivals.drop_first(), last, index);
        }
    }
}

impl NetworkResources {
    /// The probes of a run: for each target the operation that checks it, in
    /// declaration order.
    pub fn probes(&self) -> (probes: Vec<Probe<'_>>)
        ensures
            probes.len() == self.target.len(),
            forall|i: int| 0 <= i < self.target.len() ==> probes[i] == self.target[i].spec_probe(),
    {
        let mut probes: Vec<Probe<'_>> = Vec::new();
        let mut i: usize = 0;
        while i < self.target.len()
            invariant
                i <= self.target.len(),
                probes.len() == i,
                forall|j: int| 0 <= j < i ==> probes[j] == self.target[j].spec_probe(),
            decreases self.target.len() - i,
        {
            probes.push(self.target[i].probe());
            i += 1;
        }
        probes
    }

    /// Records the outcome of the check of the target at position `index`.
    ///
    /// Returns whether a result was written: `false` where the target already
    /// has a result, which it keeps, and where the set has no such position.
    pub fn record(&mut self, index: usize, outcome: &Outcome) -> (written: bool)
        ensures
            same_definitions(old(self).target@, final(self).target@),
            forall|i: int|
                0 <= i < old(self).target.len() && i != index ==> #[trigger] final(self).target[i]
                    == old(self).target[i],
            index < old(self).target.len() ==> final(self).target[index as int].slot() == old(
                self,
            ).target[index as int].slot_after(*outcome),
            written == (index < old(self).target.len() && old(self).target[index as int].pending()),
    {
        if index < self.target.len() {
            self.target[index].record(outcome)
        } else {
            false
        }
    }

    /// Records the outcomes of a run and returns the lines to print.
    ///
    /// `arrivals` lists the outcomes in the order in which the checks
    /// finished, each with the position of its target. Every pending target
    /// receives the line for the first outcome that names it. The lines
    /// returned are the results in declaration order.
    pub fn check_resources(&mut self, arrivals: &Vec<(usize, Outcome)>) -> (lines: Vec<String>)
        ensures
            same_definitions(old(self).target@, final(self).target@),
            slots(final(self).target@) == slots_after(old(self).target@, arrivals@),
            texts(lines@) == report_text(slots(final(self).target@)),
    {
        let ghost before = self.target@;
        let mut k: usize = 0;
        assert(slots(self.target@) =~= slots_after(before, arrivals@.take(0)));
        while k < arrivals.len()
            invariant
                k <= arrivals.len(),
                same_definitions(before, self.target@),
                slots(self.target@) == slots_after(before, arrivals@.take(k as int)),
            decreases arrivals.len() - k,
        {
            let ghost seen = arrivals@.take(k as int);
            let ghost held = self.target@;
            let index = arrivals[k].0;
            self.record(index, &arrivals[k].1);
            proof {
                let next = arrivals@.take(k + 1);
                assert(next =~= seen.push(arrivals@[k as int]));
                assert forall|i: int| 0 <= i < before.len() implies #[trigger] slots(self.target@)[i]
                    == slots_after(before, next)[i] by {
                    lemma_arrival_for_push(seen, arrivals@[k as int], i);
                    assert(slots(held)[i] == slots_after(before, seen)[i]);
                    assert(before[i].same_definition(held[i]));
                }
                assert(slots(self.target@) =~= slots_after(before, next));
                assert forall|i: int| 0 <= i < before.len() implies (#[trigger] before[i]).same_definition(
                    self.target@[i],
                ) by {
                    assert(before[i].same_definition(held[i]));
                    assert(held[i].same_definition(self.target@[i]));
                }
            }
            k += 1;
        }
        assert(arrivals@.take(k as int) =~= arrivals@);
        self.report()
    }
}

/// Whether no two arrivals name the same position.
pub open spec fn distinct_positions(arrivals: Seq<(usize, Outcome)>) -> bool {
    forall|j: int, k: int|
        0 <= j < arrivals.len() && 0 <= k < arrivals.len() && j != k ==> (#[trigger] arrivals[j]).0
            != (#[trigger] arrivals[k]).0
}

/// Whether an arrival names the position `index`.
pub open spec fn names(arrivals: Seq<(usize, Outcome)>, index: int) -> bool {
    exists|k: int| 0 <= k < arrivals.len() && (#[trigger] arrivals[k]).0 == index
}

/// The outcome that counts for a position is one of the arrivals that name
/// it; the place of one such arrival is returned.
pub proof fn lemma_counting_arrival(arrivals: Seq<(usize, Outcome)>, index: int) -> (k: int)
    requires
        arrival_for(arrivals, index) is Some,
    ensures
        0 <= k < arrivals.len(),
        arrivals[k].0 == index,
        arrival_for(arrivals, index) == Some(arrivals[k].1),
    decreases arrivals.len(),
{
    if arrivals.first().0 == index {
        0
    } else {
        let rest = arrivals.drop_first();
        let k = lemma_counting_arrival(rest, index);
        assert(rest[k] == arrivals[k + 1]);
        k + 1
    }
}

/// No outcome counts for a position exactly when no arrival names it.
pub proof fn lemma_no_arrival(arrivals: Seq<(usize, Outcome)>, index: int)
    ensures
        arrival_for(arrivals, index) is None <==> !names(arrivals, index),
    decreases arrivals.len(),
{
    if arrivals.len() == 0 {
    } else if arrivals.first().0 == index {
        assert(arrivals[0].0 == index);
    } else {
        let rest = arrivals.drop_first();
        lemma_no_arrival(rest, index);
        if names(rest, index) {
            let k = choose|k: int| 0 <= k < rest.len() && (#[trigger] rest[k]).0 == index;
            assert(arrivals[k + 1] == rest[k]);
        }
        if names(arrivals, index) {
            let k = choose|k: int| 0 <= k < arrivals.len() && (#[trigger] arrivals[k]).0 == index;
            assert(rest[k - 1] == arrivals[k]);
        }
    }
}

/// Where no two arrivals name the same position, every arrival counts for the
/// position that it names.
pub proof fn lemma_every_arrival_counts(arrivals: Seq<(usize, Outcome)>, k: int)
    requires
        distinct_positions(arrivals),
        0 <= k < arrivals.len(),
    ensures
        arrival_for(arrivals, arrivals[k].0 as int) == Some(arrivals[k].1),
{
    let index = arrivals[k].0 as int;
    lemma_no_arrival(arrivals, index);
    let j = lemma_counting_arrival(arrivals, index);
    assert(j == k);
}

/// The order in which the checks finish has no effect on the results.
///
/// Two lists of arrivals that hold the same arrivals, each position named at
/// most once, leave every result slot the same, in whatever order each of
/// them lists the arrivals.
pub proof fn lemma_arrival_order_is_irrelevant(
    targets: Seq<Resource>,
    first: Seq<(usize, Outcome)>,
    second: Seq<(usize, Outcome)>,
)
    requires
        distinct_positions(first),
        distinct_positions(second),
        forall|k: int| 0 <= k < first.len() ==> second.contains(#[trigger] first[k]),
        forall|k: int| 0 <= k < second.len() ==> first.contains(#[trigger] second[k]),
    ensures
        slots_after(targets, first) == slots_after(targets, second),
{
    assert forall|i: int| 0 <= i < targets.len() implies arrival_for(first, i) == arrival_for(
        second,
        i,
    ) by {
        lemma_counts_in_both(first, second, i);
        lemma_counts_in_both(second, first, i);
    }
    assert(slots_after(targets, first) =~= slots_after(targets, second));
}

/// An outcome that counts for a position in one list of arrivals counts for
/// it in every list of distinct positions that holds the arrivals of the
/// first.
proof fn lemma_counts_in_both(
    first: Seq<(usize, Outcome)>,
    second: Seq<(usize, Outcome)>,
    index: int,
)
    requires
        distinct_positions(second),
        forall|k: int| 0 <= k < first.len() ==> second.contains(#[trigger] first[k]),
    ensures
        arrival_for(first, index) is Some ==> arrival_for(second, index) == arrival_for(first, index),
{
    if arrival_for(first, index) is Some {
        let k = lemma_counting_arrival(first, index);
        assert(second.contains(first[k]));
        let j = choose|j: int| 0 <= j < second.len() && second[j] == first[k];
        lemma_every_arrival_counts(second, j);
    }
}

/// The report of a run is in declaration order, not in the order in which
/// the checks finished.
///
/// When a set of pending targets has been checked and every position is
/// named by exactly one arrival, the report has one line for each target, and
/// the line at the position that an arrival names is the line of the target
/// declared there for that arrival's outcome, wherever in the list the
/// arrival stands and whatever the elapsed times were.
pub proof fn lemma_report_in_declaration_order(
    targets: Seq<Resource>,
    arrivals: Seq<(usize, Outcome)>,
)
    requires
        forall|i: int| 0 <= i < targets.len() ==> (#[trigger] targets[i]).pending(),
        forall|i: int| 0 <= i < targets.len() ==> names(arrivals, i),
        distinct_positions(arrivals),
    ensures
        report_text(slots_after(targets, arrivals)).len() == targets.len(),
        forall|k: int|
            0 <= k < arrivals.len() && (#[trigger] arrivals[k]).0 < targets.len() ==> report_text(
                slots_after(targets, arrivals),
            )[arrivals[k].0 as int] == targets[arrivals[k].0 as int].line(arrivals[k].1),
{
    let after = slots_after(targets, arrivals);
    assert forall|i: int| 0 <= i < after.len() implies (#[trigger] after[i]) is Some by {
        assert(targets[i].pending());
        lemma_no_arrival(arrivals, i);
    }
    lemma_report_follows_declaration(after);
    assert forall|k: int|
        0 <= k < arrivals.len() && (#[trigger] arrivals[k]).0 < targets.len() implies report_text(
        after,
    )[arrivals[k].0 as int] == targets[arrivals[k].0 as int].line(arrivals[k].1) by {
        let i = arrivals[k].0 as int;
        lemma_every_arrival_counts(arrivals, k);
        assert(targets[i].pending());
        assert(report_text(after)[i] == after[i]->0);
    }
}

/// Two runs of one definition that meet the same reply at a target end alike
/// there, however long each of them took.
///
/// Both succeed or both fail, and with the same failure. Two failure lines
/// are the same text; two success lines name the same target and differ at
/// most in the elapsed time.
pub proof fn lemma_same_reply_same_result(
    first_run: Resource,
    second_run: Resource,
    first: Outcome,
    second: Outcome,
)
    requires
        first_run.same_definition(second_run),
        first_run.pending(),
        second_run.pending(),
        first.reply == second.reply,
    ensures
        first_run.verdict(first.reply) == second_run.verdict(second.reply),
        first_run.verdict(first.reply) is Err ==> first_run.slot_after(first)
            == second_run.slot_after(second),
        first_run.verdict(first.reply) is Ok ==> first_run.slot_after(first) == Some(
            success_text(first_run.desc@, first.elapsed_ms as nat),
        ) && second_run.slot_after(second) == Some(
            success_text(first_run.desc@, second.elapsed_ms as nat),
        ),
{
}

/// A result is written once: when an outcome has been recorded for a
/// target, recording another one changes nothing.
pub proof fn lemma_result_written_once(
    target: Resource,
    first: Outcome,
    after_first: Resource,
    second: Outcome,
)
    requires
        after_first.slot() == target.slot_after(first),
    ensures
        after_first.slot() is Some,
        after_first.slot_after(second) == after_first.slot(),
{
}

/// In a run, a later arrival for a position that an earlier one has named
/// changes nothing.
pub proof fn lemma_later_arrival_is_ignored(
    targets: Seq<Resource>,
    arrivals: Seq<(usize, Outcome)>,
    later: (usize, Outcome),
)
    requires
        names(arrivals, later.0 as int),
    ensures
        slots_after(targets, arrivals.push(later)) == slots_after(targets, arrivals),
{
    assert forall|i: int| 0 <= i < targets.len() implies arrival_for(arrivals.push(later), i)
        == arrival_for(arrivals, i) by {
        lemma_arrival_for_push(arrivals, later, i);
        lemma_no_arrival(arrivals, i);
    }
    assert(slots_after(targets, arrivals.push(later)) =~= slots_after(targets, arrivals));
}

} // verus!
