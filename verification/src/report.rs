//! Wording the results: the line of one target, and the report of a set.

use crate::probe::{body_text, CheckFailure, Reply};
use crate::target::{NetworkResources, Resource};
use crate::text::{decimal, lemma_occurs_between, occurs_in, push_decimal};
use vstd::prelude::*;

verus! {

/// What performing one target's probe gave: the reply, and the time from just
/// before the probe started to just after it returned, in milliseconds.
#[derive(Debug, Clone, PartialEq, Eq)]
pub struct Outcome {
    /// What the caller saw.
    pub reply: Reply,
    /// How long the probe took, in milliseconds.
    pub elapsed_ms: u128,
}

/// The line of a target that was reached.
pub open spec fn success_text(desc: Seq<char>, elapsed_ms: nat) -> Seq<char> {
    "Successfully connected to "@ + desc + " in "@ + decimal(elapsed_ms) + "ms"@
}

/// The line of a target that was not reached.
pub open spec fn failure_text(desc: Seq<char>, detail: Seq<char>) -> Seq<char> {
    "Failed to connect to "@ + desc + " with: "@ + detail
}

/// The texts of a list of strings.
pub open spec fn texts(lines: Seq<String>) -> Seq<Seq<char>> {
    Seq::new(lines.len(), |i: int| lines[i]@)
}

/// The result texts of a sequence of targets, slot by slot: `None` where a
/// target has no result yet.
pub open spec fn slots(targets: Seq<Resource>) -> Seq<Option<Seq<char>>> {
    Seq::new(targets.len(), |i: int| targets[i].slot())
}

/// The report of a sequence of result slots: the text of each slot that is
/// filled, in the order of the slots.
pub open spec fn report_text(slots: Seq<Option<Seq<char>>>) -> Seq<Seq<char>>
    decreases slots.len(),
{
    if slots.len() == 0 {
        Seq::empty()
    } else {
        let before = report_text(slots.drop_last());
        match slots.last() {
            Some(line) => before.push(line),
            None => before,
        }
    }
}

impl Resource {
    /// The text in the result slot of this target.
    pub open spec fn slot(&self) -> Option<Seq<char>> {
        match self.res {
            Some(line) => Some(line@),
            None => None,
        }
    }

    /// The result line of this target for an outcome of its check: on
    /// success the description and the elapsed time, on failure the
    /// description and the failure in words.
    pub open spec fn line(&self, outcome: Outcome) -> Seq<char> {
        match self.verdict(outcome.reply) {
            Ok(_) => success_text(self.desc@, outcome.elapsed_ms as nat),
            Err(failure) => failure_text(self.desc@, failure.detail_text()),
        }
    }

    /// Words the result line of this target for an outcome of its check.
    pub fn result_line(&self, outcome: &Outcome) -> (s: String)
        ensures
            s@ == self.line(*outcome),
    {
        match self.check(&outcome.reply) {
            Ok(_) => {
                let mut s = String::from_str("Successfully connected to ");
                s.append(self.desc.as_str());
                s.append(" in ");
                push_decimal(&mut s, outcome.elapsed_ms);
                s.append("ms");
                assert(s@ =~= self.line(*outcome));
                s
            },
            Err(failure) => {
                let mut s = String::from_str("Failed to connect to ");
                s.append(self.desc.as_str());
                s.append(" with: ");
                let detail = failure.detail();
                s.append(detail.as_str());
                assert(s@ =~= self.line(*outcome));
                s
            },
        }
    }
}

impl NetworkResources {
    /// The lines to print: one for each target that has a result, in
    /// declaration order.
    pub fn report(&self) -> (lines: Vec<String>)
        ensures
            texts(lines@) == report_text(slots(self.target@)),
    {
        let mut lines: Vec<String> = Vec::new();
        let mut i: usize = 0;
        while i < self.target.len()
            invariant
                i <= self.target.len(),
                texts(lines@) == report_text(slots(self.target@).take(i as int)),
            decreases self.target.len() - i,
        {
            let ghost shown = lines@;
            match &self.target[i].res {
                Some(line) => {
                    lines.push(line.clone());
                },
                None => {},
            }
            proof {
                let next = slots(self.target@).take(i + 1);
                assert(next.drop_last() =~= slots(self.target@).take(i as int));
                assert(next.last() == self.target@[i as int].slot());
                match self.target@[i as int].res {
                    Some(line) => {
                        assert(texts(lines@) =~= texts(shown).push(line@));
                    },
                    None => {},
                }
            }
            i += 1;
        }
        assert(slots(self.target@).take(i as int) =~= slots(self.target@));
        lines
    }
}

/// The line of a target that answered with an unexpected status names the
/// status code: the code's digits stand in the line.
pub proof fn lemma_failure_line_names_status(target: Resource, outcome: Outcome)
    requires
        target.verdict(outcome.reply) matches Err(CheckFailure::Status { .. }),
    ensures
        outcome.reply matches Reply::Response { status, .. } && occurs_in(
            decimal(status as nat),
            target.line(outcome),
        ),
{
    let failure = target.verdict(outcome.reply)->Err_0;
    let code = failure->Status_code;
    let body = failure->Status_body;
    let before = "Failed to connect to "@ + target.desc@ + " with: "@ + "\n\tStatus: "@;
    let after = "\n\tDetails: "@ + body_text(body);
    lemma_occurs_between(before, decimal(code as nat), after);
    assert(before + decimal(code as nat) + after =~= target.line(outcome));
}

/// Where every slot is filled, the report has one line for each slot, and
/// the line at a position is the text of the slot at that position.
pub proof fn lemma_report_follows_declaration(slots: Seq<Option<Seq<char>>>)
    requires
        forall|i: int| 0 <= i < slots.len() ==> (#[trigger] slots[i]) is Some,
    ensures
        report_text(slots).len() == slots.len(),
        forall|i: int| 0 <= i < slots.len() ==> #[trigger] report_text(slots)[i] == slots[i]->0,
    decreases slots.len(),
{
    if slots.len() > 0 {
        let front = slots.drop_last();
        assert forall|i: int| 0 <= i < front.len() implies (#[trigger] front[i]) is Some by {
            assert(front[i] == slots[i]);
        }
        lemma_report_follows_declaration(front);
        assert forall|i: int| 0 <= i < slots.len() implies #[trigger] report_text(slots)[i]
            == slots[i]->0 by {
            if i < front.len() {
                assert(front[i] == slots[i]);
            }
        }
    }
}

/// The report keeps the order of the slots: the report of two sequences of
/// slots, one after the other, is the report of the first followed by the
/// report of the second.
pub proof fn lemma_report_keeps_order(first: Seq<Option<Seq<char>>>, second: Seq<Option<Seq<char>>>)
    ensures
        report_text(first + second) == report_text(first) + report_text(second),
    decreases second.len(),
{
    if second.len() == 0 {
        assert(first + second =~= first);
        assert(report_text(first) + report_text(second) =~= report_text(first));
    } else {
        let all = first + second;
        assert(all.drop_last() =~= first + second.drop_last());
        assert(all.last() == second.last());
        lemma_report_keeps_order(first, second.drop_last());
        match second.last() {
            Some(line) => {
                assert((report_text(first) + report_text(second.drop_last())).push(line)
                    =~= report_text(first) + report_text(second.drop_last()).push(line));
            },
            None => {},
        }
    }
}

} // verus!
