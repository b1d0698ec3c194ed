//! One scan in progress: which probe tasks have settled, and the dead links
//! they found.
use vstd::prelude::*;
use vstd::set_lib::{set_int_range, lemma_int_range};
use crate::outcome::{
    ProbeOutcome,
    OutcomeView,
    reported_reason,
    classified,
    is_success_status,
    status_reason,
    decimal,
    report_reason,
};

verus! {

/// A link reported as broken: its absolute URL and why.
#[derive(Debug, Clone)]
pub struct DeadLinkRecord {
    pub url: String,
    pub reason: String,
}

/// One row of the report: a sequence number from 1, the URL and the reason.
#[derive(Debug, Clone)]
pub struct ReportRow {
    pub number: usize,
    pub url: String,
    pub reason: String,
}

/// The probe tasks of one scan, one per target, and the dead links found so
/// far. Each task settles once: with an outcome, or as a task that failed to
/// run. Dead links are only appended, and are read once every task settled.
pub struct ScanSession {
    targets: Vec<String>,
    settled: Vec<bool>,
    dead: Vec<DeadLinkRecord>,
    include_failed: bool,
}

/// The mathematical form of a [`ScanSession`].
pub struct SessionView {
    pub targets: Seq<Seq<char>>,
    pub settled: Seq<bool>,
    pub dead: Seq<(Seq<char>, Seq<char>)>,
    pub include_failed: bool,
}

impl SessionView {
    /// One settled flag per target.
    pub open spec fn wf(self) -> bool {
        self.targets.len() == self.settled.len()
    }

    /// Whether every task has settled.
    pub open spec fn complete(self) -> bool {
        forall|i: int| 0 <= i < self.settled.len() ==> #[trigger] self.settled[i]
    }

    /// The session after task `task` settled with `outcome`.
    pub open spec fn recorded(self, task: int, outcome: OutcomeView) -> SessionView {
        SessionView {
            settled: self.settled.update(task, true),
            dead: match reported_reason(outcome, self.include_failed) {
                Some(reason) => self.dead.push((self.targets[task], reason)),
                None => self.dead,
            },
            ..self
        }
    }

    /// The session after `tasks` settled in that order, task `tasks[k]` with
    /// `outcomes[k]`.
    pub open spec fn recorded_all(self, tasks: Seq<int>, outcomes: Seq<OutcomeView>) -> SessionView
        decreases tasks.len(),
    {
        if tasks.len() == 0 {
            self
        } else {
            self.recorded_all(tasks.drop_last(), outcomes.drop_last()).recorded(
                tasks.last(),
                outcomes.last(),
            )
        }
    }
}

impl View for ScanSession {
    type V = SessionView;

    closed spec fn view(&self) -> SessionView {
        SessionView {
            targets: self.targets.deep_view(),
            settled: self.settled@,
            dead: self.dead@.map_values(|d: DeadLinkRecord| (d.url@, d.reason@)),
            include_failed: self.include_failed,
        }
    }
}

impl ScanSession {
    /// Opens a session with one unsettled task per target, in order. Failed
    /// probes are reported only when `include_failed` is set.
    pub fn new(targets: Vec<String>, include_failed: bool) -> (r: ScanSession)
        ensures
            r@.wf(),
            r@.targets == targets.deep_view(),
            r@.settled == Seq::new(targets@.len(), |i: int| false),
            r@.dead == Seq::<(Seq<char>, Seq<char>)>::empty(),
            r@.include_failed == include_failed,
    {
        let mut settled: Vec<bool> = Vec::new();
        let mut i: usize = 0;
        while i < targets.len()
            invariant
                i <= targets@.len(),
                settled@ == Seq::new(i as nat, |k: int| false),
            decreases targets@.len() - i,
        {
            settled.push(false);
            i = i + 1;
            assert(settled@ =~= Seq::new(i as nat, |k: int| false));
        }
        let r = ScanSession { targets, settled, dead: Vec::new(), include_failed };
        assert(r@.dead =~= Seq::<(Seq<char>, Seq<char>)>::empty());
        r
    }

    /// The number of probe tasks.
    pub fn task_count(&self) -> (r: usize)
        ensures
            r == self@.targets.len(),
    {
        self.targets.len()
    }

    /// The target that task `task` probes.
    pub fn target(&self, task: usize) -> (r: &String)
        requires
            task < self@.targets.len(),
        ensures
            r@ == self@.targets[task as int],
    {
        &self.targets[task]
    }

    /// Whether task `task` has settled.
    pub fn is_settled(&self, task: usize) -> (r: bool)
        requires
            self@.wf(),
            task < self@.targets.len(),
        ensures
            r == self@.settled[task as int],
    {
        self.settled[task]
    }

    /// Whether every task has settled.
    pub fn is_complete(&self) -> (r: bool)
        requires
            self@.wf(),
        ensures
            r == self@.complete(),
    {
        let mut i: usize = 0;
        while i < self.settled.len()
            invariant
                i <= self.settled@.len(),
                forall|k: int| 0 <= k < i ==> #[trigger] self.settled@[k],
            decreases self.settled@.len() - i,
        {
            if !self.settled[i] {
                assert(!self@.settled[i as int]);
                return false;
            }
            i = i + 1;
        }
        true
    }

    /// Settles task `task` with the outcome of its probe, appending a dead
    /// link when the outcome is reported.
    pub fn record_outcome(&mut self, task: usize, outcome: &ProbeOutcome)
        requires
            old(self)@.wf(),
            task < old(self)@.targets.len(),
            !old(self)@.settled[task as int],
        ensures
            final(self)@.wf(),
            final(self)@ == old(self)@.recorded(task as int, outcome@),
    {
        let reason = report_reason(outcome, self.include_failed);
        match reason {
            Some(reason) => {
                let url = self.targets[task].clone();
                self.dead.push(DeadLinkRecord { url, reason });
            },
            None => {},
        }
        self.settled.set(task, true);
        assert(self@.dead =~= old(self)@.recorded(task as int, outcome@).dead);
    }

    /// Settles task `task` without an outcome: the task failed to run to its
    /// end. Nothing is recorded for its target.
    pub fn record_task_failure(&mut self, task: usize)
        requires
            old(self)@.wf(),
            task < old(self)@.targets.len(),
            !old(self)@.settled[task as int],
        ensures
            final(self)@ == (SessionView { settled: old(self)@.settled.update(task as int, true), ..old(self)@ }),
    {
        self.settled.set(task, true);
    }

    /// The rows of the report once every task settled: `None` when no link is
    /// dead, else one row per dead link in the order they were recorded,
    /// numbered from 1.
    pub fn report(&self) -> (r: Option<Vec<ReportRow>>)
        requires
            self@.wf(),
            self@.complete(),
        ensures
            r is None <==> self@.dead.len() == 0,
            r matches Some(rows) ==> {
                &&& rows@.len() == self@.dead.len()
                &&& forall|i: int|
                    0 <= i < rows@.len() ==> {
                        &&& #[trigger] rows@[i].number == i + 1
                        &&& rows@[i].url@ == self@.dead[i].0
                        &&& rows@[i].reason@ == self@.dead[i].1
                    }
            },
    {
        if self.dead.len() == 0 {
            return None;
        }
        let mut rows: Vec<ReportRow> = Vec::new();
        let mut i: usize = 0;
        while i < self.dead.len()
            invariant
                i <= self.dead@.len(),
                rows@.len() == i,
                forall|k: int|
                    0 <= k < i ==> {
                        &&& #[trigger] rows@[k].number == k + 1
                        &&& rows@[k].url@ == self@.dead[k].0
                        &&& rows@[k].reason@ == self@.dead[k].1
                    },
            decreases self.dead@.len() - i,
        {
            assert(self@.dead[i as int] == (self.dead@[i as int].url@, self.dead@[i as int].reason@));
            let url = self.dead[i].url.clone();
            let reason = self.dead[i].reason.clone();
            rows.push(ReportRow { number: i + 1, url, reason });
            i = i + 1;
        }
        Some(rows)
    }
}

/// A probe answered with a success status adds nothing to the dead links. A
/// probe answered with any other status adds exactly one record, for its own
/// target, whose reason holds the status code in decimal.
pub proof fn lemma_status_decides_record(s: SessionView, task: int, code: u16)
    requires
        s.wf(),
        0 <= task < s.targets.len(),
    ensures
        is_success_status(code) ==> s.recorded(task, classified(Ok(code))).dead == s.dead,
        !is_success_status(code) ==> s.recorded(task, classified(Ok(code))).dead == s.dead.push(
            (s.targets[task], status_reason(code)),
        ),
        status_reason(code).subrange(14, 14 + decimal(code as nat).len() as int) == decimal(code as nat),
        decimal(404) == seq!['4', '0', '4'],
{
    reveal_strlit("Dead (Status: ");
    reveal_with_fuel(decimal, 3);
    assert(decimal(404) =~= seq!['4', '0', '4']);
    assert(status_reason(code).subrange(14, 14 + decimal(code as nat).len() as int) =~= decimal(
        code as nat,
    ));
}

/// Whatever order distinct tasks settle in, each one whose outcome is reported
/// adds exactly one record: its own target with its own reason, at the place
/// of its turn, and nothing else changes in the records already there.
pub proof fn lemma_any_order_appends(s: SessionView, tasks: Seq<int>, outcomes: Seq<OutcomeView>)
    requires
        s.wf(),
        tasks.len() == outcomes.len(),
        tasks.no_duplicates(),
        forall|k: int| 0 <= k < tasks.len() ==> 0 <= #[trigger] tasks[k] < s.targets.len(),
        forall|k: int| 0 <= k < outcomes.len() ==> #[trigger] reported_reason(outcomes[k], s.include_failed) is Some,
    ensures
        s.recorded_all(tasks, outcomes).targets == s.targets,
        s.recorded_all(tasks, outcomes).include_failed == s.include_failed,
        s.recorded_all(tasks, outcomes).dead.len() == s.dead.len() + tasks.len(),
        s.recorded_all(tasks, outcomes).dead.subrange(0, s.dead.len() as int) == s.dead,
        forall|k: int|
            0 <= k < tasks.len() ==> #[trigger] s.recorded_all(tasks, outcomes).dead[s.dead.len() + k] == (
                s.targets[tasks[k]],
                reported_reason(outcomes[k], s.include_failed)->0,
            ),
    decreases tasks.len(),
{
    if tasks.len() > 0 {
        let tp = tasks.drop_last();
        let op = outcomes.drop_last();
        assert(tp.no_duplicates());
        assert forall|k: int| 0 <= k < tp.len() implies 0 <= #[trigger] tp[k] < s.targets.len() by {
            assert(tp[k] == tasks[k]);
        }
        assert forall|k: int| 0 <= k < op.len() implies #[trigger] reported_reason(op[k], s.include_failed) is Some by {
            assert(op[k] == outcomes[k]);
        }
        lemma_any_order_appends(s, tp, op);
        let prev = s.recorded_all(tp, op);
        assert(reported_reason(outcomes[outcomes.len() - 1], s.include_failed) is Some);
        assert(s.recorded_all(tasks, outcomes) == prev.recorded(tasks.last(), outcomes.last()));
        let next = s.recorded_all(tasks, outcomes);
        assert(next.dead.subrange(0, s.dead.len() as int) =~= s.dead) by {
            assert(prev.dead.subrange(0, s.dead.len() as int) == s.dead);
        }
        assert forall|k: int| 0 <= k < tasks.len() implies #[trigger] next.dead[s.dead.len() + k] == (
            s.targets[tasks[k]],
            reported_reason(outcomes[k], s.include_failed)->0,
        ) by {
            if k < tasks.len() - 1 {
                assert(prev.dead[s.dead.len() + k] == (s.targets[tp[k]], reported_reason(op[k], s.include_failed)->0));
            }
        }
    }
}

/// The tasks settled after `tasks` settled in turn: those settled before,
/// and those in `tasks`.
proof fn lemma_settled_after(s: SessionView, tasks: Seq<int>, outcomes: Seq<OutcomeView>)
    requires
        s.wf(),
        tasks.len() == outcomes.len(),
        forall|k: int| 0 <= k < tasks.len() ==> 0 <= #[trigger] tasks[k] < s.targets.len(),
    ensures
        s.recorded_all(tasks, outcomes).wf(),
        s.recorded_all(tasks, outcomes).targets == s.targets,
        forall|i: int|
            0 <= i < s.settled.len() ==> #[trigger] s.recorded_all(tasks, outcomes).settled[i] == (
            s.settled[i] || tasks.contains(i)),
    decreases tasks.len(),
{
    if tasks.len() > 0 {
        let tp = tasks.drop_last();
        let op = outcomes.drop_last();
        assert forall|k: int| 0 <= k < tp.len() implies 0 <= #[trigger] tp[k] < s.targets.len() by {
            assert(tp[k] == tasks[k]);
        }
        lemma_settled_after(s, tp, op);
        assert forall|i: int| 0 <= i < s.settled.len() implies #[trigger] s.recorded_all(
            tasks,
            outcomes,
        ).settled[i] == (s.settled[i] || tasks.contains(i)) by {
            if tp.contains(i) {
                let k = choose|k: int| 0 <= k < tp.len() && tp[k] == i;
                assert(tasks[k] == i);
            }
            if tasks.contains(i) && i != tasks.last() {
                let k = choose|k: int| 0 <= k < tasks.len() && tasks[k] == i;
                assert(tp[k] == i);
            }
        }
    }
}

/// A scan whose tasks all settle with an outcome, each task at most once and
/// in any order, has recorded exactly one outcome per target once it is
/// complete: none is lost and none is recorded twice.
pub proof fn lemma_one_outcome_per_target(s: SessionView, tasks: Seq<int>, outcomes: Seq<OutcomeView>)
    requires
        s.wf(),
        forall|i: int| 0 <= i < s.settled.len() ==> !#[trigger] s.settled[i],
        tasks.len() == outcomes.len(),
        tasks.no_duplicates(),
        forall|k: int| 0 <= k < tasks.len() ==> 0 <= #[trigger] tasks[k] < s.targets.len(),
    ensures
        s.recorded_all(tasks, outcomes).complete() <==> tasks.len() == s.targets.len(),
{
    lemma_settled_after(s, tasks, outcomes);
    let after = s.recorded_all(tasks, outcomes);
    tasks.unique_seq_to_set();
    lemma_int_range(0, s.targets.len() as int);
    assert(tasks.to_set().subset_of(set_int_range(0, s.targets.len() as int))) by {
        assert forall|x: int| tasks.to_set().contains(x) implies set_int_range(0, s.targets.len() as int).contains(x) by {
            let k = choose|k: int| 0 <= k < tasks.len() && tasks[k] == x;
        }
    }
    if after.complete() {
        assert forall|x: int| set_int_range(0, s.targets.len() as int).contains(x) implies tasks.to_set().contains(x) by {
            assert(after.settled[x]);
        }
        assert(tasks.to_set() =~= set_int_range(0, s.targets.len() as int));
    }
    if tasks.len() == s.targets.len() {
        vstd::set_lib::lemma_subset_equality(tasks.to_set(), set_int_range(0, s.targets.len() as int));
        assert forall|i: int| 0 <= i < after.settled.len() implies #[trigger] after.settled[i] by {
            assert(set_int_range(0, s.targets.len() as int).contains(i));
            assert(tasks.to_set().contains(i));
        }
    }
}

/// The records that tasks `tasks` settling with `outcomes`, in that order,
/// owe to the dead links: one per reported outcome, for its own target.
pub open spec fn reported_records(
    targets: Seq<Seq<char>>,
    tasks: Seq<int>,
    outcomes: Seq<OutcomeView>,
    include_failed: bool,
) -> Seq<(Seq<char>, Seq<char>)>
    decreases tasks.len(),
{
    if tasks.len() == 0 {
        seq![]
    } else {
        let rest = reported_records(targets, tasks.drop_last(), outcomes.drop_last(), include_failed);
        match reported_reason(outcomes.last(), include_failed) {
            Some(reason) => rest.push((targets[tasks.last()], reason)),
            None => rest,
        }
    }
}

/// Whatever the mix of outcomes and the order in which tasks settle, the dead
/// links afterwards are those held before followed by exactly one record per
/// reported outcome, in the order of settling: none is lost, none is
/// duplicated, and unreported outcomes add nothing.
pub proof fn lemma_records_follow_outcomes(s: SessionView, tasks: Seq<int>, outcomes: Seq<OutcomeView>)
    requires
        tasks.len() == outcomes.len(),
    ensures
        s.recorded_all(tasks, outcomes).targets == s.targets,
        s.recorded_all(tasks, outcomes).include_failed == s.include_failed,
        s.recorded_all(tasks, outcomes).dead == s.dead + reported_records(
            s.targets,
            tasks,
            outcomes,
            s.include_failed,
        ),
    decreases tasks.len(),
{
    if tasks.len() == 0 {
        assert(s.dead + Seq::<(Seq<char>, Seq<char>)>::empty() =~= s.dead);
    } else {
        lemma_records_follow_outcomes(s, tasks.drop_last(), outcomes.drop_last());
        let rest = reported_records(
            s.targets,
            tasks.drop_last(),
            outcomes.drop_last(),
            s.include_failed,
        );
        match reported_reason(outcomes.last(), s.include_failed) {
            Some(reason) => {
                assert((s.dead + rest).push((s.targets[tasks.last()], reason)) =~= s.dead + rest.push(
                    (s.targets[tasks.last()], reason),
                ));
            },
            None => {},
        }
    }
}

/// When no outcome is reported (every probe healthy, or failed while failed
/// probes are not reported), a scan that started with no dead links ends with
/// none, so its report is empty.
pub proof fn lemma_nothing_dead_nothing_reported(
    s: SessionView,
    tasks: Seq<int>,
    outcomes: Seq<OutcomeView>,
)
    requires
        tasks.len() == outcomes.len(),
        s.dead.len() == 0,
        !s.include_failed,
        forall|k: int| 0 <= k < outcomes.len() ==> !(#[trigger] outcomes[k] is Dead),
    ensures
        s.recorded_all(tasks, outcomes).dead.len() == 0,
    decreases tasks.len(),
{
    if tasks.len() > 0 {
        let op = outcomes.drop_last();
        assert forall|k: int| 0 <= k < op.len() implies !(#[trigger] op[k] is Dead) by {
            assert(op[k] == outcomes[k]);
        }
        lemma_nothing_dead_nothing_reported(s, tasks.drop_last(), op);
        lemma_records_follow_outcomes(s, tasks.drop_last(), op);
        assert(!(outcomes[outcomes.len() - 1] is Dead));
    }
}

/// An outcome that is not reported may be taken out of any order of settling
/// without changing the records that the others owe.
proof fn lemma_unreported_removed(
    targets: Seq<Seq<char>>,
    tasks: Seq<int>,
    outcomes: Seq<OutcomeView>,
    include_failed: bool,
    j: int,
)
    requires
        tasks.len() == outcomes.len(),
        0 <= j < tasks.len(),
        reported_reason(outcomes[j], include_failed) is None,
    ensures
        reported_records(targets, tasks, outcomes, include_failed) == reported_records(
            targets,
            tasks.remove(j),
            outcomes.remove(j),
            include_failed,
        ),
    decreases tasks.len(),
{
    if j == tasks.len() - 1 {
        assert(tasks.remove(j) =~= tasks.drop_last());
        assert(outcomes.remove(j) =~= outcomes.drop_last());
    } else {
        lemma_unreported_removed(targets, tasks.drop_last(), outcomes.drop_last(), include_failed, j);
        assert(tasks.remove(j).drop_last() =~= tasks.drop_last().remove(j));
        assert(outcomes.remove(j).drop_last() =~= outcomes.drop_last().remove(j));
        assert(tasks.remove(j).last() == tasks.last());
        assert(outcomes.remove(j).last() == outcomes.last());
    }
}

/// A probe that failed (a timeout, a refused connection) while failed probes
/// are not reported settles only its own task and adds no record; the records
/// of every other task are what they would be had that task never settled.
pub proof fn lemma_failed_probe_leaves_others(
    s: SessionView,
    tasks: Seq<int>,
    outcomes: Seq<OutcomeView>,
    j: int,
)
    requires
        s.wf(),
        !s.include_failed,
        tasks.len() == outcomes.len(),
        0 <= j < tasks.len(),
        0 <= tasks[j] < s.targets.len(),
        outcomes[j] is Failed,
    ensures
        s.recorded(tasks[j], outcomes[j]).dead == s.dead,
        forall|i: int|
            0 <= i < s.settled.len() && i != tasks[j] ==> #[trigger] s.recorded(
                tasks[j],
                outcomes[j],
            ).settled[i] == s.settled[i],
        s.recorded_all(tasks, outcomes).dead == s.recorded_all(
            tasks.remove(j),
            outcomes.remove(j),
        ).dead,
{
    lemma_records_follow_outcomes(s, tasks, outcomes);
    lemma_records_follow_outcomes(s, tasks.remove(j), outcomes.remove(j));
    lemma_unreported_removed(s.targets, tasks, outcomes, s.include_failed, j);
}

} // verus!
