//! Copy plans and their execution discipline: the concrete operations a
//! resolved selection gives rise to, the report a run prints, and the
//! per-file bookkeeping of a run that tolerates individual copy failures.

use vstd::prelude::*;
use vstd::string::StrSliceExecFns;
use vstd::string::StringExecFns;

verus! {

/// One copy operation: a full source path and a full destination path.
pub struct CopyOp {
    pub src: String,
    pub dst: String,
}

/// The mathematical value of a [`CopyOp`].
pub struct OpView {
    pub src: Seq<char>,
    pub dst: Seq<char>,
}

impl View for CopyOp {
    type V = OpView;

    open spec fn view(&self) -> OpView {
        OpView { src: self.src@, dst: self.dst@ }
    }
}

impl DeepView for CopyOp {
    type V = OpView;

    open spec fn deep_view(&self) -> OpView {
        self@
    }
}

/// A base path extended by a relative path: unchanged when the base is
/// empty or already ends in a separator, joined with `/` otherwise.
pub open spec fn joined_path(base: Seq<char>, rel: Seq<char>) -> Seq<char> {
    if base.len() == 0 || base.last() == '/' {
        base + rel
    } else {
        base + seq!['/'] + rel
    }
}

/// Append a relative path to a base path, inserting a separator where
/// one is needed.
pub fn join_path(base: &String, rel: &String) -> (r: String)
    ensures
        r@ == joined_path(base@, rel@),
{
    let mut r = base.clone();
    let n = base.as_str().unicode_len();
    if n > 0 && base.as_str().get_char(n - 1) != '/' {
        r.append("/");
        proof {
            reveal_strlit("/");
            assert(r@ =~= base@ + seq!['/']);
        }
    }
    r.append(rel.as_str());
    proof {
        assert(r@ =~= joined_path(base@, rel@));
    }
    r
}

/// The report line announcing one copy operation.
pub open spec fn report_line_of(op: OpView) -> Seq<char> {
    "Copy:\n"@ + op.src + "\nto:\n"@ + op.dst
}

/// The line reporting one failed copy operation, with the failure's own
/// description appended.
pub open spec fn failure_line_of(op: OpView, err: Seq<char>) -> Seq<char> {
    report_line_of(op) + "\nfailed, "@ + err
}

/// Build the report line announcing one copy operation.
pub fn report_line(op: &CopyOp) -> (r: String)
    ensures
        r@ == report_line_of(op@),
{
    let mut r = String::from_str("Copy:\n");
    r.append(op.src.as_str());
    r.append("\nto:\n");
    r.append(op.dst.as_str());
    proof {
        assert(r@ =~= report_line_of(op@));
    }
    r
}

/// Build the line reporting one failed copy operation.
pub fn failure_line(op: &CopyOp, err: &String) -> (r: String)
    ensures
        r@ == failure_line_of(op@, err@),
{
    let mut r = report_line(op);
    r.append("\nfailed, ");
    r.append(err.as_str());
    proof {
        assert(r@ =~= failure_line_of(op@, err@));
    }
    r
}

/// Everything one invocation decides to do: the copy operations, in
/// order, and the flags that govern reporting and dry-running.
pub struct CopyPlan {
    pub ops: Vec<CopyOp>,
    pub dry_run: bool,
    pub verbose: u64,
}

/// The mathematical value of a [`CopyPlan`].
pub struct PlanView {
    pub ops: Seq<OpView>,
    pub dry_run: bool,
    pub verbose: u64,
}

impl View for CopyPlan {
    type V = PlanView;

    open spec fn view(&self) -> PlanView {
        PlanView { ops: self.ops.deep_view(), dry_run: self.dry_run, verbose: self.verbose }
    }
}

/// The report a run of the plan prints: one line per operation when the
/// run is dry or verbose, nothing otherwise.
pub open spec fn report_of(p: PlanView) -> Seq<Seq<char>> {
    if p.dry_run || p.verbose > 0 {
        p.ops.map_values(|op: OpView| report_line_of(op))
    } else {
        Seq::empty()
    }
}

/// The copies a run of the plan performs on the filesystem: none when the
/// run is dry, every operation otherwise.
pub open spec fn writes_of(p: PlanView) -> Seq<OpView> {
    if p.dry_run {
        Seq::empty()
    } else {
        p.ops
    }
}

impl CopyPlan {
    /// The lines this plan's run prints, in operation order.
    pub fn report_lines(&self) -> (r: Vec<String>)
        ensures
            r.deep_view() == report_of(self@),
    {
        let mut r: Vec<String> = Vec::new();
        if self.dry_run || self.verbose > 0 {
            let ghost lines = self@.ops.map_values(|op: OpView| report_line_of(op));
            let mut i: usize = 0;
            while i < self.ops.len()
                invariant
                    0 <= i <= self.ops@.len(),
                    lines == self@.ops.map_values(|op: OpView| report_line_of(op)),
                    lines.len() == self.ops@.len(),
                    r.deep_view() == lines.take(i as int),
                decreases self.ops@.len() - i,
            {
                let ghost pre = r.deep_view();
                r.push(report_line(&self.ops[i]));
                proof {
                    lines.lemma_take_succ_push(i as int);
                    assert(r.deep_view() =~= pre.push(lines[i as int]));
                }
                i += 1;
            }
            proof {
                assert(lines.take(lines.len() as int) =~= lines);
            }
        } else {
            proof {
                assert(r.deep_view() =~= Seq::<Seq<char>>::empty());
            }
        }
        r
    }
}

/// A dry run is idempotent: it performs no filesystem copy at all, and its
/// report is a function of the plan alone, so repeated dry runs of one
/// plan produce identical reports.
pub proof fn lemma_dry_run_idempotent(p: PlanView)
    requires
        p.dry_run,
    ensures
        writes_of(p) == Seq::<OpView>::empty(),
        report_of(p) == p.ops.map_values(|op: OpView| report_line_of(op)),
{
}

/// A dry run prints exactly the report that a real run with verbosity at
/// least 1 prints over the same operations, while performing none of the
/// copies that the real run performs.
pub proof fn lemma_dry_run_matches_verbose(dry: PlanView, wet: PlanView)
    requires
        dry.ops == wet.ops,
        dry.dry_run,
        !wet.dry_run,
        wet.verbose >= 1,
    ensures
        report_of(dry) == report_of(wet),
        writes_of(dry) == Seq::<OpView>::empty(),
        writes_of(wet) == wet.ops,
{
}

/// A run in progress over a plan: how many operations have been dealt
/// with, and how many of them failed.
pub struct Executor {
    pub plan: CopyPlan,
    pub next_index: usize,
    pub failures: usize,
}

/// The mathematical value of an [`Executor`].
pub struct ExecutorView {
    pub plan: PlanView,
    pub next_index: int,
    pub failures: int,
}

impl View for Executor {
    type V = ExecutorView;

    open spec fn view(&self) -> ExecutorView {
        ExecutorView {
            plan: self.plan@,
            next_index: self.next_index as int,
            failures: self.failures as int,
        }
    }
}

impl ExecutorView {
    /// Well-formedness of a run in progress: it never stands past the end
    /// of the plan, and cannot have seen more failures than operations.
    pub open spec fn wf(self) -> bool {
        0 <= self.next_index <= self.plan.ops.len() && 0 <= self.failures <= self.next_index
    }
}

/// How recording one outcome moves a run forward: to the next operation
/// in every case, counting the outcome when it was a failure.
pub open spec fn executor_step(e: ExecutorView, success: bool) -> ExecutorView {
    ExecutorView {
        plan: e.plan,
        next_index: e.next_index + 1,
        failures: if success {
            e.failures
        } else {
            e.failures + 1
        },
    }
}

/// A whole run: one recorded outcome per attempted operation, in order.
pub open spec fn executor_run(e: ExecutorView, outcomes: Seq<bool>) -> ExecutorView
    decreases outcomes.len(),
{
    if outcomes.len() == 0 {
        e
    } else {
        executor_run(executor_step(e, outcomes[0]), outcomes.drop_first())
    }
}

/// How many of the recorded outcomes were failures.
pub open spec fn failed_count(outcomes: Seq<bool>) -> int
    decreases outcomes.len(),
{
    if outcomes.len() == 0 {
        0
    } else {
        (if outcomes[0] {
            0int
        } else {
            1int
        }) + failed_count(outcomes.drop_first())
    }
}

/// Partial-failure tolerance: whatever the outcomes, a run deals with
/// every one of them — a failed copy never stops the operations after it
/// — and counts exactly the failed ones, leaving the plan untouched.
pub proof fn lemma_run_attempts_all(e: ExecutorView, outcomes: Seq<bool>)
    ensures
        executor_run(e, outcomes).plan == e.plan,
        executor_run(e, outcomes).next_index == e.next_index + outcomes.len(),
        executor_run(e, outcomes).failures == e.failures + failed_count(outcomes),
    decreases outcomes.len(),
{
    if outcomes.len() > 0 {
        lemma_run_attempts_all(executor_step(e, outcomes[0]), outcomes.drop_first());
    }
}

impl Executor {
    /// Start a run of the given plan, before any operation was attempted.
    pub fn new(plan: CopyPlan) -> (e: Executor)
        ensures
            e@.plan == plan@,
            e@.next_index == 0,
            e@.failures == 0,
            e@.wf(),
    {
        Executor { plan, next_index: 0, failures: 0 }
    }

    /// The operation to attempt next: the first not yet dealt with, and
    /// none at all under a dry run.
    pub fn next_op(&self) -> (r: Option<CopyOp>)
        ensures
            match r {
                Some(op) => !self@.plan.dry_run && self@.next_index < self@.plan.ops.len()
                    && op@ == self@.plan.ops[self@.next_index],
                None => self@.plan.dry_run || self@.next_index >= self@.plan.ops.len(),
            },
    {
        if self.plan.dry_run || self.next_index >= self.plan.ops.len() {
            None
        } else {
            let op = &self.plan.ops[self.next_index];
            Some(CopyOp { src: op.src.clone(), dst: op.dst.clone() })
        }
    }

    /// Record that the current operation succeeded and move past it.
    pub fn record_success(&mut self)
        requires
            old(self)@.wf(),
            old(self)@.next_index < old(self)@.plan.ops.len(),
        ensures
            final(self)@ == executor_step(old(self)@, true),
            final(self)@.wf(),
    {
        proof {
            assert(vstd::std_specs::vec::spec_vec_len(&self.plan.ops) == self.plan.ops@.len());
        }
        self.next_index = self.next_index + 1;
    }

    /// Record that the current operation failed, move past it — the
    /// remaining operations are still attempted — and hand back the line
    /// reporting the failure.
    pub fn record_failure(&mut self, err: &String) -> (line: String)
        requires
            old(self)@.wf(),
            old(self)@.next_index < old(self)@.plan.ops.len(),
        ensures
            final(self)@ == executor_step(old(self)@, false),
            final(self)@.wf(),
            line@ == failure_line_of(old(self)@.plan.ops[old(self)@.next_index], err@),
    {
        proof {
            assert(vstd::std_specs::vec::spec_vec_len(&self.plan.ops) == self.plan.ops@.len());
        }
        let line = failure_line(&self.plan.ops[self.next_index], err);
        self.next_index = self.next_index + 1;
        self.failures = self.failures + 1;
        line
    }

    /// Whether any attempted operation failed; a degraded run should be
    /// signalled to the caller even though its remaining copies went on.
    pub fn degraded(&self) -> (r: bool)
        ensures
            r == (self@.failures > 0),
    {
        self.failures > 0
    }
}

} // verus!
