//! Integer bookkeeping of the benchmark and end-to-end tools: medians,
//! win counts, line-completion tallies, test outcomes and latency metrics.

use vstd::prelude::*;
use crate::sorting::{i32_le, sorted_i32s};

verus! {

/// Middle element of the sorted scores (the upper one of the two middles
/// for an even count), or 0 for no scores.
pub open spec fn median_of(s: Seq<i32>) -> i32 {
    if s.len() == 0 {
        0
    } else {
        s.sort_by(i32_le())[(s.len() / 2) as int]
    }
}

/// The median does not depend on the order in which the scores come.
pub proof fn lemma_median_order_free(s1: Seq<i32>, s2: Seq<i32>)
    requires
        s1.to_multiset() == s2.to_multiset(),
    ensures
        median_of(s1) == median_of(s2),
{
    vstd::seq_lib::to_multiset_len(s1);
    vstd::seq_lib::to_multiset_len(s2);
    crate::sorting::lemma_i32_le_total();
    crate::sorting::lemma_sorted_same(s1, s2, i32_le());
}

pub fn median(scores: &[i32]) -> (r: i32)
    ensures
        r == median_of(scores@),
{
    if scores.len() == 0 {
        return 0;
    }
    let mut v: Vec<i32> = Vec::new();
    let mut i: usize = 0;
    while i < scores.len()
        invariant
            i <= scores@.len(),
            v@ =~= scores@.take(i as int),
        decreases scores@.len() - i,
    {
        v.push(scores[i]);
        i = i + 1;
    }
    assert(v@ =~= scores@);
    let sorted = sorted_i32s(&v);
    assert(sorted@.len() == scores@.len()) by {
        broadcast use vstd::seq_lib::group_to_multiset_ensures;
        assert(sorted@.to_multiset().len() == v@.to_multiset().len());
    }
    sorted[sorted.len() / 2]
}

/// How many of the first `n` paired entries have `a` strictly above `b`.
pub open spec fn wins_before(a: Seq<i32>, b: Seq<i32>, n: int) -> nat
    decreases n,
{
    if n <= 0 {
        0
    } else {
        wins_before(a, b, n - 1) + if a[n - 1] > b[n - 1] { 1nat } else { 0nat }
    }
}

/// The number of positions, over the shorter of the two score lists, where
/// `a` scored strictly more than `b`.
pub fn count_wins(a: &[i32], b: &[i32]) -> (r: usize)
    ensures
        r == wins_before(a@, b@, if a@.len() < b@.len() { a@.len() as int } else { b@.len() as int }),
        r <= a@.len() && r <= b@.len(),
{
    let n = if a.len() < b.len() { a.len() } else { b.len() };
    let mut count: usize = 0;
    let mut i: usize = 0;
    while i < n
        invariant
            n <= a@.len(),
            n <= b@.len(),
            i <= n,
            count == wins_before(a@, b@, i as int),
            count <= i,
        decreases n - i,
    {
        if a[i] > b[i] {
            count = count + 1;
        }
        i = i + 1;
    }
    count
}

/// How many lines of each direction a finished board completes.
#[derive(Debug, Default)]
pub struct LineCompletions {
    pub v1_cols: usize,
    pub v2_diags: usize,
    pub v3_diags: usize,
}

impl LineCompletions {
    pub fn total(&self) -> (r: usize)
        requires
            self.v1_cols + self.v2_diags + self.v3_diags <= usize::MAX,
        ensures
            r == self.v1_cols + self.v2_diags + self.v3_diags,
    {
        self.v1_cols + self.v2_diags + self.v3_diags
    }
}

/// Scores and line completions gathered for one strategy.
pub struct StrategyStats {
    pub name: String,
    pub scores: Vec<i32>,
    pub completions: Vec<LineCompletions>,
}

impl StrategyStats {
    pub fn new(name: &str) -> (r: StrategyStats)
        ensures
            r.name@ == name@,
            r.scores@.len() == 0,
            r.completions@.len() == 0,
    {
        StrategyStats { name: String::from_str(name), scores: Vec::new(), completions: Vec::new() }
    }

    /// Records the outcome of one more game.
    pub fn push(&mut self, score: i32, completions: LineCompletions)
        ensures
            final(self).name == old(self).name,
            final(self).scores@ == old(self).scores@.push(score),
            final(self).completions@ == old(self).completions@.push(completions),
    {
        self.scores.push(score);
        self.completions.push(completions);
    }
}

/// Names of the checks that passed, and names with reasons of those that failed.
pub struct TestResults {
    pub passed: Vec<String>,
    pub failed: Vec<(String, String)>,
}

/// `after` holds every check of `before`, in the same places, and maybe
/// more after them.
pub open spec fn keeps(before: TestResults, after: TestResults) -> bool {
    &&& before.passed@.len() <= after.passed@.len()
    &&& forall|i: int| 0 <= i < before.passed@.len() ==> #[trigger] after.passed@[i] == before.passed@[i]
    &&& before.failed@.len() <= after.failed@.len()
    &&& forall|i: int| 0 <= i < before.failed@.len() ==> #[trigger] after.failed@[i] == before.failed@[i]
}

/// Checks are only ever added: results that keep the checks of results
/// with a failure still have a failure, so their summary stays failed.
pub proof fn lemma_failures_persist(a: TestResults, b: TestResults, c: TestResults)
    requires
        keeps(a, b),
        keeps(b, c),
    ensures
        keeps(a, c),
        a.failed@.len() > 0 ==> c.failed@.len() > 0,
{
}

impl TestResults {
    pub fn new() -> (r: TestResults)
        ensures
            r.passed@.len() == 0,
            r.failed@.len() == 0,
    {
        TestResults { passed: Vec::new(), failed: Vec::new() }
    }

    pub fn pass(&mut self, name: &str)
        ensures
            final(self).passed@.len() == old(self).passed@.len() + 1,
            final(self).passed@.last()@ == name@,
            final(self).passed@.drop_last() == old(self).passed@,
            final(self).failed@ == old(self).failed@,
            keeps(*old(self), *final(self)),
    {
        self.passed.push(String::from_str(name));
        assert(self.passed@.drop_last() =~= old(self).passed@);
    }

    pub fn fail(&mut self, name: &str, reason: &str)
        ensures
            final(self).failed@.len() == old(self).failed@.len() + 1,
            final(self).failed@.last().0@ == name@,
            final(self).failed@.last().1@ == reason@,
            final(self).failed@.drop_last() == old(self).failed@,
            final(self).passed@ == old(self).passed@,
            keeps(*old(self), *final(self)),
    {
        self.failed.push((String::from_str(name), String::from_str(reason)));
        assert(self.failed@.drop_last() =~= old(self).failed@);
    }

    /// Whether no check failed.
    pub fn all_passed(&self) -> (r: bool)
        ensures
            r == (self.failed@.len() == 0),
    {
        self.failed.len() == 0
    }
}

/// Latency and outcome counters of a stress run. The counters wrap on
/// overflow, as the atomic counters they stand for do.
pub struct StressMetrics {
    pub completed: u64,
    pub failed: u64,
    pub total_time_ms: u64,
    pub min_time_ms: u64,
    pub max_time_ms: u64,
}

/// The metrics before anything is recorded.
pub open spec fn fresh_metrics() -> StressMetrics {
    StressMetrics { completed: 0, failed: 0, total_time_ms: 0, min_time_ms: u64::MAX, max_time_ms: 0 }
}

/// The metrics after recording one outcome: `Some(ms)` a game completed in
/// `ms` milliseconds, `None` a failed game.
pub open spec fn recorded(m: StressMetrics, outcome: Option<u64>) -> StressMetrics {
    match outcome {
        Some(e) => StressMetrics {
            completed: vstd::wrapping::u64_specs::wrapping_add(m.completed, 1),
            failed: m.failed,
            total_time_ms: vstd::wrapping::u64_specs::wrapping_add(m.total_time_ms, e),
            min_time_ms: if e < m.min_time_ms { e } else { m.min_time_ms },
            max_time_ms: if e > m.max_time_ms { e } else { m.max_time_ms },
        },
        None => StressMetrics { failed: vstd::wrapping::u64_specs::wrapping_add(m.failed, 1), ..m },
    }
}

/// The metrics after recording the outcomes in order.
pub open spec fn recorded_all(m: StressMetrics, outcomes: Seq<Option<u64>>) -> StressMetrics
    decreases outcomes.len(),
{
    if outcomes.len() == 0 {
        m
    } else {
        recorded(recorded_all(m, outcomes.drop_last()), outcomes.last())
    }
}

/// The number of completed games among the outcomes.
pub open spec fn completed_count(outcomes: Seq<Option<u64>>) -> nat
    decreases outcomes.len(),
{
    if outcomes.len() == 0 {
        0
    } else {
        completed_count(outcomes.drop_last()) + if outcomes.last() is Some { 1nat } else { 0nat }
    }
}

/// The number of failed games among the outcomes.
pub open spec fn failed_count(outcomes: Seq<Option<u64>>) -> nat
    decreases outcomes.len(),
{
    if outcomes.len() == 0 {
        0
    } else {
        failed_count(outcomes.drop_last()) + if outcomes.last() is None { 1nat } else { 0nat }
    }
}

/// The summed duration of the completed games.
pub open spec fn duration_sum(outcomes: Seq<Option<u64>>) -> nat
    decreases outcomes.len(),
{
    if outcomes.len() == 0 {
        0
    } else {
        duration_sum(outcomes.drop_last()) + match outcomes.last() {
            Some(e) => e as nat,
            None => 0nat,
        }
    }
}

/// Whether some completed game took `ms` milliseconds.
pub open spec fn has_duration(outcomes: Seq<Option<u64>>, ms: u64) -> bool {
    exists|i: int| 0 <= i < outcomes.len() && outcomes[i] == Some(ms)
}

/// After any sequence of outcomes from fresh metrics, the counters hold the
/// numbers of completed and failed games and the summed duration (each
/// modulo 2^64, as the counters wrap), the shortest recorded duration is at
/// most every completed game's and is one of them (or `u64::MAX` when none
/// completed), and likewise the longest (or 0).
pub proof fn lemma_metrics_totals(outcomes: Seq<Option<u64>>)
    ensures
        recorded_all(fresh_metrics(), outcomes).completed == completed_count(outcomes) % 0x1_0000_0000_0000_0000,
        recorded_all(fresh_metrics(), outcomes).failed == failed_count(outcomes) % 0x1_0000_0000_0000_0000,
        recorded_all(fresh_metrics(), outcomes).total_time_ms == duration_sum(outcomes) % 0x1_0000_0000_0000_0000,
        forall|i: int| 0 <= i < outcomes.len() && #[trigger] outcomes[i] is Some ==> recorded_all(
            fresh_metrics(),
            outcomes,
        ).min_time_ms <= outcomes[i]->0 <= recorded_all(fresh_metrics(), outcomes).max_time_ms,
        completed_count(outcomes) == 0 ==> recorded_all(fresh_metrics(), outcomes).min_time_ms == u64::MAX
            && recorded_all(fresh_metrics(), outcomes).max_time_ms == 0,
        completed_count(outcomes) > 0 ==> has_duration(outcomes, recorded_all(fresh_metrics(), outcomes).min_time_ms)
            && has_duration(outcomes, recorded_all(fresh_metrics(), outcomes).max_time_ms),
    decreases outcomes.len(),
{
    let m: int = 0x1_0000_0000_0000_0000;
    if outcomes.len() > 0 {
        let init = outcomes.drop_last();
        lemma_metrics_totals(init);
        let before = recorded_all(fresh_metrics(), init);
        let after = recorded_all(fresh_metrics(), outcomes);
        assert forall|i: int| 0 <= i < init.len() implies init[i] == outcomes[i] by {}
        match outcomes.last() {
            Some(e) => {
                vstd::arithmetic::div_mod::lemma_add_mod_noop(completed_count(init) as int, 1, m);
                vstd::arithmetic::div_mod::lemma_add_mod_noop(duration_sum(init) as int, e as int, m);
                vstd::arithmetic::div_mod::lemma_small_mod(1, m as nat);
                vstd::arithmetic::div_mod::lemma_small_mod(e as nat, m as nat);
                assert(after.completed == (completed_count(init) + 1) as int % m) by {
                    if before.completed + 1 >= m {
                        vstd::arithmetic::div_mod::lemma_mod_sub_multiples_vanish(before.completed + 1, m);
                        vstd::arithmetic::div_mod::lemma_small_mod((before.completed + 1 - m) as nat, m as nat);
                    } else {
                        vstd::arithmetic::div_mod::lemma_small_mod((before.completed + 1) as nat, m as nat);
                    }
                }
                assert(after.total_time_ms == (duration_sum(init) + e) as int % m) by {
                    if before.total_time_ms + e >= m {
                        vstd::arithmetic::div_mod::lemma_mod_sub_multiples_vanish(before.total_time_ms + e, m);
                        vstd::arithmetic::div_mod::lemma_small_mod((before.total_time_ms + e - m) as nat, m as nat);
                    } else {
                        vstd::arithmetic::div_mod::lemma_small_mod((before.total_time_ms + e) as nat, m as nat);
                    }
                }
                if completed_count(init) > 0 {
                    let kmin = choose|i: int| 0 <= i < init.len() && init[i] == Some(before.min_time_ms);
                    let kmax = choose|i: int| 0 <= i < init.len() && init[i] == Some(before.max_time_ms);
                    assert(outcomes[kmin] == init[kmin]);
                    assert(outcomes[kmax] == init[kmax]);
                }
                assert(outcomes[outcomes.len() - 1] == Some(e));
            },
            None => {
                vstd::arithmetic::div_mod::lemma_add_mod_noop(failed_count(init) as int, 1, m);
                vstd::arithmetic::div_mod::lemma_small_mod(1, m as nat);
                assert(after.failed == (failed_count(init) + 1) as int % m) by {
                    if before.failed + 1 >= m {
                        vstd::arithmetic::div_mod::lemma_mod_sub_multiples_vanish(before.failed + 1, m);
                        vstd::arithmetic::div_mod::lemma_small_mod((before.failed + 1 - m) as nat, m as nat);
                    } else {
                        vstd::arithmetic::div_mod::lemma_small_mod((before.failed + 1) as nat, m as nat);
                    }
                }
                if completed_count(init) > 0 {
                    let kmin = choose|i: int| 0 <= i < init.len() && init[i] == Some(before.min_time_ms);
                    let kmax = choose|i: int| 0 <= i < init.len() && init[i] == Some(before.max_time_ms);
                    assert(outcomes[kmin] == init[kmin]);
                    assert(outcomes[kmax] == init[kmax]);
                }
            },
        }
    }
}

impl StressMetrics {
    /// Either no duration has been recorded yet, or the shortest recorded
    /// duration is at most the longest.
    pub open spec fn durations_ordered(&self) -> bool {
        self.min_time_ms <= self.max_time_ms || (self.min_time_ms == u64::MAX && self.max_time_ms == 0)
    }

    pub fn new() -> (r: StressMetrics)
        ensures
            r.completed == 0,
            r.failed == 0,
            r.total_time_ms == 0,
            r.min_time_ms == u64::MAX,
            r.max_time_ms == 0,
            r.durations_ordered(),
            r == fresh_metrics(),
    {
        StressMetrics { completed: 0, failed: 0, total_time_ms: 0, min_time_ms: u64::MAX, max_time_ms: 0 }
    }

    /// Records a game that completed in `elapsed_ms` milliseconds.
    pub fn record_success(&mut self, elapsed_ms: u64)
        ensures
            final(self).completed == vstd::wrapping::u64_specs::wrapping_add(old(self).completed, 1),
            final(self).total_time_ms == vstd::wrapping::u64_specs::wrapping_add(old(self).total_time_ms, elapsed_ms),
            final(self).min_time_ms == if elapsed_ms < old(self).min_time_ms { elapsed_ms } else { old(self).min_time_ms },
            final(self).max_time_ms == if elapsed_ms > old(self).max_time_ms { elapsed_ms } else { old(self).max_time_ms },
            final(self).failed == old(self).failed,
            final(self).min_time_ms <= elapsed_ms <= final(self).max_time_ms,
            old(self).durations_ordered() ==> final(self).durations_ordered(),
            *final(self) == recorded(*old(self), Some(elapsed_ms)),
    {
        self.completed = self.completed.wrapping_add(1);
        self.total_time_ms = self.total_time_ms.wrapping_add(elapsed_ms);
        if elapsed_ms < self.min_time_ms {
            self.min_time_ms = elapsed_ms;
        }
        if elapsed_ms > self.max_time_ms {
            self.max_time_ms = elapsed_ms;
        }
    }

    /// Records a game that failed.
    pub fn record_failure(&mut self)
        ensures
            final(self).failed == vstd::wrapping::u64_specs::wrapping_add(old(self).failed, 1),
            final(self).completed == old(self).completed,
            final(self).total_time_ms == old(self).total_time_ms,
            final(self).min_time_ms == old(self).min_time_ms,
            final(self).max_time_ms == old(self).max_time_ms,
            *final(self) == recorded(*old(self), None),
    {
        self.failed = self.failed.wrapping_add(1);
    }

    /// Mean duration of the completed games in whole milliseconds, or 0 when
    /// none completed.
    pub fn average_ms(&self) -> (r: u64)
        ensures
            r == if self.completed > 0 { self.total_time_ms / self.completed } else { 0 },
    {
        if self.completed > 0 {
            self.total_time_ms / self.completed
        } else {
            0
        }
    }
}


/// Network architecture chosen on the command line of the comparison tools.
#[derive(Clone, Copy, Debug, PartialEq, Eq, Structural)]
pub enum NnArchitectureCli {
    Cnn,
    Gnn,
}

impl NnArchitectureCli {
    /// The name the tools print and log for the architecture.
    pub fn label(&self) -> (r: &'static str)
        ensures
            *self == NnArchitectureCli::Cnn ==> r@ == "cnn"@,
            *self == NnArchitectureCli::Gnn ==> r@ == "gnn"@,
    {
        match self {
            NnArchitectureCli::Cnn => "cnn",
            NnArchitectureCli::Gnn => "gnn",
        }
    }
}

} // verus!
