//! Per-package outcomes and the process exit status derived from them.
use vstd::prelude::*;

verus! {

/// Exit status when every package ran successfully (or had nothing to run).
pub const EXIT_SUCCESS: i32 = 0;

/// Exit status when at least one package's job failed.
pub const EXIT_FAILURE: i32 = 1;

/// Exit status when change detection was requested and no package was touched.
pub const EXIT_NO_CHANGES: i32 = 2;

/// The outcome of one package's job.
pub struct JobResult {
    pub package: String,
    pub success: bool,
}

/// True when some result in `results` is a failure.
pub open spec fn any_failed(results: Seq<JobResult>) -> bool {
    exists|i: int| 0 <= i < results.len() && !(#[trigger] results[i]).success
}

/// The exit status that a list of results folds into.
pub open spec fn aggregate_spec(results: Seq<JobResult>) -> i32 {
    if any_failed(results) {
        EXIT_FAILURE
    } else {
        EXIT_SUCCESS
    }
}

/// Folds the results into an exit status: failure is sticky, so the status is
/// `EXIT_FAILURE` exactly when some result failed, and `EXIT_SUCCESS` otherwise
/// (in particular for no results at all).
pub fn aggregate(results: &Vec<JobResult>) -> (r: i32)
    ensures
        r == aggregate_spec(results@),
{
    let mut code: i32 = EXIT_SUCCESS;
    let mut i: usize = 0;
    while i < results.len()
        invariant
            0 <= i <= results@.len(),
            code == aggregate_spec(results@.take(i as int)),
        decreases results@.len() - i,
    {
        if !results[i].success {
            code = EXIT_FAILURE;
        }
        proof {
            let prev = results@.take(i as int);
            let next = results@.take(i as int + 1);
            assert(next[i as int] == results@[i as int]);
            if any_failed(prev) {
                let k = choose|k: int| 0 <= k < prev.len() && !(#[trigger] prev[k]).success;
                assert(next[k] == prev[k]);
            }
            if any_failed(next) {
                let k = choose|k: int| 0 <= k < next.len() && !(#[trigger] next[k]).success;
                if k < i {
                    assert(prev[k] == next[k]);
                }
            }
        }
        i = i + 1;
    }
    assert(results@.take(results@.len() as int) =~= results@);
    code
}

/// The aggregate is `EXIT_FAILURE` exactly when some result is a failure, and
/// no results aggregate to `EXIT_SUCCESS`.
pub proof fn lemma_aggregate_failure_iff(results: Seq<JobResult>)
    ensures
        aggregate_spec(results) == EXIT_FAILURE <==> any_failed(results),
        aggregate_spec(results) == EXIT_SUCCESS <==> !any_failed(results),
        aggregate_spec(Seq::empty()) == EXIT_SUCCESS,
{
}

/// The order in which results arrive does not change the aggregate: any
/// rearrangement of the same results folds to the same status.
pub proof fn lemma_aggregate_order_free(a: Seq<JobResult>, b: Seq<JobResult>)
    requires
        a.to_multiset() == b.to_multiset(),
    ensures
        aggregate_spec(a) == aggregate_spec(b),
{
    a.to_multiset_ensures();
    b.to_multiset_ensures();
    if any_failed(a) {
        let i = choose|i: int| 0 <= i < a.len() && !(#[trigger] a[i]).success;
        assert(a.contains(a[i]));
        assert(a.to_multiset().count(a[i]) > 0);
        assert(b.contains(a[i]));
        let j = choose|j: int| 0 <= j < b.len() && b[j] == a[i];
        assert(!b[j].success);
    }
    if any_failed(b) {
        let i = choose|i: int| 0 <= i < b.len() && !(#[trigger] b[i]).success;
        assert(b.contains(b[i]));
        assert(b.to_multiset().count(b[i]) > 0);
        assert(a.contains(b[i]));
        let j = choose|j: int| 0 <= j < a.len() && a[j] == b[i];
        assert(!a[j].success);
    }
}

/// The status of a whole run: with change detection on and no package
/// selected, the reserved `EXIT_NO_CHANGES`; otherwise the aggregate of the
/// results.
pub open spec fn run_status_spec(
    detect_changes: bool,
    selected: nat,
    results: Seq<JobResult>,
) -> i32 {
    if detect_changes && selected == 0 {
        EXIT_NO_CHANGES
    } else {
        aggregate_spec(results)
    }
}

/// The exit status of a run that selected `selected` packages and collected
/// `results`.
pub fn run_status(detect_changes: bool, selected: usize, results: &Vec<JobResult>) -> (r: i32)
    ensures
        r == run_status_spec(detect_changes, selected as nat, results@),
{
    if detect_changes && selected == 0 {
        EXIT_NO_CHANGES
    } else {
        aggregate(results)
    }
}

} // verus!
