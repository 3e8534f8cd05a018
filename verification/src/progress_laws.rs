//! What holds of the progress model across messages: how the percentage moves,
//! when it is full, and what a repeated plan or log line does.
use crate::progress::{
    apply_spec, effective_status, fresh_job, group_scan, group_status_spec, has_job, ids_unique, install, install_one, is_complete, last_running, percent_spec,
    progress_consistent, push_log_spec, scaled_done, total_done, total_units, JobSpecView, JobStatus,
    JobView, MessageView, StateView, FRACTION_SCALE, MAX_LOG_LINES,
};
use std::time::Duration;
use vstd::arithmetic::div_mod::lemma_div_is_ordered;
use vstd::prelude::*;

verus! {

proof fn lemma_total_done_ordered(a: Seq<JobView>, b: Seq<JobView>)
    requires
        a.len() == b.len(),
        forall|k: int| 0 <= k < a.len() ==> scaled_done(#[trigger] a[k]) <= scaled_done(b[k]),
    ensures
        total_done(a) <= total_done(b),
    decreases a.len(),
{
    if a.len() > 0 {
        lemma_total_done_ordered(a.drop_last(), b.drop_last());
        assert(scaled_done(a[a.len() - 1]) <= scaled_done(b[b.len() - 1]));
    }
}

proof fn lemma_total_units_same(a: Seq<JobView>, b: Seq<JobView>)
    requires
        a.len() == b.len(),
        forall|k: int| 0 <= k < a.len() ==> (#[trigger] a[k]).spec.units == b[k].spec.units,
    ensures
        total_units(a) == total_units(b),
    decreases a.len(),
{
    if a.len() > 0 {
        lemma_total_units_same(a.drop_last(), b.drop_last());
        assert(a[a.len() - 1].spec.units == b[b.len() - 1].spec.units);
    }
}

proof fn lemma_scaled_done_bound(j: JobView)
    ensures
        scaled_done(j) <= (j.spec.units as nat) * (FRACTION_SCALE as nat),
{
    let u = j.spec.units as nat;
    let sc = FRACTION_SCALE as nat;
    match j.progress {
        Some((c, t)) => {
            if t > 0 {
                let m: nat = (if c < t { c } else { t }) as nat;
                let tt = t as nat;
                assert(u * m * sc <= u * tt * sc) by (nonlinear_arith)
                    requires
                        m <= tt,
                ;
                assert((u * tt * sc) / tt == u * sc) by (nonlinear_arith)
                    requires
                        tt > 0,
                ;
                lemma_div_is_ordered((u * m * sc) as int, (u * tt * sc) as int, tt as int);
            }
        },
        None => {},
    }
}

proof fn lemma_total_done_bound(jobs: Seq<JobView>)
    ensures
        total_done(jobs) <= total_units(jobs) * (FRACTION_SCALE as nat),
    decreases jobs.len(),
{
    if jobs.len() > 0 {
        lemma_total_done_bound(jobs.drop_last());
        lemma_scaled_done_bound(jobs.last());
        assert(total_units(jobs) * (FRACTION_SCALE as nat) == total_units(jobs.drop_last()) * (
        FRACTION_SCALE as nat) + (jobs.last().spec.units as nat) * (FRACTION_SCALE as nat))
            by (nonlinear_arith)
            requires
                total_units(jobs) == total_units(jobs.drop_last()) + jobs.last().spec.units as nat,
        ;
    }
}

proof fn lemma_total_done_full(jobs: Seq<JobView>)
    requires
        forall|k: int| 0 <= k < jobs.len() && (#[trigger] jobs[k]).spec.units > 0 ==> is_complete(jobs[k].status),
    ensures
        total_done(jobs) == total_units(jobs) * (FRACTION_SCALE as nat),
    decreases jobs.len(),
{
    if jobs.len() > 0 {
        let last = jobs.last();
        assert(last == jobs[jobs.len() - 1]);
        lemma_total_done_full(jobs.drop_last());
        assert(total_units(jobs) * (FRACTION_SCALE as nat) == total_units(jobs.drop_last()) * (
        FRACTION_SCALE as nat) + (last.spec.units as nat) * (FRACTION_SCALE as nat))
            by (nonlinear_arith)
            requires
                total_units(jobs) == total_units(jobs.drop_last()) + last.spec.units as nat,
        ;
    }
}

/// The percentage only depends on the work done: with the same weights, more
/// done work never gives a lower percentage.
proof fn lemma_percent_ordered(a: Seq<JobView>, b: Seq<JobView>)
    requires
        a.len() == b.len(),
        forall|k: int| 0 <= k < a.len() ==> (#[trigger] a[k]).spec.units == b[k].spec.units,
        forall|k: int| 0 <= k < a.len() ==> scaled_done(#[trigger] a[k]) <= scaled_done(b[k]),
    ensures
        percent_spec(a) <= percent_spec(b),
{
    lemma_total_units_same(a, b);
    lemma_total_done_ordered(a, b);
    let total = total_units(a);
    if total > 0 {
        let den = (total * FRACTION_SCALE as nat) as int;
        assert(den > 0);
        lemma_div_is_ordered((total_done(a) * 100) as int, (total_done(b) * 100) as int, den);
    }
}

/// A failure message keeps the percentage where the last measurement left it.
pub proof fn law_failure_keeps_percent(s: StateView, id: Seq<char>, message: Seq<char>, d: Duration)
    requires
        ids_unique(s.jobs),
        progress_consistent(s.jobs),
    ensures
        percent_spec(apply_spec(s, MessageView::JobFailed { id, message }, d).jobs) == percent_spec(s.jobs),
{
    let after = apply_spec(s, MessageView::JobFailed { id, message }, d).jobs;
    assert forall|k: int| 0 <= k < s.jobs.len() implies scaled_done(#[trigger] s.jobs[k]) == scaled_done(
        after[k],
    ) by {
        assert(s.jobs[k].status == JobStatus::Pending ==> s.jobs[k].progress.is_none());
        assert(is_complete(s.jobs[k].status) ==> s.jobs[k].progress == Some((1u32, 1u32)));
        if s.jobs[k].spec.id == id && s.jobs[k].spec.units > 0 && is_complete(s.jobs[k].status) {
            let u = s.jobs[k].spec.units as nat;
            assert((u * 1 * (FRACTION_SCALE as nat)) / 1 == u * (FRACTION_SCALE as nat)) by (nonlinear_arith);
        }
    }
    lemma_percent_ordered(s.jobs, after);
    lemma_percent_ordered(after, s.jobs);
}

/// Starting a job never moves the percentage: a job that had not run counts
/// nothing either way, and one that had keeps what it had measured.
pub proof fn law_start_keeps_percent(s: StateView, id: Seq<char>, d: Duration)
    requires
        ids_unique(s.jobs),
        progress_consistent(s.jobs),
    ensures
        percent_spec(apply_spec(s, MessageView::JobStart { id }, d).jobs) == percent_spec(s.jobs),
{
    let after = apply_spec(s, MessageView::JobStart { id }, d).jobs;
    assert forall|k: int| 0 <= k < s.jobs.len() implies scaled_done(#[trigger] s.jobs[k]) == scaled_done(
        after[k],
    ) by {
        assert(s.jobs[k].status == JobStatus::Pending ==> s.jobs[k].progress.is_none());
        assert(is_complete(s.jobs[k].status) ==> s.jobs[k].progress == Some((1u32, 1u32)));
        if s.jobs[k].spec.id == id && s.jobs[k].spec.units > 0 && is_complete(s.jobs[k].status) {
            let u = s.jobs[k].spec.units as nat;
            assert((u * 1 * (FRACTION_SCALE as nat)) / 1 == u * (FRACTION_SCALE as nat)) by (nonlinear_arith);
        }
    }
    lemma_percent_ordered(s.jobs, after);
    lemma_percent_ordered(after, s.jobs);
}

/// A job that is done never lowers the percentage.
pub proof fn law_done_never_lowers_percent(s: StateView, id: Seq<char>, elapsed: Duration, d: Duration)
    requires
        ids_unique(s.jobs),
    ensures
        percent_spec(s.jobs) <= percent_spec(apply_spec(s, MessageView::JobDone { id, elapsed }, d).jobs),
{
    let after = apply_spec(s, MessageView::JobDone { id, elapsed }, d).jobs;
    assert forall|k: int| 0 <= k < s.jobs.len() implies scaled_done(#[trigger] s.jobs[k]) <= scaled_done(
        after[k],
    ) by {
        lemma_scaled_done_bound(s.jobs[k]);
    }
    lemma_percent_ordered(s.jobs, after);
}

/// A job that is skipped never lowers the percentage: skipped work counts as done.
pub proof fn law_skip_never_lowers_percent(s: StateView, id: Seq<char>, detail: Seq<char>, d: Duration)
    requires
        ids_unique(s.jobs),
    ensures
        percent_spec(s.jobs) <= percent_spec(apply_spec(s, MessageView::JobSkipped { id, detail }, d).jobs),
{
    let after = apply_spec(s, MessageView::JobSkipped { id, detail }, d).jobs;
    assert forall|k: int| 0 <= k < s.jobs.len() implies scaled_done(#[trigger] s.jobs[k]) <= scaled_done(
        after[k],
    ) by {
        lemma_scaled_done_bound(s.jobs[k]);
    }
    lemma_percent_ordered(s.jobs, after);
}

/// When every weighted job is done or skipped, the percentage is 100.
pub proof fn law_all_complete_is_full(jobs: Seq<JobView>)
    requires
        total_units(jobs) > 0,
        forall|k: int| 0 <= k < jobs.len() && (#[trigger] jobs[k]).spec.units > 0 ==> is_complete(jobs[k].status),
    ensures
        percent_spec(jobs) == 100,
{
    lemma_total_done_full(jobs);
    let t = total_units(jobs);
    let den = t * (FRACTION_SCALE as nat);
    assert((den * 100) / den == 100) by (nonlinear_arith)
        requires
            t > 0,
            den == t * (FRACTION_SCALE as nat),
    ;
}

/// The percentage never exceeds 100.
pub proof fn law_percent_at_most_full(jobs: Seq<JobView>)
    ensures
        percent_spec(jobs) <= 100,
{
}

proof fn lemma_install_has_all(jobs: Seq<JobView>, specs: Seq<JobSpecView>, i: int)
    requires
        0 <= i < specs.len(),
    ensures
        has_job(install(jobs, specs), specs[i].id),
    decreases specs.len(),
{
    let prev = install(jobs, specs.drop_last());
    let sp = specs.last();
    assert(install(jobs, specs) == install_one(prev, sp));
    if i < specs.len() - 1 {
        lemma_install_has_all(jobs, specs.drop_last(), i);
        assert(specs.drop_last()[i] == specs[i]);
        if !has_job(prev, sp.id) {
            let k = choose|k: int| 0 <= k < prev.len() && prev[k].spec.id == specs[i].id;
            assert(prev.push(fresh_job(sp))[k].spec.id == specs[i].id);
        }
    } else {
        if !has_job(prev, sp.id) {
            let next = prev.push(fresh_job(sp));
            assert(next[prev.len() as int].spec.id == sp.id);
        }
    }
}

proof fn lemma_install_present(jobs: Seq<JobView>, specs: Seq<JobSpecView>)
    requires
        forall|i: int| 0 <= i < specs.len() ==> has_job(jobs, #[trigger] specs[i].id),
    ensures
        install(jobs, specs) == jobs,
    decreases specs.len(),
{
    if specs.len() > 0 {
        assert forall|i: int| 0 <= i < specs.drop_last().len() implies has_job(jobs, #[trigger] specs.drop_last()[i].id) by {
            assert(specs.drop_last()[i] == specs[i]);
        }
        lemma_install_present(jobs, specs.drop_last());
        assert(specs.last() == specs[specs.len() - 1]);
        assert(has_job(jobs, specs.last().id));
        assert(install(jobs, specs) == install_one(install(jobs, specs.drop_last()), specs.last()));
    }
}

/// Sending the same plan twice installs it once: the second time changes nothing.
pub proof fn law_plan_again_changes_nothing(jobs: Seq<JobView>, specs: Seq<JobSpecView>)
    ensures
        install(install(jobs, specs), specs) == install(jobs, specs),
{
    let once = install(jobs, specs);
    assert forall|i: int| 0 <= i < specs.len() implies has_job(once, #[trigger] specs[i].id) by {
        lemma_install_has_all(jobs, specs, i);
    }
    lemma_install_present(once, specs);
}

/// A plan never drops or reorders the jobs that were there before it.
pub proof fn law_plan_keeps_existing_jobs(jobs: Seq<JobView>, specs: Seq<JobSpecView>)
    ensures
        install(jobs, specs).len() >= jobs.len(),
        install(jobs, specs).subrange(0, jobs.len() as int) == jobs,
    decreases specs.len(),
{
    if specs.len() > 0 {
        law_plan_keeps_existing_jobs(jobs, specs.drop_last());
        let prev = install(jobs, specs.drop_last());
        if !has_job(prev, specs.last().id) {
            assert(prev.push(fresh_job(specs.last())).subrange(0, jobs.len() as int) =~= prev.subrange(
                0,
                jobs.len() as int,
            ));
        }
    }
}

/// A non-empty log line becomes the newest entry; the buffer never holds more
/// than `MAX_LOG_LINES` lines and drops only the oldest ones.
pub proof fn law_log_keeps_newest(
    logs: Seq<(Option<Seq<char>>, Seq<char>)>,
    job_id: Option<Seq<char>>,
    line: Seq<char>,
)
    requires
        logs.len() <= MAX_LOG_LINES,
        line.len() > 0,
    ensures
        push_log_spec(logs, job_id, line).len() == if logs.len() < MAX_LOG_LINES {
            logs.len() + 1
        } else {
            MAX_LOG_LINES as nat
        },
        push_log_spec(logs, job_id, line).last() == (job_id, line),
        push_log_spec(logs, job_id, line).drop_last() == logs.subrange(
            logs.len() + 1 - push_log_spec(logs, job_id, line).len(),
            logs.len() as int,
        ),
{
    let l = push_log_spec(logs, job_id, line);
    assert(l.drop_last() =~= logs.subrange(logs.len() + 1 - l.len(), logs.len() as int));
}

proof fn lemma_last_running_is_running(jobs: Seq<JobView>)
    ensures
        match last_running(jobs) {
            Some(id) => exists|k: int|
                0 <= k < jobs.len() && (#[trigger] jobs[k]).spec.id == id && jobs[k].spec.units > 0
                    && jobs[k].status == JobStatus::Running,
            None => forall|k: int|
                0 <= k < jobs.len() ==> !((#[trigger] jobs[k]).spec.units > 0 && jobs[k].status
                    == JobStatus::Running),
        },
    decreases jobs.len(),
{
    if jobs.len() > 0 {
        lemma_last_running_is_running(jobs.drop_last());
        let n = jobs.len() - 1;
        assert(jobs.last() == jobs[n]);
        match last_running(jobs.drop_last()) {
            Some(id) => {
                if !(jobs.last().spec.units > 0 && jobs.last().status == JobStatus::Running) {
                    let k = choose|k: int|
                        0 <= k < jobs.drop_last().len() && (#[trigger] jobs.drop_last()[k]).spec.id == id
                            && jobs.drop_last()[k].spec.units > 0 && jobs.drop_last()[k].status
                            == JobStatus::Running;
                    assert(jobs[k] == jobs.drop_last()[k]);
                }
            },
            None => {
                if !(jobs.last().spec.units > 0 && jobs.last().status == JobStatus::Running) {
                    assert forall|k: int| 0 <= k < jobs.len() implies !((#[trigger] jobs[k]).spec.units > 0
                        && jobs[k].status == JobStatus::Running) by {
                        if k < n {
                            assert(jobs[k] == jobs.drop_last()[k]);
                        }
                    }
                }
            },
        }
    }
}

/// When the current job is done, the current job becomes another weighted job
/// that still runs, or none when no such job is left.
pub proof fn law_done_moves_current_to_running(s: StateView, id: Seq<char>, elapsed: Duration, d: Duration)
    requires
        s.current == Some(id),
    ensures
        ({
            let after = apply_spec(s, MessageView::JobDone { id, elapsed }, d);
            match after.current {
                Some(c) => exists|k: int|
                    0 <= k < after.jobs.len() && (#[trigger] after.jobs[k]).spec.id == c
                        && after.jobs[k].spec.units > 0 && after.jobs[k].status == JobStatus::Running,
                None => forall|k: int|
                    0 <= k < after.jobs.len() ==> !((#[trigger] after.jobs[k]).spec.units > 0
                        && after.jobs[k].status == JobStatus::Running),
            }
        }),
{
    let after = apply_spec(s, MessageView::JobDone { id, elapsed }, d);
    lemma_last_running_is_running(after.jobs);
}

/// Job `k` is a child of `gid` whose effective status, `fuel - 1` levels
/// down, is `st`.
pub open spec fn child_shows(jobs: Seq<JobView>, gid: Seq<char>, fuel: nat, k: int, st: JobStatus) -> bool {
    0 <= k < jobs.len() && jobs[k].spec.parent == Some(gid) && effective_status(jobs, jobs[k].spec.id, (fuel - 1) as nat)
        == st
}

proof fn lemma_scan_flags(jobs: Seq<JobView>, gid: Seq<char>, fuel: nat, n: nat)
    requires
        fuel > 0,
        n <= jobs.len(),
    ensures
        group_scan(jobs, gid, fuel, n).0 <==> exists|k: int| k < n && #[trigger] child_shows(jobs, gid, fuel, k, JobStatus::Failed),
        group_scan(jobs, gid, fuel, n).1 <==> exists|k: int| k < n && #[trigger] child_shows(jobs, gid, fuel, k, JobStatus::Running),
    decreases n,
{
    if n > 0 {
        lemma_scan_flags(jobs, gid, fuel, (n - 1) as nat);
        let m = n - 1;
        if group_scan(jobs, gid, fuel, n).0 {
            if !group_scan(jobs, gid, fuel, (n - 1) as nat).0 {
                assert(child_shows(jobs, gid, fuel, m, JobStatus::Failed));
            }
        }
        if group_scan(jobs, gid, fuel, n).1 {
            if !group_scan(jobs, gid, fuel, (n - 1) as nat).1 {
                assert(child_shows(jobs, gid, fuel, m, JobStatus::Running));
            }
        }
        if exists|k: int| k < n && #[trigger] child_shows(jobs, gid, fuel, k, JobStatus::Failed) {
            let k = choose|k: int| k < n && #[trigger] child_shows(jobs, gid, fuel, k, JobStatus::Failed);
            if k < m {
                assert(child_shows(jobs, gid, fuel, k, JobStatus::Failed));
            }
        }
        if exists|k: int| k < n && #[trigger] child_shows(jobs, gid, fuel, k, JobStatus::Running) {
            let k = choose|k: int| k < n && #[trigger] child_shows(jobs, gid, fuel, k, JobStatus::Running);
            if k < m {
                assert(child_shows(jobs, gid, fuel, k, JobStatus::Running));
            }
        }
    }
}

/// A group with a child that shows failed is failed, whatever its other
/// children are doing; and a group is failed only where a child shows failed.
pub proof fn law_group_fails_with_a_failed_child(jobs: Seq<JobView>, gid: Seq<char>, fuel: nat)
    requires
        fuel > 0,
    ensures
        (group_status_spec(jobs, gid, fuel) == JobStatus::Failed) <==> exists|k: int|
            #[trigger] child_shows(jobs, gid, fuel, k, JobStatus::Failed),
{
    lemma_scan_flags(jobs, gid, fuel, jobs.len() as nat);
    if exists|k: int| #[trigger] child_shows(jobs, gid, fuel, k, JobStatus::Failed) {
        let k = choose|k: int| #[trigger] child_shows(jobs, gid, fuel, k, JobStatus::Failed);
        assert(k < jobs.len() && child_shows(jobs, gid, fuel, k, JobStatus::Failed));
    }
}

/// A group none of whose children shows failed, but one of which runs, is
/// running.
pub proof fn law_group_runs_with_a_running_child(jobs: Seq<JobView>, gid: Seq<char>, fuel: nat, k: int)
    requires
        fuel > 0,
        child_shows(jobs, gid, fuel, k, JobStatus::Running),
        forall|m: int| !#[trigger] child_shows(jobs, gid, fuel, m, JobStatus::Failed),
    ensures
        group_status_spec(jobs, gid, fuel) == JobStatus::Running,
{
    lemma_scan_flags(jobs, gid, fuel, jobs.len() as nat);
    assert(k < jobs.len() && child_shows(jobs, gid, fuel, k, JobStatus::Running));
}

/// A weighted child job that failed makes its group failed, at every depth
/// the tree is followed to.
pub proof fn law_failed_leaf_fails_group(jobs: Seq<JobView>, gid: Seq<char>, fuel: nat, k: int)
    requires
        ids_unique(jobs),
        fuel > 0,
        0 <= k < jobs.len(),
        jobs[k].spec.parent == Some(gid),
        jobs[k].spec.units > 0,
        jobs[k].status == JobStatus::Failed,
    ensures
        group_status_spec(jobs, gid, fuel) == JobStatus::Failed,
{
    crate::progress::lemma_find_unique(jobs, jobs[k].spec.id, k);
    assert(child_shows(jobs, gid, fuel, k, JobStatus::Failed));
    law_group_fails_with_a_failed_child(jobs, gid, fuel);
}

/// Job `k` is a child of `gid`.
pub open spec fn child_of(jobs: Seq<JobView>, gid: Seq<char>, k: int) -> bool {
    0 <= k < jobs.len() && jobs[k].spec.parent == Some(gid)
}

proof fn lemma_scan_all(jobs: Seq<JobView>, gid: Seq<char>, fuel: nat, n: nat)
    requires
        fuel > 0,
        n <= jobs.len(),
    ensures
        group_scan(jobs, gid, fuel, n).2 <==> forall|k: int|
            k < n && #[trigger] child_of(jobs, gid, k) ==> is_complete(
                effective_status(jobs, jobs[k].spec.id, (fuel - 1) as nat),
            ),
        group_scan(jobs, gid, fuel, n).3 <==> exists|k: int| k < n && #[trigger] child_of(jobs, gid, k),
    decreases n,
{
    if n > 0 {
        lemma_scan_all(jobs, gid, fuel, (n - 1) as nat);
        let m = n - 1;
        if group_scan(jobs, gid, fuel, n).3 && !group_scan(jobs, gid, fuel, (n - 1) as nat).3 {
            assert(child_of(jobs, gid, m));
        }
        if exists|k: int| k < n && #[trigger] child_of(jobs, gid, k) {
            let k = choose|k: int| k < n && #[trigger] child_of(jobs, gid, k);
            if k < m {
                assert(child_of(jobs, gid, k));
            }
        }
        if !group_scan(jobs, gid, fuel, n).2 {
            if group_scan(jobs, gid, fuel, (n - 1) as nat).2 {
                assert(child_of(jobs, gid, m));
            } else {
                let k = choose|k: int|
                    !(k < n - 1 && #[trigger] child_of(jobs, gid, k) ==> is_complete(
                        effective_status(jobs, jobs[k].spec.id, (fuel - 1) as nat),
                    ));
                assert(child_of(jobs, gid, k));
            }
        }
    }
}

/// A group with children, all of which show done or skipped, is done; a
/// group without children is pending.
pub proof fn law_group_done_when_all_children_complete(jobs: Seq<JobView>, gid: Seq<char>, fuel: nat)
    requires
        fuel > 0,
    ensures
        (exists|k: int| #[trigger] child_of(jobs, gid, k)) && (forall|k: int|
            #[trigger] child_of(jobs, gid, k) ==> is_complete(effective_status(jobs, jobs[k].spec.id, (fuel - 1) as nat)))
            ==> group_status_spec(jobs, gid, fuel) == JobStatus::Done,
        !(exists|k: int| #[trigger] child_of(jobs, gid, k)) ==> group_status_spec(jobs, gid, fuel) == JobStatus::Pending,
{
    lemma_scan_flags(jobs, gid, fuel, jobs.len() as nat);
    lemma_scan_all(jobs, gid, fuel, jobs.len() as nat);
    if exists|k: int| #[trigger] child_of(jobs, gid, k) {
        let k = choose|k: int| #[trigger] child_of(jobs, gid, k);
        assert(k < jobs.len() && child_of(jobs, gid, k));
    }
    if exists|k: int| k < jobs.len() && #[trigger] child_shows(jobs, gid, fuel, k, JobStatus::Failed) {
        let k = choose|k: int| k < jobs.len() && #[trigger] child_shows(jobs, gid, fuel, k, JobStatus::Failed);
        assert(child_of(jobs, gid, k));
    }
    if exists|k: int| k < jobs.len() && #[trigger] child_shows(jobs, gid, fuel, k, JobStatus::Running) {
        let k = choose|k: int| k < jobs.len() && #[trigger] child_shows(jobs, gid, fuel, k, JobStatus::Running);
        assert(child_of(jobs, gid, k));
    }
}

} // verus!
