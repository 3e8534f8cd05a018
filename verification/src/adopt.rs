//! `vzctl adopt`: which VMs of a stack are looked at, and which of their
//! helper locks are reported as stale.
use crate::order::{lemma_lex_total, lemma_lex_transitive, lex_lt, str_less};
use crate::reconciler::{actions_view, resources_view, ActionView, PlanAction, Resource, ResourceView};
use crate::text::{cat, decimal, owned, parse_unsigned, parse_unsigned_spec, str_eq, strings_view, trim, trim_spec, u64_to_decimal};
use vstd::prelude::*;

verus! {

/// Every name sorts before the ones after it: sorted, without repeats.
pub open spec fn strictly_sorted(s: Seq<Seq<char>>) -> bool {
    forall|i: int, j: int| 0 <= i < j < s.len() ==> lex_lt(#[trigger] s[i], #[trigger] s[j])
}

/// Adds `x` to a strictly sorted list of names, where it is not there yet.
fn insert_name(s: &mut Vec<String>, x: &str)
    requires
        strictly_sorted(strings_view(old(s)@)),
    ensures
        strictly_sorted(strings_view(final(s)@)),
        strings_view(final(s)@).to_set() == strings_view(old(s)@).to_set().insert(x@),
{
    let ghost v = strings_view(s@);
    let mut p: usize = 0;
    while p < s.len() && str_less(s[p].as_str(), x)
        invariant
            p <= s@.len(),
            v == strings_view(s@),
            forall|k: int| 0 <= k < p ==> lex_lt(#[trigger] v[k], x@),
        decreases s.len() - p,
    {
        p = p + 1;
    }
    if p < s.len() && str_eq(s[p].as_str(), x) {
        assert(v.to_set().insert(x@) =~= v.to_set()) by {
            assert(v.contains(x@)) by {
                assert(v[p as int] == x@);
            }
        }
        return;
    }
    proof {
        if p < v.len() {
            lemma_lex_total(v[p as int], x@);
        }
    }
    s.insert(p, owned(x));
    let ghost w = strings_view(s@);
    assert(w =~= v.insert(p as int, x@));
    proof {
        assert forall|i: int, j: int| 0 <= i < j < w.len() implies lex_lt(#[trigger] w[i], #[trigger] w[j]) by {
            if j < p {
                assert(w[i] == v[i] && w[j] == v[j]);
            } else if j == p {
                assert(w[i] == v[i]);
            } else if i > p {
                assert(w[i] == v[i - 1] && w[j] == v[j - 1]);
            } else if i == p {
                assert(w[j] == v[j - 1]);
                assert(lex_lt(x@, v[p as int]));
                if j - 1 > p {
                    lemma_lex_transitive(x@, v[p as int], v[j - 1]);
                }
            } else {
                assert(w[i] == v[i] && w[j] == v[j - 1]);
                assert(lex_lt(v[i], x@));
                assert(lex_lt(x@, v[p as int]));
                lemma_lex_transitive(v[i], x@, v[p as int]);
                if j - 1 > p {
                    lemma_lex_transitive(v[i], v[p as int], v[j - 1]);
                }
            }
        }
        assert(w.to_set() =~= v.to_set().insert(x@)) by {
            assert forall|e: Seq<char>| w.to_set().contains(e) implies v.to_set().insert(x@).contains(e) by {
                let k = choose|k: int| 0 <= k < w.len() && w[k] == e;
                if k < p {
                    assert(v[k] == e);
                } else if k > p {
                    assert(v[k - 1] == e);
                }
            }
            assert forall|e: Seq<char>| v.to_set().insert(x@).contains(e) implies w.to_set().contains(e) by {
                if e == x@ {
                    assert(w[p as int] == e);
                } else {
                    let k = choose|k: int| 0 <= k < v.len() && v[k] == e;
                    if k < p {
                        assert(w[k] == e);
                    } else {
                        assert(w[k + 1] == e);
                    }
                }
            }
        }
    }
}

/// The names of the VMs among `rs`.
pub open spec fn vm_names(rs: Seq<ResourceView>) -> Set<Seq<char>> {
    Set::new(|n: Seq<char>| exists|i: int| 0 <= i < rs.len() && #[trigger] rs[i].kind == "vm"@ && rs[i].name == n)
}

/// What a VM bundle's manifest says about who manages it.
pub struct VmManifest {
    pub vm_id: String,
    /// `managed-by` is `vzctl`.
    pub managed_by_vzctl: bool,
    /// `labels.stack_id`, where it is text.
    pub stack_id: Option<String>,
}

/// The manifest is vzctl's and names the stack.
pub open spec fn names_stack(m: VmManifest, stack_id: Seq<char>) -> bool {
    m.managed_by_vzctl && match m.stack_id {
        Some(s) => s@ == stack_id,
        None => false,
    }
}

/// The VMs whose manifests tie them to the stack.
pub open spec fn stack_manifests(ms: Seq<VmManifest>, stack_id: Seq<char>) -> Set<Seq<char>> {
    Set::new(|n: Seq<char>| exists|i: int| 0 <= i < ms.len() && #[trigger] names_stack(ms[i], stack_id) && ms[i].vm_id@ == n)
}

/// The VMs an adoption looks at: those the stack wants or has, and those
/// whose manifests name the stack.
pub open spec fn candidates_spec(
    desired: Seq<ResourceView>,
    actual: Seq<ResourceView>,
    ms: Seq<VmManifest>,
    stack_id: Seq<char>,
) -> Set<Seq<char>> {
    vm_names(desired).union(vm_names(actual)).union(stack_manifests(ms, stack_id))
}

fn add_vm_names(out: &mut Vec<String>, rs: &[Resource])
    requires
        strictly_sorted(strings_view(old(out)@)),
    ensures
        strictly_sorted(strings_view(final(out)@)),
        strings_view(final(out)@).to_set() == strings_view(old(out)@).to_set().union(vm_names(resources_view(rs@))),
{
    let ghost start = strings_view(out@).to_set();
    let ghost rv = resources_view(rs@);
    let mut i: usize = 0;
    while i < rs.len()
        invariant
            i <= rs@.len(),
            rv == resources_view(rs@),
            strictly_sorted(strings_view(out@)),
            strings_view(out@).to_set() == start.union(vm_names(rv.subrange(0, i as int))),
        decreases rs.len() - i,
    {
        let ghost before = strings_view(out@).to_set();
        assert(rv[i as int] == rs@[i as int]@);
        if str_eq(rs[i].kind.as_str(), "vm") {
            insert_name(out, rs[i].name.as_str());
        }
        assert(vm_names(rv.subrange(0, i + 1)) =~= vm_names(rv.subrange(0, i as int)).union(
            if rv[i as int].kind == "vm"@ {
                set![rv[i as int].name]
            } else {
                Set::empty()
            },
        )) by {
            let a = rv.subrange(0, i + 1);
            let b = rv.subrange(0, i as int);
            assert forall|n: Seq<char>| vm_names(a).contains(n) implies vm_names(b).union(
                if rv[i as int].kind == "vm"@ {
                    set![rv[i as int].name]
                } else {
                    Set::empty()
                },
            ).contains(n) by {
                let k = choose|k: int| 0 <= k < a.len() && #[trigger] a[k].kind == "vm"@ && a[k].name == n;
                if k < i {
                    assert(b[k] == a[k]);
                }
            }
            assert forall|n: Seq<char>| vm_names(b).contains(n) implies vm_names(a).contains(n) by {
                let k = choose|k: int| 0 <= k < b.len() && #[trigger] b[k].kind == "vm"@ && b[k].name == n;
                assert(a[k] == b[k]);
            }
            if rv[i as int].kind == "vm"@ {
                assert(a[i as int] == rv[i as int]);
                assert(vm_names(a).contains(rv[i as int].name));
            }
        }
        assert(strings_view(out@).to_set() =~= start.union(vm_names(rv.subrange(0, i + 1))));
        i = i + 1;
    }
    assert(rv.subrange(0, rs@.len() as int) =~= rv);
}

/// The VMs an adoption looks at, sorted by name and each once.
pub fn adopt_candidates(desired: &[Resource], actual: &[Resource], manifests: &[VmManifest], stack_id: &str) -> (r: Vec<
    String,
>)
    ensures
        strictly_sorted(strings_view(r@)),
        strings_view(r@).to_set() == candidates_spec(
            resources_view(desired@),
            resources_view(actual@),
            manifests@,
            stack_id@,
        ),
{
    let mut out: Vec<String> = Vec::new();
    assert(strings_view(out@).to_set() =~= Set::<Seq<char>>::empty());
    add_vm_names(&mut out, desired);
    add_vm_names(&mut out, actual);
    let ghost start = strings_view(out@).to_set();
    let mut i: usize = 0;
    while i < manifests.len()
        invariant
            i <= manifests@.len(),
            strictly_sorted(strings_view(out@)),
            strings_view(out@).to_set() == start.union(stack_manifests(manifests@.subrange(0, i as int), stack_id@)),
        decreases manifests.len() - i,
    {
        let m = &manifests[i];
        let matches = m.managed_by_vzctl && match &m.stack_id {
            Some(s) => str_eq(s.as_str(), stack_id),
            None => false,
        };
        if matches {
            insert_name(&mut out, m.vm_id.as_str());
        }
        let ghost a = manifests@.subrange(0, i + 1);
        let ghost b = manifests@.subrange(0, i as int);
        assert(stack_manifests(a, stack_id@) =~= stack_manifests(b, stack_id@).union(
            if matches {
                set![m.vm_id@]
            } else {
                Set::empty()
            },
        )) by {
            assert forall|n: Seq<char>| stack_manifests(a, stack_id@).contains(n) implies stack_manifests(
                b,
                stack_id@,
            ).union(
                if matches {
                    set![m.vm_id@]
                } else {
                    Set::empty()
                },
            ).contains(n) by {
                let k = choose|k: int| 0 <= k < a.len() && #[trigger] names_stack(a[k], stack_id@) && a[k].vm_id@ == n;
                if k < i {
                    assert(b[k] == a[k]);
                }
            }
            assert forall|n: Seq<char>| stack_manifests(b, stack_id@).contains(n) implies stack_manifests(
                a,
                stack_id@,
            ).contains(n) by {
                let k = choose|k: int| 0 <= k < b.len() && #[trigger] names_stack(b[k], stack_id@) && b[k].vm_id@ == n;
                assert(a[k] == b[k]);
            }
            if matches {
                assert(a[i as int] == *m);
                assert(names_stack(a[i as int], stack_id@));
                assert(stack_manifests(a, stack_id@).contains(m.vm_id@));
            }
        }
        assert(strings_view(out@).to_set() =~= start.union(stack_manifests(a, stack_id@)));
        i = i + 1;
    }
    assert(manifests@.subrange(0, manifests@.len() as int) =~= manifests@);
    out
}

/// A VM as the supervisor lists it.
pub struct RuntimeRecord {
    pub vm_id: Option<String>,
    pub state: Option<String>,
}

/// The record is of a VM that is starting or running.
pub open spec fn record_live(r: RuntimeRecord) -> bool {
    r.vm_id is Some && match r.state {
        Some(s) => s@ == "starting"@ || s@ == "running"@,
        None => false,
    }
}

/// The VMs that are starting or running, in the supervisor's order.
pub open spec fn live_spec(rs: Seq<RuntimeRecord>) -> Seq<Seq<char>>
    decreases rs.len(),
{
    if rs.len() == 0 {
        Seq::empty()
    } else if record_live(rs.last()) {
        live_spec(rs.drop_last()).push(rs.last().vm_id.unwrap()@)
    } else {
        live_spec(rs.drop_last())
    }
}

/// The VMs the supervisor reports as starting or running.
pub fn live_vms(records: &[RuntimeRecord]) -> (r: Vec<String>)
    ensures
        strings_view(r@) == live_spec(records@),
{
    let mut out: Vec<String> = Vec::new();
    let mut i: usize = 0;
    assert(records@.subrange(0, 0) =~= Seq::<RuntimeRecord>::empty());
    while i < records.len()
        invariant
            i <= records@.len(),
            strings_view(out@) == live_spec(records@.subrange(0, i as int)),
        decreases records.len() - i,
    {
        let ghost pre = records@.subrange(0, i + 1);
        assert(pre.drop_last() =~= records@.subrange(0, i as int));
        assert(pre.last() == records@[i as int]);
        let r = &records[i];
        let live = match &r.state {
            Some(s) => str_eq(s.as_str(), "starting") || str_eq(s.as_str(), "running"),
            None => false,
        };
        if live {
            match &r.vm_id {
                Some(id) => {
                    let ghost before = strings_view(out@);
                    out.push(id.clone());
                    assert(strings_view(out@) =~= before.push(id@));
                },
                None => {},
            }
        }
        i = i + 1;
    }
    assert(records@.subrange(0, records@.len() as int) =~= records@);
    out
}

/// The candidates that are not live, in order: those whose helper locks
/// are looked at.
pub open spec fn idle_spec(cs: Seq<Seq<char>>, live: Seq<Seq<char>>) -> Seq<Seq<char>> {
    cs.filter(|c: Seq<char>| !live.contains(c))
}

fn contains_name(v: &[String], x: &str) -> (r: bool)
    ensures
        r == strings_view(v@).contains(x@),
{
    let mut i: usize = 0;
    while i < v.len()
        invariant
            i <= v@.len(),
            forall|k: int| 0 <= k < i ==> v@[k]@ != x@,
        decreases v.len() - i,
    {
        if str_eq(v[i].as_str(), x) {
            assert(strings_view(v@)[i as int] == x@);
            return true;
        }
        i = i + 1;
    }
    assert forall|k: int| 0 <= k < v@.len() implies strings_view(v@)[k] != x@ by {
        assert(strings_view(v@)[k] == v@[k]@);
    }
    false
}

/// The candidates that are neither starting nor running, in order.
pub fn idle_candidates(candidates: &[String], live: &[String]) -> (r: Vec<String>)
    ensures
        strings_view(r@) == idle_spec(strings_view(candidates@), strings_view(live@)),
{
    let ghost cv = strings_view(candidates@);
    let ghost lv = strings_view(live@);
    let mut out: Vec<String> = Vec::new();
    let mut i: usize = 0;
    assert(cv.subrange(0, 0) =~= Seq::<Seq<char>>::empty());
    while i < candidates.len()
        invariant
            i <= candidates@.len(),
            cv == strings_view(candidates@),
            lv == strings_view(live@),
            strings_view(out@) == idle_spec(cv.subrange(0, i as int), lv),
        decreases candidates.len() - i,
    {
        let ghost pre = cv.subrange(0, i + 1);
        assert(pre.drop_last() =~= cv.subrange(0, i as int));
        assert(pre.last() == candidates@[i as int]@);
        reveal(Seq::filter);
        if !contains_name(live, candidates[i].as_str()) {
            let ghost before = strings_view(out@);
            out.push(candidates[i].clone());
            assert(strings_view(out@) =~= before.push(cv[i as int]));
        }
        i = i + 1;
    }
    assert(cv.subrange(0, candidates@.len() as int) =~= cv);
    out
}

pub open spec fn report_view(name: Seq<char>) -> ActionView {
    ActionView {
        action: "report"@,
        kind: "helper-lock"@,
        name,
        breaking: false,
        reason: "stale helper lock (pid dead or flock free)"@,
    }
}

/// The reports for the named VMs whose helper locks are stale.
pub open spec fn reports_spec(names: Seq<Seq<char>>, stale: Seq<bool>) -> Seq<ActionView>
    decreases names.len(),
{
    if names.len() == 0 || stale.len() != names.len() {
        Seq::empty()
    } else if stale.last() {
        reports_spec(names.drop_last(), stale.drop_last()).push(report_view(names.last()))
    } else {
        reports_spec(names.drop_last(), stale.drop_last())
    }
}

/// One report per VM of `names` whose helper lock `stale` marks as stale, in
/// order; `stale[i]` says it of `names[i]`.
pub fn stale_lock_reports(names: &[String], stale: &[bool]) -> (r: Vec<PlanAction>)
    requires
        stale@.len() == names@.len(),
    ensures
        actions_view(r@) == reports_spec(strings_view(names@), stale@),
{
    let ghost nv = strings_view(names@);
    let mut out: Vec<PlanAction> = Vec::new();
    let mut i: usize = 0;
    while i < names.len()
        invariant
            i <= names@.len(),
            stale@.len() == names@.len(),
            nv == strings_view(names@),
            actions_view(out@) == reports_spec(nv.subrange(0, i as int), stale@.subrange(0, i as int)),
        decreases names.len() - i,
    {
        assert(nv.subrange(0, i + 1).drop_last() =~= nv.subrange(0, i as int));
        assert(stale@.subrange(0, i + 1).drop_last() =~= stale@.subrange(0, i as int));
        assert(nv.subrange(0, i + 1).last() == names@[i as int]@);
        if stale[i] {
            let a = PlanAction {
                action: "report",
                kind: owned("helper-lock"),
                name: names[i].clone(),
                breaking: false,
                reason: owned("stale helper lock (pid dead or flock free)"),
            };
            let ghost before = actions_view(out@);
            out.push(a);
            assert(actions_view(out@) =~= before.push(report_view(nv[i as int])));
        }
        i = i + 1;
    }
    assert(nv.subrange(0, names@.len() as int) =~= nv);
    assert(stale@.subrange(0, names@.len() as int) =~= stale@);
    out
}

pub open spec fn adopt_message_spec(reported: nat) -> Seq<char> {
    if reported > 0 {
        decimal(reported) + " stale helper lock(s) reported"@
    } else {
        "no lockfile-only resources adopted"@
    }
}

/// The summary line of an adoption that reported `reported` stale locks.
pub fn adopt_message(reported: usize) -> (r: String)
    ensures
        r@ == adopt_message_spec(reported as nat),
{
    if reported > 0 {
        cat(u64_to_decimal(reported as u64).as_str(), " stale helper lock(s) reported")
    } else {
        owned("no lockfile-only resources adopted")
    }
}

/// The process a lock file names: its trimmed text as a positive `i32`.
pub open spec fn holder_spec(contents: Seq<char>) -> Option<i32> {
    match parse_unsigned_spec(trim_spec(contents), i32::MAX as nat) {
        Some(n) => if n > 0 {
            Some(n as i32)
        } else {
            None
        },
        None => None,
    }
}

/// The process that holds a helper lock, as the lock file records it;
/// `None` where the file names no process that could be alive.
pub fn lock_holder_pid(contents: &str) -> (r: Option<i32>)
    ensures
        r == holder_spec(contents@),
{
    let t = trim(contents);
    match parse_unsigned(t.as_str(), i32::MAX as u64) {
        Some(n) => if n > 0 {
            Some(n as i32)
        } else {
            None
        },
        None => None,
    }
}

} // verus!
