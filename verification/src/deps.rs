//! The order in which the VMs of an environment are brought up: each VM
//! after the VMs it depends on.
use crate::order::lex_lt;
use crate::reconciler::{Failure, EXIT_INVALID};
use crate::text::{owned, str_eq, strings_view};
use vstd::prelude::*;

verus! {

/// A VM's name and the names of the VMs it depends on.
pub type VmDeps = (String, Vec<String>);

pub type DepsView = Seq<(Seq<char>, Seq<Seq<char>>)>;

pub open spec fn deps_view(vms: Seq<VmDeps>) -> DepsView {
    vms.map_values(|v: VmDeps| (v.0@, strings_view(v.1@)))
}

pub open spec fn names(g: DepsView) -> Seq<Seq<char>> {
    g.map_values(|v: (Seq<char>, Seq<Seq<char>>)| v.0)
}

/// Index of the VM named `name`.
pub open spec fn vm_index(g: DepsView, name: Seq<char>) -> int
    decreases g.len(),
{
    if g.len() == 0 {
        -1
    } else if g.last().0 == name {
        g.len() - 1
    } else {
        vm_index(g.drop_last(), name)
    }
}

/// The dependencies of the VM named `name`.
pub open spec fn deps_of(g: DepsView, name: Seq<char>) -> Seq<Seq<char>> {
    g[vm_index(g, name)].1
}

/// The names are distinct and every dependency names a VM.
pub open spec fn well_formed(g: DepsView) -> bool {
    &&& forall|i: int, j: int| 0 <= i < j < g.len() ==> #[trigger] g[i].0 != #[trigger] g[j].0
    &&& forall|i: int, j: int|
        0 <= i < g.len() && 0 <= j < g[i].1.len() ==> names(g).contains(#[trigger] g[i].1[j])
}

/// Depth-first visit of `name` with the VMs on the current path in `stack`
/// and the VMs already ordered in `out`: the VM comes after its
/// dependencies, visited in their order; meeting a VM on the path again is
/// a cycle (`None`). `fuel` bounds the depth.
pub open spec fn visit(g: DepsView, name: Seq<char>, stack: Seq<Seq<char>>, out: Seq<Seq<char>>, fuel: nat) -> Option<Seq<Seq<char>>>
    decreases fuel, 0nat, 0nat,
{
    if out.contains(name) {
        Some(out)
    } else if stack.contains(name) || fuel == 0 {
        None
    } else {
        match visit_list(g, deps_of(g, name), 0, stack.push(name), out, (fuel - 1) as nat) {
            Some(o) => Some(o.push(name)),
            None => None,
        }
    }
}

/// Visits `deps` from index `i` on, in order.
pub open spec fn visit_list(
    g: DepsView,
    deps: Seq<Seq<char>>,
    i: int,
    stack: Seq<Seq<char>>,
    out: Seq<Seq<char>>,
    fuel: nat,
) -> Option<Seq<Seq<char>>>
    decreases fuel, 1nat, deps.len() - i,
{
    if i < 0 || i >= deps.len() {
        Some(out)
    } else {
        match visit(g, deps[i], stack, out, fuel) {
            Some(o) => visit_list(g, deps, i + 1, stack, o, fuel),
            None => None,
        }
    }
}

/// Visits the first `k` VMs, in order, each from an empty path.
pub open spec fn visit_roots(g: DepsView, k: nat) -> Option<Seq<Seq<char>>>
    decreases k,
{
    if k == 0 || k > g.len() {
        Some(Seq::empty())
    } else {
        match visit_roots(g, (k - 1) as nat) {
            Some(o) => visit(g, g[k - 1].0, Seq::empty(), o, g.len() as nat),
            None => None,
        }
    }
}

/// The order of the VMs, or `None` when their dependencies form a cycle.
pub proof fn lemma_roots_stay_none(g: DepsView, k: nat, m: nat)
    requires
        visit_roots(g, k) is None,
        k <= m <= g.len(),
    ensures
        visit_roots(g, m) is None,
    decreases m - k,
{
    if k < m {
        lemma_roots_stay_none(g, k + 1, m);
    }
}

pub open spec fn order_spec(g: DepsView) -> Option<Seq<Seq<char>>> {
    visit_roots(g, g.len() as nat)
}

fn index_of_vm(vms: &[VmDeps], name: &str) -> (r: usize)
    requires
        names(deps_view(vms@)).contains(name@),
    ensures
        r == vm_index(deps_view(vms@), name@),
        r < vms@.len(),
{
    let ghost g = deps_view(vms@);
    let mut i: usize = vms.len();
    proof {
        assert(g.subrange(0, i as int) =~= g);
        let k = choose|k: int| 0 <= k < names(g).len() && names(g)[k] == name@;
        assert(g[k].0 == name@);
    }
    while i > 0
        invariant
            i <= vms@.len(),
            g == deps_view(vms@),
            vm_index(g, name@) == vm_index(g.subrange(0, i as int), name@),
            exists|k: int| 0 <= k < i && g[k].0 == name@,
        decreases i,
    {
        let ghost pre = g.subrange(0, i as int);
        assert(pre.drop_last() =~= g.subrange(0, i - 1));
        assert(pre.last() == g[i - 1]);
        assert(g[i - 1].0 == vms@[i - 1].0@);
        if str_eq(vms[i - 1].0.as_str(), name) {
            return i - 1;
        }
        i = i - 1;
    }
    proof {
        let k = choose|k: int| 0 <= k < i && g[k].0 == name@;
    }
    0
}

fn contains_name(v: &Vec<String>, x: &str) -> (r: bool)
    ensures
        r == strings_view(v@).contains(x@),
{
    crate::ui::list_contains(v, x)
}

fn visit_exec(
    vms: &[VmDeps],
    name: &str,
    stack: &mut Vec<String>,
    out: &mut Vec<String>,
    fuel: usize,
) -> (ok: bool)
    requires
        well_formed(deps_view(vms@)),
        names(deps_view(vms@)).contains(name@),
    ensures
        strings_view(final(stack)@) == strings_view(old(stack)@),
        ok ==> visit(deps_view(vms@), name@, strings_view(old(stack)@), strings_view(old(out)@), fuel as nat)
            == Some(strings_view(final(out)@)),
        !ok ==> visit(deps_view(vms@), name@, strings_view(old(stack)@), strings_view(old(out)@), fuel as nat)
            is None,
    decreases fuel,
{
    let ghost g = deps_view(vms@);
    if contains_name(out, name) {
        return true;
    }
    if contains_name(stack, name) || fuel == 0 {
        return false;
    }
    let ghost s0 = strings_view(stack@);
    let ghost o0 = strings_view(out@);
    let k = index_of_vm(vms, name);
    let deps = &vms[k].1;
    let ghost dv = strings_view(deps@);
    assert(dv == deps_of(g, name@));
    stack.push(owned(name));
    assert(strings_view(stack@) =~= s0.push(name@));
    let mut i: usize = 0;
    while i < deps.len()
        invariant
            i <= deps@.len(),
            g == deps_view(vms@),
            well_formed(g),
            dv == strings_view(deps@),
            dv == deps_of(g, name@),
            strings_view(stack@) == s0.push(name@),
            s0 == strings_view(old(stack)@),
            o0 == strings_view(old(out)@),
            !o0.contains(name@),
            !s0.contains(name@),
            fuel > 0,
            visit_list(g, dv, 0, s0.push(name@), o0, (fuel - 1) as nat) == visit_list(
                g,
                dv,
                i as int,
                s0.push(name@),
                strings_view(out@),
                (fuel - 1) as nat,
            ),
            forall|j: int| 0 <= j < dv.len() ==> names(g).contains(#[trigger] dv[j]),
        decreases deps.len() - i,
    {
        assert(dv[i as int] == deps@[i as int]@);
        let ok = visit_exec(vms, deps[i].as_str(), stack, out, fuel - 1);
        if !ok {
            let ghost before = stack@;
            assert(strings_view(before).len() == before.len());
            assert(before.len() == s0.len() + 1);
            stack.pop();
            assert(stack@ =~= before.drop_last());
            assert(strings_view(stack@) =~= strings_view(before).drop_last());
            assert(s0.push(name@).drop_last() =~= s0);
            return false;
        }
        i = i + 1;
    }
    let ghost before = stack@;
    assert(strings_view(before).len() == before.len());
    assert(before.len() == s0.len() + 1);
    stack.pop();
    assert(stack@ =~= before.drop_last());
    assert(strings_view(stack@) =~= strings_view(before).drop_last());
    assert(s0.push(name@).drop_last() =~= s0);
    let ghost o1 = strings_view(out@);
    out.push(owned(name));
    assert(strings_view(out@) =~= o1.push(name@));
    true
}

pub open spec fn order_result_view(r: Result<Vec<String>, Failure>) -> Option<Seq<Seq<char>>> {
    match r {
        Ok(v) => Some(strings_view(v@)),
        Err(_) => None,
    }
}

/// The VMs are listed in the order of their names, as the configuration's
/// map of VMs keeps them.
pub open spec fn names_sorted(g: DepsView) -> bool {
    forall|i: int, j: int| 0 <= i < j < g.len() ==> lex_lt(#[trigger] g[i].0, #[trigger] g[j].0)
}

/// The VMs in the order they are brought up: every VM after its
/// dependencies, in depth-first order from the VMs taken by name. A
/// dependency cycle is refused.
pub fn dependency_order(vms: &[VmDeps]) -> (r: Result<Vec<String>, Failure>)
    requires
        names_sorted(deps_view(vms@)),
        well_formed(deps_view(vms@)),
    ensures
        order_result_view(r) == order_spec(deps_view(vms@)),
        r matches Err(f) ==> f.code == EXIT_INVALID && f.message@ == "VM dependency cycle"@,
{
    let ghost g = deps_view(vms@);
    let mut out: Vec<String> = Vec::new();
    let mut stack: Vec<String> = Vec::new();
    let n = vms.len();
    let mut k: usize = 0;
    assert(strings_view(out@) =~= Seq::<Seq<char>>::empty());
    while k < n
        invariant
            k <= n,
            n == vms@.len(),
            g == deps_view(vms@),
            well_formed(g),
            strings_view(stack@) =~= Seq::<Seq<char>>::empty(),
            visit_roots(g, k as nat) == Some(strings_view(out@)),
        decreases n - k,
    {
        assert(g[k as int].0 == vms@[k as int].0@);
        assert(names(g)[k as int] == g[k as int].0);
        let ok = visit_exec(vms, vms[k].0.as_str(), &mut stack, &mut out, n);
        if !ok {
            proof {
                lemma_roots_stay_none(g, (k + 1) as nat, n as nat);
            }
            return Err(Failure { code: EXIT_INVALID, message: owned("VM dependency cycle") });
        }
        k = k + 1;
    }
    Ok(out)
}

// ---------------------------------------------------------------------------
// The order is a topological order

pub open spec fn no_dups(s: Seq<Seq<char>>) -> bool {
    forall|i: int, j: int| 0 <= i < j < s.len() ==> #[trigger] s[i] != #[trigger] s[j]
}

/// Every VM of `out` comes after all of its dependencies.
pub open spec fn deps_before(g: DepsView, out: Seq<Seq<char>>) -> bool {
    forall|i: int, j: int|
        0 <= i < out.len() && 0 <= j < deps_of(g, out[i]).len() ==> #[trigger] out.subrange(0, i).contains(
            #[trigger] deps_of(g, out[i])[j],
        )
}

/// What holds of the order built so far while the VMs of `stack` are
/// being visited.
pub open spec fn partial_order_ok(g: DepsView, out: Seq<Seq<char>>, stack: Seq<Seq<char>>) -> bool {
    &&& no_dups(out)
    &&& deps_before(g, out)
    &&& forall|i: int| 0 <= i < out.len() ==> names(g).contains(#[trigger] out[i])
    &&& forall|x: Seq<char>| stack.contains(x) ==> !#[trigger] out.contains(x)
}

pub open spec fn is_prefix(a: Seq<Seq<char>>, b: Seq<Seq<char>>) -> bool {
    a.len() <= b.len() && b.subrange(0, a.len() as int) == a
}

proof fn lemma_prefix_contains(a: Seq<Seq<char>>, b: Seq<Seq<char>>, x: Seq<char>)
    requires
        is_prefix(a, b),
        a.contains(x),
    ensures
        b.contains(x),
{
    let k = choose|k: int| 0 <= k < a.len() && a[k] == x;
    assert(b.subrange(0, a.len() as int)[k] == x);
}

proof fn lemma_prefix_trans(a: Seq<Seq<char>>, b: Seq<Seq<char>>, c: Seq<Seq<char>>)
    requires
        is_prefix(a, b),
        is_prefix(b, c),
    ensures
        is_prefix(a, c),
{
    assert(c.subrange(0, a.len() as int) =~= b.subrange(0, a.len() as int));
}

proof fn lemma_visit_ok(g: DepsView, name: Seq<char>, stack: Seq<Seq<char>>, out: Seq<Seq<char>>, fuel: nat)
    requires
        well_formed(g),
        names(g).contains(name),
        partial_order_ok(g, out, stack),
        visit(g, name, stack, out, fuel) is Some,
    ensures
        ({
            let o = visit(g, name, stack, out, fuel)->Some_0;
            &&& is_prefix(out, o)
            &&& partial_order_ok(g, o, stack)
            &&& o.contains(name)
        }),
    decreases fuel, 0nat, 0nat,
{
    if out.contains(name) {
        assert(out.subrange(0, out.len() as int) =~= out);
    } else {
        let s1 = stack.push(name);
        assert forall|x: Seq<char>| s1.contains(x) implies !#[trigger] out.contains(x) by {
            if x != name {
                let k = choose|k: int| 0 <= k < s1.len() && s1[k] == x;
                assert(stack[k] == x);
            }
        }
        let deps = deps_of(g, name);
        lemma_vm_index(g, name);
        lemma_visit_list_ok(g, deps, 0, s1, out, (fuel - 1) as nat);
        let o1 = visit_list(g, deps, 0, s1, out, (fuel - 1) as nat)->Some_0;
        let o = o1.push(name);
        assert(s1.contains(name)) by {
            assert(s1[stack.len() as int] == name);
        }
        assert(!o1.contains(name));
        // no duplicates
        assert forall|i: int, j: int| 0 <= i < j < o.len() implies #[trigger] o[i] != #[trigger] o[j] by {
            if j == o1.len() {
                assert(o1[i] == o[i]);
                if o[i] == name {
                    assert(o1.contains(name));
                }
            } else {
                assert(o[i] == o1[i] && o[j] == o1[j]);
            }
        }
        // dependencies come first
        assert forall|i: int, j: int|
            0 <= i < o.len() && 0 <= j < deps_of(g, o[i]).len() implies #[trigger] o.subrange(0, i).contains(
            #[trigger] deps_of(g, o[i])[j],
        ) by {
            if i == o1.len() {
                assert(o.subrange(0, i) =~= o1);
                assert(o[i] == name);
            } else {
                assert(o[i] == o1[i]);
                assert(o.subrange(0, i) =~= o1.subrange(0, i));
                assert(o1.subrange(0, i).contains(deps_of(g, o1[i])[j]));
            }
        }
        assert forall|i: int| 0 <= i < o.len() implies names(g).contains(#[trigger] o[i]) by {
            if i < o1.len() {
                assert(o[i] == o1[i]);
            }
        }
        assert forall|x: Seq<char>| stack.contains(x) implies !#[trigger] o.contains(x) by {
            let k = choose|k: int| 0 <= k < stack.len() && stack[k] == x;
            assert(s1[k] == x);
            assert(s1.contains(x));
            assert(!o1.contains(x));
            if x == name {
                assert(stack.contains(name));
            }
            if o.contains(x) {
                let m = choose|m: int| 0 <= m < o.len() && o[m] == x;
                if m < o1.len() {
                    assert(o1[m] == x);
                }
            }
        }
        assert(o.subrange(0, o1.len() as int) =~= o1);
        lemma_prefix_trans(out, o1, o);
        assert(o[o1.len() as int] == name);
    }
}

proof fn lemma_visit_list_ok(
    g: DepsView,
    deps: Seq<Seq<char>>,
    i: int,
    stack: Seq<Seq<char>>,
    out: Seq<Seq<char>>,
    fuel: nat,
)
    requires
        well_formed(g),
        0 <= i,
        forall|j: int| 0 <= j < deps.len() ==> names(g).contains(#[trigger] deps[j]),
        partial_order_ok(g, out, stack),
        visit_list(g, deps, i, stack, out, fuel) is Some,
    ensures
        ({
            let o = visit_list(g, deps, i, stack, out, fuel)->Some_0;
            &&& is_prefix(out, o)
            &&& partial_order_ok(g, o, stack)
            &&& forall|j: int| i <= j < deps.len() ==> o.contains(#[trigger] deps[j])
        }),
    decreases fuel, 1nat, deps.len() - i,
{
    if i >= deps.len() {
        assert(out.subrange(0, out.len() as int) =~= out);
    } else {
        lemma_visit_ok(g, deps[i], stack, out, fuel);
        let o1 = visit(g, deps[i], stack, out, fuel)->Some_0;
        lemma_visit_list_ok(g, deps, i + 1, stack, o1, fuel);
        let o = visit_list(g, deps, i + 1, stack, o1, fuel)->Some_0;
        lemma_prefix_trans(out, o1, o);
        lemma_prefix_contains(o1, o, deps[i]);
    }
}

proof fn lemma_vm_index(g: DepsView, name: Seq<char>)
    requires
        names(g).contains(name),
    ensures
        0 <= vm_index(g, name) < g.len(),
        g[vm_index(g, name)].0 == name,
    decreases g.len(),
{
    if g.last().0 != name {
        let k = choose|k: int| 0 <= k < names(g).len() && names(g)[k] == name;
        assert(k < g.len() - 1);
        assert(names(g.drop_last())[k] == name);
        lemma_vm_index(g.drop_last(), name);
    }
}

proof fn lemma_deps_known(g: DepsView, name: Seq<char>)
    requires
        well_formed(g),
        names(g).contains(name),
    ensures
        forall|j: int| 0 <= j < deps_of(g, name).len() ==> names(g).contains(#[trigger] deps_of(g, name)[j]),
{
    lemma_vm_index(g, name);
    let k = vm_index(g, name);
    assert forall|j: int| 0 <= j < deps_of(g, name).len() implies names(g).contains(#[trigger] deps_of(g, name)[j]) by {
        assert(deps_of(g, name)[j] == g[k].1[j]);
    }
}

proof fn lemma_roots_ok(g: DepsView, k: nat)
    requires
        well_formed(g),
        k <= g.len(),
        visit_roots(g, k) is Some,
    ensures
        partial_order_ok(g, visit_roots(g, k)->Some_0, Seq::empty()),
        forall|j: int| 0 <= j < k ==> visit_roots(g, k)->Some_0.contains(#[trigger] g[j].0),
    decreases k,
{
    if k == 0 {
    } else {
        lemma_roots_ok(g, (k - 1) as nat);
        let o1 = visit_roots(g, (k - 1) as nat)->Some_0;
        assert(names(g)[k - 1] == g[k - 1].0);
        lemma_visit_ok(g, g[k - 1].0, Seq::empty(), o1, g.len() as nat);
        let o = visit_roots(g, k)->Some_0;
        assert forall|j: int| 0 <= j < k implies o.contains(#[trigger] g[j].0) by {
            if j < k - 1 {
                lemma_prefix_contains(o1, o, g[j].0);
            }
        }
    }
}

/// A dependency order lists every VM exactly once and nothing else, and
/// puts each VM after all the VMs it depends on.
pub proof fn law_order_respects_dependencies(g: DepsView)
    requires
        well_formed(g),
        order_spec(g) is Some,
    ensures
        no_dups(order_spec(g)->Some_0),
        forall|x: Seq<char>| #[trigger] order_spec(g)->Some_0.contains(x) <==> names(g).contains(x),
        deps_before(g, order_spec(g)->Some_0),
{
    lemma_roots_ok(g, g.len() as nat);
    let o = order_spec(g)->Some_0;
    assert forall|x: Seq<char>| #[trigger] o.contains(x) <==> names(g).contains(x) by {
        if o.contains(x) {
            let k = choose|k: int| 0 <= k < o.len() && o[k] == x;
        }
        if names(g).contains(x) {
            let k = choose|k: int| 0 <= k < names(g).len() && names(g)[k] == x;
            assert(g[k].0 == x);
        }
    }
}

// ---------------------------------------------------------------------------
// A refused order means a dependency cycle

/// `p` goes round: it starts and ends at the same VM, and each VM on it
/// depends on the next.
pub open spec fn is_cycle(g: DepsView, p: Seq<Seq<char>>) -> bool {
    &&& p.len() >= 2
    &&& p[0] == p.last()
    &&& forall|k: int| 0 <= k < p.len() ==> names(g).contains(#[trigger] p[k])
    &&& forall|k: int| 0 <= k < p.len() - 1 ==> deps_of(g, #[trigger] p[k]).contains(p[k + 1])
}

pub open spec fn has_cycle(g: DepsView) -> bool {
    exists|p: Seq<Seq<char>>| is_cycle(g, p)
}

/// The path of VMs being visited: distinct VMs, each depending on the next.
pub open spec fn is_stack(g: DepsView, stack: Seq<Seq<char>>) -> bool {
    &&& stack.no_duplicates()
    &&& forall|k: int| 0 <= k < stack.len() ==> names(g).contains(#[trigger] stack[k])
    &&& forall|k: int| 0 <= k < stack.len() - 1 ==> deps_of(g, #[trigger] stack[k]).contains(stack[k + 1])
}

/// A path of distinct VMs as long as the list of VMs passes through every VM.
proof fn lemma_full_stack(g: DepsView, stack: Seq<Seq<char>>, name: Seq<char>)
    requires
        well_formed(g),
        is_stack(g, stack),
        stack.len() >= g.len(),
        names(g).contains(name),
    ensures
        stack.contains(name),
{
    if !stack.contains(name) {
        let ns = names(g).to_set();
        stack.unique_seq_to_set();
        names(g).lemma_cardinality_of_set();
        assert(ns.contains(name));
        assert(stack.to_set().subset_of(ns.remove(name))) by {
            assert forall|x: Seq<char>| stack.to_set().contains(x) implies ns.remove(name).contains(x) by {
                let k = choose|k: int| 0 <= k < stack.len() && stack[k] == x;
                assert(names(g).contains(stack[k]));
            }
        }
        vstd::set_lib::lemma_len_subset(stack.to_set(), ns.remove(name));
        assert(ns.remove(name).len() == ns.len() - 1);
        assert(false);
    }
}

proof fn lemma_visit_none(g: DepsView, name: Seq<char>, stack: Seq<Seq<char>>, out: Seq<Seq<char>>, fuel: nat)
    requires
        well_formed(g),
        names(g).contains(name),
        is_stack(g, stack),
        stack.len() + fuel >= g.len(),
        stack.len() > 0 ==> deps_of(g, stack.last()).contains(name),
        visit(g, name, stack, out, fuel) is None,
    ensures
        has_cycle(g),
    decreases fuel, 0nat, 0nat,
{
    if !stack.contains(name) && fuel == 0 {
        lemma_full_stack(g, stack, name);
    }
    if stack.contains(name) {
        let k = choose|k: int| 0 <= k < stack.len() && stack[k] == name;
        let p = stack.subrange(k, stack.len() as int).push(name);
        assert(p[0] == name);
        assert forall|m: int| 0 <= m < p.len() implies names(g).contains(#[trigger] p[m]) by {
            if m < p.len() - 1 {
                assert(p[m] == stack[k + m]);
            }
        }
        assert forall|m: int| 0 <= m < p.len() - 1 implies deps_of(g, #[trigger] p[m]).contains(p[m + 1]) by {
            assert(p[m] == stack[k + m]);
            if m < p.len() - 2 {
                assert(p[m + 1] == stack[k + m + 1]);
            } else {
                assert(stack[k + m] == stack.last());
            }
        }
        assert(is_cycle(g, p));
    } else {
        let s1 = stack.push(name);
        assert(s1.no_duplicates()) by {
            assert forall|i: int, j: int| 0 <= i < s1.len() && 0 <= j < s1.len() && i != j implies s1[i] != s1[j] by {
                if i == stack.len() {
                    assert(s1[j] == stack[j]);
                } else if j == stack.len() {
                    assert(s1[i] == stack[i]);
                } else {
                    assert(s1[i] == stack[i] && s1[j] == stack[j]);
                }
            }
        }
        assert forall|k: int| 0 <= k < s1.len() implies names(g).contains(#[trigger] s1[k]) by {
            if k < stack.len() {
                assert(s1[k] == stack[k]);
            }
        }
        assert forall|k: int| 0 <= k < s1.len() - 1 implies deps_of(g, #[trigger] s1[k]).contains(s1[k + 1]) by {
            assert(s1[k] == stack[k]);
            if k < stack.len() - 1 {
                assert(s1[k + 1] == stack[k + 1]);
            }
        }
        lemma_deps_known(g, name);
        lemma_visit_list_none(g, deps_of(g, name), 0, s1, out, (fuel - 1) as nat);
    }
}

proof fn lemma_visit_list_none(
    g: DepsView,
    deps: Seq<Seq<char>>,
    i: int,
    stack: Seq<Seq<char>>,
    out: Seq<Seq<char>>,
    fuel: nat,
)
    requires
        well_formed(g),
        0 <= i,
        stack.len() > 0,
        deps == deps_of(g, stack.last()),
        forall|j: int| 0 <= j < deps.len() ==> names(g).contains(#[trigger] deps[j]),
        is_stack(g, stack),
        stack.len() + fuel >= g.len(),
        visit_list(g, deps, i, stack, out, fuel) is None,
    ensures
        has_cycle(g),
    decreases fuel, 1nat, deps.len() - i,
{
    if i < deps.len() {
        assert(deps.contains(deps[i]));
        match visit(g, deps[i], stack, out, fuel) {
            None => {
                lemma_visit_none(g, deps[i], stack, out, fuel);
            },
            Some(o) => {
                lemma_visit_list_none(g, deps, i + 1, stack, o, fuel);
            },
        }
    }
}

proof fn lemma_roots_none(g: DepsView, k: nat)
    requires
        well_formed(g),
        k <= g.len(),
        visit_roots(g, k) is None,
    ensures
        has_cycle(g),
    decreases k,
{
    if k > 0 {
        match visit_roots(g, (k - 1) as nat) {
            None => {
                lemma_roots_none(g, (k - 1) as nat);
            },
            Some(o) => {
                assert(names(g)[k - 1] == g[k - 1].0);
                lemma_visit_none(g, g[k - 1].0, Seq::empty(), o, g.len() as nat);
            },
        }
    }
}

/// In an order, a VM that `x` depends on comes before `x`.
proof fn lemma_dep_earlier(g: DepsView, o: Seq<Seq<char>>, a: Seq<char>, b: Seq<char>, ia: int, ib: int)
    requires
        deps_before(g, o),
        no_dups(o),
        0 <= ia < o.len(),
        0 <= ib < o.len(),
        o[ia] == a,
        o[ib] == b,
        deps_of(g, a).contains(b),
    ensures
        ib < ia,
{
    let j = choose|j: int| 0 <= j < deps_of(g, a).len() && deps_of(g, a)[j] == b;
    assert(o.subrange(0, ia).contains(deps_of(g, o[ia])[j]));
    let m = choose|m: int| 0 <= m < o.subrange(0, ia).len() && o.subrange(0, ia)[m] == b;
    assert(o[m] == b);
    if m != ib {
        if m < ib {
            assert(o[m] != o[ib]);
        } else {
            assert(o[ib] != o[m]);
        }
    }
}

/// Along a path of dependencies that an order holds, positions fall.
proof fn lemma_path_falls(g: DepsView, o: Seq<Seq<char>>, p: Seq<Seq<char>>, n: int)
    requires
        deps_before(g, o),
        no_dups(o),
        1 <= n < p.len(),
        forall|k: int| 0 <= k < p.len() ==> #[trigger] o.contains(p[k]),
        forall|k: int| 0 <= k < p.len() - 1 ==> deps_of(g, #[trigger] p[k]).contains(p[k + 1]),
    ensures
        ({
            let i0 = choose|i: int| 0 <= i < o.len() && o[i] == p[0];
            let i_n = choose|i: int| 0 <= i < o.len() && o[i] == p[n];
            i_n < i0
        }),
    decreases n,
{
    assert(o.contains(p[0]));
    assert(o.contains(p[n]));
    assert(o.contains(p[n - 1]));
    let i_prev = choose|i: int| 0 <= i < o.len() && o[i] == p[n - 1];
    let i_n = choose|i: int| 0 <= i < o.len() && o[i] == p[n];
    assert(deps_of(g, p[n - 1]).contains(p[n]));
    lemma_dep_earlier(g, o, p[n - 1], p[n], i_prev, i_n);
    if n > 1 {
        lemma_path_falls(g, o, p, n - 1);
    }
}

/// The order is refused exactly when the dependencies of the VMs form a
/// cycle.
pub proof fn law_refused_exactly_on_cycles(g: DepsView)
    requires
        well_formed(g),
    ensures
        order_spec(g) is None <==> has_cycle(g),
{
    if order_spec(g) is None {
        lemma_roots_none(g, g.len() as nat);
    } else if has_cycle(g) {
        law_order_respects_dependencies(g);
        let o = order_spec(g)->Some_0;
        let p = choose|p: Seq<Seq<char>>| is_cycle(g, p);
        assert forall|k: int| 0 <= k < p.len() implies #[trigger] o.contains(p[k]) by {
            assert(names(g).contains(p[k]));
        }
        lemma_path_falls(g, o, p, p.len() - 1);
        assert(p[p.len() - 1] == p[0]);
    }
}

} // verus!
