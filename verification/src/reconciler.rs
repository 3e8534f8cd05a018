//! Reconciling a stack: the plan of actions that takes the actual resources to
//! the desired ones, and the sizes the configuration may give.
use crate::cli::{memory_spec, parse_memory_mib};
use crate::hash::{hex_bytes, sha256_hex, sha256_of};
use crate::network::{debug_quoted, debug_str};
use crate::order::{lemma_lex_asymmetric, lemma_lex_irreflexive, lemma_lex_total, lemma_lex_transitive, lex_lt, str_less};
use crate::text::{
    cat, cat3, decimal, digit_prefix, digit_prefix_len, lemma_digit_prefix, lower, owned, parse_unsigned,
    parse_unsigned_spec, slice, str_eq, strings_view, to_lower, u64_to_decimal,
};
use vstd::prelude::*;
use vstd::string::StringSliceAdditionalSpecFns;

verus! {

pub const EXIT_USAGE: u8 = 2;
pub const EXIT_INVALID: u8 = 3;
pub const EXIT_SUPERVISOR: u8 = 10;
/// Exit code of a journal that cannot be resumed.
pub const EXIT_INCOMPLETE: u8 = 5;
pub const EXIT_STEP: u8 = 24;

#[derive(Clone, Copy, Debug, PartialEq, Eq, Structural)]
pub enum Format {
    Human,
    Json,
}

/// How a run treats the difference between desired and actual resources.
#[derive(Clone, Copy, Debug, PartialEq, Eq, Structural)]
pub enum Mode {
    Plan,
    Diff,
    Up,
    Apply,
    Down,
    Adopt,
}

impl Mode {
    /// The command name of the mode.
    pub fn command(self) -> (r: &'static str)
        ensures
            r@ == match self {
                Mode::Plan => "plan"@,
                Mode::Diff => "diff"@,
                Mode::Up => "up"@,
                Mode::Apply => "apply"@,
                Mode::Down => "down"@,
                Mode::Adopt => "adopt"@,
            },
    {
        match self {
            Mode::Plan => "plan",
            Mode::Diff => "diff",
            Mode::Up => "up",
            Mode::Apply => "apply",
            Mode::Down => "down",
            Mode::Adopt => "adopt",
        }
    }
}

/// A failed command: its exit code and message.
#[derive(Debug)]
pub struct Failure {
    pub code: u8,
    pub message: String,
}

/// A managed resource: its kind and name identify it; its labels and state
/// describe it.
#[derive(Clone, Debug)]
pub struct Resource {
    pub kind: String,
    pub name: String,
    pub labels: Vec<(String, String)>,
    pub state: String,
}

pub struct ResourceView {
    pub kind: Seq<char>,
    pub name: Seq<char>,
    pub labels: Seq<(Seq<char>, Seq<char>)>,
    pub state: Seq<char>,
}

impl View for Resource {
    type V = ResourceView;

    open spec fn view(&self) -> ResourceView {
        ResourceView {
            kind: self.kind@,
            name: self.name@,
            labels: self.labels@.map_values(|e: (String, String)| (e.0@, e.1@)),
            state: self.state@,
        }
    }
}

pub open spec fn resources_view(s: Seq<Resource>) -> Seq<ResourceView> {
    s.map_values(|r: Resource| r@)
}

/// One step of a plan.
#[derive(Clone, Debug)]
pub struct PlanAction {
    pub action: &'static str,
    pub kind: String,
    pub name: String,
    pub breaking: bool,
    pub reason: String,
}

pub struct ActionView {
    pub action: Seq<char>,
    pub kind: Seq<char>,
    pub name: Seq<char>,
    pub breaking: bool,
    pub reason: Seq<char>,
}

impl PlanAction {
    /// A copy with the same contents.
    pub fn duplicate(&self) -> (r: PlanAction)
        ensures
            r@ == self@,
    {
        PlanAction {
            action: self.action,
            kind: self.kind.clone(),
            name: self.name.clone(),
            breaking: self.breaking,
            reason: self.reason.clone(),
        }
    }
}

impl View for PlanAction {
    type V = ActionView;

    open spec fn view(&self) -> ActionView {
        ActionView { action: self.action@, kind: self.kind@, name: self.name@, breaking: self.breaking, reason: self.reason@ }
    }
}

pub open spec fn actions_view(s: Seq<PlanAction>) -> Seq<ActionView> {
    s.map_values(|a: PlanAction| a@)
}

/// The actions of a run and the resources it wants.
#[derive(Debug)]
pub struct Plan {
    pub actions: Vec<PlanAction>,
    pub desired: Vec<Resource>,
}

/// The value of the last label named `key`, as a map built from the labels holds it.
pub open spec fn label_of(labels: Seq<(Seq<char>, Seq<char>)>, key: Seq<char>) -> Option<Seq<char>>
    decreases labels.len(),
{
    if labels.len() == 0 {
        None
    } else if labels.last().0 == key {
        Some(labels.last().1)
    } else {
        label_of(labels.drop_last(), key)
    }
}

/// Index of the last resource with this kind and name.
pub open spec fn last_with_key(s: Seq<ResourceView>, kind: Seq<char>, name: Seq<char>) -> Option<int>
    decreases s.len(),
{
    if s.len() == 0 {
        None
    } else if s.last().kind == kind && s.last().name == name {
        Some(s.len() - 1)
    } else {
        last_with_key(s.drop_last(), kind, name)
    }
}

/// The resource at `i` is the one that a map keyed by kind and name keeps.
pub open spec fn is_last_of_key(s: Seq<ResourceView>, i: int) -> bool {
    last_with_key(s, s[i].kind, s[i].name) == Some(i)
}

/// The resource that a map keyed by kind and name holds for this key.
pub open spec fn lookup(s: Seq<ResourceView>, kind: Seq<char>, name: Seq<char>) -> Option<ResourceView> {
    match last_with_key(s, kind, name) {
        Some(i) => Some(s[i]),
        None => None,
    }
}

pub open spec fn make_action(action: Seq<char>, kind: Seq<char>, name: Seq<char>, breaking: bool, reason: Seq<char>) -> ActionView {
    ActionView { action, kind, name, breaking, reason }
}

/// What a desired resource needs: creating when it is missing; updating when
/// its spec label differs (not in `up`, and breaking for networks and VMs);
/// starting when it is a stopped VM (not in `down`); else nothing.
pub open spec fn desired_action(mode: Mode, wanted: ResourceView, current: Option<ResourceView>) -> Option<ActionView> {
    match current {
        None => Some(make_action("create"@, wanted.kind, wanted.name, false, "missing from actual state"@)),
        Some(c) => if label_of(c.labels, "spec"@) != label_of(wanted.labels, "spec"@) && mode != Mode::Up {
            Some(
                make_action(
                    "update"@,
                    wanted.kind,
                    wanted.name,
                    wanted.kind == "network"@ || wanted.kind == "vm"@,
                    "desired spec differs from actual state"@,
                ),
            )
        } else if wanted.kind == "vm"@ && c.state == "stopped"@ && mode != Mode::Down {
            Some(make_action("start"@, wanted.kind, wanted.name, false, "VM is stopped"@))
        } else {
            None
        },
    }
}

/// The actions for the first `n` desired resources, one per kind and name.
pub open spec fn desired_actions(mode: Mode, desired: Seq<ResourceView>, actual: Seq<ResourceView>, n: int) -> Seq<ActionView>
    decreases n,
{
    if n <= 0 || n > desired.len() {
        Seq::empty()
    } else {
        let prev = desired_actions(mode, desired, actual, n - 1);
        let w = desired[n - 1];
        if is_last_of_key(desired, n - 1) {
            match desired_action(mode, w, lookup(actual, w.kind, w.name)) {
                Some(a) => prev.push(a),
                None => prev,
            }
        } else {
            prev
        }
    }
}

/// Deletions for the first `n` actual resources that nothing desired names;
/// `up` and `down` delete nothing.
pub open spec fn delete_actions(mode: Mode, desired: Seq<ResourceView>, actual: Seq<ResourceView>, n: int) -> Seq<ActionView>
    decreases n,
{
    if n <= 0 || n > actual.len() || mode == Mode::Up || mode == Mode::Down {
        Seq::empty()
    } else {
        let prev = delete_actions(mode, desired, actual, n - 1);
        let c = actual[n - 1];
        if is_last_of_key(actual, n - 1) && last_with_key(desired, c.kind, c.name).is_none() {
            prev.push(
                make_action("delete"@, c.kind, c.name, true, "managed resource absent from desired state"@),
            )
        } else {
            prev
        }
    }
}

/// In `down`, a stop for each desired VM among the first `n`.
pub open spec fn stop_actions(mode: Mode, desired: Seq<ResourceView>, n: int) -> Seq<ActionView>
    decreases n,
{
    if n <= 0 || n > desired.len() || mode != Mode::Down {
        Seq::empty()
    } else {
        let prev = stop_actions(mode, desired, n - 1);
        if desired[n - 1].kind == "vm"@ {
            prev.push(
                make_action("stop"@, "vm"@, desired[n - 1].name, false, "down stops VMs in reverse dependency order"@),
            )
        } else {
            prev
        }
    }
}

/// All actions of a plan, before they are ordered.
pub open spec fn plan_candidates(mode: Mode, desired: Seq<ResourceView>, actual: Seq<ResourceView>) -> Seq<ActionView> {
    desired_actions(mode, desired, actual, desired.len() as int) + delete_actions(mode, desired, actual, actual.len() as int)
        + stop_actions(mode, desired, desired.len() as int)
}

/// Plans are ordered by kind, then name, then action.
pub open spec fn action_lt(x: ActionView, y: ActionView) -> bool {
    ||| lex_lt(x.kind, y.kind)
    ||| (x.kind == y.kind && lex_lt(x.name, y.name))
    ||| (x.kind == y.kind && x.name == y.name && lex_lt(x.action, y.action))
}

pub open spec fn sorted_actions(s: Seq<ActionView>) -> bool {
    forall|i: int, j: int| 0 <= i < j < s.len() ==> !action_lt(#[trigger] s[j], #[trigger] s[i])
}

proof fn lemma_action_lt_transitive(x: ActionView, y: ActionView, z: ActionView)
    requires
        action_lt(x, y),
        action_lt(y, z),
    ensures
        action_lt(x, z),
{
    if lex_lt(x.kind, y.kind) && lex_lt(y.kind, z.kind) {
        lemma_lex_transitive(x.kind, y.kind, z.kind);
    }
    if x.kind == y.kind && y.kind == z.kind {
        if lex_lt(x.name, y.name) && lex_lt(y.name, z.name) {
            lemma_lex_transitive(x.name, y.name, z.name);
        }
        if x.name == y.name && y.name == z.name && lex_lt(x.action, y.action) && lex_lt(y.action, z.action) {
            lemma_lex_transitive(x.action, y.action, z.action);
        }
    }
}

proof fn lemma_action_lt_asymmetric(x: ActionView, y: ActionView)
    ensures
        !(action_lt(x, y) && action_lt(y, x)),
{
    lemma_lex_asymmetric(x.kind, y.kind);
    lemma_lex_asymmetric(x.name, y.name);
    lemma_lex_asymmetric(x.action, y.action);
    lemma_lex_irreflexive(x.kind);
    lemma_lex_irreflexive(x.name);
    lemma_lex_irreflexive(x.action);
}

fn action_less(x: &PlanAction, y: &PlanAction) -> (r: bool)
    ensures
        r == action_lt(x@, y@),
{
    if str_less(x.kind.as_str(), y.kind.as_str()) {
        return true;
    }
    if !str_eq(x.kind.as_str(), y.kind.as_str()) {
        return false;
    }
    if str_less(x.name.as_str(), y.name.as_str()) {
        return true;
    }
    if !str_eq(x.name.as_str(), y.name.as_str()) {
        return false;
    }
    str_less(x.action, y.action)
}

/// Inserts `x` after every action that does not sort after it.
fn insert_sorted(s: &mut Vec<PlanAction>, x: PlanAction)
    requires
        sorted_actions(actions_view(old(s)@)),
    ensures
        sorted_actions(actions_view(final(s)@)),
        actions_view(final(s)@).to_multiset() == actions_view(old(s)@).to_multiset().insert(x@),
{
    let ghost v = actions_view(s@);
    let mut p: usize = 0;
    while p < s.len() && !action_less(&x, &s[p])
        invariant
            p <= s@.len(),
            v == actions_view(s@),
            forall|k: int| 0 <= k < p ==> !action_lt(x@, #[trigger] v[k]),
        decreases s.len() - p,
    {
        p = p + 1;
    }
    let ghost xv = x@;
    s.insert(p, x);
    let ghost w = actions_view(s@);
    assert(w =~= v.insert(p as int, xv));
    proof {
        vstd::seq_lib::to_multiset_insert(v, p as int, xv);
        assert forall|i: int, j: int| 0 <= i < j < w.len() implies !action_lt(#[trigger] w[j], #[trigger] w[i]) by {
            if j < p {
                assert(w[i] == v[i] && w[j] == v[j]);
            } else if j == p {
                assert(w[i] == v[i]);
                assert(!action_lt(xv, v[i]));
            } else if i > p {
                assert(w[i] == v[i - 1] && w[j] == v[j - 1]);
            } else if i == p {
                assert(w[j] == v[j - 1]);
                assert(action_lt(xv, v[p as int]));
                if j - 1 > p {
                    assert(!action_lt(v[j - 1], v[p as int]));
                    lemma_action_total(v[j - 1], v[p as int]);
                    if action_lt(v[p as int], v[j - 1]) {
                        lemma_action_lt_transitive(xv, v[p as int], v[j - 1]);
                    }
                }
                lemma_action_lt_asymmetric(xv, v[j - 1]);
            } else {
                assert(w[i] == v[i] && w[j] == v[j - 1]);
            }
        }
    }
}

proof fn lemma_action_total(x: ActionView, y: ActionView)
    ensures
        action_lt(x, y) || action_lt(y, x) || (x.kind == y.kind && x.name == y.name && x.action == y.action),
{
    lemma_lex_total(x.kind, y.kind);
    lemma_lex_total(x.name, y.name);
    lemma_lex_total(x.action, y.action);
}

/// The actions ordered by kind, name and action; equal keys keep their order.
fn sort_actions(input: Vec<PlanAction>) -> (r: Vec<PlanAction>)
    ensures
        sorted_actions(actions_view(r@)),
        actions_view(r@).to_multiset() == actions_view(input@).to_multiset(),
{
    let ghost iv = actions_view(input@);
    let mut out: Vec<PlanAction> = Vec::new();
    let rest = input;
    proof {
        assert(actions_view(out@) =~= Seq::<ActionView>::empty());
        assert(iv.subrange(0, 0) =~= Seq::<ActionView>::empty());
    }
    let n = rest.len();
    let mut i: usize = 0;
    while i < n
        invariant
            n == iv.len(),
            rest@ == input@,
            iv == actions_view(input@),
            i <= n,
            sorted_actions(actions_view(out@)),
            actions_view(out@).to_multiset() == iv.subrange(0, i as int).to_multiset(),
        decreases n - i,
    {
        let x = rest[i].duplicate();
        insert_sorted(&mut out, x);
        proof {
            assert(iv.subrange(0, i + 1) =~= iv.subrange(0, i as int).push(iv[i as int]));
            vstd::seq_lib::to_multiset_build(iv.subrange(0, i as int), iv[i as int]);
        }
        i = i + 1;
    }
    assert(iv.subrange(0, n as int) =~= iv);
    out
}


pub open spec fn labels_view(l: Seq<(String, String)>) -> Seq<(Seq<char>, Seq<char>)> {
    l.map_values(|e: (String, String)| (e.0@, e.1@))
}

/// The value of the last label named `key`.
pub fn label_value<'a>(labels: &'a Vec<(String, String)>, key: &str) -> (r: Option<&'a String>)
    ensures
        match label_of(labels_view(labels@), key@) {
            Some(v) => r matches Some(x) && x@ == v,
            None => r is None,
        },
{
    let ghost lv = labels_view(labels@);
    let mut i: usize = labels.len();
    assert(lv.subrange(0, i as int) =~= lv);
    while i > 0
        invariant
            i <= labels@.len(),
            lv == labels_view(labels@),
            label_of(lv, key@) == label_of(lv.subrange(0, i as int), key@),
        decreases i,
    {
        let ghost pre = lv.subrange(0, i as int);
        assert(pre.drop_last() =~= lv.subrange(0, i - 1));
        assert(pre.last() == lv[i - 1]);
        if str_eq(labels[i - 1].0.as_str(), key) {
            return Some(&labels[i - 1].1);
        }
        i = i - 1;
    }
    assert(lv.subrange(0, 0) =~= Seq::<(Seq<char>, Seq<char>)>::empty());
    None
}

/// Index of the last resource with this kind and name.
pub fn last_index(s: &Vec<Resource>, kind: &str, name: &str) -> (r: Option<usize>)
    ensures
        match r {
            Some(k) => k < s@.len() && last_with_key(resources_view(s@), kind@, name@) == Some(k as int),
            None => last_with_key(resources_view(s@), kind@, name@) is None,
        },
{
    let ghost sv = resources_view(s@);
    let mut i: usize = s.len();
    assert(sv.subrange(0, i as int) =~= sv);
    while i > 0
        invariant
            i <= s@.len(),
            sv == resources_view(s@),
            last_with_key(sv, kind@, name@) == last_with_key(sv.subrange(0, i as int), kind@, name@),
        decreases i,
    {
        let ghost pre = sv.subrange(0, i as int);
        assert(pre.drop_last() =~= sv.subrange(0, i - 1));
        assert(pre.last() == sv[i - 1]);
        if str_eq(s[i - 1].kind.as_str(), kind) && str_eq(s[i - 1].name.as_str(), name) {
            return Some(i - 1);
        }
        i = i - 1;
    }
    assert(sv.subrange(0, 0) =~= Seq::<ResourceView>::empty());
    None
}

fn opt_str_eq(a: Option<&String>, b: Option<&String>) -> (r: bool)
    ensures
        r == (match a {
            Some(x) => Some(x@),
            None => None::<Seq<char>>,
        } == match b {
            Some(x) => Some(x@),
            None => None::<Seq<char>>,
        }),
{
    match (a, b) {
        (Some(x), Some(y)) => str_eq(x.as_str(), y.as_str()),
        (None, None) => true,
        _ => false,
    }
}

fn new_action(action: &'static str, kind: &str, name: &str, breaking: bool, reason: &str) -> (r: PlanAction)
    ensures
        r@ == make_action(action@, kind@, name@, breaking, reason@),
{
    PlanAction { action, kind: owned(kind), name: owned(name), breaking, reason: owned(reason) }
}

fn desired_action_exec(mode: Mode, wanted: &Resource, current: Option<&Resource>) -> (r: Option<PlanAction>)
    ensures
        match desired_action(
            mode,
            wanted@,
            match current {
                Some(c) => Some(c@),
                None => None,
            },
        ) {
            Some(a) => r matches Some(x) && x@ == a,
            None => r is None,
        },
{
    match current {
        None => Some(new_action("create", wanted.kind.as_str(), wanted.name.as_str(), false, "missing from actual state")),
        Some(c) => {
            let same = opt_str_eq(label_value(&c.labels, "spec"), label_value(&wanted.labels, "spec"));
            if !same && mode != Mode::Up {
                let breaking = str_eq(wanted.kind.as_str(), "network") || str_eq(wanted.kind.as_str(), "vm");
                Some(
                    new_action(
                        "update",
                        wanted.kind.as_str(),
                        wanted.name.as_str(),
                        breaking,
                        "desired spec differs from actual state",
                    ),
                )
            } else if str_eq(wanted.kind.as_str(), "vm") && str_eq(c.state.as_str(), "stopped") && mode != Mode::Down {
                Some(new_action("start", wanted.kind.as_str(), wanted.name.as_str(), false, "VM is stopped"))
            } else {
                None
            }
        },
    }
}

/// The plan that takes the `actual` resources to the `desired` ones: a
/// resource is known by its kind and name, and the last one of each key
/// counts; the actions come ordered by kind, name and action.
pub fn build_plan(mode: Mode, desired: Vec<Resource>, actual: Vec<Resource>) -> (r: Plan)
    ensures
        sorted_actions(actions_view(r.actions@)),
        actions_view(r.actions@).to_multiset() == plan_candidates(
            mode,
            resources_view(desired@),
            resources_view(actual@),
        ).to_multiset(),
        resources_view(r.desired@) == resources_view(desired@),
{
    let ghost dv = resources_view(desired@);
    let ghost av = resources_view(actual@);
    let mut cands: Vec<PlanAction> = Vec::new();
    let mut i: usize = 0;
    assert(actions_view(cands@) =~= desired_actions(mode, dv, av, 0));
    while i < desired.len()
        invariant
            i <= desired@.len(),
            dv == resources_view(desired@),
            av == resources_view(actual@),
            actions_view(cands@) == desired_actions(mode, dv, av, i as int),
        decreases desired.len() - i,
    {
        let w = &desired[i];
        assert(w@ == dv[i as int]);
        let ghost prev = actions_view(cands@);
        if last_index(&desired, w.kind.as_str(), w.name.as_str()) == Some(i) {
            let cur = match last_index(&actual, w.kind.as_str(), w.name.as_str()) {
                Some(k) => Some(&actual[k]),
                None => None,
            };
            match desired_action_exec(mode, w, cur) {
                Some(a) => {
                    let ghost ga = a@;
                    cands.push(a);
                    assert(actions_view(cands@) =~= prev.push(ga));
                },
                None => {},
            }
        }
        i = i + 1;
    }
    let ghost part1 = actions_view(cands@);
    let mut j: usize = 0;
    assert(actions_view(cands@) =~= part1 + delete_actions(mode, dv, av, 0));
    if mode != Mode::Up && mode != Mode::Down {
        while j < actual.len()
            invariant
                j <= actual@.len(),
                mode != Mode::Up && mode != Mode::Down,
                dv == resources_view(desired@),
                av == resources_view(actual@),
                actions_view(cands@) == part1 + delete_actions(mode, dv, av, j as int),
            decreases actual.len() - j,
        {
            let c = &actual[j];
            assert(c@ == av[j as int]);
            let ghost prev = delete_actions(mode, dv, av, j as int);
            if last_index(&actual, c.kind.as_str(), c.name.as_str()) == Some(j) && last_index(
                &desired,
                c.kind.as_str(),
                c.name.as_str(),
            ).is_none() {
                let a = new_action(
                    "delete",
                    c.kind.as_str(),
                    c.name.as_str(),
                    true,
                    "managed resource absent from desired state",
                );
                let ghost ga = a@;
                let ghost before = actions_view(cands@);
                cands.push(a);
                assert(actions_view(cands@) =~= before.push(ga));
                assert(before.push(ga) =~= part1 + prev.push(ga));
            }
            j = j + 1;
        }
    }
    assert(actions_view(cands@) == part1 + delete_actions(mode, dv, av, av.len() as int));
    let ghost part2 = actions_view(cands@);
    let mut k: usize = 0;
    assert(actions_view(cands@) =~= part2 + stop_actions(mode, dv, 0));
    if mode == Mode::Down {
        while k < desired.len()
            invariant
                k <= desired@.len(),
                mode == Mode::Down,
                dv == resources_view(desired@),
                actions_view(cands@) == part2 + stop_actions(mode, dv, k as int),
            decreases desired.len() - k,
        {
            let w = &desired[k];
            assert(w@ == dv[k as int]);
            let ghost prev = stop_actions(mode, dv, k as int);
            if str_eq(w.kind.as_str(), "vm") {
                let a = new_action("stop", "vm", w.name.as_str(), false, "down stops VMs in reverse dependency order");
                let ghost ga = a@;
                let ghost before = actions_view(cands@);
                cands.push(a);
                assert(actions_view(cands@) =~= before.push(ga));
                assert(before.push(ga) =~= part2 + prev.push(ga));
            }
            k = k + 1;
        }
    }
    assert(actions_view(cands@) == part2 + stop_actions(mode, dv, dv.len() as int));
    assert(actions_view(cands@) =~= plan_candidates(mode, dv, av));
    let actions = sort_actions(cands);
    Plan { actions, desired }
}


/// The kinds whose updates break running workloads.
pub open spec fn breaking_kind(kind: Seq<char>) -> bool {
    kind == "network"@ || kind == "vm"@
}

/// What every planned action satisfies in a mode: which actions the mode
/// allows, and that exactly deletions and updates of networks and VMs break.
pub open spec fn action_allowed(mode: Mode, x: ActionView) -> bool {
    &&& (x.action == "create"@ || x.action == "update"@ || x.action == "start"@ || x.action == "delete"@ || x.action
        == "stop"@)
    &&& (x.action == "update"@ ==> mode != Mode::Up)
    &&& (x.action == "start"@ ==> mode != Mode::Down && x.kind == "vm"@)
    &&& (x.action == "delete"@ ==> mode != Mode::Up && mode != Mode::Down)
    &&& (x.action == "stop"@ ==> mode == Mode::Down && x.kind == "vm"@)
    &&& x.breaking == (x.action == "delete"@ || (x.action == "update"@ && breaking_kind(x.kind)))
}

pub open spec fn all_allowed(mode: Mode, s: Seq<ActionView>) -> bool {
    forall|i: int| 0 <= i < s.len() ==> action_allowed(mode, #[trigger] s[i])
}

proof fn lemma_action_names_differ()
    ensures
        "create"@ != "update"@,
        "create"@ != "start"@,
        "create"@ != "delete"@,
        "create"@ != "stop"@,
        "update"@ != "start"@,
        "update"@ != "delete"@,
        "update"@ != "stop"@,
        "start"@ != "delete"@,
        "start"@ != "stop"@,
        "delete"@ != "stop"@,
{
    reveal_strlit("create");
    reveal_strlit("update");
    reveal_strlit("start");
    reveal_strlit("delete");
    reveal_strlit("stop");
    assert("create"@[0] != "update"@[0]);
    assert("create"@[0] != "start"@[0]);
    assert("create"@[0] != "delete"@[0]);
    assert("create"@[0] != "stop"@[0]);
    assert("update"@[0] != "start"@[0]);
    assert("update"@[0] != "delete"@[0]);
    assert("update"@[0] != "stop"@[0]);
    assert("start"@[0] != "delete"@[0]);
    assert("start"@[3] != "stop"@[3]);
    assert("delete"@[0] != "stop"@[0]);
}

proof fn lemma_desired_allowed(mode: Mode, d: Seq<ResourceView>, a: Seq<ResourceView>, n: int)
    ensures
        all_allowed(mode, desired_actions(mode, d, a, n)),
    decreases n,
{
    lemma_action_names_differ();
    if 0 < n <= d.len() {
        lemma_desired_allowed(mode, d, a, n - 1);
        let prev = desired_actions(mode, d, a, n - 1);
        let w = d[n - 1];
        match desired_action(mode, w, lookup(a, w.kind, w.name)) {
            Some(x) => {
                assert(action_allowed(mode, x));
                assert forall|i: int| 0 <= i < prev.push(x).len() implies action_allowed(mode, #[trigger] prev.push(x)[i]) by {
                    if i < prev.len() {
                        assert(prev.push(x)[i] == prev[i]);
                    }
                }
            },
            None => {},
        }
    }
}

proof fn lemma_delete_allowed(mode: Mode, d: Seq<ResourceView>, a: Seq<ResourceView>, n: int)
    ensures
        all_allowed(mode, delete_actions(mode, d, a, n)),
    decreases n,
{
    lemma_action_names_differ();
    if 0 < n <= a.len() && mode != Mode::Up && mode != Mode::Down {
        lemma_delete_allowed(mode, d, a, n - 1);
        let prev = delete_actions(mode, d, a, n - 1);
        let c = a[n - 1];
        let x = make_action("delete"@, c.kind, c.name, true, "managed resource absent from desired state"@);
        assert(action_allowed(mode, x));
        assert forall|i: int| 0 <= i < prev.push(x).len() implies action_allowed(mode, #[trigger] prev.push(x)[i]) by {
            if i < prev.len() {
                assert(prev.push(x)[i] == prev[i]);
            }
        }
    }
}

proof fn lemma_stop_allowed(mode: Mode, d: Seq<ResourceView>, n: int)
    ensures
        all_allowed(mode, stop_actions(mode, d, n)),
    decreases n,
{
    lemma_action_names_differ();
    if 0 < n <= d.len() && mode == Mode::Down {
        lemma_stop_allowed(mode, d, n - 1);
        let prev = stop_actions(mode, d, n - 1);
        let x = make_action("stop"@, "vm"@, d[n - 1].name, false, "down stops VMs in reverse dependency order"@);
        assert(action_allowed(mode, x));
        assert forall|i: int| 0 <= i < prev.push(x).len() implies action_allowed(mode, #[trigger] prev.push(x)[i]) by {
            if i < prev.len() {
                assert(prev.push(x)[i] == prev[i]);
            }
        }
    }
}

/// Every action of a plan is one its mode allows: `up` only creates,
/// updates nothing and deletes nothing; only `down` stops, and it deletes
/// nothing; only `down` starts nothing; exactly deletions and updates of
/// networks and VMs are breaking. `actions` is any ordering of the plan.
pub proof fn law_plan_actions_fit_mode(
    mode: Mode,
    desired: Seq<ResourceView>,
    actual: Seq<ResourceView>,
    actions: Seq<ActionView>,
)
    requires
        actions.to_multiset() == plan_candidates(mode, desired, actual).to_multiset(),
    ensures
        all_allowed(mode, actions),
{
    let c = plan_candidates(mode, desired, actual);
    let p1 = desired_actions(mode, desired, actual, desired.len() as int);
    let p2 = delete_actions(mode, desired, actual, actual.len() as int);
    let p3 = stop_actions(mode, desired, desired.len() as int);
    lemma_desired_allowed(mode, desired, actual, desired.len() as int);
    lemma_delete_allowed(mode, desired, actual, actual.len() as int);
    lemma_stop_allowed(mode, desired, desired.len() as int);
    assert(all_allowed(mode, c)) by {
        assert forall|i: int| 0 <= i < c.len() implies action_allowed(mode, #[trigger] c[i]) by {
            if i < p1.len() {
                assert(c[i] == p1[i]);
            } else if i < p1.len() + p2.len() {
                assert(c[i] == p2[i - p1.len()]);
            } else {
                assert(c[i] == p3[i - p1.len() - p2.len()]);
            }
        }
    }
    assert forall|i: int| 0 <= i < actions.len() implies action_allowed(mode, #[trigger] actions[i]) by {
        broadcast use vstd::seq_lib::to_multiset_contains;
        assert(actions.contains(actions[i]));
        assert(actions.to_multiset().count(actions[i]) > 0);
        assert(c.contains(actions[i]));
        let k = choose|k: int| 0 <= k < c.len() && c[k] == actions[i];
        assert(action_allowed(mode, c[k]));
    }
}

proof fn lemma_last_with_key_found(s: Seq<ResourceView>, kind: Seq<char>, name: Seq<char>)
    ensures
        match last_with_key(s, kind, name) {
            Some(k) => 0 <= k < s.len() && s[k].kind == kind && s[k].name == name,
            None => forall|i: int| 0 <= i < s.len() ==> !(#[trigger] s[i].kind == kind && s[i].name == name),
        },
    decreases s.len(),
{
    if s.len() > 0 {
        lemma_last_with_key_found(s.drop_last(), kind, name);
        if !(s.last().kind == kind && s.last().name == name) {
            match last_with_key(s.drop_last(), kind, name) {
                Some(k) => {
                    assert(s[k] == s.drop_last()[k]);
                },
                None => {
                    assert forall|i: int| 0 <= i < s.len() implies !(#[trigger] s[i].kind == kind && s[i].name == name) by {
                        if i < s.len() - 1 {
                            assert(s[i] == s.drop_last()[i]);
                        }
                    }
                },
            }
        }
    }
}

proof fn lemma_desired_same_empty(mode: Mode, d: Seq<ResourceView>, n: int)
    requires
        forall|i: int| 0 <= i < d.len() && (#[trigger] d[i]).kind == "vm"@ ==> d[i].state != "stopped"@,
    ensures
        desired_actions(mode, d, d, n) == Seq::<ActionView>::empty(),
    decreases n,
{
    if 0 < n <= d.len() {
        lemma_desired_same_empty(mode, d, n - 1);
        let w = d[n - 1];
        if is_last_of_key(d, n - 1) {
            assert(lookup(d, w.kind, w.name) == Some(w));
        }
    }
}

proof fn lemma_delete_same_empty(mode: Mode, d: Seq<ResourceView>, n: int)
    ensures
        delete_actions(mode, d, d, n) == Seq::<ActionView>::empty(),
    decreases n,
{
    if 0 < n <= d.len() && mode != Mode::Up && mode != Mode::Down {
        lemma_delete_same_empty(mode, d, n - 1);
        let c = d[n - 1];
        lemma_last_with_key_found(d, c.kind, c.name);
    }
}

/// A stack whose actual resources are its desired ones needs no action, as
/// long as no VM in it is stopped, in every mode but `down`.
pub proof fn law_same_state_needs_no_change(mode: Mode, resources: Seq<ResourceView>)
    requires
        mode != Mode::Down,
        forall|i: int| 0 <= i < resources.len() && (#[trigger] resources[i]).kind == "vm"@ ==> resources[i].state != "stopped"@,
    ensures
        plan_candidates(mode, resources, resources) == Seq::<ActionView>::empty(),
{
    lemma_desired_same_empty(mode, resources, resources.len() as int);
    lemma_delete_same_empty(mode, resources, resources.len() as int);
    assert(plan_candidates(mode, resources, resources) =~= Seq::<ActionView>::empty());
}

proof fn lemma_desired_actions_hold(mode: Mode, desired: Seq<ResourceView>, actual: Seq<ResourceView>, n: int, i: int)
    requires
        0 <= i < n <= desired.len(),
        is_last_of_key(desired, i),
        desired_action(mode, desired[i], lookup(actual, desired[i].kind, desired[i].name)) is Some,
    ensures
        desired_actions(mode, desired, actual, n).contains(
            desired_action(mode, desired[i], lookup(actual, desired[i].kind, desired[i].name)).unwrap(),
        ),
    decreases n,
{
    let prev = desired_actions(mode, desired, actual, n - 1);
    if i < n - 1 {
        lemma_desired_actions_hold(mode, desired, actual, n - 1, i);
        let k = choose|k: int| 0 <= k < prev.len() && prev[k] == desired_action(
            mode,
            desired[i],
            lookup(actual, desired[i].kind, desired[i].name),
        ).unwrap();
        let w = desired[n - 1];
        if is_last_of_key(desired, n - 1) {
            if let Some(a) = desired_action(mode, w, lookup(actual, w.kind, w.name)) {
                assert(prev.push(a)[k] == prev[k]);
            }
        }
    } else {
        let a = desired_action(mode, desired[i], lookup(actual, desired[i].kind, desired[i].name)).unwrap();
        assert(prev.push(a)[prev.len() as int] == a);
    }
}

proof fn lemma_desired_actions_from(mode: Mode, desired: Seq<ResourceView>, actual: Seq<ResourceView>, n: int)
    requires
        n <= desired.len(),
    ensures
        forall|j: int|
            #![trigger desired_actions(mode, desired, actual, n)[j]]
            0 <= j < desired_actions(mode, desired, actual, n).len() ==> exists|m: int|
                0 <= m < n && is_last_of_key(desired, m) && #[trigger] desired_action(
                    mode,
                    desired[m],
                    lookup(actual, desired[m].kind, desired[m].name),
                ) == Some(desired_actions(mode, desired, actual, n)[j]),
    decreases n,
{
    if n > 0 {
        lemma_desired_actions_from(mode, desired, actual, n - 1);
        let prev = desired_actions(mode, desired, actual, n - 1);
        let cur = desired_actions(mode, desired, actual, n);
        assert forall|j: int| #![trigger cur[j]] 0 <= j < cur.len() implies exists|m: int|
            0 <= m < n && is_last_of_key(desired, m) && #[trigger] desired_action(
                mode,
                desired[m],
                lookup(actual, desired[m].kind, desired[m].name),
            ) == Some(cur[j]) by {
            if j < prev.len() {
                assert(cur[j] == prev[j]);
                let m = choose|m: int|
                    0 <= m < n - 1 && is_last_of_key(desired, m) && #[trigger] desired_action(
                        mode,
                        desired[m],
                        lookup(actual, desired[m].kind, desired[m].name),
                    ) == Some(prev[j]);
                assert(desired_action(mode, desired[m], lookup(actual, desired[m].kind, desired[m].name)) == Some(cur[j]));
            } else {
                let m = n - 1;
                assert(desired_action(mode, desired[m], lookup(actual, desired[m].kind, desired[m].name)) == Some(cur[j]));
            }
        }
    }
}

proof fn lemma_delete_actions_are_deletes(mode: Mode, desired: Seq<ResourceView>, actual: Seq<ResourceView>, n: int)
    ensures
        forall|j: int|
            0 <= j < delete_actions(mode, desired, actual, n).len() ==> (#[trigger] delete_actions(mode, desired, actual, n)[j]).action
                == "delete"@ && last_with_key(desired, delete_actions(mode, desired, actual, n)[j].kind, delete_actions(mode, desired, actual, n)[j].name) is None,
        mode == Mode::Up || mode == Mode::Down ==> delete_actions(mode, desired, actual, n).len() == 0,
    decreases n,
{
    if n > 0 && n <= actual.len() && mode != Mode::Up && mode != Mode::Down {
        lemma_delete_actions_are_deletes(mode, desired, actual, n - 1);
        let prev = delete_actions(mode, desired, actual, n - 1);
        let cur = delete_actions(mode, desired, actual, n);
        assert forall|j: int| 0 <= j < cur.len() implies (#[trigger] cur[j]).action == "delete"@ && last_with_key(
            desired,
            cur[j].kind,
            cur[j].name,
        ) is None by {
            if j < prev.len() {
                assert(cur[j] == prev[j]);
            }
        }
    }
}

proof fn lemma_stop_actions_are_stops(mode: Mode, desired: Seq<ResourceView>, n: int)
    ensures
        forall|j: int| 0 <= j < stop_actions(mode, desired, n).len() ==> (#[trigger] stop_actions(mode, desired, n)[j]).action == "stop"@,
        mode != Mode::Down ==> stop_actions(mode, desired, n).len() == 0,
    decreases n,
{
    if n > 0 && n <= desired.len() && mode == Mode::Down {
        lemma_stop_actions_are_stops(mode, desired, n - 1);
        let prev = stop_actions(mode, desired, n - 1);
        let cur = stop_actions(mode, desired, n);
        assert forall|j: int| 0 <= j < cur.len() implies (#[trigger] cur[j]).action == "stop"@ by {
            if j < prev.len() {
                assert(cur[j] == prev[j]);
            }
        }
    }
}

/// `down` never starts anything, and `up` never updates anything.
pub proof fn law_down_starts_nothing_up_updates_nothing(
    mode: Mode,
    desired: Seq<ResourceView>,
    actual: Seq<ResourceView>,
    j: int,
)
    requires
        0 <= j < plan_candidates(mode, desired, actual).len(),
    ensures
        mode == Mode::Down ==> plan_candidates(mode, desired, actual)[j].action != "start"@,
        mode == Mode::Up ==> plan_candidates(mode, desired, actual)[j].action != "update"@,
{
    reveal_strlit("start");
    reveal_strlit("stop");
    reveal_strlit("update");
    reveal_strlit("delete");
    reveal_strlit("create");
    assert("create"@ != "start"@ && "update"@ != "start"@ && "delete"@ != "start"@ && "stop"@ != "start"@) by {
        assert("create"@[0] != "start"@[0]);
        assert("update"@[0] != "start"@[0]);
        assert("delete"@[0] != "start"@[0]);
        assert("stop"@.len() != "start"@.len());
    }
    assert("create"@ != "update"@ && "start"@ != "update"@ && "delete"@ != "update"@ && "stop"@ != "update"@) by {
        assert("create"@[0] != "update"@[0]);
        assert("start"@[0] != "update"@[0]);
        assert("delete"@[0] != "update"@[0]);
        assert("stop"@.len() != "update"@.len());
    }
    let d = desired_actions(mode, desired, actual, desired.len() as int);
    let x = delete_actions(mode, desired, actual, actual.len() as int);
    let t = stop_actions(mode, desired, desired.len() as int);
    lemma_desired_actions_from(mode, desired, actual, desired.len() as int);
    lemma_delete_actions_are_deletes(mode, desired, actual, actual.len() as int);
    lemma_stop_actions_are_stops(mode, desired, desired.len() as int);
    let all = d + x + t;
    if j < d.len() {
        assert(all[j] == d[j]);
        let m = choose|m: int|
            0 <= m < desired.len() && is_last_of_key(desired, m) && #[trigger] desired_action(
                mode,
                desired[m],
                lookup(actual, desired[m].kind, desired[m].name),
            ) == Some(d[j]);
        assert(d[j].action == "create"@ || d[j].action == "update"@ && mode != Mode::Up || d[j].action == "start"@
            && mode != Mode::Down);
    } else if j < d.len() + x.len() {
        assert(all[j] == x[j - d.len()]);
    } else {
        assert(all[j] == t[j - d.len() - x.len()]);
    }
}

/// The plan holds, for a desired resource, only what `desired_action` asks
/// for it: outside `down`, an action on a desired resource's kind and name
/// comes from that resource alone.
pub proof fn law_one_action_per_desired_resource(
    mode: Mode,
    desired: Seq<ResourceView>,
    actual: Seq<ResourceView>,
    i: int,
    j: int,
)
    requires
        mode != Mode::Down,
        0 <= i < desired.len(),
        is_last_of_key(desired, i),
        0 <= j < plan_candidates(mode, desired, actual).len(),
        plan_candidates(mode, desired, actual)[j].kind == desired[i].kind,
        plan_candidates(mode, desired, actual)[j].name == desired[i].name,
    ensures
        desired_action(mode, desired[i], lookup(actual, desired[i].kind, desired[i].name)) == Some(
            plan_candidates(mode, desired, actual)[j],
        ),
{
    let d = desired_actions(mode, desired, actual, desired.len() as int);
    let x = delete_actions(mode, desired, actual, actual.len() as int);
    let t = stop_actions(mode, desired, desired.len() as int);
    lemma_desired_actions_from(mode, desired, actual, desired.len() as int);
    lemma_delete_actions_are_deletes(mode, desired, actual, actual.len() as int);
    lemma_stop_actions_are_stops(mode, desired, desired.len() as int);
    let all = d + x + t;
    if j < d.len() {
        assert(all[j] == d[j]);
        let m = choose|m: int|
            0 <= m < desired.len() && is_last_of_key(desired, m) && #[trigger] desired_action(
                mode,
                desired[m],
                lookup(actual, desired[m].kind, desired[m].name),
            ) == Some(d[j]);
        let w = desired[m];
        assert(d[j].kind == w.kind && d[j].name == w.name);
        assert(last_with_key(desired, w.kind, w.name) == Some(m));
        assert(last_with_key(desired, desired[i].kind, desired[i].name) == Some(i));
    } else if j < d.len() + x.len() {
        assert(all[j] == x[j - d.len()]);
        assert(last_with_key(desired, desired[i].kind, desired[i].name) == Some(i));
    } else {
        assert(all[j] == t[j - d.len() - x.len()]);
    }
}

proof fn lemma_candidates_hold(mode: Mode, desired: Seq<ResourceView>, actual: Seq<ResourceView>, i: int, a: ActionView)
    requires
        0 <= i < desired.len(),
        is_last_of_key(desired, i),
        desired_action(mode, desired[i], lookup(actual, desired[i].kind, desired[i].name)) == Some(a),
    ensures
        plan_candidates(mode, desired, actual).contains(a),
{
    lemma_desired_actions_hold(mode, desired, actual, desired.len() as int, i);
    let d = desired_actions(mode, desired, actual, desired.len() as int);
    let rest = delete_actions(mode, desired, actual, actual.len() as int);
    let stops = stop_actions(mode, desired, desired.len() as int);
    let j = choose|j: int| 0 <= j < d.len() && d[j] == a;
    assert((d + rest + stops)[j] == a);
}

/// In every mode, a desired resource that the actual state lacks is created.
pub proof fn law_missing_resource_is_created(mode: Mode, desired: Seq<ResourceView>, actual: Seq<ResourceView>, i: int)
    requires
        0 <= i < desired.len(),
        is_last_of_key(desired, i),
        last_with_key(actual, desired[i].kind, desired[i].name) is None,
    ensures
        plan_candidates(mode, desired, actual).contains(
            ActionView {
                action: "create"@,
                kind: desired[i].kind,
                name: desired[i].name,
                breaking: false,
                reason: "missing from actual state"@,
            },
        ),
{
    lemma_candidates_hold(
        mode,
        desired,
        actual,
        i,
        ActionView {
            action: "create"@,
            kind: desired[i].kind,
            name: desired[i].name,
            breaking: false,
            reason: "missing from actual state"@,
        },
    );
}

/// In every mode but `up`, a desired resource whose actual spec label differs
/// from the wanted one is updated, and the update is breaking exactly for
/// networks and VMs.
pub proof fn law_changed_spec_is_updated(mode: Mode, desired: Seq<ResourceView>, actual: Seq<ResourceView>, i: int, k: int)
    requires
        mode != Mode::Up,
        0 <= i < desired.len(),
        is_last_of_key(desired, i),
        0 <= k < actual.len(),
        last_with_key(actual, desired[i].kind, desired[i].name) == Some(k),
        label_of(actual[k].labels, "spec"@) != label_of(desired[i].labels, "spec"@),
    ensures
        plan_candidates(mode, desired, actual).contains(
            ActionView {
                action: "update"@,
                kind: desired[i].kind,
                name: desired[i].name,
                breaking: desired[i].kind == "network"@ || desired[i].kind == "vm"@,
                reason: "desired spec differs from actual state"@,
            },
        ),
{
    lemma_candidates_hold(
        mode,
        desired,
        actual,
        i,
        ActionView {
            action: "update"@,
            kind: desired[i].kind,
            name: desired[i].name,
            breaking: desired[i].kind == "network"@ || desired[i].kind == "vm"@,
            reason: "desired spec differs from actual state"@,
        },
    );
}

/// In every mode but `down`, a desired VM that exists with the spec it is
/// wanted with but is stopped gets exactly one thing done to it in the plan:
/// it is started, for the reason that it is stopped.
pub proof fn law_stopped_vm_is_started(
    mode: Mode,
    desired: Seq<ResourceView>,
    actual: Seq<ResourceView>,
    name: Seq<char>,
    i: int,
    k: int,
)
    requires
        mode != Mode::Down,
        0 <= i < desired.len(),
        desired[i].kind == "vm"@,
        desired[i].name == name,
        last_with_key(desired, "vm"@, name) == Some(i),
        0 <= k < actual.len(),
        last_with_key(actual, "vm"@, name) == Some(k),
        actual[k].state == "stopped"@,
        label_of(actual[k].labels, "spec"@) == label_of(desired[i].labels, "spec"@),
    ensures
        plan_candidates(mode, desired, actual).contains(
            ActionView { action: "start"@, kind: "vm"@, name, breaking: false, reason: "VM is stopped"@ },
        ),
{
    let a = ActionView { action: "start"@, kind: "vm"@, name, breaking: false, reason: "VM is stopped"@ };
    lemma_desired_actions_hold(mode, desired, actual, desired.len() as int, i);
    let d = desired_actions(mode, desired, actual, desired.len() as int);
    let rest = delete_actions(mode, desired, actual, actual.len() as int);
    let stops = stop_actions(mode, desired, desired.len() as int);
    let j = choose|j: int| 0 <= j < d.len() && d[j] == a;
    assert((d + rest + stops)[j] == a);
}

/// In a sorted plan every action sorts before each later one by kind, name
/// and action, unless the two agree in all three.
pub proof fn law_plan_order_is_by_key(actions: Seq<ActionView>, i: int, j: int)
    requires
        sorted_actions(actions),
        0 <= i < j < actions.len(),
    ensures
        action_lt(actions[i], actions[j]) || (actions[i].kind == actions[j].kind && actions[i].name == actions[j].name
            && actions[i].action == actions[j].action),
{
    lemma_action_total(actions[i], actions[j]);
}

/// What a data disk size is in GiB: decimal digits followed by a unit of
/// G, GB or GiB, or of T, TB or TiB (times 1024), in any case.
pub open spec fn data_disk_spec(s: Seq<char>) -> Result<u64, Seq<char>> {
    let k = digit_prefix_len(s) as int;
    if k == s.len() {
        Err("invalid dataDisk: "@ + s)
    } else {
        match parse_unsigned_spec(s.subrange(0, k), u64::MAX as nat) {
            None => Err("invalid dataDisk: "@ + s),
            Some(n) => {
                let unit = lower(s.subrange(k, s.len() as int));
                if unit == "g"@ || unit == "gb"@ || unit == "gib"@ {
                    Ok(n as u64)
                } else if unit == "t"@ || unit == "tb"@ || unit == "tib"@ {
                    if n * 1024 <= u64::MAX {
                        Ok((n * 1024) as u64)
                    } else {
                        Err("dataDisk is too large"@)
                    }
                } else {
                    Err("dataDisk must use GiB/TiB for VM creation: "@ + s)
                }
            },
        }
    }
}

/// Reads a data disk size in GiB.
pub fn data_disk_gib(value: &str) -> (r: Result<u64, Failure>)
    ensures
        match data_disk_spec(value@) {
            Ok(n) => r == Ok::<u64, Failure>(n),
            Err(m) => r matches Err(f) && f.code == EXIT_INVALID && f.message@ == m,
        },
{
    let n = value.unicode_len();
    let k = digit_prefix(value);
    proof {
        lemma_digit_prefix(value@);
    }
    if k == n {
        return Err(Failure { code: EXIT_INVALID, message: cat("invalid dataDisk: ", value) });
    }
    let digits = slice(value, 0, k);
    let number = match parse_unsigned(digits.as_str(), u64::MAX) {
        Some(v) => v,
        None => return Err(Failure { code: EXIT_INVALID, message: cat("invalid dataDisk: ", value) }),
    };
    let rest = slice(value, k, n);
    let unit = to_lower(rest.as_str());
    let u = unit.as_str();
    if str_eq(u, "g") || str_eq(u, "gb") || str_eq(u, "gib") {
        Ok(number)
    } else if str_eq(u, "t") || str_eq(u, "tb") || str_eq(u, "tib") {
        match number.checked_mul(1024) {
            Some(v) => Ok(v),
            None => Err(Failure { code: EXIT_INVALID, message: owned("dataDisk is too large") }),
        }
    } else {
        Err(Failure { code: EXIT_INVALID, message: cat("dataDisk must use GiB/TiB for VM creation: ", value) })
    }
}

/// What a reconcile command was asked to do.
pub struct Options {
    pub mode: Mode,
    pub config: String,
    pub format: Format,
    pub force: bool,
    pub resume: bool,
    pub abort: bool,
    pub purge: bool,
}

pub struct OptionsView {
    pub mode: Mode,
    pub config: Seq<char>,
    pub format: Format,
    pub force: bool,
    pub resume: bool,
    pub abort: bool,
    pub purge: bool,
}

pub open spec fn mode_of(name: Seq<char>) -> Option<Mode> {
    if name == "plan"@ {
        Some(Mode::Plan)
    } else if name == "diff"@ {
        Some(Mode::Diff)
    } else if name == "up"@ {
        Some(Mode::Up)
    } else if name == "apply"@ {
        Some(Mode::Apply)
    } else if name == "down"@ {
        Some(Mode::Down)
    } else if name == "adopt"@ {
        Some(Mode::Adopt)
    } else {
        None
    }
}

pub open spec fn mode_name(mode: Mode) -> Seq<char> {
    match mode {
        Mode::Plan => "plan"@,
        Mode::Diff => "diff"@,
        Mode::Up => "up"@,
        Mode::Apply => "apply"@,
        Mode::Down => "down"@,
        Mode::Adopt => "adopt"@,
    }
}

/// The options of the arguments from `i` on, given what was read before;
/// each flag is known only to the modes it applies to.
pub open spec fn scan_reconcile(args: Seq<Seq<char>>, i: int, o: OptionsView) -> Result<OptionsView, (u8, Seq<char>)>
    decreases args.len() - i,
{
    if i >= args.len() || i < 0 {
        if o.resume && o.abort {
            Err((EXIT_INVALID, "apply accepts only one of --resume or --abort"@))
        } else {
            Ok(o)
        }
    } else {
        let a = args[i];
        if a == "-C"@ || a == "--config"@ {
            if i + 1 < args.len() {
                scan_reconcile(args, i + 2, OptionsView { config: args[i + 1], ..o })
            } else {
                Err((EXIT_USAGE, "-C requires a path"@))
            }
        } else if a == "--format"@ {
            if i + 1 < args.len() && args[i + 1] == "human"@ {
                scan_reconcile(args, i + 2, OptionsView { format: Format::Human, ..o })
            } else if i + 1 < args.len() && args[i + 1] == "json"@ {
                scan_reconcile(args, i + 2, OptionsView { format: Format::Json, ..o })
            } else {
                Err((EXIT_USAGE, "--format requires human or json"@))
            }
        } else if a == "--force"@ && (o.mode == Mode::Apply || o.mode == Mode::Up) {
            scan_reconcile(args, i + 1, OptionsView { force: true, ..o })
        } else if a == "--resume"@ && o.mode == Mode::Apply {
            scan_reconcile(args, i + 1, OptionsView { resume: true, ..o })
        } else if a == "--abort"@ && o.mode == Mode::Apply {
            scan_reconcile(args, i + 1, OptionsView { abort: true, ..o })
        } else if a == "--purge"@ && o.mode == Mode::Down {
            scan_reconcile(args, i + 1, OptionsView { purge: true, ..o })
        } else {
            Err((EXIT_USAGE, "unknown "@ + mode_name(o.mode) + " option: "@ + a))
        }
    }
}

pub open spec fn reconcile_spec(mode: Seq<char>, args: Seq<Seq<char>>) -> Result<OptionsView, (u8, Seq<char>)> {
    match mode_of(mode) {
        None => Err((EXIT_USAGE, "unknown reconcile command"@)),
        Some(m) => scan_reconcile(
            args,
            0,
            OptionsView {
                mode: m,
                config: "."@,
                format: Format::Human,
                force: false,
                resume: false,
                abort: false,
                purge: false,
            },
        ),
    }
}

pub open spec fn reconcile_options_view(o: Options) -> OptionsView {
    OptionsView {
        mode: o.mode,
        config: o.config@,
        format: o.format,
        force: o.force,
        resume: o.resume,
        abort: o.abort,
        purge: o.purge,
    }
}

/// Reads the options of a reconcile command (`plan`, `diff`, `up`, `apply`, `down`, `adopt`).
pub fn parse(mode: &str, args: &[String]) -> (r: Result<Options, Failure>)
    ensures
        match reconcile_spec(mode@, strings_view(args@)) {
            Ok(o) => r matches Ok(x) && reconcile_options_view(x) == o,
            Err((c, m)) => r matches Err(f) && f.code == c && f.message@ == m,
        },
{
    let ghost av = strings_view(args@);
    let m = if str_eq(mode, "plan") {
        Mode::Plan
    } else if str_eq(mode, "diff") {
        Mode::Diff
    } else if str_eq(mode, "up") {
        Mode::Up
    } else if str_eq(mode, "apply") {
        Mode::Apply
    } else if str_eq(mode, "down") {
        Mode::Down
    } else if str_eq(mode, "adopt") {
        Mode::Adopt
    } else {
        return Err(Failure { code: EXIT_USAGE, message: owned("unknown reconcile command") });
    };
    let mut o = Options {
        mode: m,
        config: owned("."),
        format: Format::Human,
        force: false,
        resume: false,
        abort: false,
        purge: false,
    };
    let mut i: usize = 0;
    while i < args.len()
        invariant
            i <= args@.len(),
            av == strings_view(args@),
            o.mode == m,
            reconcile_spec(mode@, av) == scan_reconcile(av, i as int, reconcile_options_view(o)),
        decreases args.len() - i,
    {
        let a = args[i].as_str();
        assert(a@ == av[i as int]);
        if str_eq(a, "-C") || str_eq(a, "--config") {
            if i + 1 >= args.len() {
                return Err(Failure { code: EXIT_USAGE, message: owned("-C requires a path") });
            }
            o.config = args[i + 1].clone();
            i = i + 2;
        } else if str_eq(a, "--format") {
            if i + 1 < args.len() && str_eq(args[i + 1].as_str(), "human") {
                o.format = Format::Human;
            } else if i + 1 < args.len() && str_eq(args[i + 1].as_str(), "json") {
                o.format = Format::Json;
            } else {
                return Err(Failure { code: EXIT_USAGE, message: owned("--format requires human or json") });
            }
            i = i + 2;
        } else if str_eq(a, "--force") && (m == Mode::Apply || m == Mode::Up) {
            o.force = true;
            i = i + 1;
        } else if str_eq(a, "--resume") && m == Mode::Apply {
            o.resume = true;
            i = i + 1;
        } else if str_eq(a, "--abort") && m == Mode::Apply {
            o.abort = true;
            i = i + 1;
        } else if str_eq(a, "--purge") && m == Mode::Down {
            o.purge = true;
            i = i + 1;
        } else {
            let head = cat3("unknown ", m.command(), " option: ");
            return Err(Failure { code: EXIT_USAGE, message: cat(head.as_str(), a) });
        }
    }
    if o.resume && o.abort {
        return Err(Failure { code: EXIT_INVALID, message: owned("apply accepts only one of --resume or --abort") });
    }
    Ok(o)
}

// ---------------------------------------------------------------------------
// State file names

pub open spec fn file_char(c: char) -> char {
    if crate::text::is_ascii_alnum(c) || c == '.' || c == '_' || c == '-' {
        c
    } else {
        '_'
    }
}

/// The 64-bit FNV-1a hash of `bytes`.
pub open spec fn fnv1a(bytes: Seq<u8>) -> u64
    decreases bytes.len(),
{
    if bytes.len() == 0 {
        0xcbf29ce484222325u64
    } else {
        (fnv1a(bytes.drop_last()) ^ (bytes.last() as u64)).wrapping_mul(0x100000001b3u64)
    }
}

pub open spec fn hex_digit(d: nat) -> char {
    if d < 10 {
        (('0' as nat) + d) as char
    } else {
        (('a' as nat) + d - 10) as char
    }
}

/// The lowercase hexadecimal digits of `v`, without leading zeros.
pub open spec fn hex(v: nat) -> Seq<char>
    decreases v,
{
    if v < 16 {
        seq![hex_digit(v)]
    } else {
        hex(v / 16).push(hex_digit(v % 16))
    }
}

/// The 64-bit FNV-1a hash of `bytes`.
pub fn fnv1a_bytes(bytes: &[u8]) -> (r: u64)
    ensures
        r == fnv1a(bytes@),
{
    let mut hash: u64 = 0xcbf29ce484222325;
    let mut j: usize = 0;
    while j < bytes.len()
        invariant
            j <= bytes@.len(),
            hash == fnv1a(bytes@.take(j as int)),
        decreases bytes.len() - j,
    {
        assert(bytes@.take(j + 1).drop_last() =~= bytes@.take(j as int));
        hash = (hash ^ (bytes[j] as u64)).wrapping_mul(0x100000001b3);
        j = j + 1;
    }
    assert(bytes@.take(bytes@.len() as int) =~= bytes@);
    hash
}

pub fn hex_string(v: u64) -> (r: String)
    ensures
        r@ == hex(v as nat),
    decreases v,
{
    let d: u64 = v % 16;
    let c: char = if d < 10 {
        ((48 + d) as u8) as char
    } else {
        ((87 + d) as u8) as char
    };
    if v < 16 {
        let mut r = String::new();
        crate::text::push_char(&mut r, c);
        assert(r@ =~= seq![c]);
        r
    } else {
        let mut r = hex_string(v / 16);
        crate::text::push_char(&mut r, c);
        r
    }
}

/// A file name for a state file of `value`: its first 64 characters with
/// everything outside `[A-Za-z0-9._-]` made `_`, a dash, and the FNV-1a
/// hash of its UTF-8 bytes in hexadecimal, so that distinct values that
/// read alike still get distinct names.
pub open spec fn state_file_spec(value: Seq<char>, bytes: Seq<u8>) -> Seq<char> {
    let cleaned = value.map_values(|c: char| file_char(c));
    let prefix = if cleaned.len() > 64 {
        cleaned.take(64)
    } else {
        cleaned
    };
    prefix + "-"@ + hex(fnv1a(bytes) as nat)
}

pub fn state_file_component(value: &str) -> (r: String)
    ensures
        r@ == state_file_spec(value@, value.spec_bytes()),
{
    let n = value.unicode_len();
    let keep = if n > 64 {
        64
    } else {
        n
    };
    let mut prefix = String::new();
    let mut i: usize = 0;
    while i < keep
        invariant
            i <= keep <= n,
            n == value@.len(),
            prefix@ == value@.take(i as int).map_values(|c: char| file_char(c)),
        decreases keep - i,
    {
        let c = value.get_char(i);
        let d = if crate::text::char_is_alnum(c) || c == '.' || c == '_' || c == '-' {
            c
        } else {
            '_'
        };
        crate::text::push_char(&mut prefix, d);
        assert(prefix@ =~= value@.take(i + 1).map_values(|c: char| file_char(c)));
        i = i + 1;
    }
    let ghost cleaned = value@.map_values(|c: char| file_char(c));
    assert(prefix@ =~= if cleaned.len() > 64 {
        cleaned.take(64)
    } else {
        cleaned
    });
    let hash = fnv1a_bytes(value.as_bytes());
    let h = hex_string(hash);
    let mut r = prefix;
    r.append("-");
    r.append(h.as_str());
    r
}

// ---------------------------------------------------------------------------
// Resuming a journal

/// The payload of an interrupted apply's journal: its mode where that is a
/// string, its purge flag where that is a boolean.
#[derive(Clone, Debug, Default)]
pub struct JournalPayload {
    pub mode: Option<String>,
    pub purge: Option<bool>,
}

/// The mode and purge flag a resumed run takes from the journal: `payload`
/// is the journal's payload read as JSON, `None` when the journal has none,
/// or why it could not be read.
pub open spec fn journal_spec(payload: Option<Result<(Option<Seq<char>>, Option<bool>), Seq<char>>>) -> Result<(Mode, bool), Seq<char>> {
    match payload {
        None => Err("incomplete journal has no payload"@),
        Some(Err(e)) => Err("invalid journal payload: "@ + e),
        Some(Ok((mode, purge))) => {
            let p = match purge {
                Some(b) => b,
                None => false,
            };
            match mode {
                None => Err("incomplete journal has no mode"@),
                Some(m) => if m == "up"@ {
                    Ok((Mode::Up, p))
                } else if m == "apply"@ {
                    Ok((Mode::Apply, p))
                } else if m == "down"@ {
                    Ok((Mode::Down, p))
                } else {
                    Err("cannot resume journal mode "@ + m)
                },
            }
        },
    }
}

pub open spec fn payload_view(p: Option<Result<JournalPayload, String>>) -> Option<Result<(Option<Seq<char>>, Option<bool>), Seq<char>>> {
    match p {
        None => None,
        Some(Err(e)) => Some(Err(e@)),
        Some(Ok(j)) => Some(
            Ok(
                (
                    match j.mode {
                        Some(m) => Some(m@),
                        None => None,
                    },
                    j.purge,
                ),
            ),
        ),
    }
}

/// The mode and purge flag of the run an interrupted journal belongs to.
pub fn journal_context(payload: &Option<Result<JournalPayload, String>>) -> (r: Result<(Mode, bool), Failure>)
    ensures
        match journal_spec(payload_view(*payload)) {
            Ok(v) => r == Ok::<(Mode, bool), Failure>(v),
            Err(e) => r matches Err(f) && f.code == EXIT_INCOMPLETE && f.message@ == e,
        },
{
    let journal = match payload {
        None => {
            return Err(Failure { code: EXIT_INCOMPLETE, message: owned("incomplete journal has no payload") });
        },
        Some(Err(e)) => {
            return Err(Failure { code: EXIT_INCOMPLETE, message: cat("invalid journal payload: ", e.as_str()) });
        },
        Some(Ok(j)) => j,
    };
    let purge = match journal.purge {
        Some(b) => b,
        None => false,
    };
    let mode = match &journal.mode {
        None => {
            return Err(Failure { code: EXIT_INCOMPLETE, message: owned("incomplete journal has no mode") });
        },
        Some(m) => m.as_str(),
    };
    if str_eq(mode, "up") {
        Ok((Mode::Up, purge))
    } else if str_eq(mode, "apply") {
        Ok((Mode::Apply, purge))
    } else if str_eq(mode, "down") {
        Ok((Mode::Down, purge))
    } else {
        Err(Failure { code: EXIT_INCOMPLETE, message: cat("cannot resume journal mode ", mode) })
    }
}

/// An answer to a confirmation prompt agrees: `y` or `yes`, in any case,
/// with surrounding whitespace ignored.
pub open spec fn confirms_spec(answer: Seq<char>) -> bool {
    let a = lower(crate::text::trim_spec(answer));
    a == "y"@ || a == "yes"@
}

pub fn confirms(answer: &str) -> (r: bool)
    ensures
        r == confirms_spec(answer@),
{
    let trimmed = crate::text::trim(answer);
    let lowered = to_lower(trimmed.as_str());
    str_eq(lowered.as_str(), "y") || str_eq(lowered.as_str(), "yes")
}

// ---------------------------------------------------------------- running a plan

/// The identity of a desired state: the SHA-256 digest of its serialized
/// resources, in lowercase hex.
pub fn desired_hash(serialized: &[u8]) -> (r: String)
    ensures
        r@ == hex_bytes(sha256_of(serialized@)),
{
    sha256_hex(serialized)
}

/// The steps of an apply, in order.
pub open spec fn apply_steps() -> Seq<Seq<char>> {
    seq![
        "validate"@,
        "acquire_lease"@,
        "ensure_nets"@,
        "ensure_dns"@,
        "ensure_images"@,
        "ensure_vms"@,
        "attach_nets"@,
        "start_helpers"@,
        "await_agents"@,
        "ensure_ca"@,
        "ensure_oidc"@,
        "ensure_ingress"@,
        "ensure_ca_rollout"@,
        "ensure_oidc_inject"@,
        "ensure_docker_context"@,
        "ensure_ports"@,
        "apply_routes_policies"@,
        "release_lease"@,
    ]
}

/// The steps of a teardown, in order.
pub open spec fn down_steps() -> Seq<Seq<char>> {
    seq![
        "purge_ingress"@,
        "purge_oidc"@,
        "stop_helpers"@,
        "detach_nets"@,
        "destroy_managed"@,
        "purge_docker_context"@,
        "purge_ports"@,
        "dns_cleanup"@,
        "release_lease"@,
    ]
}

pub open spec fn steps_of(mode: Mode) -> Seq<Seq<char>> {
    if mode == Mode::Down {
        down_steps()
    } else {
        apply_steps()
    }
}

/// Where `x` first occurs in `s`.
pub open spec fn first_index(s: Seq<Seq<char>>, x: Seq<char>) -> Option<int>
    decreases s.len(),
{
    if s.len() == 0 {
        None
    } else if s[0] == x {
        Some(0)
    } else {
        match first_index(s.drop_first(), x) {
            Some(i) => Some(i + 1),
            None => None,
        }
    }
}

/// The steps that run: all of them, or, when resuming, those from the
/// journal's step on (none, where the step is not one of them).
pub open spec fn steps_from(steps: Seq<Seq<char>>, resume: Option<Seq<char>>) -> Seq<Seq<char>> {
    match resume {
        None => steps,
        Some(step) => match first_index(steps, step) {
            Some(i) => steps.skip(i),
            None => Seq::empty(),
        },
    }
}

pub open spec fn str_views(s: Seq<&str>) -> Seq<Seq<char>> {
    s.map_values(|x: &str| x@)
}

fn steps_list(mode: Mode) -> (r: Vec<&'static str>)
    ensures
        str_views(r@) == steps_of(mode),
{
    let r = if mode == Mode::Down {
        vec![
            "purge_ingress",
            "purge_oidc",
            "stop_helpers",
            "detach_nets",
            "destroy_managed",
            "purge_docker_context",
            "purge_ports",
            "dns_cleanup",
            "release_lease",
        ]
    } else {
        vec![
            "validate",
            "acquire_lease",
            "ensure_nets",
            "ensure_dns",
            "ensure_images",
            "ensure_vms",
            "attach_nets",
            "start_helpers",
            "await_agents",
            "ensure_ca",
            "ensure_oidc",
            "ensure_ingress",
            "ensure_ca_rollout",
            "ensure_oidc_inject",
            "ensure_docker_context",
            "ensure_ports",
            "apply_routes_policies",
            "release_lease",
        ]
    };
    assert(str_views(r@) =~= steps_of(mode));
    r
}

/// The steps a run of `mode` performs, in order; `resume_step` is the step
/// an interrupted run's journal names, where the run resumes.
pub fn steps_to_run(mode: Mode, resume_step: Option<&str>) -> (r: Vec<&'static str>)
    ensures
        str_views(r@) == steps_from(
            steps_of(mode),
            match resume_step {
                Some(s) => Some(s@),
                None => None,
            },
        ),
{
    let all = steps_list(mode);
    let ghost sv = str_views(all@);
    let step = match resume_step {
        None => return all,
        Some(step) => step,
    };
    let mut i: usize = 0;
    assert(sv.skip(0) =~= sv);
    while i < all.len()
        invariant
            i <= all@.len(),
            sv == str_views(all@),
            sv == steps_of(mode),
            resume_step == Some(step),
            first_index(sv, step@) == match first_index(sv.skip(i as int), step@) {
                Some(k) => Some(k + i),
                None => None,
            },
        decreases all.len() - i,
    {
        assert(sv.skip(i as int)[0] == all@[i as int]@);
        assert(sv.skip(i as int).drop_first() =~= sv.skip(i + 1));
        if str_eq(all[i], step) {
            assert(first_index(sv.skip(i as int), step@) == Some(0int));
            let mut out: Vec<&'static str> = Vec::new();
            let mut j: usize = i;
            while j < all.len()
                invariant
                    i <= j <= all@.len(),
                    sv == str_views(all@),
                    sv == steps_of(mode),
                    resume_step == Some(step),
                    first_index(sv, step@) == Some(i as int),
                    str_views(out@) == sv.subrange(i as int, j as int),
                decreases all.len() - j,
            {
                let ghost before = out@;
                out.push(all[j]);
                assert(sv[j as int] == all@[j as int]@);
                assert(str_views(out@) =~= str_views(before).push(all@[j as int]@));
                assert(str_views(out@) =~= sv.subrange(i as int, j + 1));
                j = j + 1;
            }
            assert(sv.subrange(i as int, all@.len() as int) =~= sv.skip(i as int));
            assert(first_index(sv, step@) == Some(i as int));
            assert(str_views(out@) == steps_from(sv, Some(step@)));
            return out;
        }
        i = i + 1;
    }
    assert(sv.skip(all@.len() as int) =~= Seq::<Seq<char>>::empty());
    Vec::new()
}

/// Resuming at the first step runs every step; resuming elsewhere runs the
/// steps from there on, the resume step first.
pub proof fn law_resume_runs_a_suffix(mode: Mode, step: Seq<char>)
    ensures
        steps_from(steps_of(mode), Some(steps_of(mode)[0])) == steps_of(mode),
        steps_from(steps_of(mode), Some(step)).len() > 0 ==> steps_from(steps_of(mode), Some(step))[0] == step,
        steps_from(steps_of(mode), Some(step)).len() <= steps_of(mode).len(),
        forall|k: int|
            0 <= k < steps_from(steps_of(mode), Some(step)).len() ==> #[trigger] steps_from(
                steps_of(mode),
                Some(step),
            )[k] == steps_of(mode)[k + steps_of(mode).len() - steps_from(steps_of(mode), Some(step)).len()],
{
    let all = steps_of(mode);
    assert(all.skip(0) =~= all);
    lemma_first_index(all, step);
}

pub proof fn lemma_first_index(s: Seq<Seq<char>>, x: Seq<char>)
    ensures
        match first_index(s, x) {
            Some(i) => 0 <= i < s.len() && s[i] == x,
            None => forall|j: int| 0 <= j < s.len() ==> s[j] != x,
        },
    decreases s.len(),
{
    if s.len() > 0 && s[0] != x {
        lemma_first_index(s.drop_first(), x);
        match first_index(s.drop_first(), x) {
            Some(i) => {},
            None => {
                assert forall|j: int| 0 <= j < s.len() implies s[j] != x by {
                    if j > 0 {
                        assert(s[j] == s.drop_first()[j - 1]);
                    }
                }
            },
        }
    }
}

/// How many of the actions are breaking.
pub open spec fn breaking_count_spec(actions: Seq<ActionView>) -> nat
    decreases actions.len(),
{
    if actions.len() == 0 {
        0
    } else {
        breaking_count_spec(actions.drop_last()) + if actions.last().breaking {
            1nat
        } else {
            0nat
        }
    }
}

/// The number of breaking actions in a plan.
pub fn breaking_count(actions: &[PlanAction]) -> (r: usize)
    ensures
        r == breaking_count_spec(actions_view(actions@)),
{
    let ghost av = actions_view(actions@);
    let mut n: usize = 0;
    let mut i: usize = 0;
    assert(av.subrange(0, 0) =~= Seq::<ActionView>::empty());
    while i < actions.len()
        invariant
            i <= actions@.len(),
            av == actions_view(actions@),
            n == breaking_count_spec(av.subrange(0, i as int)),
            n <= i,
        decreases actions.len() - i,
    {
        let ghost pre = av.subrange(0, i + 1);
        assert(pre.drop_last() =~= av.subrange(0, i as int));
        assert(pre.last() == actions@[i as int]@);
        if actions[i].breaking {
            n = n + 1;
        }
        i = i + 1;
    }
    assert(av.subrange(0, actions@.len() as int) =~= av);
    n
}

/// A run must ask before it goes on: the plan breaks something and `--force`
/// was not given.
pub fn needs_confirmation(actions: &[PlanAction], force: bool) -> (r: bool)
    ensures
        r == (breaking_count_spec(actions_view(actions@)) > 0 && !force),
{
    !force && breaking_count(actions) > 0
}

/// A resource as a teardown leaves it: a VM stopped, anything else as it was.
pub open spec fn stopped(r: ResourceView) -> ResourceView {
    if r.kind == "vm"@ {
        ResourceView { state: "stopped"@, ..r }
    } else {
        r
    }
}

/// The resources a finished run records: none after a purging teardown,
/// the desired ones with their VMs stopped after another teardown, else the
/// desired ones.
pub open spec fn final_spec(mode: Mode, purge: bool, desired: Seq<ResourceView>) -> Seq<ResourceView> {
    if mode == Mode::Down && purge {
        Seq::empty()
    } else if mode == Mode::Down {
        desired.map_values(|r: ResourceView| stopped(r))
    } else {
        desired
    }
}

/// The resources to record when a run of `mode` has finished.
pub fn final_resources(mode: Mode, purge: bool, desired: Vec<Resource>) -> (r: Vec<Resource>)
    ensures
        resources_view(r@) == final_spec(mode, purge, resources_view(desired@)),
{
    if mode == Mode::Down && purge {
        let empty: Vec<Resource> = Vec::new();
        assert(resources_view(empty@) =~= Seq::<ResourceView>::empty());
        return empty;
    }
    if mode != Mode::Down {
        return desired;
    }
    let ghost dv = resources_view(desired@);
    let mut out = desired;
    let n = out.len();
    assert forall|j: int| 0 <= j < n implies #[trigger] out@[j]@ == dv[j] by {}
    let mut i: usize = 0;
    while i < n
        invariant
            n == out@.len(),
            dv.len() == n,
            i <= n,
            forall|j: int| 0 <= j < i ==> #[trigger] out@[j]@ == stopped(dv[j]),
            forall|j: int| i <= j < n ==> #[trigger] out@[j]@ == dv[j],
        decreases n - i,
    {
        let ghost before = out@;
        if str_eq(out[i].kind.as_str(), "vm") {
            assert(before[i as int]@ == dv[i as int]);
            let old_r = out.remove(i);
            let r = Resource { kind: old_r.kind, name: old_r.name, labels: old_r.labels, state: owned("stopped") };
            assert(r@ == stopped(dv[i as int]));
            out.insert(i, r);
            assert forall|j: int| 0 <= j < n && j != i implies #[trigger] out@[j] == before[j] by {}
            assert(out@[i as int]@ == stopped(dv[i as int]));
        }
        i = i + 1;
    }
    assert(resources_view(out@) =~= dv.map_values(|r: ResourceView| stopped(r)));
    out
}

// ---------------------------------------------------------------- creating a stack's VMs

/// A mount a VM declares, with the host path of its volume where the
/// volume is declared.
pub struct MountRequest {
    pub source: String,
    pub target: String,
    pub read_only: bool,
    pub volume_path: Option<String>,
}

/// What the stack declares of a VM that is to be created.
pub struct VmCreateRequest {
    /// The VM's name in the configuration.
    pub name: String,
    pub runtime_id: String,
    /// The image the VM's image entry names.
    pub image: String,
    pub data_disk: String,
    pub project: String,
    pub cpus: Option<u32>,
    pub memory: Option<String>,
    /// The VM's first network.
    pub network: Option<String>,
    pub roles: Vec<String>,
    /// The cloud-init file, resolved against the configuration's directory.
    pub cloud_init: Option<String>,
    pub mounts: Vec<MountRequest>,
}

/// The `--role` arguments: the router and docker roles, in order.
pub open spec fn role_args(roles: Seq<Seq<char>>) -> Seq<Seq<char>>
    decreases roles.len(),
{
    if roles.len() == 0 {
        Seq::empty()
    } else {
        let prev = role_args(roles.drop_last());
        if roles.last() == "router"@ || roles.last() == "docker"@ {
            prev + seq!["--role"@, roles.last()]
        } else {
            prev
        }
    }
}

pub open spec fn mount_flag(m: MountRequest, path: Seq<char>) -> Seq<char> {
    "tag="@ + m.source@ + ",source="@ + path + ",target="@ + m.target@ + if m.read_only {
        ",ro"@
    } else {
        ""@
    }
}

/// The `--mount` arguments, or the message for the first mount whose
/// volume is not declared.
pub open spec fn mount_args(name: Seq<char>, mounts: Seq<MountRequest>) -> Result<Seq<Seq<char>>, Seq<char>>
    decreases mounts.len(),
{
    if mounts.len() == 0 {
        Ok(Seq::empty())
    } else {
        match mount_args(name, mounts.drop_last()) {
            Err(e) => Err(e),
            Ok(prev) => match mounts.last().volume_path {
                None => Err("VM "@ + name + " mount source "@ + debug_str(mounts.last().source@) + " is unknown"@),
                Some(p) => Ok(prev + seq!["--mount"@, mount_flag(mounts.last(), p@)]),
            },
        }
    }
}

pub open spec fn opt_args(flag: Seq<char>, v: Option<String>) -> Seq<Seq<char>> {
    match v {
        Some(x) => seq![flag, x@],
        None => Seq::empty(),
    }
}

/// The arguments of the `vm create` that makes the VM, or the message of
/// what the declaration gets wrong.
pub open spec fn create_args_spec(r: VmCreateRequest) -> Result<Seq<Seq<char>>, Seq<char>> {
    match data_disk_spec(r.data_disk@) {
        Err(e) => Err(e),
        Ok(size) => if r.cpus == Some(0u32) {
            Err("VM "@ + r.name@ + " cpus must be greater than zero"@)
        } else {
            let cpus = match r.cpus {
                Some(c) => seq!["--cpus"@, decimal(c as nat)],
                None => Seq::empty(),
            };
            let memory = match r.memory {
                Some(m) => match memory_spec(m@) {
                    Ok(mib) => Ok(seq!["--memory"@, decimal(mib as nat) + "MiB"@]),
                    Err(e) => Err(e),
                },
                None => Ok(Seq::empty()),
            };
            match memory {
                Err(e) => Err(e),
                Ok(mem) => match mount_args(r.name@, r.mounts@) {
                    Err(e) => Err(e),
                    Ok(mounts) => Ok(
                        seq![
                            "vm"@,
                            "create"@,
                            r.runtime_id@,
                            "--from"@,
                            r.image@,
                            "--data-disk"@,
                            decimal(size as nat),
                            "--project"@,
                            r.project@,
                        ] + cpus + mem + opt_args("--network"@, r.network) + role_args(strings_view(r.roles@))
                            + opt_args("--cloud-init"@, r.cloud_init) + mounts + seq!["--format"@, "json"@],
                    ),
                },
            }
        },
    }
}

fn push_arg(out: &mut Vec<String>, a: String)
    ensures
        strings_view(final(out)@) == strings_view(old(out)@).push(a@),
{
    let ghost before = strings_view(out@);
    out.push(a);
    assert(strings_view(out@) =~= before.push(a@));
}

fn push_pair(out: &mut Vec<String>, a: &str, b: &str)
    ensures
        strings_view(final(out)@) == strings_view(old(out)@) + seq![a@, b@],
{
    let ghost before = strings_view(out@);
    push_arg(out, owned(a));
    push_arg(out, owned(b));
    assert(strings_view(out@) =~= before + seq![a@, b@]);
}

/// The arguments of the `vm create` that makes a stack's VM: its image, data
/// disk and project, then the CPUs, memory, first network, router and docker
/// roles, cloud-init file and mounts it declares, and JSON output.
pub fn vm_create_args(r: &VmCreateRequest) -> (out: Result<Vec<String>, Failure>)
    ensures
        match create_args_spec(*r) {
            Ok(args) => out matches Ok(v) && strings_view(v@) == args,
            Err(m) => out matches Err(f) && f.code == EXIT_INVALID && f.message@ == m,
        },
{
    let size = match data_disk_gib(r.data_disk.as_str()) {
        Ok(size) => size,
        Err(f) => return Err(f),
    };
    if r.cpus == Some(0u32) {
        return Err(Failure { code: EXIT_INVALID, message: cat3("VM ", r.name.as_str(), " cpus must be greater than zero") });
    }
    let mut out: Vec<String> = Vec::new();
    push_pair(&mut out, "vm", "create");
    push_arg(&mut out, r.runtime_id.clone());
    push_pair(&mut out, "--from", r.image.as_str());
    push_pair(&mut out, "--data-disk", u64_to_decimal(size).as_str());
    push_pair(&mut out, "--project", r.project.as_str());
    let ghost head = strings_view(out@);
    assert(head =~= seq![
        "vm"@,
        "create"@,
        r.runtime_id@,
        "--from"@,
        r.image@,
        "--data-disk"@,
        decimal(size as nat),
        "--project"@,
        r.project@,
    ]);
    match r.cpus {
        Some(c) => push_pair(&mut out, "--cpus", u64_to_decimal(c as u64).as_str()),
        None => {},
    }
    let ghost after_cpus = strings_view(out@);
    match &r.memory {
        Some(m) => {
            match parse_memory_mib(m.as_str()) {
                Ok(mib) => {
                    let text = cat(u64_to_decimal(mib).as_str(), "MiB");
                    push_pair(&mut out, "--memory", text.as_str());
                },
                Err(e) => return Err(Failure { code: EXIT_INVALID, message: e }),
            }
        },
        None => {},
    }
    let ghost after_memory = strings_view(out@);
    match &r.network {
        Some(n) => push_pair(&mut out, "--network", n.as_str()),
        None => {},
    }
    assert(strings_view(out@) =~= after_memory + opt_args("--network"@, r.network));
    let ghost before_roles = strings_view(out@);
    let ghost rv = strings_view(r.roles@);
    let mut i: usize = 0;
    assert(rv.subrange(0, 0) =~= Seq::<Seq<char>>::empty());
    assert(before_roles + role_args(rv.subrange(0, 0)) =~= before_roles);
    while i < r.roles.len()
        invariant
            i <= r.roles@.len(),
            rv == strings_view(r.roles@),
            strings_view(out@) == before_roles + role_args(rv.subrange(0, i as int)),
        decreases r.roles.len() - i,
    {
        let ghost pre = rv.subrange(0, i + 1);
        assert(pre.drop_last() =~= rv.subrange(0, i as int));
        assert(pre.last() == r.roles@[i as int]@);
        let role = r.roles[i].as_str();
        if str_eq(role, "router") || str_eq(role, "docker") {
            push_pair(&mut out, "--role", role);
            assert(strings_view(out@) =~= before_roles + role_args(pre));
        }
        i = i + 1;
    }
    assert(rv.subrange(0, r.roles@.len() as int) =~= rv);
    let ghost after_roles = strings_view(out@);
    match &r.cloud_init {
        Some(p) => push_pair(&mut out, "--cloud-init", p.as_str()),
        None => {},
    }
    assert(strings_view(out@) =~= after_roles + opt_args("--cloud-init"@, r.cloud_init));
    let ghost before_mounts = strings_view(out@);
    let ghost mv = r.mounts@;
    assert(create_args_spec(*r) == match mount_args(r.name@, mv) {
        Ok(ms) => Ok(before_mounts + ms + seq!["--format"@, "json"@]),
        Err(e) => Err(e),
    }) by {
        let cpus = match r.cpus {
            Some(c) => seq!["--cpus"@, decimal(c as nat)],
            None => Seq::<Seq<char>>::empty(),
        };
        assert(after_cpus =~= head + cpus);
        let mem = match r.memory {
            Some(m) => seq!["--memory"@, decimal(memory_spec(m@)->Ok_0 as nat) + "MiB"@],
            None => Seq::<Seq<char>>::empty(),
        };
        assert(after_memory =~= after_cpus + mem);
        assert(before_mounts =~= head + cpus + mem + opt_args("--network"@, r.network) + role_args(rv) + opt_args(
            "--cloud-init"@,
            r.cloud_init,
        ));
    }
    let mut j: usize = 0;
    assert(mv.subrange(0, 0) =~= Seq::<MountRequest>::empty());
    assert(before_mounts + Seq::<Seq<char>>::empty() =~= before_mounts);
    while j < r.mounts.len()
        invariant
            j <= r.mounts@.len(),
            mv == r.mounts@,
            create_args_spec(*r) == match mount_args(r.name@, mv) {
                Ok(ms) => Ok(before_mounts + ms + seq!["--format"@, "json"@]),
                Err(e) => Err(e),
            },
            mount_args(r.name@, mv.subrange(0, j as int)) matches Ok(done) && strings_view(out@) == before_mounts + done,
        decreases r.mounts.len() - j,
    {
        let ghost pre = mv.subrange(0, j + 1);
        assert(pre.drop_last() =~= mv.subrange(0, j as int));
        assert(pre.last() == mv[j as int]);
        let m = &r.mounts[j];
        match &m.volume_path {
            None => {
                let mut message = cat3("VM ", r.name.as_str(), " mount source ");
                message.append(debug_quoted(m.source.as_str()).as_str());
                message.append(" is unknown");
                proof {
                    assert(mount_args(r.name@, pre) == Err::<Seq<Seq<char>>, Seq<char>>(message@));
                    lemma_mount_error_stays(r.name@, mv, j as int + 1);
                }
                return Err(Failure { code: EXIT_INVALID, message });
            },
            Some(p) => {
                let mut flag = cat3("tag=", m.source.as_str(), ",source=");
                flag.append(p.as_str());
                flag.append(",target=");
                flag.append(m.target.as_str());
                let ghost base = flag@;
                if m.read_only {
                    flag.append(",ro");
                } else {
                    proof {
                        reveal_strlit("");
                    }
                    assert(base + ""@ =~= base);
                }
                assert(flag@ =~= mount_flag(*m, p@));
                let ghost before = strings_view(out@);
                push_pair(&mut out, "--mount", flag.as_str());
                assert(mount_args(r.name@, pre) matches Ok(d) && strings_view(out@) =~= before_mounts + d);
            },
        }
        j = j + 1;
    }
    assert(mv.subrange(0, r.mounts@.len() as int) =~= mv);
    push_pair(&mut out, "--format", "json");
    Ok(out)
}

/// Once a mount is refused, every longer list of mounts is refused with the
/// same message.
proof fn lemma_mount_error_stays(name: Seq<char>, mounts: Seq<MountRequest>, k: int)
    requires
        0 < k <= mounts.len(),
        mount_args(name, mounts.subrange(0, k)) is Err,
    ensures
        mount_args(name, mounts) == mount_args(name, mounts.subrange(0, k)),
    decreases mounts.len() - k,
{
    if k < mounts.len() {
        assert(mounts.subrange(0, k + 1).drop_last() =~= mounts.subrange(0, k));
        lemma_mount_error_stays(name, mounts, k + 1);
    } else {
        assert(mounts.subrange(0, k) =~= mounts);
    }
}

/// The VMs a plan deletes, in plan order.
pub open spec fn vm_deletes(actions: Seq<ActionView>) -> Seq<Seq<char>>
    decreases actions.len(),
{
    if actions.len() == 0 {
        Seq::empty()
    } else {
        let prev = vm_deletes(actions.drop_last());
        let a = actions.last();
        if a.action == "delete"@ && a.kind == "vm"@ {
            prev.push(a.name)
        } else {
            prev
        }
    }
}

/// The VMs a plan deletes: they are stopped and removed before any VM is
/// created.
pub fn vms_to_delete(actions: &[PlanAction]) -> (r: Vec<String>)
    ensures
        strings_view(r@) == vm_deletes(actions_view(actions@)),
{
    let ghost av = actions_view(actions@);
    let mut out: Vec<String> = Vec::new();
    let mut i: usize = 0;
    assert(av.subrange(0, 0) =~= Seq::<ActionView>::empty());
    while i < actions.len()
        invariant
            i <= actions@.len(),
            av == actions_view(actions@),
            strings_view(out@) == vm_deletes(av.subrange(0, i as int)),
        decreases actions.len() - i,
    {
        let ghost pre = av.subrange(0, i + 1);
        assert(pre.drop_last() =~= av.subrange(0, i as int));
        assert(pre.last() == actions@[i as int]@);
        let a = &actions[i];
        if str_eq(a.action, "delete") && str_eq(a.kind.as_str(), "vm") {
            push_arg(&mut out, a.name.clone());
        }
        i = i + 1;
    }
    assert(av.subrange(0, actions@.len() as int) =~= av);
    out
}

/// The first action on the VM `runtime_id` is a breaking update: the VM has
/// to be made anew.
pub open spec fn recreate_spec(actions: Seq<ActionView>, runtime_id: Seq<char>) -> bool
    decreases actions.len(),
{
    if actions.len() == 0 {
        false
    } else if actions[0].kind == "vm"@ && actions[0].name == runtime_id {
        actions[0].action == "update"@ && actions[0].breaking
    } else {
        recreate_spec(actions.drop_first(), runtime_id)
    }
}

fn recreate_wanted(actions: &[PlanAction], runtime_id: &str) -> (r: bool)
    ensures
        r == recreate_spec(actions_view(actions@), runtime_id@),
{
    let ghost av = actions_view(actions@);
    let mut i: usize = 0;
    assert(av.skip(0) =~= av);
    while i < actions.len()
        invariant
            i <= actions@.len(),
            av == actions_view(actions@),
            recreate_spec(av, runtime_id@) == recreate_spec(av.skip(i as int), runtime_id@),
        decreases actions.len() - i,
    {
        assert(av.skip(i as int)[0] == actions@[i as int]@);
        assert(av.skip(i as int).drop_first() =~= av.skip(i + 1));
        let a = &actions[i];
        if str_eq(a.kind.as_str(), "vm") && str_eq(a.name.as_str(), runtime_id) {
            return str_eq(a.action, "update") && a.breaking;
        }
        i = i + 1;
    }
    assert(av.skip(i as int) =~= Seq::<ActionView>::empty());
    false
}

/// Whether the VM `runtime_id` is to be made anew; without `--force` that is
/// refused.
pub fn needs_recreate(actions: &[PlanAction], runtime_id: &str, force: bool) -> (r: Result<bool, Failure>)
    ensures
        recreate_spec(actions_view(actions@), runtime_id@) && !force ==> (r matches Err(f) && f.code
            == EXIT_INVALID && f.message@ == "VM recreate requires --force"@),
        !(recreate_spec(actions_view(actions@), runtime_id@) && !force) ==> r == Ok::<bool, Failure>(
            recreate_spec(actions_view(actions@), runtime_id@),
        ),
{
    let recreate = recreate_wanted(actions, runtime_id);
    if recreate && !force {
        return Err(Failure { code: EXIT_INVALID, message: owned("VM recreate requires --force") });
    }
    Ok(recreate)
}

} // verus!
