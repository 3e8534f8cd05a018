//! The interactive progress view: which jobs are shown, the selection, and
//! the lines of a frame. Drawing the frame on a terminal is the caller's.
use crate::progress::{
    has_job, job_of, jobs_view, opt_str_is, opt_view, JobStatus, JobView, ProgressMessage,
    ProgressState, StateView, MessageView, apply_spec,
};
use crate::text::{owned, str_eq, strings_view};
use std::time::Duration;
use vstd::prelude::*;

verus! {

// ---------------------------------------------------------------------------
// Text helpers

/// The string cut to `width` characters, the last one replaced by `…` when
/// anything was cut.
pub open spec fn truncate_spec(v: Seq<char>, width: nat) -> Seq<char> {
    if v.len() <= width {
        v
    } else if width == 0 {
        Seq::empty()
    } else if width == 1 {
        seq!['…']
    } else {
        v.subrange(0, width - 1) + seq!['…']
    }
}

/// Cuts a string to at most `width` characters.
pub fn truncate(value: &str, width: usize) -> (r: String)
    ensures
        r@ == truncate_spec(value@, width as nat),
        r@.len() <= width,
{
    let n = value.unicode_len();
    if n <= width {
        return owned(value);
    }
    if width == 0 {
        return String::new();
    }
    if width == 1 {
        let mut r = String::new();
        crate::text::push_char(&mut r, '…');
        assert(r@ =~= seq!['…']);
        return r;
    }
    let mut r = crate::text::slice(value, 0, width - 1);
    crate::text::push_char(&mut r, '…');
    r
}

/// `n` copies of `c`.
pub open spec fn repeat_spec(c: char, n: nat) -> Seq<char> {
    Seq::new(n, |i: int| c)
}

pub fn repeat_char(c: char, n: usize) -> (r: String)
    ensures
        r@ == repeat_spec(c, n as nat),
{
    let mut r = String::new();
    let mut i: usize = 0;
    while i < n
        invariant
            i <= n,
            r@ == repeat_spec(c, i as nat),
        decreases n - i,
    {
        crate::text::push_char(&mut r, c);
        assert(r@ =~= repeat_spec(c, (i + 1) as nat));
        i = i + 1;
    }
    r
}

/// `s` padded with spaces on the right to `width` characters (`{:<width$}`).
pub open spec fn pad_right_spec(s: Seq<char>, width: nat) -> Seq<char> {
    if s.len() >= width {
        s
    } else {
        s + repeat_spec(' ', (width - s.len()) as nat)
    }
}

pub fn pad_right(s: &str, width: usize) -> (r: String)
    ensures
        r@ == pad_right_spec(s@, width as nat),
{
    let n = s.unicode_len();
    if n >= width {
        owned(s)
    } else {
        let pad = repeat_char(' ', width - n);
        crate::text::cat(s, pad.as_str())
    }
}

/// `s` padded with spaces on the left to `width` characters (`{:>width$}`).
pub open spec fn pad_left_spec(s: Seq<char>, width: nat) -> Seq<char> {
    if s.len() >= width {
        s
    } else {
        repeat_spec(' ', (width - s.len()) as nat) + s
    }
}

pub fn pad_left(s: &str, width: usize) -> (r: String)
    ensures
        r@ == pad_left_spec(s@, width as nat),
{
    let n = s.unicode_len();
    if n >= width {
        owned(s)
    } else {
        let pad = repeat_char(' ', width - n);
        crate::text::cat(pad.as_str(), s)
    }
}

/// The mark of a status in the job list.
pub open spec fn status_mark_spec(s: JobStatus) -> Seq<char> {
    match s {
        JobStatus::Pending => "○"@,
        JobStatus::Running => "◆"@,
        JobStatus::Done => "✓"@,
        JobStatus::Skipped => "–"@,
        JobStatus::Failed => "✗"@,
    }
}

pub fn status_mark(s: JobStatus) -> (r: &'static str)
    ensures
        r@ == status_mark_spec(s),
{
    match s {
        JobStatus::Pending => "○",
        JobStatus::Running => "◆",
        JobStatus::Done => "✓",
        JobStatus::Skipped => "–",
        JobStatus::Failed => "✗",
    }
}

/// The word for a status in the detail pane.
pub open spec fn status_label_spec(s: JobStatus) -> Seq<char> {
    match s {
        JobStatus::Pending => "wartet"@,
        JobStatus::Running => "läuft"@,
        JobStatus::Done => "fertig"@,
        JobStatus::Skipped => "übersprungen"@,
        JobStatus::Failed => "fehlgeschlagen"@,
    }
}

pub fn status_label(s: JobStatus) -> (r: &'static str)
    ensures
        r@ == status_label_spec(s),
{
    match s {
        JobStatus::Pending => "wartet",
        JobStatus::Running => "läuft",
        JobStatus::Done => "fertig",
        JobStatus::Skipped => "übersprungen",
        JobStatus::Failed => "fehlgeschlagen",
    }
}

/// The filled cells of a bar: `width * percent / 100`, the product saturating
/// at `usize::MAX`.
pub open spec fn bar_filled(percent: nat, width: nat) -> nat {
    let product = width * percent;
    (if product > usize::MAX { usize::MAX as nat } else { product }) / 100
}

/// A bar of `width` cells, `width * percent / 100` of them filled.
pub open spec fn progress_bar_spec(percent: nat, width: nat) -> Seq<char> {
    let filled = bar_filled(percent, width);
    seq!['['] + repeat_spec('█', filled) + repeat_spec('░', (width - filled) as nat) + seq![']']
}

/// The bar; there are never more filled cells than cells.
pub fn progress_bar(percent: u8, width: usize) -> (r: String)
    requires
        bar_filled(percent as nat, width as nat) <= width,
    ensures
        r@ == progress_bar_spec(percent as nat, width as nat),
        r@.len() == width + 2,
{
    let product: usize = match width.checked_mul(percent as usize) {
        Some(p) => p,
        None => usize::MAX,
    };
    let filled = product / 100;
    let full = repeat_char('█', filled);
    let empty = repeat_char('░', width - filled);
    let mut r = String::new();
    crate::text::push_char(&mut r, '[');
    r.append(full.as_str());
    r.append(empty.as_str());
    crate::text::push_char(&mut r, ']');
    assert(r@ =~= progress_bar_spec(percent as nat, width as nat));
    r
}

/// A percentage of at most 100 always fits its bar.
pub proof fn law_bar_fits(percent: nat, width: nat)
    requires
        percent <= 100,
    ensures
        bar_filled(percent, width) <= width,
{
    assert(width * percent <= width * 100) by (nonlinear_arith)
        requires
            percent <= 100,
    ;
}

// ---------------------------------------------------------------------------
// Keys

/// A key the view reacts to.
#[derive(Clone, Copy, Debug, PartialEq, Eq, Structural)]
pub enum Key {
    Up,
    Down,
    Enter,
    Char(char),
    Other,
}

/// Ctrl-C, as opposed to a plain `c`.
pub fn is_ctrl_c(key: Key, control: bool) -> (r: bool)
    ensures
        r == (key == Key::Char('c') && control),
{
    match key {
        Key::Char(c) => c == 'c' && control,
        _ => false,
    }
}

// ---------------------------------------------------------------------------
// The visible job list

/// The job `id` and, if it is expanded, its children's lists, in install
/// order. `fuel` bounds the depth followed.
pub open spec fn visible_from(jobs: Seq<JobView>, exp: Set<Seq<char>>, id: Seq<char>, fuel: nat) -> Seq<Seq<char>>
    decreases fuel, 1nat, 0nat,
{
    seq![id] + if exp.contains(id) && fuel > 0 {
        visible_children(jobs, exp, id, (fuel - 1) as nat, jobs.len() as nat)
    } else {
        Seq::empty()
    }
}

/// The lists of the children of `pid` among the first `n` jobs.
pub open spec fn visible_children(jobs: Seq<JobView>, exp: Set<Seq<char>>, pid: Seq<char>, fuel: nat, n: nat) -> Seq<Seq<char>>
    decreases fuel, 2nat, n,
{
    if n == 0 || n > jobs.len() {
        Seq::empty()
    } else {
        let rest = visible_children(jobs, exp, pid, fuel, (n - 1) as nat);
        let j = jobs[n - 1];
        if j.spec.parent == Some(pid) {
            rest + visible_from(jobs, exp, j.spec.id, fuel)
        } else {
            rest
        }
    }
}

/// The lists of the root jobs among the first `n` jobs.
pub open spec fn visible_roots(jobs: Seq<JobView>, exp: Set<Seq<char>>, n: nat) -> Seq<Seq<char>>
    decreases n,
{
    if n == 0 || n > jobs.len() {
        Seq::empty()
    } else {
        let rest = visible_roots(jobs, exp, (n - 1) as nat);
        let j = jobs[n - 1];
        if j.spec.parent is None {
            rest + visible_from(jobs, exp, j.spec.id, jobs.len() as nat)
        } else {
            rest
        }
    }
}

/// The rows of the job list: the roots in install order, each followed by
/// the rows of its children where it is expanded.
pub open spec fn visible_spec(jobs: Seq<JobView>, exp: Set<Seq<char>>) -> Seq<Seq<char>> {
    visible_roots(jobs, exp, jobs.len() as nat)
}

/// `s` holds `x`.
pub fn list_contains(v: &Vec<String>, x: &str) -> (r: bool)
    ensures
        r == strings_view(v@).contains(x@),
{
    let ghost sv = strings_view(v@);
    let mut i: usize = 0;
    while i < v.len()
        invariant
            i <= v@.len(),
            sv == strings_view(v@),
            forall|k: int| 0 <= k < i ==> sv[k] != x@,
        decreases v.len() - i,
    {
        if str_eq(v[i].as_str(), x) {
            assert(sv[i as int] == x@);
            return true;
        }
        i = i + 1;
    }
    false
}

// ---------------------------------------------------------------------------
// The session

/// The state of the interactive view: the job tree, the title, the selected
/// row, the expanded groups and whether the job log is shown.
pub struct UiSession {
    state: ProgressState,
    title: String,
    pub selected: usize,
    expanded: Vec<String>,
    show_log: bool,
}

pub struct UiView {
    pub state: StateView,
    pub title: Seq<char>,
    pub selected: nat,
    pub expanded: Set<Seq<char>>,
    pub show_log: bool,
}

impl View for UiSession {
    type V = UiView;

    closed spec fn view(&self) -> UiView {
        UiView {
            state: self.state@,
            title: self.title@,
            selected: self.selected as nat,
            expanded: strings_view(self.expanded@).to_set(),
            show_log: self.show_log,
        }
    }
}

/// Index of the first `x` in `s`, if any.
pub open spec fn position(s: Seq<Seq<char>>, x: Seq<char>) -> Option<int>
    decreases s.len(),
{
    if s.len() == 0 {
        None
    } else if s[0] == x {
        Some(0)
    } else {
        match position(s.drop_first(), x) {
            Some(i) => Some(i + 1),
            None => None,
        }
    }
}

pub proof fn lemma_position_at(s: Seq<Seq<char>>, x: Seq<char>, i: int)
    requires
        0 <= i < s.len(),
        s[i] == x,
        forall|j: int| 0 <= j < i ==> s[j] != x,
    ensures
        position(s, x) == Some(i),
    decreases i,
{
    if i > 0 {
        assert forall|j: int| 0 <= j < i - 1 implies s.drop_first()[j] != x by {
            assert(s.drop_first()[j] == s[j + 1]);
        }
        lemma_position_at(s.drop_first(), x, i - 1);
    }
}

pub proof fn lemma_position_none(s: Seq<Seq<char>>, x: Seq<char>)
    requires
        forall|j: int| 0 <= j < s.len() ==> s[j] != x,
    ensures
        position(s, x) is None,
    decreases s.len(),
{
    if s.len() > 0 {
        assert forall|j: int| 0 <= j < s.len() - 1 implies s.drop_first()[j] != x by {
            assert(s.drop_first()[j] == s[j + 1]);
        }
        lemma_position_none(s.drop_first(), x);
    }
}

/// Index of the first `x` in `v`.
pub fn index_in(v: &Vec<String>, x: &str) -> (r: Option<usize>)
    ensures
        match r {
            Some(i) => position(strings_view(v@), x@) == Some(i as int),
            None => position(strings_view(v@), x@) is None,
        },
{
    let ghost sv = strings_view(v@);
    let mut i: usize = 0;
    while i < v.len()
        invariant
            i <= v@.len(),
            sv == strings_view(v@),
            forall|k: int| 0 <= k < i ==> sv[k] != x@,
        decreases v.len() - i,
    {
        if str_eq(v[i].as_str(), x) {
            proof {
                lemma_position_at(sv, x@, i as int);
            }
            return Some(i);
        }
        i = i + 1;
    }
    proof {
        lemma_position_none(sv, x@);
    }
    None
}

/// The parent of a job that starts is expanded so that the job shows.
pub open spec fn expand_for(s: StateView, exp: Set<Seq<char>>, m: MessageView) -> Set<Seq<char>> {
    match m {
        MessageView::JobStart { id } => if has_job(s.jobs, id) && job_of(s.jobs, id).spec.parent is Some {
            exp.insert(job_of(s.jobs, id).spec.parent->Some_0)
        } else {
            exp
        },
        _ => exp,
    }
}

/// The selection after a message: a job that starts is selected if it is
/// shown; otherwise the selection is kept within the rows.
pub open spec fn select_after(m: MessageView, visible: Seq<Seq<char>>, selected: nat) -> nat {
    let started = match m {
        MessageView::JobStart { id } => position(visible, id),
        _ => None,
    };
    match started {
        Some(p) => p as nat,
        None => if selected >= visible.len() {
            if visible.len() == 0 {
                0
            } else {
                (visible.len() - 1) as nat
            }
        } else {
            selected
        },
    }
}

impl UiSession {
    pub open spec fn wf(&self) -> bool {
        self.state_wf()
    }

    pub closed spec fn state_wf(&self) -> bool {
        self.state.wf()
    }

    /// An empty view titled `title`, with the VM phase expanded.
    pub fn new(title: &str) -> (r: UiSession)
        ensures
            r.wf(),
            r@.state == crate::progress::initial_state(Seq::empty()),
            r@.title == title@,
            r@.selected == 0,
            r@.expanded == set!["phase-vms"@],
            !r@.show_log,
    {
        let state = ProgressState::new(Vec::new());
        let expanded = vec![owned("phase-vms")];
        let r = UiSession { state, title: owned(title), selected: 0, expanded, show_log: false };
        let ghost sv = strings_view(r.expanded@);
        assert(sv =~= seq!["phase-vms"@]);
        assert forall|a: Seq<char>| sv.to_set().contains(a) <==> a == "phase-vms"@ by {
            if a == "phase-vms"@ {
                assert(sv[0] == a);
            }
        }
        assert(sv.to_set() =~= set!["phase-vms"@]);
        r
    }

    /// The job tree the view shows.
    pub fn state(&self) -> (r: &ProgressState)
        ensures
            r@ == self@.state,
            self.wf() ==> r.wf(),
    {
        &self.state
    }

    fn append_visible(&self, id: &str, fuel: usize, out: &mut Vec<String>)
        ensures
            strings_view(final(out)@) == strings_view(old(out)@) + visible_from(
                self@.state.jobs,
                self@.expanded,
                id@,
                fuel as nat,
            ),
        decreases fuel,
    {
        let ghost jv = self@.state.jobs;
        let ghost exp = self@.expanded;
        let ghost start = strings_view(out@);
        out.push(owned(id));
        assert(strings_view(out@) =~= start + seq![id@]);
        if list_contains(&self.expanded, id) && fuel > 0 {
            let jobs = self.state.jobs();
            let mut i: usize = 0;
            while i < jobs.len()
                invariant
                    i <= jobs@.len(),
                    jv == jobs_view(jobs@),
                    jv == self@.state.jobs,
                    exp == self@.expanded,
                    fuel > 0,
                    strings_view(out@) == start + seq![id@] + visible_children(
                        jv,
                        exp,
                        id@,
                        (fuel - 1) as nat,
                        i as nat,
                    ),
                decreases jobs.len() - i,
            {
                let ghost before = strings_view(out@);
                assert(jv[i as int].spec.parent == opt_view(jobs@[i as int].spec.parent));
                assert(jv[i as int].spec.id == jobs@[i as int].spec.id@);
                if opt_str_is(&jobs[i].spec.parent, id) {
                    self.append_visible(jobs[i].spec.id.as_str(), fuel - 1, out);
                    assert(strings_view(out@) =~= start + seq![id@] + visible_children(
                        jv,
                        exp,
                        id@,
                        (fuel - 1) as nat,
                        (i + 1) as nat,
                    ));
                }
                i = i + 1;
            }
            assert(visible_from(jv, exp, id@, fuel as nat) =~= seq![id@] + visible_children(
                jv,
                exp,
                id@,
                (fuel - 1) as nat,
                jv.len() as nat,
            ));
            assert(strings_view(out@) =~= start + visible_from(jv, exp, id@, fuel as nat));
        } else {
            assert(visible_from(jv, exp, id@, fuel as nat) =~= seq![id@]);
        }
    }

    /// The ids of the rows of the job list.
    pub fn visible_jobs(&self) -> (r: Vec<String>)
        ensures
            strings_view(r@) == visible_spec(self@.state.jobs, self@.expanded),
    {
        let ghost jv = self@.state.jobs;
        let ghost exp = self@.expanded;
        let jobs = self.state.jobs();
        let n = jobs.len();
        let mut out: Vec<String> = Vec::new();
        let mut i: usize = 0;
        assert(strings_view(out@) =~= Seq::<Seq<char>>::empty());
        while i < n
            invariant
                i <= n,
                n == jobs@.len(),
                jv == jobs_view(jobs@),
                jv == self@.state.jobs,
                exp == self@.expanded,
                jv.len() == n,
                strings_view(out@) == visible_roots(jv, exp, i as nat),
            decreases n - i,
        {
            assert(jv[i as int].spec.parent == opt_view(jobs@[i as int].spec.parent));
            assert(jv[i as int].spec.id == jobs@[i as int].spec.id@);
            if jobs[i].spec.parent.is_none() {
                self.append_visible(jobs[i].spec.id.as_str(), n, &mut out);
            }
            assert(strings_view(out@) =~= visible_roots(jv, exp, (i + 1) as nat));
            i = i + 1;
        }
        out
    }

    fn insert_expanded(&mut self, id: String)
        requires
            old(self).wf(),
        ensures
            final(self).wf(),
            final(self)@ == (UiView { expanded: old(self)@.expanded.insert(id@), ..old(self)@ }),
    {
        let ghost before = strings_view(self.expanded@);
        let ghost x = id@;
        if !list_contains(&self.expanded, id.as_str()) {
            self.expanded.push(id);
            let ghost after = strings_view(self.expanded@);
            assert(after =~= before.push(x));
            assert forall|a: Seq<char>| after.to_set().contains(a) <==> before.to_set().insert(x).contains(a) by {
                if before.contains(a) {
                    let k = choose|k: int| 0 <= k < before.len() && before[k] == a;
                    assert(after[k] == a);
                }
                if a == x {
                    assert(after[before.len() as int] == a);
                }
                if after.contains(a) {
                    let k = choose|k: int| 0 <= k < after.len() && after[k] == a;
                    if k < before.len() {
                        assert(before[k] == a);
                    }
                }
            }
            assert(after.to_set() =~= before.to_set().insert(x));
        } else {
            assert(before.to_set() =~= before.to_set().insert(x));
        }
    }

    fn remove_expanded(&mut self, id: &str)
        requires
            old(self).wf(),
        ensures
            final(self).wf(),
            final(self)@ == (UiView { expanded: old(self)@.expanded.remove(id@), ..old(self)@ }),
    {
        let ghost before = strings_view(self.expanded@);
        let mut kept: Vec<String> = Vec::new();
        let mut i: usize = 0;
        while i < self.expanded.len()
            invariant
                i <= self.expanded@.len(),
                before == strings_view(self.expanded@),
                forall|a: Seq<char>| #[trigger] strings_view(kept@).contains(a) <==> (a != id@ && exists|k: int| 0 <= k < i && before[k] == a),
            decreases self.expanded.len() - i,
        {
            let ghost prev = strings_view(kept@);
            let keep = !str_eq(self.expanded[i].as_str(), id);
            if keep {
                kept.push(self.expanded[i].clone());
                assert(strings_view(kept@) =~= prev.push(before[i as int]));
            }
            assert forall|a: Seq<char>| strings_view(kept@).contains(a) <==> (a != id@ && exists|k: int| 0 <= k < i + 1 && before[k] == a) by {
                if strings_view(kept@).contains(a) {
                    let j = choose|j: int| 0 <= j < strings_view(kept@).len() && strings_view(kept@)[j] == a;
                    if j < prev.len() {
                        assert(prev[j] == a);
                        assert(prev.contains(a));
                        let k = choose|k: int| 0 <= k < i && before[k] == a;
                        assert(0 <= k < i + 1 && before[k] == a);
                    } else {
                        assert(keep);
                        assert(before[i as int] == a);
                    }
                }
                if a != id@ && exists|k: int| 0 <= k < i + 1 && before[k] == a {
                    let k = choose|k: int| 0 <= k < i + 1 && before[k] == a;
                    if k < i {
                        assert(exists|k2: int| 0 <= k2 < i && before[k2] == a);
                        assert(prev.contains(a));
                        let j = choose|j: int| 0 <= j < prev.len() && prev[j] == a;
                        assert(strings_view(kept@)[j] == a);
                    } else {
                        assert(strings_view(kept@)[prev.len() as int] == a);
                    }
                }
            }
            i = i + 1;
        }
        self.expanded = kept;
        assert forall|a: Seq<char>| strings_view(self.expanded@).to_set().contains(a) <==> before.to_set().remove(id@).contains(a) by {
            if before.contains(a) {
                let k = choose|k: int| 0 <= k < before.len() && before[k] == a;
            }
        }
        assert(strings_view(self.expanded@).to_set() =~= before.to_set().remove(id@));
    }

    /// Applies a message to the job tree. A job that starts is selected and
    /// its parent expanded; otherwise the selection stays within the rows.
    pub fn apply(&mut self, message: ProgressMessage)
        requires
            old(self).wf(),
        ensures
            final(self).wf(),
            exists|d: Duration| final(self)@.state == apply_spec(old(self)@.state, message@, d),
            final(self)@.expanded == expand_for(old(self)@.state, old(self)@.expanded, message@),
            final(self)@.selected == select_after(
                message@,
                visible_spec(final(self)@.state.jobs, final(self)@.expanded),
                old(self)@.selected,
            ),
            final(self)@.title == old(self)@.title,
            final(self)@.show_log == old(self)@.show_log,
    {
        let ghost mv = message@;
        let ghost s0 = self@;
        let started_id: Option<String> = match &message {
            ProgressMessage::JobStart { id } => {
                let parent = match self.state.job(id.as_str()) {
                    Some(job) => crate::progress::clone_opt_string(&job.spec.parent),
                    None => None,
                };
                match parent {
                    Some(p) => {
                        self.insert_expanded(p);
                    },
                    None => {},
                }
                Some(id.clone())
            },
            _ => None,
        };
        assert(self@.expanded == expand_for(s0.state, s0.expanded, mv));
        self.state.apply(message);
        let visible = self.visible_jobs();
        let found = match &started_id {
            Some(id) => index_in(&visible, id.as_str()),
            None => None,
        };
        match found {
            Some(p) => {
                self.selected = p;
            },
            None => {
                if self.selected >= visible.len() {
                    self.selected = if visible.len() == 0 {
                        0
                    } else {
                        visible.len() - 1
                    };
                }
            },
        }
    }
}

impl UiSession {
    /// Applies a message while the view follows as plain lines (after the
    /// dashboard was left): the tree changes as with `apply`, the view's
    /// own settings stay, and the line to print is returned.
    pub fn apply_plain(&mut self, message: ProgressMessage) -> (r: Option<crate::progress::PlainLine>)
        requires
            old(self).wf(),
        ensures
            final(self).wf(),
            exists|d: Duration| final(self)@.state == apply_spec(old(self)@.state, message@, d),
            final(self)@.title == old(self)@.title,
            final(self)@.selected == old(self)@.selected,
            final(self)@.expanded == old(self)@.expanded,
            final(self)@.show_log == old(self)@.show_log,
    {
        crate::progress::plain_message(&mut self.state, message)
    }

    /// Marks the current job as failed with `message`, as the last frame of a
    /// failed run shows it; without a current job nothing changes.
    pub fn fail_current(&mut self, message: String)
        requires
            old(self).wf(),
        ensures
            final(self).wf(),
            match old(self)@.state.current {
                Some(id) => exists|d: Duration|
                    final(self)@.state == apply_spec(
                        old(self)@.state,
                        MessageView::JobFailed { id, message: message@ },
                        d,
                    ),
                None => final(self)@.state == old(self)@.state,
            },
            final(self)@.title == old(self)@.title,
            final(self)@.selected == old(self)@.selected,
            final(self)@.expanded == old(self)@.expanded,
            final(self)@.show_log == old(self)@.show_log,
    {
        match self.state.current() {
            Some(id) => {
                self.state.apply(ProgressMessage::JobFailed { id, message });
            },
            None => {},
        }
    }
}

/// The view after a key: arrows move the selection within the rows, Enter
/// or space expands or collapses the selected row, `l` shows or hides the
/// job log; other keys change nothing.
pub open spec fn key_spec(v: UiView, key: Key) -> UiView {
    let vis = visible_spec(v.state.jobs, v.expanded);
    match key {
        Key::Up => UiView { selected: if v.selected > 0 { (v.selected - 1) as nat } else { 0 }, ..v },
        Key::Down => if vis.len() > 0 {
            UiView { selected: if v.selected + 1 < vis.len() { v.selected + 1 } else { (vis.len() - 1) as nat }, ..v }
        } else {
            v
        },
        Key::Enter | Key::Char(' ') => if v.selected < vis.len() {
            let id = vis[v.selected as int];
            UiView { expanded: if v.expanded.contains(id) { v.expanded.remove(id) } else { v.expanded.insert(id) }, ..v }
        } else {
            v
        },
        Key::Char('l') | Key::Char('L') => UiView { show_log: !v.show_log, ..v },
        _ => v,
    }
}

impl UiSession {
    /// Reacts to a key.
    pub fn handle_key(&mut self, key: Key)
        requires
            old(self).wf(),
        ensures
            final(self).wf(),
            final(self)@ == key_spec(old(self)@, key),
    {
        let visible = self.visible_jobs();
        let len = visible.len();
        match key {
            Key::Up => {
                if self.selected > 0 {
                    self.selected = self.selected - 1;
                }
            },
            Key::Down => {
                if len > 0 {
                    self.selected = if self.selected < len - 1 {
                        self.selected + 1
                    } else {
                        len - 1
                    };
                }
            },
            Key::Enter | Key::Char(' ') => {
                if self.selected < len {
                    let id = visible[self.selected].clone();
                    if list_contains(&self.expanded, id.as_str()) {
                        self.remove_expanded(id.as_str());
                    } else {
                        self.insert_expanded(id);
                    }
                }
            },
            Key::Char('l') | Key::Char('L') => {
                self.show_log = !self.show_log;
            },
            _ => {},
        }
    }
}

// ---------------------------------------------------------------------------
// The detail pane

/// The `key: value` lines of a job's details.
pub open spec fn detail_pairs(p: Seq<(Seq<char>, Seq<char>)>) -> Seq<Seq<char>> {
    p.map_values(|kv: (Seq<char>, Seq<char>)| kv.0 + ": "@ + kv.1)
}

/// The log lines of the job `id`, oldest first.
pub open spec fn job_log_lines(logs: Seq<(Option<Seq<char>>, Seq<char>)>, id: Seq<char>) -> Seq<Seq<char>>
    decreases logs.len(),
{
    if logs.len() == 0 {
        Seq::empty()
    } else {
        let rest = job_log_lines(logs.drop_last(), id);
        if logs.last().0 == Some(id) {
            rest.push(logs.last().1)
        } else {
            rest
        }
    }
}

/// The last `k` elements of `s` (all of them when there are fewer).
pub open spec fn last_n<T>(s: Seq<T>, k: nat) -> Seq<T> {
    if k >= s.len() {
        s
    } else {
        s.subrange(s.len() - k, s.len() as int)
    }
}

/// `n - m`, or zero.
pub open spec fn sat_sub(n: nat, m: nat) -> nat {
    if n >= m {
        (n - m) as nat
    } else {
        0
    }
}

/// The first `n` elements of `s` (all of them when there are fewer).
pub open spec fn first_n<T>(s: Seq<T>, n: nat) -> Seq<T> {
    if n >= s.len() {
        s
    } else {
        s.take(n as int)
    }
}

pub open spec fn clock_of(d: Duration) -> Seq<char> {
    crate::progress::clock_text(crate::progress::duration_millis_of(d) as nat / 1000)
}

/// The status a row shows: groups show their aggregate.
pub open spec fn shown_status(jobs: Seq<JobView>, id: Seq<char>) -> JobStatus {
    let j = job_of(jobs, id);
    if j.spec.units == 0 {
        crate::progress::group_status_spec(jobs, id, jobs.len() as nat)
    } else {
        j.status
    }
}

/// The lines about a job: label, status, how long it ran, its detail and
/// its details.
pub open spec fn detail_base(s: StateView, id: Seq<char>, elapsed: Option<Duration>) -> Seq<Seq<char>> {
    let j = job_of(s.jobs, id);
    seq![j.spec.label, "Status: "@ + status_label_spec(shown_status(s.jobs, id))] + match elapsed {
        Some(e) => seq!["Dauer: "@ + clock_of(e)],
        None => Seq::empty(),
    } + match j.detail {
        Some(d) => seq![d],
        None => Seq::empty(),
    } + detail_pairs(j.details)
}

/// The detail pane of the selected job, at most `max` lines of at most
/// `width` characters; with the log shown, the job's newest log lines fill
/// the rest. `elapsed` is how long the job ran, where that is known.
pub open spec fn detail_spec(
    v: UiView,
    selected: Option<Seq<char>>,
    width: nat,
    max: nat,
    elapsed: Option<Duration>,
) -> Seq<Seq<char>> {
    match selected {
        None => seq!["Details"@],
        Some(id) => if !has_job(v.state.jobs, id) {
            Seq::empty()
        } else {
            let base = detail_base(v.state, id, elapsed);
            let all = if v.show_log {
                let head = base + seq![Seq::<char>::empty(), "Job-Log"@];
                head + last_n(job_log_lines(v.state.logs, id), sat_sub(max, head.len()))
            } else {
                base
            };
            truncate_all(first_n(all, max), width)
        },
    }
}

pub open spec fn sel_view(o: Option<&String>) -> Option<Seq<char>> {
    match o {
        Some(s) => Some(s@),
        None => None,
    }
}

/// The detail pane for some running time of the selected job that fits
/// what is known of it.
pub open spec fn detail_result(v: UiView, sel: Option<Seq<char>>, width: nat, max: nat, r: Seq<Seq<char>>) -> bool {
    exists|e: Option<Duration>|
        #[trigger] detail_spec(v, sel, width, max, e) == r && (sel is Some && has_job(v.state.jobs, sel->Some_0)
            ==> elapsed_fits(job_of(v.state.jobs, sel->Some_0), e))
}

/// How long a job ran as far as it is known: its measured time once it
/// ended, some time while it runs, nothing before it started.
pub open spec fn elapsed_fits(j: JobView, e: Option<Duration>) -> bool {
    match j.elapsed {
        Some(d) => e == Some(d),
        None => (e is Some) == j.started,
    }
}

/// Every line cut to `width` characters.
pub open spec fn truncate_all(s: Seq<Seq<char>>, width: nat) -> Seq<Seq<char>> {
    s.map_values(|l: Seq<char>| truncate_spec(l, width))
}

fn push_all_truncated(out: &mut Vec<String>, lines: &Vec<String>, n: usize, width: usize)
    requires
        n <= lines@.len(),
    ensures
        strings_view(final(out)@) == strings_view(old(out)@) + truncate_all(strings_view(lines@).take(n as int), width as nat),
{
    let ghost start = strings_view(out@);
    let ghost lv = strings_view(lines@);
    let mut i: usize = 0;
    while i < n
        invariant
            i <= n,
            n <= lines@.len(),
            lv == strings_view(lines@),
            strings_view(out@) == start + truncate_all(lv.take(i as int), width as nat),
        decreases n - i,
    {
        assert(lv[i as int] == lines@[i as int]@);
        let t = truncate(lines[i].as_str(), width);
        let ghost before = strings_view(out@);
        out.push(t);
        assert(strings_view(out@) =~= before.push(t@));
        assert(truncate_all(lv.take(i + 1), width as nat) =~= truncate_all(lv.take(i as int), width as nat).push(
            truncate_spec(lv[i as int], width as nat),
        ));
        assert(strings_view(out@) =~= start + truncate_all(lv.take(i + 1), width as nat));
        i = i + 1;
    }
}

/// The log lines of the job `id`.
fn job_logs(logs: &Vec<(Option<String>, String)>, id: &str) -> (r: Vec<String>)
    ensures
        strings_view(r@) == job_log_lines(crate::progress::logs_view(logs@), id@),
{
    let ghost lv = crate::progress::logs_view(logs@);
    let mut r: Vec<String> = Vec::new();
    let mut i: usize = 0;
    while i < logs.len()
        invariant
            i <= logs@.len(),
            lv == crate::progress::logs_view(logs@),
            strings_view(r@) == job_log_lines(lv.subrange(0, i as int), id@),
        decreases logs.len() - i,
    {
        let ghost pre = lv.subrange(0, i + 1);
        assert(pre.drop_last() =~= lv.subrange(0, i as int));
        assert(pre.last() == lv[i as int]);
        if opt_str_is(&logs[i].0, id) {
            r.push(logs[i].1.clone());
            assert(strings_view(r@) =~= job_log_lines(pre, id@));
        }
        i = i + 1;
    }
    assert(lv.subrange(0, logs.len() as int) =~= lv);
    r
}

impl UiSession {
    /// The detail pane with `elapsed` as the selected job's running time.
    #[verifier::rlimit(40)]
    pub fn detail_lines_with(
        &self,
        selected_id: Option<&String>,
        width: usize,
        max: usize,
        elapsed: Option<Duration>,
    ) -> (r: Vec<String>)
        requires
            self.wf(),
        ensures
            strings_view(r@) == detail_spec(self@, sel_view(selected_id), width as nat, max as nat, elapsed),
    {
        let id = match selected_id {
            Some(id) => id,
            None => {
                let r = vec![owned("Details")];
                assert(strings_view(r@) =~= seq!["Details"@]);
                return r;
            },
        };
        let job = match self.state.job(id.as_str()) {
            Some(j) => j,
            None => {
                let r: Vec<String> = Vec::new();
                assert(strings_view(r@) =~= Seq::<Seq<char>>::empty());
                return r;
            },
        };
        let ghost jv = job_of(self@.state.jobs, id@);
        assert(job@ == jv);
        let status = if job.spec.units == 0 {
            self.state.group_status(id.as_str())
        } else {
            job.status
        };
        let mut lines: Vec<String> = Vec::new();
        lines.push(job.spec.label.clone());
        lines.push(crate::text::cat("Status: ", status_label(status)));
        match elapsed {
            Some(e) => {
                let c = crate::progress::format_clock(e);
                lines.push(crate::text::cat("Dauer: ", c.as_str()));
            },
            None => {},
        }
        match &job.detail {
            Some(d) => {
                lines.push(d.clone());
            },
            None => {},
        }
        let ghost head = strings_view(lines@);
        let mut k: usize = 0;
        while k < job.details.len()
            invariant
                k <= job.details@.len(),
                strings_view(lines@) == head + detail_pairs(crate::progress::pairs_view(job.details@).take(k as int)),
            decreases job.details.len() - k,
        {
            let line = crate::text::cat3(job.details[k].0.as_str(), ": ", job.details[k].1.as_str());
            let ghost pv = crate::progress::pairs_view(job.details@);
            assert(pv[k as int] == (job.details@[k as int].0@, job.details@[k as int].1@));
            assert(detail_pairs(pv.take(k + 1)) =~= detail_pairs(pv.take(k as int)).push(line@));
            let ghost before = strings_view(lines@);
            lines.push(line);
            assert(strings_view(lines@) =~= before.push(line@));
            assert(strings_view(lines@) =~= head + detail_pairs(crate::progress::pairs_view(job.details@).take(k + 1)));
            k = k + 1;
        }
        assert(crate::progress::pairs_view(job.details@).take(k as int) =~= crate::progress::pairs_view(job.details@));
        assert(strings_view(lines@) =~= detail_base(self@.state, id@, elapsed));
        if self.show_log {
            lines.push(String::new());
            lines.push(owned("Job-Log"));
            let ghost head2 = strings_view(lines@);
            let room = if max >= lines.len() {
                max - lines.len()
            } else {
                0
            };
            let own = job_logs(self.state.logs(), id.as_str());
            let skip = if room >= own.len() {
                0
            } else {
                own.len() - room
            };
            let mut j: usize = skip;
            while j < own.len()
                invariant
                    skip <= j <= own@.len(),
                    strings_view(lines@) == head2 + strings_view(own@).subrange(skip as int, j as int),
                decreases own.len() - j,
            {
                assert(strings_view(own@)[j as int] == own@[j as int]@);
                let ghost before = strings_view(lines@);
                let item = own[j].clone();
                lines.push(item);
                assert(strings_view(lines@) =~= before.push(strings_view(own@)[j as int]));
                assert(strings_view(lines@) =~= head2 + strings_view(own@).subrange(skip as int, j + 1));
                j = j + 1;
            }
            assert(strings_view(lines@) =~= head2 + last_n(strings_view(own@), room as nat));
        }
        let n = if max < lines.len() {
            max
        } else {
            lines.len()
        };
        let mut out: Vec<String> = Vec::new();
        push_all_truncated(&mut out, &lines, n, width);
        assert(strings_view(lines@).take(n as int) =~= first_n(strings_view(lines@), max as nat));
        out
    }

    /// The detail pane of the selected job, as long as it runs so far.
    pub fn detail_lines(&self, selected_id: Option<&String>, width: usize, max: usize) -> (r: Vec<String>)
        requires
            self.wf(),
        ensures
            detail_result(self@, sel_view(selected_id), width as nat, max as nat, strings_view(r@)),
    {
        let elapsed = self.elapsed_of(selected_id);
        let r = self.detail_lines_with(selected_id, width, max, elapsed);
        assert(detail_spec(self@, sel_view(selected_id), width as nat, max as nat, elapsed) == strings_view(r@));
        r
    }

    /// The running time of the job `id`: its measured time once it ended,
    /// else the time since it started.
    fn elapsed_of(&self, selected_id: Option<&String>) -> (e: Option<Duration>)
        requires
            self.wf(),
        ensures
            sel_view(selected_id) is Some && has_job(self@.state.jobs, sel_view(selected_id)->Some_0) ==> elapsed_fits(
                job_of(self@.state.jobs, sel_view(selected_id)->Some_0),
                e,
            ),
    {
        match selected_id {
            Some(id) => match self.state.job(id.as_str()) {
                Some(job) => match &job.elapsed {
                    Some(d) => Some(d.clone()),
                    None => match &job.started {
                        Some(start) => Some(crate::progress::instant_elapsed(start)),
                        None => None,
                    },
                },
                None => None,
            },
            None => None,
        }
    }
}

// ---------------------------------------------------------------------------
// A frame

/// The width a frame is laid out for: at least 32 columns.
pub open spec fn eff_width(width: nat) -> nat {
    if width < 32 {
        32
    } else {
        width
    }
}

/// A small terminal gets the compact layout: current job and log only.
pub open spec fn is_compact(w: nat, h: nat) -> bool {
    w < 80 || h < 24
}

pub open spec fn clamp(x: nat, lo: nat, hi: nat) -> nat {
    if x < lo {
        lo
    } else if x > hi {
        hi
    } else {
        x
    }
}

pub open spec fn header_spec(title: Seq<char>, clock: Seq<char>, since: Duration) -> Seq<char> {
    "◆ vzctl "@ + title + "  "@ + clock + "  seit "@ + clock_of(since)
}

pub open spec fn bar_width_spec(w: nat) -> nat {
    clamp(sat_sub(w, 30), 10, 50)
}

/// A number right-aligned in three columns (`{:>3}`).
pub open spec fn pad3_spec(n: nat) -> Seq<char> {
    pad_left_spec(crate::text::decimal(n), 3)
}

pub open spec fn bar_line_spec(percent: nat, bw: nat, done: nat, total: nat) -> Seq<char> {
    progress_bar_spec(percent, bw) + " "@ + pad3_spec(percent) + "%  "@ + crate::text::decimal(done) + "/"@
        + crate::text::decimal(total) + " Jobs"@
}

/// Header, progress bar with job counts, and a blank line.
pub open spec fn top_lines(v: UiView, w: nat, clock: Seq<char>, since: Duration) -> Seq<Seq<char>> {
    let jobs = v.state.jobs;
    seq![
        truncate_spec(header_spec(v.title, clock, since), w),
        bar_line_spec(
            crate::progress::percent_spec(jobs) as nat,
            bar_width_spec(w),
            crate::progress::count_complete(jobs),
            crate::progress::count_weighted(jobs),
        ),
        Seq::<char>::empty(),
    ]
}

/// The current job and its detail.
pub open spec fn current_lines(s: StateView, w: nat) -> Seq<Seq<char>> {
    match s.current {
        Some(id) => if has_job(s.jobs, id) {
            let j = job_of(s.jobs, id);
            seq![truncate_spec(status_mark_spec(j.status) + " "@ + j.spec.label, w)] + match j.detail {
                Some(d) => seq![truncate_spec("  "@ + d, w)],
                None => Seq::empty(),
            }
        } else {
            Seq::empty()
        },
        None => Seq::empty(),
    }
}

pub open spec fn log_rows(logs: Seq<(Option<Seq<char>>, Seq<char>)>, w: nat) -> Seq<Seq<char>> {
    logs.map_values(|e: (Option<Seq<char>>, Seq<char>)| truncate_spec("  "@ + e.1, w))
}

pub open spec fn min_nat(a: nat, b: nat) -> nat {
    if a < b {
        a
    } else {
        b
    }
}

/// The compact layout: the current job, then as many of the newest log
/// lines as fit (at most eight), then the hint, cut to the height.
pub open spec fn compact_spec(v: UiView, w: nat, h: nat, top: Seq<Seq<char>>) -> Seq<Seq<char>> {
    let head = top + current_lines(v.state, w) + seq![Seq::<char>::empty(), "Log"@];
    let avail = min_nat(sat_sub(h, head.len() + 2), 8);
    first_n(head + log_rows(last_n(v.state.logs, avail), w) + seq!["Ctrl-C: zu Plain wechseln"@], h)
}

pub open spec fn split_spec(w: nat) -> nat {
    clamp(w * 52 / 100, 38, sat_sub(w, 28))
}

pub open spec fn detail_width_spec(w: nat) -> nat {
    sat_sub(w, split_spec(w) + 3)
}

pub open spec fn rows_spec(h: nat) -> nat {
    sat_sub(h, 6)
}

pub open spec fn start_row_spec(selected: nat, h: nat) -> nat {
    sat_sub(selected, sat_sub(rows_spec(h), 1))
}

/// A running job's own measured progress, as a percentage.
pub open spec fn progress_text(j: JobView) -> Seq<char> {
    match j.progress {
        Some((d, t)) => if t > 0 && j.status == JobStatus::Running {
            " "@ + pad3_spec(min_nat((d * 100) as nat, u32::MAX as nat) / (t as nat)) + "%"@
        } else {
            Seq::empty()
        },
        None => Seq::empty(),
    }
}

/// The job list entry of row `vi`: cursor, indentation by depth, status
/// mark, label and progress.
pub open spec fn left_text(v: UiView, vis: Seq<Seq<char>>, vi: nat) -> Seq<char> {
    let jobs = v.state.jobs;
    if vi < vis.len() && has_job(jobs, vis[vi as int]) {
        let id = vis[vi as int];
        let j = job_of(jobs, id);
        (if vi == v.selected {
            "›"@
        } else {
            " "@
        }) + " "@ + repeat_spec(' ', 2 * crate::progress::depth_spec(jobs, id)) + status_mark_spec(
            shown_status(jobs, id),
        ) + " "@ + j.spec.label + progress_text(j)
    } else {
        Seq::empty()
    }
}

/// Row `row` of the wide layout: the job list on the left, the detail pane
/// on the right.
pub open spec fn row_text(v: UiView, vis: Seq<Seq<char>>, details: Seq<Seq<char>>, w: nat, h: nat, row: nat) -> Seq<char> {
    let split = split_spec(w);
    pad_right_spec(truncate_spec(left_text(v, vis, start_row_spec(v.selected, h) + row), split), split) + " │ "@
        + truncate_spec(
        if row < details.len() {
            details[row as int]
        } else {
            Seq::empty()
        },
        detail_width_spec(w),
    )
}

pub open spec fn footer_text() -> Seq<char> {
    "↑↓ wählen · Enter auf-/zuklappen · L Job-Log · Ctrl-C Plain"@
}

pub open spec fn selected_id_spec(v: UiView) -> Option<Seq<char>> {
    let vis = visible_spec(v.state.jobs, v.expanded);
    if v.selected < vis.len() {
        Some(vis[v.selected as int])
    } else {
        None
    }
}

pub open spec fn wide_rows(v: UiView, w: nat, h: nat, e: Option<Duration>) -> Seq<Seq<char>> {
    let vis = visible_spec(v.state.jobs, v.expanded);
    let details = detail_spec(v, selected_id_spec(v), detail_width_spec(w), rows_spec(h), e);
    Seq::new(rows_spec(h), |row: int| row_text(v, vis, details, w, h, row as nat))
}

/// The wide layout: job list beside the selected job's details, scrolled
/// so that the selected row shows, then the key hints, cut to the height.
pub open spec fn wide_spec(v: UiView, w: nat, h: nat, top: Seq<Seq<char>>, e: Option<Duration>) -> Seq<Seq<char>> {
    first_n(top + wide_rows(v, w, h, e) + seq![truncate_spec(footer_text(), w)], h)
}

/// The lines of a frame `width` columns wide and `height` rows high, with
/// the wall clock `clock`, the run going on for `since` and the selected
/// job running for `e`.
pub open spec fn frame_spec(
    v: UiView,
    width: nat,
    height: nat,
    clock: Seq<char>,
    since: Duration,
    e: Option<Duration>,
) -> Seq<Seq<char>> {
    let w = eff_width(width);
    let top = top_lines(v, w, clock, since);
    if is_compact(w, height) {
        compact_spec(v, w, height, top)
    } else {
        wide_spec(v, w, height, top, e)
    }
}

fn pad3(n: u64) -> (r: String)
    ensures
        r@ == pad3_spec(n as nat),
{
    let d = crate::text::u64_to_decimal(n);
    pad_left(d.as_str(), 3)
}

fn first_lines(lines: Vec<String>, h: usize) -> (r: Vec<String>)
    ensures
        strings_view(r@) == first_n(strings_view(lines@), h as nat),
{
    if h >= lines.len() {
        return lines;
    }
    let mut r: Vec<String> = Vec::new();
    let mut i: usize = 0;
    while i < h
        invariant
            i <= h,
            h < lines@.len(),
            strings_view(r@) == strings_view(lines@).take(i as int),
        decreases h - i,
    {
        let ghost before = strings_view(r@);
        let item = lines[i].clone();
        r.push(item);
        assert(strings_view(r@) =~= before.push(strings_view(lines@)[i as int]));
        assert(strings_view(r@) =~= strings_view(lines@).take(i + 1));
        i = i + 1;
    }
    r
}

impl UiSession {
    fn top(&self, w: usize, clock: &str, since: Duration) -> (r: Vec<String>)
        requires
            32 <= w,
        ensures
            strings_view(r@) == top_lines(self@, w as nat, clock@, since),
    {
        let c = crate::progress::format_clock(since);
        let mut header = owned("◆ vzctl ");
        header.append(self.title.as_str());
        header.append("  ");
        header.append(clock);
        header.append("  seit ");
        header.append(c.as_str());
        let percent = self.state.percent();
        let (done, total) = self.state.job_counts();
        let raw = w - 30;
        let bw: usize = if raw < 10 {
            10
        } else if raw > 50 {
            50
        } else {
            raw
        };
        proof {
            law_bar_fits(percent as nat, bw as nat);
        }
        let mut bar = progress_bar(percent, bw);
        bar.append(" ");
        let p = pad3(percent as u64);
        bar.append(p.as_str());
        bar.append("%  ");
        let d = crate::text::u64_to_decimal(done as u64);
        bar.append(d.as_str());
        bar.append("/");
        let t = crate::text::u64_to_decimal(total as u64);
        bar.append(t.as_str());
        bar.append(" Jobs");
        let r = vec![truncate(header.as_str(), w), bar, String::new()];
        assert(strings_view(r@) =~= top_lines(self@, w as nat, clock@, since));
        r
    }

    fn compact_frame(&self, w: usize, h: usize, top: Vec<String>) -> (r: Vec<String>)
        requires
            self.wf(),
            top@.len() == 3,
        ensures
            strings_view(r@) == compact_spec(self@, w as nat, h as nat, strings_view(top@)),
    {
        let mut lines = top;
        let ghost t = strings_view(lines@);
        match &self.state.current() {
            Some(id) => match self.state.job(id.as_str()) {
                Some(job) => {
                    let mut a = owned(status_mark(job.status));
                    a.append(" ");
                    a.append(job.spec.label.as_str());
                    lines.push(truncate(a.as_str(), w));
                    match &job.detail {
                        Some(d) => {
                            let b = crate::text::cat("  ", d.as_str());
                            lines.push(truncate(b.as_str(), w));
                        },
                        None => {},
                    }
                },
                None => {},
            },
            None => {},
        }
        assert(strings_view(lines@) =~= t + current_lines(self@.state, w as nat));
        lines.push(String::new());
        lines.push(owned("Log"));
        let ghost head = strings_view(lines@);
        assert(head =~= t + current_lines(self@.state, w as nat) + seq![Seq::<char>::empty(), "Log"@]);
        let used = lines.len() + 2;
        let room = if h >= used {
            h - used
        } else {
            0
        };
        let avail = if room < 8 {
            room
        } else {
            8
        };
        let logs = self.state.logs();
        let ghost lv = crate::progress::logs_view(logs@);
        let skip = if avail >= logs.len() {
            0
        } else {
            logs.len() - avail
        };
        let mut j: usize = skip;
        while j < logs.len()
            invariant
                skip <= j <= logs@.len(),
                lv == crate::progress::logs_view(logs@),
                strings_view(lines@) == head + log_rows(lv.subrange(skip as int, j as int), w as nat),
            decreases logs.len() - j,
        {
            let line = crate::text::cat("  ", logs[j].1.as_str());
            let row = truncate(line.as_str(), w);
            assert(lv[j as int].1 == logs@[j as int].1@);
            let ghost before = strings_view(lines@);
            lines.push(row);
            assert(strings_view(lines@) =~= before.push(row@));
            assert(log_rows(lv.subrange(skip as int, j + 1), w as nat) =~= log_rows(lv.subrange(skip as int, j as int), w as nat).push(row@));
            j = j + 1;
        }
        assert(lv.subrange(skip as int, lv.len() as int) =~= last_n(lv, avail as nat));
        lines.push(owned("Ctrl-C: zu Plain wechseln"));
        first_lines(lines, h)
    }

    fn left_cell(&self, visible: &Vec<String>, vi: usize) -> (r: String)
        requires
            self.wf(),
        ensures
            r@ == left_text(self@, strings_view(visible@), vi as nat),
    {
        if vi >= visible.len() {
            return String::new();
        }
        let id = visible[vi].as_str();
        assert(strings_view(visible@)[vi as int] == id@);
        let job = match self.state.job(id) {
            Some(j) => j,
            None => {
                return String::new();
            },
        };
        let depth = crate::progress::job_depth(self.state.jobs(), id);
        let status = if job.spec.units == 0 {
            self.state.group_status(id)
        } else {
            job.status
        };
        let mut r = owned(if vi == self.selected {
            "›"
        } else {
            " "
        });
        r.append(" ");
        assert(depth <= self@.state.jobs.len()) by {
            crate::progress::lemma_depth_bound(self@.state.jobs, id@);
        }
        let indent = repeat_char(' ', depth);
        r.append(indent.as_str());
        r.append(indent.as_str());
        assert(repeat_spec(' ', depth as nat) + repeat_spec(' ', depth as nat) =~= repeat_spec(' ', 2 * depth as nat));
        r.append(status_mark(status));
        r.append(" ");
        r.append(job.spec.label.as_str());
        match job.progress {
            Some((d, t)) => {
                if t > 0 && job.status == JobStatus::Running {
                    let scaled: u64 = (d as u64) * 100;
                    let capped: u64 = if scaled > 0xffff_ffff {
                        0xffff_ffff
                    } else {
                        scaled
                    };
                    let pct = capped / (t as u64);
                    r.append(" ");
                    let p = pad3(pct as u64);
                    r.append(p.as_str());
                    r.append("%");
                }
            },
            None => {},
        }
        r
    }

    fn wide_frame(&self, w: usize, h: usize, top: Vec<String>, e: Option<Duration>) -> (r: Vec<String>)
        requires
            self.wf(),
            80 <= w <= usize::MAX / 52,
            top@.len() == 3,
        ensures
            strings_view(r@) == wide_spec(self@, w as nat, h as nat, strings_view(top@), e),
    {
        let visible = self.visible_jobs();
        let ghost vis = strings_view(visible@);
        let raw = w * 52 / 100;
        let split: usize = if raw < 38 {
            38
        } else if raw > w - 28 {
            w - 28
        } else {
            raw
        };
        let dw = w - (split + 3);
        let rows = if h >= 6 {
            h - 6
        } else {
            0
        };
        let selected_id = if self.selected < visible.len() {
            Some(&visible[self.selected])
        } else {
            None
        };
        assert(sel_view(selected_id) == selected_id_spec(self@));
        let details = self.detail_lines_with(selected_id, dw, rows, e);
        let ghost dv = strings_view(details@);
        let back = if rows >= 1 {
            rows - 1
        } else {
            0
        };
        let start = if self.selected >= back {
            self.selected - back
        } else {
            0
        };
        let mut lines = top;
        let ghost t = strings_view(lines@);
        let mut row: usize = 0;
        while row < rows
            invariant
                row <= rows,
                rows == rows_spec(h as nat),
                start == start_row_spec(self@.selected, h as nat),
                split == split_spec(w as nat),
                dw == detail_width_spec(w as nat),
                self.wf(),
                vis == strings_view(visible@),
                vis == visible_spec(self@.state.jobs, self@.expanded),
                dv == strings_view(details@),
                dv == detail_spec(self@, selected_id_spec(self@), dw as nat, rows as nat, e),
                start + rows <= usize::MAX + 1,
                strings_view(lines@) == t + wide_rows(self@, w as nat, h as nat, e).take(row as int),
            decreases rows - row,
        {
            let left = self.left_cell(&visible, start + row);
            let cut = truncate(left.as_str(), split);
            let mut line = pad_right(cut.as_str(), split);
            line.append(" │ ");
            proof {
                reveal_strlit("");
            }
            let right_src: &str = if row < details.len() {
                assert(dv[row as int] == details@[row as int]@);
                details[row].as_str()
            } else {
                ""
            };
            assert(right_src@ == (if row < dv.len() {
                dv[row as int]
            } else {
                Seq::<char>::empty()
            }));
            let right = truncate(right_src, dw);
            line.append(right.as_str());
            assert(line@ == row_text(self@, vis, dv, w as nat, h as nat, row as nat));
            let ghost before = strings_view(lines@);
            lines.push(line);
            assert(strings_view(lines@) =~= before.push(row_text(self@, vis, dv, w as nat, h as nat, row as nat)));
            assert(wide_rows(self@, w as nat, h as nat, e).take(row + 1) =~= wide_rows(self@, w as nat, h as nat, e).take(
                row as int,
            ).push(row_text(self@, vis, dv, w as nat, h as nat, row as nat)));
            row = row + 1;
        }
        assert(wide_rows(self@, w as nat, h as nat, e).take(rows as int) =~= wide_rows(self@, w as nat, h as nat, e));
        lines.push(truncate("↑↓ wählen · Enter auf-/zuklappen · L Job-Log · Ctrl-C Plain", w));
        first_lines(lines, h)
    }

    /// The lines of a frame, given the wall clock, how long the run has been
    /// going and how long the selected job has run.
    pub fn render_frame(&self, width: usize, height: usize, clock: &str, since: Duration, e: Option<Duration>) -> (r: Vec<String>)
        requires
            self.wf(),
            width <= usize::MAX / 52,
        ensures
            strings_view(r@) == frame_spec(self@, width as nat, height as nat, clock@, since, e),
    {
        let w = if width < 32 {
            32
        } else {
            width
        };
        let top = self.top(w, clock, since);
        assert(strings_view(top@).len() == 3);
        if w < 80 || height < 24 {
            self.compact_frame(w, height, top)
        } else {
            self.wide_frame(w, height, top, e)
        }
    }
}

/// A frame for some running times of the run and of the selected job that
/// fit what is known of them.
pub open spec fn frame_result(v: UiView, width: nat, height: nat, clock: Seq<char>, r: Seq<Seq<char>>) -> bool {
    exists|since: Duration, e: Option<Duration>|
        #[trigger] frame_spec(v, width, height, clock, since, e) == r && (selected_id_spec(v) is Some && has_job(
            v.state.jobs,
            selected_id_spec(v)->Some_0,
        ) ==> elapsed_fits(job_of(v.state.jobs, selected_id_spec(v)->Some_0), e))
}

impl UiSession {
    /// The lines of the frame to draw now, `width` columns by `height`
    /// rows, with the wall clock reading `clock`.
    pub fn render_lines(&self, width: usize, height: usize, clock: &str) -> (r: Vec<String>)
        requires
            self.wf(),
            width <= usize::MAX / 52,
        ensures
            frame_result(self@, width as nat, height as nat, clock@, strings_view(r@)),
    {
        let since = self.state.running_time();
        let visible = self.visible_jobs();
        let selected_id = if self.selected < visible.len() {
            Some(&visible[self.selected])
        } else {
            None
        };
        assert(sel_view(selected_id) == selected_id_spec(self@));
        let e = self.elapsed_of(selected_id);
        let r = self.render_frame(width, height, clock, since, e);
        assert(frame_spec(self@, width as nat, height as nat, clock@, since, e) == strings_view(r@));
        r
    }
}

// ---------------------------------------------------------------------------
// Laws

/// Every line is at most `w` characters.
pub open spec fn all_fit(s: Seq<Seq<char>>, w: nat) -> bool {
    forall|i: int| 0 <= i < s.len() ==> #[trigger] s[i].len() <= w
}

pub proof fn lemma_truncate_fits(v: Seq<char>, w: nat)
    ensures
        truncate_spec(v, w).len() <= w,
{
}

pub proof fn lemma_decimal_len(n: nat)
    requires
        n < 1000,
    ensures
        1 <= crate::text::decimal(n).len() <= 3,
        n < 100 ==> crate::text::decimal(n).len() <= 2,
        n < 10 ==> crate::text::decimal(n).len() == 1,
    decreases n,
{
    reveal_with_fuel(crate::text::decimal, 3);
    if n >= 10 {
        lemma_decimal_len(n / 10);
    }
}

pub proof fn lemma_complete_le_weighted(jobs: Seq<JobView>)
    ensures
        crate::progress::count_complete(jobs) <= crate::progress::count_weighted(jobs),
    decreases jobs.len(),
{
    if jobs.len() > 0 {
        lemma_complete_le_weighted(jobs.drop_last());
    }
}

pub proof fn lemma_first_n_fits(s: Seq<Seq<char>>, n: nat, w: nat)
    requires
        all_fit(s, w),
    ensures
        all_fit(first_n(s, n), w),
        first_n(s, n).len() <= n,
        first_n(s, n).len() <= s.len(),
{
    if n < s.len() {
        assert forall|i: int| 0 <= i < first_n(s, n).len() implies #[trigger] first_n(s, n)[i].len() <= w by {
            assert(first_n(s, n)[i] == s[i]);
        }
    }
}

pub proof fn lemma_concat_fits(a: Seq<Seq<char>>, b: Seq<Seq<char>>, w: nat)
    requires
        all_fit(a, w),
        all_fit(b, w),
    ensures
        all_fit(a + b, w),
{
    assert forall|i: int| 0 <= i < (a + b).len() implies #[trigger] (a + b)[i].len() <= w by {
        if i < a.len() {
            assert((a + b)[i] == a[i]);
        } else {
            assert((a + b)[i] == b[i - a.len()]);
        }
    }
}

/// The three lines at the top fit a terminal at least 32 columns wide while
/// fewer than a thousand jobs are weighed.
pub proof fn lemma_top_fits(v: UiView, w: nat, clock: Seq<char>, since: Duration)
    requires
        w >= 32,
        crate::progress::count_weighted(v.state.jobs) < 1000,
    ensures
        all_fit(top_lines(v, w, clock, since), w),
        top_lines(v, w, clock, since).len() == 3,
{
    let jobs = v.state.jobs;
    let p = crate::progress::percent_spec(jobs) as nat;
    let done = crate::progress::count_complete(jobs);
    let total = crate::progress::count_weighted(jobs);
    let bw = bar_width_spec(w);
    lemma_complete_le_weighted(jobs);
    lemma_decimal_len(p);
    lemma_decimal_len(done);
    lemma_decimal_len(total);
    reveal_strlit(" ");
    reveal_strlit("%  ");
    reveal_strlit("/");
    reveal_strlit(" Jobs");
    assert(p <= 100);
    assert(bw * p / 100 <= bw) by (nonlinear_arith)
        requires
            p <= 100,
    ;
    assert(progress_bar_spec(p, bw).len() == bw + 2);
    assert(pad3_spec(p).len() == 3);
    let line = bar_line_spec(p, bw, done, total);
    assert(line.len() == bw + 2 + 1 + 3 + 3 + crate::text::decimal(done).len() + 1 + crate::text::decimal(total).len() + 5);
    lemma_truncate_fits(header_spec(v.title, clock, since), w);
    let t = top_lines(v, w, clock, since);
    assert(t[1] == line);
    assert(t[2].len() == 0);
}

/// A frame has no more lines than the terminal has rows, and while fewer
/// than a thousand jobs are weighed no line is wider than the terminal (a
/// terminal narrower than 32 columns is laid out as 32 wide).
pub proof fn law_frame_fits_terminal(
    v: UiView,
    width: nat,
    height: nat,
    clock: Seq<char>,
    since: Duration,
    e: Option<Duration>,
)
    requires
        crate::progress::count_weighted(v.state.jobs) < 1000,
    ensures
        frame_spec(v, width, height, clock, since, e).len() <= height,
        all_fit(frame_spec(v, width, height, clock, since, e), eff_width(width)),
{
    let w = eff_width(width);
    let top = top_lines(v, w, clock, since);
    lemma_top_fits(v, w, clock, since);
    reveal_strlit("Log");
    reveal_strlit("Ctrl-C: zu Plain wechseln");
    if is_compact(w, height) {
        let cur = current_lines(v.state, w);
        assert(all_fit(cur, w)) by {
            match v.state.current {
                Some(id) => if has_job(v.state.jobs, id) {
                    let j = job_of(v.state.jobs, id);
                    lemma_truncate_fits(status_mark_spec(j.status) + " "@ + j.spec.label, w);
                    match j.detail {
                        Some(d) => {
                            lemma_truncate_fits("  "@ + d, w);
                        },
                        None => {},
                    }
                },
                None => {},
            }
        }
        let tail2 = seq![Seq::<char>::empty(), "Log"@];
        assert(all_fit(tail2, w));
        lemma_concat_fits(top, cur, w);
        lemma_concat_fits(top + cur, tail2, w);
        let head = top + cur + tail2;
        let avail = min_nat(sat_sub(height, head.len() + 2), 8);
        let logs = log_rows(last_n(v.state.logs, avail), w);
        assert(all_fit(logs, w)) by {
            let ls = last_n(v.state.logs, avail);
            assert forall|i: int| 0 <= i < logs.len() implies #[trigger] logs[i].len() <= w by {
                lemma_truncate_fits("  "@ + ls[i].1, w);
            }
        }
        lemma_concat_fits(head, logs, w);
        let ctrl = seq!["Ctrl-C: zu Plain wechseln"@];
        assert(all_fit(ctrl, w));
        lemma_concat_fits(head + logs, ctrl, w);
        lemma_first_n_fits(head + logs + ctrl, height, w);
    } else {
        let rows = wide_rows(v, w, height, e);
        let split = split_spec(w);
        let dw = detail_width_spec(w);
        assert(split + 3 + dw == w);
        reveal_strlit(" │ ");
        assert(all_fit(rows, w)) by {
            let vis = visible_spec(v.state.jobs, v.expanded);
            let details = detail_spec(v, selected_id_spec(v), dw, rows_spec(height), e);
            assert forall|i: int| 0 <= i < rows.len() implies #[trigger] rows[i].len() <= w by {
                let left = left_text(v, vis, start_row_spec(v.selected, height) + i as nat);
                let right = if (i as nat) < details.len() {
                    details[i]
                } else {
                    Seq::<char>::empty()
                };
                lemma_truncate_fits(left, split);
                lemma_truncate_fits(right, dw);
                assert(rows[i] == row_text(v, vis, details, w, height, i as nat));
            }
        }
        let foot = seq![truncate_spec(footer_text(), w)];
        lemma_truncate_fits(footer_text(), w);
        assert(all_fit(foot, w));
        lemma_concat_fits(top, rows, w);
        lemma_concat_fits(top + rows, foot, w);
        lemma_first_n_fits(top + rows + foot, height, w);
    }
}

/// In the wide layout the selected job is always scrolled into view: its
/// row is among the rows drawn and starts with the cursor.
pub proof fn law_selection_in_view(
    v: UiView,
    width: nat,
    height: nat,
    clock: Seq<char>,
    since: Duration,
    e: Option<Duration>,
)
    requires
        !is_compact(eff_width(width), height),
        v.selected < visible_spec(v.state.jobs, v.expanded).len(),
        has_job(v.state.jobs, visible_spec(v.state.jobs, v.expanded)[v.selected as int]),
    ensures
        ({
            let f = frame_spec(v, width, height, clock, since, e);
            let k = 3 + v.selected - start_row_spec(v.selected, height);
            &&& k < f.len()
            &&& f[k].len() > 0
            &&& f[k][0] == '›'
        }),
{
    let w = eff_width(width);
    let top = top_lines(v, w, clock, since);
    let rows = wide_rows(v, w, height, e);
    let foot = seq![truncate_spec(footer_text(), w)];
    let all = top + rows + foot;
    let idx = (v.selected - start_row_spec(v.selected, height)) as nat;
    assert(idx < rows_spec(height));
    let vis = visible_spec(v.state.jobs, v.expanded);
    let details = detail_spec(v, selected_id_spec(v), detail_width_spec(w), rows_spec(height), e);
    let left = left_text(v, vis, start_row_spec(v.selected, height) + idx);
    assert(start_row_spec(v.selected, height) + idx == v.selected);
    reveal_strlit("›");
    assert(left[0] == '›');
    let split = split_spec(w);
    assert(split >= 38);
    let cut = truncate_spec(left, split);
    assert(cut[0] == '›');
    assert(rows[idx as int] == row_text(v, vis, details, w, height, idx));
    assert(rows[idx as int][0] == '›');
    assert(all[3 + idx as int] == rows[idx as int]);
    assert(all.len() == 3 + rows_spec(height) + 1);
    assert(first_n(all, height)[3 + idx as int] == all[3 + idx as int]);
}

} // verus!
