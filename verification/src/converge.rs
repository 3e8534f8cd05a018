//! What an apply does to a stack's networks, network attachments and port
//! forwards, given what the supervisor reports.
use crate::reconciler::{Failure, EXIT_INVALID, EXIT_STEP};
use crate::text::{cat, cat3, owned, str_eq};
use vstd::prelude::*;

verus! {

/// A network as the stack declares it.
pub struct NetworkDecl {
    pub name: String,
    pub cidr: String,
    /// The network's mode as the configuration writes it.
    pub mode: String,
    pub nat_egress: bool,
}

/// A network as the supervisor lists it; a field it lacks, or holds in
/// another type, is `None`.
pub struct NetworkRecord {
    pub cidr: Option<String>,
    pub mode: Option<String>,
    pub nat_egress: Option<bool>,
}

/// What an apply does to one declared network.
#[derive(Clone, Copy, Debug, PartialEq, Eq, Structural)]
pub enum NetworkStep {
    /// It exists as declared.
    Keep,
    /// It does not exist: create it.
    Create,
    /// It exists otherwise: detach its VMs, delete it and create it anew.
    Recreate,
}

pub open spec fn text_is(o: Option<String>, s: Seq<char>) -> bool {
    match o {
        Some(t) => t@ == s,
        None => false,
    }
}

/// The existing network matches the declaration: the same range and mode,
/// and the same egress setting (which is on where the record says nothing).
pub open spec fn network_matches(decl: NetworkDecl, rec: NetworkRecord) -> bool {
    text_is(rec.cidr, decl.cidr@) && text_is(rec.mode, decl.mode@) && match rec.nat_egress {
        Some(b) => b,
        None => true,
    } == decl.nat_egress
}

pub open spec fn network_step_spec(decl: NetworkDecl, existing: Option<NetworkRecord>, force: bool) -> Result<
    NetworkStep,
    Seq<char>,
> {
    match existing {
        None => Ok(NetworkStep::Create),
        Some(rec) => if network_matches(decl, rec) {
            Ok(NetworkStep::Keep)
        } else if !force {
            Err("network "@ + decl.name@ + " requires recreate; use --force"@)
        } else {
            Ok(NetworkStep::Recreate)
        },
    }
}

fn text_equals(o: &Option<String>, s: &str) -> (r: bool)
    ensures
        r == text_is(*o, s@),
{
    match o {
        Some(t) => str_eq(t.as_str(), s),
        None => false,
    }
}

/// What to do with a declared network given the supervisor's record of it,
/// where it has one; a changed network is only made anew with `--force`.
pub fn network_step(decl: &NetworkDecl, existing: Option<&NetworkRecord>, force: bool) -> (r: Result<NetworkStep, Failure>)
    ensures
        match network_step_spec(
            *decl,
            match existing {
                Some(e) => Some(*e),
                None => None,
            },
            force,
        ) {
            Ok(step) => r == Ok::<NetworkStep, Failure>(step),
            Err(m) => r matches Err(f) && f.code == EXIT_INVALID && f.message@ == m,
        },
{
    let rec = match existing {
        None => return Ok(NetworkStep::Create),
        Some(rec) => rec,
    };
    let egress = match rec.nat_egress {
        Some(b) => b,
        None => true,
    };
    if text_equals(&rec.cidr, decl.cidr.as_str()) && text_equals(&rec.mode, decl.mode.as_str()) && egress
        == decl.nat_egress {
        Ok(NetworkStep::Keep)
    } else if !force {
        Err(Failure { code: EXIT_INVALID, message: cat3("network ", decl.name.as_str(), " requires recreate; use --force") })
    } else {
        Ok(NetworkStep::Recreate)
    }
}

/// A declared network that exists is kept exactly when the supervisor records
/// it with the declared range, the declared mode and the declared egress
/// setting (egress counts as on where the record says nothing). Otherwise it
/// is made anew with `--force` and refused without it; one that does not
/// exist is created.
pub proof fn law_network_kept_only_as_declared(decl: NetworkDecl, rec: NetworkRecord, force: bool)
    ensures
        (network_step_spec(decl, Some(rec), force) == Ok::<NetworkStep, Seq<char>>(NetworkStep::Keep)) <==> (
        rec.cidr matches Some(c) && c@ == decl.cidr@) && (rec.mode matches Some(m) && m@ == decl.mode@) && (
        rec.nat_egress == Some(decl.nat_egress) || (rec.nat_egress is None && decl.nat_egress)),
        network_step_spec(decl, Some(rec), force) != Ok::<NetworkStep, Seq<char>>(NetworkStep::Keep) ==> if force {
            network_step_spec(decl, Some(rec), force) == Ok::<NetworkStep, Seq<char>>(NetworkStep::Recreate)
        } else {
            network_step_spec(decl, Some(rec), force) == Err::<NetworkStep, Seq<char>>(
                "network "@ + decl.name@ + " requires recreate; use --force"@,
            )
        },
        network_step_spec(decl, None, force) == Ok::<NetworkStep, Seq<char>>(NetworkStep::Create),
{
    assert(text_is(rec.cidr, decl.cidr@) == (rec.cidr matches Some(c) && c@ == decl.cidr@));
    assert(text_is(rec.mode, decl.mode@) == (rec.mode matches Some(m) && m@ == decl.mode@));
}

/// A recorded network whose mode is not the declared one is never kept.
pub proof fn law_changed_mode_is_not_kept(decl: NetworkDecl, rec: NetworkRecord, force: bool)
    requires
        !(rec.mode matches Some(m) && m@ == decl.mode@),
    ensures
        network_step_spec(decl, Some(rec), force) != Ok::<NetworkStep, Seq<char>>(NetworkStep::Keep),
{
    law_network_kept_only_as_declared(decl, rec, force);
}

/// An attachment of a VM to a network at an address.
pub struct Attachment {
    pub vm_id: String,
    pub network: String,
    pub ip: String,
}

/// An attachment as the supervisor lists it; a field it lacks, or holds in
/// another type, is `None`.
pub struct AttachmentRow {
    pub vm_id: Option<String>,
    pub network: Option<String>,
    pub ip: Option<String>,
    pub project: Option<String>,
    pub stack: Option<String>,
}

pub open spec fn or_empty(o: Option<String>) -> Seq<char> {
    match o {
        Some(t) => t@,
        None => Seq::empty(),
    }
}

pub open spec fn same_triple(d: Attachment, vm_id: Seq<char>, network: Seq<char>, ip: Seq<char>) -> bool {
    d.vm_id@ == vm_id && d.network@ == network && d.ip@ == ip
}

/// The row is declared: some declared attachment has its VM, network and
/// address (a missing field reads as empty text).
pub open spec fn row_declared(desired: Seq<Attachment>, row: AttachmentRow) -> bool {
    exists|i: int|
        0 <= i < desired.len() && #[trigger] same_triple(
            desired[i],
            or_empty(row.vm_id),
            or_empty(row.network),
            or_empty(row.ip),
        )
}

/// The row belongs to the stack and is not declared: an apply or up
/// detaches it before attaching anything.
pub open spec fn row_to_detach(desired: Seq<Attachment>, row: AttachmentRow, project: Seq<char>, stack: Seq<char>) -> bool {
    text_is(row.project, project) && text_is(row.stack, stack) && !row_declared(desired, row)
}

/// The declared attachment is already in place exactly: the supervisor
/// lists its VM, network and address together.
pub open spec fn in_place(rows: Seq<AttachmentRow>, d: Attachment) -> bool {
    exists|i: int|
        0 <= i < rows.len() && #[trigger] text_is(rows[i].vm_id, d.vm_id@) && text_is(rows[i].network, d.network@)
            && text_is(rows[i].ip, d.ip@)
}

fn opt_text(o: &Option<String>) -> (r: &str)
    ensures
        r@ == or_empty(*o),
{
    match o {
        Some(t) => t.as_str(),
        None => {
            proof {
                reveal_strlit("");
            }
            ""
        },
    }
}

fn is_declared(desired: &[Attachment], vm: &str, net: &str, ip: &str) -> (r: bool)
    ensures
        r == exists|i: int| 0 <= i < desired@.len() && #[trigger] same_triple(desired@[i], vm@, net@, ip@),
{
    let mut k: usize = 0;
    while k < desired.len()
        invariant
            k <= desired@.len(),
            forall|m: int| 0 <= m < k ==> !#[trigger] same_triple(desired@[m], vm@, net@, ip@),
        decreases desired.len() - k,
    {
        let d = &desired[k];
        if str_eq(d.vm_id.as_str(), vm) && str_eq(d.network.as_str(), net) && str_eq(d.ip.as_str(), ip) {
            assert(same_triple(desired@[k as int], vm@, net@, ip@));
            return true;
        }
        k = k + 1;
    }
    false
}

fn is_in_place(rows: &[AttachmentRow], d: &Attachment) -> (r: bool)
    ensures
        r == in_place(rows@, *d),
{
    let mut k: usize = 0;
    while k < rows.len()
        invariant
            k <= rows@.len(),
            forall|m: int|
                0 <= m < k ==> !(#[trigger] text_is(rows@[m].vm_id, d.vm_id@) && text_is(rows@[m].network, d.network@)
                    && text_is(rows@[m].ip, d.ip@)),
        decreases rows.len() - k,
    {
        let row = &rows[k];
        if text_equals(&row.vm_id, d.vm_id.as_str()) && text_equals(&row.network, d.network.as_str())
            && text_equals(&row.ip, d.ip.as_str()) {
            assert(text_is(rows@[k as int].vm_id, d.vm_id@));
            return true;
        }
        k = k + 1;
    }
    false
}

/// Which of the supervisor's rows to detach: those of the stack that no
/// declared attachment matches, by index, in order.
pub fn attachments_to_detach(desired: &[Attachment], rows: &[AttachmentRow], project: &str, stack: &str) -> (r: Vec<usize>)
    ensures
        forall|k: int| 0 <= k < r@.len() ==> (#[trigger] r@[k] as int) < rows@.len(),
        forall|k: int, l: int| 0 <= k < l < r@.len() ==> r@[k] < r@[l],
        forall|i: int|
            0 <= i < rows@.len() ==> (r@.contains(i as usize) <==> row_to_detach(
                desired@,
                #[trigger] rows@[i],
                project@,
                stack@,
            )),
{
    let mut out: Vec<usize> = Vec::new();
    let mut i: usize = 0;
    while i < rows.len()
        invariant
            i <= rows@.len(),
            forall|k: int| 0 <= k < out@.len() ==> (#[trigger] out@[k] as int) < i,
            forall|k: int, l: int| 0 <= k < l < out@.len() ==> out@[k] < out@[l],
            forall|j: int|
                0 <= j < i ==> (out@.contains(j as usize) <==> row_to_detach(
                    desired@,
                    #[trigger] rows@[j],
                    project@,
                    stack@,
                )),
        decreases rows.len() - i,
    {
        let row = &rows[i];
        let mine = text_equals(&row.project, project) && text_equals(&row.stack, stack);
        let mut declared = false;
        if mine {
            declared = is_declared(desired, opt_text(&row.vm_id), opt_text(&row.network), opt_text(&row.ip));
        }
        let ghost before = out@;
        if mine && !declared {
            out.push(i);
            assert(out@ == before.push(i));
        }
        assert forall|j: int|
            0 <= j < i + 1 implies (out@.contains(j as usize) <==> row_to_detach(
                desired@,
                #[trigger] rows@[j],
                project@,
                stack@,
            )) by {
            if j < i {
                if before.contains(j as usize) {
                    let k = choose|k: int| 0 <= k < before.len() && before[k] == j as usize;
                    assert(out@[k] == j as usize);
                }
                if out@.contains(j as usize) {
                    let k = choose|k: int| 0 <= k < out@.len() && out@[k] == j as usize;
                    if k < before.len() {
                        assert(before[k] == j as usize);
                    }
                }
            } else {
                if out@.contains(i) && !(mine && !declared) {
                    let k = choose|k: int| 0 <= k < out@.len() && out@[k] == i;
                    assert(before[k] == i);
                }
                if mine && !declared {
                    assert(out@[before.len() as int] == i);
                }
            }
        }
        i = i + 1;
    }
    out
}

/// Which declared attachments to make, by index, in order: those the
/// supervisor does not list exactly.
pub fn attachments_to_make(desired: &[Attachment], rows: &[AttachmentRow]) -> (r: Vec<usize>)
    ensures
        forall|k: int| 0 <= k < r@.len() ==> (#[trigger] r@[k] as int) < desired@.len(),
        forall|k: int, l: int| 0 <= k < l < r@.len() ==> r@[k] < r@[l],
        forall|i: int|
            0 <= i < desired@.len() ==> (r@.contains(i as usize) <==> !in_place(rows@, #[trigger] desired@[i])),
{
    let mut out: Vec<usize> = Vec::new();
    let mut i: usize = 0;
    while i < desired.len()
        invariant
            i <= desired@.len(),
            forall|k: int| 0 <= k < out@.len() ==> (#[trigger] out@[k] as int) < i,
            forall|k: int, l: int| 0 <= k < l < out@.len() ==> out@[k] < out@[l],
            forall|j: int| 0 <= j < i ==> (out@.contains(j as usize) <==> !in_place(rows@, #[trigger] desired@[j])),
        decreases desired.len() - i,
    {
        let d = &desired[i];
        let present = is_in_place(rows, d);
        let ghost before = out@;
        if !present {
            out.push(i);
        }
        assert forall|j: int| 0 <= j < i + 1 implies (out@.contains(j as usize) <==> !in_place(
            rows@,
            #[trigger] desired@[j],
        )) by {
            if j < i {
                if before.contains(j as usize) {
                    let k = choose|k: int| 0 <= k < before.len() && before[k] == j as usize;
                    assert(out@[k] == j as usize);
                }
                if out@.contains(j as usize) {
                    let k = choose|k: int| 0 <= k < out@.len() && out@[k] == j as usize;
                    if k < before.len() {
                        assert(before[k] == j as usize);
                    }
                }
            } else {
                if out@.contains(i) && present {
                    let k = choose|k: int| 0 <= k < out@.len() && out@[k] == i;
                    assert(before[k] == i);
                }
                if !present {
                    assert(out@[before.len() as int] == i);
                }
            }
        }
        i = i + 1;
    }
    out
}

/// The address a forwarded port reaches: that of the first attachment of
/// the stack's VM `vm_id`, where it is text.
pub open spec fn guest_ip_spec(rows: Seq<AttachmentRow>, vm_id: Seq<char>, project: Seq<char>, stack: Seq<char>) -> Option<
    Seq<char>,
>
    decreases rows.len(),
{
    if rows.len() == 0 {
        None
    } else if text_is(rows[0].vm_id, vm_id) && text_is(rows[0].project, project) && text_is(rows[0].stack, stack) {
        match rows[0].ip {
            Some(ip) => Some(ip@),
            None => None,
        }
    } else {
        guest_ip_spec(rows.drop_first(), vm_id, project, stack)
    }
}

/// The guest address of the port forward `source` to the stack's VM
/// `vm_id`; without one the forward cannot be set up.
pub fn guest_ip(rows: &[AttachmentRow], vm_id: &str, project: &str, stack: &str, source: &str) -> (r: Result<
    String,
    Failure,
>)
    ensures
        match guest_ip_spec(rows@, vm_id@, project@, stack@) {
            Some(ip) => r matches Ok(s) && s@ == ip,
            None => r matches Err(f) && f.code == EXIT_STEP && f.message@ == "port forward "@ + source@
                + " needs attachment IP for VM "@ + vm_id@,
        },
{
    let mut i: usize = 0;
    assert(rows@.skip(0) =~= rows@);
    while i < rows.len()
        invariant
            i <= rows@.len(),
            guest_ip_spec(rows@, vm_id@, project@, stack@) == guest_ip_spec(rows@.skip(i as int), vm_id@, project@, stack@),
        decreases rows.len() - i,
    {
        assert(rows@.skip(i as int)[0] == rows@[i as int]);
        assert(rows@.skip(i as int).drop_first() =~= rows@.skip(i + 1));
        let row = &rows[i];
        if text_equals(&row.vm_id, vm_id) && text_equals(&row.project, project) && text_equals(&row.stack, stack) {
            return match &row.ip {
                Some(ip) => Ok(ip.clone()),
                None => Err(no_guest_ip(source, vm_id)),
            };
        }
        i = i + 1;
    }
    Err(no_guest_ip(source, vm_id))
}

fn no_guest_ip(source: &str, vm_id: &str) -> (f: Failure)
    ensures
        f.code == EXIT_STEP,
        f.message@ == "port forward "@ + source@ + " needs attachment IP for VM "@ + vm_id@,
{
    let mut message = cat3("port forward ", source, " needs attachment IP for VM ");
    message.append(vm_id);
    Failure { code: EXIT_STEP, message }
}

} // verus!
