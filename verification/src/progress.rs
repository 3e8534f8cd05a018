//! Apply progress: the job tree of an apply or down run, its status
//! aggregation, weighted percentage, log buffer and the reporter that feeds it.
use crate::text::{cat, cat3, decimal, join, owned, str_eq, strings_view, u64_to_decimal};
use std::sync::atomic::AtomicU8;
use std::sync::mpsc::Sender;
use std::sync::Arc;
use std::time::Duration;
use std::time::Instant;
use crate::oidc::duration_nanos_of;
use crate::json::{as_str, at, get, json_of, member_str, parse_json, Json};
use vstd::prelude::*;

verus! {

/// Lines kept in the log buffer.
pub const MAX_LOG_LINES: usize = 200;

/// Fixed-point resolution of a job's completed fraction.
pub const FRACTION_SCALE: u64 = 1_000_000;

#[verifier::external_type_specification]
#[verifier::external_body]
pub struct ExInstant(std::time::Instant);

#[verifier::external_type_specification]
#[verifier::external_body]
#[verifier::reject_recursive_types(T)]
pub struct ExSender<T>(std::sync::mpsc::Sender<T>);

/// The current instant (`Instant::now`); nothing is promised of its value.
#[verifier::external_body]
fn instant_now() -> Instant {
    Instant::now()
}

/// The time since `started` (`Instant::elapsed`); nothing is promised of its value.
#[verifier::external_body]
pub(crate) fn instant_elapsed(started: &Instant) -> Duration {
    started.elapsed()
}

/// `Duration` is `Copy`: its clone is the same value.
pub assume_specification[ <Duration as Clone>::clone ](d: &Duration) -> (r: Duration)
    ensures
        r == *d,
;

/// Whole milliseconds of a duration.
pub uninterp spec fn duration_millis_of(d: Duration) -> u128;

/// A zero duration (`Duration::ZERO`): it holds no milliseconds and no
/// nanoseconds; only the zero duration holds no nanoseconds.
#[verifier::external_body]
fn duration_zero() -> (r: Duration)
    ensures
        duration_millis_of(r) == 0,
        duration_nanos_of(r) == 0,
{
    Duration::ZERO
}

/// Whole milliseconds of a duration (`Duration::as_millis`). The whole seconds
/// of the duration (`Duration::as_secs`, a `u64`) are these divided by 1000.
#[verifier::external_body]
fn duration_millis(d: &Duration) -> (r: u128)
    ensures
        r == duration_millis_of(*d),
        r / 1000 <= u64::MAX,
{
    d.as_millis()
}

/// Sends a message on a channel (`Sender::send`); whether a receiver still
/// listens is not known, and a closed channel drops the message.
#[verifier::external_body]
fn channel_send(tx: &Sender<ProgressMessage>, message: ProgressMessage) {
    let _ = tx.send(message);
}

/// Another handle to the same channel (`Sender::clone`).
#[verifier::external_body]
fn channel_clone(tx: &Sender<ProgressMessage>) -> Sender<ProgressMessage> {
    tx.clone()
}

/// Another handle to the same shared percentage (`Arc::clone`): it points at
/// the very atomic that `value` points at.
#[verifier::external_body]
fn arc_percent_clone(value: &Arc<AtomicU8>) -> (r: Arc<AtomicU8>)
    ensures
        r == *value,
{
    Arc::clone(value)
}

/// How progress is shown while an apply runs.
#[derive(Clone, Copy, Debug, PartialEq, Eq, Structural)]
pub enum ProgressMode {
    Off,
    Plain,
    Ui,
}

/// The state of one job.
#[derive(Clone, Copy, Debug, PartialEq, Eq, Structural)]
pub enum JobStatus {
    Pending,
    Running,
    Done,
    Skipped,
    Failed,
}

/// A job of the tree: groups have no units, leaves carry a weight.
#[derive(Clone, Debug, Eq, PartialEq)]
pub struct JobSpec {
    pub id: String,
    pub parent: Option<String>,
    pub label: String,
    pub units: u32,
}

pub struct JobSpecView {
    pub id: Seq<char>,
    pub parent: Option<Seq<char>>,
    pub label: Seq<char>,
    pub units: u32,
}

pub open spec fn opt_view(o: Option<String>) -> Option<Seq<char>> {
    match o {
        Some(s) => Some(s@),
        None => None,
    }
}

impl View for JobSpec {
    type V = JobSpecView;

    open spec fn view(&self) -> JobSpecView {
        JobSpecView { id: self.id@, parent: opt_view(self.parent), label: self.label@, units: self.units }
    }
}

pub open spec fn specs_view(specs: Seq<JobSpec>) -> Seq<JobSpecView> {
    specs.map_values(|s: JobSpec| s@)
}

pub fn clone_opt_string(o: &Option<String>) -> (r: Option<String>)
    ensures
        opt_view(r) == opt_view(*o),
{
    match o {
        Some(s) => Some(s.clone()),
        None => None,
    }
}

impl JobSpec {
    /// A group job: no parent, no units.
    pub fn group(id: &str, label: &str) -> (r: JobSpec)
        ensures
            r@ == (JobSpecView { id: id@, parent: None, label: label@, units: 0 }),
    {
        JobSpec { id: owned(id), parent: None, label: owned(label), units: 0 }
    }

    /// A weighted leaf job below `parent`.
    pub fn leaf(id: &str, parent: &str, label: &str, units: u32) -> (r: JobSpec)
        ensures
            r@ == (JobSpecView { id: id@, parent: Some(parent@), label: label@, units }),
    {
        JobSpec { id: owned(id), parent: Some(owned(parent)), label: owned(label), units }
    }

    /// A copy with the same contents.
    pub fn duplicate(&self) -> (r: JobSpec)
        ensures
            r@ == self@,
    {
        JobSpec {
            id: self.id.clone(),
            parent: clone_opt_string(&self.parent),
            label: self.label.clone(),
            units: self.units,
        }
    }
}

pub fn duplicate_specs(specs: &Vec<JobSpec>) -> (r: Vec<JobSpec>)
    ensures
        specs_view(r@) == specs_view(specs@),
{
    let mut r: Vec<JobSpec> = Vec::new();
    let mut i: usize = 0;
    while i < specs.len()
        invariant
            i <= specs.len(),
            specs_view(r@) == specs_view(specs@.subrange(0, i as int)),
        decreases specs.len() - i,
    {
        r.push(specs[i].duplicate());
        assert(specs_view(specs@.subrange(0, i + 1)) =~= specs_view(specs@.subrange(0, i as int)).push(
            specs@[i as int]@,
        ));
        i = i + 1;
    }
    assert(specs@.subrange(0, specs.len() as int) =~= specs@);
    r
}

/// A message of the apply run about its jobs.
#[derive(Clone, Debug)]
pub enum ProgressMessage {
    Plan(Vec<JobSpec>),
    JobStart { id: String },
    JobProgress { id: String, completed: u32, total: u32, detail: Option<String> },
    JobDetail { id: String, key: String, value: String },
    JobDone { id: String, elapsed: Duration },
    JobSkipped { id: String, detail: String },
    JobFailed { id: String, message: String },
    Log { job_id: Option<String>, line: String },
    VmState { vm_id: String, state: String },
    Finished { ok: bool, message: String },
}

pub enum MessageView {
    Plan(Seq<JobSpecView>),
    JobStart { id: Seq<char> },
    JobProgress { id: Seq<char>, completed: u32, total: u32, detail: Option<Seq<char>> },
    JobDetail { id: Seq<char>, key: Seq<char>, value: Seq<char> },
    JobDone { id: Seq<char>, elapsed: Duration },
    JobSkipped { id: Seq<char>, detail: Seq<char> },
    JobFailed { id: Seq<char>, message: Seq<char> },
    Log { job_id: Option<Seq<char>>, line: Seq<char> },
    VmState { vm_id: Seq<char>, state: Seq<char> },
    Finished { ok: bool, message: Seq<char> },
}

impl View for ProgressMessage {
    type V = MessageView;

    open spec fn view(&self) -> MessageView {
        match self {
            ProgressMessage::Plan(specs) => MessageView::Plan(specs_view(specs@)),
            ProgressMessage::JobStart { id } => MessageView::JobStart { id: id@ },
            ProgressMessage::JobProgress { id, completed, total, detail } => MessageView::JobProgress {
                id: id@,
                completed: *completed,
                total: *total,
                detail: opt_view(*detail),
            },
            ProgressMessage::JobDetail { id, key, value } => MessageView::JobDetail {
                id: id@,
                key: key@,
                value: value@,
            },
            ProgressMessage::JobDone { id, elapsed } => MessageView::JobDone { id: id@, elapsed: *elapsed },
            ProgressMessage::JobSkipped { id, detail } => MessageView::JobSkipped {
                id: id@,
                detail: detail@,
            },
            ProgressMessage::JobFailed { id, message } => MessageView::JobFailed {
                id: id@,
                message: message@,
            },
            ProgressMessage::Log { job_id, line } => MessageView::Log { job_id: opt_view(*job_id), line: line@ },
            ProgressMessage::VmState { vm_id, state } => MessageView::VmState {
                vm_id: vm_id@,
                state: state@,
            },
            ProgressMessage::Finished { ok, message } => MessageView::Finished {
                ok: *ok,
                message: message@,
            },
        }
    }
}

impl ProgressMessage {
    /// A copy with the same contents.
    pub fn duplicate(&self) -> (r: ProgressMessage)
        ensures
            r@ == self@,
    {
        match self {
            ProgressMessage::Plan(specs) => ProgressMessage::Plan(duplicate_specs(specs)),
            ProgressMessage::JobStart { id } => ProgressMessage::JobStart { id: id.clone() },
            ProgressMessage::JobProgress { id, completed, total, detail } => ProgressMessage::JobProgress {
                id: id.clone(),
                completed: *completed,
                total: *total,
                detail: clone_opt_string(detail),
            },
            ProgressMessage::JobDetail { id, key, value } => ProgressMessage::JobDetail {
                id: id.clone(),
                key: key.clone(),
                value: value.clone(),
            },
            ProgressMessage::JobDone { id, elapsed } => ProgressMessage::JobDone {
                id: id.clone(),
                elapsed: *elapsed,
            },
            ProgressMessage::JobSkipped { id, detail } => ProgressMessage::JobSkipped {
                id: id.clone(),
                detail: detail.clone(),
            },
            ProgressMessage::JobFailed { id, message } => ProgressMessage::JobFailed {
                id: id.clone(),
                message: message.clone(),
            },
            ProgressMessage::Log { job_id, line } => ProgressMessage::Log {
                job_id: clone_opt_string(job_id),
                line: line.clone(),
            },
            ProgressMessage::VmState { vm_id, state } => ProgressMessage::VmState {
                vm_id: vm_id.clone(),
                state: state.clone(),
            },
            ProgressMessage::Finished { ok, message } => ProgressMessage::Finished {
                ok: *ok,
                message: message.clone(),
            },
        }
    }
}

/// The steps of an apply run, in order.
pub fn apply_steps() -> (r: Vec<&'static str>)
    ensures
        r@.len() == 22,
{
    vec![
        "validate",
        "acquire_lease",
        "ensure_nets",
        "ensure_dns",
        "ensure_ca",
        "ensure_images",
        "attach_nets",
        "ensure_vms",
        "start_helpers",
        "await_agents",
        "await_cloud_init",
        "ensure_guest_utils",
        "ensure_docker_project_mount",
        "ensure_oidc",
        "ensure_ingress",
        "ensure_ca_rollout",
        "ensure_oidc_inject",
        "ensure_docker_context",
        "ensure_containers",
        "ensure_ports",
        "apply_routes_policies",
        "release_lease",
    ]
}

/// The steps of a down run, in order.
pub fn down_steps() -> (r: Vec<&'static str>)
    ensures
        r@.len() == 10,
{
    vec![
        "purge_ingress",
        "purge_dns_records",
        "purge_oidc",
        "stop_helpers",
        "detach_nets",
        "destroy_managed",
        "purge_docker_context",
        "purge_ports",
        "dns_cleanup",
        "release_lease",
    ]
}

pub open spec fn step_group_spec(s: Seq<char>) -> Seq<char> {
    if s == "validate"@ || s == "acquire_lease"@ {
        "phase-plan"@
    } else if s == "ensure_nets"@ || s == "ensure_dns"@ || s == "ensure_ca"@ || s == "attach_nets"@ {
        "phase-infra"@
    } else if s == "ensure_images"@ {
        "phase-images"@
    } else if s == "ensure_vms"@ || s == "start_helpers"@ || s == "await_agents"@ || s
        == "await_cloud_init"@ {
        "phase-vms"@
    } else if s == "release_lease"@ {
        "phase-finish"@
    } else {
        "phase-services"@
    }
}

/// The phase group a step belongs to.
pub fn step_group(step: &str) -> (r: &'static str)
    ensures
        r@ == step_group_spec(step@),
{
    if str_eq(step, "validate") || str_eq(step, "acquire_lease") {
        "phase-plan"
    } else if str_eq(step, "ensure_nets") || str_eq(step, "ensure_dns") || str_eq(step, "ensure_ca")
        || str_eq(step, "attach_nets") {
        "phase-infra"
    } else if str_eq(step, "ensure_images") {
        "phase-images"
    } else if str_eq(step, "ensure_vms") || str_eq(step, "start_helpers") || str_eq(
        step,
        "await_agents",
    ) || str_eq(step, "await_cloud_init") {
        "phase-vms"
    } else if str_eq(step, "release_lease") {
        "phase-finish"
    } else {
        "phase-services"
    }
}

pub open spec fn step_units_spec(s: Seq<char>) -> u32 {
    if s == "ensure_images"@ || s == "ensure_vms"@ || s == "await_agents"@ || s == "await_cloud_init"@ {
        2
    } else {
        1
    }
}

/// The weight of a step.
pub fn step_units(step: &str) -> (r: u32)
    ensures
        r == step_units_spec(step@),
{
    if str_eq(step, "ensure_images") || str_eq(step, "ensure_vms") || str_eq(step, "await_agents")
        || str_eq(step, "await_cloud_init") {
        2
    } else {
        1
    }
}

pub open spec fn step_label_spec(s: Seq<char>) -> Seq<char> {
    if s == "validate"@ {
        "Konfiguration prüfen"@
    } else if s == "acquire_lease"@ {
        "Apply-Lease übernehmen"@
    } else if s == "ensure_nets"@ {
        "Netze bereitstellen"@
    } else if s == "ensure_dns"@ {
        "DNS bereitstellen"@
    } else if s == "ensure_ca"@ {
        "CA bereitstellen"@
    } else if s == "ensure_images"@ {
        "Images bereitstellen"@
    } else if s == "attach_nets"@ {
        "Netze verbinden"@
    } else if s == "ensure_vms"@ {
        "VMs erstellen/aktualisieren"@
    } else if s == "start_helpers"@ {
        "VM-Helper starten"@
    } else if s == "await_agents"@ {
        "Guest Agents abwarten"@
    } else if s == "await_cloud_init"@ {
        "Cloud-init provisioning"@
    } else if s == "ensure_guest_utils"@ {
        "Guest Utils aktualisieren"@
    } else if s == "ensure_docker_project_mount"@ {
        "Projekt-Mount verbinden"@
    } else if s == "ensure_oidc"@ {
        "OIDC bereitstellen"@
    } else if s == "ensure_ingress"@ {
        "Ingress bereitstellen"@
    } else if s == "ensure_ca_rollout"@ {
        "CA in Gäste ausrollen"@
    } else if s == "ensure_oidc_inject"@ {
        "OIDC-Konfiguration injizieren"@
    } else if s == "ensure_docker_context"@ {
        "Docker-Kontext bereitstellen"@
    } else if s == "ensure_containers"@ {
        "Container bereitstellen"@
    } else if s == "ensure_ports"@ {
        "Port-Forwards bereitstellen"@
    } else if s == "apply_routes_policies"@ {
        "Routen und Policies anwenden"@
    } else if s == "release_lease"@ {
        "Apply abschließen"@
    } else if s == "purge_ingress"@ {
        "Ingress entfernen"@
    } else if s == "purge_dns_records"@ {
        "DNS-Einträge entfernen"@
    } else if s == "purge_oidc"@ {
        "OIDC entfernen"@
    } else if s == "stop_helpers"@ {
        "VM-Helper stoppen"@
    } else if s == "detach_nets"@ {
        "Netze trennen"@
    } else if s == "destroy_managed"@ {
        "Verwaltete Ressourcen löschen"@
    } else if s == "purge_docker_context"@ {
        "Docker-Kontext entfernen"@
    } else if s == "purge_ports"@ {
        "Port-Forwards entfernen"@
    } else if s == "dns_cleanup"@ {
        "DNS bereinigen"@
    } else {
        "Apply-Schritt"@
    }
}

/// The human label of a step.
pub fn step_label(step: &str) -> (r: &'static str)
    ensures
        r@ == step_label_spec(step@),
{
    if str_eq(step, "validate") {
        "Konfiguration prüfen"
    } else if str_eq(step, "acquire_lease") {
        "Apply-Lease übernehmen"
    } else if str_eq(step, "ensure_nets") {
        "Netze bereitstellen"
    } else if str_eq(step, "ensure_dns") {
        "DNS bereitstellen"
    } else if str_eq(step, "ensure_ca") {
        "CA bereitstellen"
    } else if str_eq(step, "ensure_images") {
        "Images bereitstellen"
    } else if str_eq(step, "attach_nets") {
        "Netze verbinden"
    } else if str_eq(step, "ensure_vms") {
        "VMs erstellen/aktualisieren"
    } else if str_eq(step, "start_helpers") {
        "VM-Helper starten"
    } else if str_eq(step, "await_agents") {
        "Guest Agents abwarten"
    } else if str_eq(step, "await_cloud_init") {
        "Cloud-init provisioning"
    } else if str_eq(step, "ensure_guest_utils") {
        "Guest Utils aktualisieren"
    } else if str_eq(step, "ensure_docker_project_mount") {
        "Projekt-Mount verbinden"
    } else if str_eq(step, "ensure_oidc") {
        "OIDC bereitstellen"
    } else if str_eq(step, "ensure_ingress") {
        "Ingress bereitstellen"
    } else if str_eq(step, "ensure_ca_rollout") {
        "CA in Gäste ausrollen"
    } else if str_eq(step, "ensure_oidc_inject") {
        "OIDC-Konfiguration injizieren"
    } else if str_eq(step, "ensure_docker_context") {
        "Docker-Kontext bereitstellen"
    } else if str_eq(step, "ensure_containers") {
        "Container bereitstellen"
    } else if str_eq(step, "ensure_ports") {
        "Port-Forwards bereitstellen"
    } else if str_eq(step, "apply_routes_policies") {
        "Routen und Policies anwenden"
    } else if str_eq(step, "release_lease") {
        "Apply abschließen"
    } else if str_eq(step, "purge_ingress") {
        "Ingress entfernen"
    } else if str_eq(step, "purge_dns_records") {
        "DNS-Einträge entfernen"
    } else if str_eq(step, "purge_oidc") {
        "OIDC entfernen"
    } else if str_eq(step, "stop_helpers") {
        "VM-Helper stoppen"
    } else if str_eq(step, "detach_nets") {
        "Netze trennen"
    } else if str_eq(step, "destroy_managed") {
        "Verwaltete Ressourcen löschen"
    } else if str_eq(step, "purge_docker_context") {
        "Docker-Kontext entfernen"
    } else if str_eq(step, "purge_ports") {
        "Port-Forwards entfernen"
    } else if str_eq(step, "dns_cleanup") {
        "DNS bereinigen"
    } else {
        "Apply-Schritt"
    }
}

pub open spec fn phase_groups() -> Seq<JobSpecView> {
    seq![
        JobSpecView { id: "phase-plan"@, parent: None, label: "Plan & Lease"@, units: 0 },
        JobSpecView { id: "phase-infra"@, parent: None, label: "Infrastruktur"@, units: 0 },
        JobSpecView { id: "phase-images"@, parent: None, label: "Images"@, units: 0 },
        JobSpecView { id: "phase-vms"@, parent: None, label: "VM-Provisioning"@, units: 0 },
        JobSpecView { id: "phase-services"@, parent: None, label: "Dienste & Policies"@, units: 0 },
        JobSpecView { id: "phase-finish"@, parent: None, label: "Abschluss"@, units: 0 },
    ]
}

pub open spec fn step_job(step: Seq<char>) -> JobSpecView {
    JobSpecView {
        id: "step:"@ + step,
        parent: Some(step_group_spec(step)),
        label: step_label_spec(step),
        units: step_units_spec(step),
    }
}

/// The six phase groups followed by one leaf per step.
pub open spec fn default_jobs_spec(steps: Seq<&str>) -> Seq<JobSpecView> {
    phase_groups() + steps.map_values(|s: &str| step_job(s@))
}

/// The job tree of a run over `steps`.
pub fn default_job_specs(steps: &[&str]) -> (r: Vec<JobSpec>)
    ensures
        specs_view(r@) == default_jobs_spec(steps@),
{
    let mut r: Vec<JobSpec> = Vec::new();
    r.push(JobSpec::group("phase-plan", "Plan & Lease"));
    r.push(JobSpec::group("phase-infra", "Infrastruktur"));
    r.push(JobSpec::group("phase-images", "Images"));
    r.push(JobSpec::group("phase-vms", "VM-Provisioning"));
    r.push(JobSpec::group("phase-services", "Dienste & Policies"));
    r.push(JobSpec::group("phase-finish", "Abschluss"));
    assert(specs_view(r@) =~= phase_groups());
    let mut i: usize = 0;
    while i < steps.len()
        invariant
            i <= steps@.len(),
            specs_view(r@) == phase_groups() + steps@.subrange(0, i as int).map_values(
                |s: &str| step_job(s@),
            ),
        decreases steps.len() - i,
    {
        let step: &str = steps[i];
        let id = cat("step:", step);
        let spec = JobSpec::leaf(id.as_str(), step_group(step), step_label(step), step_units(step));
        assert(step == steps@[i as int]);
        assert(spec@ == step_job(step@));
        let ghost before = r@;
        r.push(spec);
        assert(specs_view(r@) =~= specs_view(before).push(step_job(step@)));
        assert(steps@.subrange(0, i + 1).map_values(|s: &str| step_job(s@)) =~= steps@.subrange(
            0,
            i as int,
        ).map_values(|s: &str| step_job(s@)).push(step_job(step@)));
        assert(specs_view(r@) =~= phase_groups() + steps@.subrange(0, i + 1).map_values(
            |s: &str| step_job(s@),
        ));
        i = i + 1;
    }
    assert(steps@.subrange(0, steps@.len() as int) =~= steps@);
    r
}

/// Completion of a cloud-init stage, out of 100.
pub open spec fn cloud_init_stage_spec(stage: Option<Seq<char>>) -> Option<(u32, u32)> {
    match stage {
        None => None,
        Some(s) => if s == "init-local"@ {
            Some((0u32, 100u32))
        } else if s == "init"@ {
            Some((10u32, 100u32))
        } else if s == "modules-config"@ {
            Some((30u32, 100u32))
        } else if s == "modules-final"@ {
            Some((60u32, 100u32))
        } else {
            None
        },
    }
}

pub open spec fn opt_str_view(o: Option<&str>) -> Option<Seq<char>> {
    match o {
        Some(s) => Some(s@),
        None => None,
    }
}

/// Progress that a cloud-init stage stands for, as (completed, total).
pub fn cloud_init_stage_progress(stage: Option<&str>) -> (r: Option<(u32, u32)>)
    ensures
        r == cloud_init_stage_spec(opt_str_view(stage)),
{
    match stage {
        None => None,
        Some(s) => {
            if str_eq(s, "init-local") {
                Some((0, 100))
            } else if str_eq(s, "init") {
                Some((10, 100))
            } else if str_eq(s, "modules-config") {
                Some((30, 100))
            } else if str_eq(s, "modules-final") {
                Some((60, 100))
            } else {
                None
            }
        },
    }
}

pub open spec fn progress_flag_spec(value: Option<Seq<char>>) -> Result<ProgressMode, Seq<char>> {
    match value {
        None => Err("--progress requires plain, ui, or off"@),
        Some(v) => if v == "plain"@ {
            Ok(ProgressMode::Plain)
        } else if v == "ui"@ || v == "tui"@ {
            Ok(ProgressMode::Ui)
        } else if v == "off"@ || v == "false"@ || v == "0"@ {
            Ok(ProgressMode::Off)
        } else {
            Err("unsupported --progress value: "@ + v + " (expected plain, ui, or off)"@)
        },
    }
}

pub open spec fn result_string_view<T>(r: Result<T, String>) -> Result<T, Seq<char>> {
    match r {
        Ok(v) => Ok(v),
        Err(e) => Err(e@),
    }
}

/// Reads the value of `--progress`.
pub fn parse_progress_flag(value: Option<&str>) -> (r: Result<ProgressMode, String>)
    ensures
        result_string_view(r) == progress_flag_spec(opt_str_view(value)),
{
    match value {
        None => Err(owned("--progress requires plain, ui, or off")),
        Some(v) => {
            if str_eq(v, "plain") {
                Ok(ProgressMode::Plain)
            } else if str_eq(v, "ui") || str_eq(v, "tui") {
                Ok(ProgressMode::Ui)
            } else if str_eq(v, "off") || str_eq(v, "false") || str_eq(v, "0") {
                Ok(ProgressMode::Off)
            } else {
                Err(cat3("unsupported --progress value: ", v, " (expected plain, ui, or off)"))
            }
        },
    }
}

/// The progress mode of a run: an explicit choice wins; machine output gets none;
/// an interactive terminal gets the dashboard where the command asks for it.
pub fn resolve_progress_mode_for(
    explicit: Option<ProgressMode>,
    human_format: bool,
    dashboard_by_default: bool,
    interactive: bool,
) -> (r: ProgressMode)
    ensures
        r == match explicit {
            Some(mode) => mode,
            None => if !human_format {
                ProgressMode::Off
            } else if dashboard_by_default && interactive {
                ProgressMode::Ui
            } else {
                ProgressMode::Plain
            },
        },
{
    if let Some(mode) = explicit {
        return mode;
    }
    if !human_format {
        return ProgressMode::Off;
    }
    if dashboard_by_default && interactive {
        ProgressMode::Ui
    } else {
        ProgressMode::Plain
    }
}


/// One job of the tree with its run state.
#[derive(Debug)]
pub struct JobState {
    pub spec: JobSpec,
    pub status: JobStatus,
    pub progress: Option<(u32, u32)>,
    pub detail: Option<String>,
    pub details: Vec<(String, String)>,
    pub started: Option<Instant>,
    pub elapsed: Option<Duration>,
}

pub struct JobView {
    pub spec: JobSpecView,
    pub status: JobStatus,
    pub progress: Option<(u32, u32)>,
    pub detail: Option<Seq<char>>,
    pub details: Seq<(Seq<char>, Seq<char>)>,
    pub started: bool,
    pub elapsed: Option<Duration>,
}

pub open spec fn pairs_view(p: Seq<(String, String)>) -> Seq<(Seq<char>, Seq<char>)> {
    p.map_values(|e: (String, String)| (e.0@, e.1@))
}

impl View for JobState {
    type V = JobView;

    open spec fn view(&self) -> JobView {
        JobView {
            spec: self.spec@,
            status: self.status,
            progress: self.progress,
            detail: opt_view(self.detail),
            details: pairs_view(self.details@),
            started: self.started.is_some(),
            elapsed: self.elapsed,
        }
    }
}

pub open spec fn jobs_view(jobs: Seq<JobState>) -> Seq<JobView> {
    jobs.map_values(|j: JobState| j@)
}

/// A job that has not run yet.
pub open spec fn fresh_job(spec: JobSpecView) -> JobView {
    JobView {
        spec,
        status: JobStatus::Pending,
        progress: None,
        detail: None,
        details: Seq::empty(),
        started: false,
        elapsed: None,
    }
}

impl JobState {
    /// A job that has not run yet.
    pub fn new(spec: JobSpec) -> (r: JobState)
        ensures
            r@ == fresh_job(spec@),
    {
        let r = JobState {
            spec,
            status: JobStatus::Pending,
            progress: None,
            detail: None,
            details: Vec::new(),
            started: None,
            elapsed: None,
        };
        assert(r@.details =~= Seq::<(Seq<char>, Seq<char>)>::empty());
        r
    }
}

pub open spec fn has_job(jobs: Seq<JobView>, id: Seq<char>) -> bool {
    exists|k: int| 0 <= k < jobs.len() && #[trigger] jobs[k].spec.id == id
}

/// A job that has not started has no measured progress, and a job that is
/// done or skipped has all of it.
pub open spec fn progress_consistent(jobs: Seq<JobView>) -> bool {
    forall|k: int|
        #![trigger jobs[k]]
        0 <= k < jobs.len() ==> {
            &&& jobs[k].status == JobStatus::Pending ==> jobs[k].progress.is_none()
            &&& is_complete(jobs[k].status) ==> jobs[k].progress == Some((1u32, 1u32))
        }
}

pub open spec fn ids_unique(jobs: Seq<JobView>) -> bool {
    forall|a: int, b: int|
        0 <= a < jobs.len() && 0 <= b < jobs.len() && a != b ==> #[trigger] jobs[a].spec.id
            != #[trigger] jobs[b].spec.id
}

/// Adds one job unless a job with its id exists.
pub open spec fn install_one(jobs: Seq<JobView>, spec: JobSpecView) -> Seq<JobView> {
    if has_job(jobs, spec.id) {
        jobs
    } else {
        jobs.push(fresh_job(spec))
    }
}

/// Adds the jobs of `specs` in order; an id that exists keeps its job.
pub open spec fn install(jobs: Seq<JobView>, specs: Seq<JobSpecView>) -> Seq<JobView>
    decreases specs.len(),
{
    if specs.len() == 0 {
        jobs
    } else {
        install_one(install(jobs, specs.drop_last()), specs.last())
    }
}

/// The log buffer after one more line: empty lines are dropped, and only the
/// most recent `MAX_LOG_LINES` lines are kept.
pub open spec fn push_log_spec(
    logs: Seq<(Option<Seq<char>>, Seq<char>)>,
    job_id: Option<Seq<char>>,
    line: Seq<char>,
) -> Seq<(Option<Seq<char>>, Seq<char>)> {
    if line.len() == 0 {
        logs
    } else {
        let l = logs.push((job_id, line));
        if l.len() > MAX_LOG_LINES {
            l.subrange(l.len() - MAX_LOG_LINES, l.len() as int)
        } else {
            l
        }
    }
}

/// Index of the first detail entry named `key`.
pub open spec fn first_key(details: Seq<(Seq<char>, Seq<char>)>, key: Seq<char>) -> Option<int> {
    if exists|i: int|
        0 <= i < details.len() && details[i].0 == key && forall|j: int|
            0 <= j < i ==> details[j].0 != key {
        Some(
            choose|i: int|
                0 <= i < details.len() && details[i].0 == key && forall|j: int|
                    0 <= j < i ==> details[j].0 != key,
        )
    } else {
        None
    }
}

/// Details after setting `key` to `value`: the first entry of that name is
/// overwritten, or a new entry is appended.
pub open spec fn set_detail(details: Seq<(Seq<char>, Seq<char>)>, key: Seq<char>, value: Seq<char>) -> Seq<
    (Seq<char>, Seq<char>),
> {
    match first_key(details, key) {
        Some(i) => details.update(i, (key, value)),
        None => details.push((key, value)),
    }
}

/// The jobs with the job named `id` replaced by `f` of it.
pub open spec fn update_job(jobs: Seq<JobView>, id: Seq<char>, f: spec_fn(JobView) -> JobView) -> Seq<
    JobView,
> {
    jobs.map_values(|j: JobView| if j.spec.id == id { f(j) } else { j })
}

/// The id of the last weighted job, in install order, that is running.
pub open spec fn last_running(jobs: Seq<JobView>) -> Option<Seq<char>>
    decreases jobs.len(),
{
    if jobs.len() == 0 {
        None
    } else if jobs.last().spec.units > 0 && jobs.last().status == JobStatus::Running {
        Some(jobs.last().spec.id)
    } else {
        last_running(jobs.drop_last())
    }
}

pub struct StateView {
    pub jobs: Seq<JobView>,
    pub logs: Seq<(Option<Seq<char>>, Seq<char>)>,
    pub current: Option<Seq<char>>,
    pub finished: Option<(bool, Seq<char>)>,
}

pub open spec fn progress_of(completed: u32, total: u32) -> Option<(u32, u32)> {
    if total > 0 {
        Some((if completed < total { completed } else { total }, total))
    } else {
        None
    }
}

/// The state after one message. `fail_elapsed` is the time a failed job had
/// been running when the failure arrived.
pub open spec fn apply_spec(s: StateView, m: MessageView, fail_elapsed: Duration) -> StateView {
    match m {
        MessageView::Plan(specs) => StateView { jobs: install(s.jobs, specs), ..s },
        MessageView::JobStart { id } => if has_job(s.jobs, id) {
            StateView {
                jobs: update_job(s.jobs, id, |j: JobView| JobView { status: JobStatus::Running, started: true, ..j }),
                current: Some(id),
                ..s
            }
        } else {
            s
        },
        MessageView::JobProgress { id, completed, total, detail } => if has_job(s.jobs, id) {
            StateView {
                jobs: update_job(
                    s.jobs,
                    id,
                    |j: JobView|
                        JobView {
                            status: JobStatus::Running,
                            started: true,
                            progress: progress_of(completed, total),
                            detail: if detail.is_some() { detail } else { j.detail },
                            ..j
                        },
                ),
                current: Some(id),
                ..s
            }
        } else {
            s
        },
        MessageView::JobDetail { id, key, value } => StateView {
            jobs: update_job(s.jobs, id, |j: JobView| JobView { details: set_detail(j.details, key, value), ..j }),
            ..s
        },
        MessageView::JobDone { id, elapsed } => {
            let jobs = update_job(
                s.jobs,
                id,
                |j: JobView|
                    JobView {
                        status: JobStatus::Done,
                        progress: Some((1u32, 1u32)),
                        elapsed: Some(elapsed),
                        ..j
                    },
            );
            StateView {
                jobs,
                current: if s.current == Some(id) { last_running(jobs) } else { s.current },
                ..s
            }
        },
        MessageView::JobSkipped { id, detail } => {
            let jobs = update_job(
                s.jobs,
                id,
                |j: JobView|
                    JobView {
                        status: JobStatus::Skipped,
                        progress: Some((1u32, 1u32)),
                        detail: Some(detail),
                        ..j
                    },
            );
            StateView {
                jobs,
                current: if s.current == Some(id) { last_running(jobs) } else { s.current },
                ..s
            }
        },
        MessageView::JobFailed { id, message } => StateView {
            jobs: update_job(
                s.jobs,
                id,
                |j: JobView|
                    JobView {
                        status: JobStatus::Failed,
                        detail: Some(message),
                        elapsed: if j.started { Some(fail_elapsed) } else { None },
                        ..j
                    },
            ),
            current: Some(id),
            ..s
        },
        MessageView::Log { job_id, line } => StateView { logs: push_log_spec(s.logs, job_id, line), ..s },
        MessageView::VmState { vm_id, state } => StateView {
            logs: push_log_spec(s.logs, None, "vm "@ + vm_id + " → "@ + state),
            ..s
        },
        MessageView::Finished { ok, message } => StateView { finished: Some((ok, message)), ..s },
    }
}

/// Scaled completed work of a job: its units times its completed fraction,
/// in units of `1 / FRACTION_SCALE`, rounded down. This is a fixed-point
/// count, not a float sum: where fractions are not whole millionths the
/// total can fall short of the exact sum by less than one millionth of a unit
/// per job, so a percentage that the exact sum puts on a whole number (two
/// one-unit jobs at 1/3 and 2/3: 50) can come out one lower (49).
pub open spec fn scaled_done(j: JobView) -> nat {
    if j.spec.units == 0 {
        0
    } else {
        match j.status {
            JobStatus::Done | JobStatus::Skipped => (j.spec.units as nat) * (FRACTION_SCALE as nat),
            JobStatus::Running | JobStatus::Failed => match j.progress {
                Some((c, t)) => if t > 0 {
                    ((j.spec.units as nat) * ((if c < t { c } else { t }) as nat) * (FRACTION_SCALE as nat))
                        / (t as nat)
                } else {
                    0
                },
                None => 0,
            },
            JobStatus::Pending => 0,
        }
    }
}

pub open spec fn total_units(jobs: Seq<JobView>) -> nat
    decreases jobs.len(),
{
    if jobs.len() == 0 {
        0
    } else {
        total_units(jobs.drop_last()) + jobs.last().spec.units as nat
    }
}

pub open spec fn total_done(jobs: Seq<JobView>) -> nat
    decreases jobs.len(),
{
    if jobs.len() == 0 {
        0
    } else {
        total_done(jobs.drop_last()) + scaled_done(jobs.last())
    }
}

/// The weighted percentage of completed work, rounded down, over the
/// fixed-point counts of `scaled_done`.
pub open spec fn percent_spec(jobs: Seq<JobView>) -> u8 {
    let total = total_units(jobs);
    if total == 0 {
        0
    } else {
        let p = (total_done(jobs) * 100) / (total * FRACTION_SCALE as nat);
        if p > 100 {
            100
        } else {
            p as u8
        }
    }
}

pub open spec fn is_complete(status: JobStatus) -> bool {
    status == JobStatus::Done || status == JobStatus::Skipped
}

pub open spec fn count_weighted(jobs: Seq<JobView>) -> nat
    decreases jobs.len(),
{
    if jobs.len() == 0 {
        0
    } else {
        count_weighted(jobs.drop_last()) + if jobs.last().spec.units > 0 {
            1nat
        } else {
            0nat
        }
    }
}

pub open spec fn count_complete(jobs: Seq<JobView>) -> nat
    decreases jobs.len(),
{
    if jobs.len() == 0 {
        0
    } else {
        count_complete(jobs.drop_last()) + if jobs.last().spec.units > 0 && is_complete(
            jobs.last().status,
        ) {
            1nat
        } else {
            0nat
        }
    }
}


pub open spec fn find_index(jobs: Seq<JobView>, id: Seq<char>) -> int {
    if has_job(jobs, id) {
        choose|k: int| 0 <= k < jobs.len() && jobs[k].spec.id == id
    } else {
        -1
    }
}

/// The job named `id`.
pub open spec fn job_of(jobs: Seq<JobView>, id: Seq<char>) -> JobView {
    jobs[find_index(jobs, id)]
}

pub open spec fn aggregate(failed: bool, running: bool, all_done: bool, any: bool) -> JobStatus {
    if failed {
        JobStatus::Failed
    } else if running {
        JobStatus::Running
    } else if any && all_done {
        JobStatus::Done
    } else {
        JobStatus::Pending
    }
}

/// The status a job shows: a group (no units) shows its children's aggregate.
/// `fuel` bounds the depth of the tree that is followed.
pub open spec fn effective_status(jobs: Seq<JobView>, id: Seq<char>, fuel: nat) -> JobStatus
    decreases fuel, 2nat, 0nat,
{
    if has_job(jobs, id) {
        if job_of(jobs, id).spec.units == 0 {
            group_status_spec(jobs, id, fuel)
        } else {
            job_of(jobs, id).status
        }
    } else {
        JobStatus::Pending
    }
}

/// A group is failed if a child failed, else running if a child runs, else
/// done if it has children and all are done or skipped, else pending.
pub open spec fn group_status_spec(jobs: Seq<JobView>, gid: Seq<char>, fuel: nat) -> JobStatus
    decreases fuel, 1nat, 0nat,
{
    if fuel == 0 {
        JobStatus::Pending
    } else {
        let f = group_scan(jobs, gid, fuel, jobs.len() as nat);
        aggregate(f.0, f.1, f.2, f.3)
    }
}

/// Over the first `n` jobs, the children of `gid`: whether one failed, one
/// runs, all are done or skipped, and whether there is any.
pub open spec fn group_scan(jobs: Seq<JobView>, gid: Seq<char>, fuel: nat, n: nat) -> (bool, bool, bool, bool)
    decreases fuel, 0nat, n,
{
    if n == 0 || n > jobs.len() || fuel == 0 {
        (false, false, true, false)
    } else {
        let rest = group_scan(jobs, gid, fuel, (n - 1) as nat);
        let j = jobs[n - 1];
        if j.spec.parent == Some(gid) {
            let st = effective_status(jobs, j.spec.id, (fuel - 1) as nat);
            (
                rest.0 || st == JobStatus::Failed,
                rest.1 || st == JobStatus::Running,
                rest.2 && is_complete(st),
                true,
            )
        } else {
            rest
        }
    }
}

/// Labels from the job `id` up through its ancestors, at most `fuel` of them.
pub open spec fn chain(jobs: Seq<JobView>, id: Seq<char>, fuel: nat) -> Seq<Seq<char>>
    decreases fuel,
{
    if fuel == 0 || !has_job(jobs, id) {
        Seq::empty()
    } else {
        let j = job_of(jobs, id);
        seq![j.spec.label] + match j.spec.parent {
            Some(p) => chain(jobs, p, (fuel - 1) as nat),
            None => Seq::empty(),
        }
    }
}

/// The labels from the root down to `id`, joined by " / "; an unknown id stands for itself.
pub open spec fn path_spec(jobs: Seq<JobView>, id: Seq<char>) -> Seq<char> {
    let c = chain(jobs, id, jobs.len() as nat);
    if c.len() == 0 {
        id
    } else {
        join(c.reverse(), " / "@)
    }
}

pub open spec fn parent_of(jobs: Seq<JobView>, id: Seq<char>) -> Option<Seq<char>> {
    if has_job(jobs, id) {
        job_of(jobs, id).spec.parent
    } else {
        None
    }
}

/// Number of parent links followed from `cur`, at most `fuel`.
pub open spec fn depth_from(jobs: Seq<JobView>, cur: Option<Seq<char>>, fuel: nat) -> nat
    decreases fuel,
{
    match cur {
        None => 0,
        Some(p) => if fuel == 0 {
            0
        } else {
            1 + depth_from(jobs, parent_of(jobs, p), (fuel - 1) as nat)
        },
    }
}

/// Nesting depth of a job below its root.
pub open spec fn depth_spec(jobs: Seq<JobView>, id: Seq<char>) -> nat {
    depth_from(jobs, parent_of(jobs, id), jobs.len() as nat)
}

/// A depth never exceeds the number of parent links it may follow.
pub proof fn lemma_depth_from_bound(jobs: Seq<JobView>, cur: Option<Seq<char>>, fuel: nat)
    ensures
        depth_from(jobs, cur, fuel) <= fuel,
    decreases fuel,
{
    if cur is Some && fuel > 0 {
        lemma_depth_from_bound(jobs, parent_of(jobs, cur->Some_0), (fuel - 1) as nat);
    }
}

/// A job lies no deeper than there are jobs.
pub proof fn lemma_depth_bound(jobs: Seq<JobView>, id: Seq<char>)
    ensures
        depth_spec(jobs, id) <= jobs.len(),
{
    lemma_depth_from_bound(jobs, parent_of(jobs, id), jobs.len() as nat);
}

pub proof fn lemma_find_unique(jobs: Seq<JobView>, id: Seq<char>, k: int)
    requires
        ids_unique(jobs),
        0 <= k < jobs.len(),
        jobs[k].spec.id == id,
    ensures
        has_job(jobs, id),
        find_index(jobs, id) == k,
        job_of(jobs, id) == jobs[k],
{
    assert(has_job(jobs, id));
    let c = find_index(jobs, id);
    assert(0 <= c < jobs.len() && jobs[c].spec.id == id);
    if c != k {
        assert(jobs[c].spec.id != jobs[k].spec.id);
    }
}

/// Index of the job named `id`.
pub fn find_job(jobs: &Vec<JobState>, id: &str) -> (r: Option<usize>)
    ensures
        match r {
            Some(k) => k < jobs@.len() && jobs_view(jobs@)[k as int].spec.id == id@,
            None => !has_job(jobs_view(jobs@), id@),
        },
{
    let mut k: usize = 0;
    while k < jobs.len()
        invariant
            k <= jobs@.len(),
            forall|i: int| 0 <= i < k ==> jobs_view(jobs@)[i].spec.id != id@,
        decreases jobs.len() - k,
    {
        if str_eq(jobs[k].spec.id.as_str(), id) {
            return Some(k);
        }
        k = k + 1;
    }
    None
}

pub fn opt_str_is(o: &Option<String>, id: &str) -> (r: bool)
    ensures
        r == (opt_view(*o) == Some(id@)),
{
    match o {
        Some(s) => str_eq(s.as_str(), id),
        None => false,
    }
}

fn effective_status_fuel(jobs: &Vec<JobState>, id: &str, fuel: usize) -> (r: JobStatus)
    requires
        ids_unique(jobs_view(jobs@)),
    ensures
        r == effective_status(jobs_view(jobs@), id@, fuel as nat),
    decreases fuel, 2nat,
{
    let ghost jv = jobs_view(jobs@);
    match find_job(jobs, id) {
        Some(k) => {
            proof {
                lemma_find_unique(jv, id@, k as int);
            }
            if jobs[k].spec.units == 0 {
                group_status_fuel(jobs, id, fuel)
            } else {
                jobs[k].status
            }
        },
        None => JobStatus::Pending,
    }
}

fn group_status_fuel(jobs: &Vec<JobState>, gid: &str, fuel: usize) -> (r: JobStatus)
    requires
        ids_unique(jobs_view(jobs@)),
    ensures
        r == group_status_spec(jobs_view(jobs@), gid@, fuel as nat),
    decreases fuel, 1nat,
{
    let ghost jv = jobs_view(jobs@);
    if fuel == 0 {
        return JobStatus::Pending;
    }
    let mut failed = false;
    let mut running = false;
    let mut all_done = true;
    let mut any = false;
    let mut i: usize = 0;
    while i < jobs.len()
        invariant
            fuel > 0,
            jv == jobs_view(jobs@),
            ids_unique(jv),
            i <= jobs@.len(),
            (failed, running, all_done, any) == group_scan(jv, gid@, fuel as nat, i as nat),
        decreases jobs.len() - i,
    {
        if opt_str_is(&jobs[i].spec.parent, gid) {
            let st = effective_status_fuel(jobs, jobs[i].spec.id.as_str(), fuel - 1);
            failed = failed || st == JobStatus::Failed;
            running = running || st == JobStatus::Running;
            all_done = all_done && (st == JobStatus::Done || st == JobStatus::Skipped);
            any = true;
        }
        i = i + 1;
    }
    if failed {
        JobStatus::Failed
    } else if running {
        JobStatus::Running
    } else if any && all_done {
        JobStatus::Done
    } else {
        JobStatus::Pending
    }
}

/// The labels from the root down to the job `id`, joined by " / ".
pub fn job_path(jobs: &Vec<JobState>, id: &str) -> (r: String)
    requires
        ids_unique(jobs_view(jobs@)),
    ensures
        r@ == path_spec(jobs_view(jobs@), id@),
{
    let ghost jv = jobs_view(jobs@);
    let n = jobs.len();
    let mut labels: Vec<String> = Vec::new();
    let mut cur: Option<String> = Some(owned(id));
    let mut fuel: usize = n;
    loop
        invariant
            jv == jobs_view(jobs@),
            ids_unique(jv),
            n == jobs@.len(),
            fuel <= n,
            ({
                let got = labels@.map_values(|s: String| s@);
                chain(jv, id@, n as nat) == got + match opt_view(cur) {
                    Some(c) => chain(jv, c, fuel as nat),
                    None => Seq::<Seq<char>>::empty(),
                }
            }),
        ensures
            chain(jv, id@, n as nat) == labels@.map_values(|s: String| s@),
        decreases fuel,
    {
        let ghost got = labels@.map_values(|s: String| s@);
        match cur {
            None => {
                assert(got + Seq::<Seq<char>>::empty() =~= got);
                break ;
            },
            Some(c) => {
                if fuel == 0 {
                    assert(chain(jv, c@, fuel as nat) =~= Seq::<Seq<char>>::empty());
                    assert(got + Seq::<Seq<char>>::empty() =~= got);
                    break ;
                }
                match find_job(jobs, c.as_str()) {
                    None => {
                        assert(chain(jv, c@, fuel as nat) =~= Seq::<Seq<char>>::empty());
                        assert(got + Seq::<Seq<char>>::empty() =~= got);
                        break ;
                    },
                    Some(k) => {
                        proof {
                            lemma_find_unique(jv, c@, k as int);
                        }
                        labels.push(jobs[k].spec.label.clone());
                        cur = clone_opt_string(&jobs[k].spec.parent);
                        assert(labels@.map_values(|s: String| s@) =~= got.push(jv[k as int].spec.label));
                        assert(got.push(jv[k as int].spec.label) + match opt_view(cur) {
                            Some(c2) => chain(jv, c2, (fuel - 1) as nat),
                            None => Seq::<Seq<char>>::empty(),
                        } =~= got + chain(jv, c@, fuel as nat));
                        fuel = fuel - 1;
                    },
                }
            },
        }
    }
    if labels.len() == 0 {
        return owned(id);
    }
    join_reversed(&labels, " / ")
}

/// `parts` in reverse order, joined by `sep`.
pub fn join_reversed(parts: &Vec<String>, sep: &str) -> (r: String)
    requires
        parts@.len() > 0,
    ensures
        r@ == join(parts@.map_values(|s: String| s@).reverse(), sep@),
{
    let ghost pv = parts@.map_values(|s: String| s@);
    let n = parts.len();
    let mut r = parts[n - 1].clone();
    let mut i: usize = 1;
    assert(pv.reverse().subrange(0, 1) =~= seq![pv[n - 1]]);
    while i < n
        invariant
            n == parts@.len(),
            pv == parts@.map_values(|s: String| s@),
            1 <= i <= n,
            r@ == join(pv.reverse().subrange(0, i as int), sep@),
        decreases n - i,
    {
        r.append(sep);
        r.append(parts[n - 1 - i].as_str());
        let ghost pre = pv.reverse().subrange(0, i + 1);
        assert(pre.drop_last() =~= pv.reverse().subrange(0, i as int));
        assert(pre.last() == pv[n - 1 - i]);
        i = i + 1;
    }
    assert(pv.reverse().subrange(0, n as int) =~= pv.reverse());
    r
}

/// Nesting depth of the job `id` below its root.
pub fn job_depth(jobs: &Vec<JobState>, id: &str) -> (r: usize)
    requires
        ids_unique(jobs_view(jobs@)),
    ensures
        r == depth_spec(jobs_view(jobs@), id@),
{
    let ghost jv = jobs_view(jobs@);
    let n = jobs.len();
    let mut depth: usize = 0;
    let mut cur: Option<String> = match find_job(jobs, id) {
        Some(k) => {
            proof {
                lemma_find_unique(jv, id@, k as int);
            }
            clone_opt_string(&jobs[k].spec.parent)
        },
        None => None,
    };
    let mut fuel: usize = n;
    while cur.is_some() && fuel > 0
        invariant
            jv == jobs_view(jobs@),
            ids_unique(jv),
            n == jobs@.len(),
            fuel <= n,
            depth + fuel == n,
            depth_spec(jv, id@) == depth + depth_from(jv, opt_view(cur), fuel as nat),
        decreases fuel,
    {
        let c = cur.unwrap();
        depth = depth + 1;
        cur = match find_job(jobs, c.as_str()) {
            Some(k) => {
                proof {
                    lemma_find_unique(jv, c@, k as int);
                }
                clone_opt_string(&jobs[k].spec.parent)
            },
            None => None,
        };
        fuel = fuel - 1;
    }
    depth
}


/// The job tree of a run with its status, log and outcome.
#[derive(Debug)]
pub struct ProgressState {
    jobs: Vec<JobState>,
    logs: Vec<(Option<String>, String)>,
    current: Option<String>,
    finished: Option<(bool, String)>,
    started: Instant,
}

pub open spec fn logs_view(l: Seq<(Option<String>, String)>) -> Seq<(Option<Seq<char>>, Seq<char>)> {
    l.map_values(|e: (Option<String>, String)| (opt_view(e.0), e.1@))
}

pub open spec fn finished_view(f: Option<(bool, String)>) -> Option<(bool, Seq<char>)> {
    match f {
        Some((ok, m)) => Some((ok, m@)),
        None => None,
    }
}

impl View for ProgressState {
    type V = StateView;

    closed spec fn view(&self) -> StateView {
        StateView {
            jobs: jobs_view(self.jobs@),
            logs: logs_view(self.logs@),
            current: opt_view(self.current),
            finished: finished_view(self.finished),
        }
    }
}

/// The state after installing `specs` into an empty tree.
pub open spec fn initial_state(specs: Seq<JobSpecView>) -> StateView {
    StateView { jobs: install(Seq::empty(), specs), logs: Seq::empty(), current: None, finished: None }
}

pub proof fn lemma_update_job_at(jobs: Seq<JobView>, id: Seq<char>, k: int, f: spec_fn(JobView) -> JobView)
    requires
        ids_unique(jobs),
        0 <= k < jobs.len(),
        jobs[k].spec.id == id,
    ensures
        update_job(jobs, id, f) =~= jobs.update(k, f(jobs[k])),
{
    assert forall|i: int| 0 <= i < jobs.len() implies update_job(jobs, id, f)[i] == jobs.update(
        k,
        f(jobs[k]),
    )[i] by {
        if i != k {
            assert(jobs[i].spec.id != jobs[k].spec.id);
        }
    }
}

pub proof fn lemma_update_job_absent(jobs: Seq<JobView>, id: Seq<char>, f: spec_fn(JobView) -> JobView)
    requires
        !has_job(jobs, id),
    ensures
        update_job(jobs, id, f) =~= jobs,
{
    assert forall|i: int| 0 <= i < jobs.len() implies update_job(jobs, id, f)[i] == jobs[i] by {
        assert(jobs[i].spec.id != id);
    }
}

pub proof fn lemma_unique_update(jobs: Seq<JobView>, k: int, v: JobView)
    requires
        ids_unique(jobs),
        0 <= k < jobs.len(),
        v.spec.id == jobs[k].spec.id,
    ensures
        ids_unique(jobs.update(k, v)),
{
    let u = jobs.update(k, v);
    assert forall|a: int, b: int|
        0 <= a < u.len() && 0 <= b < u.len() && a != b implies #[trigger] u[a].spec.id
        != #[trigger] u[b].spec.id by {
        assert(u[a].spec.id == jobs[a].spec.id);
        assert(u[b].spec.id == jobs[b].spec.id);
    }
}

pub proof fn lemma_install_unique(jobs: Seq<JobView>, specs: Seq<JobSpecView>)
    requires
        ids_unique(jobs),
    ensures
        ids_unique(install(jobs, specs)),
    decreases specs.len(),
{
    if specs.len() > 0 {
        lemma_install_unique(jobs, specs.drop_last());
        let prev = install(jobs, specs.drop_last());
        let sp = specs.last();
        if !has_job(prev, sp.id) {
            let next = prev.push(fresh_job(sp));
            assert forall|a: int, b: int|
                0 <= a < next.len() && 0 <= b < next.len() && a != b implies #[trigger] next[a].spec.id
                != #[trigger] next[b].spec.id by {
                if a == prev.len() as int {
                    assert(prev[b].spec.id != sp.id);
                } else if b == prev.len() as int {
                    assert(prev[a].spec.id != sp.id);
                }
            }
        }
    }
}

impl ProgressState {
    /// Well-formed: job ids are distinct, a job's measured progress fits its
    /// status, and the log is within its cap.
    pub open spec fn wf(&self) -> bool {
        &&& ids_unique(self@.jobs)
        &&& progress_consistent(self@.jobs)
        &&& self@.logs.len() <= MAX_LOG_LINES
    }

    /// A tree holding `specs`, nothing run yet.
    pub fn new(specs: Vec<JobSpec>) -> (r: ProgressState)
        ensures
            r.wf(),
            r@ == initial_state(specs_view(specs@)),
    {
        let mut state = ProgressState {
            jobs: Vec::new(),
            logs: Vec::new(),
            current: None,
            finished: None,
            started: instant_now(),
        };
        assert(state@.jobs =~= Seq::<JobView>::empty());
        assert(state@.logs =~= Seq::<(Option<Seq<char>>, Seq<char>)>::empty());
        state.install_specs(specs);
        state
    }

    /// Adds the jobs of `specs`; an id that exists keeps its job and state.
    pub fn install_specs(&mut self, specs: Vec<JobSpec>)
        requires
            old(self).wf(),
        ensures
            final(self).wf(),
            final(self)@ == (StateView { jobs: install(old(self)@.jobs, specs_view(specs@)), ..old(self)@ }),
    {
        let ghost start = self@.jobs;
        let ghost sv = specs_view(specs@);
        let n = specs.len();
        let mut i: usize = 0;
        while i < n
            invariant
                n == specs@.len(),
                sv == specs_view(specs@),
                ids_unique(start),
                i <= n,
                self@.jobs == install(start, sv.subrange(0, i as int)),
                ids_unique(self@.jobs),
                progress_consistent(self@.jobs),
                self@.logs.len() <= MAX_LOG_LINES,
                self@.logs == old(self)@.logs,
                self@.current == old(self)@.current,
                self@.finished == old(self)@.finished,
            decreases n - i,
        {
            let sp = specs[i].duplicate();
            let ghost prev = self@.jobs;
            match find_job(&self.jobs, sp.id.as_str()) {
                Some(k) => {
                    assert(has_job(prev, sp@.id));
                },
                None => {
                    self.jobs.push(JobState::new(sp));
                    assert(self@.jobs =~= prev.push(fresh_job(sv[i as int])));
                },
            }
            assert(sv.subrange(0, i + 1).drop_last() =~= sv.subrange(0, i as int));
            assert(sv.subrange(0, i + 1).last() == sv[i as int]);
            proof {
                lemma_install_unique(start, sv.subrange(0, i + 1));
            }
            i = i + 1;
        }
        assert(sv.subrange(0, n as int) =~= sv);
    }

    fn apply_start(&mut self, id: String)
        requires
            old(self).wf(),
        ensures
            final(self).wf(),
            forall|d: Duration| final(self)@ == apply_spec(old(self)@, MessageView::JobStart { id: id@ }, d),
    {
        let ghost s0 = self@;
        match find_job(&self.jobs, id.as_str()) {
            Some(k) => {
                proof {
                    lemma_find_unique(s0.jobs, id@, k as int);
                }
                let mut job = self.jobs.remove(k);
                job.status = JobStatus::Running;
                if job.started.is_none() {
                    job.started = Some(instant_now());
                }
                self.jobs.insert(k, job);
                assert(self@.jobs =~= s0.jobs.update(k as int, job@));
                let ghost f = |j: JobView| JobView { status: JobStatus::Running, started: true, ..j };
                proof {
                    lemma_update_job_at(s0.jobs, id@, k as int, f);
                }
                assert(job@ == f(s0.jobs[k as int]));
                proof {
                    lemma_unique_update(s0.jobs, k as int, job@);
                }
                self.current = Some(id);
            },
            None => {},
        }
    }

    fn apply_progress(&mut self, id: String, completed: u32, total: u32, detail: Option<String>)
        requires
            old(self).wf(),
        ensures
            final(self).wf(),
            forall|d: Duration|
                final(self)@ == apply_spec(
                    old(self)@,
                    MessageView::JobProgress { id: id@, completed, total, detail: opt_view(detail) },
                    d,
                ),
    {
        let ghost s0 = self@;
        let ghost dv = opt_view(detail);
        match find_job(&self.jobs, id.as_str()) {
            Some(k) => {
                proof {
                    lemma_find_unique(s0.jobs, id@, k as int);
                }
                let mut job = self.jobs.remove(k);
                job.status = JobStatus::Running;
                if job.started.is_none() {
                    job.started = Some(instant_now());
                }
                job.progress = if total > 0 {
                    Some((if completed < total { completed } else { total }, total))
                } else {
                    None
                };
                if detail.is_some() {
                    job.detail = detail;
                }
                self.jobs.insert(k, job);
                assert(self@.jobs =~= s0.jobs.update(k as int, job@));
                let ghost f = |j: JobView|
                    JobView {
                        status: JobStatus::Running,
                        started: true,
                        progress: progress_of(completed, total),
                        detail: if dv.is_some() { dv } else { j.detail },
                        ..j
                    };
                proof {
                    lemma_update_job_at(s0.jobs, id@, k as int, f);
                    lemma_unique_update(s0.jobs, k as int, job@);
                }
                assert(job@ == f(s0.jobs[k as int]));
                self.current = Some(id);
            },
            None => {},
        }
    }

    fn apply_detail(&mut self, id: String, key: String, value: String)
        requires
            old(self).wf(),
        ensures
            final(self).wf(),
            forall|d: Duration|
                final(self)@ == apply_spec(
                    old(self)@,
                    MessageView::JobDetail { id: id@, key: key@, value: value@ },
                    d,
                ),
    {
        let ghost s0 = self@;
        let ghost kv = key@;
        let ghost vv = value@;
        let ghost f = |j: JobView| JobView { details: set_detail(j.details, kv, vv), ..j };
        match find_job(&self.jobs, id.as_str()) {
            Some(k) => {
                proof {
                    lemma_find_unique(s0.jobs, id@, k as int);
                }
                let mut job = self.jobs.remove(k);
                set_detail_exec(&mut job.details, key, value);
                self.jobs.insert(k, job);
                assert(self@.jobs =~= s0.jobs.update(k as int, job@));
                proof {
                    lemma_update_job_at(s0.jobs, id@, k as int, f);
                    lemma_unique_update(s0.jobs, k as int, job@);
                }
                assert(job@ == f(s0.jobs[k as int]));
            },
            None => {
                proof {
                    lemma_update_job_absent(s0.jobs, id@, f);
                }
            },
        }
    }

    fn apply_done(&mut self, id: String, elapsed: Duration)
        requires
            old(self).wf(),
        ensures
            final(self).wf(),
            forall|d: Duration| final(self)@ == apply_spec(old(self)@, MessageView::JobDone { id: id@, elapsed }, d),
    {
        let ghost s0 = self@;
        let ghost f = |j: JobView|
            JobView { status: JobStatus::Done, progress: Some((1u32, 1u32)), elapsed: Some(elapsed), ..j };
        match find_job(&self.jobs, id.as_str()) {
            Some(k) => {
                proof {
                    lemma_find_unique(s0.jobs, id@, k as int);
                }
                let mut job = self.jobs.remove(k);
                job.status = JobStatus::Done;
                job.progress = Some((1, 1));
                job.elapsed = Some(elapsed);
                self.jobs.insert(k, job);
                assert(self@.jobs =~= s0.jobs.update(k as int, job@));
                proof {
                    lemma_update_job_at(s0.jobs, id@, k as int, f);
                    lemma_unique_update(s0.jobs, k as int, job@);
                }
                assert(job@ == f(s0.jobs[k as int]));
            },
            None => {
                proof {
                    lemma_update_job_absent(s0.jobs, id@, f);
                }
            },
        }
        if opt_str_is(&self.current, id.as_str()) {
            self.current = self.last_running_job();
        }
    }

    fn apply_skipped(&mut self, id: String, detail: String)
        requires
            old(self).wf(),
        ensures
            final(self).wf(),
            forall|d: Duration|
                final(self)@ == apply_spec(old(self)@, MessageView::JobSkipped { id: id@, detail: detail@ }, d),
    {
        let ghost s0 = self@;
        let ghost dv = detail@;
        let ghost f = |j: JobView|
            JobView { status: JobStatus::Skipped, progress: Some((1u32, 1u32)), detail: Some(dv), ..j };
        match find_job(&self.jobs, id.as_str()) {
            Some(k) => {
                proof {
                    lemma_find_unique(s0.jobs, id@, k as int);
                }
                let mut job = self.jobs.remove(k);
                job.status = JobStatus::Skipped;
                job.progress = Some((1, 1));
                job.detail = Some(detail);
                self.jobs.insert(k, job);
                assert(self@.jobs =~= s0.jobs.update(k as int, job@));
                proof {
                    lemma_update_job_at(s0.jobs, id@, k as int, f);
                    lemma_unique_update(s0.jobs, k as int, job@);
                }
                assert(job@ == f(s0.jobs[k as int]));
            },
            None => {
                proof {
                    lemma_update_job_absent(s0.jobs, id@, f);
                }
            },
        }
        if opt_str_is(&self.current, id.as_str()) {
            self.current = self.last_running_job();
        }
    }

    fn apply_failed(&mut self, id: String, message: String)
        requires
            old(self).wf(),
        ensures
            final(self).wf(),
            exists|d: Duration|
                final(self)@ == apply_spec(old(self)@, MessageView::JobFailed { id: id@, message: message@ }, d),
    {
        let ghost s0 = self@;
        let ghost mv = message@;
        let ghost mut w: Duration = arbitrary();
        match find_job(&self.jobs, id.as_str()) {
            Some(k) => {
                proof {
                    lemma_find_unique(s0.jobs, id@, k as int);
                }
                let mut job = self.jobs.remove(k);
                job.status = JobStatus::Failed;
                job.detail = Some(message);
                job.elapsed = match &job.started {
                    Some(st) => {
                        let e = instant_elapsed(st);
                        proof {
                            w = e;
                        }
                        Some(e)
                    },
                    None => None,
                };
                self.jobs.insert(k, job);
                assert(self@.jobs =~= s0.jobs.update(k as int, job@));
                let ghost f = |j: JobView|
                    JobView {
                        status: JobStatus::Failed,
                        detail: Some(mv),
                        elapsed: if j.started { Some(w) } else { None },
                        ..j
                    };
                proof {
                    lemma_update_job_at(s0.jobs, id@, k as int, f);
                    lemma_unique_update(s0.jobs, k as int, job@);
                }
                assert(job@ == f(s0.jobs[k as int]));
            },
            None => {
                let ghost f = |j: JobView|
                    JobView {
                        status: JobStatus::Failed,
                        detail: Some(mv),
                        elapsed: if j.started { Some(w) } else { None },
                        ..j
                    };
                proof {
                    lemma_update_job_absent(s0.jobs, id@, f);
                }
            },
        }
        self.current = Some(id);
        assert(self@ == apply_spec(s0, MessageView::JobFailed { id: id@, message: mv }, w));
    }

    /// Applies one message to the state.
    pub fn apply(&mut self, message: ProgressMessage)
        requires
            old(self).wf(),
        ensures
            final(self).wf(),
            exists|d: Duration| final(self)@ == apply_spec(old(self)@, message@, d),
    {
        let ghost s0 = self@;
        let ghost mv = message@;
        match message {
            ProgressMessage::Plan(specs) => {
                self.install_specs(specs);
                assert(self@ == apply_spec(s0, mv, arbitrary()));
            },
            ProgressMessage::JobStart { id } => {
                self.apply_start(id);
                assert(self@ == apply_spec(s0, mv, arbitrary()));
            },
            ProgressMessage::JobProgress { id, completed, total, detail } => {
                self.apply_progress(id, completed, total, detail);
                assert(self@ == apply_spec(s0, mv, arbitrary()));
            },
            ProgressMessage::JobDetail { id, key, value } => {
                self.apply_detail(id, key, value);
                assert(self@ == apply_spec(s0, mv, arbitrary()));
            },
            ProgressMessage::JobDone { id, elapsed } => {
                self.apply_done(id, elapsed);
                assert(self@ == apply_spec(s0, mv, arbitrary()));
            },
            ProgressMessage::JobSkipped { id, detail } => {
                self.apply_skipped(id, detail);
                assert(self@ == apply_spec(s0, mv, arbitrary()));
            },
            ProgressMessage::JobFailed { id, message } => {
                self.apply_failed(id, message);
            },
            ProgressMessage::Log { job_id, line } => {
                self.push_log(job_id, line);
                assert(self@ == apply_spec(s0, mv, arbitrary()));
            },
            ProgressMessage::VmState { vm_id, state } => {
                let line = cat3("vm ", vm_id.as_str(), " → ");
                let line = cat(line.as_str(), state.as_str());
                self.push_log(None, line);
                assert(self@ == apply_spec(s0, mv, arbitrary()));
            },
            ProgressMessage::Finished { ok, message } => {
                self.finished = Some((ok, message));
                assert(self@ == apply_spec(s0, mv, arbitrary()));
            },
        }
    }

    /// Adds a log line unless it is empty; only the last `MAX_LOG_LINES` lines stay.
    pub fn push_log(&mut self, job_id: Option<String>, line: String)
        requires
            old(self).wf(),
        ensures
            final(self).wf(),
            final(self)@ == (StateView { logs: push_log_spec(old(self)@.logs, opt_view(job_id), line@), ..old(self)@ }),
    {
        if line.unicode_len() == 0 {
            return;
        }
        let ghost jid = opt_view(job_id);
        let ghost lv = line@;
        self.logs.push((job_id, line));
        assert(logs_view(self.logs@) =~= logs_view(old(self).logs@).push((jid, lv)));
        if self.logs.len() > MAX_LOG_LINES {
            let ghost l = self.logs@;
            let excess = self.logs.len() - MAX_LOG_LINES;
            let kept = self.logs.split_off(excess);
            self.logs = kept;
            assert(self.logs@ =~= l.subrange(excess as int, l.len() as int));
            assert(logs_view(self.logs@) =~= logs_view(l).subrange(excess as int, l.len() as int));
        }
    }

    /// How long the run has been going; nothing is promised of the value.
    pub fn running_time(&self) -> Duration {
        instant_elapsed(&self.started)
    }

    /// The jobs of the tree, in install order.
    pub fn jobs(&self) -> (r: &Vec<JobState>)
        ensures
            jobs_view(r@) == self@.jobs,
    {
        &self.jobs
    }

    /// The job named `id`.
    pub fn job(&self, id: &str) -> (r: Option<&JobState>)
        requires
            self.wf(),
        ensures
            match r {
                Some(j) => has_job(self@.jobs, id@) && j@ == job_of(self@.jobs, id@),
                None => !has_job(self@.jobs, id@),
            },
    {
        match find_job(&self.jobs, id) {
            Some(k) => {
                proof {
                    lemma_find_unique(self@.jobs, id@, k as int);
                }
                Some(&self.jobs[k])
            },
            None => None,
        }
    }

    /// The log buffer, oldest line first.
    pub fn logs(&self) -> (r: &Vec<(Option<String>, String)>)
        ensures
            logs_view(r@) == self@.logs,
    {
        &self.logs
    }

    /// The job shown as current.
    pub fn current(&self) -> (r: Option<String>)
        ensures
            opt_view(r) == self@.current,
    {
        clone_opt_string(&self.current)
    }

    /// The outcome of the run, once it finished.
    pub fn finished(&self) -> (r: Option<(bool, String)>)
        ensures
            finished_view(r) == self@.finished,
    {
        match &self.finished {
            Some((ok, m)) => Some((*ok, m.clone())),
            None => None,
        }
    }

    /// The weighted percentage of completed work.
    pub fn percent(&self) -> (r: u8)
        ensures
            r == percent_spec(self@.jobs),
            r <= 100,
    {
        let ghost jv = self@.jobs;
        let mut total: u128 = 0;
        let mut done: u128 = 0;
        let mut i: usize = 0;
        while i < self.jobs.len()
            invariant
                jv == jobs_view(self.jobs@),
                i <= self.jobs@.len(),
                total == total_units(jv.subrange(0, i as int)),
                done == total_done(jv.subrange(0, i as int)),
                total <= i * 0x1_0000_0000,
                done <= i * 0x10_0000_0000_0000,
            decreases self.jobs.len() - i,
        {
            let ghost pre = jv.subrange(0, i + 1);
            assert(pre.drop_last() =~= jv.subrange(0, i as int));
            assert(pre.last() == jv[i as int]);
            let d = scaled_job_done(&self.jobs[i]);
            let u: u128 = self.jobs[i].spec.units as u128;
            total = total + u;
            done = done + d as u128;
            i = i + 1;
        }
        assert(jv.subrange(0, i as int) =~= jv);
        if total == 0 {
            return 0;
        }
        assert(i <= 0x1_0000_0000_0000_0000);
        assert(total * FRACTION_SCALE <= 0x1_0000_0000_0000_0000_0000_0000_0000_0000) by (nonlinear_arith)
            requires
                total <= i * 0x1_0000_0000,
                i <= 0x1_0000_0000_0000_0000,
        ;
        assert(done * 100 <= 0x1_0000_0000_0000_0000_0000_0000_0000_0000) by (nonlinear_arith)
            requires
                done <= i * 0x10_0000_0000_0000,
                i <= 0x1_0000_0000_0000_0000,
        ;
        let p: u128 = (done * 100) / (total * (FRACTION_SCALE as u128));
        if p > 100 {
            100
        } else {
            p as u8
        }
    }

    /// (complete, all) counted over the weighted jobs.
    pub fn job_counts(&self) -> (r: (usize, usize))
        ensures
            r.0 == count_complete(self@.jobs),
            r.1 == count_weighted(self@.jobs),
    {
        let ghost jv = self@.jobs;
        let mut total: usize = 0;
        let mut done: usize = 0;
        let mut i: usize = 0;
        while i < self.jobs.len()
            invariant
                jv == jobs_view(self.jobs@),
                i <= self.jobs@.len(),
                total == count_weighted(jv.subrange(0, i as int)),
                done == count_complete(jv.subrange(0, i as int)),
                done <= total <= i,
            decreases self.jobs.len() - i,
        {
            let ghost pre = jv.subrange(0, i + 1);
            assert(pre.drop_last() =~= jv.subrange(0, i as int));
            assert(pre.last() == jv[i as int]);
            if self.jobs[i].spec.units > 0 {
                total = total + 1;
                if self.jobs[i].status == JobStatus::Done || self.jobs[i].status == JobStatus::Skipped {
                    done = done + 1;
                }
            }
            i = i + 1;
        }
        assert(jv.subrange(0, i as int) =~= jv);
        (done, total)
    }

    /// The aggregate status of the group `group_id`.
    pub fn group_status(&self, group_id: &str) -> (r: JobStatus)
        requires
            self.wf(),
        ensures
            r == group_status_spec(self@.jobs, group_id@, self@.jobs.len() as nat),
    {
        group_status_fuel(&self.jobs, group_id, self.jobs.len())
    }

    /// The status the job `id` shows: groups show their aggregate.
    pub fn effective_status(&self, id: &str) -> (r: JobStatus)
        requires
            self.wf(),
        ensures
            r == effective_status(self@.jobs, id@, self@.jobs.len() as nat),
    {
        effective_status_fuel(&self.jobs, id, self.jobs.len())
    }

    /// The last weighted job, in install order, that is running.
    pub fn last_running_job(&self) -> (r: Option<String>)
        ensures
            opt_view(r) == last_running(self@.jobs),
    {
        let ghost jv = self@.jobs;
        let mut i: usize = self.jobs.len();
        assert(jv.subrange(0, i as int) =~= jv);
        while i > 0
            invariant
                jv == jobs_view(self.jobs@),
                i <= self.jobs@.len(),
                last_running(jv) == last_running(jv.subrange(0, i as int)),
            decreases i,
        {
            let ghost pre = jv.subrange(0, i as int);
            assert(pre.drop_last() =~= jv.subrange(0, i - 1));
            assert(pre.last() == jv[i - 1]);
            if self.jobs[i - 1].spec.units > 0 && self.jobs[i - 1].status == JobStatus::Running {
                return Some(self.jobs[i - 1].spec.id.clone());
            }
            i = i - 1;
        }
        assert(jv.subrange(0, 0) =~= Seq::<JobView>::empty());
        None
    }
}

/// Sets detail `key` to `value`: the first entry of that name is overwritten,
/// or a new entry is appended.
pub fn set_detail_exec(details: &mut Vec<(String, String)>, key: String, value: String)
    ensures
        pairs_view(final(details)@) == set_detail(pairs_view(old(details)@), key@, value@),
{
    let ghost pv = pairs_view(details@);
    let mut i: usize = 0;
    while i < details.len()
        invariant
            pv == pairs_view(details@),
            details@ == old(details)@,
            i <= details@.len(),
            forall|j: int| 0 <= j < i ==> pv[j].0 != key@,
        decreases details.len() - i,
    {
        if str_eq(details[i].0.as_str(), key.as_str()) {
            proof {
                assert(pv[i as int].0 == key@);
                let c = first_key(pv, key@).unwrap();
                assert(0 <= c < pv.len() && pv[c].0 == key@ && forall|j: int| 0 <= j < c ==> pv[j].0 != key@);
                if c < i {
                } else if c > i {
                    assert(pv[i as int].0 == key@);
                }
                assert(c == i);
            }
            let ghost kv = (key@, value@);
            details.remove(i);
            details.insert(i, (key, value));
            assert(pairs_view(details@) =~= pv.update(i as int, kv));
            return;
        }
        i = i + 1;
    }
    assert(first_key(pv, key@).is_none());
    let ghost kv = (key@, value@);
    details.push((key, value));
    assert(pairs_view(details@) =~= pv.push(kv));
}

/// Scaled completed work of one job.
pub fn scaled_job_done(job: &JobState) -> (r: u64)
    ensures
        r == scaled_done(job@),
        r <= (job.spec.units as nat) * (FRACTION_SCALE as nat),
        r <= 0x10_0000_0000_0000,
{
    let units: u64 = job.spec.units as u64;
    assert(units * FRACTION_SCALE <= 0x10_0000_0000_0000) by (nonlinear_arith)
        requires
            units < 0x1_0000_0000,
    ;
    if units == 0 {
        return 0;
    }
    match job.status {
        JobStatus::Done | JobStatus::Skipped => units * FRACTION_SCALE,
        JobStatus::Running | JobStatus::Failed => match job.progress {
            Some((c, t)) => {
                if t > 0 {
                    let m: u64 = if c < t {
                        c as u64
                    } else {
                        t as u64
                    };
                    let tt: u64 = t as u64;
                    assert(units * m <= units * tt) by (nonlinear_arith)
                        requires
                            m <= tt,
                    ;
                    assert(units * tt < 0x1_0000_0000 * 0x1_0000_0000) by (nonlinear_arith)
                        requires
                            units < 0x1_0000_0000,
                            tt < 0x1_0000_0000,
                    ;
                    let um: u128 = (units as u128) * (m as u128);
                    let scaled: u128 = um * (FRACTION_SCALE as u128);
                    let q: u128 = scaled / (tt as u128);
                    assert(q <= units * FRACTION_SCALE) by (nonlinear_arith)
                        requires
                            q == (units * m * FRACTION_SCALE) / (tt as int),
                            m <= tt,
                            tt > 0,
                    ;
                    q as u64
                } else {
                    0
                }
            },
            None => 0,
        },
        JobStatus::Pending => 0,
    }
}


/// A number shown with at least two digits.
pub open spec fn pad2(n: nat) -> Seq<char> {
    if n < 10 {
        "0"@ + decimal(n)
    } else {
        decimal(n)
    }
}

/// `MM:SS`, or `HH:MM:SS` once an hour has passed.
pub open spec fn clock_text(secs: nat) -> Seq<char> {
    let h = secs / 3600;
    let m = (secs % 3600) / 60;
    let sec = secs % 60;
    if h > 0 {
        pad2(h) + ":"@ + pad2(m) + ":"@ + pad2(sec)
    } else {
        pad2(m) + ":"@ + pad2(sec)
    }
}

/// Milliseconds below a second, the clock above.
pub open spec fn elapsed_text(ms: nat) -> Seq<char> {
    if ms / 1000 == 0 {
        decimal(ms) + "ms"@
    } else {
        clock_text(ms / 1000)
    }
}

fn two_digits(n: u64) -> (r: String)
    ensures
        r@ == pad2(n as nat),
{
    let d = u64_to_decimal(n);
    if n < 10 {
        cat("0", d.as_str())
    } else {
        d
    }
}

/// A clock reading of whole seconds.
pub fn clock_of_secs(secs: u64) -> (r: String)
    ensures
        r@ == clock_text(secs as nat),
{
    let h = secs / 3600;
    let m = (secs % 3600) / 60;
    let sec = secs % 60;
    let mm = two_digits(m);
    let ss = two_digits(sec);
    if h > 0 {
        let hh = two_digits(h);
        let a = cat3(hh.as_str(), ":", mm.as_str());
        cat3(a.as_str(), ":", ss.as_str())
    } else {
        cat3(mm.as_str(), ":", ss.as_str())
    }
}

/// A duration as a clock reading.
pub fn format_clock(elapsed: Duration) -> (r: String)
    ensures
        r@ == clock_text(duration_millis_of(elapsed) as nat / 1000),
{
    let ms = duration_millis(&elapsed);
    let secs: u64 = (ms / 1000) as u64;
    clock_of_secs(secs)
}

/// A duration as milliseconds when under a second, else as a clock reading.
pub fn format_elapsed(elapsed: Duration) -> (r: String)
    ensures
        r@ == elapsed_text(duration_millis_of(elapsed) as nat),
{
    let ms = duration_millis(&elapsed);
    let secs: u64 = (ms / 1000) as u64;
    if secs == 0 {
        let small: u64 = ms as u64;
        let d = u64_to_decimal(small);
        cat(d.as_str(), "ms")
    } else {
        clock_of_secs(secs)
    }
}

/// A line of plain progress output: the percentage when it was made and the
/// text that follows it.
pub struct PlainLine {
    pub percent: u8,
    pub text: String,
}

pub open spec fn plain_view(l: Seq<PlainLine>) -> Seq<(u8, Seq<char>)> {
    l.map_values(|p: PlainLine| (p.percent, p.text@))
}

/// The text of a plain line about one job: its mark, its path and an optional
/// note in brackets.
pub open spec fn mark_text(mark: Seq<char>, path: Seq<char>, suffix: Option<Seq<char>>) -> Seq<char> {
    " "@ + mark + " "@ + path + match suffix {
        Some(v) => " ("@ + v + ")"@,
        None => Seq::<char>::empty(),
    }
}

/// An ordinary plain line: indented after the percentage.
pub open spec fn note_text(body: Seq<char>) -> Seq<char> {
    "   "@ + body
}

fn mark_line(mark: &str, path: &str, suffix: Option<String>) -> (r: String)
    ensures
        r@ == mark_text(mark@, path@, opt_view(suffix)),
{
    let a = cat3(" ", mark, " ");
    let b = cat(a.as_str(), path);
    match suffix {
        Some(v) => {
            let c = cat3(" (", v.as_str(), ")");
            cat(b.as_str(), c.as_str())
        },
        None => {
            assert(b@ + Seq::<char>::empty() =~= b@);
            b
        },
    }
}

/// What a reporter holds: besides its state, the shared percentage it
/// publishes to (`cell`), the messages it has handed to the dashboard
/// channel, oldest first, and the value it last stored in the shared
/// percentage.
pub struct ReporterView {
    pub mode: ProgressMode,
    pub state: StateView,
    pub timed: Set<Seq<char>>,
    pub current: Option<Seq<char>>,
    pub lines: Seq<(u8, Seq<char>)>,
    pub connected: bool,
    pub cell: Arc<AtomicU8>,
    pub sent: Seq<MessageView>,
    pub stored: u8,
}

/// The messages handed to the channel after `m` is sent: a reporter without a
/// channel sends nothing.
pub open spec fn sent_after(old: ReporterView, m: MessageView) -> Seq<MessageView> {
    if old.connected {
        old.sent.push(m)
    } else {
        old.sent
    }
}

pub open spec fn timer_keys(t: Seq<(String, Instant)>) -> Seq<Seq<char>> {
    t.map_values(|e: (String, Instant)| e.0@)
}

pub open spec fn keys_unique(k: Seq<Seq<char>>) -> bool {
    forall|a: int, b: int| 0 <= a < k.len() && 0 <= b < k.len() && a != b ==> #[trigger] k[a] != #[trigger] k[b]
}

/// The plain lines after one more line, if the mode shows them; the percentage
/// is that of the state after the change.
pub open spec fn plain_push(old: ReporterView, new: ReporterView, text: Seq<char>) -> Seq<(u8, Seq<char>)> {
    if old.mode == ProgressMode::Plain {
        old.lines.push((percent_spec(new.state.jobs), text))
    } else {
        old.lines
    }
}

/// `new` is `old` after the message `m` went to the state and to the channel,
/// if there is one, and the new percentage to the shared percentage.
pub open spec fn published(old: ReporterView, new: ReporterView, m: MessageView) -> bool {
    &&& new.mode == old.mode
    &&& new.connected == old.connected
    &&& new.cell == old.cell
    &&& exists|d: Duration| new.state == apply_spec(old.state, m, d)
    &&& new.sent == sent_after(old, m)
    &&& new.stored == percent_spec(new.state.jobs)
}

/// The job tree of five jobs per VM: a group below the VM phase and four weighted steps.
pub open spec fn vm_block(vm: Seq<char>) -> Seq<JobSpecView> {
    let parent = "vm:"@ + vm;
    seq![
        JobSpecView { id: parent, parent: Some("phase-vms"@), label: vm, units: 0 },
        JobSpecView { id: parent + ":"@ + "create"@, parent: Some(parent), label: "VM erstellen"@, units: 2 },
        JobSpecView { id: parent + ":"@ + "start"@, parent: Some(parent), label: "Helper starten"@, units: 1 },
        JobSpecView { id: parent + ":"@ + "agent"@, parent: Some(parent), label: "Guest Agent"@, units: 1 },
        JobSpecView {
            id: parent + ":"@ + "cloud-init"@,
            parent: Some(parent),
            label: "Cloud-init provisioning"@,
            units: 4,
        },
    ]
}

pub open spec fn vm_specs(ids: Seq<Seq<char>>) -> Seq<JobSpecView>
    decreases ids.len(),
{
    if ids.len() == 0 {
        Seq::empty()
    } else {
        vm_specs(ids.drop_last()) + vm_block(ids.last())
    }
}

fn vm_leaf(parent: &str, suffix: &str, label: &str, units: u32) -> (r: JobSpec)
    ensures
        r@ == (JobSpecView { id: parent@ + ":"@ + suffix@, parent: Some(parent@), label: label@, units }),
{
    let id = cat3(parent, ":", suffix);
    JobSpec::leaf(id.as_str(), parent, label, units)
}

/// The jobs of the VMs `vm_ids`, five per VM.
pub fn vm_job_specs(vm_ids: &[String]) -> (r: Vec<JobSpec>)
    ensures
        specs_view(r@) == vm_specs(strings_view(vm_ids@)),
        r@.len() == 5 * vm_ids@.len(),
{
    let ghost ids = strings_view(vm_ids@);
    let mut r: Vec<JobSpec> = Vec::new();
    let mut i: usize = 0;
    while i < vm_ids.len()
        invariant
            i <= vm_ids@.len(),
            ids == strings_view(vm_ids@),
            specs_view(r@) == vm_specs(ids.subrange(0, i as int)),
            r@.len() == 5 * i,
        decreases vm_ids.len() - i,
    {
        let vm = &vm_ids[i];
        let parent = cat("vm:", vm.as_str());
        let ghost before = specs_view(r@);
        r.push(JobSpec {
            id: parent.clone(),
            parent: Some(owned("phase-vms")),
            label: vm.clone(),
            units: 0,
        });
        r.push(vm_leaf(parent.as_str(), "create", "VM erstellen", 2));
        r.push(vm_leaf(parent.as_str(), "start", "Helper starten", 1));
        r.push(vm_leaf(parent.as_str(), "agent", "Guest Agent", 1));
        r.push(vm_leaf(parent.as_str(), "cloud-init", "Cloud-init provisioning", 4));
        let ghost pre = ids.subrange(0, i + 1);
        assert(pre.drop_last() =~= ids.subrange(0, i as int));
        assert(pre.last() == vm@);
        assert(specs_view(r@) =~= before + vm_block(vm@));
        i = i + 1;
    }
    assert(ids.subrange(0, vm_ids@.len() as int) =~= ids);
    r
}

/// Reports the progress of an apply or down run: it keeps the job tree, sends
/// each change to the dashboard channel, publishes the percentage and collects
/// the lines of plain output.
pub struct ProgressReporter {
    mode: ProgressMode,
    tx: Option<Sender<ProgressMessage>>,
    state: ProgressState,
    job_started: Vec<(String, Instant)>,
    current: Option<String>,
    plain_percent: Arc<AtomicU8>,
    plain: Vec<PlainLine>,
    sent: Ghost<Seq<MessageView>>,
    stored: Ghost<u8>,
}

impl View for ProgressReporter {
    type V = ReporterView;

    closed spec fn view(&self) -> ReporterView {
        ReporterView {
            mode: self.mode,
            state: self.state@,
            timed: timer_keys(self.job_started@).to_set(),
            current: opt_view(self.current),
            lines: plain_view(self.plain@),
            connected: self.tx.is_some(),
            cell: self.plain_percent,
            sent: self.sent@,
            stored: self.stored@,
        }
    }
}

/// A job tree in which no job has started has done no work.
proof fn lemma_pending_done_zero(jobs: Seq<JobView>)
    requires
        forall|i: int| 0 <= i < jobs.len() ==> #[trigger] jobs[i].status == JobStatus::Pending,
    ensures
        total_done(jobs) == 0,
    decreases jobs.len(),
{
    if jobs.len() > 0 {
        lemma_pending_done_zero(jobs.drop_last());
    }
}

/// The jobs of a new tree are all pending.
proof fn lemma_install_pending(specs: Seq<JobSpecView>)
    ensures
        forall|i: int|
            0 <= i < install(Seq::empty(), specs).len() ==> #[trigger] install(Seq::empty(), specs)[i].status
                == JobStatus::Pending,
    decreases specs.len(),
{
    if specs.len() > 0 {
        lemma_install_pending(specs.drop_last());
    }
}

/// A new tree stands at zero percent.
proof fn lemma_initial_percent(specs: Seq<JobSpecView>)
    ensures
        percent_spec(initial_state(specs).jobs) == 0,
{
    lemma_install_pending(specs);
    lemma_pending_done_zero(install(Seq::empty(), specs));
}

fn find_timer(t: &Vec<(String, Instant)>, id: &str) -> (r: Option<usize>)
    ensures
        match r {
            Some(k) => k < t@.len() && timer_keys(t@)[k as int] == id@,
            None => !timer_keys(t@).contains(id@),
        },
{
    let mut k: usize = 0;
    while k < t.len()
        invariant
            k <= t@.len(),
            forall|i: int| 0 <= i < k ==> timer_keys(t@)[i] != id@,
        decreases t.len() - k,
    {
        if str_eq(t[k].0.as_str(), id) {
            return Some(k);
        }
        k = k + 1;
    }
    None
}

impl ProgressReporter {
    /// The shared percentage always holds the percentage of the state.
    pub closed spec fn wf(&self) -> bool {
        &&& self.state.wf()
        &&& keys_unique(timer_keys(self.job_started@))
        &&& self.stored@ == percent_spec(self.state@.jobs)
    }

    /// A reporter for a run over `steps`; the job tree goes to the channel
    /// first, and the shared percentage starts at zero.
    pub fn new(mode: ProgressMode, tx: Option<Sender<ProgressMessage>>, steps: &[&str]) -> (r: ProgressReporter)
        ensures
            r.wf(),
            r@ == (ReporterView {
                mode,
                state: initial_state(default_jobs_spec(steps@)),
                timed: Set::empty(),
                current: None,
                lines: Seq::empty(),
                connected: tx.is_some(),
                cell: r@.cell,
                sent: if tx.is_some() {
                    seq![MessageView::Plan(default_jobs_spec(steps@))]
                } else {
                    Seq::empty()
                },
                stored: 0,
            }),
    {
        let specs = default_job_specs(steps);
        let ghost sent: Seq<MessageView> = Seq::empty();
        if let Some(sender) = &tx {
            let plan = ProgressMessage::Plan(duplicate_specs(&specs));
            proof {
                sent = seq![plan@];
            }
            channel_send(sender, plan);
        }
        proof {
            lemma_initial_percent(default_jobs_spec(steps@));
        }
        let r = ProgressReporter {
            mode,
            tx,
            state: ProgressState::new(specs),
            job_started: Vec::new(),
            current: None,
            plain_percent: Arc::new(AtomicU8::new(0)),
            plain: Vec::new(),
            sent: Ghost(sent),
            stored: Ghost(0),
        };
        assert(r@.timed =~= Set::<Seq<char>>::empty());
        assert(r@.lines =~= Seq::<(u8, Seq<char>)>::empty());
        r
    }

    /// Progress is shown in some form.
    pub fn enabled(&self) -> (r: bool)
        ensures
            r == (self@.mode != ProgressMode::Off),
    {
        self.mode != ProgressMode::Off
    }

    /// Subprocess error output goes through the reporter.
    pub fn pipe_subprocess_stderr(&self) -> (r: bool)
        ensures
            r == (self@.mode != ProgressMode::Off),
    {
        self.mode != ProgressMode::Off
    }

    /// The percentage, in plain mode.
    pub fn plain_percent(&self) -> (r: Option<u8>)
        ensures
            r == (if self@.mode == ProgressMode::Plain {
                Some(percent_spec(self@.state.jobs))
            } else {
                None
            }),
    {
        if self.mode == ProgressMode::Plain {
            Some(self.state.percent())
        } else {
            None
        }
    }

    /// Stores the percentage of the state in the shared percentage.
    fn sync_plain_percent(&mut self)
        ensures
            final(self).stored@ == percent_spec(old(self).state@.jobs),
            final(self).state == old(self).state,
            final(self).mode == old(self).mode,
            final(self).tx == old(self).tx,
            final(self).job_started == old(self).job_started,
            final(self).current == old(self).current,
            final(self).plain == old(self).plain,
            final(self).plain_percent == old(self).plain_percent,
            final(self).sent == old(self).sent,
    {
        let p = self.state.percent();
        self.plain_percent.store(p, std::sync::atomic::Ordering::Relaxed);
        self.stored = Ghost(p);
    }

    /// Hands `message` to the channel, if there is one.
    fn emit(&mut self, message: ProgressMessage)
        ensures
            final(self).sent@ == (if old(self).tx.is_some() {
                old(self).sent@.push(message@)
            } else {
                old(self).sent@
            }),
            final(self).stored == old(self).stored,
            final(self).state == old(self).state,
            final(self).mode == old(self).mode,
            final(self).tx == old(self).tx,
            final(self).job_started == old(self).job_started,
            final(self).current == old(self).current,
            final(self).plain == old(self).plain,
            final(self).plain_percent == old(self).plain_percent,
    {
        let ghost m = message@;
        if let Some(tx) = &self.tx {
            channel_send(tx, message);
            self.sent = Ghost(self.sent@.push(m));
        }
    }

    fn publish(&mut self, message: ProgressMessage)
        requires
            old(self).wf(),
        ensures
            final(self).wf(),
            published(old(self)@, final(self)@, message@),
            final(self)@.timed == old(self)@.timed,
            final(self)@.current == old(self)@.current,
            final(self)@.lines == old(self)@.lines,
            final(self).job_started@ == old(self).job_started@,
    {
        let copy = message.duplicate();
        self.state.apply(copy);
        self.sync_plain_percent();
        self.emit(message);
    }

    fn plain_line(&mut self, mark: &str, id: &str, suffix: Option<String>)
        requires
            old(self).wf(),
        ensures
            final(self).wf(),
            final(self)@ == (ReporterView {
                lines: plain_push(
                    old(self)@,
                    old(self)@,
                    mark_text(mark@, path_spec(old(self)@.state.jobs, id@), opt_view(suffix)),
                ),
                ..old(self)@
            }),
            final(self).job_started@ == old(self).job_started@,
    {
        if self.mode != ProgressMode::Plain {
            return;
        }
        let path = job_path(self.state.jobs(), id);
        let text = mark_line(mark, path.as_str(), suffix);
        let percent = self.state.percent();
        self.plain.push(PlainLine { percent, text });
        assert(plain_view(self.plain@) =~= plain_view(old(self).plain@).push((percent, text@)));
    }

    fn note_line(&mut self, body: String)
        requires
            old(self).wf(),
        ensures
            final(self).wf(),
            final(self)@ == (ReporterView { lines: plain_push(old(self)@, old(self)@, note_text(body@)), ..old(self)@ }),
            final(self).job_started@ == old(self).job_started@,
    {
        if self.mode != ProgressMode::Plain {
            return;
        }
        let text = cat("   ", body.as_str());
        let percent = self.state.percent();
        self.plain.push(PlainLine { percent, text });
        assert(plain_view(self.plain@) =~= plain_view(old(self).plain@).push((percent, text@)));
    }

    /// Adds jobs to the tree, stores the new percentage and sends the list as
    /// a plan; an empty list changes nothing.
    pub fn add_jobs(&mut self, specs: Vec<JobSpec>)
        requires
            old(self).wf(),
        ensures
            final(self).wf(),
            lifetime_kept(old(self)@, final(self)@),
            specs@.len() == 0 ==> final(self)@ == old(self)@,
            specs@.len() > 0 ==> final(self)@ == (ReporterView {
                state: StateView { jobs: install(old(self)@.state.jobs, specs_view(specs@)), ..old(self)@.state },
                sent: sent_after(old(self)@, MessageView::Plan(specs_view(specs@))),
                stored: percent_spec(install(old(self)@.state.jobs, specs_view(specs@))),
                ..old(self)@
            }),
    {
        if specs.len() == 0 {
            return;
        }
        self.state.install_specs(duplicate_specs(&specs));
        self.sync_plain_percent();
        self.emit(ProgressMessage::Plan(specs));
    }

    /// Adds the jobs of the VMs `vm_ids` below the VM phase, as one plan; no
    /// VMs change nothing.
    pub fn add_vm_jobs(&mut self, vm_ids: &[String])
        requires
            old(self).wf(),
        ensures
            final(self).wf(),
            lifetime_kept(old(self)@, final(self)@),
            vm_ids@.len() == 0 ==> final(self)@ == old(self)@,
            vm_ids@.len() > 0 ==> final(self)@ == (ReporterView {
                state: StateView {
                    jobs: install(old(self)@.state.jobs, vm_specs(strings_view(vm_ids@))),
                    ..old(self)@.state
                },
                sent: sent_after(old(self)@, MessageView::Plan(vm_specs(strings_view(vm_ids@)))),
                stored: percent_spec(install(old(self)@.state.jobs, vm_specs(strings_view(vm_ids@)))),
                ..old(self)@
            }),
    {
        let specs = vm_job_specs(vm_ids);
        self.add_jobs(specs);
    }

    fn start_timer(&mut self, id: &str)
        requires
            old(self).wf(),
        ensures
            final(self).wf(),
            final(self)@ == (ReporterView { timed: old(self)@.timed.insert(id@), ..old(self)@ }),
    {
        let ghost keys = timer_keys(self.job_started@);
        match find_timer(&self.job_started, id) {
            Some(k) => {
                self.job_started.set(k, (owned(id), instant_now()));
                assert(timer_keys(self.job_started@) =~= keys);
                assert(keys.to_set() =~= keys.to_set().insert(id@)) by {
                    assert(keys.contains(id@)) by {
                        assert(keys[k as int] == id@);
                    }
                }
            },
            None => {
                self.job_started.push((owned(id), instant_now()));
                let ghost nk = timer_keys(self.job_started@);
                assert(nk =~= keys.push(id@));
                assert forall|x: Seq<char>| #[trigger] nk.to_set().contains(x) == keys.to_set().insert(id@).contains(x) by {
                    if keys.contains(x) {
                        let i = choose|i: int| 0 <= i < keys.len() && keys[i] == x;
                        assert(nk[i] == x);
                    }
                    if x == id@ {
                        assert(nk[keys.len() as int] == x);
                    }
                    if nk.contains(x) {
                        let i = choose|i: int| 0 <= i < nk.len() && nk[i] == x;
                        if i < keys.len() {
                            assert(keys[i] == x);
                        }
                    }
                }
                assert(nk.to_set() =~= keys.to_set().insert(id@));
                assert forall|a: int, b: int| 0 <= a < nk.len() && 0 <= b < nk.len() && a != b implies #[trigger] nk[a] != #[trigger] nk[b] by {
                    if a < keys.len() && b < keys.len() {
                        assert(keys[a] != keys[b]);
                    } else if a < keys.len() {
                        assert(keys[a] != id@);
                    } else if b < keys.len() {
                        assert(keys[b] != id@);
                    }
                }
            },
        }
    }

    /// The time since the job `id` started, zero if it was not started; the
    /// job is no longer timed afterwards.
    fn take_timer(&mut self, id: &str) -> (r: Duration)
        requires
            old(self).wf(),
        ensures
            final(self).wf(),
            final(self)@ == (ReporterView { timed: old(self)@.timed.remove(id@), ..old(self)@ }),
            !old(self)@.timed.contains(id@) ==> duration_millis_of(r) == 0 && duration_nanos_of(r) == 0,
    {
        let ghost keys = timer_keys(self.job_started@);
        match find_timer(&self.job_started, id) {
            Some(k) => {
                let entry = self.job_started.remove(k);
                let ghost nk = timer_keys(self.job_started@);
                assert(nk =~= keys.remove(k as int));
                assert forall|x: Seq<char>| #[trigger] nk.to_set().contains(x) == keys.to_set().remove(id@).contains(x) by {
                    if keys.contains(x) && x != id@ {
                        let i = choose|i: int| 0 <= i < keys.len() && keys[i] == x;
                        if i < k {
                            assert(nk[i] == x);
                        } else {
                            assert(i != k);
                            assert(nk[i - 1] == x);
                        }
                    }
                    if nk.contains(x) {
                        let i = choose|i: int| 0 <= i < nk.len() && nk[i] == x;
                        if i < k {
                            assert(keys[i] == x);
                            assert(i != k);
                        } else {
                            assert(keys[i + 1] == x);
                            assert(i + 1 != k);
                        }
                    }
                }
                assert(nk.to_set() =~= keys.to_set().remove(id@));
                assert forall|a: int, b: int| 0 <= a < nk.len() && 0 <= b < nk.len() && a != b implies #[trigger] nk[a] != #[trigger] nk[b] by {
                    let a2 = if a < k { a } else { a + 1 };
                    let b2 = if b < k { b } else { b + 1 };
                    assert(nk[a] == keys[a2]);
                    assert(nk[b] == keys[b2]);
                }
                instant_elapsed(&entry.1)
            },
            None => {
                assert(keys.to_set() =~= keys.to_set().remove(id@));
                duration_zero()
            },
        }
    }

    /// The step `step` starts.
    pub fn step_start(&mut self, step: &str)
        requires
            old(self).wf(),
        ensures
            final(self).wf(),
            lifetime_kept(old(self)@, final(self)@),
            published(old(self)@, final(self)@, MessageView::JobStart { id: "step:"@ + step@ }),
            final(self)@.timed == old(self)@.timed.insert("step:"@ + step@),
            final(self)@.current == Some("step:"@ + step@),
            final(self)@.lines == plain_push(
                old(self)@,
                final(self)@,
                mark_text("→"@, path_spec(final(self)@.state.jobs, "step:"@ + step@), None),
            ),
    {
        let id = cat("step:", step);
        self.job_start(id.as_str());
    }

    /// The step `step` is done.
    pub fn step_done(&mut self, step: &str)
        requires
            old(self).wf(),
        ensures
            final(self).wf(),
            lifetime_kept(old(self)@, final(self)@),
            final(self)@.mode == old(self)@.mode,
            final(self)@.connected == old(self)@.connected,
            final(self)@.cell == old(self)@.cell,
            final(self)@.timed == old(self)@.timed.remove("step:"@ + step@),
            final(self)@.current == (if old(self)@.current == Some("step:"@ + step@) {
                None
            } else {
                old(self)@.current
            }),
            final(self)@.stored == percent_spec(final(self)@.state.jobs),
            exists|e: Duration, d: Duration|
                {
                    &&& final(self)@.state == apply_spec(
                        old(self)@.state,
                        MessageView::JobDone { id: "step:"@ + step@, elapsed: e },
                        d,
                    )
                    &&& final(self)@.sent == sent_after(old(self)@, MessageView::JobDone { id: "step:"@ + step@, elapsed: e })
                    &&& final(self)@.lines == plain_push(
                        old(self)@,
                        final(self)@,
                        mark_text(
                            "✓"@,
                            path_spec(final(self)@.state.jobs, "step:"@ + step@),
                            Some(elapsed_text(duration_millis_of(e) as nat)),
                        ),
                    )
                    &&& !old(self)@.timed.contains("step:"@ + step@) ==> duration_millis_of(e) == 0 && duration_nanos_of(e) == 0
                },
    {
        let id = cat("step:", step);
        self.job_done(id.as_str());
    }

    /// The job `id` starts: it is timed and becomes the current job.
    pub fn job_start(&mut self, id: &str)
        requires
            old(self).wf(),
        ensures
            final(self).wf(),
            lifetime_kept(old(self)@, final(self)@),
            published(old(self)@, final(self)@, MessageView::JobStart { id: id@ }),
            final(self)@.timed == old(self)@.timed.insert(id@),
            final(self)@.current == Some(id@),
            final(self)@.lines == plain_push(
                old(self)@,
                final(self)@,
                mark_text("→"@, path_spec(final(self)@.state.jobs, id@), None),
            ),
    {
        self.start_timer(id);
        self.current = Some(owned(id));
        self.publish(ProgressMessage::JobStart { id: owned(id) });
        self.plain_line("→", id, None);
    }

    /// The job `id` made progress: `completed` of `total`, with an optional note.
    pub fn job_progress(&mut self, id: &str, completed: u32, total: u32, detail: Option<String>)
        requires
            old(self).wf(),
        ensures
            final(self).wf(),
            lifetime_kept(old(self)@, final(self)@),
            published(
                old(self)@,
                final(self)@,
                MessageView::JobProgress { id: id@, completed, total, detail: opt_view(detail) },
            ),
            final(self)@.timed == old(self)@.timed,
            final(self)@.current == Some(id@),
            final(self)@.lines == match opt_view(detail) {
                Some(d) => plain_push(old(self)@, final(self)@, note_text(path_spec(final(self)@.state.jobs, id@) + ": "@ + d)),
                None => old(self)@.lines,
            },
    {
        self.current = Some(owned(id));
        let plain_detail = clone_opt_string(&detail);
        self.publish(ProgressMessage::JobProgress { id: owned(id), completed, total, detail });
        if self.mode == ProgressMode::Plain {
            if let Some(d) = plain_detail {
                let path = job_path(self.state.jobs(), id);
                let body = cat3(path.as_str(), ": ", d.as_str());
                self.note_line(body);
            }
        }
    }

    /// Sets the detail `key` of the job `id` to `value`.
    pub fn job_detail(&mut self, id: &str, key: &str, value: &str)
        requires
            old(self).wf(),
        ensures
            final(self).wf(),
            lifetime_kept(old(self)@, final(self)@),
            published(old(self)@, final(self)@, MessageView::JobDetail { id: id@, key: key@, value: value@ }),
            final(self)@.timed == old(self)@.timed,
            final(self)@.current == old(self)@.current,
            final(self)@.lines == plain_push(
                old(self)@,
                final(self)@,
                note_text(path_spec(final(self)@.state.jobs, id@) + " · "@ + key@ + ": "@ + value@),
            ),
    {
        self.publish(ProgressMessage::JobDetail { id: owned(id), key: owned(key), value: owned(value) });
        if self.mode == ProgressMode::Plain {
            let path = job_path(self.state.jobs(), id);
            let a = cat3(path.as_str(), " · ", key);
            let body = cat3(a.as_str(), ": ", value);
            self.note_line(body);
        }
    }

    /// The job `id` is done; it stops being current if it was.
    pub fn job_done(&mut self, id: &str)
        requires
            old(self).wf(),
        ensures
            final(self).wf(),
            lifetime_kept(old(self)@, final(self)@),
            final(self)@.mode == old(self)@.mode,
            final(self)@.connected == old(self)@.connected,
            final(self)@.cell == old(self)@.cell,
            final(self)@.timed == old(self)@.timed.remove(id@),
            final(self)@.current == (if old(self)@.current == Some(id@) {
                None
            } else {
                old(self)@.current
            }),
            final(self)@.stored == percent_spec(final(self)@.state.jobs),
            exists|e: Duration, d: Duration|
                {
                    &&& final(self)@.state == apply_spec(old(self)@.state, MessageView::JobDone { id: id@, elapsed: e }, d)
                    &&& final(self)@.sent == sent_after(old(self)@, MessageView::JobDone { id: id@, elapsed: e })
                    &&& final(self)@.lines == plain_push(
                        old(self)@,
                        final(self)@,
                        mark_text(
                            "✓"@,
                            path_spec(final(self)@.state.jobs, id@),
                            Some(elapsed_text(duration_millis_of(e) as nat)),
                        ),
                    )
                    &&& !old(self)@.timed.contains(id@) ==> duration_millis_of(e) == 0 && duration_nanos_of(e) == 0
                },
    {
        let elapsed = self.take_timer(id);
        self.publish(ProgressMessage::JobDone { id: owned(id), elapsed });
        let shown = format_elapsed(elapsed);
        self.plain_line("✓", id, Some(shown));
        if opt_str_is(&self.current, id) {
            self.current = None;
        }
    }

    /// The job `id` was skipped, with a note why.
    pub fn job_skip(&mut self, id: &str, detail: &str)
        requires
            old(self).wf(),
        ensures
            final(self).wf(),
            lifetime_kept(old(self)@, final(self)@),
            published(old(self)@, final(self)@, MessageView::JobSkipped { id: id@, detail: detail@ }),
            final(self)@.timed == old(self)@.timed,
            final(self)@.current == old(self)@.current,
            final(self)@.lines == plain_push(
                old(self)@,
                final(self)@,
                mark_text("–"@, path_spec(final(self)@.state.jobs, id@), Some(detail@)),
            ),
    {
        self.publish(ProgressMessage::JobSkipped { id: owned(id), detail: owned(detail) });
        self.plain_line("–", id, Some(owned(detail)));
    }

    /// The job `id` failed with `message`.
    pub fn job_fail(&mut self, id: &str, message: &str)
        requires
            old(self).wf(),
        ensures
            final(self).wf(),
            lifetime_kept(old(self)@, final(self)@),
            published(old(self)@, final(self)@, MessageView::JobFailed { id: id@, message: message@ }),
            final(self)@.timed == old(self)@.timed.remove(id@),
            final(self)@.current == old(self)@.current,
            exists|e: Duration|
                {
                    &&& final(self)@.lines == plain_push(
                        old(self)@,
                        final(self)@,
                        mark_text(
                            "✗"@,
                            path_spec(final(self)@.state.jobs, id@),
                            Some(message@ + " · "@ + elapsed_text(duration_millis_of(e) as nat)),
                        ),
                    )
                    &&& !old(self)@.timed.contains(id@) ==> duration_millis_of(e) == 0 && duration_nanos_of(e) == 0
                },
    {
        let elapsed = self.take_timer(id);
        self.publish(ProgressMessage::JobFailed { id: owned(id), message: owned(message) });
        let shown = format_elapsed(elapsed);
        let note = cat3(message, " · ", shown.as_str());
        self.plain_line("✗", id, Some(note));
    }

    /// A log line for the current job; an empty line is dropped.
    pub fn log(&mut self, line: &str)
        requires
            old(self).wf(),
        ensures
            final(self).wf(),
            lifetime_kept(old(self)@, final(self)@),
            line@.len() == 0 ==> final(self)@ == old(self)@,
            line@.len() > 0 ==> {
                &&& published(old(self)@, final(self)@, MessageView::Log { job_id: old(self)@.current, line: line@ })
                &&& final(self)@.timed == old(self)@.timed
                &&& final(self)@.current == old(self)@.current
                &&& final(self)@.lines == plain_push(
                    old(self)@,
                    final(self)@,
                    note_text(
                        match old(self)@.current {
                            Some(c) => path_spec(final(self)@.state.jobs, c) + " · "@,
                            None => Seq::<char>::empty(),
                        } + line@,
                    ),
                )
            },
    {
        if line.unicode_len() == 0 {
            return;
        }
        let job_id = clone_opt_string(&self.current);
        self.publish(ProgressMessage::Log { job_id, line: owned(line) });
        if self.mode == ProgressMode::Plain {
            let body = match &self.current {
                Some(c) => {
                    let path = job_path(self.state.jobs(), c.as_str());
                    cat3(path.as_str(), " · ", line)
                },
                None => {
                    let b = owned(line);
                    assert(Seq::<char>::empty() + line@ =~= line@);
                    b
                },
            };
            self.note_line(body);
        }
    }

    /// Another handle to the dashboard channel, if there is one.
    pub fn log_sender(&self) -> (r: Option<Sender<ProgressMessage>>)
        ensures
            r.is_some() == self@.connected,
    {
        match &self.tx {
            Some(tx) => Some(channel_clone(tx)),
            None => None,
        }
    }

    /// The id of the current job.
    pub fn current_job_id(&self) -> (r: Option<String>)
        ensures
            opt_view(r) == self@.current,
    {
        clone_opt_string(&self.current)
    }

    /// The path of the current job.
    pub fn current_job_path(&self) -> (r: Option<String>)
        requires
            self.wf(),
        ensures
            opt_view(r) == match self@.current {
                Some(c) => Some(path_spec(self@.state.jobs, c)),
                None => None,
            },
    {
        match &self.current {
            Some(c) => Some(job_path(self.state.jobs(), c.as_str())),
            None => None,
        }
    }

    /// Another handle to the reporter's own shared percentage.
    pub fn percent_handle(&self) -> (r: Arc<AtomicU8>)
        ensures
            r == self@.cell,
    {
        arc_percent_clone(&self.plain_percent)
    }

    /// The run finished, well or not, with a closing message.
    pub fn finished(&mut self, ok: bool, message: &str)
        requires
            old(self).wf(),
        ensures
            final(self).wf(),
            lifetime_kept(old(self)@, final(self)@),
            published(old(self)@, final(self)@, MessageView::Finished { ok, message: message@ }),
            final(self)@.timed == old(self)@.timed,
            final(self)@.current == old(self)@.current,
            final(self)@.lines == plain_push(
                old(self)@,
                final(self)@,
                " "@ + (if ok { "✓"@ } else { "✗"@ }) + " "@ + message@,
            ),
    {
        self.publish(ProgressMessage::Finished { ok, message: owned(message) });
        if self.mode == ProgressMode::Plain {
            let mark = if ok { "✓" } else { "✗" };
            let text = cat3(" ", mark, " ");
            let text = cat(text.as_str(), message);
            let percent = self.state.percent();
            self.plain.push(PlainLine { percent, text });
            assert(plain_view(self.plain@) =~= plain_view(old(self).plain@).push((percent, text@)));
        }
    }

    /// The job tree and its run state.
    pub fn state(&self) -> (r: &ProgressState)
        ensures
            r@ == self@.state,
            self.wf() ==> r.wf(),
    {
        &self.state
    }

    /// Hands out the collected plain lines, oldest first, and forgets them.
    pub fn take_plain_lines(&mut self) -> (r: Vec<PlainLine>)
        requires
            old(self).wf(),
        ensures
            final(self).wf(),
            lifetime_kept(old(self)@, final(self)@),
            plain_view(r@) == old(self)@.lines,
            final(self)@ == (ReporterView { lines: Seq::empty(), ..old(self)@ }),
    {
        let mut out: Vec<PlainLine> = Vec::new();
        std::mem::swap(&mut out, &mut self.plain);
        assert(plain_view(self.plain@) =~= Seq::<(u8, Seq<char>)>::empty());
        out
    }
}


/// The shared percentage of a reporter holds the percentage of its state,
/// which is what `plain_percent` reports in plain mode.
pub proof fn law_shared_percent_is_state_percent(r: &ProgressReporter)
    requires
        r.wf(),
    ensures
        r@.stored == percent_spec(r@.state.jobs),
{
}

/// Publishing a message never changes the reporter's mode, its channel or its
/// shared percentage, and hands the channel, if there is one, exactly that
/// message.
pub proof fn law_publish_keeps_mode_and_handles(before: ReporterView, after: ReporterView, m: MessageView)
    requires
        published(before, after, m),
    ensures
        after.mode == before.mode,
        after.connected == before.connected,
        after.cell == before.cell,
        after.sent.len() == before.sent.len() + (if before.connected { 1int } else { 0int }),
        after.sent.subrange(0, before.sent.len() as int) == before.sent,
        before.connected ==> after.sent.last() == m,
{
    assert(before.sent.push(m).subrange(0, before.sent.len() as int) =~= before.sent);
}

/// Starting a job leaves the shared percentage where it was.
pub proof fn law_start_keeps_shared_percent(before: &ProgressReporter, after: ReporterView, id: Seq<char>)
    requires
        before.wf(),
        published(before@, after, MessageView::JobStart { id }),
    ensures
        after.stored == before@.stored,
{
    let d = choose|d: Duration| after.state == apply_spec(before@.state, MessageView::JobStart { id }, d);
    crate::progress_laws::law_start_keeps_percent(before@.state, id, d);
}

/// What never changes over a reporter's life: its mode, whether it has a
/// dashboard channel, and the shared percentage it publishes to.
pub open spec fn lifetime_kept(before: ReporterView, after: ReporterView) -> bool {
    &&& after.mode == before.mode
    &&& after.connected == before.connected
    &&& after.cell == before.cell
}

/// `lifetime_kept` holds of a reporter and itself, and carries over any
/// number of calls: each call keeps it, so a reporter keeps its mode, its
/// channel and its shared percentage from `new` on.
pub proof fn law_lifetime_kept_over_calls(a: ReporterView, b: ReporterView, c: ReporterView)
    ensures
        lifetime_kept(a, a),
        lifetime_kept(a, b) && lifetime_kept(b, c) ==> lifetime_kept(a, c),
{
}

/// A reporter's state is well formed (distinct job ids, progress that fits
/// each job's status, a capped log), and its shared percentage holds the
/// state's percentage, at most 100: what `plain_percent` reports in plain
/// mode.
pub proof fn law_reporter_state_well_formed(r: &ProgressReporter)
    requires
        r.wf(),
    ensures
        ids_unique(r@.state.jobs),
        progress_consistent(r@.state.jobs),
        r@.state.logs.len() <= MAX_LOG_LINES,
        r@.stored == percent_spec(r@.state.jobs),
        r@.stored <= 100,
{
}

/// A finished job never lowers the shared percentage.
pub proof fn law_done_never_lowers_shared_percent(
    before: &ProgressReporter,
    after: ReporterView,
    id: Seq<char>,
    elapsed: Duration,
    d: Duration,
)
    requires
        before.wf(),
        after.state == apply_spec(before@.state, MessageView::JobDone { id, elapsed }, d),
        after.stored == percent_spec(after.state.jobs),
    ensures
        before@.stored <= after.stored,
{
    crate::progress_laws::law_done_never_lowers_percent(before@.state, id, elapsed, d);
}

/// A skipped job never lowers the shared percentage.
pub proof fn law_skip_never_lowers_shared_percent(
    before: &ProgressReporter,
    after: ReporterView,
    id: Seq<char>,
    detail: Seq<char>,
)
    requires
        before.wf(),
        published(before@, after, MessageView::JobSkipped { id, detail }),
    ensures
        before@.stored <= after.stored,
{
    let d = choose|d: Duration| after.state == apply_spec(before@.state, MessageView::JobSkipped { id, detail }, d);
    crate::progress_laws::law_skip_never_lowers_percent(before@.state, id, detail, d);
}

/// A failed job leaves the shared percentage where it was.
pub proof fn law_failure_keeps_shared_percent(
    before: &ProgressReporter,
    after: ReporterView,
    id: Seq<char>,
    message: Seq<char>,
)
    requires
        before.wf(),
        published(before@, after, MessageView::JobFailed { id, message }),
    ensures
        after.stored == before@.stored,
{
    let d = choose|d: Duration| after.state == apply_spec(before@.state, MessageView::JobFailed { id, message }, d);
    crate::progress_laws::law_failure_keeps_percent(before@.state, id, message, d);
}

/// The plain line that a message gives, judged on the state after it: job
/// messages about unknown jobs and plans give none.
pub open spec fn message_line(after: StateView, m: MessageView) -> Option<Seq<char>> {
    match m {
        MessageView::Plan(_) => None,
        MessageView::JobStart { id } => if has_job(after.jobs, id) {
            Some(mark_text("→"@, path_spec(after.jobs, id), None))
        } else {
            None
        },
        MessageView::JobProgress { id, detail, .. } => if has_job(after.jobs, id) && detail.is_some() {
            Some(note_text(path_spec(after.jobs, id) + ": "@ + detail.unwrap()))
        } else {
            None
        },
        MessageView::JobDone { id, elapsed } => if has_job(after.jobs, id) {
            Some(mark_text("✓"@, path_spec(after.jobs, id), Some(elapsed_text(duration_millis_of(elapsed) as nat))))
        } else {
            None
        },
        MessageView::JobSkipped { id, detail } => if has_job(after.jobs, id) {
            Some(mark_text("–"@, path_spec(after.jobs, id), Some(detail)))
        } else {
            None
        },
        MessageView::JobFailed { id, message } => if has_job(after.jobs, id) {
            let ms: nat = match job_of(after.jobs, id).elapsed {
                Some(e) => duration_millis_of(e) as nat,
                None => 0,
            };
            Some(mark_text("✗"@, path_spec(after.jobs, id), Some(message + " · "@ + elapsed_text(ms))))
        } else {
            None
        },
        MessageView::JobDetail { id, key, value } => if has_job(after.jobs, id) {
            Some(note_text(path_spec(after.jobs, id) + " · "@ + key + ": "@ + value))
        } else {
            None
        },
        MessageView::Log { job_id, line } => Some(
            note_text(
                match job_id {
                    Some(j) => path_spec(after.jobs, j) + " · "@,
                    None => Seq::<char>::empty(),
                } + line,
            ),
        ),
        MessageView::VmState { vm_id, state } => Some(note_text("vm "@ + vm_id + " → "@ + state)),
        MessageView::Finished { ok, message } => Some(" "@ + (if ok { "✓"@ } else { "✗"@ }) + " "@ + message),
    }
}

fn message_text(state: &ProgressState, message: &ProgressMessage) -> (r: Option<String>)
    requires
        state.wf(),
    ensures
        opt_view(r) == message_line(state@, message@),
{
    match message {
        ProgressMessage::Plan(_) => None,
        ProgressMessage::JobStart { id } => match state.job(id.as_str()) {
            Some(_) => {
                let path = job_path(state.jobs(), id.as_str());
                Some(mark_line("→", path.as_str(), None))
            },
            None => None,
        },
        ProgressMessage::JobProgress { id, detail, .. } => match state.job(id.as_str()) {
            Some(_) => match detail {
                Some(d) => {
                    let path = job_path(state.jobs(), id.as_str());
                    let body = cat3(path.as_str(), ": ", d.as_str());
                    Some(cat("   ", body.as_str()))
                },
                None => None,
            },
            None => None,
        },
        ProgressMessage::JobDone { id, elapsed } => match state.job(id.as_str()) {
            Some(_) => {
                let path = job_path(state.jobs(), id.as_str());
                Some(mark_line("✓", path.as_str(), Some(format_elapsed(*elapsed))))
            },
            None => None,
        },
        ProgressMessage::JobSkipped { id, detail } => match state.job(id.as_str()) {
            Some(_) => {
                let path = job_path(state.jobs(), id.as_str());
                Some(mark_line("–", path.as_str(), Some(detail.clone())))
            },
            None => None,
        },
        ProgressMessage::JobFailed { id, message } => match state.job(id.as_str()) {
            Some(job) => {
                let e = match &job.elapsed {
                    Some(e) => *e,
                    None => duration_zero(),
                };
                let shown = format_elapsed(e);
                let note = cat3(message.as_str(), " · ", shown.as_str());
                let path = job_path(state.jobs(), id.as_str());
                Some(mark_line("✗", path.as_str(), Some(note)))
            },
            None => None,
        },
        ProgressMessage::JobDetail { id, key, value } => match state.job(id.as_str()) {
            Some(_) => {
                let path = job_path(state.jobs(), id.as_str());
                let a = cat3(path.as_str(), " · ", key.as_str());
                let body = cat3(a.as_str(), ": ", value.as_str());
                Some(cat("   ", body.as_str()))
            },
            None => None,
        },
        ProgressMessage::Log { job_id, line } => {
            let body = match job_id {
                Some(j) => {
                    let path = job_path(state.jobs(), j.as_str());
                    cat3(path.as_str(), " · ", line.as_str())
                },
                None => {
                    assert(Seq::<char>::empty() + line@ =~= line@);
                    line.clone()
                },
            };
            Some(cat("   ", body.as_str()))
        },
        ProgressMessage::VmState { vm_id, state: vm_state } => {
            let a = cat3("vm ", vm_id.as_str(), " → ");
            let body = cat(a.as_str(), vm_state.as_str());
            Some(cat("   ", body.as_str()))
        },
        ProgressMessage::Finished { ok, message } => {
            let mark = if *ok { "✓" } else { "✗" };
            let a = cat3(" ", mark, " ");
            Some(cat(a.as_str(), message.as_str()))
        },
    }
}

/// Applies a message to a state that is shown as plain lines, and gives the
/// line it shows, with the percentage after the message.
pub fn plain_message(state: &mut ProgressState, message: ProgressMessage) -> (r: Option<PlainLine>)
    requires
        old(state).wf(),
    ensures
        final(state).wf(),
        exists|d: Duration| final(state)@ == apply_spec(old(state)@, message@, d),
        match message_line(final(state)@, message@) {
            Some(t) => r matches Some(l) && l.percent == percent_spec(final(state)@.jobs) && l.text@ == t,
            None => r is None,
        },
{
    let copy = message.duplicate();
    state.apply(copy);
    match message_text(state, &message) {
        Some(text) => Some(PlainLine { percent: state.percent(), text }),
        None => None,
    }
}

/// The plain line for a line of subprocess output, under the path of the job
/// it belongs to; an empty line gives none.
pub fn subprocess_line(job_path: Option<&str>, line: &str) -> (r: Option<String>)
    ensures
        line@.len() == 0 ==> r is None,
        line@.len() > 0 ==> opt_view(r) == Some(
            note_text(
                match opt_str_view(job_path) {
                    Some(p) => p + " · "@,
                    None => Seq::<char>::empty(),
                } + line@,
            ),
        ),
{
    if line.unicode_len() == 0 {
        return None;
    }
    let body = match job_path {
        Some(p) => cat3(p, " · ", line),
        None => {
            assert(Seq::<char>::empty() + line@ =~= line@);
            owned(line)
        },
    };
    Some(cat("   ", body.as_str()))
}

/// The VM and state a supervisor event reports, where it is a `vm.state`
/// event that names both (an empty name or state counts as none).
pub open spec fn vm_state_event_spec(
    event_type: Option<Seq<char>>,
    vm_id: Option<Seq<char>>,
    state: Option<Seq<char>>,
) -> Option<(Seq<char>, Seq<char>)> {
    match (event_type, vm_id, state) {
        (Some(t), Some(v), Some(st)) => if t == "vm.state"@ && v.len() > 0 && st.len() > 0 {
            Some((v, st))
        } else {
            None
        },
        _ => None,
    }
}

/// The progress message of a supervisor event: a VM's new state, for a
/// `vm.state` event that names a VM and a state; other events give none.
pub fn vm_state_message(event_type: Option<&str>, vm_id: Option<&str>, state: Option<&str>) -> (r: Option<
    ProgressMessage,
>)
    ensures
        match vm_state_event_spec(opt_str_view(event_type), opt_str_view(vm_id), opt_str_view(state)) {
            Some((v, st)) => r matches Some(m) && m@ == (MessageView::VmState { vm_id: v, state: st }),
            None => r is None,
        },
{
    match (event_type, vm_id, state) {
        (Some(t), Some(v), Some(st)) => {
            if str_eq(t, "vm.state") && v.unicode_len() > 0 && st.unicode_len() > 0 {
                Some(ProgressMessage::VmState { vm_id: owned(v), state: owned(st) })
            } else {
                None
            }
        },
        _ => None,
    }
}

/// The plain line that reports a VM's new state while no terminal UI runs.
pub fn vm_state_line(percent: u8, vm_id: &str, state: &str) -> (r: PlainLine)
    ensures
        r.percent == percent,
        r.text@ == note_text("VM-Provisioning / "@ + vm_id@ + " / Zustand: "@ + state@),
{
    let mut text = cat3("   ", "VM-Provisioning / ", vm_id);
    text.append(" / Zustand: ");
    text.append(state);
    PlainLine { percent, text }
}

/// The progress message an event line of the supervisor gives: a VM's new
/// state for a JSON `vm.state` event whose `data` names a VM and a state;
/// any other line gives none.
pub fn vm_state_event_of(line: &str) -> (r: Option<ProgressMessage>)
    ensures
        match json_of(line@) {
            Ok(v) => match vm_state_event_spec(
                as_str(at(v, "type"@)),
                as_str(at(at(v, "data"@), "vm_id"@)),
                as_str(at(at(v, "data"@), "state"@)),
            ) {
                Some((id, st)) => r matches Some(m) && m@ == (MessageView::VmState { vm_id: id, state: st }),
                None => r is None,
            },
            Err(_) => r is None,
        },
{
    let value = match parse_json(line) {
        Ok(v) => v,
        Err(_) => return None,
    };
    let null = Json::Null;
    let data = match get(&value, "data") {
        Some(x) => x,
        None => &null,
    };
    let event_type = member_str(&value, "type");
    let vm_id = member_str(data, "vm_id");
    let state = member_str(data, "state");
    let t = match &event_type {
        Some(x) => Some(x.as_str()),
        None => None,
    };
    let v = match &vm_id {
        Some(x) => Some(x.as_str()),
        None => None,
    };
    let st = match &state {
        Some(x) => Some(x.as_str()),
        None => None,
    };
    vm_state_message(t, v, st)
}

} // verus!
