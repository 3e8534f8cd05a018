//! `vm create`: its options, and the network configuration cloud-init gets.
use crate::cli::{
    memory_spec, opt_string_view, parse_memory_mib, resolve_create_vm_id, resolve_id_spec, valid_vm_id,
    valid_vm_id_spec, OutputFormat, DEFAULT_VM_CPUS, DEFAULT_VM_MEMORY_MIB, EXIT_INVALID_INPUT, EXIT_USAGE,
};
use crate::doctor::{apfs_name, is_apfs};
use crate::mounts::{mount_flag_spec, mount_view, parse_mount_flag, MountView, ResolvedMount};
use crate::network::VmNetworkSelection;
use crate::text::{
    cat, cat3, decimal, first_char_is, index_of_char, lemma_index_of_char, owned, parse_unsigned, parse_unsigned_spec,
    str_eq, strings_view, trim,
    trim_spec, u64_to_decimal,
};
use vstd::prelude::*;

verus! {

/// What `vm create` was asked for. Each mount is read and checked here; its
/// source is kept as written and is made absolute, and checked to be a
/// directory, against the host's file system when the VM is created.
#[derive(Debug, PartialEq, Eq)]
pub struct VmCreateOptions {
    pub id: String,
    pub from: String,
    pub data_disk_gib: u64,
    pub cpus: u32,
    pub memory_mib: u64,
    pub roles: Vec<String>,
    pub requested_network: Option<String>,
    pub network: Option<VmNetworkSelection>,
    pub networks: Vec<VmNetworkSelection>,
    pub root_password: Option<String>,
    pub cloud_init: Option<String>,
    pub project: Option<String>,
    pub mounts: Vec<ResolvedMount>,
    pub format: OutputFormat,
}

/// A failed `vm create`: its exit code and message.
#[derive(Debug)]
pub struct VmCreateFailure {
    pub code: u8,
    pub message: String,
}

/// What was read of the arguments so far.
pub struct VmScan {
    pub id: Option<Seq<char>>,
    pub from: Option<Seq<char>>,
    pub disk: Option<u64>,
    pub cpus: Option<u32>,
    pub memory: Option<u64>,
    pub roles: Seq<Seq<char>>,
    pub network: Option<Seq<char>>,
    pub root_password: Option<Seq<char>>,
    pub cloud_init: Option<Seq<char>>,
    pub project: Option<Seq<char>>,
    pub mounts: Seq<MountView>,
    pub format: OutputFormat,
}

pub open spec fn empty_scan() -> VmScan {
    VmScan {
        id: None,
        from: None,
        disk: None,
        cpus: None,
        memory: None,
        roles: Seq::empty(),
        network: None,
        root_password: None,
        cloud_init: None,
        project: None,
        mounts: Seq::empty(),
        format: OutputFormat::Human,
    }
}

pub open spec fn create_usage() -> Seq<char> {
    "usage: vzctl vm create <id> --from <sealed> --data-disk <GiB> [--cpus N] [--memory <SIZE>] [--network <name>] [--role router|docker] [--mount tag=…,source=…,target=…[,ro]] [--cloud-init PATH] [--project P] [--root-password <secret>] [--format human|json]"@
}

/// A flag that takes a value, with the message for a missing one.
pub open spec fn value_flag_message(a: Seq<char>) -> Option<Seq<char>> {
    if a == "--from"@ {
        Some("--from requires a sealed image"@)
    } else if a == "--data-disk"@ {
        Some("--data-disk requires a GiB size"@)
    } else if a == "--cpus"@ {
        Some("--cpus requires a positive integer"@)
    } else if a == "--memory"@ {
        Some("--memory requires a size"@)
    } else if a == "--role"@ {
        Some("--role requires a role name"@)
    } else if a == "--cloud-init"@ {
        Some("--cloud-init requires a path"@)
    } else if a == "--project"@ {
        Some("--project requires a project name"@)
    } else if a == "--network"@ {
        Some("--network requires a network name"@)
    } else if a == "--mount"@ {
        Some("--mount requires tag=…,source=…,target=…[,ro]"@)
    } else if a == "--root-password"@ {
        Some("--root-password requires a password"@)
    } else if a == "--format"@ {
        Some("--format requires human or json"@)
    } else {
        None
    }
}

/// Whether a mount already in `ms` has the name or the target of `m`.
pub open spec fn mount_clashes(ms: Seq<MountView>, m: MountView) -> bool {
    exists|j: int| 0 <= j < ms.len() && (#[trigger] ms[j]).0 == m.0 || 0 <= j < ms.len() && ms[j].2 == m.2
}

/// The scan after the flag `a` with its value `v`.
pub open spec fn apply_value(st: VmScan, a: Seq<char>, v: Seq<char>) -> Result<VmScan, (u8, Seq<char>)> {
    if a == "--from"@ {
        Ok(VmScan { from: Some(v), ..st })
    } else if a == "--data-disk"@ {
        match parse_unsigned_spec(v, u64::MAX as nat) {
            None => Err((EXIT_INVALID_INPUT, "invalid data-disk size: "@ + v)),
            Some(n) => if n == 0 {
                Err((EXIT_INVALID_INPUT, "data-disk size must be greater than zero"@))
            } else {
                Ok(VmScan { disk: Some(n as u64), ..st })
            },
        }
    } else if a == "--cpus"@ {
        match parse_unsigned_spec(v, u32::MAX as nat) {
            None => Err((EXIT_INVALID_INPUT, "invalid --cpus: "@ + v)),
            Some(n) => if n == 0 {
                Err((EXIT_INVALID_INPUT, "--cpus must be greater than zero"@))
            } else {
                Ok(VmScan { cpus: Some(n as u32), ..st })
            },
        }
    } else if a == "--memory"@ {
        match memory_spec(v) {
            Ok(m) => Ok(VmScan { memory: Some(m), ..st }),
            Err(message) => Err((EXIT_INVALID_INPUT, message)),
        }
    } else if a == "--role"@ {
        if v != "router"@ && v != "docker"@ {
            Err((EXIT_INVALID_INPUT, "unsupported VM role: "@ + v))
        } else if st.roles.contains(v) {
            Ok(st)
        } else {
            Ok(VmScan { roles: st.roles.push(v), ..st })
        }
    } else if a == "--cloud-init"@ {
        Ok(VmScan { cloud_init: Some(v), ..st })
    } else if a == "--project"@ {
        if v.len() == 0 {
            Err((EXIT_INVALID_INPUT, "--project must not be empty"@))
        } else {
            Ok(VmScan { project: Some(v), ..st })
        }
    } else if a == "--network"@ {
        Ok(VmScan { network: Some(v), ..st })
    } else if a == "--mount"@ {
        match mount_flag_spec(v) {
            Err(message) => Err((EXIT_INVALID_INPUT, message)),
            Ok(m) => if mount_clashes(st.mounts, m) {
                Err((EXIT_INVALID_INPUT, "duplicate mount name or target: "@ + m.0 + " → "@ + m.2))
            } else {
                Ok(VmScan { mounts: st.mounts.push(m), ..st })
            },
        }
    } else if a == "--root-password"@ {
        if v.len() == 0 {
            Err((EXIT_INVALID_INPUT, "--root-password must not be empty"@))
        } else {
            Ok(VmScan { root_password: Some(v), ..st })
        }
    } else if v == "human"@ {
        Ok(VmScan { format: OutputFormat::Human, ..st })
    } else if v == "json"@ {
        Ok(VmScan { format: OutputFormat::Json, ..st })
    } else {
        Err((EXIT_USAGE, "unsupported vm create format: "@ + v))
    }
}

/// The scan of the arguments from `i` on.
pub open spec fn scan_vm_create(args: Seq<Seq<char>>, i: int, st: VmScan) -> Result<VmScan, (u8, Seq<char>)>
    decreases args.len() - i,
{
    if i >= args.len() || i < 0 {
        Ok(st)
    } else {
        let a = args[i];
        match value_flag_message(a) {
            Some(missing) => if i + 1 < args.len() {
                match apply_value(st, a, args[i + 1]) {
                    Ok(next) => scan_vm_create(args, i + 2, next),
                    Err(e) => Err(e),
                }
            } else {
                Err((EXIT_USAGE, missing))
            },
            None => if a == "-h"@ || a == "--help"@ {
                Err((EXIT_USAGE, create_usage()))
            } else if a.len() > 0 && a[0] == '-' {
                Err((EXIT_USAGE, "unknown vm create option: "@ + a))
            } else if st.id.is_none() {
                scan_vm_create(args, i + 1, VmScan { id: Some(a), ..st })
            } else {
                Err((EXIT_USAGE, "unexpected vm create argument: "@ + a))
            },
        }
    }
}

/// The options once every argument is read: an id, an image and a data disk
/// are required; a docker VM lives in the `default` project unless one is
/// given; the id goes into the project's namespace. No network is chosen
/// yet: that happens when the VM is placed.
pub struct VmCreateView {
    pub id: Seq<char>,
    pub from: Seq<char>,
    pub disk: u64,
    pub cpus: u32,
    pub memory: u64,
    pub roles: Seq<Seq<char>>,
    pub requested_network: Option<Seq<char>>,
    pub network: Option<VmNetworkSelection>,
    pub networks: Seq<VmNetworkSelection>,
    pub root_password: Option<Seq<char>>,
    pub cloud_init: Option<Seq<char>>,
    pub project: Option<Seq<char>>,
    pub mounts: Seq<MountView>,
    pub format: OutputFormat,
}

pub open spec fn finish_vm_create(st: VmScan) -> Result<VmCreateView, (u8, Seq<char>)> {
    match st.id {
        None => Err((EXIT_USAGE, create_usage())),
        Some(id) => if !valid_vm_id_spec(id) {
            Err(
                (
                    EXIT_INVALID_INPUT,
                    "vm id must be a flat label (1-63) or project/vm (segments alphanumeric/._-, total ≤127)"@,
                ),
            )
        } else {
            match st.from {
                None => Err((EXIT_USAGE, "vm create requires --from <sealed>"@)),
                Some(from) => match st.disk {
                    None => Err((EXIT_USAGE, "vm create requires --data-disk <GiB>"@)),
                    Some(disk) => {
                        let project = if st.roles.contains("docker"@) && st.project.is_none() {
                            Some("default"@)
                        } else {
                            st.project
                        };
                        match resolve_id_spec(id, project) {
                            Err(m) => Err((EXIT_INVALID_INPUT, m)),
                            Ok(resolved) => Ok(
                                VmCreateView {
                                    id: resolved,
                                    from,
                                    disk,
                                    cpus: match st.cpus {
                                        Some(c) => c,
                                        None => DEFAULT_VM_CPUS,
                                    },
                                    memory: match st.memory {
                                        Some(m) => m,
                                        None => DEFAULT_VM_MEMORY_MIB,
                                    },
                                    roles: st.roles,
                                    requested_network: st.network,
                                    network: None,
                                    networks: Seq::empty(),
                                    root_password: st.root_password,
                                    cloud_init: st.cloud_init,
                                    project,
                                    mounts: st.mounts,
                                    format: st.format,
                                },
                            ),
                        }
                    },
                },
            }
        },
    }
}

pub open spec fn vm_create_spec(args: Seq<Seq<char>>) -> Result<VmCreateView, (u8, Seq<char>)> {
    match scan_vm_create(args, 0, empty_scan()) {
        Err(e) => Err(e),
        Ok(st) => finish_vm_create(st),
    }
}

pub open spec fn vm_create_view(o: VmCreateOptions) -> VmCreateView {
    VmCreateView {
        id: o.id@,
        from: o.from@,
        disk: o.data_disk_gib,
        cpus: o.cpus,
        memory: o.memory_mib,
        roles: strings_view(o.roles@),
        requested_network: opt_string_view(o.requested_network),
        network: o.network,
        networks: o.networks@,
        root_password: opt_string_view(o.root_password),
        cloud_init: opt_string_view(o.cloud_init),
        project: opt_string_view(o.project),
        mounts: mounts_view(o.mounts@),
        format: o.format,
    }
}

pub open spec fn mounts_view(ms: Seq<ResolvedMount>) -> Seq<MountView> {
    ms.map_values(|m: ResolvedMount| mount_view(m))
}

// ---------------------------------------------------------------- what an accepted vm create holds

/// Nothing occurs twice.
pub open spec fn all_distinct(s: Seq<Seq<char>>) -> bool {
    forall|i: int, j: int| 0 <= i < j < s.len() ==> #[trigger] s[i] != #[trigger] s[j]
}

/// No two mounts share a name or a target.
pub open spec fn mounts_apart(ms: Seq<MountView>) -> bool {
    forall|i: int, j: int| 0 <= i < j < ms.len() ==> (#[trigger] ms[i]).0 != (#[trigger] ms[j]).0 && ms[i].2 != ms[j].2
}

/// What every scan keeps: sizes given are positive, roles are distinct and
/// each is `router` or `docker`, a project given is not empty, mounts are
/// apart.
pub open spec fn scan_sound(st: VmScan) -> bool {
    &&& (st.disk matches Some(d) ==> d >= 1)
    &&& (st.cpus matches Some(c) ==> c >= 1)
    &&& (st.memory matches Some(m) ==> m >= 1)
    &&& all_distinct(st.roles)
    &&& forall|i: int| 0 <= i < st.roles.len() ==> #[trigger] st.roles[i] == "router"@ || st.roles[i] == "docker"@
    &&& (st.project matches Some(p) ==> p.len() > 0)
    &&& mounts_apart(st.mounts)
}

/// What every accepted `vm create` holds: a valid id, positive sizes,
/// distinct roles among `router` and `docker`, a project for a docker VM, an
/// id inside the project's namespace, and mounts apart by name and target.
pub open spec fn create_sound(o: VmCreateView) -> bool {
    &&& valid_vm_id_spec(o.id)
    &&& o.disk >= 1
    &&& o.cpus >= 1
    &&& o.memory >= 1
    &&& all_distinct(o.roles)
    &&& forall|i: int| 0 <= i < o.roles.len() ==> #[trigger] o.roles[i] == "router"@ || o.roles[i] == "docker"@
    &&& (o.roles.contains("docker"@) ==> o.project.is_some())
    &&& (o.project matches Some(p) ==> p.len() < o.id.len() && o.id.subrange(0, p.len() as int + 1) == p + "/"@)
    &&& mounts_apart(o.mounts)
}

proof fn lemma_memory_positive(v: Seq<char>)
    ensures
        memory_spec(v) matches Ok(m) ==> m >= 1,
{
}

proof fn lemma_apply_sound(st: VmScan, a: Seq<char>, v: Seq<char>)
    requires
        scan_sound(st),
    ensures
        match apply_value(st, a, v) {
            Ok(n) => scan_sound(n),
            Err((c, _)) => c == EXIT_USAGE || c == EXIT_INVALID_INPUT,
        },
{
    lemma_memory_positive(v);
    if a == "--role"@ && (v == "router"@ || v == "docker"@) && !st.roles.contains(v) {
        let r = st.roles.push(v);
        assert forall|i: int, j: int| 0 <= i < j < r.len() implies #[trigger] r[i] != #[trigger] r[j] by {
            if j == st.roles.len() {
                assert(st.roles[i] == r[i]);
            }
        }
    }
    if a == "--mount"@ {
        if let Ok(m) = mount_flag_spec(v) {
            if !mount_clashes(st.mounts, m) {
                let r = st.mounts.push(m);
                assert forall|i: int, j: int| 0 <= i < j < r.len() implies (#[trigger] r[i]).0 != (#[trigger] r[j]).0
                    && r[i].2 != r[j].2 by {
                    if j == st.mounts.len() {
                        assert(r[i] == st.mounts[i]);
                        if r[i].0 == m.0 || r[i].2 == m.2 {
                            assert(mount_clashes(st.mounts, m));
                        }
                    }
                }
            }
        }
    }
}

proof fn lemma_scan_sound(args: Seq<Seq<char>>, i: int, st: VmScan)
    requires
        scan_sound(st),
    ensures
        match scan_vm_create(args, i, st) {
            Ok(n) => scan_sound(n),
            Err((c, _)) => c == EXIT_USAGE || c == EXIT_INVALID_INPUT,
        },
    decreases args.len() - i,
{
    if 0 <= i < args.len() {
        let a = args[i];
        match value_flag_message(a) {
            Some(_) => if i + 1 < args.len() {
                lemma_apply_sound(st, a, args[i + 1]);
                if let Ok(next) = apply_value(st, a, args[i + 1]) {
                    lemma_scan_sound(args, i + 2, next);
                }
            },
            None => {
                lemma_scan_sound(args, i + 1, VmScan { id: Some(a), ..st });
            },
        }
    }
}

proof fn lemma_finish_sound(st: VmScan)
    requires
        scan_sound(st),
    ensures
        match finish_vm_create(st) {
            Ok(o) => create_sound(o),
            Err((c, _)) => c == EXIT_USAGE || c == EXIT_INVALID_INPUT,
        },
{
    reveal_strlit("default");
    reveal_strlit("/");
    if let (Some(id), Some(_), Some(_)) = (st.id, st.from, st.disk) {
        if valid_vm_id_spec(id) {
            let project = if st.roles.contains("docker"@) && st.project.is_none() {
                Some("default"@)
            } else {
                st.project
            };
            if let Some(p) = project {
                assert(p.len() > 0);
                lemma_index_of_char(id, '/');
                match index_of_char(id, '/') {
                    None => {
                        let ns = p + "/"@ + id;
                        assert(ns.subrange(0, p.len() as int + 1) =~= p + "/"@);
                    },
                    Some(k) => {
                        if id.subrange(0, k) == p {
                            assert(id.subrange(0, p.len() as int + 1) =~= p + "/"@);
                        }
                    },
                }
            }
        }
    }
}

/// Every `vm create` that is accepted has a valid id, positive sizes,
/// distinct roles among `router` and `docker`, a project where it is a
/// docker VM, an id in its project's namespace and mounts apart by name and
/// target; every refusal is a usage error (2) or invalid input (3).
pub proof fn law_vm_create_results(args: Seq<Seq<char>>)
    ensures
        match vm_create_spec(args) {
            Ok(o) => create_sound(o),
            Err((c, _)) => c == EXIT_USAGE || c == EXIT_INVALID_INPUT,
        },
{
    assert(scan_sound(empty_scan()));
    lemma_scan_sound(args, 0, empty_scan());
    if let Ok(st) = scan_vm_create(args, 0, empty_scan()) {
        lemma_finish_sound(st);
    }
}

/// The exec form of a scan.
struct ScanState {
    id: Option<String>,
    from: Option<String>,
    disk: Option<u64>,
    cpus: Option<u32>,
    memory: Option<u64>,
    roles: Vec<String>,
    network: Option<String>,
    root_password: Option<String>,
    cloud_init: Option<String>,
    project: Option<String>,
    mounts: Vec<ResolvedMount>,
    format: OutputFormat,
}

spec fn scan_view(s: ScanState) -> VmScan {
    VmScan {
        id: opt_string_view(s.id),
        from: opt_string_view(s.from),
        disk: s.disk,
        cpus: s.cpus,
        memory: s.memory,
        roles: strings_view(s.roles@),
        network: opt_string_view(s.network),
        root_password: opt_string_view(s.root_password),
        cloud_init: opt_string_view(s.cloud_init),
        project: opt_string_view(s.project),
        mounts: mounts_view(s.mounts@),
        format: s.format,
    }
}

fn fail(code: u8, message: String) -> (r: VmCreateFailure)
    ensures
        r.code == code,
        r.message@ == message@,
{
    VmCreateFailure { code, message }
}

fn contains_string(v: &Vec<String>, s: &str) -> (r: bool)
    ensures
        r == strings_view(v@).contains(s@),
{
    let mut i: usize = 0;
    while i < v.len()
        invariant
            i <= v@.len(),
            forall|j: int| 0 <= j < i ==> strings_view(v@)[j] != s@,
        decreases v.len() - i,
    {
        if str_eq(v[i].as_str(), s) {
            assert(strings_view(v@)[i as int] == s@);
            return true;
        }
        i = i + 1;
    }
    false
}

fn mount_clash(ms: &Vec<ResolvedMount>, m: &ResolvedMount) -> (r: bool)
    ensures
        r == mount_clashes(mounts_view(ms@), mount_view(*m)),
{
    let ghost mv = mounts_view(ms@);
    let mut i: usize = 0;
    while i < ms.len()
        invariant
            i <= ms@.len(),
            mv == mounts_view(ms@),
            forall|j: int| 0 <= j < i ==> !((#[trigger] mv[j]).0 == m.name@ || mv[j].2 == m.target@),
        decreases ms.len() - i,
    {
        assert(mv[i as int] == mount_view(ms@[i as int]));
        if str_eq(ms[i].name.as_str(), m.name.as_str()) || str_eq(ms[i].target.as_str(), m.target.as_str()) {
            assert(mv[i as int].0 == m.name@ || mv[i as int].2 == m.target@);
            assert(mount_clashes(mv, mount_view(*m)));
            return true;
        }
        i = i + 1;
    }
    false
}

fn missing_value_message(a: &str) -> (r: Option<&'static str>)
    ensures
        match value_flag_message(a@) {
            Some(m) => r matches Some(x) && x@ == m,
            None => r is None,
        },
{
    if str_eq(a, "--from") {
        Some("--from requires a sealed image")
    } else if str_eq(a, "--data-disk") {
        Some("--data-disk requires a GiB size")
    } else if str_eq(a, "--cpus") {
        Some("--cpus requires a positive integer")
    } else if str_eq(a, "--memory") {
        Some("--memory requires a size")
    } else if str_eq(a, "--role") {
        Some("--role requires a role name")
    } else if str_eq(a, "--cloud-init") {
        Some("--cloud-init requires a path")
    } else if str_eq(a, "--project") {
        Some("--project requires a project name")
    } else if str_eq(a, "--network") {
        Some("--network requires a network name")
    } else if str_eq(a, "--mount") {
        Some("--mount requires tag=…,source=…,target=…[,ro]")
    } else if str_eq(a, "--root-password") {
        Some("--root-password requires a password")
    } else if str_eq(a, "--format") {
        Some("--format requires human or json")
    } else {
        None
    }
}

fn apply_value_exec(st: &mut ScanState, a: &str, v: &str) -> (r: Result<(), VmCreateFailure>)
    requires
        value_flag_message(a@).is_some(),
    ensures
        match apply_value(scan_view(*old(st)), a@, v@) {
            Ok(next) => r is Ok && scan_view(*final(st)) == next,
            Err((c, m)) => r matches Err(f) && f.code == c && f.message@ == m,
        },
{
    if str_eq(a, "--from") {
        st.from = Some(owned(v));
    } else if str_eq(a, "--data-disk") {
        match parse_unsigned(v, u64::MAX) {
            None => return Err(fail(EXIT_INVALID_INPUT, cat("invalid data-disk size: ", v))),
            Some(n) => {
                if n == 0 {
                    return Err(fail(EXIT_INVALID_INPUT, owned("data-disk size must be greater than zero")));
                }
                st.disk = Some(n);
            },
        }
    } else if str_eq(a, "--cpus") {
        match parse_unsigned(v, 4294967295) {
            None => return Err(fail(EXIT_INVALID_INPUT, cat("invalid --cpus: ", v))),
            Some(n) => {
                if n == 0 {
                    return Err(fail(EXIT_INVALID_INPUT, owned("--cpus must be greater than zero")));
                }
                st.cpus = Some(n as u32);
            },
        }
    } else if str_eq(a, "--memory") {
        match parse_memory_mib(v) {
            Ok(m) => st.memory = Some(m),
            Err(message) => return Err(fail(EXIT_INVALID_INPUT, message)),
        }
    } else if str_eq(a, "--role") {
        if !str_eq(v, "router") && !str_eq(v, "docker") {
            return Err(fail(EXIT_INVALID_INPUT, cat("unsupported VM role: ", v)));
        }
        if !contains_string(&st.roles, v) {
            let ghost before = strings_view(st.roles@);
            st.roles.push(owned(v));
            assert(strings_view(st.roles@) =~= before.push(v@));
        }
    } else if str_eq(a, "--cloud-init") {
        st.cloud_init = Some(owned(v));
    } else if str_eq(a, "--project") {
        if v.unicode_len() == 0 {
            return Err(fail(EXIT_INVALID_INPUT, owned("--project must not be empty")));
        }
        st.project = Some(owned(v));
    } else if str_eq(a, "--network") {
        st.network = Some(owned(v));
    } else if str_eq(a, "--mount") {
        let m = match parse_mount_flag(v) {
            Ok(m) => m,
            Err(message) => return Err(fail(EXIT_INVALID_INPUT, message)),
        };
        if mount_clash(&st.mounts, &m) {
            let arrow = cat3(m.name.as_str(), " → ", m.target.as_str());
            return Err(fail(EXIT_INVALID_INPUT, cat("duplicate mount name or target: ", arrow.as_str())));
        }
        let ghost before = mounts_view(st.mounts@);
        st.mounts.push(m);
        assert(mounts_view(st.mounts@) =~= before.push(mount_view(m)));
    } else if str_eq(a, "--root-password") {
        if v.unicode_len() == 0 {
            return Err(fail(EXIT_INVALID_INPUT, owned("--root-password must not be empty")));
        }
        st.root_password = Some(owned(v));
    } else if str_eq(v, "human") {
        st.format = OutputFormat::Human;
    } else if str_eq(v, "json") {
        st.format = OutputFormat::Json;
    } else {
        return Err(fail(EXIT_USAGE, cat("unsupported vm create format: ", v)));
    }
    Ok(())
}

fn usage_text() -> (r: &'static str)
    ensures
        r@ == create_usage(),
{
    "usage: vzctl vm create <id> --from <sealed> --data-disk <GiB> [--cpus N] [--memory <SIZE>] [--network <name>] [--role router|docker] [--mount tag=…,source=…,target=…[,ro]] [--cloud-init PATH] [--project P] [--root-password <secret>] [--format human|json]"
}

/// Reads the options of `vm create`.
pub fn parse_vm_create_options(args: &[String]) -> (r: Result<VmCreateOptions, VmCreateFailure>)
    ensures
        match vm_create_spec(strings_view(args@)) {
            Ok(o) => r matches Ok(x) && vm_create_view(x) == o,
            Err((c, m)) => r matches Err(f) && f.code == c && f.message@ == m,
        },
{
    let ghost av = strings_view(args@);
    let mut st = ScanState {
        id: None,
        from: None,
        disk: None,
        cpus: None,
        memory: None,
        roles: Vec::new(),
        network: None,
        root_password: None,
        cloud_init: None,
        project: None,
        mounts: Vec::new(),
        format: OutputFormat::Human,
    };
    assert(scan_view(st) == empty_scan()) by {
        assert(strings_view(st.roles@) =~= Seq::<Seq<char>>::empty());
        assert(mounts_view(st.mounts@) =~= Seq::<MountView>::empty());
    }
    let mut i: usize = 0;
    while i < args.len()
        invariant
            i <= args@.len(),
            av == strings_view(args@),
            scan_vm_create(av, 0, empty_scan()) == scan_vm_create(av, i as int, scan_view(st)),
        decreases args.len() - i,
    {
        let a = args[i].as_str();
        assert(a@ == av[i as int]);
        match missing_value_message(a) {
            Some(missing) => {
                if i + 1 >= args.len() {
                    return Err(fail(EXIT_USAGE, owned(missing)));
                }
                let v = args[i + 1].as_str();
                assert(v@ == av[i + 1]);
                match apply_value_exec(&mut st, a, v) {
                    Ok(()) => {},
                    Err(f) => return Err(f),
                }
                i = i + 2;
            },
            None => {
                if str_eq(a, "-h") || str_eq(a, "--help") {
                    return Err(fail(EXIT_USAGE, owned(usage_text())));
                } else if first_char_is(a, '-') {
                    return Err(fail(EXIT_USAGE, cat("unknown vm create option: ", a)));
                } else if st.id.is_none() {
                    st.id = Some(owned(a));
                    i = i + 1;
                } else {
                    return Err(fail(EXIT_USAGE, cat("unexpected vm create argument: ", a)));
                }
            },
        }
    }
    let id = match st.id {
        None => return Err(fail(EXIT_USAGE, owned(usage_text()))),
        Some(id) => id,
    };
    if !valid_vm_id(id.as_str()) {
        return Err(
            fail(
                EXIT_INVALID_INPUT,
                owned("vm id must be a flat label (1-63) or project/vm (segments alphanumeric/._-, total ≤127)"),
            ),
        );
    }
    let from = match st.from {
        None => return Err(fail(EXIT_USAGE, owned("vm create requires --from <sealed>"))),
        Some(f) => f,
    };
    let data_disk_gib = match st.disk {
        None => return Err(fail(EXIT_USAGE, owned("vm create requires --data-disk <GiB>"))),
        Some(d) => d,
    };
    let mut project = st.project;
    if contains_string(&st.roles, "docker") && project.is_none() {
        project = Some(owned("default"));
    }
    let resolved = match &project {
        Some(p) => resolve_create_vm_id(id.as_str(), Some(p.as_str())),
        None => resolve_create_vm_id(id.as_str(), None),
    };
    let id = match resolved {
        Ok(v) => v,
        Err(m) => return Err(fail(EXIT_INVALID_INPUT, m)),
    };
    Ok(VmCreateOptions {
        id,
        from,
        data_disk_gib,
        cpus: match st.cpus {
            Some(c) => c,
            None => DEFAULT_VM_CPUS,
        },
        memory_mib: match st.memory {
            Some(m) => m,
            None => DEFAULT_VM_MEMORY_MIB,
        },
        roles: st.roles,
        requested_network: st.network,
        network: None,
        networks: Vec::new(),
        root_password: st.root_password,
        cloud_init: st.cloud_init,
        project,
        mounts: st.mounts,
        format: st.format,
    })
}


/// How a new VM is known to cloud-init.
#[derive(Debug)]
pub struct VmIdentity {
    pub instance_id: String,
    pub hostname: String,
    pub fqdn: String,
    pub mac_addresses: Vec<String>,
}

/// The DNS search domain of a project's networks.
pub open spec fn search_text(project: Option<Seq<char>>) -> Seq<char> {
    match project {
        Some(p) => "      search:\n        - "@ + p + ".vz.test\n"@,
        None => Seq::empty(),
    }
}

/// The netplan block of NIC `i`: a static address; only the first NIC gets
/// the default route and the name servers.
pub open spec fn nic_block(i: nat, mac: Seq<char>, n: VmNetworkSelection) -> Seq<char> {
    "  nic"@ + decimal(i) + ":\n    match:\n      macaddress: \""@ + mac + "\"\n    set-name: enp0s"@ + decimal(i + 1)
        + "\n    dhcp4: false\n    dhcp6: false\n    addresses:\n      - "@ + n.ip@ + "/"@ + decimal(n.prefix as nat)
        + "\n"@ + (if i == 0 {
        "    routes:\n      - to: default\n        via: "@ + n.gateway@ + "\n        on-link: true\n"@
    } else {
        Seq::<char>::empty()
    }) + (if i == 0 {
        "    nameservers:\n      addresses:\n        - "@ + n.dns@ + "\n"@ + search_text(opt_string_view(n.project))
    } else {
        Seq::<char>::empty()
    })
}

/// The MAC address of NIC `i`: its own, or the first one when there are fewer.
pub open spec fn mac_for(macs: Seq<String>, i: int) -> Seq<char> {
    if i < macs.len() {
        macs[i]@
    } else {
        macs[0]@
    }
}

pub open spec fn nic_blocks(macs: Seq<String>, nets: Seq<VmNetworkSelection>, n: nat) -> Seq<char>
    decreases n,
{
    if n == 0 || n > nets.len() {
        Seq::empty()
    } else {
        nic_blocks(macs, nets, (n - 1) as nat) + nic_block((n - 1) as nat, mac_for(macs, n - 1), nets[n - 1])
    }
}

/// The netplan configuration of a VM: DHCP on one NIC without networks,
/// else a static block per network.
pub open spec fn network_config_spec(macs: Seq<String>, nets: Seq<VmNetworkSelection>) -> Seq<char> {
    if nets.len() == 0 {
        "version: 2\nethernets:\n  nic0:\n    match:\n      macaddress: \""@ + macs[0]@
            + "\"\n    set-name: enp0s1\n    dhcp4: true\n    dhcp6: false\n"@
    } else {
        "version: 2\nethernets:\n"@ + nic_blocks(macs, nets, nets.len())
    }
}

fn append3(out: &mut String, a: &str, b: &str, c: &str)
    ensures
        final(out)@ == old(out)@ + a@ + b@ + c@,
{
    out.append(a);
    out.append(b);
    out.append(c);
}

fn nic_head(i: usize, mac: &str, n: &VmNetworkSelection) -> (r: String)
    requires
        i < usize::MAX,
    ensures
        r@ == "  nic"@ + decimal(i as nat) + ":\n    match:\n      macaddress: \""@ + mac@ + "\"\n    set-name: enp0s"@
            + decimal(i as nat + 1) + "\n    dhcp4: false\n    dhcp6: false\n    addresses:\n      - "@ + n.ip@ + "/"@
            + decimal(n.prefix as nat) + "\n"@,
{
    let idx = u64_to_decimal(i as u64);
    let next = u64_to_decimal(i as u64 + 1);
    let prefix = u64_to_decimal(n.prefix as u64);
    let mut body = owned("  nic");
    append3(&mut body, idx.as_str(), ":\n    match:\n      macaddress: \"", mac);
    append3(&mut body, "\"\n    set-name: enp0s", next.as_str(), "\n    dhcp4: false\n    dhcp6: false\n    addresses:\n      - ");
    append3(&mut body, n.ip.as_str(), "/", prefix.as_str());
    body.append("\n");
    body
}

fn nic_routes(n: &VmNetworkSelection) -> (r: String)
    ensures
        r@ == "    routes:\n      - to: default\n        via: "@ + n.gateway@ + "\n        on-link: true\n"@ + "    nameservers:\n      addresses:\n        - "@ + n.dns@ + "\n"@ + search_text(opt_string_view(n.project)),
{
    let mut body = owned("    routes:\n      - to: default\n        via: ");
    append3(&mut body, n.gateway.as_str(), "\n        on-link: true\n", "    nameservers:\n      addresses:\n        - ");
    body.append(n.dns.as_str());
    body.append("\n");
    match &n.project {
        Some(p) => {
            let ghost before = body@;
            append3(&mut body, "      search:\n        - ", p.as_str(), ".vz.test\n");
            assert(body@ =~= before + search_text(opt_string_view(n.project)));
        },
        None => {
            assert(body@ =~= body@ + search_text(opt_string_view(n.project)));
        },
    }
    body
}

fn nic_block_exec(i: usize, mac: &str, n: &VmNetworkSelection) -> (r: String)
    requires
        i < usize::MAX,
    ensures
        r@ == nic_block(i as nat, mac@, *n),
{
    let mut body = nic_head(i, mac, n);
    if i == 0 {
        let tail = nic_routes(n);
        let ghost before = body@;
        body.append(tail.as_str());
        assert(body@ =~= nic_block(i as nat, mac@, *n));
    } else {
        assert(body@ =~= nic_block(i as nat, mac@, *n));
    }
    body
}

/// The netplan configuration cloud-init gets for a VM.
pub fn render_cloud_init_network_config(identity: &VmIdentity, networks: &[VmNetworkSelection]) -> (r: String)
    requires
        identity.mac_addresses@.len() > 0,
    ensures
        r@ == network_config_spec(identity.mac_addresses@, networks@),
{
    let macs = &identity.mac_addresses;
    if networks.len() == 0 {
        let mut body = owned("version: 2\nethernets:\n  nic0:\n    match:\n      macaddress: \"");
        body.append(macs[0].as_str());
        body.append("\"\n    set-name: enp0s1\n    dhcp4: true\n    dhcp6: false\n");
        assert(body@ =~= network_config_spec(macs@, networks@));
        return body;
    }
    let mut body = owned("version: 2\nethernets:\n");
    let mut i: usize = 0;
    assert(body@ =~= "version: 2\nethernets:\n"@ + nic_blocks(macs@, networks@, 0));
    while i < networks.len()
        invariant
            i <= networks@.len(),
            macs@.len() > 0,
            macs == &identity.mac_addresses,
            body@ == "version: 2\nethernets:\n"@ + nic_blocks(macs@, networks@, i as nat),
        decreases networks.len() - i,
    {
        let mac = if i < macs.len() {
            macs[i].as_str()
        } else {
            macs[0].as_str()
        };
        assert(mac@ == mac_for(macs@, i as int));
        let block = nic_block_exec(i, mac, &networks[i]);
        let ghost before = body@;
        body.append(block.as_str());
        assert(body@ =~= before + block@);
        i = i + 1;
    }
    body
}

// ---------------------------------------------------------------------------
// A new VM's identity

/// A byte as two lowercase hexadecimal digits.
pub open spec fn hex2(b: u8) -> Seq<char> {
    seq![crate::reconciler::hex_digit((b / 16) as nat), crate::reconciler::hex_digit((b % 16) as nat)]
}

fn hex_char(d: u8) -> (c: char)
    requires
        d < 16,
    ensures
        c == crate::reconciler::hex_digit(d as nat),
{
    if d < 10 {
        (48 + d) as char
    } else {
        (87 + d) as char
    }
}

pub(crate) fn push_hex2(s: &mut String, b: u8)
    ensures
        final(s)@ == old(s)@ + hex2(b),
{
    let ghost start = s@;
    crate::text::push_char(s, hex_char(b / 16));
    crate::text::push_char(s, hex_char(b % 16));
    assert(s@ =~= start + hex2(b));
}

/// A random (version 4, RFC 4122 variant) UUID from 16 random bytes.
pub open spec fn uuid_v4(r: Seq<u8>) -> Seq<char> {
    let r6 = (r[6] & 0x0f) | 0x40;
    let r8 = (r[8] & 0x3f) | 0x80;
    hex2(r[0]) + hex2(r[1]) + hex2(r[2]) + hex2(r[3]) + "-"@ + hex2(r[4]) + hex2(r[5]) + "-"@ + hex2(r6)
        + hex2(r[7]) + "-"@ + hex2(r8) + hex2(r[9]) + "-"@ + hex2(r[10]) + hex2(r[11]) + hex2(r[12]) + hex2(
        r[13],
    ) + hex2(r[14]) + hex2(r[15])
}

/// A locally administered MAC address from five random bytes.
pub open spec fn mac_text(b: Seq<u8>) -> Seq<char> {
    "02:"@ + hex2(b[0]) + ":"@ + hex2(b[1]) + ":"@ + hex2(b[2]) + ":"@ + hex2(b[3]) + ":"@ + hex2(b[4])
}

/// The random bytes of NIC `index`: the first NIC takes bytes 17 to 21 of
/// the identity's random block, each further NIC five fresh bytes.
pub open spec fn nic_bytes(random: Seq<u8>, extra: Seq<u8>, index: int) -> Seq<u8> {
    if index == 0 {
        random.subrange(17, 22)
    } else {
        extra.subrange(5 * (index - 1), 5 * index)
    }
}

/// The host name: the first label of the FQDN.
pub open spec fn hostname_spec(fqdn: Seq<char>) -> Seq<char> {
    match crate::text::index_of_char(fqdn, '.') {
        Some(i) => fqdn.subrange(0, i),
        None => fqdn,
    }
}

pub open spec fn nic_count_spec(n: nat) -> nat {
    if n == 0 {
        1
    } else {
        n
    }
}

fn uuid_from(random: &[u8]) -> (r: String)
    requires
        random@.len() >= 16,
    ensures
        r@ == uuid_v4(random@),
{
    let mut s = String::new();
    push_hex2(&mut s, random[0]);
    push_hex2(&mut s, random[1]);
    push_hex2(&mut s, random[2]);
    push_hex2(&mut s, random[3]);
    s.append("-");
    push_hex2(&mut s, random[4]);
    push_hex2(&mut s, random[5]);
    s.append("-");
    push_hex2(&mut s, (random[6] & 0x0f) | 0x40);
    push_hex2(&mut s, random[7]);
    s.append("-");
    push_hex2(&mut s, (random[8] & 0x3f) | 0x80);
    push_hex2(&mut s, random[9]);
    s.append("-");
    push_hex2(&mut s, random[10]);
    push_hex2(&mut s, random[11]);
    push_hex2(&mut s, random[12]);
    push_hex2(&mut s, random[13]);
    push_hex2(&mut s, random[14]);
    push_hex2(&mut s, random[15]);
    s
}

fn mac_from(b: &[u8], at: usize) -> (r: String)
    requires
        at + 5 <= b@.len(),
    ensures
        r@ == mac_text(b@.subrange(at as int, at + 5)),
{
    let ghost w = b@.subrange(at as int, at + 5);
    let mut s = owned("02:");
    push_hex2(&mut s, b[at]);
    s.append(":");
    push_hex2(&mut s, b[at + 1]);
    s.append(":");
    push_hex2(&mut s, b[at + 2]);
    s.append(":");
    push_hex2(&mut s, b[at + 3]);
    s.append(":");
    push_hex2(&mut s, b[at + 4]);
    assert(w[0] == b@[at as int] && w[1] == b@[at + 1] && w[2] == b@[at + 2] && w[3] == b@[at + 3] && w[4]
        == b@[at + 4]);
    s
}

/// The identity of a new VM from random bytes: `random` (32 bytes) gives the
/// instance id and the first NIC's MAC, `extra` five bytes for each further
/// NIC. At least one NIC is given a MAC.
pub fn identity_from_entropy(vm_id: &str, nic_count: usize, random: &[u8], extra: &[u8]) -> (r: VmIdentity)
    requires
        random@.len() == 32,
        extra@.len() == 5 * (nic_count_spec(nic_count as nat) - 1),
    ensures
        r.instance_id@ == uuid_v4(random@),
        r.fqdn@ == crate::cli::fqdn_spec(vm_id@),
        r.hostname@ == hostname_spec(crate::cli::fqdn_spec(vm_id@)),
        strings_view(r.mac_addresses@) == Seq::new(
            nic_count_spec(nic_count as nat),
            |i: int| mac_text(nic_bytes(random@, extra@, i)),
        ),
{
    let instance_id = uuid_from(random);
    let count = if nic_count == 0 {
        1
    } else {
        nic_count
    };
    let ghost target = Seq::new(count as nat, |i: int| mac_text(nic_bytes(random@, extra@, i)));
    let mut macs: Vec<String> = Vec::new();
    let mut i: usize = 0;
    while i < count
        invariant
            i <= count,
            count == nic_count_spec(nic_count as nat),
            random@.len() == 32,
            extra@.len() == 5 * (count - 1),
            target == Seq::new(count as nat, |i: int| mac_text(nic_bytes(random@, extra@, i))),
            strings_view(macs@) == target.take(i as int),
        decreases count - i,
    {
        let mac = if i == 0 {
            mac_from(random, 17)
        } else {
            let el = extra.len();
            assert(5 * (i - 1) + 5 <= el) by (nonlinear_arith)
                requires
                    1 <= i < count,
                    el == 5 * (count - 1),
            ;
            let at: usize = 5 * (i - 1);
            mac_from(extra, at)
        };
        assert(mac@ == target[i as int]);
        let ghost before = strings_view(macs@);
        macs.push(mac);
        assert(strings_view(macs@) =~= before.push(target[i as int]));
        assert(strings_view(macs@) =~= target.take(i + 1));
        i = i + 1;
    }
    assert(target.take(count as int) =~= target);
    let fqdn = crate::cli::cloud_init_fqdn(vm_id);
    let hostname = match crate::text::find_char(fqdn.as_str(), '.') {
        Some(k) => {
            proof {
                crate::text::lemma_index_of_char_unique(fqdn@, '.', k as int);
            }
            crate::text::slice(fqdn.as_str(), 0, k)
        },
        None => {
            proof {
                crate::text::lemma_index_of_char(fqdn@, '.');
                if crate::text::index_of_char(fqdn@, '.') is Some {
                    let k = crate::text::index_of_char(fqdn@, '.')->Some_0;
                    assert(fqdn@[k] == '.');
                }
            }
            owned(fqdn.as_str())
        },
    };
    VmIdentity { instance_id, hostname, fqdn, mac_addresses: macs }
}

/// The cloud-init `meta-data` of a VM.
pub open spec fn meta_data_spec(instance_id: Seq<char>, hostname: Seq<char>) -> Seq<char> {
    "instance-id: "@ + instance_id + "\nlocal-hostname: "@ + hostname + "\n"@
}

pub fn render_meta_data(identity: &VmIdentity) -> (r: String)
    ensures
        r@ == meta_data_spec(identity.instance_id@, identity.hostname@),
{
    let mut s = owned("instance-id: ");
    s.append(identity.instance_id.as_str());
    s.append("\nlocal-hostname: ");
    s.append(identity.hostname.as_str());
    s.append("\n");
    s
}

// ---------------------------------------------------------------- root password

/// The YAML document that `serde_yaml` writes for a string scalar, where it
/// writes one.
pub uninterp spec fn yaml_document_of(s: Seq<char>) -> Option<Seq<char>>;

/// `serde_yaml::to_string` of a string: the YAML document that holds it,
/// `None` where serialization fails. Which quoting the crate picks is only
/// named here.
#[verifier::external_body]
pub(crate) fn yaml_document(s: &str) -> (r: Option<String>)
    ensures
        opt_string_view(r) == yaml_document_of(s@),
{
    serde_yaml::to_string(s).ok()
}

pub open spec fn root_password_spec(password: Seq<char>, document: Option<Seq<char>>) -> Seq<char> {
    let quoted = trim_spec(
        match document {
            Some(d) => d,
            None => "\""@ + password + "\""@,
        },
    );
    "disable_root: false\nssh_pwauth: true\nchpasswd:\n  expire: false\n  users:\n    - name: root\n      password: "@
        + quoted + "\n      type: text\n"@
}

/// The cloud-config lines that enable root log-in with `password`, given
/// the YAML document of the password (`None` quotes it in double quotes).
pub fn root_password_snippet(password: &str, document: Option<&str>) -> (r: String)
    ensures
        r@ == root_password_spec(
            password@,
            match document {
                Some(d) => Some(d@),
                None => None,
            },
        ),
{
    let raw = match document {
        Some(d) => owned(d),
        None => cat3("\"", password, "\""),
    };
    let quoted = trim(raw.as_str());
    cat3(
        "disable_root: false\nssh_pwauth: true\nchpasswd:\n  expire: false\n  users:\n    - name: root\n      password: ",
        quoted.as_str(),
        "\n      type: text\n",
    )
}

/// The cloud-config lines that enable root log-in with `password`, the
/// password written as a YAML scalar.
pub fn cloud_init_root_password_snippet(password: &str) -> (r: String)
    ensures
        r@ == root_password_spec(password@, yaml_document_of(password@)),
{
    let document = yaml_document(password);
    match &document {
        Some(d) => root_password_snippet(password, Some(d.as_str())),
        None => root_password_snippet(password, None),
    }
}

// ---------------------------------------------------------------- root disk clone and image format

/// How a VM's root disk is made from its image: an APFS linked clone, or a
/// full copy.
#[derive(Clone, Copy, Debug, PartialEq, Eq, Structural)]
pub enum CloneMode {
    Linked,
    Full,
}

pub open spec fn clone_mode_word(m: CloneMode) -> Seq<char> {
    match m {
        CloneMode::Linked => "linked"@,
        CloneMode::Full => "full"@,
    }
}

impl CloneMode {
    /// The mode's name in reports.
    pub fn as_str(self) -> (r: &'static str)
        ensures
            r@ == clone_mode_word(self),
    {
        match self {
            CloneMode::Linked => "linked",
            CloneMode::Full => "full",
        }
    }
}

/// The clone mode on a bundle's file system: a linked clone on APFS (in
/// any letter case), a full copy on any other or an unknown one.
pub open spec fn clone_mode_spec(filesystem: Option<Seq<char>>) -> CloneMode {
    match filesystem {
        Some(f) => if apfs_name(f) {
            CloneMode::Linked
        } else {
            CloneMode::Full
        },
        None => CloneMode::Full,
    }
}

pub fn clone_mode_for(filesystem: Option<&str>) -> (r: CloneMode)
    ensures
        r == clone_mode_spec(
            match filesystem {
                Some(f) => Some(f@),
                None => None,
            },
        ),
{
    match filesystem {
        Some(f) => if is_apfs(f) {
            CloneMode::Linked
        } else {
            CloneMode::Full
        },
        None => CloneMode::Full,
    }
}

/// The image formats a VM can boot from.
pub open spec fn supported_format(f: Seq<char>) -> bool {
    f == "raw"@ || f == "qcow"@ || f == "qcow2"@
}

/// Whether an image of format `format` can be sealed: raw, qcow and qcow2
/// can; any other is invalid input.
pub fn check_image_format(format: &str) -> (r: Result<(), (u8, String)>)
    ensures
        supported_format(format@) ==> r is Ok,
        !supported_format(format@) ==> (r matches Err(e) && e.0 == EXIT_INVALID_INPUT && e.1@
            == "unsupported image format "@ + format@ + "; expected raw or qcow2"@),
{
    if str_eq(format, "raw") || str_eq(format, "qcow") || str_eq(format, "qcow2") {
        Ok(())
    } else {
        Err((EXIT_INVALID_INPUT, cat3("unsupported image format ", format, "; expected raw or qcow2")))
    }
}

// ---------------------------------------------------------------- disks and NICs

/// The networks a new VM joins: those it names, else the one network it
/// was given, where there is one.
pub open spec fn joined_networks(networks: Seq<VmNetworkSelection>, network: Option<VmNetworkSelection>) -> Seq<
    VmNetworkSelection,
> {
    if networks.len() == 0 {
        match network {
            Some(n) => seq![n],
            None => Seq::empty(),
        }
    } else {
        networks
    }
}

pub open spec fn is_docker(n: VmNetworkSelection) -> bool {
    n.backend@ == "docker"@
}

/// The networks that get a NIC: all but docker ones, in order.
pub open spec fn nic_networks_spec(all: Seq<VmNetworkSelection>) -> Seq<VmNetworkSelection>
    decreases all.len(),
{
    if all.len() == 0 {
        Seq::empty()
    } else if is_docker(all.last()) {
        nic_networks_spec(all.drop_last())
    } else {
        nic_networks_spec(all.drop_last()).push(all.last())
    }
}

/// The docker bridge address, `ip/prefix` of the first docker network.
pub open spec fn docker_bip_spec(all: Seq<VmNetworkSelection>) -> Option<Seq<char>>
    decreases all.len(),
{
    if all.len() == 0 {
        None
    } else if is_docker(all[0]) {
        Some(all[0].ip@ + "/"@ + decimal(all[0].prefix as nat))
    } else {
        docker_bip_spec(all.drop_first())
    }
}

/// The NICs of a new VM, its docker bridge address, and how many NICs its
/// identity provides for (at least one).
pub struct NicPlan {
    pub nics: Vec<VmNetworkSelection>,
    pub docker_bip: Option<String>,
    pub nic_count: usize,
}

fn first_docker_bip(all: &Vec<VmNetworkSelection>) -> (r: Option<String>)
    ensures
        opt_string_view(r) == docker_bip_spec(all@),
{
    let ghost av = all@;
    let mut j: usize = 0;
    assert(av.skip(0) =~= av);
    while j < all.len()
        invariant
            j <= all@.len(),
            av == all@,
            docker_bip_spec(av) == docker_bip_spec(av.skip(j as int)),
        decreases all.len() - j,
    {
        assert(av.skip(j as int)[0] == av[j as int]);
        assert(av.skip(j as int).drop_first() =~= av.skip(j + 1));
        if all[j].is_docker_backend() {
            let mut bip = cat(all[j].ip.as_str(), "/");
            bip.append(u64_to_decimal(all[j].prefix as u64).as_str());
            return Some(bip);
        }
        j = j + 1;
    }
    assert(av.skip(av.len() as int) =~= Seq::<VmNetworkSelection>::empty());
    None
}

/// Splits a new VM's networks into NICs and its docker bridge: docker
/// networks get no NIC, and the first of them gives the bridge address.
pub fn nic_plan(networks: &[VmNetworkSelection], network: &Option<VmNetworkSelection>) -> (r: NicPlan)
    ensures
        r.nics@ == nic_networks_spec(joined_networks(networks@, *network)),
        opt_string_view(r.docker_bip) == docker_bip_spec(joined_networks(networks@, *network)),
        r.nic_count == if r.nics@.len() == 0 {
            1
        } else {
            r.nics@.len()
        },
{
    let mut all: Vec<VmNetworkSelection> = Vec::new();
    if networks.len() == 0 {
        match network {
            Some(n) => all.push(n.duplicate()),
            None => {},
        }
    } else {
        let mut k: usize = 0;
        while k < networks.len()
            invariant
                k <= networks@.len(),
                all@ == networks@.subrange(0, k as int),
            decreases networks.len() - k,
        {
            all.push(networks[k].duplicate());
            assert(all@ =~= networks@.subrange(0, k + 1));
            k = k + 1;
        }
        assert(networks@.subrange(0, networks@.len() as int) =~= networks@);
    }
    assert(all@ =~= joined_networks(networks@, *network));
    let ghost av = all@;
    let mut nics: Vec<VmNetworkSelection> = Vec::new();
    let mut i: usize = 0;
    assert(av.subrange(0, 0) =~= Seq::<VmNetworkSelection>::empty());
    while i < all.len()
        invariant
            i <= all@.len(),
            av == all@,
            nics@ == nic_networks_spec(av.subrange(0, i as int)),
        decreases all.len() - i,
    {
        let ghost pre = av.subrange(0, i + 1);
        assert(pre.drop_last() =~= av.subrange(0, i as int));
        if !all[i].is_docker_backend() {
            nics.push(all[i].duplicate());
        }
        i = i + 1;
    }
    assert(av.subrange(0, av.len() as int) =~= av);
    let docker_bip = first_docker_bip(&all);
    let nic_count = if nics.len() == 0 {
        1
    } else {
        nics.len()
    };
    NicPlan { nics, docker_bip, nic_count }
}

/// The smallest root disk a VM with the docker role gets: 8 GiB.
pub const DOCKER_ROOT_MIN_BYTES: u64 = 8589934592;

/// How large the root disk must at least be: 8 GiB for a VM with the docker
/// role, nothing otherwise.
pub fn root_disk_minimum(roles: &[String]) -> (r: Option<u64>)
    ensures
        strings_view(roles@).contains("docker"@) ==> r == Some(DOCKER_ROOT_MIN_BYTES),
        !strings_view(roles@).contains("docker"@) ==> r is None,
{
    let mut i: usize = 0;
    while i < roles.len()
        invariant
            i <= roles@.len(),
            forall|k: int| 0 <= k < i ==> roles@[k]@ != "docker"@,
        decreases roles.len() - i,
    {
        if str_eq(roles[i].as_str(), "docker") {
            assert(strings_view(roles@)[i as int] == "docker"@);
            return Some(DOCKER_ROOT_MIN_BYTES);
        }
        i = i + 1;
    }
    assert forall|k: int| 0 <= k < roles@.len() implies strings_view(roles@)[k] != "docker"@ by {
        assert(strings_view(roles@)[k] == roles@[k]@);
    }
    None
}

} // verus!
