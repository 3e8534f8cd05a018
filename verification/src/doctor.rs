//! The findings of `vzctl doctor`: what each host probe means, the report's
//! summary and the command's exit code.
use crate::cli::{entitlement_spec, has_virtualization_entitlement, EXIT_HOST_UNSUPPORTED, EXIT_SUPERVISOR_UNHEALTHY};
use crate::text::{
    cat, contains_str, decimal, ends_with, lines, lines_spec, lower, owned, parse_unsigned, parse_unsigned_spec,
    split_first, split_once_spec, split_words, str_contains, str_ends_with, str_eq, strings_view, to_lower, trim,
    trim_spec, u64_to_decimal, words_spec,
};
use crate::json::{
    as_bool, as_str, as_u64, at, get, json_of, json_text, member_bool, member_is_true, member_str, member_text,
    member_u64, parse_json, text_of, Json, JsonView,
};
use vstd::prelude::*;

verus! {

/// The oldest macOS major release the host may run.
pub const MINIMUM_MACOS_MAJOR: u32 = 26;

/// How a finding bears on the host's readiness.
#[derive(Clone, Copy, Debug, PartialEq, Eq, Structural)]
pub enum CheckStatus {
    Pass,
    Warn,
    Fail,
}

pub open spec fn status_text(s: CheckStatus) -> Seq<char> {
    match s {
        CheckStatus::Pass => "ok"@,
        CheckStatus::Warn => "warn"@,
        CheckStatus::Fail => "fail"@,
    }
}

pub open spec fn status_label_text(s: CheckStatus) -> Seq<char> {
    match s {
        CheckStatus::Pass => "OK"@,
        CheckStatus::Warn => "WARN"@,
        CheckStatus::Fail => "FAIL"@,
    }
}

impl CheckStatus {
    /// The status as machine-readable reports write it.
    pub fn as_str(self) -> (r: &'static str)
        ensures
            r@ == status_text(self),
    {
        match self {
            CheckStatus::Pass => "ok",
            CheckStatus::Warn => "warn",
            CheckStatus::Fail => "fail",
        }
    }

    /// The status as the human report writes it.
    pub fn label(self) -> (r: &'static str)
        ensures
            r@ == status_label_text(self),
    {
        match self {
            CheckStatus::Pass => "OK",
            CheckStatus::Warn => "WARN",
            CheckStatus::Fail => "FAIL",
        }
    }
}

/// One finding: which check, its status and what it says.
pub struct Check {
    pub id: String,
    pub status: CheckStatus,
    pub message: String,
}

pub struct CheckView {
    pub id: Seq<char>,
    pub status: CheckStatus,
    pub message: Seq<char>,
}

impl View for Check {
    type V = CheckView;

    open spec fn view(&self) -> CheckView {
        CheckView { id: self.id@, status: self.status, message: self.message@ }
    }
}

pub open spec fn finding(id: Seq<char>, status: CheckStatus, message: Seq<char>) -> CheckView {
    CheckView { id, status, message }
}

pub open spec fn checks_view(cs: Seq<Check>) -> Seq<CheckView> {
    cs.map_values(|c: Check| c@)
}

fn make(id: &str, status: CheckStatus, message: String) -> (r: Check)
    ensures
        r@ == finding(id@, status, message@),
{
    Check { id: owned(id), status, message }
}

/// `a`, `b` and `c` joined into a new string.
fn join3(a: &str, b: &str, c: &str) -> (r: String)
    ensures
        r@ == a@ + b@ + c@,
{
    let mut r = owned(a);
    r.append(b);
    r.append(c);
    r
}

/// `a` to `d` joined into a new string.
fn join4(a: &str, b: &str, c: &str, d: &str) -> (r: String)
    ensures
        r@ == a@ + b@ + c@ + d@,
{
    let mut r = join3(a, b, c);
    r.append(d);
    r
}

/// `a` to `e` joined into a new string.
fn join5(a: &str, b: &str, c: &str, d: &str, e: &str) -> (r: String)
    ensures
        r@ == a@ + b@ + c@ + d@ + e@,
{
    let mut r = join3(a, b, c);
    r.append(d);
    r.append(e);
    r
}

// ---------------------------------------------------------------- host

pub open spec fn macos_spec(version: Option<u32>) -> CheckView {
    match version {
        Some(v) => if v >= MINIMUM_MACOS_MAJOR {
            finding("host.macos"@, CheckStatus::Pass, "macOS "@ + decimal(v as nat) + " meets the 26+ baseline"@)
        } else {
            finding(
                "host.macos"@,
                CheckStatus::Fail,
                "macOS "@ + decimal(v as nat) + " is unsupported; macOS 26+ required (ADR 0001)"@,
            )
        },
        None => finding(
            "host.macos"@,
            CheckStatus::Fail,
            "macOS version could not be determined; macOS 26+ required (ADR 0001)"@,
        ),
    }
}

/// The host's macOS release against the supported baseline.
pub fn macos_check(version: Option<u32>) -> (r: Check)
    ensures
        r@ == macos_spec(version),
{
    match version {
        Some(v) => {
            let n = u64_to_decimal(v as u64);
            if v >= MINIMUM_MACOS_MAJOR {
                make("host.macos", CheckStatus::Pass, join3("macOS ", n.as_str(), " meets the 26+ baseline"))
            } else {
                make(
                    "host.macos",
                    CheckStatus::Fail,
                    join3("macOS ", n.as_str(), " is unsupported; macOS 26+ required (ADR 0001)"),
                )
            }
        },
        None => make(
            "host.macos",
            CheckStatus::Fail,
            owned("macOS version could not be determined; macOS 26+ required (ADR 0001)"),
        ),
    }
}

pub open spec fn vmnet_spec(version: Option<u32>) -> CheckView {
    if version matches Some(v) && v >= MINIMUM_MACOS_MAJOR {
        finding(
            "network.vmnet"@,
            CheckStatus::Pass,
            "custom vmnet API baseline is available; CRUD/rebuild is supervisor-managed"@,
        )
    } else {
        finding(
            "network.vmnet"@,
            CheckStatus::Warn,
            "custom vmnet requires macOS 26+; live network creation is not tested"@,
        )
    }
}

/// Whether the custom vmnet API can be expected on this release.
pub fn vmnet_check(version: Option<u32>) -> (r: Check)
    ensures
        r@ == vmnet_spec(version),
{
    let ready = match version {
        Some(v) => v >= MINIMUM_MACOS_MAJOR,
        None => false,
    };
    if ready {
        make(
            "network.vmnet",
            CheckStatus::Pass,
            owned("custom vmnet API baseline is available; CRUD/rebuild is supervisor-managed"),
        )
    } else {
        make(
            "network.vmnet",
            CheckStatus::Warn,
            owned("custom vmnet requires macOS 26+; live network creation is not tested"),
        )
    }
}

/// The DNS port the supervisor serves on unless `VZCTL_DNS_PORT` says otherwise.
pub const DEFAULT_DNS_PORT: u16 = 15353;

/// The DNS port named by a setting: its value where it parses as a port,
/// else the default.
pub fn dns_port_setting(value: Option<&str>) -> (r: u16)
    ensures
        r == match value {
            Some(v) => match parse_unsigned_spec(v@, u16::MAX as nat) {
                Some(p) => p as u16,
                None => DEFAULT_DNS_PORT,
            },
            None => DEFAULT_DNS_PORT,
        },
{
    match value {
        Some(v) => match parse_unsigned(v, u16::MAX as u64) {
            Some(p) => p as u16,
            None => DEFAULT_DNS_PORT,
        },
        None => DEFAULT_DNS_PORT,
    }
}

/// The major release in a macOS product version such as `26.1`: the
/// number before the first dot, surrounding whitespace ignored.
pub open spec fn macos_major_spec(product_version: Seq<char>) -> Option<u32> {
    let t = trim_spec(product_version);
    let head = match split_once_spec(t, '.') {
        Some((a, _)) => a,
        None => t,
    };
    match parse_unsigned_spec(head, u32::MAX as nat) {
        Some(n) => Some(n as u32),
        None => None,
    }
}

/// Reads the major release out of a macOS product version.
pub fn macos_major_of(product_version: &str) -> (r: Option<u32>)
    ensures
        r == macos_major_spec(product_version@),
{
    let t = trim(product_version);
    let head = match split_first(t.as_str(), '.') {
        Some((a, _)) => a,
        None => t.clone(),
    };
    match parse_unsigned(head.as_str(), u32::MAX as u64) {
        Some(n) => Some(n as u32),
        None => None,
    }
}

// ---------------------------------------------------------------- daemons

pub open spec fn daemon_id_spec(name: Seq<char>) -> Seq<char> {
    if name == "vz-helper"@ {
        "codesign.vz-helper"@
    } else {
        "codesign.vz-supervisor"@
    }
}

pub open spec fn daemon_env_spec(name: Seq<char>) -> Seq<char> {
    if name == "vz-helper"@ {
        "VZCTL_HELPER_PATH"@
    } else {
        "VZCTL_SUPERVISOR_PATH"@
    }
}

/// The environment variable that names where a daemon binary lies.
pub fn daemon_path_env(name: &str) -> (r: &'static str)
    ensures
        r@ == daemon_env_spec(name@),
{
    if str_eq(name, "vz-helper") {
        "VZCTL_HELPER_PATH"
    } else {
        "VZCTL_SUPERVISOR_PATH"
    }
}

/// What inspecting a daemon binary found.
pub enum BinaryProbe {
    /// No binary was found.
    Missing,
    /// The binary was found at `path`, but the code-signing tool could not be run.
    Uninspectable { path: String },
    /// The code-signing tool ran: whether the signature verified, and what it
    /// printed about the signature and the entitlements.
    Inspected { path: String, signed: bool, signature: String, entitlements: String },
}

pub open spec fn ad_hoc_spec(signature: Seq<char>) -> bool {
    contains_str(signature, "Signature=adhoc"@)
}

/// Whether code-signing output describes an ad-hoc signature.
pub fn ad_hoc_signature(signature: &str) -> (r: bool)
    ensures
        r == ad_hoc_spec(signature@),
{
    str_contains(signature, "Signature=adhoc")
}

/// What a binary lacks, in words.
pub open spec fn lacking_text(signed: bool, entitled: bool) -> Seq<char> {
    if !signed && !entitled {
        "valid code signature and com.apple.security.virtualization entitlement"@
    } else if !signed {
        "valid code signature"@
    } else {
        "com.apple.security.virtualization entitlement"@
    }
}

pub open spec fn daemon_spec(name: Seq<char>, probe: BinaryProbe) -> CheckView {
    let id = daemon_id_spec(name);
    match probe {
        BinaryProbe::Missing => finding(
            id,
            CheckStatus::Warn,
            name + " not found; build it or set "@ + daemon_env_spec(name),
        ),
        BinaryProbe::Uninspectable { path } => finding(
            id,
            CheckStatus::Warn,
            "cannot inspect "@ + name + " with codesign ("@ + path@ + ")"@,
        ),
        BinaryProbe::Inspected { path, signed, signature, entitlements } => {
            let entitled = entitlement_spec(entitlements@);
            if signed && entitled {
                finding(
                    id,
                    CheckStatus::Pass,
                    name + " is "@ + (if ad_hoc_spec(signature@) {
                        "ad-hoc "@
                    } else {
                        ""@
                    }) + "signed with com.apple.security.virtualization"@,
                )
            } else {
                finding(id, CheckStatus::Warn, name + " missing "@ + lacking_text(signed, entitled) + " ("@ + path@ + ")"@)
            }
        },
    }
}

/// Whether a daemon binary is there, signed, and entitled to virtualization.
pub fn daemon_binary_check(name: &str, probe: &BinaryProbe) -> (r: Check)
    ensures
        r@ == daemon_spec(name@, *probe),
{
    let id = if str_eq(name, "vz-helper") {
        "codesign.vz-helper"
    } else {
        "codesign.vz-supervisor"
    };
    match probe {
        BinaryProbe::Missing => make(
            id,
            CheckStatus::Warn,
            join3(name, " not found; build it or set ", daemon_path_env(name)),
        ),
        BinaryProbe::Uninspectable { path } => make(
            id,
            CheckStatus::Warn,
            join5("cannot inspect ", name, " with codesign (", path.as_str(), ")"),
        ),
        BinaryProbe::Inspected { path, signed, signature, entitlements } => {
            let entitled = has_virtualization_entitlement(entitlements.as_str());
            if *signed && entitled {
                let kind = if ad_hoc_signature(signature.as_str()) {
                    "ad-hoc "
                } else {
                    ""
                };
                {
                    let mut m = join3(name, " is ", kind);
                    m.append("signed with com.apple.security.virtualization");
                    make(id, CheckStatus::Pass, m)
                }
            } else {
                let lacking = if !*signed && !entitled {
                    "valid code signature and com.apple.security.virtualization entitlement"
                } else if !*signed {
                    "valid code signature"
                } else {
                    "com.apple.security.virtualization entitlement"
                };
                let mut m = join5(name, " missing ", lacking, " (", path.as_str());
                m.append(")");
                make(id, CheckStatus::Warn, m)
            }
        },
    }
}

// ---------------------------------------------------------------- storage

/// `fs` names APFS, in any letter case.
pub open spec fn apfs_name(fs: Seq<char>) -> bool {
    lower(fs) == "apfs"@
}

/// Whether a filesystem type names APFS, ignoring ASCII case.
pub fn is_apfs(filesystem: &str) -> (r: bool)
    ensures
        r == apfs_name(filesystem@),
{
    let l = to_lower(filesystem);
    str_eq(l.as_str(), "apfs")
}

pub open spec fn apfs_spec(path: Seq<char>, probe_path: Seq<char>, filesystem: Option<Seq<char>>) -> CheckView {
    match filesystem {
        None => finding("storage.apfs"@, CheckStatus::Warn, "cannot inspect filesystem for "@ + path),
        Some(fs) => if apfs_name(fs) {
            finding("storage.apfs"@, CheckStatus::Pass, probe_path + " is on APFS (clonefile capable)"@)
        } else {
            finding(
                "storage.apfs"@,
                CheckStatus::Warn,
                probe_path + " is on "@ + (if fs.len() == 0 {
                    "an unknown filesystem"@
                } else {
                    fs
                }) + "; APFS is required for clonefile-backed images"@,
            )
        },
    }
}

/// Whether the image directory lies on APFS. `probe_path` is the nearest
/// existing directory at or above `path`; `filesystem` is its filesystem
/// type, where it could be found.
pub fn apfs_check(path: &str, probe_path: &str, filesystem: Option<&str>) -> (r: Check)
    ensures
        r@ == apfs_spec(path@, probe_path@, match filesystem {
            Some(f) => Some(f@),
            None => None,
        }),
{
    match filesystem {
        None => make("storage.apfs", CheckStatus::Warn, cat("cannot inspect filesystem for ", path)),
        Some(fs) => {
            if is_apfs(fs) {
                make("storage.apfs", CheckStatus::Pass, cat(probe_path, " is on APFS (clonefile capable)"))
            } else {
                let shown = if fs.unicode_len() == 0 {
                    "an unknown filesystem"
                } else {
                    fs
                };
                let mut m = join3(probe_path, " is on ", shown);
                m.append("; APFS is required for clonefile-backed images");
                make("storage.apfs", CheckStatus::Warn, m)
            }
        },
    }
}

/// KiB in a GiB.
pub const KIB_PER_GIB: u64 = 1048576;

pub open spec fn disk_status_spec(available_kib: Option<u64>, minimum_gib: u64) -> CheckStatus {
    match available_kib {
        Some(k) => if k >= minimum_gib * KIB_PER_GIB {
            CheckStatus::Pass
        } else {
            CheckStatus::Warn
        },
        None => CheckStatus::Warn,
    }
}

/// Whether the image directory has the free space asked for; unknown free
/// space is a warning.
pub fn disk_space_status(available_kib: Option<u64>, minimum_gib: u64) -> (r: CheckStatus)
    requires
        minimum_gib * KIB_PER_GIB <= u64::MAX,
    ensures
        r == disk_status_spec(available_kib, minimum_gib),
{
    match available_kib {
        Some(k) => if k >= minimum_gib * KIB_PER_GIB {
            CheckStatus::Pass
        } else {
            CheckStatus::Warn
        },
        None => CheckStatus::Warn,
    }
}

// ---------------------------------------------------------------- DNS

/// What binding the DNS port on 127.0.0.1 for one protocol found.
pub enum PortProbe {
    /// The port could be bound.
    Free,
    /// Another process holds it; the error as reported.
    InUse(String),
    /// Binding failed for another reason; the error as reported.
    Failed(String),
}

pub open spec fn probe_text(p: PortProbe) -> Seq<char> {
    match p {
        PortProbe::Free => "free"@,
        PortProbe::InUse(e) => e@,
        PortProbe::Failed(e) => e@,
    }
}

pub open spec fn in_use_text(udp_free: bool, tcp_free: bool) -> Seq<char> {
    if !udp_free && !tcp_free {
        "UDP and TCP"@
    } else if !udp_free {
        "UDP"@
    } else {
        "TCP"@
    }
}

/// The finding, and whether the port is free (`None` where that is unknown).
pub open spec fn dns_port_spec(port: u16, udp: PortProbe, tcp: PortProbe) -> (CheckView, Option<bool>) {
    let address = "127.0.0.1:"@ + decimal(port as nat);
    if udp is Free && tcp is Free {
        (finding("dns.host_port"@, CheckStatus::Pass, address + " is free for UDP and TCP DNS"@), Some(true))
    } else if udp is Failed || tcp is Failed {
        (
            finding(
                "dns.host_port"@,
                CheckStatus::Warn,
                "cannot reliably probe "@ + address + " (UDP: "@ + probe_text(udp) + "; TCP: "@ + probe_text(tcp)
                    + ")"@,
            ),
            None,
        )
    } else {
        (
            finding(
                "dns.host_port"@,
                CheckStatus::Warn,
                address + " is in use ("@ + in_use_text(udp is Free, tcp is Free) + ")"@,
            ),
            Some(false),
        )
    }
}

fn probe_str(p: &PortProbe) -> (r: &str)
    ensures
        r@ == probe_text(*p),
{
    match p {
        PortProbe::Free => "free",
        PortProbe::InUse(e) => e.as_str(),
        PortProbe::Failed(e) => e.as_str(),
    }
}

/// Whether the host DNS port is free for UDP and TCP, with the port's state.
pub fn dns_port_check(port: u16, udp: &PortProbe, tcp: &PortProbe) -> (r: (Check, Option<bool>))
    ensures
        r.0@ == dns_port_spec(port, *udp, *tcp).0,
        r.1 == dns_port_spec(port, *udp, *tcp).1,
{
    let address = cat("127.0.0.1:", u64_to_decimal(port as u64).as_str());
    let udp_free = match udp {
        PortProbe::Free => true,
        _ => false,
    };
    let tcp_free = match tcp {
        PortProbe::Free => true,
        _ => false,
    };
    let failed = match (udp, tcp) {
        (PortProbe::Failed(_), _) => true,
        (_, PortProbe::Failed(_)) => true,
        _ => false,
    };
    if udp_free && tcp_free {
        (make("dns.host_port", CheckStatus::Pass, cat(address.as_str(), " is free for UDP and TCP DNS")), Some(true))
    } else if failed {
        let mut m = join5("cannot reliably probe ", address.as_str(), " (UDP: ", probe_str(udp), "; TCP: ");
        m.append(probe_str(tcp));
        m.append(")");
        (make("dns.host_port", CheckStatus::Warn, m), None)
    } else {
        let which = if !udp_free && !tcp_free {
            "UDP and TCP"
        } else if !udp_free {
            "UDP"
        } else {
            "TCP"
        };
        (make("dns.host_port", CheckStatus::Warn, join4(address.as_str(), " is in use (", which, ")")), Some(false))
    }
}

/// `ls` holds a line whose words are exactly `a` and `b`.
pub open spec fn has_line(ls: Seq<Seq<char>>, a: Seq<char>, b: Seq<char>) -> bool {
    exists|i: int| 0 <= i < ls.len() && #[trigger] words_spec(ls[i]) == seq![a, b]
}

/// A resolver file sends queries to 127.0.0.1 on `port`.
pub open spec fn resolver_spec(contents: Seq<char>, port: u16) -> bool {
    has_line(lines_spec(contents), "nameserver"@, "127.0.0.1"@) && has_line(
        lines_spec(contents),
        "port"@,
        decimal(port as nat),
    )
}

/// Whether a resolver file, given by its contents (`None` where it could not
/// be read), names 127.0.0.1 as its nameserver and `dns_port` as its port.
pub fn resolver_points_to(contents: Option<&str>, dns_port: u16) -> (r: bool)
    ensures
        r == match contents {
            Some(c) => resolver_spec(c@, dns_port),
            None => false,
        },
{
    let c = match contents {
        Some(c) => c,
        None => return false,
    };
    let port_text = u64_to_decimal(dns_port as u64);
    let ls = lines(c);
    let ghost lv = strings_view(ls@);
    let ghost ns_words = seq!["nameserver"@, "127.0.0.1"@];
    let ghost port_words = seq!["port"@, decimal(dns_port as nat)];
    let mut nameserver_ok = false;
    let mut port_ok = false;
    let mut i: usize = 0;
    while i < ls.len()
        invariant
            i <= ls@.len(),
            lv == strings_view(ls@),
            lv == lines_spec(c@),
            port_text@ == decimal(dns_port as nat),
            ns_words == seq!["nameserver"@, "127.0.0.1"@],
            port_words == seq!["port"@, decimal(dns_port as nat)],
            nameserver_ok == exists|j: int| 0 <= j < i && #[trigger] words_spec(lv[j]) == ns_words,
            port_ok == exists|j: int| 0 <= j < i && #[trigger] words_spec(lv[j]) == port_words,
        decreases ls.len() - i,
    {
        let line = ls[i].as_str();
        assert(line@ == lv[i as int]);
        let words = split_words(line);
        let ghost wv = strings_view(words@);
        assert(wv == words_spec(lv[i as int]));
        let mut is_ns = false;
        let mut is_port = false;
        if words.len() == 2 {
            assert(words[0]@ == wv[0] && words[1]@ == wv[1]);
            is_ns = str_eq(words[0].as_str(), "nameserver") && str_eq(words[1].as_str(), "127.0.0.1");
            is_port = str_eq(words[0].as_str(), "port") && str_eq(words[1].as_str(), port_text.as_str());
            if is_ns {
                assert(wv =~= ns_words);
            }
            if is_port {
                assert(wv =~= port_words);
            }
        }
        assert(is_ns == (wv == ns_words)) by {
            if wv == ns_words {
                assert(wv.len() == 2 && wv[0] == "nameserver"@ && wv[1] == "127.0.0.1"@);
            }
        }
        assert(is_port == (wv == port_words)) by {
            if wv == port_words {
                assert(wv.len() == 2 && wv[0] == "port"@ && wv[1] == decimal(dns_port as nat));
            }
        }
        nameserver_ok = nameserver_ok || is_ns;
        port_ok = port_ok || is_port;
        i = i + 1;
    }
    nameserver_ok && port_ok
}

/// Whether a file name marks a resolver for the `vz.test` domain.
pub fn is_resolver_file(name: &str) -> (r: bool)
    ensures
        r == ends_with(name@, ".vz.test"@),
{
    str_ends_with(name, ".vz.test")
}

/// How many of `s` are `false`.
pub open spec fn count_false(s: Seq<bool>) -> nat
    decreases s.len(),
{
    if s.len() == 0 {
        0
    } else {
        count_false(s.drop_last()) + if s.last() {
            0nat
        } else {
            1nat
        }
    }
}

pub open spec fn resolvers_spec(points: Seq<bool>, port: u16, port_free: Option<bool>) -> CheckView {
    let n = points.len();
    let bad = count_false(points);
    let p = decimal(port as nat);
    if n == 0 {
        finding(
            "dns.resolvers"@,
            CheckStatus::Pass,
            "no *.vz.test resolver files installed (expected before DNS setup)"@,
        )
    } else if bad > 0 {
        finding(
            "dns.resolvers"@,
            CheckStatus::Warn,
            decimal(bad) + " resolver file(s) do not point to 127.0.0.1:"@ + p,
        )
    } else if port_free == Some(true) {
        finding(
            "dns.resolvers"@,
            CheckStatus::Warn,
            decimal(n) + " *.vz.test resolver file(s) appear orphaned; DNS port "@ + p + " is free"@,
        )
    } else if port_free == Some(false) {
        finding(
            "dns.resolvers"@,
            CheckStatus::Pass,
            decimal(n) + " *.vz.test resolver file(s) point to 127.0.0.1:"@ + p,
        )
    } else {
        finding(
            "dns.resolvers"@,
            CheckStatus::Warn,
            decimal(n) + " *.vz.test resolver file(s) are configured, but listener state is unknown"@,
        )
    }
}

/// The installed `vz.test` resolver files against the DNS port: `points` says
/// for each file whether it points to 127.0.0.1 on `dns_port`, and
/// `dns_port_free` whether the port was found free.
pub fn resolvers_check(points: &[bool], dns_port: u16, dns_port_free: Option<bool>) -> (r: Check)
    ensures
        r@ == resolvers_spec(points@, dns_port, dns_port_free),
{
    let n = points.len();
    if n == 0 {
        return make(
            "dns.resolvers",
            CheckStatus::Pass,
            owned("no *.vz.test resolver files installed (expected before DNS setup)"),
        );
    }
    let mut bad: usize = 0;
    let mut i: usize = 0;
    assert(points@.subrange(0, 0) =~= Seq::<bool>::empty());
    while i < n
        invariant
            n == points@.len(),
            i <= n,
            bad == count_false(points@.subrange(0, i as int)),
            bad <= i,
        decreases n - i,
    {
        let ghost pre = points@.subrange(0, i + 1);
        assert(pre.drop_last() =~= points@.subrange(0, i as int));
        if !points[i] {
            bad = bad + 1;
        }
        i = i + 1;
    }
    assert(points@.subrange(0, n as int) =~= points@);
    let p = u64_to_decimal(dns_port as u64);
    let count = u64_to_decimal(n as u64);
    if bad > 0 {
        let b = u64_to_decimal(bad as u64);
        make(
            "dns.resolvers",
            CheckStatus::Warn,
            join3(b.as_str(), " resolver file(s) do not point to 127.0.0.1:", p.as_str()),
        )
    } else if dns_port_free == Some(true) {
        make(
            "dns.resolvers",
            CheckStatus::Warn,
            join4(count.as_str(), " *.vz.test resolver file(s) appear orphaned; DNS port ", p.as_str(), " is free"),
        )
    } else if dns_port_free == Some(false) {
        make(
            "dns.resolvers",
            CheckStatus::Pass,
            join3(count.as_str(), " *.vz.test resolver file(s) point to 127.0.0.1:", p.as_str()),
        )
    } else {
        make(
            "dns.resolvers",
            CheckStatus::Warn,
            cat(count.as_str(), " *.vz.test resolver file(s) are configured, but listener state is unknown"),
        )
    }
}

// ---------------------------------------------------------------- images and certificates

pub open spec fn backend_status_spec(status: Seq<char>) -> CheckStatus {
    if status == "ok"@ {
        CheckStatus::Pass
    } else if status == "fail"@ {
        CheckStatus::Fail
    } else {
        CheckStatus::Warn
    }
}

/// The status of the image backend's own report: `ok` and `fail` as they
/// are, anything else a warning.
pub fn image_backend_status(status: &str) -> (r: CheckStatus)
    ensures
        r == backend_status_spec(status@),
{
    if str_eq(status, "ok") {
        CheckStatus::Pass
    } else if str_eq(status, "fail") {
        CheckStatus::Fail
    } else {
        CheckStatus::Warn
    }
}

pub open spec fn host_trust_spec(present: bool, trusted: bool) -> CheckView {
    if !present {
        finding("certs.host_trust"@, CheckStatus::Pass, "no local CA yet (optional until ingress/OIDC)"@)
    } else if trusted {
        finding("certs.host_trust"@, CheckStatus::Pass, "vzctl Local CA is trusted in the macOS Keychain"@)
    } else {
        finding(
            "certs.host_trust"@,
            CheckStatus::Warn,
            "Local CA exists but is not trusted in the Keychain; browsers show SEC_ERROR_UNKNOWN_ISSUER — run vzctl certs ca install"@,
        )
    }
}

/// Whether the local certificate authority, where there is one, is trusted.
pub fn host_trust_check(present: bool, trusted: bool) -> (r: Check)
    ensures
        r@ == host_trust_spec(present, trusted),
{
    if !present {
        make("certs.host_trust", CheckStatus::Pass, owned("no local CA yet (optional until ingress/OIDC)"))
    } else if trusted {
        make("certs.host_trust", CheckStatus::Pass, owned("vzctl Local CA is trusted in the macOS Keychain"))
    } else {
        make(
            "certs.host_trust",
            CheckStatus::Warn,
            owned(
                "Local CA exists but is not trusted in the Keychain; browsers show SEC_ERROR_UNKNOWN_ISSUER — run vzctl certs ca install",
            ),
        )
    }
}

// ---------------------------------------------------------------- supervisor

/// The supervisor's answer to a health request, as far as the report reads
/// it. A field the answer lacks, or holds in another type, is `None`.
pub struct HealthReply {
    /// `result.ok` is `true`.
    pub ok: bool,
    /// `result.db_ok` is `true`.
    pub db_ok: bool,
    pub network_orphans: Option<u64>,
    pub dns_ok: Option<bool>,
    pub vz_net_ok: Option<bool>,
    pub vz_edge_ok: Option<bool>,
    /// `result.dns.last_error`, where it is a string.
    pub dns_last_error: Option<String>,
    /// `result.version`, where it is a string.
    pub version: Option<String>,
    /// `result.pid` as JSON text.
    pub pid: String,
    /// The whole answer as JSON text.
    pub text: String,
}

/// What asking the supervisor for its health found.
pub enum SupervisorProbe {
    /// Its socket is missing or refuses connections.
    NotRunning,
    /// Connecting failed otherwise; the error as reported.
    Unreachable(String),
    /// A later step failed; what failed and why, as in `health response: ...`.
    Failed(String),
    /// It answered.
    Replied(HealthReply),
}

pub open spec fn opt_or<T>(o: Option<T>, d: T) -> T {
    match o {
        Some(v) => v,
        None => d,
    }
}

pub open spec fn opt_text_or(o: Option<String>, d: Seq<char>) -> Seq<char> {
    match o {
        Some(v) => v@,
        None => d,
    }
}

pub open spec fn reply_spec(h: HealthReply) -> CheckView {
    let id = "supervisor.health"@;
    let orphans = opt_or(h.network_orphans, 0u64);
    if !h.ok || !h.db_ok {
        finding(id, CheckStatus::Fail, "supervisor health is not ok: "@ + h.text@)
    } else if !opt_or(h.vz_net_ok, true) {
        finding(
            id,
            CheckStatus::Warn,
            "supervisor is up, but vz-net is unavailable (net.sock); vmnet acquire will fail until com.vzctl.net is running"@,
        )
    } else if !opt_or(h.vz_edge_ok, true) {
        finding(
            id,
            CheckStatus::Warn,
            "supervisor is up, but vz-edge is unavailable or degraded (edge.sock); DNS, ports and ingress need com.vzctl.edge"@,
        )
    } else if orphans > 0 {
        finding(
            id,
            CheckStatus::Warn,
            "supervisor is healthy, but "@ + decimal(orphans as nat)
                + " vmnet CIDR(s) could not be rebuilt; an unclean vz-net exit may have orphaned reservations until reboot"@,
        )
    } else if !opt_or(h.dns_ok, true) {
        finding(
            id,
            CheckStatus::Warn,
            "supervisor is up, but DNS is degraded ("@ + opt_text_or(h.dns_last_error, "dns degraded"@)
                + "); guest :53 needs: sudo vzctl dns install-bind-helper"@,
        )
    } else {
        finding(
            id,
            CheckStatus::Pass,
            "supervisor "@ + opt_text_or(h.version, "unknown"@) + " (pid "@ + h.pid@ + ", db ok, dns ok)"@,
        )
    }
}

pub open spec fn supervisor_spec(socket: Seq<char>, probe: SupervisorProbe) -> CheckView {
    match probe {
        SupervisorProbe::NotRunning => finding(
            "supervisor.health"@,
            CheckStatus::Warn,
            "supervisor not running ("@ + socket + ")"@,
        ),
        SupervisorProbe::Unreachable(e) => finding(
            "supervisor.health"@,
            CheckStatus::Fail,
            "supervisor socket "@ + socket + ": "@ + e@,
        ),
        SupervisorProbe::Failed(e) => finding("supervisor.health"@, CheckStatus::Fail, "supervisor "@ + e@),
        SupervisorProbe::Replied(h) => reply_spec(h),
    }
}

fn health_of_reply(h: &HealthReply) -> (r: Check)
    ensures
        r@ == reply_spec(*h),
{
    let id = "supervisor.health";
    let orphans: u64 = match h.network_orphans {
        Some(n) => n,
        None => 0,
    };
    let flag = |o: Option<bool>| -> (b: bool)
        ensures
            b == opt_or(o, true),
        {
            match o {
                Some(v) => v,
                None => true,
            }
        };
    if !h.ok || !h.db_ok {
        make(id, CheckStatus::Fail, cat("supervisor health is not ok: ", h.text.as_str()))
    } else if !flag(h.vz_net_ok) {
        make(
            id,
            CheckStatus::Warn,
            owned(
                "supervisor is up, but vz-net is unavailable (net.sock); vmnet acquire will fail until com.vzctl.net is running",
            ),
        )
    } else if !flag(h.vz_edge_ok) {
        make(
            id,
            CheckStatus::Warn,
            owned(
                "supervisor is up, but vz-edge is unavailable or degraded (edge.sock); DNS, ports and ingress need com.vzctl.edge",
            ),
        )
    } else if orphans > 0 {
        let n = u64_to_decimal(orphans);
        make(
            id,
            CheckStatus::Warn,
            join3(
                "supervisor is healthy, but ",
                n.as_str(),
                " vmnet CIDR(s) could not be rebuilt; an unclean vz-net exit may have orphaned reservations until reboot",
            ),
        )
    } else if !flag(h.dns_ok) {
        let last = match &h.dns_last_error {
            Some(e) => e.as_str(),
            None => "dns degraded",
        };
        make(
            id,
            CheckStatus::Warn,
            join3(
                "supervisor is up, but DNS is degraded (",
                last,
                "); guest :53 needs: sudo vzctl dns install-bind-helper",
            ),
        )
    } else {
        let version = match &h.version {
            Some(v) => v.as_str(),
            None => "unknown",
        };
        make(id, CheckStatus::Pass, join5("supervisor ", version, " (pid ", h.pid.as_str(), ", db ok, dns ok)"))
    }
}

/// The health answer a reply of the supervisor gives: `result.ok` and
/// `result.db_ok` exactly `true`, the optional counters and flags where they
/// have their type, `result.dns.last_error` and `result.version` where they
/// are strings, `result.pid` and the whole answer as JSON text.
pub open spec fn health_of(h: HealthReply, v: JsonView) -> bool {
    let res = at(v, "result"@);
    &&& h.ok == (at(res, "ok"@) == JsonView::Bool(true))
    &&& h.db_ok == (at(res, "db_ok"@) == JsonView::Bool(true))
    &&& h.network_orphans == as_u64(at(res, "network_orphans"@))
    &&& h.dns_ok == as_bool(at(res, "dns_ok"@))
    &&& h.vz_net_ok == as_bool(at(res, "vz_net_ok"@))
    &&& h.vz_edge_ok == as_bool(at(res, "vz_edge_ok"@))
    &&& opt_text(h.dns_last_error) == as_str(at(at(res, "dns"@), "last_error"@))
    &&& opt_text(h.version) == as_str(at(res, "version"@))
    &&& h.pid@ == text_of(at(res, "pid"@))
    &&& h.text@ == text_of(v)
}

pub open spec fn opt_text(o: Option<String>) -> Option<Seq<char>> {
    match o {
        Some(s) => Some(s@),
        None => None,
    }
}

/// What the supervisor's answer line to a health request says: its reading
/// where it is JSON, else the parser's complaint.
pub fn health_probe_of(line: &str) -> (r: SupervisorProbe)
    ensures
        match json_of(line@) {
            Ok(v) => r matches SupervisorProbe::Replied(h) && health_of(h, v),
            Err(m) => r matches SupervisorProbe::Failed(e) && e@ == "invalid health JSON: "@ + m,
        },
{
    let value = match parse_json(line) {
        Ok(v) => v,
        Err(m) => return SupervisorProbe::Failed(cat("invalid health JSON: ", m.as_str())),
    };
    let null = Json::Null;
    let res = match get(&value, "result") {
        Some(x) => x,
        None => &null,
    };
    let dns = match get(res, "dns") {
        Some(x) => x,
        None => &null,
    };
    let reply = HealthReply {
        ok: member_is_true(res, "ok"),
        db_ok: member_is_true(res, "db_ok"),
        network_orphans: member_u64(res, "network_orphans"),
        dns_ok: member_bool(res, "dns_ok"),
        vz_net_ok: member_bool(res, "vz_net_ok"),
        vz_edge_ok: member_bool(res, "vz_edge_ok"),
        dns_last_error: member_str(dns, "last_error"),
        version: member_str(res, "version"),
        pid: member_text(res, "pid"),
        text: json_text(&value),
    };
    SupervisorProbe::Replied(reply)
}

/// The supervisor's health as the report states it; `socket` is the path of
/// its socket as shown to the user.
pub fn supervisor_check(socket: &str, probe: &SupervisorProbe) -> (r: Check)
    ensures
        r@ == supervisor_spec(socket@, *probe),
{
    match probe {
        SupervisorProbe::NotRunning => make(
            "supervisor.health",
            CheckStatus::Warn,
            join3("supervisor not running (", socket, ")"),
        ),
        SupervisorProbe::Unreachable(e) => make(
            "supervisor.health",
            CheckStatus::Fail,
            join4("supervisor socket ", socket, ": ", e.as_str()),
        ),
        SupervisorProbe::Failed(e) => make("supervisor.health", CheckStatus::Fail, cat("supervisor ", e.as_str())),
        SupervisorProbe::Replied(h) => health_of_reply(h),
    }
}

// ---------------------------------------------------------------- the report

/// Some finding of the supervisor's health failed.
pub open spec fn supervisor_failed(cs: Seq<CheckView>) -> bool {
    exists|i: int| 0 <= i < cs.len() && #[trigger] cs[i].id == "supervisor.health"@ && cs[i].status == CheckStatus::Fail
}

pub open spec fn exit_code_spec(macos_version: Option<u32>, cs: Seq<CheckView>) -> u8 {
    if opt_or(macos_version, 0u32) < MINIMUM_MACOS_MAJOR {
        EXIT_HOST_UNSUPPORTED
    } else if supervisor_failed(cs) {
        EXIT_SUPERVISOR_UNHEALTHY
    } else {
        0
    }
}

/// The exit code of `vzctl doctor`: an unsupported or unknown macOS release
/// first, then a failed supervisor health check; warnings alone exit 0.
pub fn doctor_exit_code(macos_version: Option<u32>, checks: &[Check]) -> (r: u8)
    ensures
        r == exit_code_spec(macos_version, checks_view(checks@)),
{
    let major: u32 = match macos_version {
        Some(v) => v,
        None => 0,
    };
    if major < MINIMUM_MACOS_MAJOR {
        return EXIT_HOST_UNSUPPORTED;
    }
    let ghost cv = checks_view(checks@);
    let mut i: usize = 0;
    while i < checks.len()
        invariant
            i <= checks@.len(),
            cv == checks_view(checks@),
            opt_or(macos_version, 0u32) >= MINIMUM_MACOS_MAJOR,
            forall|j: int| 0 <= j < i ==> !(#[trigger] cv[j].id == "supervisor.health"@ && cv[j].status == CheckStatus::Fail),
        decreases checks.len() - i,
    {
        let c = &checks[i];
        assert(cv[i as int] == c@);
        if c.status == CheckStatus::Fail && str_eq(c.id.as_str(), "supervisor.health") {
            assert(cv[i as int].id == "supervisor.health"@ && cv[i as int].status == CheckStatus::Fail);
            return EXIT_SUPERVISOR_UNHEALTHY;
        }
        i = i + 1;
    }
    0
}

/// How many findings have status `s`.
pub open spec fn count_status(cs: Seq<CheckView>, s: CheckStatus) -> nat
    decreases cs.len(),
{
    if cs.len() == 0 {
        0
    } else {
        count_status(cs.drop_last(), s) + if cs.last().status == s {
            1nat
        } else {
            0nat
        }
    }
}

/// The tally of a report.
pub struct Summary {
    pub ok: usize,
    pub warnings: usize,
    pub failures: usize,
}

/// Every finding is counted once: as passed, as a warning or as a failure.
pub proof fn law_summary_partitions(cs: Seq<CheckView>)
    ensures
        count_status(cs, CheckStatus::Pass) + count_status(cs, CheckStatus::Warn) + count_status(
            cs,
            CheckStatus::Fail,
        ) == cs.len(),
    decreases cs.len(),
{
    if cs.len() > 0 {
        law_summary_partitions(cs.drop_last());
    }
}

/// Counts the findings by status.
pub fn summarize(checks: &[Check]) -> (r: Summary)
    ensures
        r.ok == count_status(checks_view(checks@), CheckStatus::Pass),
        r.warnings == count_status(checks_view(checks@), CheckStatus::Warn),
        r.failures == count_status(checks_view(checks@), CheckStatus::Fail),
        r.ok + r.warnings + r.failures == checks@.len(),
{
    let ghost cv = checks_view(checks@);
    let mut ok: usize = 0;
    let mut warnings: usize = 0;
    let mut failures: usize = 0;
    let mut i: usize = 0;
    assert(cv.subrange(0, 0) =~= Seq::<CheckView>::empty());
    while i < checks.len()
        invariant
            i <= checks@.len(),
            cv == checks_view(checks@),
            ok == count_status(cv.subrange(0, i as int), CheckStatus::Pass),
            warnings == count_status(cv.subrange(0, i as int), CheckStatus::Warn),
            failures == count_status(cv.subrange(0, i as int), CheckStatus::Fail),
            ok + warnings + failures == i,
        decreases checks.len() - i,
    {
        let ghost pre = cv.subrange(0, i + 1);
        assert(pre.drop_last() =~= cv.subrange(0, i as int));
        assert(pre.last() == checks@[i as int]@);
        match checks[i].status {
            CheckStatus::Pass => ok = ok + 1,
            CheckStatus::Warn => warnings = warnings + 1,
            CheckStatus::Fail => failures = failures + 1,
        }
        i = i + 1;
    }
    assert(cv.subrange(0, checks@.len() as int) =~= cv);
    Summary { ok, warnings, failures }
}

pub open spec fn overall_spec(warnings: nat, failures: nat) -> Seq<char> {
    if failures > 0 {
        "fail"@
    } else if warnings > 0 {
        "warn"@
    } else {
        "ok"@
    }
}

/// The report's overall status: `fail` with a failure, else `warn` with a
/// warning, else `ok`.
pub fn overall_status(summary: &Summary) -> (r: &'static str)
    ensures
        r@ == overall_spec(summary.warnings as nat, summary.failures as nat),
{
    if summary.failures > 0 {
        "fail"
    } else if summary.warnings > 0 {
        "warn"
    } else {
        "ok"
    }
}

pub open spec fn report_line(c: CheckView) -> Seq<char> {
    "  "@ + status_label_text(c.status) + ": "@ + c.message
}

pub open spec fn report_spec(cs: Seq<CheckView>, exit_code: u8) -> Seq<Seq<char>> {
    seq!["vzctl doctor"@] + cs.map_values(|c: CheckView| report_line(c)) + seq![
        "  result: exit "@ + decimal(exit_code as nat),
    ]
}

/// The lines of the human report: a heading, one line per finding, and the
/// exit code.
pub fn human_report(checks: &[Check], exit_code: u8) -> (r: Vec<String>)
    ensures
        strings_view(r@) == report_spec(checks_view(checks@), exit_code),
{
    let ghost cv = checks_view(checks@);
    let mut out: Vec<String> = Vec::new();
    out.push(owned("vzctl doctor"));
    let mut i: usize = 0;
    while i < checks.len()
        invariant
            i <= checks@.len(),
            cv == checks_view(checks@),
            strings_view(out@) == seq!["vzctl doctor"@] + cv.subrange(0, i as int).map_values(
                |c: CheckView| report_line(c),
            ),
        decreases checks.len() - i,
    {
        let c = &checks[i];
        assert(cv[i as int] == c@);
        let line = join4("  ", c.status.label(), ": ", c.message.as_str());
        let ghost before = strings_view(out@);
        out.push(line);
        assert(strings_view(out@) =~= before.push(line@));
        assert(cv.subrange(0, i + 1).map_values(|c: CheckView| report_line(c)) =~= cv.subrange(0, i as int).map_values(
            |c: CheckView| report_line(c),
        ).push(report_line(cv[i as int])));
        i = i + 1;
    }
    assert(cv.subrange(0, checks@.len() as int) =~= cv);
    let code = u64_to_decimal(exit_code as u64);
    let ghost before = strings_view(out@);
    out.push(cat("  result: exit ", code.as_str()));
    assert(strings_view(out@) =~= before.push("  result: exit "@ + decimal(exit_code as nat)));
    out
}

/// The exit code is 0 exactly when macOS is known to be a supported release
/// and no supervisor health check failed; warnings never change it.
pub proof fn law_exit_zero_only_when_ready(macos_version: Option<u32>, cs: Seq<CheckView>)
    ensures
        exit_code_spec(macos_version, cs) == 0 <==> (macos_version matches Some(v) && v >= MINIMUM_MACOS_MAJOR
            && !supervisor_failed(cs)),
        exit_code_spec(macos_version, cs) == EXIT_HOST_UNSUPPORTED <==> !(macos_version matches Some(v) && v
            >= MINIMUM_MACOS_MAJOR),
{
}

/// A finding whose status is not a failure never changes the exit code:
/// adding it to a report leaves the code as it was.
pub proof fn law_non_failures_keep_exit_code(macos_version: Option<u32>, cs: Seq<CheckView>, c: CheckView)
    requires
        c.status != CheckStatus::Fail,
    ensures
        exit_code_spec(macos_version, cs.push(c)) == exit_code_spec(macos_version, cs),
{
    if supervisor_failed(cs.push(c)) {
        let i = choose|i: int|
            0 <= i < cs.push(c).len() && #[trigger] cs.push(c)[i].id == "supervisor.health"@ && cs.push(c)[i].status
                == CheckStatus::Fail;
        assert(i < cs.len());
        assert(cs[i] == cs.push(c)[i]);
    }
    if supervisor_failed(cs) {
        let i = choose|i: int|
            0 <= i < cs.len() && #[trigger] cs[i].id == "supervisor.health"@ && cs[i].status == CheckStatus::Fail;
        assert(cs.push(c)[i] == cs[i]);
    }
}

} // verus!
