//! Stack status: health levels, option reading, event filters and probe targets.
use crate::adopt::RuntimeRecord;
use crate::text::{
    cat, cat3, contains_str, ends_with, lower, owned, parse_unsigned, parse_unsigned_spec, slice, split_char,
    split_spec, starts_with, str_contains, str_eq, str_ends_with, str_starts_with, strings_view, to_lower, trim,
    trim_spec,
};
use vstd::prelude::*;

verus! {

pub const EXIT_USAGE: u8 = 2;
pub const EXIT_INVALID: u8 = 3;
pub const EXIT_DEGRADED: u8 = 1;
pub const EXIT_CRITICAL: u8 = 2;

#[derive(Clone, Copy, Debug, PartialEq, Eq, Structural)]
pub enum Format {
    Human,
    Json,
}

/// The health of a stack, from good to bad.
#[derive(Clone, Copy, Debug, PartialEq, Eq, Structural)]
pub enum Health {
    Healthy,
    Degraded,
    Critical,
}

pub open spec fn rank(h: Health) -> nat {
    match h {
        Health::Healthy => 0,
        Health::Degraded => 1,
        Health::Critical => 2,
    }
}

/// The worse of two health levels.
pub open spec fn worse(a: Health, b: Health) -> Health {
    if rank(b) > rank(a) {
        b
    } else {
        a
    }
}

impl Health {
    /// The name of the level.
    pub fn as_str(self) -> (r: &'static str)
        ensures
            r@ == match self {
                Health::Healthy => "ok"@,
                Health::Degraded => "degraded"@,
                Health::Critical => "critical"@,
            },
    {
        match self {
            Health::Healthy => "ok",
            Health::Degraded => "degraded",
            Health::Critical => "critical",
        }
    }

    /// The exit code of a status report at this level.
    pub fn exit(self) -> (r: u8)
        ensures
            r == match self {
                Health::Healthy => 0u8,
                Health::Degraded => EXIT_DEGRADED,
                Health::Critical => EXIT_CRITICAL,
            },
    {
        match self {
            Health::Healthy => 0,
            Health::Degraded => EXIT_DEGRADED,
            Health::Critical => EXIT_CRITICAL,
        }
    }

    /// Raises the level to `other` if that is worse; a level never goes down.
    pub fn raise(&mut self, other: Health)
        ensures
            *final(self) == worse(*old(self), other),
    {
        let mine: u8 = match *self {
            Health::Healthy => 0,
            Health::Degraded => 1,
            Health::Critical => 2,
        };
        let theirs: u8 = match other {
            Health::Healthy => 0,
            Health::Degraded => 1,
            Health::Critical => 2,
        };
        if theirs > mine {
            *self = other;
        }
    }
}

/// Raising is taking the worse level: the result is at least as bad as both
/// levels, is one of them, and the order of raises does not matter.
pub proof fn law_raise_is_worst(a: Health, b: Health, c: Health)
    ensures
        rank(worse(a, b)) >= rank(a),
        rank(worse(a, b)) >= rank(b),
        worse(a, b) == a || worse(a, b) == b,
        worse(worse(a, b), c) == worse(worse(a, c), b),
        worse(a, a) == a,
{
}

/// A filter pattern: a trailing `*` matches by prefix, anything else exactly.
pub open spec fn pattern_matches(pattern: Seq<char>, event: Seq<char>) -> bool {
    if pattern.len() > 0 && pattern.last() == '*' {
        starts_with(event, pattern.drop_last())
    } else {
        event == pattern
    }
}

/// A piece of a filter list matches once trimmed.
pub open spec fn piece_matches(piece: Seq<char>, event: Seq<char>) -> bool {
    pattern_matches(trim_spec(piece), event)
}

/// No filter lets every event through; a filter is a comma-separated list of
/// patterns, each trimmed, and an event passes if one of them matches.
pub open spec fn watch_match_spec(filter: Option<Seq<char>>, event: Seq<char>) -> bool {
    match filter {
        None => true,
        Some(f) => list_matches(split_spec(f, ','), event),
    }
}

/// One of the pieces matches.
pub open spec fn list_matches(pieces: Seq<Seq<char>>, event: Seq<char>) -> bool {
    exists|i: int| 0 <= i < pieces.len() && #[trigger] piece_matches(pieces[i], event)
}

fn pattern_matches_exec(pattern: &str, event: &str) -> (r: bool)
    ensures
        r == pattern_matches(pattern@, event@),
{
    let n = pattern.unicode_len();
    if n > 0 && str_ends_with(pattern, "*") {
        proof {
            reveal_strlit("*");
            assert(pattern@.subrange(n - 1, n as int) =~= seq!['*']);
            assert(pattern@.last() == pattern@.subrange(n - 1, n as int)[0]);
        }
        let prefix = slice(pattern, 0, n - 1);
        assert(prefix@ =~= pattern@.drop_last());
        str_starts_with(event, prefix.as_str())
    } else {
        proof {
            reveal_strlit("*");
            if n > 0 && pattern@.last() == '*' {
                assert(pattern@.subrange(n - 1, n as int) =~= "*"@);
            }
        }
        str_eq(event, pattern)
    }
}

/// Whether an event type passes a watch filter.
pub fn watch_match(filter: Option<&str>, event_type: &str) -> (r: bool)
    ensures
        r == watch_match_spec(
            match filter {
                Some(f) => Some(f@),
                None => None,
            },
            event_type@,
        ),
{
    let f = match filter {
        Some(f) => f,
        None => return true,
    };
    let pieces = split_char(f, ',');
    let ghost pv = split_spec(f@, ',');
    let mut i: usize = 0;
    while i < pieces.len()
        invariant
            i <= pieces@.len(),
            strings_view(pieces@) == pv,
            pv == split_spec(f@, ','),
            filter == Some(f),
            forall|j: int| 0 <= j < i ==> !#[trigger] piece_matches(pv[j], event_type@),
        decreases pieces.len() - i,
    {
        let pattern = trim(pieces[i].as_str());
        assert(pieces@[i as int]@ == pv[i as int]);
        assert(pattern@ == trim_spec(pv[i as int]));
        let hit = pattern_matches_exec(pattern.as_str(), event_type);
        assert(hit == piece_matches(pv[i as int], event_type@));
        if hit {
            assert(list_matches(pv, event_type@));
            return true;
        }
        i = i + 1;
    }
    false
}

/// The host and port a probe URL connects to: the scheme and everything
/// from the first `/`, `?` or `#` on are dropped, and a missing port is
/// that of the scheme.
pub open spec fn after_scheme(url: Seq<char>) -> Seq<char> {
    if starts_with(url, "https://"@) {
        url.subrange(8, url.len() as int)
    } else if starts_with(url, "http://"@) {
        url.subrange(7, url.len() as int)
    } else {
        url
    }
}

pub open spec fn is_url_delim(c: char) -> bool {
    c == '/' || c == '?' || c == '#'
}

/// The characters of `s` before its first `/`, `?` or `#`.
pub open spec fn host_part(s: Seq<char>) -> Seq<char>
    decreases s.len(),
{
    if s.len() == 0 || is_url_delim(s[0]) {
        Seq::empty()
    } else {
        seq![s[0]] + host_part(s.subrange(1, s.len() as int))
    }
}

pub open spec fn socket_target_spec(url: Seq<char>) -> Seq<char> {
    let hostport = host_part(after_scheme(url));
    if hostport.contains(':') {
        hostport
    } else if starts_with(url, "https://"@) {
        hostport + ":443"@
    } else {
        hostport + ":80"@
    }
}

proof fn lemma_host_part_prefix(s: Seq<char>, i: int)
    requires
        0 <= i <= s.len(),
        forall|j: int| 0 <= j < i ==> !is_url_delim(#[trigger] s[j]),
        i == s.len() || is_url_delim(s[i]),
    ensures
        host_part(s) == s.subrange(0, i),
    decreases i,
{
    if i > 0 {
        let t = s.subrange(1, s.len() as int);
        assert forall|j: int| 0 <= j < i - 1 implies !is_url_delim(#[trigger] t[j]) by {
            assert(t[j] == s[j + 1]);
        }
        if i < s.len() {
            assert(t[i - 1] == s[i]);
        }
        lemma_host_part_prefix(t, i - 1);
        assert(seq![s[0]] + t.subrange(0, i - 1) =~= s.subrange(0, i));
    } else {
        assert(s.subrange(0, 0) =~= Seq::<char>::empty());
    }
}

fn url_delim(c: char) -> (r: bool)
    ensures
        r == is_url_delim(c),
{
    c == '/' || c == '?' || c == '#'
}

/// The `host:port` that a probe of `url` connects to.
pub fn http_socket_target(url: &str) -> (r: String)
    ensures
        r@ == socket_target_spec(url@),
{
    let n = url.unicode_len();
    let https = str_starts_with(url, "https://");
    proof {
        reveal_strlit("https://");
        reveal_strlit("http://");
    }
    let rest = if https {
        slice(url, 8, n)
    } else if str_starts_with(url, "http://") {
        slice(url, 7, n)
    } else {
        owned(url)
    };
    let m = rest.unicode_len();
    let mut i: usize = 0;
    while i < m && !url_delim(rest.as_str().get_char(i))
        invariant
            m == rest@.len(),
            i <= m,
            forall|j: int| 0 <= j < i ==> !is_url_delim(#[trigger] rest@[j]),
        decreases m - i,
    {
        i = i + 1;
    }
    proof {
        lemma_host_part_prefix(rest@, i as int);
    }
    let hostport = slice(rest.as_str(), 0, i);
    if crate::text::contains_char(hostport.as_str(), ':') {
        hostport
    } else if https {
        cat(hostport.as_str(), ":443")
    } else {
        cat(hostport.as_str(), ":80")
    }
}

/// What `stack status` was asked for.
pub struct StatusOptions {
    pub directory: String,
    pub format: Format,
    pub verbose: bool,
}

/// The options of the arguments from `i` on, given what was read before.
pub open spec fn scan_status(
    args: Seq<Seq<char>>,
    i: int,
    dir: Seq<char>,
    format: Format,
    verbose: bool,
) -> Result<(Seq<char>, Format, bool), (Seq<char>, u8)>
    decreases args.len() - i,
{
    if i >= args.len() || i < 0 {
        Ok((dir, format, verbose))
    } else {
        let a = args[i];
        if a == "-C"@ || a == "--config"@ {
            if i + 1 < args.len() {
                scan_status(args, i + 2, args[i + 1], format, verbose)
            } else {
                Err(("-C requires a path"@, EXIT_USAGE))
            }
        } else if a == "--format"@ {
            if i + 1 < args.len() {
                let v = args[i + 1];
                if v == "human"@ {
                    scan_status(args, i + 2, dir, Format::Human, verbose)
                } else if v == "json"@ {
                    scan_status(args, i + 2, dir, Format::Json, verbose)
                } else {
                    Err(("unsupported stack status format: "@ + v, EXIT_USAGE))
                }
            } else {
                Err(("--format requires human or json"@, EXIT_USAGE))
            }
        } else if a == "--verbose"@ {
            scan_status(args, i + 1, dir, format, true)
        } else if a == "-h"@ || a == "--help"@ {
            Err(("usage: vzctl stack status [-C dir] [--format human|json] [--verbose]"@, EXIT_USAGE))
        } else {
            Err(("unknown stack status option: "@ + a, EXIT_USAGE))
        }
    }
}

/// Reads the options of `stack status`.
pub fn parse_status(args: &[String]) -> (r: Result<StatusOptions, (String, u8)>)
    ensures
        match scan_status(strings_view(args@), 0, "."@, Format::Human, false) {
            Ok((d, f, v)) => r matches Ok(o) && o.directory@ == d && o.format == f && o.verbose == v,
            Err((m, c)) => r matches Err(e) && e.0@ == m && e.1 == c,
        },
{
    let ghost av = strings_view(args@);
    let mut directory = owned(".");
    let mut format = Format::Human;
    let mut verbose = false;
    let mut i: usize = 0;
    while i < args.len()
        invariant
            i <= args@.len(),
            av == strings_view(args@),
            scan_status(av, 0, "."@, Format::Human, false) == scan_status(av, i as int, directory@, format, verbose),
        decreases args.len() - i,
    {
        let a = args[i].as_str();
        assert(a@ == av[i as int]);
        if str_eq(a, "-C") || str_eq(a, "--config") {
            if i + 1 >= args.len() {
                return Err((owned("-C requires a path"), EXIT_USAGE));
            }
            directory = args[i + 1].clone();
            assert(directory@ == av[i + 1]);
            i = i + 2;
        } else if str_eq(a, "--format") {
            if i + 1 >= args.len() {
                return Err((owned("--format requires human or json"), EXIT_USAGE));
            }
            let v = args[i + 1].as_str();
            assert(v@ == av[i + 1]);
            if str_eq(v, "human") {
                format = Format::Human;
            } else if str_eq(v, "json") {
                format = Format::Json;
            } else {
                return Err((cat("unsupported stack status format: ", v), EXIT_USAGE));
            }
            i = i + 2;
        } else if str_eq(a, "--verbose") {
            verbose = true;
            i = i + 1;
        } else if str_eq(a, "-h") || str_eq(a, "--help") {
            return Err((owned("usage: vzctl stack status [-C dir] [--format human|json] [--verbose]"), EXIT_USAGE));
        } else {
            return Err((cat("unknown stack status option: ", a), EXIT_USAGE));
        }
    }
    Ok(StatusOptions { directory, format, verbose })
}

// ---------------------------------------------------------------- DNS sections

/// A listener that serves the host's resolver.
pub open spec fn host_listener(v: Seq<char>) -> bool {
    contains_str(v, "127.0.0.1:"@) || ends_with(v, ":15353"@)
}

/// A listener that serves guests on the bridge.
pub open spec fn bridge_listener(v: Seq<char>) -> bool {
    contains_str(v, ":53"@) && !contains_str(v, ":15353"@)
}

pub open spec fn listener_fits(o: Option<String>, host: bool) -> bool {
    match o {
        Some(v) => if host {
            host_listener(v@)
        } else {
            bridge_listener(v@)
        },
        None => false,
    }
}

pub open spec fn some_listener(ls: Seq<Option<String>>, host: bool) -> bool {
    exists|i: int| 0 <= i < ls.len() && #[trigger] listener_fits(ls[i], host)
}

/// The DNS part of a status report, split by audience.
pub struct DnsSections {
    /// The host resolver answers on 127.0.0.1.
    pub host_ok: bool,
    /// Some listener serves guests on port 53.
    pub bridge_ok: bool,
    /// The upstream resolver's name, where the supervisor gave one.
    pub upstream_name: Option<String>,
}

fn any_listener(listeners: &[Option<String>], host: bool) -> (r: bool)
    ensures
        r == some_listener(listeners@, host),
{
    let mut i: usize = 0;
    while i < listeners.len()
        invariant
            i <= listeners@.len(),
            forall|j: int| 0 <= j < i ==> !#[trigger] listener_fits(listeners@[j], host),
        decreases listeners.len() - i,
    {
        match &listeners[i] {
            Some(v) => {
                let hit = if host {
                    str_contains(v.as_str(), "127.0.0.1:") || str_ends_with(v.as_str(), ":15353")
                } else {
                    str_contains(v.as_str(), ":53") && !str_contains(v.as_str(), ":15353")
                };
                if hit {
                    assert(listener_fits(listeners@[i as int], host));
                    return true;
                }
            },
            None => {},
        }
        i = i + 1;
    }
    false
}

/// Splits the supervisor's DNS state for the status report. `listeners` are
/// the listener entries, `None` where an entry is not text; `ok` is the
/// supervisor's own verdict and `upstream` the upstream's name, where given.
pub fn dns_sections(listeners: &[Option<String>], ok: Option<bool>, upstream: Option<String>) -> (r: DnsSections)
    ensures
        r.host_ok == (some_listener(listeners@, true) && ok != Some(false)),
        r.bridge_ok == some_listener(listeners@, false),
        r.upstream_name == upstream,
{
    let host = any_listener(listeners, true);
    let host_ok = host && !matches!(ok, Some(false));
    let bridge_ok = any_listener(listeners, false);
    DnsSections { host_ok, bridge_ok, upstream_name: upstream }
}

// ---------------------------------------------------------------- warnings of a status report

pub const DNS_GUEST_PROBE_FAIL: &'static str = "DNS_GUEST_PROBE_FAIL";
pub const DNS_HOST_PROBE_FAIL: &'static str = "DNS_HOST_PROBE_FAIL";
pub const AGENT_DEGRADED: &'static str = "AGENT_DEGRADED";
pub const AGENT_EXEC_TIMEOUT: &'static str = "AGENT_EXEC_TIMEOUT";
pub const VM_NOT_RUNNING: &'static str = "VM_NOT_RUNNING";
pub const AGENT_NOT_READY: &'static str = "AGENT_NOT_READY";
pub const ROUTE_STATUS_AMBIGUOUS: &'static str = "ROUTE_STATUS_AMBIGUOUS";
pub const INGRESS_UNREACHABLE: &'static str = "INGRESS_UNREACHABLE";
pub const MOUNT_MISSING: &'static str = "MOUNT_MISSING";

/// A problem a status report names: its code, how bad it is, what it says,
/// the VM it is about and what to do.
pub struct Warning {
    pub code: &'static str,
    pub severity: Health,
    pub message: String,
    pub vm_id: Option<String>,
    pub hint: String,
}

pub struct WarningView {
    pub code: Seq<char>,
    pub severity: Health,
    pub message: Seq<char>,
    pub vm_id: Option<Seq<char>>,
    pub hint: Seq<char>,
}

impl View for Warning {
    type V = WarningView;

    open spec fn view(&self) -> WarningView {
        WarningView {
            code: self.code@,
            severity: self.severity,
            message: self.message@,
            vm_id: match self.vm_id {
                Some(v) => Some(v@),
                None => None,
            },
            hint: self.hint@,
        }
    }
}

pub open spec fn warnings_view(ws: Seq<Warning>) -> Seq<WarningView> {
    ws.map_values(|w: Warning| w@)
}

pub open spec fn warning_of(
    code: Seq<char>,
    severity: Health,
    message: Seq<char>,
    vm_id: Option<Seq<char>>,
    hint: Seq<char>,
) -> WarningView {
    WarningView { code, severity, message, vm_id, hint }
}

/// Records a warning and raises the report's health to its severity.
pub fn push_warning(
    warnings: &mut Vec<Warning>,
    health: &mut Health,
    code: &'static str,
    severity: Health,
    message: String,
    vm_id: Option<String>,
    hint: &str,
)
    ensures
        warnings_view(final(warnings)@) == warnings_view(old(warnings)@).push(
            warning_of(
                code@,
                severity,
                message@,
                match vm_id {
                    Some(v) => Some(v@),
                    None => None,
                },
                hint@,
            ),
        ),
        *final(health) == worse(*old(health), severity),
{
    let w = Warning { code, severity, message, vm_id, hint: owned(hint) };
    let ghost before = warnings_view(warnings@);
    let ghost wv = w@;
    warnings.push(w);
    assert(warnings_view(warnings@) =~= before.push(wv));
    health.raise(severity);
}

/// The state the supervisor gives a VM: that of its first record, where
/// the record has one, else `stopped`.
pub open spec fn vm_state_spec(records: Seq<RuntimeRecord>, vm_id: Seq<char>) -> Seq<char>
    decreases records.len(),
{
    if records.len() == 0 {
        "stopped"@
    } else if records[0].vm_id matches Some(id) && id@ == vm_id {
        match records[0].state {
            Some(s) => s@,
            None => "stopped"@,
        }
    } else {
        vm_state_spec(records.drop_first(), vm_id)
    }
}

/// The state of the VM `vm_id` among the supervisor's records.
pub fn vm_state(records: &[RuntimeRecord], vm_id: &str) -> (r: String)
    ensures
        r@ == vm_state_spec(records@, vm_id@),
{
    let mut i: usize = 0;
    assert(records@.skip(0) =~= records@);
    while i < records.len()
        invariant
            i <= records@.len(),
            vm_state_spec(records@, vm_id@) == vm_state_spec(records@.skip(i as int), vm_id@),
        decreases records.len() - i,
    {
        assert(records@.skip(i as int)[0] == records@[i as int]);
        assert(records@.skip(i as int).drop_first() =~= records@.skip(i + 1));
        let r = &records[i];
        let hit = match &r.vm_id {
            Some(id) => str_eq(id.as_str(), vm_id),
            None => false,
        };
        if hit {
            return match &r.state {
                Some(s) => s.clone(),
                None => owned("stopped"),
            };
        }
        i = i + 1;
    }
    owned("stopped")
}

/// A VM that is not running is critical.
pub fn note_vm_state(warnings: &mut Vec<Warning>, health: &mut Health, vm_id: &str, state: &str)
    ensures
        state@ == "running"@ ==> warnings_view(final(warnings)@) == warnings_view(old(warnings)@) && *final(health)
            == *old(health),
        state@ != "running"@ ==> warnings_view(final(warnings)@) == warnings_view(old(warnings)@).push(
            warning_of(
                VM_NOT_RUNNING@,
                Health::Critical,
                vm_id@ + " is "@ + state@,
                Some(vm_id@),
                "vzctl vm start "@ + vm_id@,
            ),
        ) && *final(health) == worse(*old(health), Health::Critical),
{
    if !str_eq(state, "running") {
        push_warning(
            warnings,
            health,
            VM_NOT_RUNNING,
            Health::Critical,
            cat3(vm_id, " is ", state),
            Some(owned(vm_id)),
            cat("vzctl vm start ", vm_id).as_str(),
        );
    }
}

/// What asking a VM's agent for its health gave.
pub enum AgentReply {
    /// An answer, with its `status` where that is text.
    Answered(Option<String>),
    /// No answer; the error as reported.
    Failed(String),
}

/// The status an agent answered with: `unknown` where it gave none.
pub open spec fn agent_status(s: Option<String>) -> Seq<char> {
    match s {
        Some(t) => t@,
        None => "unknown"@,
    }
}

/// The agent is ready: it answered with a status other than `down`.
pub open spec fn agent_ready_spec(reply: AgentReply) -> bool {
    match reply {
        AgentReply::Answered(s) => agent_status(s) != "down"@,
        AgentReply::Failed(_) => false,
    }
}

/// The warning an agent's reply calls for, where it calls for one.
pub open spec fn agent_warning(vm_id: Seq<char>, reply: AgentReply) -> Option<WarningView> {
    match reply {
        AgentReply::Answered(s) => {
            let status = agent_status(s);
            if status == "ok"@ {
                None
            } else if status == "degraded"@ {
                Some(
                    warning_of(
                        AGENT_DEGRADED@,
                        Health::Degraded,
                        vm_id + " agent is degraded"@,
                        Some(vm_id),
                        "check vm stats / exec backlog; vzctl vm agent upgrade"@,
                    ),
                )
            } else {
                Some(
                    warning_of(
                        AGENT_NOT_READY@,
                        Health::Critical,
                        vm_id + " agent health is "@ + status,
                        Some(vm_id),
                        "vzctl vm inspect "@ + vm_id,
                    ),
                )
            }
        },
        AgentReply::Failed(e) => if contains_str(lower(e@), "timeout"@) {
            Some(
                warning_of(
                    AGENT_EXEC_TIMEOUT@,
                    Health::Degraded,
                    vm_id + " agent RPC timed out"@,
                    Some(vm_id),
                    "vzctl vm stats; inspect exec backlog"@,
                ),
            )
        } else {
            Some(
                warning_of(
                    AGENT_NOT_READY@,
                    Health::Critical,
                    vm_id + " agent unavailable: "@ + e@,
                    Some(vm_id),
                    "vzctl vm inspect "@ + vm_id,
                ),
            )
        },
    }
}

/// What the agent's reply adds to the report: a warning where it calls for
/// one, with the health raised to match. Returns whether the agent is ready.
pub fn note_agent_reply(warnings: &mut Vec<Warning>, health: &mut Health, vm_id: &str, reply: &AgentReply) -> (r: bool)
    ensures
        r == agent_ready_spec(*reply),
        match agent_warning(vm_id@, *reply) {
            Some(w) => warnings_view(final(warnings)@) == warnings_view(old(warnings)@).push(w) && *final(health)
                == worse(*old(health), w.severity),
            None => warnings_view(final(warnings)@) == warnings_view(old(warnings)@) && *final(health) == *old(
                health,
            ),
        },
{
    match reply {
        AgentReply::Answered(s) => {
            let status = match s {
                Some(t) => t.as_str(),
                None => "unknown",
            };
            if str_eq(status, "ok") {
            } else if str_eq(status, "degraded") {
                push_warning(
                    warnings,
                    health,
                    AGENT_DEGRADED,
                    Health::Degraded,
                    cat(vm_id, " agent is degraded"),
                    Some(owned(vm_id)),
                    "check vm stats / exec backlog; vzctl vm agent upgrade",
                );
            } else {
                push_warning(
                    warnings,
                    health,
                    AGENT_NOT_READY,
                    Health::Critical,
                    cat3(vm_id, " agent health is ", status),
                    Some(owned(vm_id)),
                    cat("vzctl vm inspect ", vm_id).as_str(),
                );
            }
            !str_eq(status, "down")
        },
        AgentReply::Failed(e) => {
            let lowered = to_lower(e.as_str());
            if str_contains(lowered.as_str(), "timeout") {
                push_warning(
                    warnings,
                    health,
                    AGENT_EXEC_TIMEOUT,
                    Health::Degraded,
                    cat(vm_id, " agent RPC timed out"),
                    Some(owned(vm_id)),
                    "vzctl vm stats; inspect exec backlog",
                );
            } else {
                push_warning(
                    warnings,
                    health,
                    AGENT_NOT_READY,
                    Health::Critical,
                    cat3(vm_id, " agent unavailable: ", e.as_str()),
                    Some(owned(vm_id)),
                    cat("vzctl vm inspect ", vm_id).as_str(),
                );
            }
            false
        },
    }
}

/// Fewer virtiofs mounts than declared are present: a degraded VM.
pub fn note_mounts(warnings: &mut Vec<Warning>, health: &mut Health, vm_id: &str, present: usize, declared: usize)
    ensures
        present >= declared ==> warnings_view(final(warnings)@) == warnings_view(old(warnings)@) && *final(health)
            == *old(health),
        present < declared ==> warnings_view(final(warnings)@) == warnings_view(old(warnings)@).push(
            warning_of(
                MOUNT_MISSING@,
                Health::Degraded,
                vm_id@ + " is missing virtiofs mounts"@,
                Some(vm_id@),
                "vzctl vm mounts "@ + vm_id@,
            ),
        ) && *final(health) == worse(*old(health), Health::Degraded),
{
    if present < declared {
        push_warning(
            warnings,
            health,
            MOUNT_MISSING,
            Health::Degraded,
            cat(vm_id, " is missing virtiofs mounts"),
            Some(owned(vm_id)),
            cat("vzctl vm mounts ", vm_id).as_str(),
        );
    }
}

/// A peer probe whose name lookup failed while its address answered points
/// at the guest's resolver.
pub fn note_dns_split(
    warnings: &mut Vec<Warning>,
    health: &mut Health,
    vm_id: &str,
    fqdn: &str,
    ip: &str,
    dns_ok: bool,
    ip_ok: bool,
)
    ensures
        !(!dns_ok && ip_ok) ==> warnings_view(final(warnings)@) == warnings_view(old(warnings)@) && *final(health)
            == *old(health),
        !dns_ok && ip_ok ==> warnings_view(final(warnings)@) == warnings_view(old(warnings)@).push(
            warning_of(
                DNS_GUEST_PROBE_FAIL@,
                Health::Degraded,
                vm_id@ + " DNS probe to "@ + fqdn@ + " failed; IP "@ + ip@ + " ok"@,
                Some(vm_id@),
                "check guest nameserver .0:53 and vzctl dns status"@,
            ),
        ) && *final(health) == worse(*old(health), Health::Degraded),
{
    if !dns_ok && ip_ok {
        let mut message = cat3(vm_id, " DNS probe to ", fqdn);
        message.append(" failed; IP ");
        message.append(ip);
        message.append(" ok");
        push_warning(
            warnings,
            health,
            DNS_GUEST_PROBE_FAIL,
            Health::Degraded,
            message,
            Some(owned(vm_id)),
            "check guest nameserver .0:53 and vzctl dns status",
        );
    }
}

/// A router that is inactive or has no allow rules leaves the routing
/// state ambiguous.
pub fn note_router(
    warnings: &mut Vec<Warning>,
    health: &mut Health,
    vm_id: Option<String>,
    active: bool,
    rules: usize,
)
    ensures
        active && rules > 0 ==> warnings_view(final(warnings)@) == warnings_view(old(warnings)@) && *final(health)
            == *old(health),
        !(active && rules > 0) ==> warnings_view(final(warnings)@) == warnings_view(old(warnings)@).push(
            warning_of(
                ROUTE_STATUS_AMBIGUOUS@,
                Health::Degraded,
                "route status has no extra allow rules; policy-drop may still be active"@,
                match vm_id {
                    Some(v) => Some(v@),
                    None => None,
                },
                "empty allow-list is valid for deny-all; use route status --format json"@,
            ),
        ) && *final(health) == worse(*old(health), Health::Degraded),
{
    if !active || rules == 0 {
        push_warning(
            warnings,
            health,
            ROUTE_STATUS_AMBIGUOUS,
            Health::Degraded,
            owned("route status has no extra allow rules; policy-drop may still be active"),
            vm_id,
            "empty allow-list is valid for deny-all; use route status --format json",
        );
    }
}

/// An ingress the host cannot reach is degraded; `bind` is its address and
/// port as `host:port`.
pub fn note_ingress(warnings: &mut Vec<Warning>, health: &mut Health, bind: &str, reachable: bool)
    ensures
        reachable ==> warnings_view(final(warnings)@) == warnings_view(old(warnings)@) && *final(health) == *old(
            health,
        ),
        !reachable ==> warnings_view(final(warnings)@) == warnings_view(old(warnings)@).push(
            warning_of(
                INGRESS_UNREACHABLE@,
                Health::Degraded,
                "host cannot reach ingress "@ + bind@,
                None,
                "vzctl services status; check spec.ingress.bind"@,
            ),
        ) && *final(health) == worse(*old(health), Health::Degraded),
{
    if !reachable {
        push_warning(
            warnings,
            health,
            INGRESS_UNREACHABLE,
            Health::Degraded,
            cat("host cannot reach ingress ", bind),
            None,
            "vzctl services status; check spec.ingress.bind",
        );
    }
}

/// An attachment of a VM to a network as the supervisor lists it.
pub struct AttachmentRecord {
    pub vm_id: Option<String>,
    pub ip: Option<String>,
}

/// The addresses of the VM's attachments, in order.
pub open spec fn ips_spec(records: Seq<AttachmentRecord>, vm_id: Seq<char>) -> Seq<Seq<char>>
    decreases records.len(),
{
    if records.len() == 0 {
        Seq::empty()
    } else {
        let prev = ips_spec(records.drop_last(), vm_id);
        let r = records.last();
        if r.vm_id matches Some(v) && v@ == vm_id {
            match r.ip {
                Some(ip) => prev.push(ip@),
                None => prev,
            }
        } else {
            prev
        }
    }
}

/// The IP addresses the VM `vm_id` has on its networks.
pub fn attachment_ips(records: &[AttachmentRecord], vm_id: &str) -> (r: Vec<String>)
    ensures
        strings_view(r@) == ips_spec(records@, vm_id@),
{
    let mut out: Vec<String> = Vec::new();
    let mut i: usize = 0;
    assert(records@.subrange(0, 0) =~= Seq::<AttachmentRecord>::empty());
    while i < records.len()
        invariant
            i <= records@.len(),
            strings_view(out@) == ips_spec(records@.subrange(0, i as int), vm_id@),
        decreases records.len() - i,
    {
        let ghost pre = records@.subrange(0, i + 1);
        assert(pre.drop_last() =~= records@.subrange(0, i as int));
        assert(pre.last() == records@[i as int]);
        let r = &records[i];
        let mine = match &r.vm_id {
            Some(v) => str_eq(v.as_str(), vm_id),
            None => false,
        };
        if mine {
            match &r.ip {
                Some(ip) => {
                    let ghost before = strings_view(out@);
                    out.push(ip.clone());
                    assert(strings_view(out@) =~= before.push(ip@));
                },
                None => {},
            }
        }
        i = i + 1;
    }
    assert(records@.subrange(0, records@.len() as int) =~= records@);
    out
}

/// The worst severity among the warnings; a report without warnings is healthy.
pub open spec fn worst_severity(ws: Seq<WarningView>) -> Health
    decreases ws.len(),
{
    if ws.len() == 0 {
        Health::Healthy
    } else {
        worse(worst_severity(ws.drop_last()), ws.last().severity)
    }
}

/// A report that starts healthy and records its warnings with
/// `push_warning` ends at the worst severity among them: every warning's
/// severity is covered, and the level is that of some warning, or healthy
/// where there is none.
pub proof fn law_health_is_worst_warning(ws: Seq<WarningView>, w: WarningView)
    ensures
        worst_severity(ws.push(w)) == worse(worst_severity(ws), w.severity),
        forall|i: int| 0 <= i < ws.len() ==> rank(worst_severity(ws)) >= rank(#[trigger] ws[i].severity),
        worst_severity(ws) == Health::Healthy || exists|i: int|
            0 <= i < ws.len() && #[trigger] ws[i].severity == worst_severity(ws),
    decreases ws.len(),
{
    assert(ws.push(w).drop_last() =~= ws);
    if ws.len() > 0 {
        let prev = ws.drop_last();
        law_health_is_worst_warning(prev, ws.last());
        assert forall|i: int| 0 <= i < ws.len() implies rank(worst_severity(ws)) >= rank(#[trigger] ws[i].severity) by {
            if i < ws.len() - 1 {
                assert(ws[i] == prev[i]);
            }
        }
        if worst_severity(ws) != Health::Healthy {
            if worst_severity(ws) == ws.last().severity {
                assert(ws[ws.len() - 1].severity == worst_severity(ws));
            } else {
                assert(worst_severity(ws) == worst_severity(prev));
                let k = choose|k: int| 0 <= k < prev.len() && #[trigger] prev[k].severity == worst_severity(prev);
                assert(ws[k] == prev[k]);
            }
        }
    }
}

// ---------------------------------------------------------------- watching a stack

/// What `stack watch` was asked for.
#[derive(Debug)]
pub struct WatchOptions {
    pub directory: String,
    pub filter: Option<String>,
    /// Seconds between status reports.
    pub interval: u64,
}

/// The options of the arguments from `i` on, given what was read before.
pub open spec fn scan_watch(
    args: Seq<Seq<char>>,
    i: int,
    dir: Seq<char>,
    filter: Option<Seq<char>>,
    interval: u64,
) -> Result<(Seq<char>, Option<Seq<char>>, u64), (Seq<char>, u8)>
    decreases args.len() - i,
{
    if i >= args.len() || i < 0 {
        Ok((dir, filter, interval))
    } else {
        let a = args[i];
        if a == "-C"@ || a == "--config"@ {
            if i + 1 < args.len() {
                scan_watch(args, i + 2, args[i + 1], filter, interval)
            } else {
                Err(("-C requires a path"@, EXIT_USAGE))
            }
        } else if a == "--filter"@ {
            if i + 1 < args.len() {
                scan_watch(args, i + 2, dir, Some(args[i + 1]), interval)
            } else {
                Err(("--filter requires a glob"@, EXIT_USAGE))
            }
        } else if a == "--interval"@ {
            if i + 1 < args.len() {
                match parse_unsigned_spec(args[i + 1], u64::MAX as nat) {
                    Some(n) => if n > 0 {
                        scan_watch(args, i + 2, dir, filter, n as u64)
                    } else {
                        Err(("--interval must be a positive integer"@, EXIT_INVALID))
                    },
                    None => Err(("--interval must be a positive integer"@, EXIT_INVALID)),
                }
            } else {
                Err(("--interval requires seconds"@, EXIT_USAGE))
            }
        } else if a == "-h"@ || a == "--help"@ {
            Err(("usage: vzctl stack watch [-C dir] [--filter glob] [--interval sec]"@, EXIT_USAGE))
        } else {
            Err(("unknown stack watch option: "@ + a, EXIT_USAGE))
        }
    }
}

/// Reads the options of `stack watch`: the configuration directory (`.`),
/// an event filter, and the seconds between reports (5).
pub fn parse_watch_options(args: &[String]) -> (r: Result<WatchOptions, (String, u8)>)
    ensures
        match scan_watch(strings_view(args@), 0, "."@, None, 5) {
            Ok((d, f, n)) => r matches Ok(o) && o.directory@ == d && match o.filter {
                Some(x) => f == Some(x@),
                None => f is None,
            } && o.interval == n,
            Err((m, c)) => r matches Err(e) && e.0@ == m && e.1 == c,
        },
{
    let ghost av = strings_view(args@);
    let mut directory = owned(".");
    let mut filter: Option<String> = None;
    let mut interval: u64 = 5;
    let mut i: usize = 0;
    while i < args.len()
        invariant
            i <= args@.len(),
            av == strings_view(args@),
            scan_watch(av, 0, "."@, None, 5) == scan_watch(
                av,
                i as int,
                directory@,
                match filter {
                    Some(x) => Some(x@),
                    None => None,
                },
                interval,
            ),
        decreases args.len() - i,
    {
        let a = args[i].as_str();
        assert(a@ == av[i as int]);
        if str_eq(a, "-C") || str_eq(a, "--config") {
            if i + 1 >= args.len() {
                return Err((owned("-C requires a path"), EXIT_USAGE));
            }
            directory = args[i + 1].clone();
            assert(directory@ == av[i + 1]);
            i = i + 2;
        } else if str_eq(a, "--filter") {
            if i + 1 >= args.len() {
                return Err((owned("--filter requires a glob"), EXIT_USAGE));
            }
            filter = Some(args[i + 1].clone());
            assert(args@[i + 1]@ == av[i + 1]);
            i = i + 2;
        } else if str_eq(a, "--interval") {
            if i + 1 >= args.len() {
                return Err((owned("--interval requires seconds"), EXIT_USAGE));
            }
            assert(args@[i + 1]@ == av[i + 1]);
            match parse_unsigned(args[i + 1].as_str(), u64::MAX) {
                Some(n) => {
                    if n == 0 {
                        return Err((owned("--interval must be a positive integer"), EXIT_INVALID));
                    }
                    interval = n;
                },
                None => return Err((owned("--interval must be a positive integer"), EXIT_INVALID)),
            }
            i = i + 2;
        } else if str_eq(a, "-h") || str_eq(a, "--help") {
            return Err((owned("usage: vzctl stack watch [-C dir] [--filter glob] [--interval sec]"), EXIT_USAGE));
        } else {
            return Err((cat("unknown stack watch option: ", a), EXIT_USAGE));
        }
    }
    Ok(WatchOptions { directory, filter, interval })
}

/// The event type of a warning: `probe.` and its code in lower case.
pub open spec fn probe_event(code: Seq<char>) -> Seq<char> {
    "probe."@ + lower(code)
}

pub open spec fn opt_seq(o: Option<&str>) -> Option<Seq<char>> {
    match o {
        Some(s) => Some(s@),
        None => None,
    }
}

/// A warning is announced when its event passes the filter and its code was
/// not among the previous report's.
pub open spec fn announced(filter: Option<Seq<char>>, last_codes: Seq<Seq<char>>, w: WarningView) -> bool {
    watch_match_spec(filter, probe_event(w.code)) && !last_codes.contains(w.code)
}

/// What one status report of a watch puts out.
pub struct WatchTick {
    /// The warnings to announce, by index, with their event types.
    pub announce: Vec<(usize, String)>,
    /// The codes the next report compares against: this report's, in order.
    pub codes: Vec<String>,
    /// Whether the report's own `stack.status` event passes the filter.
    pub status_event: bool,
}

fn contains_code(codes: &[String], code: &str) -> (r: bool)
    ensures
        r == strings_view(codes@).contains(code@),
{
    let mut i: usize = 0;
    while i < codes.len()
        invariant
            i <= codes@.len(),
            forall|k: int| 0 <= k < i ==> codes@[k]@ != code@,
        decreases codes.len() - i,
    {
        if str_eq(codes[i].as_str(), code) {
            assert(strings_view(codes@)[i as int] == code@);
            return true;
        }
        i = i + 1;
    }
    assert forall|k: int| 0 <= k < codes@.len() implies strings_view(codes@)[k] != code@ by {
        assert(strings_view(codes@)[k] == codes@[k]@);
    }
    false
}

/// One report of `stack watch`: which warnings are new since the previous
/// report's codes and pass the filter, the codes to remember, and whether
/// the report's status event passes.
pub fn watch_tick(filter: Option<&str>, last_codes: &[String], warnings: &[Warning]) -> (r: WatchTick)
    ensures
        forall|k: int| 0 <= k < r.announce@.len() ==> (#[trigger] r.announce@[k]).0 < warnings@.len(),
        forall|k: int| 0 <= k < r.announce@.len() ==> (#[trigger] r.announce@[k]).1@ == probe_event(
            warnings@[r.announce@[k].0 as int].code@,
        ),
        forall|k: int, l: int| 0 <= k < l < r.announce@.len() ==> r.announce@[k].0 < r.announce@[l].0,
        forall|i: int|
            0 <= i < warnings@.len() ==> ((exists|k: int| 0 <= k < r.announce@.len() && r.announce@[k].0 == i)
                <==> announced(opt_seq(filter), strings_view(last_codes@), #[trigger] warnings@[i]@)),
        strings_view(r.codes@) == warnings@.map_values(|w: Warning| w.code@),
        r.status_event == watch_match_spec(opt_seq(filter), "stack.status"@),
{
    let ghost f = opt_seq(filter);
    let ghost lc = strings_view(last_codes@);
    let mut announce: Vec<(usize, String)> = Vec::new();
    let mut codes: Vec<String> = Vec::new();
    let mut i: usize = 0;
    while i < warnings.len()
        invariant
            i <= warnings@.len(),
            f == opt_seq(filter),
            lc == strings_view(last_codes@),
            forall|k: int| 0 <= k < announce@.len() ==> (#[trigger] announce@[k]).0 < i,
            forall|k: int| 0 <= k < announce@.len() ==> (#[trigger] announce@[k]).1@ == probe_event(
                warnings@[announce@[k].0 as int].code@,
            ),
            forall|k: int, l: int| 0 <= k < l < announce@.len() ==> announce@[k].0 < announce@[l].0,
            forall|j: int|
                0 <= j < i ==> ((exists|k: int| 0 <= k < announce@.len() && announce@[k].0 == j) <==> announced(
                    f,
                    lc,
                    #[trigger] warnings@[j]@,
                )),
            strings_view(codes@) == warnings@.subrange(0, i as int).map_values(|w: Warning| w.code@),
        decreases warnings.len() - i,
    {
        let w = &warnings[i];
        let event = cat("probe.", to_lower(w.code).as_str());
        let passes = watch_match(filter, event.as_str());
        let seen = contains_code(last_codes, w.code);
        let ghost before = announce@;
        if passes && !seen {
            announce.push((i, event));
        }
        assert forall|j: int|
            0 <= j < i + 1 implies ((exists|k: int| 0 <= k < announce@.len() && announce@[k].0 == j) <==> announced(
                f,
                lc,
                #[trigger] warnings@[j]@,
            )) by {
            if j < i {
                if exists|k: int| 0 <= k < before.len() && before[k].0 == j {
                    let k = choose|k: int| 0 <= k < before.len() && before[k].0 == j;
                    assert(announce@[k] == before[k]);
                }
                if exists|k: int| 0 <= k < announce@.len() && announce@[k].0 == j {
                    let k = choose|k: int| 0 <= k < announce@.len() && announce@[k].0 == j;
                    if k < before.len() {
                        assert(before[k] == announce@[k]);
                    }
                }
            } else {
                if passes && !seen {
                    assert(announce@[before.len() as int].0 == i);
                } else if exists|k: int| 0 <= k < announce@.len() && announce@[k].0 == j {
                    let k = choose|k: int| 0 <= k < announce@.len() && announce@[k].0 == j;
                    assert(before[k] == announce@[k]);
                }
            }
        }
        let ghost cbefore = strings_view(codes@);
        codes.push(owned(w.code));
        assert(strings_view(codes@) =~= cbefore.push(w.code@));
        assert(warnings@.subrange(0, i + 1).map_values(|w: Warning| w.code@) =~= warnings@.subrange(
            0,
            i as int,
        ).map_values(|w: Warning| w.code@).push(warnings@[i as int].code@));
        i = i + 1;
    }
    assert(warnings@.subrange(0, warnings@.len() as int) =~= warnings@);
    let status_event = watch_match(filter, "stack.status");
    WatchTick { announce, codes, status_event }
}

/// Watching an unchanged stack announces each warning once: against the
/// codes a report remembers, the same warnings announce nothing.
pub proof fn law_repeated_warnings_stay_quiet(filter: Option<Seq<char>>, ws: Seq<WarningView>)
    ensures
        forall|i: int|
            0 <= i < ws.len() ==> !announced(filter, ws.map_values(|w: WarningView| w.code), #[trigger] ws[i]),
{
    assert forall|i: int| 0 <= i < ws.len() implies !announced(
        filter,
        ws.map_values(|w: WarningView| w.code),
        #[trigger] ws[i],
    ) by {
        assert(ws.map_values(|w: WarningView| w.code)[i] == ws[i].code);
    }
}

} // verus!
