//! The `route` command: reading its options.
use crate::text::{cat, owned, str_eq, strings_view};
use vstd::prelude::*;

verus! {

pub const EXIT_USAGE: u8 = 2;
pub const EXIT_INVALID: u8 = 3;
pub const EXIT_SUPERVISOR: u8 = 10;
/// Exit code of a failed route operation.
pub const EXIT_ROUTE: u8 = 18;

#[derive(Clone, Copy, Debug, PartialEq, Eq, Structural)]
pub enum Format {
    Human,
    Json,
}

#[derive(Clone, Copy, Debug, PartialEq, Eq, Structural)]
pub enum Action {
    Apply,
    Plan,
    Status,
}

impl Action {
    /// The command name of the action in reports.
    pub fn command(self) -> (r: &'static str)
        ensures
            r@ == match self {
                Action::Apply => "route.apply"@,
                Action::Plan => "route.plan"@,
                Action::Status => "route.status"@,
            },
    {
        match self {
            Action::Apply => "route.apply",
            Action::Plan => "route.plan",
            Action::Status => "route.status",
        }
    }
}

/// What the `route` command was asked to do.
#[derive(Debug)]
pub struct Options {
    pub action: Action,
    pub router: Option<String>,
    pub config: Option<String>,
    pub format: Format,
}

/// A failed command: its exit code and message.
#[derive(Debug)]
pub struct Failure {
    pub code: u8,
    pub message: String,
}

pub open spec fn usage_text() -> Seq<char> {
    "usage: vzctl route apply|plan [--config <path>] [--router <vm-id>] [--format human|json]\n       vzctl route status [--router <vm-id>] [--format human|json]"@
}

/// The usage text of the command.
pub fn usage() -> (r: &'static str)
    ensures
        r@ == usage_text(),
{
    "usage: vzctl route apply|plan [--config <path>] [--router <vm-id>] [--format human|json]\n       vzctl route status [--router <vm-id>] [--format human|json]"
}

pub struct ParsedView {
    pub action: Action,
    pub router: Option<Seq<char>>,
    pub config: Option<Seq<char>>,
    pub format: Format,
}

/// The options of the arguments from `i` on, given what was read before.
pub open spec fn scan_route(args: Seq<Seq<char>>, i: int, p: ParsedView) -> Result<ParsedView, (u8, Seq<char>)>
    decreases args.len() - i,
{
    if i >= args.len() || i < 0 {
        Ok(p)
    } else {
        let a = args[i];
        if a == "--router"@ {
            if i + 1 < args.len() && args[i + 1].len() > 0 {
                if p.router.is_some() {
                    Err((EXIT_USAGE, "--router may only be used once"@))
                } else {
                    scan_route(args, i + 2, ParsedView { router: Some(args[i + 1]), ..p })
                }
            } else {
                Err((EXIT_USAGE, "--router requires a VM id"@))
            }
        } else if a == "--config"@ && p.action != Action::Status {
            if i + 1 < args.len() && args[i + 1].len() > 0 {
                if p.config.is_some() {
                    Err((EXIT_USAGE, "--config may only be used once"@))
                } else {
                    scan_route(args, i + 2, ParsedView { config: Some(args[i + 1]), ..p })
                }
            } else {
                Err((EXIT_USAGE, "--config requires a path"@))
            }
        } else if a == "--format"@ {
            if i + 1 < args.len() {
                let v = args[i + 1];
                if v == "human"@ {
                    scan_route(args, i + 2, ParsedView { format: Format::Human, ..p })
                } else if v == "json"@ {
                    scan_route(args, i + 2, ParsedView { format: Format::Json, ..p })
                } else {
                    Err((EXIT_USAGE, "unsupported route format: "@ + v))
                }
            } else {
                Err((EXIT_USAGE, "--format requires human or json"@))
            }
        } else if a == "-h"@ || a == "--help"@ {
            Err((EXIT_USAGE, usage_text()))
        } else {
            Err((EXIT_USAGE, "unknown route option: "@ + a))
        }
    }
}

/// The options of `route`: an action first, then flags.
pub open spec fn parse_spec(args: Seq<Seq<char>>) -> Result<ParsedView, (u8, Seq<char>)> {
    if args.len() == 0 {
        Err((EXIT_USAGE, usage_text()))
    } else {
        let a = args[0];
        let start = |action: Action| ParsedView { action, router: None, config: None, format: Format::Human };
        if a == "apply"@ {
            scan_route(args, 1, start(Action::Apply))
        } else if a == "plan"@ {
            scan_route(args, 1, start(Action::Plan))
        } else if a == "status"@ {
            scan_route(args, 1, start(Action::Status))
        } else {
            Err((EXIT_USAGE, usage_text()))
        }
    }
}

pub open spec fn opt_string_view(o: Option<String>) -> Option<Seq<char>> {
    match o {
        Some(s) => Some(s@),
        None => None,
    }
}

pub open spec fn options_view(o: Options) -> ParsedView {
    ParsedView { action: o.action, router: opt_string_view(o.router), config: opt_string_view(o.config), format: o.format }
}

fn fail(code: u8, message: String) -> (r: Failure)
    ensures
        r.code == code,
        r.message@ == message@,
{
    Failure { code, message }
}

/// Reads the arguments of `route`.
pub fn parse(args: &[String]) -> (r: Result<Options, Failure>)
    ensures
        match parse_spec(strings_view(args@)) {
            Ok(p) => r matches Ok(o) && options_view(o) == p,
            Err((c, m)) => r matches Err(e) && e.code == c && e.message@ == m,
        },
{
    let ghost av = strings_view(args@);
    if args.len() == 0 {
        return Err(fail(EXIT_USAGE, owned(usage())));
    }
    let first = args[0].as_str();
    assert(first@ == av[0]);
    let action = if str_eq(first, "apply") {
        Action::Apply
    } else if str_eq(first, "plan") {
        Action::Plan
    } else if str_eq(first, "status") {
        Action::Status
    } else {
        return Err(fail(EXIT_USAGE, owned(usage())));
    };
    let mut router: Option<String> = None;
    let mut config: Option<String> = None;
    let mut format = Format::Human;
    let ghost p0 = ParsedView { action, router: None, config: None, format: Format::Human };
    assert(parse_spec(av) == scan_route(av, 1, p0));
    let mut i: usize = 1;
    while i < args.len()
        invariant
            1 <= i <= args@.len(),
            av == strings_view(args@),
            parse_spec(av) == scan_route(
                av,
                i as int,
                ParsedView { action, router: opt_string_view(router), config: opt_string_view(config), format },
            ),
        decreases args.len() - i,
    {
        let a = args[i].as_str();
        assert(a@ == av[i as int]);
        if str_eq(a, "--router") {
            if i + 1 >= args.len() || args[i + 1].unicode_len() == 0 {
                return Err(fail(EXIT_USAGE, owned("--router requires a VM id")));
            }
            if router.is_some() {
                return Err(fail(EXIT_USAGE, owned("--router may only be used once")));
            }
            router = Some(args[i + 1].clone());
            i = i + 2;
        } else if str_eq(a, "--config") && action != Action::Status {
            if i + 1 >= args.len() || args[i + 1].unicode_len() == 0 {
                return Err(fail(EXIT_USAGE, owned("--config requires a path")));
            }
            if config.is_some() {
                return Err(fail(EXIT_USAGE, owned("--config may only be used once")));
            }
            config = Some(args[i + 1].clone());
            i = i + 2;
        } else if str_eq(a, "--format") {
            if i + 1 >= args.len() {
                return Err(fail(EXIT_USAGE, owned("--format requires human or json")));
            }
            let v = args[i + 1].as_str();
            assert(v@ == av[i + 1]);
            if str_eq(v, "human") {
                format = Format::Human;
            } else if str_eq(v, "json") {
                format = Format::Json;
            } else {
                return Err(fail(EXIT_USAGE, cat("unsupported route format: ", v)));
            }
            i = i + 2;
        } else if str_eq(a, "-h") || str_eq(a, "--help") {
            return Err(fail(EXIT_USAGE, owned(usage())));
        } else {
            return Err(fail(EXIT_USAGE, cat("unknown route option: ", a)));
        }
    }
    Ok(Options { action, router, config, format })
}

/// JSON output was asked for: some `--format` is directly followed by `json`.
pub open spec fn asks_json(args: Seq<Seq<char>>) -> bool {
    exists|i: int| 0 <= i && i + 1 < args.len() && #[trigger] args[i] == "--format"@ && args[i + 1] == "json"@
}

/// The output format to report a refused command in.
pub fn requested_format(args: &[String]) -> (r: Format)
    ensures
        r == (if asks_json(strings_view(args@)) {
            Format::Json
        } else {
            Format::Human
        }),
{
    let ghost av = strings_view(args@);
    let n = args.len();
    let mut i: usize = 0;
    while n > 0 && i < n - 1
        invariant
            av == strings_view(args@),
            n == args@.len(),
            i <= args@.len(),
            forall|j: int| 0 <= j < i && j + 1 < av.len() ==> !(#[trigger] av[j] == "--format"@ && av[j + 1] == "json"@),
        decreases args.len() - i,
    {
        if str_eq(args[i].as_str(), "--format") && str_eq(args[i + 1].as_str(), "json") {
            assert(av[i as int] == "--format"@ && av[i + 1] == "json"@);
            return Format::Json;
        }
        i = i + 1;
    }
    Format::Human
}

// ---------------------------------------------------------------------------
// Routing policies

/// An `allow` rule of a policy as the configuration holds it: each field set
/// where the rule holds a string (or, for `ports`, an array) under that key;
/// a port is set where it is an unsigned integer.
#[derive(Clone, Debug, Default)]
pub struct AllowRule {
    pub to: Option<String>,
    pub proto: Option<String>,
    pub ports: Option<Vec<Option<u64>>>,
}

/// A policy as the configuration holds it; `allow` is set where it is an
/// array, and an element that is not an object is `None`.
#[derive(Clone, Debug, Default)]
pub struct Policy {
    pub name: Option<String>,
    pub network: Option<String>,
    pub forward: Option<String>,
    pub allow: Option<Vec<Option<AllowRule>>>,
}

pub struct AllowView {
    pub to: Option<Seq<char>>,
    pub proto: Option<Seq<char>>,
    pub ports: Seq<Option<u64>>,
}

pub struct PolicyView {
    pub name: Option<Seq<char>>,
    pub network: Option<Seq<char>>,
    pub forward: Option<Seq<char>>,
    pub allow: Seq<Option<AllowView>>,
}

pub open spec fn opt_str(o: Option<String>) -> Option<Seq<char>> {
    match o {
        Some(s) => Some(s@),
        None => None,
    }
}

pub open spec fn allow_view(a: AllowRule) -> AllowView {
    AllowView {
        to: opt_str(a.to),
        proto: opt_str(a.proto),
        ports: match a.ports {
            Some(p) => p@,
            None => Seq::empty(),
        },
    }
}

pub open spec fn opt_allow_view(a: Option<AllowRule>) -> Option<AllowView> {
    match a {
        Some(r) => Some(allow_view(r)),
        None => None,
    }
}

pub open spec fn policy_view(p: Policy) -> PolicyView {
    PolicyView {
        name: opt_str(p.name),
        network: opt_str(p.network),
        forward: opt_str(p.forward),
        allow: match p.allow {
            Some(v) => v@.map_values(|a: Option<AllowRule>| opt_allow_view(a)),
            None => Seq::empty(),
        },
    }
}

pub open spec fn opt_policy_view(p: Option<Policy>) -> Option<PolicyView> {
    match p {
        Some(q) => Some(policy_view(q)),
        None => None,
    }
}

/// A required field: a non-empty string.
pub open spec fn required(v: Option<Seq<char>>, key: Seq<char>) -> Result<Seq<char>, Seq<char>> {
    match v {
        Some(s) if s.len() > 0 => Ok(s),
        _ => Err("policy "@ + key + " must be a string"@),
    }
}

pub open spec fn policy_name_char(c: char) -> bool {
    crate::text::is_ascii_alnum(c) || c == '.' || c == '-' || c == '_'
}

/// The ports of a rule from index `i` on are all in `1..=65535`.
pub open spec fn ports_ok(ports: Seq<Option<u64>>) -> bool {
    forall|i: int| 0 <= i < ports.len() ==> (#[trigger] ports[i] matches Some(p) && 1 <= p <= 65535)
}

/// Checks one allow rule of the policy `name`: a target, a protocol of
/// tcp, udp or icmp, no ports for icmp and valid ports for the others.
pub open spec fn allow_spec(name: Seq<char>, a: Option<AllowView>) -> Result<(), Seq<char>> {
    match a {
        None => Err("invalid allow rule in policy "@ + name),
        Some(r) => match required(r.to, "to"@) {
            Err(e) => Err(e),
            Ok(_) => match required(r.proto, "proto"@) {
                Err(e) => Err(e),
                Ok(proto) => if !(proto == "tcp"@ || proto == "udp"@ || proto == "icmp"@) {
                    Err("policy "@ + name + " proto must be tcp, udp, or icmp"@)
                } else if proto == "icmp"@ && r.ports.len() > 0 {
                    Err("policy "@ + name + " ICMP allow must not declare ports"@)
                } else if proto != "icmp"@ && r.ports.len() == 0 {
                    Err("policy "@ + name + " TCP/UDP allow requires ports"@)
                } else if !ports_ok(r.ports) {
                    Err("policy "@ + name + " port must be 1...65535"@)
                } else {
                    Ok(())
                },
            },
        },
    }
}

/// The first failing allow rule from index `i` on.
pub open spec fn allows_spec(name: Seq<char>, allows: Seq<Option<AllowView>>, i: int) -> Result<(), Seq<char>>
    decreases allows.len() - i,
{
    if i < 0 || i >= allows.len() {
        Ok(())
    } else {
        match allow_spec(name, allows[i]) {
            Err(e) => Err(e),
            Ok(()) => allows_spec(name, allows, i + 1),
        }
    }
}

/// Checks one policy given the names of the policies before it: a name of
/// letters, digits, dot, dash and underscore not used before, a network, a
/// `deny-all` forward rule, and valid allow rules.
pub open spec fn policy_spec(p: Option<PolicyView>, seen: Seq<Seq<char>>) -> Result<Seq<char>, Seq<char>> {
    match p {
        None => Err("each policy must be an object"@),
        Some(q) => match required(q.name, "name"@) {
            Err(e) => Err(e),
            Ok(name) => if !(forall|k: int| 0 <= k < name.len() ==> #[trigger] policy_name_char(name[k])) {
                Err("policy name may only contain letters, digits, dot, dash, and underscore"@)
            } else if seen.contains(name) {
                Err("policy names must be unique"@)
            } else {
                match required(q.network, "network"@) {
                    Err(e) => Err(e),
                    Ok(_) => match required(q.forward, "forward"@) {
                        Err(e) => Err(e),
                        Ok(forward) => if forward != "deny-all"@ {
                            Err("policy "@ + name + " forward must be deny-all"@)
                        } else {
                            match allows_spec(name, q.allow, 0) {
                                Err(e) => Err(e),
                                Ok(()) => Ok(name),
                            }
                        },
                    },
                }
            },
        },
    }
}

/// Checks the policies from index `i` on, given the names seen before.
pub open spec fn policies_spec(ps: Seq<Option<PolicyView>>, i: int, seen: Seq<Seq<char>>) -> Result<(), Seq<char>>
    decreases ps.len() - i,
{
    if i < 0 || i >= ps.len() {
        Ok(())
    } else {
        match policy_spec(ps[i], seen) {
            Err(e) => Err(e),
            Ok(name) => policies_spec(ps, i + 1, seen.push(name)),
        }
    }
}

/// The policies must be an array of valid policies with distinct names.
pub open spec fn validate_spec(policies: Option<Seq<Option<PolicyView>>>) -> Result<(), Seq<char>> {
    match policies {
        None => Err("policies must be an array"@),
        Some(ps) => policies_spec(ps, 0, Seq::empty()),
    }
}

pub open spec fn policies_view(p: Option<Vec<Option<Policy>>>) -> Option<Seq<Option<PolicyView>>> {
    match p {
        Some(v) => Some(v@.map_values(|q: Option<Policy>| opt_policy_view(q))),
        None => None,
    }
}

fn required_str<'a>(v: &'a Option<String>, key: &str) -> (r: Result<&'a String, Failure>)
    ensures
        match required(opt_str(*v), key@) {
            Ok(s) => r matches Ok(x) && x@ == s,
            Err(e) => r matches Err(f) && f.code == EXIT_INVALID && f.message@ == e,
        },
{
    match v {
        Some(s) if s.unicode_len() > 0 => Ok(s),
        _ => Err(Failure { code: EXIT_INVALID, message: crate::text::cat3("policy ", key, " must be a string") }),
    }
}

fn name_chars_ok(name: &str) -> (r: bool)
    ensures
        r == (forall|k: int| 0 <= k < name@.len() ==> #[trigger] policy_name_char(name@[k])),
{
    let n = name.unicode_len();
    let mut i: usize = 0;
    while i < n
        invariant
            i <= n,
            n == name@.len(),
            forall|k: int| 0 <= k < i ==> #[trigger] policy_name_char(name@[k]),
        decreases n - i,
    {
        let c = name.get_char(i);
        if !(crate::text::char_is_alnum(c) || c == '.' || c == '-' || c == '_') {
            assert(!policy_name_char(name@[i as int]));
            return false;
        }
        i = i + 1;
    }
    true
}

fn check_allow(name: &str, a: &Option<AllowRule>) -> (r: Result<(), Failure>)
    ensures
        match allow_spec(name@, opt_allow_view(*a)) {
            Ok(()) => r is Ok,
            Err(e) => r matches Err(f) && f.code == EXIT_INVALID && f.message@ == e,
        },
{
    let rule = match a {
        Some(r) => r,
        None => {
            return Err(Failure { code: EXIT_INVALID, message: cat("invalid allow rule in policy ", name) });
        },
    };
    match required_str(&rule.to, "to") {
        Err(f) => {
            return Err(f);
        },
        Ok(_) => {},
    }
    let proto = match required_str(&rule.proto, "proto") {
        Err(f) => {
            return Err(f);
        },
        Ok(p) => p.as_str(),
    };
    let echo_proto = str_eq(proto, "icmp");
    if !(str_eq(proto, "tcp") || str_eq(proto, "udp") || echo_proto) {
        return Err(Failure { code: EXIT_INVALID, message: crate::text::cat3("policy ", name, " proto must be tcp, udp, or icmp") });
    }
    let ghost pv = allow_view(*rule).ports;
    let count = match &rule.ports {
        Some(p) => p.len(),
        None => 0,
    };
    assert(count == pv.len());
    if echo_proto && count > 0 {
        return Err(Failure { code: EXIT_INVALID, message: crate::text::cat3("policy ", name, " ICMP allow must not declare ports") });
    }
    if !echo_proto && count == 0 {
        return Err(Failure { code: EXIT_INVALID, message: crate::text::cat3("policy ", name, " TCP/UDP allow requires ports") });
    }
    proof {
        reveal_strlit("icmp");
        reveal_strlit("tcp");
        reveal_strlit("udp");
    }
    let ghost outcome: Result<(), Seq<char>> = if ports_ok(pv) {
        Ok(())
    } else {
        Err("policy "@ + name@ + " port must be 1...65535"@)
    };
    assert(allow_spec(name@, opt_allow_view(*a)) == outcome);
    match &rule.ports {
        Some(ports) => {
            let mut i: usize = 0;
            while i < ports.len()
                invariant
                    i <= ports@.len(),
                    pv == ports@,
                    allow_spec(name@, opt_allow_view(*a)) == outcome,
                    outcome == (if ports_ok(pv) {
                        Ok::<(), Seq<char>>(())
                    } else {
                        Err("policy "@ + name@ + " port must be 1...65535"@)
                    }),
                    forall|k: int| 0 <= k < i ==> (#[trigger] pv[k] matches Some(p) && 1 <= p <= 65535),
                decreases ports.len() - i,
            {
                let ok = match ports[i] {
                    Some(p) => 1 <= p && p <= 65535,
                    None => false,
                };
                if !ok {
                    assert(!(pv[i as int] matches Some(p) && 1 <= p <= 65535));
                    return Err(Failure { code: EXIT_INVALID, message: crate::text::cat3("policy ", name, " port must be 1...65535") });
                }
                i = i + 1;
            }
        },
        None => {},
    }
    Ok(())
}

fn check_policy(p: &Option<Policy>, seen: &Vec<String>) -> (r: Result<String, Failure>)
    ensures
        match policy_spec(opt_policy_view(*p), strings_view(seen@)) {
            Ok(n) => r matches Ok(x) && x@ == n,
            Err(e) => r matches Err(f) && f.code == EXIT_INVALID && f.message@ == e,
        },
{
    let policy = match p {
        Some(q) => q,
        None => {
            return Err(Failure { code: EXIT_INVALID, message: owned("each policy must be an object") });
        },
    };
    let name = match required_str(&policy.name, "name") {
        Err(f) => {
            return Err(f);
        },
        Ok(n) => n,
    };
    if !name_chars_ok(name.as_str()) {
        return Err(Failure { code: EXIT_INVALID, message: owned("policy name may only contain letters, digits, dot, dash, and underscore") });
    }
    if crate::ui::list_contains(seen, name.as_str()) {
        return Err(Failure { code: EXIT_INVALID, message: owned("policy names must be unique") });
    }
    match required_str(&policy.network, "network") {
        Err(f) => {
            return Err(f);
        },
        Ok(_) => {},
    }
    let forward = match required_str(&policy.forward, "forward") {
        Err(f) => {
            return Err(f);
        },
        Ok(f) => f,
    };
    if !str_eq(forward.as_str(), "deny-all") {
        return Err(Failure { code: EXIT_INVALID, message: crate::text::cat3("policy ", name.as_str(), " forward must be deny-all") });
    }
    let ghost av = policy_view(*policy).allow;
    assert(policy_spec(opt_policy_view(*p), strings_view(seen@)) == match allows_spec(name@, av, 0) {
        Err(e) => Err(e),
        Ok(()) => Ok(name@),
    });
    match &policy.allow {
        Some(allows) => {
            let mut i: usize = 0;
            while i < allows.len()
                invariant
                    i <= allows@.len(),
                    av == allows@.map_values(|a: Option<AllowRule>| opt_allow_view(a)),
                    allows_spec(name@, av, 0) == allows_spec(name@, av, i as int),
                    policy_spec(opt_policy_view(*p), strings_view(seen@)) == match allows_spec(name@, av, 0) {
                        Err(e) => Err(e),
                        Ok(()) => Ok(name@),
                    },
                decreases allows.len() - i,
            {
                assert(av[i as int] == opt_allow_view(allows@[i as int]));
                match check_allow(name.as_str(), &allows[i]) {
                    Err(f) => {
                        return Err(f);
                    },
                    Ok(()) => {},
                }
                i = i + 1;
            }
        },
        None => {},
    }
    Ok(name.clone())
}

/// Checks the routing policies of a configuration.
pub fn validate_policies(policies: &Option<Vec<Option<Policy>>>) -> (r: Result<(), Failure>)
    ensures
        match validate_spec(policies_view(*policies)) {
            Ok(()) => r is Ok,
            Err(e) => r matches Err(f) && f.code == EXIT_INVALID && f.message@ == e,
        },
{
    let list = match policies {
        Some(l) => l,
        None => {
            return Err(Failure { code: EXIT_INVALID, message: owned("policies must be an array") });
        },
    };
    let ghost pv = list@.map_values(|q: Option<Policy>| opt_policy_view(q));
    let mut seen: Vec<String> = Vec::new();
    assert(strings_view(seen@) =~= Seq::<Seq<char>>::empty());
    let mut i: usize = 0;
    while i < list.len()
        invariant
            i <= list@.len(),
            validate_spec(policies_view(*policies)) == policies_spec(pv, 0, Seq::empty()),
            pv == list@.map_values(|q: Option<Policy>| opt_policy_view(q)),
            policies_spec(pv, 0, Seq::empty()) == policies_spec(pv, i as int, strings_view(seen@)),
        decreases list.len() - i,
    {
        assert(pv[i as int] == opt_policy_view(list@[i as int]));
        match check_policy(&list[i], &seen) {
            Err(f) => {
                return Err(f);
            },
            Ok(name) => {
                let ghost before = strings_view(seen@);
                let ghost nv = name@;
                seen.push(name);
                assert(strings_view(seen@) =~= before.push(nv));
            },
        }
        i = i + 1;
    }
    Ok(())
}

/// The name a policy gives itself (empty where it gives none).
pub open spec fn policy_name(p: Option<PolicyView>) -> Seq<char> {
    match p {
        Some(q) => match q.name {
            Some(n) => n,
            None => Seq::empty(),
        },
        None => Seq::empty(),
    }
}

proof fn lemma_policies_distinct(ps: Seq<Option<PolicyView>>, i: int, seen: Seq<Seq<char>>)
    requires
        0 <= i,
        policies_spec(ps, i, seen) is Ok,
    ensures
        forall|j: int| i <= j < ps.len() ==> !seen.contains(#[trigger] policy_name(ps[j])),
        forall|j: int, k: int| i <= j < k < ps.len() ==> #[trigger] policy_name(ps[j]) != #[trigger] policy_name(ps[k]),
    decreases ps.len() - i,
{
    if i < ps.len() {
        let name = policy_spec(ps[i], seen)->Ok_0;
        assert(name == policy_name(ps[i]));
        lemma_policies_distinct(ps, i + 1, seen.push(name));
        assert forall|j: int| i <= j < ps.len() implies !seen.contains(#[trigger] policy_name(ps[j])) by {
            if j > i {
                if seen.contains(policy_name(ps[j])) {
                    let m = choose|m: int| 0 <= m < seen.len() && seen[m] == policy_name(ps[j]);
                    assert(seen.push(name)[m] == policy_name(ps[j]));
                }
            }
        }
        assert forall|j: int, k: int| i <= j < k < ps.len() implies #[trigger] policy_name(ps[j]) != #[trigger] policy_name(
            ps[k],
        ) by {
            if j == i {
                assert(seen.push(name)[seen.len() as int] == name);
                assert(seen.push(name).contains(name));
            }
        }
    }
}

/// Policies that pass the check have distinct names.
pub proof fn law_valid_policies_have_distinct_names(ps: Seq<Option<PolicyView>>)
    requires
        validate_spec(Some(ps)) is Ok,
    ensures
        forall|j: int, k: int| 0 <= j < k < ps.len() ==> #[trigger] policy_name(ps[j]) != #[trigger] policy_name(ps[k]),
{
    lemma_policies_distinct(ps, 0, Seq::empty());
}

} // verus!
