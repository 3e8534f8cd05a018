//! The `services` command: its options and the order in which the host
//! services are started and stopped.
use crate::text::{cat, first_char_is, owned, str_eq, strings_view};
use vstd::prelude::*;

verus! {

pub const EXIT_USAGE: u8 = 2;
pub const EXIT_INVALID: u8 = 3;
pub const EXIT_UNAVAILABLE: u8 = 12;
pub const EXIT_SERVICES: u8 = 25;

/// Tenths of a second to wait for an agent to go.
pub const AGENT_GONE_TIMEOUT_TENTHS: u32 = 100;
/// Tenths of a second to wait for the network agent to go.
pub const NET_AGENT_GONE_TIMEOUT_TENTHS: u32 = 600;

#[derive(Clone, Copy, Debug, PartialEq, Eq, Structural)]
pub enum Format {
    Human,
    Json,
}

#[derive(Clone, Copy, Debug, PartialEq, Eq, Structural)]
pub enum Action {
    Status,
    Start,
    Stop,
    Restart,
}

impl Action {
    /// The command name of the action in reports.
    pub fn command(self) -> (r: &'static str)
        ensures
            r@ == match self {
                Action::Status => "services.status"@,
                Action::Start => "services.start"@,
                Action::Stop => "services.stop"@,
                Action::Restart => "services.restart"@,
            },
    {
        match self {
            Action::Status => "services.status",
            Action::Start => "services.start",
            Action::Stop => "services.stop",
            Action::Restart => "services.restart",
        }
    }
}

/// A host service, or all of them.
#[derive(Clone, Copy, Debug, PartialEq, Eq, Structural)]
pub enum ServiceId {
    Net,
    Edge,
    Supervisor,
    All,
}

/// A failed command: its exit code and message.
#[derive(Debug)]
pub struct Failure {
    pub code: u8,
    pub message: String,
}

pub open spec fn failure_view<T>(r: Result<T, Failure>) -> Result<T, (u8, Seq<char>)> {
    match r {
        Ok(v) => Ok(v),
        Err(f) => Err((f.code, f.message@)),
    }
}

/// The service a name stands for.
pub open spec fn service_id_spec(value: Seq<char>) -> Result<ServiceId, (u8, Seq<char>)> {
    if value == "all"@ {
        Ok(ServiceId::All)
    } else if value == "net"@ {
        Ok(ServiceId::Net)
    } else if value == "edge"@ {
        Ok(ServiceId::Edge)
    } else if value == "supervisor"@ {
        Ok(ServiceId::Supervisor)
    } else {
        Err((EXIT_INVALID, "unknown service: "@ + value + " (expected all, net, edge, or supervisor)"@))
    }
}

impl ServiceId {
    /// Reads a service name; none means all services.
    pub fn parse(value: Option<&str>) -> (r: Result<ServiceId, Failure>)
        ensures
            failure_view(r) == match value {
                Some(v) => service_id_spec(v@),
                None => Ok(ServiceId::All),
            },
    {
        let v = match value {
            Some(v) => v,
            None => return Ok(ServiceId::All),
        };
        if str_eq(v, "all") {
            Ok(ServiceId::All)
        } else if str_eq(v, "net") {
            Ok(ServiceId::Net)
        } else if str_eq(v, "edge") {
            Ok(ServiceId::Edge)
        } else if str_eq(v, "supervisor") {
            Ok(ServiceId::Supervisor)
        } else {
            let m = cat("unknown service: ", v);
            Err(Failure { code: EXIT_INVALID, message: cat(m.as_str(), " (expected all, net, edge, or supervisor)") })
        }
    }

    /// The name of the service.
    pub fn as_str(self) -> (r: &'static str)
        ensures
            r@ == match self {
                ServiceId::Net => "net"@,
                ServiceId::Edge => "edge"@,
                ServiceId::Supervisor => "supervisor"@,
                ServiceId::All => "all"@,
            },
    {
        match self {
            ServiceId::Net => "net",
            ServiceId::Edge => "edge",
            ServiceId::Supervisor => "supervisor",
            ServiceId::All => "all",
        }
    }
}

/// How one host service is run by launchd.
#[derive(Clone, Copy, Debug)]
pub struct ServiceSpec {
    pub id: ServiceId,
    pub label: &'static str,
    pub plist_name: &'static str,
    pub socket_name: Option<&'static str>,
    pub kickstart_kill: bool,
    pub stop_wait_tenths: u32,
}

/// The launchd description of a single service.
pub open spec fn service_of(id: ServiceId) -> ServiceSpec {
    match id {
        ServiceId::Edge => ServiceSpec {
            id: ServiceId::Edge,
            label: "com.vzctl.edge",
            plist_name: "com.vzctl.edge.plist",
            socket_name: Some("edge.sock"),
            kickstart_kill: true,
            stop_wait_tenths: AGENT_GONE_TIMEOUT_TENTHS,
        },
        ServiceId::Supervisor => ServiceSpec {
            id: ServiceId::Supervisor,
            label: "com.vzctl.supervisor",
            plist_name: "com.vzctl.supervisor.plist",
            socket_name: None,
            kickstart_kill: true,
            stop_wait_tenths: AGENT_GONE_TIMEOUT_TENTHS,
        },
        _ => ServiceSpec {
            id: ServiceId::Net,
            label: "com.vzctl.net",
            plist_name: "com.vzctl.net.plist",
            socket_name: Some("net.sock"),
            kickstart_kill: false,
            stop_wait_tenths: NET_AGENT_GONE_TIMEOUT_TENTHS,
        },
    }
}

/// The launchd description of the service `id` (all stands for none of them: it has no single description).
pub fn service(id: ServiceId) -> (r: ServiceSpec)
    requires
        id != ServiceId::All,
    ensures
        r == service_of(id),
{
    match id {
        ServiceId::Edge => ServiceSpec {
            id: ServiceId::Edge,
            label: "com.vzctl.edge",
            plist_name: "com.vzctl.edge.plist",
            socket_name: Some("edge.sock"),
            kickstart_kill: true,
            stop_wait_tenths: AGENT_GONE_TIMEOUT_TENTHS,
        },
        ServiceId::Supervisor => ServiceSpec {
            id: ServiceId::Supervisor,
            label: "com.vzctl.supervisor",
            plist_name: "com.vzctl.supervisor.plist",
            socket_name: None,
            kickstart_kill: true,
            stop_wait_tenths: AGENT_GONE_TIMEOUT_TENTHS,
        },
        _ => ServiceSpec {
            id: ServiceId::Net,
            label: "com.vzctl.net",
            plist_name: "com.vzctl.net.plist",
            socket_name: Some("net.sock"),
            kickstart_kill: false,
            stop_wait_tenths: NET_AGENT_GONE_TIMEOUT_TENTHS,
        },
    }
}

/// The services a target names, in start order: the network first, the supervisor last.
pub open spec fn start_order_spec(target: ServiceId) -> Seq<ServiceId> {
    match target {
        ServiceId::All => seq![ServiceId::Net, ServiceId::Edge, ServiceId::Supervisor],
        _ => seq![target],
    }
}

pub open spec fn ids_of(specs: Seq<ServiceSpec>) -> Seq<ServiceId> {
    specs.map_values(|s: ServiceSpec| s.id)
}

/// Each service of `specs` has its own launchd description.
pub open spec fn described(specs: Seq<ServiceSpec>) -> bool {
    forall|i: int| 0 <= i < specs.len() ==> #[trigger] specs[i] == service_of(specs[i].id)
}

/// The services of a target.
pub fn specs_for_target(target: ServiceId) -> (r: Vec<ServiceSpec>)
    ensures
        ids_of(r@) == start_order_spec(target),
        described(r@),
{
    start_order(target)
}

/// The services of a target in the order they start.
pub fn start_order(target: ServiceId) -> (r: Vec<ServiceSpec>)
    ensures
        ids_of(r@) == start_order_spec(target),
        described(r@),
{
    let r = match target {
        ServiceId::All => vec![service(ServiceId::Net), service(ServiceId::Edge), service(ServiceId::Supervisor)],
        _ => vec![service(target)],
    };
    assert(ids_of(r@) =~= start_order_spec(target));
    r
}

/// The services of a target in the order they stop: the reverse of the start order.
pub fn stop_order(target: ServiceId) -> (r: Vec<ServiceSpec>)
    ensures
        ids_of(r@) == start_order_spec(target).reverse(),
        described(r@),
{
    let r = match target {
        ServiceId::All => vec![service(ServiceId::Supervisor), service(ServiceId::Edge), service(ServiceId::Net)],
        _ => vec![service(target)],
    };
    assert(ids_of(r@) =~= start_order_spec(target).reverse());
    r
}

/// What the `services` command was asked to do.
pub struct Options {
    pub action: Action,
    pub target: ServiceId,
    pub format: Format,
}

pub open spec fn action_spec(name: Seq<char>) -> Action {
    if name == "status"@ {
        Action::Status
    } else if name == "start"@ {
        Action::Start
    } else if name == "stop"@ {
        Action::Stop
    } else {
        Action::Restart
    }
}

pub open spec fn is_action_name(name: Seq<char>) -> bool {
    name == "status"@ || name == "start"@ || name == "stop"@ || name == "restart"@
}

/// The target and format of the arguments from `i` on, given what was read before.
pub open spec fn scan_options(args: Seq<Seq<char>>, i: int, target: ServiceId, format: Format) -> Result<
    (ServiceId, Format),
    (u8, Seq<char>),
>
    decreases args.len() - i,
{
    if i >= args.len() || i < 0 {
        Ok((target, format))
    } else {
        let a = args[i];
        if a == "--format"@ {
            if i + 1 < args.len() {
                let v = args[i + 1];
                if v == "human"@ {
                    scan_options(args, i + 2, target, Format::Human)
                } else if v == "json"@ {
                    scan_options(args, i + 2, target, Format::Json)
                } else {
                    Err((EXIT_USAGE, "unsupported services format: "@ + v))
                }
            } else {
                Err((EXIT_USAGE, "--format requires human or json"@))
            }
        } else if a == "--"@ {
            Ok((target, format))
        } else if a.len() > 0 && a[0] == '-' {
            Err((EXIT_USAGE, "unknown services option: "@ + a))
        } else if target != ServiceId::All {
            Err((EXIT_USAGE, "only one service target may be specified"@))
        } else {
            match service_id_spec(a) {
                Ok(t) => scan_options(args, i + 1, t, format),
                Err(e) => Err(e),
            }
        }
    }
}

/// Reads the options of `services status|start|stop|restart`.
pub fn parse_options(action_name: &str, args: &[String]) -> (r: Result<Options, Failure>)
    requires
        is_action_name(action_name@),
    ensures
        match scan_options(strings_view(args@), 0, ServiceId::All, Format::Human) {
            Ok((t, f)) => r matches Ok(o) && o.action == action_spec(action_name@) && o.target == t && o.format
                == f,
            Err((c, m)) => r matches Err(e) && e.code == c && e.message@ == m,
        },
{
    let ghost av = strings_view(args@);
    let action = if str_eq(action_name, "status") {
        Action::Status
    } else if str_eq(action_name, "start") {
        Action::Start
    } else if str_eq(action_name, "stop") {
        Action::Stop
    } else {
        Action::Restart
    };
    let mut target = ServiceId::All;
    let mut format = Format::Human;
    let mut i: usize = 0;
    while i < args.len()
        invariant
            i <= args@.len(),
            av == strings_view(args@),
            action == action_spec(action_name@),
            scan_options(av, 0, ServiceId::All, Format::Human) == scan_options(av, i as int, target, format),
        decreases args.len() - i,
    {
        let arg = args[i].as_str();
        assert(arg@ == av[i as int]);
        if str_eq(arg, "--format") {
            if i + 1 < args.len() {
                let v = args[i + 1].as_str();
                assert(v@ == av[i + 1]);
                if str_eq(v, "human") {
                    format = Format::Human;
                } else if str_eq(v, "json") {
                    format = Format::Json;
                } else {
                    return Err(Failure { code: EXIT_USAGE, message: cat("unsupported services format: ", v) });
                }
                i = i + 2;
            } else {
                return Err(Failure { code: EXIT_USAGE, message: owned("--format requires human or json") });
            }
        } else if str_eq(arg, "--") {
            return Ok(Options { action, target, format });
        } else if first_char_is(arg, '-') {
            return Err(Failure { code: EXIT_USAGE, message: cat("unknown services option: ", arg) });
        } else if target != ServiceId::All {
            return Err(Failure { code: EXIT_USAGE, message: owned("only one service target may be specified") });
        } else {
            match ServiceId::parse(Some(arg)) {
                Ok(t) => {
                    target = t;
                    i = i + 1;
                },
                Err(e) => return Err(e),
            }
        }
    }
    Ok(Options { action, target, format })
}

/// Services stop in the reverse of the order in which they start.
pub proof fn law_stop_reverses_start(target: ServiceId)
    ensures
        start_order_spec(target).reverse().reverse() == start_order_spec(target),
        start_order_spec(target).reverse().len() == start_order_spec(target).len(),
        forall|i: int|
            0 <= i < start_order_spec(target).len() ==> start_order_spec(target).reverse()[i]
                == start_order_spec(target)[start_order_spec(target).len() - 1 - i],
{
    let s = start_order_spec(target);
    assert(s.reverse().reverse() =~= s);
}

// ---------------------------------------------------------------------------
// Lifecycle plans

/// One step of starting, stopping or restarting host services.
#[derive(Clone, Copy, Debug, PartialEq, Eq, Structural)]
pub enum Step {
    /// Write the launchd property lists of a target where they are missing.
    EnsurePlists(ServiceId),
    /// Stop the VM helpers, which hold the network's resources.
    StopVmHelpers,
    Stop(ServiceId),
    Start(ServiceId),
    /// Restart a service that runs, start one that does not.
    Restart(ServiceId),
}

/// How the change a step makes is reported.
#[derive(Clone, Copy, Debug, PartialEq, Eq, Structural)]
pub enum Report {
    /// As the step reports it.
    AsIs,
    /// As a restart.
    AsRestart,
    /// As a restart, with "started" in its message read as "restarted".
    AsRestartRenamed,
}

pub open spec fn tag(steps: Seq<Step>, report: Report) -> Seq<(Step, Report)> {
    steps.map_values(|s: Step| (s, report))
}

pub open spec fn stop_steps(target: ServiceId) -> Seq<Step> {
    seq![Step::EnsurePlists(target)] + if target == ServiceId::All || target == ServiceId::Net {
        seq![Step::StopVmHelpers]
    } else {
        Seq::empty()
    } + start_order_spec(target).reverse().map_values(|id: ServiceId| Step::Stop(id))
}

pub open spec fn start_steps(target: ServiceId) -> Seq<Step> {
    seq![Step::EnsurePlists(target)] + start_order_spec(target).map_values(|id: ServiceId| Step::Start(id))
}

/// The steps of an action on a target, with how each change is reported.
/// Stopping stops the VM helpers first where the network goes down;
/// restarting everything stops it all and starts it again; restarting the
/// network restarts the services that depend on it too.
pub open spec fn plan_spec(action: Action, target: ServiceId) -> Seq<(Step, Report)> {
    match action {
        Action::Status => Seq::empty(),
        Action::Start => tag(start_steps(target), Report::AsIs),
        Action::Stop => tag(stop_steps(target), Report::AsIs),
        Action::Restart => seq![(Step::EnsurePlists(target), Report::AsIs)] + match target {
            ServiceId::All => tag(stop_steps(ServiceId::All), Report::AsIs) + tag(
                start_steps(ServiceId::All),
                Report::AsRestartRenamed,
            ),
            ServiceId::Net => tag(
                seq![
                    Step::StopVmHelpers,
                    Step::Stop(ServiceId::Net),
                    Step::Start(ServiceId::Net),
                    Step::Restart(ServiceId::Edge),
                    Step::Restart(ServiceId::Supervisor),
                ],
                Report::AsRestart,
            ),
            _ => tag(seq![Step::Restart(target)], Report::AsIs),
        },
    }
}

fn push_tagged(out: &mut Vec<(Step, Report)>, steps: Vec<Step>, report: Report)
    ensures
        final(out)@ == old(out)@ + tag(steps@, report),
{
    let ghost start = out@;
    let mut i: usize = 0;
    while i < steps.len()
        invariant
            i <= steps@.len(),
            out@ == start + tag(steps@.take(i as int), report),
        decreases steps.len() - i,
    {
        out.push((steps[i], report));
        assert(tag(steps@.take(i + 1), report) =~= tag(steps@.take(i as int), report).push((steps@[i as int], report)));
        i = i + 1;
    }
    assert(steps@.take(steps.len() as int) =~= steps@);
}

fn stop_step_list(target: ServiceId) -> (r: Vec<Step>)
    ensures
        r@ == stop_steps(target),
{
    let mut r = vec![Step::EnsurePlists(target)];
    if target == ServiceId::All || target == ServiceId::Net {
        r.push(Step::StopVmHelpers);
    }
    let order = stop_order(target);
    let ghost head = r@;
    let mut i: usize = 0;
    while i < order.len()
        invariant
            i <= order@.len(),
            ids_of(order@) == start_order_spec(target).reverse(),
            r@ == head + ids_of(order@).take(i as int).map_values(|id: ServiceId| Step::Stop(id)),
        decreases order.len() - i,
    {
        assert(ids_of(order@)[i as int] == order@[i as int].id);
        r.push(Step::Stop(order[i].id));
        assert(ids_of(order@).take(i + 1).map_values(|id: ServiceId| Step::Stop(id)) =~= ids_of(order@).take(
            i as int,
        ).map_values(|id: ServiceId| Step::Stop(id)).push(Step::Stop(order@[i as int].id)));
        i = i + 1;
    }
    assert(ids_of(order@).take(order.len() as int) =~= ids_of(order@));
    assert(r@ =~= stop_steps(target));
    r
}

fn start_step_list(target: ServiceId) -> (r: Vec<Step>)
    ensures
        r@ == start_steps(target),
{
    let mut r = vec![Step::EnsurePlists(target)];
    let order = start_order(target);
    let ghost head = r@;
    let mut i: usize = 0;
    while i < order.len()
        invariant
            i <= order@.len(),
            ids_of(order@) == start_order_spec(target),
            r@ == head + ids_of(order@).take(i as int).map_values(|id: ServiceId| Step::Start(id)),
        decreases order.len() - i,
    {
        assert(ids_of(order@)[i as int] == order@[i as int].id);
        r.push(Step::Start(order[i].id));
        assert(ids_of(order@).take(i + 1).map_values(|id: ServiceId| Step::Start(id)) =~= ids_of(order@).take(
            i as int,
        ).map_values(|id: ServiceId| Step::Start(id)).push(Step::Start(order@[i as int].id)));
        i = i + 1;
    }
    assert(ids_of(order@).take(order.len() as int) =~= ids_of(order@));
    assert(r@ =~= start_steps(target));
    r
}

/// The steps that carry out an action on a target, in order, each with how
/// its change is reported. Showing the status needs no steps.
pub fn lifecycle_plan(action: Action, target: ServiceId) -> (r: Vec<(Step, Report)>)
    ensures
        r@ == plan_spec(action, target),
{
    let mut r: Vec<(Step, Report)> = Vec::new();
    match action {
        Action::Status => {},
        Action::Start => {
            push_tagged(&mut r, start_step_list(target), Report::AsIs);
        },
        Action::Stop => {
            push_tagged(&mut r, stop_step_list(target), Report::AsIs);
        },
        Action::Restart => {
            r.push((Step::EnsurePlists(target), Report::AsIs));
            match target {
                ServiceId::All => {
                    push_tagged(&mut r, stop_step_list(ServiceId::All), Report::AsIs);
                    push_tagged(&mut r, start_step_list(ServiceId::All), Report::AsRestartRenamed);
                },
                ServiceId::Net => {
                    let steps = vec![
                        Step::StopVmHelpers,
                        Step::Stop(ServiceId::Net),
                        Step::Start(ServiceId::Net),
                        Step::Restart(ServiceId::Edge),
                        Step::Restart(ServiceId::Supervisor),
                    ];
                    push_tagged(&mut r, steps, Report::AsRestart);
                },
                _ => {
                    push_tagged(&mut r, vec![Step::Restart(target)], Report::AsIs);
                },
            }
        },
    }
    assert(r@ =~= plan_spec(action, target));
    r
}

/// Whenever the network service is stopped, the VM helpers are stopped
/// before it.
pub proof fn law_helpers_stop_before_network(action: Action, target: ServiceId, k: int)
    requires
        0 <= k < plan_spec(action, target).len(),
        plan_spec(action, target)[k].0 == Step::Stop(ServiceId::Net),
    ensures
        exists|j: int| 0 <= j < k && plan_spec(action, target)[j].0 == Step::StopVmHelpers,
{
    let p = plan_spec(action, target);
    match action {
        Action::Stop => {
            if target == ServiceId::All || target == ServiceId::Net {
                assert(p[1].0 == Step::StopVmHelpers);
                assert(k != 0 && k != 1);
            } else {
                assert(p[k].0 == Step::Stop(target) || k == 0);
            }
        },
        Action::Restart => {
            match target {
                ServiceId::All => {
                    assert(p[2].0 == Step::StopVmHelpers);
                    assert(k > 2);
                },
                ServiceId::Net => {
                    assert(p[1].0 == Step::StopVmHelpers);
                    assert(k == 2);
                },
                _ => {},
            }
        },
        _ => {},
    }
}

} // verus!
