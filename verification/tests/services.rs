use vzctl::services::{
    lifecycle_plan, parse_options, start_order, stop_order, Action, Format, Report, ServiceId, Step, EXIT_INVALID,
    EXIT_USAGE,
};

#[test]
fn parse_service_target() {
    assert_eq!(ServiceId::parse(Some("net")).unwrap(), ServiceId::Net);
    assert_eq!(ServiceId::parse(None).unwrap(), ServiceId::All);
    assert!(ServiceId::parse(Some("bogus")).is_err());
}

#[test]
fn stop_order_all_stops_supervisor_before_net() {
    let order = stop_order(ServiceId::All);
    assert_eq!(order[0].id, ServiceId::Supervisor);
    assert_eq!(order[2].id, ServiceId::Net);
}

#[test]
fn start_order_all_starts_net_before_supervisor() {
    let order = start_order(ServiceId::All);
    assert_eq!(order[0].id, ServiceId::Net);
    assert_eq!(order[2].id, ServiceId::Supervisor);
}

#[test]
fn parse_options_defaults_to_all() {
    let args: Vec<String> = ["--format", "json"].into_iter().map(String::from).collect();
    let options = parse_options("status", &args).unwrap();
    assert_eq!(options.target, ServiceId::All);
    assert_eq!(options.format, Format::Json);
    assert_eq!(options.action, Action::Status);
}

#[test]
fn parse_options_refuses_two_targets_and_unknown_flags() {
    let two: Vec<String> = ["net", "edge"].into_iter().map(String::from).collect();
    let failure = parse_options("start", &two).err().unwrap();
    assert_eq!(failure.code, EXIT_USAGE);
    assert_eq!(failure.message, "only one service target may be specified");
    let flag: Vec<String> = ["-x"].into_iter().map(String::from).collect();
    assert_eq!(
        parse_options("stop", &flag).err().unwrap().message,
        "unknown services option: -x"
    );
    let bogus: Vec<String> = ["bogus"].into_iter().map(String::from).collect();
    assert_eq!(parse_options("stop", &bogus).err().unwrap().code, EXIT_INVALID);
    let after_dash: Vec<String> = ["--", "bogus"].into_iter().map(String::from).collect();
    assert_eq!(parse_options("restart", &after_dash).unwrap().target, ServiceId::All);
}

#[test]
fn single_targets_start_and_stop_alone() {
    let order = stop_order(ServiceId::Edge);
    assert_eq!(order.len(), 1);
    assert_eq!(order[0].label, "com.vzctl.edge");
    assert_eq!(order[0].socket_name, Some("edge.sock"));
    assert_eq!(Action::Restart.command(), "services.restart");
    assert_eq!(ServiceId::Supervisor.as_str(), "supervisor");
}

#[test]
fn lifecycle_plans_order_the_steps() {

    assert!(lifecycle_plan(Action::Status, ServiceId::All).is_empty());
    assert_eq!(
        lifecycle_plan(Action::Stop, ServiceId::All),
        vec![
            (Step::EnsurePlists(ServiceId::All), Report::AsIs),
            (Step::StopVmHelpers, Report::AsIs),
            (Step::Stop(ServiceId::Supervisor), Report::AsIs),
            (Step::Stop(ServiceId::Edge), Report::AsIs),
            (Step::Stop(ServiceId::Net), Report::AsIs),
        ]
    );
    assert_eq!(
        lifecycle_plan(Action::Start, ServiceId::Edge),
        vec![(Step::EnsurePlists(ServiceId::Edge), Report::AsIs), (Step::Start(ServiceId::Edge), Report::AsIs)]
    );
    assert_eq!(
        lifecycle_plan(Action::Restart, ServiceId::Net),
        vec![
            (Step::EnsurePlists(ServiceId::Net), Report::AsIs),
            (Step::StopVmHelpers, Report::AsRestart),
            (Step::Stop(ServiceId::Net), Report::AsRestart),
            (Step::Start(ServiceId::Net), Report::AsRestart),
            (Step::Restart(ServiceId::Edge), Report::AsRestart),
            (Step::Restart(ServiceId::Supervisor), Report::AsRestart),
        ]
    );
    let all = lifecycle_plan(Action::Restart, ServiceId::All);
    assert_eq!(all.len(), 1 + 5 + 4);
    assert_eq!(all[6], (Step::EnsurePlists(ServiceId::All), Report::AsRestartRenamed));
    assert_eq!(all[9], (Step::Start(ServiceId::Supervisor), Report::AsRestartRenamed));
    assert_eq!(
        lifecycle_plan(Action::Restart, ServiceId::Supervisor),
        vec![
            (Step::EnsurePlists(ServiceId::Supervisor), Report::AsIs),
            (Step::Restart(ServiceId::Supervisor), Report::AsIs),
        ]
    );
}
