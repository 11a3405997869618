use route2wsl::address::{ipv4, IpAddress};
use route2wsl::hcn::Endpoint;
use route2wsl::interface::ResolvedInterface;
use route2wsl::resolver::{find_wsl_interface, ResolutionError};
use route2wsl::routes::{add_routes, ForwardEntry, RouteSpec};
use route2wsl::table::ForwardingTable;
use route2wsl::wsl_monitor::{
    Discovery, MonitorAction, MonitorEvent, MonitorSession, MonitorState, StopReason, WaitOutcome,
    Watch, WslMonitor, POLL_INTERVAL_SECONDS,
};

const WAIT: MonitorAction = MonitorAction::Wait { seconds: 10 };

fn routes() -> Vec<RouteSpec> {
    vec![
        RouteSpec { address: ipv4(10, 1, 0, 0), prefix: 16 },
        RouteSpec { address: ipv4(10, 96, 0, 0), prefix: 12 },
        RouteSpec { address: ipv4(192, 168, 49, 0), prefix: 24 },
    ]
}

fn interface(name: &str, addresses: Vec<IpAddress>) -> ResolvedInterface {
    ResolvedInterface { name: name.to_string(), index: 23, addresses }
}

fn at(last: u8) -> ResolvedInterface {
    interface("X", vec![IpAddress::V4(ipv4(172, 28, 144, last))])
}

fn table_with(found: ResolvedInterface) -> MonitorEvent {
    MonitorEvent::Interfaces(Ok(vec![
        interface("Ethernet", vec![IpAddress::V4(ipv4(192, 168, 1, 5))]),
        found,
    ]))
}

fn endpoint(owner: &str, gateway: &str) -> Endpoint {
    Endpoint {
        id: String::from("E1"),
        name: String::new(),
        virtual_network: String::new(),
        virtual_network_name: String::new(),
        ipaddress: String::new(),
        gateway_address: gateway.to_string(),
        virtual_machine: owner.to_string(),
    }
}

fn plan_for(interface: &ResolvedInterface) -> Vec<ForwardEntry> {
    add_routes(interface, &routes())
}

fn timed_out() -> MonitorEvent {
    MonitorEvent::WaitFinished(WaitOutcome::TimedOut)
}

fn written(accepted: bool) -> MonitorEvent {
    MonitorEvent::EntryWritten { accepted }
}

fn session(state: MonitorState, last_known_address: Option<u32>) -> MonitorSession {
    MonitorSession { state, last_known_address, last_error: None, stopped: None }
}

fn watching(watch: Watch, last_known_address: Option<u32>) -> MonitorSession {
    session(MonitorState::Resolved { name: String::from("X"), watch }, last_known_address)
}

fn discovering(discovery: Discovery) -> MonitorSession {
    session(MonitorState::Unresolved { discovery }, None)
}

fn failed(mut session: MonitorSession, error: ResolutionError) -> MonitorSession {
    session.last_error = Some(error);
    session
}

fn list_compute_systems() -> MonitorAction {
    MonitorAction::ListComputeSystems { owner: String::from("WSL") }
}

fn named() -> WslMonitor {
    WslMonitor::new(Some(String::from("X")), routes())
}

fn unnamed() -> WslMonitor {
    WslMonitor::new(None, routes())
}

/// Feeds the events in order and gathers the answers.
fn feed(
    monitor: &WslMonitor,
    mut session: MonitorSession,
    events: Vec<MonitorEvent>,
) -> (MonitorSession, Vec<MonitorAction>) {
    let mut answers = Vec::new();
    for event in events {
        let (next, action) = monitor.step(session, event);
        session = next;
        answers.push(action);
    }
    (session, answers)
}

/// A tick of a resolved session that sees `found`: the lookup, the writes,
/// all accepted, and the wait that times out. Returns how many entries were
/// written.
fn tick(monitor: &WslMonitor, session: MonitorSession, found: ResolvedInterface) -> (MonitorSession, usize) {
    let (mut session, mut action) = monitor.step(session, table_with(found));
    let mut writes = 0;
    while let MonitorAction::WriteEntry(_) = action {
        writes += 1;
        (session, action) = monitor.step(session, written(true));
    }
    assert_eq!(action, WAIT);
    let (session, action) = monitor.step(session, timed_out());
    assert_eq!(action, MonitorAction::ListInterfaces);
    (session, writes)
}

#[test]
fn poll_interval_is_ten_seconds() {
    assert_eq!(POLL_INTERVAL_SECONDS, 10);
}

#[test]
fn new_keeps_what_it_is_given() {
    let monitor = named();
    assert_eq!(monitor.wsl_interface_name, Some(String::from("X")));
    assert_eq!(monitor.routes, routes());
}

#[test]
fn start_without_a_name_begins_with_discovery() {
    let (session, action) = unnamed().start();
    assert_eq!(session, discovering(Discovery::FindingVm));
    assert_eq!(action, list_compute_systems());
}

#[test]
fn start_with_a_name_begins_with_the_lookup() {
    let (session, action) = named().start();
    assert_eq!(session, watching(Watch::LookingUp, None));
    assert_eq!(action, MonitorAction::ListInterfaces);
}

#[test]
fn discovery_goes_from_the_machine_over_the_gateway_to_the_interface() {
    let monitor = unnamed();
    let (session, _) = monitor.start();
    let systems = MonitorEvent::ComputeSystems(Ok(vec![String::from("V1")]));
    let (session, action) = monitor.step(session, systems);
    assert_eq!(action, MonitorAction::ListEndpoints);
    assert_eq!(session, discovering(Discovery::FindingEndpoint { vm_id: String::from("V1") }));
    let endpoints = MonitorEvent::Endpoints(Ok(vec![endpoint("V1", "172.28.144.1")]));
    let (session, action) = monitor.step(session, endpoints);
    assert_eq!(action, MonitorAction::ListInterfaces);
    assert_eq!(session, discovering(Discovery::FindingInterface { gateway: 0xAC1C_9001 }));
    let interfaces = MonitorEvent::Interfaces(Ok(vec![
        interface("vEthernet (WSL)", vec![IpAddress::V4(ipv4(172, 28, 144, 1))]),
        interface("Ethernet", vec![IpAddress::V4(ipv4(192, 168, 1, 5))]),
    ]));
    let (session, action) = monitor.step(session, interfaces);
    assert_eq!(action, MonitorAction::ListInterfaces);
    assert_eq!(
        session.state,
        MonitorState::Resolved { name: String::from("vEthernet (WSL)"), watch: Watch::LookingUp }
    );
    assert_eq!(session.last_known_address, None);
}

#[test]
fn discovery_that_fails_is_tried_again_after_the_wait() {
    let monitor = unnamed();
    let vm = || MonitorEvent::ComputeSystems(Ok(vec![String::from("V1")]));
    let gateway = || MonitorEvent::Endpoints(Ok(vec![endpoint("V1", "172.28.144.1")]));
    let attempts: Vec<(Vec<MonitorEvent>, ResolutionError)> = vec![
        (vec![MonitorEvent::ComputeSystems(Ok(Vec::new()))], ResolutionError::VmNotFound),
        (vec![MonitorEvent::ComputeSystems(Err(String::from("down")))], ResolutionError::VmNotFound),
        (vec![vm(), MonitorEvent::Endpoints(Err(String::from("down")))], ResolutionError::QueryFailed),
        (vec![vm(), MonitorEvent::Endpoints(Ok(Vec::new()))], ResolutionError::NoEndpoint),
        (
            vec![vm(), MonitorEvent::Endpoints(Ok(vec![endpoint("V2", "172.28.144.1")]))],
            ResolutionError::NoEndpoint,
        ),
        (
            vec![vm(), MonitorEvent::Endpoints(Ok(vec![endpoint("V1", "gateway")]))],
            ResolutionError::InvalidGateway,
        ),
        (
            vec![vm(), gateway(), MonitorEvent::Interfaces(Err(String::from("down")))],
            ResolutionError::QueryFailed,
        ),
        (vec![vm(), gateway(), table_with(at(2))], ResolutionError::NoMatchingInterface),
    ];
    let (mut session, _) = monitor.start();
    for (events, error) in attempts {
        let (after, answers) = feed(&monitor, session, events);
        assert_eq!(answers.last(), Some(&WAIT));
        assert_eq!(after, failed(discovering(Discovery::Idle), error));
        let (after, action) = monitor.step(after, timed_out());
        assert_eq!(action, list_compute_systems());
        assert_eq!(after, discovering(Discovery::FindingVm));
        session = after;
    }
}

#[test]
fn discovery_step_by_step_finds_what_find_wsl_interface_finds() {
    let monitor = unnamed();
    let systems = vec![
        Ok(vec![String::from("V1")]),
        Ok(Vec::new()),
        Err(String::from("down")),
    ];
    let endpoints = vec![
        Ok(vec![endpoint("V2", "10.0.0.1"), endpoint("V1", "172.28.144.1")]),
        Ok(vec![endpoint("V1", "nonsense")]),
        Ok(vec![endpoint("V2", "172.28.144.1")]),
        Err(String::from("down")),
    ];
    let interfaces = vec![
        Ok(vec![at(2), interface("Y", vec![IpAddress::V4(ipv4(172, 28, 144, 1))])]),
        Ok(vec![at(2)]),
        Err(String::from("down")),
    ];
    for s in &systems {
        for e in &endpoints {
            for i in &interfaces {
                let expected = find_wsl_interface(s, e, i);
                let (session, _) = monitor.start();
                let events = vec![
                    MonitorEvent::ComputeSystems(s.clone()),
                    MonitorEvent::Endpoints(e.clone()),
                    MonitorEvent::Interfaces(i.clone()),
                ];
                let (after, _) = feed(&monitor, session, events);
                match expected {
                    Ok(name) => {
                        assert_eq!(name, "Y");
                        let state = MonitorState::Resolved { name, watch: Watch::LookingUp };
                        assert_eq!(after, session_with(state));
                    },
                    Err(error) => {
                        assert_eq!(after, failed(discovering(Discovery::Idle), error));
                    },
                }
            }
        }
    }
}

fn session_with(state: MonitorState) -> MonitorSession {
    session(state, None)
}

#[test]
fn first_lookup_writes_the_plan() {
    let monitor = named();
    let (session, _) = monitor.start();
    let plan = plan_for(&at(1));
    let (session, action) = monitor.step(session, table_with(at(1)));
    assert_eq!(action, MonitorAction::WriteEntry(plan[0]));
    assert_eq!(
        session,
        watching(Watch::Writing { entries: plan.clone(), written: 0 }, Some(ipv4(172, 28, 144, 1)))
    );
    let (session, action) = monitor.step(session, written(true));
    assert_eq!(action, MonitorAction::WriteEntry(plan[1]));
    let (session, action) = monitor.step(session, written(true));
    assert_eq!(action, MonitorAction::WriteEntry(plan[2]));
    assert_eq!(
        session,
        watching(Watch::Writing { entries: plan.clone(), written: 2 }, Some(ipv4(172, 28, 144, 1)))
    );
    let (session, action) = monitor.step(session, written(true));
    assert_eq!(action, WAIT);
    assert_eq!(session, watching(Watch::Idle, Some(ipv4(172, 28, 144, 1))));
}

#[test]
fn the_plan_holds_an_entry_for_each_configured_route() {
    let monitor = named();
    let (session, _) = monitor.start();
    let (session, _) = monitor.step(session, table_with(at(1)));
    match session.state {
        MonitorState::Resolved { watch: Watch::Writing { entries, written: 0 }, .. } => {
            assert_eq!(entries.len(), 3);
            for (entry, route) in entries.iter().zip(routes()) {
                assert_eq!(entry.destination, route.address);
                assert_eq!(entry.prefix_length, route.prefix);
                assert_eq!(entry.next_hop, ipv4(172, 28, 144, 1));
                assert_eq!(entry.interface_index, 23);
                assert_eq!(entry.metric, 1);
            }
        },
        other => panic!("{:?}", other),
    }
}

#[test]
fn a_refused_entry_does_not_end_the_writing() {
    let monitor = named();
    let plan = plan_for(&at(1));
    for outcomes in [[false, true, true], [true, false, true], [false, false, false]] {
        let (session, _) = monitor.start();
        let (session, first) = monitor.step(session, table_with(at(1)));
        let events = outcomes.iter().map(|accepted| written(*accepted)).collect();
        let (session, answers) = feed(&monitor, session, events);
        assert_eq!(first, MonitorAction::WriteEntry(plan[0]));
        assert_eq!(
            answers,
            vec![MonitorAction::WriteEntry(plan[1]), MonitorAction::WriteEntry(plan[2]), WAIT]
        );
        assert_eq!(session, watching(Watch::Idle, Some(ipv4(172, 28, 144, 1))));
    }
}

#[test]
fn writes_once_for_each_change_of_address() {
    let monitor = named();
    let (mut session, _) = monitor.start();
    let seen: [u8; 9] = [1, 1, 2, 2, 2, 1, 3, 3, 1];
    let changed = [true, false, true, false, false, true, true, false, true];
    let mut syncs = 0;
    for (last, expected) in seen.iter().zip(changed) {
        let (after, writes) = tick(&monitor, session, at(*last));
        assert_eq!(writes, if expected { 3 } else { 0 });
        assert_eq!(after.last_known_address, Some(ipv4(172, 28, 144, *last)));
        if expected {
            syncs += 1;
        }
        session = after;
    }
    assert_eq!(syncs, 5);
}

#[test]
fn failed_lookups_between_two_sightings_do_not_count_as_a_change() {
    let monitor = named();
    let (session, _) = monitor.start();
    let (session, writes) = tick(&monitor, session, at(1));
    assert_eq!(writes, 3);
    let (session, action) = monitor.step(session, table_with(interface("Y", Vec::new())));
    assert_eq!(action, WAIT);
    assert_eq!(
        session,
        failed(watching(Watch::Idle, Some(ipv4(172, 28, 144, 1))), ResolutionError::InterfaceNotFound)
    );
    let (session, action) = monitor.step(session, timed_out());
    assert_eq!(action, MonitorAction::ListInterfaces);
    let (session, action) = monitor.step(session, MonitorEvent::Interfaces(Err(String::from("down"))));
    assert_eq!(action, WAIT);
    assert_eq!(session.last_error, Some(ResolutionError::QueryFailed));
    let (session, _) = monitor.step(session, timed_out());
    let (session, writes) = tick(&monitor, session, at(1));
    assert_eq!(writes, 0);
    assert_eq!(session, watching(Watch::LookingUp, Some(ipv4(172, 28, 144, 1))));
}

#[test]
fn the_address_compared_is_the_first_ipv4_address() {
    let monitor = named();
    let (session, _) = monitor.start();
    let first = ipv4(172, 28, 144, 1);
    let one = interface("X", vec![IpAddress::V6(9), IpAddress::V4(first)]);
    let (session, writes) = tick(&monitor, session, one);
    assert_eq!(writes, 3);
    let more = interface("X", vec![IpAddress::V4(first), IpAddress::V4(ipv4(10, 0, 0, 1))]);
    let (session, writes) = tick(&monitor, session, more);
    assert_eq!(writes, 0);
    let swapped = interface("X", vec![IpAddress::V4(ipv4(10, 0, 0, 1)), IpAddress::V4(first)]);
    let (session, writes) = tick(&monitor, session, swapped);
    assert_eq!(writes, 3);
    assert_eq!(session.last_known_address, Some(ipv4(10, 0, 0, 1)));
}

#[test]
fn an_interface_without_ipv4_address_gets_nothing_written() {
    let monitor = named();
    let (session, _) = monitor.start();
    let bare = || interface("X", vec![IpAddress::V6(1)]);
    let (session, writes) = tick(&monitor, session, bare());
    assert_eq!(writes, 0);
    assert_eq!(session.last_known_address, None);
    let (session, writes) = tick(&monitor, session, at(1));
    assert_eq!(writes, 3);
    let (session, action) = monitor.step(session, table_with(bare()));
    assert_eq!(action, WAIT);
    assert_eq!(session, watching(Watch::Idle, None));
    let (session, _) = monitor.step(session, timed_out());
    let (_, writes) = tick(&monitor, session, at(1));
    assert_eq!(writes, 3);
}

#[test]
fn a_monitor_without_routes_writes_nothing() {
    let monitor = WslMonitor::new(Some(String::from("X")), Vec::new());
    let (session, _) = monitor.start();
    let (session, action) = monitor.step(session, table_with(at(1)));
    assert_eq!(action, WAIT);
    assert_eq!(session, watching(Watch::Idle, Some(ipv4(172, 28, 144, 1))));
}

#[test]
fn resolved_is_sticky_through_failing_lookups() {
    let monitor = unnamed();
    let (session, _) = monitor.start();
    let discovery = vec![
        MonitorEvent::ComputeSystems(Ok(vec![String::from("V1")])),
        MonitorEvent::Endpoints(Ok(vec![endpoint("V1", "172.28.144.1")])),
        table_with(at(1)),
    ];
    let (session, _) = feed(&monitor, session, discovery);
    let mut events = Vec::new();
    for _ in 0..3 {
        events.push(table_with(interface("Y", Vec::new())));
        events.push(timed_out());
        events.push(MonitorEvent::Interfaces(Err(String::from("down"))));
        events.push(timed_out());
    }
    events.push(table_with(at(1)));
    events.extend([written(false), written(false), written(false), timed_out()]);
    events.push(MonitorEvent::Interfaces(Ok(Vec::new())));
    events.push(MonitorEvent::ComputeSystems(Ok(vec![String::from("V2")])));
    events.push(MonitorEvent::Endpoints(Ok(vec![endpoint("V2", "10.0.0.1")])));
    events.push(timed_out());
    let (session, answers) = feed(&monitor, session, events);
    for answer in &answers {
        assert_ne!(answer, &list_compute_systems());
        assert_ne!(answer, &MonitorAction::ListEndpoints);
    }
    assert_eq!(answers.last(), Some(&MonitorAction::ListInterfaces));
    assert_eq!(session, watching(Watch::LookingUp, Some(ipv4(172, 28, 144, 1))));
}

#[test]
fn a_named_interface_is_never_discovered() {
    let monitor = named();
    let (session, first) = monitor.start();
    assert_eq!(first, MonitorAction::ListInterfaces);
    let events = vec![
        MonitorEvent::Interfaces(Err(String::from("down"))),
        timed_out(),
        MonitorEvent::Interfaces(Ok(Vec::new())),
        timed_out(),
    ];
    let (_, answers) = feed(&monitor, session, events);
    assert_eq!(answers, vec![WAIT, MonitorAction::ListInterfaces, WAIT, MonitorAction::ListInterfaces]);
}

#[test]
fn stop_signal_during_the_wait_ends_the_session() {
    let ends = [
        (WaitOutcome::Signaled, StopReason::Signaled),
        (WaitOutcome::Closed, StopReason::Closed),
    ];
    for (outcome, reason) in ends {
        let monitor = named();
        let waiting = failed(watching(Watch::Idle, Some(7)), ResolutionError::InterfaceNotFound);
        let (session, action) = monitor.step(waiting, MonitorEvent::WaitFinished(outcome));
        assert_eq!(action, MonitorAction::Stop { reason });
        assert_eq!(
            session,
            MonitorSession { stopped: Some(reason), ..watching(Watch::Idle, Some(7)) }
        );
        let monitor = unnamed();
        let waiting = discovering(Discovery::Idle);
        let (session, action) = monitor.step(waiting, MonitorEvent::WaitFinished(outcome));
        assert_eq!(action, MonitorAction::Stop { reason });
        assert_eq!(session.stopped, Some(reason));
    }
}

#[test]
fn nothing_is_done_after_the_stop() {
    let monitor = named();
    let (session, _) = monitor.start();
    let (session, _) = tick(&monitor, session, at(1));
    let (session, _) = monitor.step(session, MonitorEvent::Interfaces(Ok(Vec::new())));
    let (session, action) = monitor.step(session, MonitorEvent::WaitFinished(WaitOutcome::Signaled));
    assert_eq!(action, MonitorAction::Stop { reason: StopReason::Signaled });
    let stopped = session.clone();
    assert_eq!(stopped.stopped, Some(StopReason::Signaled));
    let later = vec![
        table_with(at(2)),
        written(true),
        timed_out(),
        MonitorEvent::ComputeSystems(Ok(vec![String::from("V1")])),
        MonitorEvent::Endpoints(Ok(vec![endpoint("V1", "172.28.144.1")])),
        MonitorEvent::Interfaces(Err(String::from("down"))),
        MonitorEvent::WaitFinished(WaitOutcome::Closed),
        table_with(at(3)),
    ];
    let count = later.len();
    let (session, answers) = feed(&monitor, session, later);
    assert_eq!(answers, vec![MonitorAction::Stop { reason: StopReason::Signaled }; count]);
    assert_eq!(session, stopped);
}

#[test]
fn an_event_that_was_not_asked_for_changes_nothing() {
    let monitor = named();
    let plan = plan_for(&at(1));
    let sessions = vec![
        discovering(Discovery::FindingVm),
        discovering(Discovery::FindingEndpoint { vm_id: String::from("V1") }),
        discovering(Discovery::FindingInterface { gateway: 7 }),
        failed(discovering(Discovery::Idle), ResolutionError::NoEndpoint),
        watching(Watch::LookingUp, Some(7)),
        watching(Watch::Writing { entries: plan.clone(), written: 1 }, Some(7)),
        failed(watching(Watch::Idle, None), ResolutionError::InterfaceNotFound),
    ];
    let events = || {
        vec![
            MonitorEvent::ComputeSystems(Ok(vec![String::from("V1")])),
            MonitorEvent::Endpoints(Ok(vec![endpoint("V1", "172.28.144.1")])),
            table_with(at(1)),
            written(true),
            MonitorEvent::WaitFinished(WaitOutcome::Signaled),
        ]
    };
    let asked_for = [vec![0], vec![1], vec![2], vec![4], vec![2], vec![3], vec![4]];
    for (session, asked) in sessions.into_iter().zip(asked_for) {
        let pending = session.pending();
        for (position, event) in events().into_iter().enumerate() {
            let (after, action) = monitor.step(session.clone(), event);
            if asked.contains(&position) {
                assert_ne!(after, session);
            } else {
                assert_eq!(after, session);
                assert_eq!(action, pending);
            }
        }
    }
}

#[test]
fn pending_is_what_the_session_has_asked_for() {
    let plan = plan_for(&at(1));
    assert_eq!(discovering(Discovery::FindingVm).pending(), list_compute_systems());
    let finding = Discovery::FindingEndpoint { vm_id: String::from("V1") };
    assert_eq!(discovering(finding).pending(), MonitorAction::ListEndpoints);
    let finding = Discovery::FindingInterface { gateway: 7 };
    assert_eq!(discovering(finding).pending(), MonitorAction::ListInterfaces);
    assert_eq!(discovering(Discovery::Idle).pending(), WAIT);
    assert_eq!(watching(Watch::LookingUp, None).pending(), MonitorAction::ListInterfaces);
    let writing = Watch::Writing { entries: plan.clone(), written: 2 };
    assert_eq!(watching(writing, None).pending(), MonitorAction::WriteEntry(plan[2]));
    assert_eq!(watching(Watch::Idle, None).pending(), WAIT);
    let mut stopped = watching(Watch::LookingUp, None);
    stopped.stopped = Some(StopReason::Closed);
    assert_eq!(stopped.pending(), MonitorAction::Stop { reason: StopReason::Closed });
}

#[test]
fn a_plan_written_to_its_end_counts_as_a_wait() {
    let monitor = named();
    let plan = plan_for(&at(1));
    let done = watching(Watch::Writing { entries: plan.clone(), written: 3 }, None);
    assert_eq!(done.pending(), WAIT);
    let (after, action) = monitor.step(done.clone(), written(true));
    assert_eq!(after, done);
    assert_eq!(action, WAIT);
    let (after, action) = monitor.step(done, timed_out());
    assert_eq!(after, watching(Watch::LookingUp, None));
    assert_eq!(action, MonitorAction::ListInterfaces);
}

/// The rows in one fixed order, whatever order the table keeps them in.
fn sorted(rows: &Vec<ForwardEntry>) -> Vec<ForwardEntry> {
    let mut rows = rows.clone();
    rows.sort_by_key(|row| (row.next_hop, row.destination, row.prefix_length, row.interface_index));
    rows
}

/// A host for one session: its interface table changes from tick to tick
/// and it refuses every entry for one destination.
struct Host {
    tables: Vec<Result<Vec<ResolvedInterface>, String>>,
    refused: Option<u32>,
    forwarding: ForwardingTable,
    writes: usize,
    ticks: usize,
}

fn run(monitor: &WslMonitor, host: &mut Host) -> MonitorSession {
    let (mut session, mut action) = monitor.start();
    loop {
        let event = match action {
            MonitorAction::ListComputeSystems { owner } => {
                assert_eq!(owner, "WSL");
                MonitorEvent::ComputeSystems(Ok(vec![String::from("V1")]))
            },
            MonitorAction::ListEndpoints => {
                MonitorEvent::Endpoints(Ok(vec![endpoint("V1", "172.28.144.1")]))
            },
            MonitorAction::ListInterfaces => {
                MonitorEvent::Interfaces(host.tables[host.ticks.min(host.tables.len() - 1)].clone())
            },
            MonitorAction::WriteEntry(entry) => {
                host.writes += 1;
                let accepted = Some(entry.destination) != host.refused;
                if accepted {
                    host.forwarding.submit(entry);
                }
                MonitorEvent::EntryWritten { accepted }
            },
            MonitorAction::Wait { seconds } => {
                assert_eq!(seconds, 10);
                host.ticks += 1;
                if host.ticks < host.tables.len() {
                    timed_out()
                } else {
                    MonitorEvent::WaitFinished(WaitOutcome::Signaled)
                }
            },
            MonitorAction::Stop { reason } => {
                assert_eq!(reason, StopReason::Signaled);
                return session;
            },
        };
        (session, action) = monitor.step(session, event);
    }
}

#[test]
fn a_whole_session_from_discovery_to_stop() {
    let mut host = Host {
        tables: vec![
            Err(String::from("down")),
            Ok(vec![at(1)]),
            Ok(vec![at(1)]),
            Ok(Vec::new()),
            Ok(vec![at(1)]),
            Ok(vec![at(2)]),
        ],
        refused: None,
        forwarding: ForwardingTable::new(),
        writes: 0,
        ticks: 0,
    };
    let last = run(&unnamed(), &mut host);
    assert_eq!(host.ticks, 6);
    assert_eq!(host.writes, 6);
    assert_eq!(host.forwarding.len(), 6);
    let mut expected = plan_for(&at(1));
    expected.extend(plan_for(&at(2)));
    assert_eq!(sorted(host.forwarding.rows()), sorted(&expected));
    assert_eq!(
        last,
        MonitorSession {
            stopped: Some(StopReason::Signaled),
            ..watching(Watch::Idle, Some(ipv4(172, 28, 144, 2)))
        }
    );
}

#[test]
fn a_session_whose_address_goes_back_and_forth_adds_no_row_twice() {
    let mut host = Host {
        tables: vec![Ok(vec![at(1)]), Ok(vec![at(2)]), Ok(vec![at(1)]), Ok(vec![at(2)])],
        refused: None,
        forwarding: ForwardingTable::new(),
        writes: 0,
        ticks: 0,
    };
    run(&named(), &mut host);
    assert_eq!(host.writes, 12);
    assert_eq!(host.forwarding.len(), 6);
}

#[test]
fn a_session_against_a_host_that_refuses_one_route() {
    let mut host = Host {
        tables: vec![Ok(vec![at(1)]), Ok(vec![at(1)]), Ok(vec![at(2)])],
        refused: Some(ipv4(10, 96, 0, 0)),
        forwarding: ForwardingTable::new(),
        writes: 0,
        ticks: 0,
    };
    run(&named(), &mut host);
    assert_eq!(host.writes, 6);
    let first = plan_for(&at(1));
    let second = plan_for(&at(2));
    assert_eq!(
        sorted(host.forwarding.rows()),
        sorted(&vec![first[0], first[2], second[0], second[2]])
    );
}
