//! The monitor: which host operation comes next, given how the last one
//! ended.
//!
//! The monitor itself touches nothing. It asks for one operation at a time
//! (a [`MonitorAction`]): a query, a write or a wait. The caller performs it
//! and comes back with its outcome (a [`MonitorEvent`]), and the monitor
//! says what to do next. All that is kept between two operations is a
//! [`MonitorSession`].
//!
//! A tick is a round of operations that ends with a wait. While the
//! interface is unknown, a tick is one attempt to discover it. Once it is
//! known, a tick looks it up by name and, where its address has changed,
//! writes the routes anew.

use vstd::prelude::*;
use vstd::string::StringExecFns;
use crate::hcn::{Endpoint, EndpointView};
use crate::hcs::{get_virtual_machine_id, vm_identity_model, WSL_OWNER};
use crate::interface::{first_ipv4, InterfaceView, ResolvedInterface};
use crate::resolver::{
    carrier_model,
    gateway_address,
    gateway_model,
    get_interface_address,
    interface_with_address,
    resolve_by_name_model,
    snapshot,
    ResolutionError,
};
use crate::routes::{add_routes, sync_plan, ForwardEntry, RouteSpec};

verus! {

/// How long one wait for the stop signal lasts, in seconds. It bounds how
/// stale the routes can get after the interface's address has changed.
pub const POLL_INTERVAL_SECONDS: u64 = 10;

/// What the monitor is set up with: the interface to watch, or none to have
/// it discovered, and the routes to keep pointed at it.
#[derive(Clone, Debug, PartialEq, Eq)]
pub struct WslMonitor {
    pub wsl_interface_name: Option<String>,
    pub routes: Vec<RouteSpec>,
}

/// How far an attempt to discover the interface has come.
#[derive(Clone, Debug, PartialEq, Eq)]
pub enum Discovery {
    /// The owner's compute systems were asked for.
    FindingVm,
    /// The machine is known and the endpoints were asked for.
    FindingEndpoint { vm_id: String },
    /// The gateway address is known and the interface table was asked for.
    FindingInterface { gateway: u32 },
    /// The attempt has failed, or none was made yet in a session put
    /// together by hand; the next one begins after the wait.
    Idle,
}

/// What goes on while the interface is known.
#[derive(Clone, Debug, PartialEq, Eq)]
pub enum Watch {
    /// The interface table was asked for, to look the interface up.
    LookingUp,
    /// The address has changed and the entries are being written; `written`
    /// of them were submitted already and the next one was asked for.
    Writing { entries: Vec<ForwardEntry>, written: usize },
    /// Nothing is left to do in this tick but to wait.
    Idle,
}

/// Whether the interface is known yet. Once it is, it stays known: a lookup
/// that fails later does not bring discovery back.
#[derive(Clone, Debug, PartialEq, Eq)]
pub enum MonitorState {
    Unresolved { discovery: Discovery },
    Resolved { name: String, watch: Watch },
}

/// What is kept from one operation to the next.
#[derive(Clone, Debug, PartialEq, Eq)]
pub struct MonitorSession {
    pub state: MonitorState,
    /// The interface's first IPv4 address at the last successful lookup.
    pub last_known_address: Option<u32>,
    /// Why the last operation that was taken in ended the tick, where it
    /// failed.
    pub last_error: Option<ResolutionError>,
    /// Set once the session has ended, to what ended it; nothing is done
    /// after that.
    pub stopped: Option<StopReason>,
}

/// What ended a session.
#[derive(Clone, Copy, Debug, PartialEq, Eq, Structural)]
pub enum StopReason {
    /// The controller asked to stop: the orderly end.
    Signaled,
    /// The controller is gone, which the caller takes for a failure of the
    /// session.
    Closed,
}

/// How a wait for the stop signal ended.
#[derive(Clone, Copy, Debug, PartialEq, Eq, Structural)]
pub enum WaitOutcome {
    /// The controller asked to stop.
    Signaled,
    /// The interval passed without a signal.
    TimedOut,
    /// The controller is gone.
    Closed,
}

/// How the operation that the monitor asked for ended.
#[derive(Debug, PartialEq, Eq)]
pub enum MonitorEvent {
    /// The identities of the owner's compute systems, or the host's words
    /// where the query failed.
    ComputeSystems(Result<Vec<String>, String>),
    /// The host's virtual endpoints.
    Endpoints(Result<Vec<Endpoint>, String>),
    /// The host's interface table.
    Interfaces(Result<Vec<ResolvedInterface>, String>),
    /// The entry was submitted, and the host took it or not.
    EntryWritten { accepted: bool },
    /// The wait ended.
    WaitFinished(WaitOutcome),
}

/// The operation to perform next.
#[derive(Clone, Debug, PartialEq, Eq)]
pub enum MonitorAction {
    /// Ask the host for the compute systems of this owner.
    ListComputeSystems { owner: String },
    /// Ask the host for its virtual endpoints.
    ListEndpoints,
    /// Read the host's interface table.
    ListInterfaces,
    /// Submit this entry to the host's forwarding table.
    WriteEntry(ForwardEntry),
    /// Wait for the stop signal, this many seconds at most.
    Wait { seconds: u64 },
    /// End the session.
    Stop { reason: StopReason },
}

/// A [`Discovery`] as plain values.
pub ghost enum DiscoveryView {
    FindingVm,
    FindingEndpoint { vm_id: Seq<char> },
    FindingInterface { gateway: u32 },
    Idle,
}

/// A [`Watch`] as plain values.
pub ghost enum WatchView {
    LookingUp,
    Writing { entries: Seq<ForwardEntry>, written: nat },
    Idle,
}

/// A [`MonitorState`] as plain values.
pub ghost enum StateView {
    Unresolved { discovery: DiscoveryView },
    Resolved { name: Seq<char>, watch: WatchView },
}

/// A [`MonitorSession`] as plain values.
pub ghost struct SessionView {
    pub state: StateView,
    pub last_known_address: Option<u32>,
    pub last_error: Option<ResolutionError>,
    pub stopped: Option<StopReason>,
}

/// A [`MonitorEvent`] as plain values; a query that failed brought nothing.
pub ghost enum EventView {
    ComputeSystems(Option<Seq<Seq<char>>>),
    Endpoints(Option<Seq<EndpointView>>),
    Interfaces(Option<Seq<InterfaceView>>),
    EntryWritten { accepted: bool },
    WaitFinished(WaitOutcome),
}

/// A [`MonitorAction`] as plain values.
pub ghost enum ActionView {
    ListComputeSystems { owner: Seq<char> },
    ListEndpoints,
    ListInterfaces,
    WriteEntry(ForwardEntry),
    Wait { seconds: u64 },
    Stop { reason: StopReason },
}

impl View for Discovery {
    type V = DiscoveryView;

    open spec fn view(&self) -> DiscoveryView {
        match self {
            Discovery::FindingVm => DiscoveryView::FindingVm,
            Discovery::FindingEndpoint { vm_id } => DiscoveryView::FindingEndpoint {
                vm_id: vm_id@,
            },
            Discovery::FindingInterface { gateway } => DiscoveryView::FindingInterface {
                gateway: *gateway,
            },
            Discovery::Idle => DiscoveryView::Idle,
        }
    }
}

impl View for Watch {
    type V = WatchView;

    open spec fn view(&self) -> WatchView {
        match self {
            Watch::LookingUp => WatchView::LookingUp,
            Watch::Writing { entries, written } => WatchView::Writing {
                entries: entries@,
                written: *written as nat,
            },
            Watch::Idle => WatchView::Idle,
        }
    }
}

impl View for MonitorState {
    type V = StateView;

    open spec fn view(&self) -> StateView {
        match self {
            MonitorState::Unresolved { discovery } => StateView::Unresolved {
                discovery: discovery@,
            },
            MonitorState::Resolved { name, watch } => StateView::Resolved {
                name: name@,
                watch: watch@,
            },
        }
    }
}

impl View for MonitorSession {
    type V = SessionView;

    open spec fn view(&self) -> SessionView {
        SessionView {
            state: self.state@,
            last_known_address: self.last_known_address,
            last_error: self.last_error,
            stopped: self.stopped,
        }
    }
}

impl View for MonitorEvent {
    type V = EventView;

    open spec fn view(&self) -> EventView {
        match self {
            MonitorEvent::ComputeSystems(systems) => EventView::ComputeSystems(snapshot(*systems)),
            MonitorEvent::Endpoints(endpoints) => EventView::Endpoints(snapshot(*endpoints)),
            MonitorEvent::Interfaces(interfaces) => EventView::Interfaces(snapshot(*interfaces)),
            MonitorEvent::EntryWritten { accepted } => EventView::EntryWritten {
                accepted: *accepted,
            },
            MonitorEvent::WaitFinished(outcome) => EventView::WaitFinished(*outcome),
        }
    }
}

impl View for MonitorAction {
    type V = ActionView;

    open spec fn view(&self) -> ActionView {
        match self {
            MonitorAction::ListComputeSystems { owner } => ActionView::ListComputeSystems {
                owner: owner@,
            },
            MonitorAction::ListEndpoints => ActionView::ListEndpoints,
            MonitorAction::ListInterfaces => ActionView::ListInterfaces,
            MonitorAction::WriteEntry(entry) => ActionView::WriteEntry(*entry),
            MonitorAction::Wait { seconds } => ActionView::Wait { seconds: *seconds },
            MonitorAction::Stop { reason } => ActionView::Stop { reason: *reason },
        }
    }
}

/// The wait that ends a tick.
pub open spec fn wait() -> ActionView {
    ActionView::Wait { seconds: POLL_INTERVAL_SECONDS }
}

/// The operation that a session has asked for and not heard of yet.
pub open spec fn pending(session: SessionView) -> ActionView {
    if let Some(reason) = session.stopped {
        ActionView::Stop { reason }
    } else {
        match session.state {
            StateView::Unresolved { discovery } => match discovery {
                DiscoveryView::FindingVm => ActionView::ListComputeSystems { owner: WSL_OWNER@ },
                DiscoveryView::FindingEndpoint { .. } => ActionView::ListEndpoints,
                DiscoveryView::FindingInterface { .. } => ActionView::ListInterfaces,
                DiscoveryView::Idle => wait(),
            },
            StateView::Resolved { watch, .. } => match watch {
                WatchView::LookingUp => ActionView::ListInterfaces,
                WatchView::Writing { entries, written } => if written < entries.len() {
                    ActionView::WriteEntry(entries[written as int])
                } else {
                    wait()
                },
                WatchView::Idle => wait(),
            },
        }
    }
}

/// The session that a monitor starts in: with the interface known if the
/// operator named it, at the beginning of its first tick, no address seen
/// yet.
pub open spec fn initial_session(wsl_interface_name: Option<Seq<char>>) -> SessionView {
    SessionView {
        state: match wsl_interface_name {
            Some(name) => StateView::Resolved { name, watch: WatchView::LookingUp },
            None => StateView::Unresolved { discovery: DiscoveryView::FindingVm },
        },
        last_known_address: None,
        last_error: None,
        stopped: None,
    }
}

/// The session after an operation went well and `state` is reached.
pub open spec fn proceed(session: SessionView, state: StateView) -> SessionView {
    SessionView { state, last_error: None, ..session }
}

/// The session after an operation failed with `error`: the tick is over.
pub open spec fn give_up(session: SessionView, error: ResolutionError) -> SessionView {
    SessionView {
        state: match session.state {
            StateView::Unresolved { .. } => StateView::Unresolved {
                discovery: DiscoveryView::Idle,
            },
            StateView::Resolved { name, .. } => StateView::Resolved {
                name,
                watch: WatchView::Idle,
            },
        },
        last_error: Some(error),
        ..session
    }
}

/// What a session does with a plan of which `written` entries were
/// submitted: it goes on with the next entry, or has nothing left to write.
pub open spec fn writing(plan: Seq<ForwardEntry>, written: nat) -> WatchView {
    if written < plan.len() {
        WatchView::Writing { entries: plan, written }
    } else {
        WatchView::Idle
    }
}

/// The session at the beginning of the next tick: discovery while the
/// interface is unknown, the lookup by name once it is known.
pub open spec fn next_tick(session: SessionView) -> SessionView {
    proceed(
        session,
        match session.state {
            StateView::Unresolved { .. } => StateView::Unresolved {
                discovery: DiscoveryView::FindingVm,
            },
            StateView::Resolved { name, .. } => StateView::Resolved {
                name,
                watch: WatchView::LookingUp,
            },
        },
    )
}

/// The session after it has ended.
pub open spec fn stop(session: SessionView, reason: StopReason) -> SessionView {
    SessionView { stopped: Some(reason), last_error: None, ..session }
}

/// The session after its lookup found `interface`: where the interface's
/// first IPv4 address is not the one seen last, the address is kept and the
/// plan for this interface is written; where it is, the tick is over.
pub open spec fn observe(
    routes: Seq<RouteSpec>,
    session: SessionView,
    name: Seq<char>,
    interface: InterfaceView,
) -> SessionView {
    let address = first_ipv4(interface.addresses);
    if address != session.last_known_address {
        SessionView {
            state: StateView::Resolved { name, watch: writing(sync_plan(interface, routes), 0) },
            last_known_address: address,
            last_error: None,
            ..session
        }
    } else {
        proceed(session, StateView::Resolved { name, watch: WatchView::Idle })
    }
}

/// The monitor's transition table: the session after `event`.
///
/// An event counts only as the answer to what the session has asked for
/// ([`pending`]); any other event, and every event once the session has
/// stopped, leaves the session as it is.
///
/// - The compute systems: the first is the machine, and the endpoints are
///   asked for; without one the attempt is over.
/// - The endpoints: the gateway address of the first endpoint that the
///   machine owns is read, and the interface table is asked for; without
///   such an endpoint, or with an address that is none, the attempt is over.
/// - The interface table, during discovery: the first interface that
///   carries the gateway address becomes the known interface, and its lookup
///   follows at once, without a wait; without such an interface the attempt
///   is over.
/// - The interface table, for the lookup: see [`observe`]; where the
///   interface is not in the table the tick is over and the interface stays
///   known.
/// - An entry written: the next entry of the plan follows, whether the host
///   took this one or not; after the last, the tick is over.
/// - The wait: timed out, the next tick begins; signalled, or with the
///   signal's source gone, the session stops.
pub open spec fn step_model(routes: Seq<RouteSpec>, session: SessionView, event: EventView)
    -> SessionView {
    if session.stopped is Some {
        session
    } else {
        match (session.state, event) {
            (
                StateView::Unresolved { discovery: DiscoveryView::FindingVm },
                EventView::ComputeSystems(systems),
            ) => match vm_identity_model(systems) {
                Ok(vm_id) => proceed(
                    session,
                    StateView::Unresolved { discovery: DiscoveryView::FindingEndpoint { vm_id } },
                ),
                Err(error) => give_up(session, error),
            },
            (
                StateView::Unresolved { discovery: DiscoveryView::FindingEndpoint { vm_id } },
                EventView::Endpoints(endpoints),
            ) => match gateway_model(vm_id, endpoints) {
                Ok(gateway) => proceed(
                    session,
                    StateView::Unresolved {
                        discovery: DiscoveryView::FindingInterface { gateway },
                    },
                ),
                Err(error) => give_up(session, error),
            },
            (
                StateView::Unresolved { discovery: DiscoveryView::FindingInterface { gateway } },
                EventView::Interfaces(interfaces),
            ) => match carrier_model(gateway, interfaces) {
                Ok(name) => proceed(
                    session,
                    StateView::Resolved { name, watch: WatchView::LookingUp },
                ),
                Err(error) => give_up(session, error),
            },
            (
                StateView::Resolved { name, watch: WatchView::LookingUp },
                EventView::Interfaces(interfaces),
            ) => match resolve_by_name_model(name, interfaces) {
                Ok(i) => observe(routes, session, name, interfaces->Some_0[i]),
                Err(error) => give_up(session, error),
            },
            (
                StateView::Resolved { name, watch: WatchView::Writing { entries, written } },
                EventView::EntryWritten { .. },
            ) => if written < entries.len() {
                proceed(
                    session,
                    StateView::Resolved { name, watch: writing(entries, written + 1) },
                )
            } else {
                session
            },
            (_, EventView::WaitFinished(outcome)) => if pending(session) == wait() {
                match outcome {
                    WaitOutcome::TimedOut => next_tick(session),
                    WaitOutcome::Signaled => stop(session, StopReason::Signaled),
                    WaitOutcome::Closed => stop(session, StopReason::Closed),
                }
            } else {
                session
            },
            _ => session,
        }
    }
}

impl MonitorSession {
    /// The operation that the session has asked for and not heard of yet.
    pub fn pending(&self) -> (action: MonitorAction)
        ensures
            action@ == pending(self@),
    {
        if let Some(reason) = self.stopped {
            return MonitorAction::Stop { reason };
        }
        match &self.state {
            MonitorState::Unresolved { discovery } => match discovery {
                Discovery::FindingVm => MonitorAction::ListComputeSystems {
                    owner: String::from_str(WSL_OWNER),
                },
                Discovery::FindingEndpoint { .. } => MonitorAction::ListEndpoints,
                Discovery::FindingInterface { .. } => MonitorAction::ListInterfaces,
                Discovery::Idle => MonitorAction::Wait { seconds: POLL_INTERVAL_SECONDS },
            },
            MonitorState::Resolved { watch, .. } => match watch {
                Watch::LookingUp => MonitorAction::ListInterfaces,
                Watch::Writing { entries, written } => {
                    if *written < entries.len() {
                        MonitorAction::WriteEntry(entries[*written])
                    } else {
                        MonitorAction::Wait { seconds: POLL_INTERVAL_SECONDS }
                    }
                },
                Watch::Idle => MonitorAction::Wait { seconds: POLL_INTERVAL_SECONDS },
            },
        }
    }

    /// Whether the session has asked for a wait.
    fn is_waiting(&self) -> (r: bool)
        ensures
            r == (pending(self@) == wait()),
    {
        if self.stopped.is_some() {
            return false;
        }
        match &self.state {
            MonitorState::Unresolved { discovery } => match discovery {
                Discovery::Idle => true,
                _ => false,
            },
            MonitorState::Resolved { watch, .. } => match watch {
                Watch::LookingUp => false,
                Watch::Writing { entries, written } => *written >= entries.len(),
                Watch::Idle => true,
            },
        }
    }

    fn proceed(self, state: MonitorState) -> (r: Self)
        ensures
            r@ == proceed(self@, state@),
    {
        MonitorSession { state, last_error: None, ..self }
    }

    /// Goes on with `watch`, under the name that the session knows.
    fn turn_to(self, watch: Watch) -> (r: Self)
        requires
            self.state is Resolved,
        ensures
            r@ == proceed(
                self@,
                StateView::Resolved { name: self@.state->Resolved_name, watch: watch@ },
            ),
    {
        match self.state {
            MonitorState::Resolved { name, .. } => MonitorSession {
                state: MonitorState::Resolved { name, watch },
                last_known_address: self.last_known_address,
                last_error: None,
                stopped: self.stopped,
            },
            state => MonitorSession {
                state,
                last_known_address: self.last_known_address,
                last_error: None,
                stopped: self.stopped,
            },
        }
    }

    /// Goes on to the next entry of the plan, or to the wait after the last.
    fn entry_written(self) -> (r: Self)
        requires
            self.state matches MonitorState::Resolved {
                watch: Watch::Writing { entries, written },
                ..
            } && written < entries.len(),
        ensures
            r@ == proceed(
                self@,
                StateView::Resolved {
                    name: self@.state->Resolved_name,
                    watch: writing(
                        self@.state->Resolved_watch->Writing_entries,
                        self@.state->Resolved_watch->Writing_written + 1,
                    ),
                },
            ),
    {
        match self.state {
            MonitorState::Resolved { name, watch: Watch::Writing { entries, written } } => {
                MonitorSession {
                    state: MonitorState::Resolved {
                        name,
                        watch: Watch::writing(entries, written + 1),
                    },
                    last_known_address: self.last_known_address,
                    last_error: None,
                    stopped: self.stopped,
                }
            },
            state => MonitorSession {
                state,
                last_known_address: self.last_known_address,
                last_error: None,
                stopped: self.stopped,
            },
        }
    }

    fn give_up(self, error: ResolutionError) -> (r: Self)
        ensures
            r@ == give_up(self@, error),
    {
        let state = match self.state {
            MonitorState::Unresolved { .. } => MonitorState::Unresolved {
                discovery: Discovery::Idle,
            },
            MonitorState::Resolved { name, .. } => MonitorState::Resolved {
                name,
                watch: Watch::Idle,
            },
        };
        MonitorSession {
            state,
            last_known_address: self.last_known_address,
            last_error: Some(error),
            stopped: self.stopped,
        }
    }

    fn stop(self, reason: StopReason) -> (r: Self)
        ensures
            r@ == stop(self@, reason),
    {
        MonitorSession { stopped: Some(reason), last_error: None, ..self }
    }

    fn next_tick(self) -> (r: Self)
        ensures
            r@ == next_tick(self@),
    {
        let state = match self.state {
            MonitorState::Unresolved { .. } => MonitorState::Unresolved {
                discovery: Discovery::FindingVm,
            },
            MonitorState::Resolved { name, .. } => MonitorState::Resolved {
                name,
                watch: Watch::LookingUp,
            },
        };
        MonitorSession {
            state,
            last_known_address: self.last_known_address,
            last_error: None,
            stopped: self.stopped,
        }
    }
}

impl Watch {
    /// What a session does with a plan of which `written` entries were
    /// submitted.
    fn writing(plan: Vec<ForwardEntry>, written: usize) -> (watch: Watch)
        ensures
            watch@ == writing(plan@, written as nat),
    {
        if written < plan.len() {
            Watch::Writing { entries: plan, written }
        } else {
            Watch::Idle
        }
    }
}

impl WslMonitor {
    /// A monitor for `routes`, watching the interface `wsl_interface_name`
    /// or, where none is given, the one that discovery finds.
    pub fn new(wsl_interface_name: Option<String>, routes: Vec<RouteSpec>) -> (monitor: Self)
        ensures
            monitor.wsl_interface_name == wsl_interface_name,
            monitor.routes == routes,
    {
        WslMonitor { wsl_interface_name, routes }
    }

    /// Begins a session and says what to do first.
    ///
    /// With a name given the session begins resolved and discovery is never
    /// asked for.
    pub fn start(&self) -> (r: (MonitorSession, MonitorAction))
        ensures
            r.0@ == initial_session(
                match self.wsl_interface_name {
                    Some(name) => Some(name@),
                    None => None,
                },
            ),
            r.1@ == pending(r.0@),
    {
        let state = match &self.wsl_interface_name {
            Some(name) => MonitorState::Resolved { name: name.clone(), watch: Watch::LookingUp },
            None => MonitorState::Unresolved { discovery: Discovery::FindingVm },
        };
        let session = MonitorSession {
            state,
            last_known_address: None,
            last_error: None,
            stopped: None,
        };
        let first = session.pending();
        (session, first)
    }

    /// Takes in how the last operation ended and says what to do next.
    pub fn step(&self, session: MonitorSession, event: MonitorEvent) -> (r: (
        MonitorSession,
        MonitorAction,
    ))
        ensures
            r.0@ == step_model(self.routes@, session@, event@),
            r.1@ == pending(r.0@),
    {
        let next = self.advance(session, event);
        let action = next.pending();
        (next, action)
    }

    /// The session after `event`.
    fn advance(&self, session: MonitorSession, event: MonitorEvent) -> (next: MonitorSession)
        ensures
            next@ == step_model(self.routes@, session@, event@),
    {
        if session.stopped.is_some() {
            return session;
        }
        match event {
            MonitorEvent::ComputeSystems(systems) => match &session.state {
                MonitorState::Unresolved { discovery: Discovery::FindingVm } => {
                    match get_virtual_machine_id(&systems) {
                        Ok(vm_id) => session.proceed(
                            MonitorState::Unresolved {
                                discovery: Discovery::FindingEndpoint { vm_id },
                            },
                        ),
                        Err(error) => session.give_up(error),
                    }
                },
                _ => session,
            },
            MonitorEvent::Endpoints(endpoints) => match &session.state {
                MonitorState::Unresolved { discovery: Discovery::FindingEndpoint { vm_id } } => {
                    match gateway_address(vm_id, &endpoints) {
                        Ok(gateway) => session.proceed(
                            MonitorState::Unresolved {
                                discovery: Discovery::FindingInterface { gateway },
                            },
                        ),
                        Err(error) => session.give_up(error),
                    }
                },
                _ => session,
            },
            MonitorEvent::Interfaces(interfaces) => match &session.state {
                MonitorState::Unresolved { discovery: Discovery::FindingInterface { gateway } } => {
                    match interface_with_address(*gateway, &interfaces) {
                        Ok(name) => session.proceed(
                            MonitorState::Resolved { name, watch: Watch::LookingUp },
                        ),
                        Err(error) => session.give_up(error),
                    }
                },
                MonitorState::Resolved { name, watch: Watch::LookingUp } => {
                    match get_interface_address(name, &interfaces) {
                        Ok(interface) => self.observe(session, interface),
                        Err(error) => session.give_up(error),
                    }
                },
                _ => session,
            },
            MonitorEvent::EntryWritten { .. } => match &session.state {
                MonitorState::Resolved { watch: Watch::Writing { entries, written }, .. } => {
                    if *written < entries.len() {
                        session.entry_written()
                    } else {
                        session
                    }
                },
                _ => session,
            },
            MonitorEvent::WaitFinished(outcome) => {
                if !session.is_waiting() {
                    return session;
                }
                match outcome {
                    WaitOutcome::TimedOut => session.next_tick(),
                    WaitOutcome::Signaled => session.stop(StopReason::Signaled),
                    WaitOutcome::Closed => session.stop(StopReason::Closed),
                }
            },
        }
    }

    /// The session after its lookup found `interface`.
    fn observe(&self, session: MonitorSession, interface: &ResolvedInterface) -> (next:
        MonitorSession)
        requires
            session.state is Resolved,
        ensures
            next@ == observe(self.routes@, session@, session@.state->Resolved_name, interface@),
    {
        let address = interface.first_ipv4();
        if same_address(address, session.last_known_address) {
            session.turn_to(Watch::Idle)
        } else {
            let plan = add_routes(interface, &self.routes);
            let mut next = session.turn_to(Watch::writing(plan, 0));
            next.last_known_address = address;
            next
        }
    }
}

/// Whether two observations of the interface's address are the same.
fn same_address(seen: Option<u32>, known: Option<u32>) -> (r: bool)
    ensures
        r == (seen == known),
{
    match (seen, known) {
        (Some(a), Some(b)) => a == b,
        (None, None) => true,
        _ => false,
    }
}

} // verus!
