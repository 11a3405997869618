//! Runs of a monitor session: what holds of the operations it asks for
//! over any sequence of events, and of the forwarding table they leave.

use vstd::prelude::*;
use crate::hcn::EndpointView;
use crate::interface::{first_ipv4, InterfaceView};
use crate::resolver::{auto_resolve_model, resolve_by_name_model};
use crate::routes::{sync_plan, ForwardEntry, RouteSpec};
use crate::table::{
    accepted_at,
    lemma_failure_is_isolated,
    lemma_sync_is_idempotent,
    table_after,
    RouteKey,
};
use crate::wsl_monitor::{
    pending,
    step_model,
    wait,
    writing,
    ActionView,
    DiscoveryView,
    EventView,
    SessionView,
    StateView,
    StopReason,
    WaitOutcome,
    WatchView,
};

verus! {

/// The session after a run of events, one step for each.
pub open spec fn session_after(routes: Seq<RouteSpec>, session: SessionView, events: Seq<EventView>)
    -> SessionView
    decreases events.len(),
{
    if events.len() == 0 {
        session
    } else {
        step_model(routes, session_after(routes, session, events.drop_last()), events.last())
    }
}

/// The operation that the session asks for in answer to the `i`-th event of
/// a run.
pub open spec fn answer_at(
    routes: Seq<RouteSpec>,
    session: SessionView,
    events: Seq<EventView>,
    i: int,
) -> ActionView {
    pending(session_after(routes, session, events.take(i + 1)))
}

/// The address that `event` shows, where it answers a lookup of `session`
/// and the interface is in the table.
pub open spec fn sighting(session: SessionView, event: EventView) -> Option<Option<u32>> {
    match (session.state, event) {
        (
            StateView::Resolved { name, watch: WatchView::LookingUp },
            EventView::Interfaces(interfaces),
        ) => match resolve_by_name_model(name, interfaces) {
            Ok(i) if session.stopped is None => Some(
                first_ipv4(interfaces->Some_0[i].addresses),
            ),
            _ => None,
        },
        _ => None,
    }
}

/// The address that the last successful lookup of a run saw, or the one
/// that the session began with where the run holds no such lookup.
pub open spec fn last_seen(routes: Seq<RouteSpec>, session: SessionView, events: Seq<EventView>)
    -> Option<u32>
    decreases events.len(),
{
    if events.len() == 0 {
        session.last_known_address
    } else {
        match sighting(session_after(routes, session, events.drop_last()), events.last()) {
            Some(address) => address,
            None => last_seen(routes, session, events.drop_last()),
        }
    }
}

/// The events that tell of entries written, one for each outcome.
pub open spec fn written_events(outcomes: Seq<bool>) -> Seq<EventView> {
    Seq::new(outcomes.len(), |j: int| EventView::EntryWritten { accepted: outcomes[j] })
}

/// The answers to the beginning of a run do not depend on how the run goes
/// on.
proof fn lemma_answer_at_of_drop_last(
    routes: Seq<RouteSpec>,
    session: SessionView,
    events: Seq<EventView>,
    i: int,
)
    requires
        0 <= i < events.len(),
    ensures
        i < events.len() - 1 ==> answer_at(routes, session, events, i) == answer_at(
            routes,
            session,
            events.drop_last(),
            i,
        ),
        i == events.len() - 1 ==> answer_at(routes, session, events, i) == pending(
            session_after(routes, session, events),
        ),
{
    if i < events.len() - 1 {
        assert(events.drop_last().take(i + 1) =~= events.take(i + 1));
    } else {
        assert(events.take(i + 1) =~= events);
    }
}

/// Once the interface is known it stays known, under the same name, and
/// discovery never begins again, whatever happens: lookups may fail, the
/// host may refuse entries, waits may pass, the session may stop. Neither
/// the compute systems nor the endpoints are asked for any more.
pub proof fn lemma_resolved_is_sticky(
    routes: Seq<RouteSpec>,
    session: SessionView,
    events: Seq<EventView>,
)
    requires
        session.state is Resolved,
    ensures
        session_after(routes, session, events).state is Resolved,
        session_after(routes, session, events).state->Resolved_name == session.state->Resolved_name,
        forall|i: int|
            0 <= i < events.len() ==> !(#[trigger] answer_at(routes, session, events, i)
                is ListComputeSystems) && !(answer_at(routes, session, events, i)
                is ListEndpoints),
    decreases events.len(),
{
    if events.len() > 0 {
        lemma_resolved_is_sticky(routes, session, events.drop_last());
        assert forall|i: int| 0 <= i < events.len() implies !(#[trigger] answer_at(
            routes,
            session,
            events,
            i,
        ) is ListComputeSystems) && !(answer_at(routes, session, events, i)
            is ListEndpoints) by {
            lemma_answer_at_of_drop_last(routes, session, events, i);
        }
    }
}

/// What an event that ends a session gives as the reason: the controller
/// being gone where the event says so, its signal else.
pub open spec fn reason_of(event: EventView) -> StopReason {
    if event == EventView::WaitFinished(WaitOutcome::Closed) {
        StopReason::Closed
    } else {
        StopReason::Signaled
    }
}

/// A session that has stopped stays as it is.
pub proof fn lemma_stopped_is_inert(
    routes: Seq<RouteSpec>,
    session: SessionView,
    events: Seq<EventView>,
)
    requires
        session.stopped is Some,
    ensures
        session_after(routes, session, events) == session,
    decreases events.len(),
{
    if events.len() > 0 {
        lemma_stopped_is_inert(routes, session, events.drop_last());
    }
}

/// The stop signal during a wait ends the session: from the event on that
/// tells of the signal, or of its source being gone, every answer is
/// `Stop`. Nothing is queried and nothing is written any more.
pub proof fn lemma_stop_is_final(
    routes: Seq<RouteSpec>,
    session: SessionView,
    events: Seq<EventView>,
    k: int,
)
    requires
        0 <= k < events.len(),
        pending(session_after(routes, session, events.take(k))) == wait(),
        events[k] == EventView::WaitFinished(WaitOutcome::Signaled) || events[k]
            == EventView::WaitFinished(WaitOutcome::Closed),
    ensures
        session_after(routes, session, events).stopped == Some(reason_of(events[k])),
        forall|i: int|
            k <= i < events.len() ==> #[trigger] answer_at(routes, session, events, i)
                == (ActionView::Stop { reason: reason_of(events[k]) }),
    decreases events.len(),
{
    if k < events.len() - 1 {
        assert(events.drop_last().take(k) =~= events.take(k));
        lemma_stop_is_final(routes, session, events.drop_last(), k);
    }
    assert forall|i: int| k <= i < events.len() implies #[trigger] answer_at(
        routes,
        session,
        events,
        i,
    ) == (ActionView::Stop { reason: reason_of(events[k]) }) by {
        lemma_answer_at_of_drop_last(routes, session, events, i);
    }
}

/// The address that a session keeps is the one that its last successful
/// lookup saw.
pub proof fn lemma_keeps_last_seen(
    routes: Seq<RouteSpec>,
    session: SessionView,
    events: Seq<EventView>,
)
    ensures
        session_after(routes, session, events).last_known_address == last_seen(
            routes,
            session,
            events,
        ),
    decreases events.len(),
{
    if events.len() > 0 {
        lemma_keeps_last_seen(routes, session, events.drop_last());
    }
}

/// The routes are written exactly when the address has changed. After a
/// run of any kind, a lookup that finds the interface turns the session to
/// writing the plan for that interface if the interface's first IPv4
/// address differs from the one seen at the successful lookup before, and
/// ends the tick without a write if it is the same. Before the first
/// lookup no address has been seen.
pub proof fn lemma_sync_exactly_on_change(
    routes: Seq<RouteSpec>,
    session: SessionView,
    events: Seq<EventView>,
    interfaces: Seq<InterfaceView>,
)
    requires
        session_after(routes, session, events).stopped is None,
        session_after(routes, session, events).state matches StateView::Resolved {
            name,
            watch: WatchView::LookingUp,
        } && resolve_by_name_model(name, Some(interfaces)) is Ok,
    ensures
        ({
            let before = session_after(routes, session, events);
            let name = before.state->Resolved_name;
            let found = interfaces[resolve_by_name_model(name, Some(interfaces))->Ok_0];
            let address = first_ipv4(found.addresses);
            let after = session_after(
                routes,
                session,
                events.push(EventView::Interfaces(Some(interfaces))),
            );
            &&& after.last_known_address == address
            &&& after.state == StateView::Resolved {
                name,
                watch: if address != last_seen(routes, session, events) {
                    writing(sync_plan(found, routes), 0)
                } else {
                    WatchView::Idle
                },
            }
        }),
{
    let run = events.push(EventView::Interfaces(Some(interfaces)));
    assert(run.drop_last() =~= events);
    lemma_keeps_last_seen(routes, session, events);
}

/// A plan is written out to its end, whatever the host makes of its
/// entries: a session that has begun to write `entries` asks for each of
/// them in turn, one for every outcome it is told, accepted or refused, and
/// for the wait after the last.
pub proof fn lemma_plan_is_written_out(
    routes: Seq<RouteSpec>,
    session: SessionView,
    outcomes: Seq<bool>,
)
    requires
        session.stopped is None,
        session.state matches StateView::Resolved {
            watch: WatchView::Writing { entries, written },
            ..
        } && written == 0 && 0 < entries.len() && outcomes.len() <= entries.len(),
    ensures
        ({
            let entries = session.state->Resolved_watch->Writing_entries;
            let after = session_after(routes, session, written_events(outcomes));
            &&& pending(session) == ActionView::WriteEntry(entries[0])
            &&& after.last_known_address == session.last_known_address
            &&& after.stopped is None
            &&& after.state == StateView::Resolved {
                name: session.state->Resolved_name,
                watch: writing(entries, outcomes.len()),
            }
            &&& forall|j: int|
                0 <= j < outcomes.len() ==> #[trigger] answer_at(
                    routes,
                    session,
                    written_events(outcomes),
                    j,
                ) == if j + 1 < entries.len() {
                    ActionView::WriteEntry(entries[j + 1])
                } else {
                    wait()
                }
        }),
    decreases outcomes.len(),
{
    let entries = session.state->Resolved_watch->Writing_entries;
    let events = written_events(outcomes);
    if outcomes.len() > 0 {
        let earlier = outcomes.drop_last();
        assert(written_events(earlier) =~= events.drop_last());
        lemma_plan_is_written_out(routes, session, earlier);
        assert forall|j: int| 0 <= j < outcomes.len() implies #[trigger] answer_at(
            routes,
            session,
            events,
            j,
        ) == if j + 1 < entries.len() {
            ActionView::WriteEntry(entries[j + 1])
        } else {
            wait()
        } by {
            lemma_answer_at_of_drop_last(routes, session, events, j);
        }
    }
}

/// The host's forwarding table after a session wrote to it: whenever the
/// session asked for an entry to be written and the host accepted it, the
/// entry took its row.
pub open spec fn table_written(
    routes: Seq<RouteSpec>,
    session: SessionView,
    table: Map<RouteKey, ForwardEntry>,
    outcomes: Seq<bool>,
) -> Map<RouteKey, ForwardEntry>
    decreases outcomes.len(),
{
    if outcomes.len() == 0 {
        table
    } else {
        let earlier = outcomes.drop_last();
        let before = table_written(routes, session, table, earlier);
        match pending(session_after(routes, session, written_events(earlier))) {
            ActionView::WriteEntry(entry) => if outcomes.last() {
                before.insert(entry.key_of(), entry)
            } else {
                before
            },
            _ => before,
        }
    }
}

/// What a batch leaves in the table depends on the outcomes of its own
/// entries only.
proof fn lemma_table_after_agrees(
    table: Map<RouteKey, ForwardEntry>,
    entries: Seq<ForwardEntry>,
    one: Seq<bool>,
    other: Seq<bool>,
)
    requires
        forall|i: int| 0 <= i < entries.len() ==> accepted_at(one, i) == accepted_at(other, i),
    ensures
        table_after(table, entries, one) == table_after(table, entries, other),
    decreases entries.len(),
{
    if entries.len() > 0 {
        lemma_table_after_agrees(table, entries.drop_last(), one, other);
    }
}

/// A session that writes a plan leaves the host's table as the plan and
/// the host's verdicts make it: each accepted entry in its row, and no
/// entry kept from its row by the refusal of another.
pub proof fn lemma_writes_fill_the_table(
    routes: Seq<RouteSpec>,
    session: SessionView,
    table: Map<RouteKey, ForwardEntry>,
    outcomes: Seq<bool>,
)
    requires
        session.stopped is None,
        session.state matches StateView::Resolved {
            watch: WatchView::Writing { entries, written },
            ..
        } && written == 0 && 0 < entries.len() && outcomes.len() <= entries.len(),
    ensures
        table_written(routes, session, table, outcomes) == table_after(
            table,
            session.state->Resolved_watch->Writing_entries.take(outcomes.len() as int),
            outcomes,
        ),
    decreases outcomes.len(),
{
    let entries = session.state->Resolved_watch->Writing_entries;
    if outcomes.len() > 0 {
        let earlier = outcomes.drop_last();
        let k = outcomes.len() as int;
        lemma_writes_fill_the_table(routes, session, table, earlier);
        lemma_plan_is_written_out(routes, session, earlier);
        lemma_table_after_agrees(table, entries.take(k - 1), earlier, outcomes);
        assert(entries.take(k).drop_last() =~= entries.take(k - 1));
    }
}

/// Writing the same plan a second time changes nothing: where the host
/// gives each entry the verdict it gave it the first time, the table after
/// the second round is the table after the first.
pub proof fn lemma_second_round_changes_nothing(
    routes: Seq<RouteSpec>,
    session: SessionView,
    table: Map<RouteKey, ForwardEntry>,
    outcomes: Seq<bool>,
)
    requires
        session.stopped is None,
        session.state matches StateView::Resolved {
            watch: WatchView::Writing { entries, written },
            ..
        } && written == 0 && 0 < entries.len() && outcomes.len() == entries.len(),
    ensures
        table_written(
            routes,
            session,
            table_written(routes, session, table, outcomes),
            outcomes,
        ) == table_written(routes, session, table, outcomes),
{
    let entries = session.state->Resolved_watch->Writing_entries;
    let once = table_written(routes, session, table, outcomes);
    assert(entries.take(outcomes.len() as int) =~= entries);
    lemma_writes_fill_the_table(routes, session, table, outcomes);
    lemma_writes_fill_the_table(routes, session, once, outcomes);
    lemma_sync_is_idempotent(table, entries, outcomes);
}

/// A route whose entry the host accepted is in the table after the round,
/// whichever of the other routes' entries the host refused.
pub proof fn lemma_accepted_route_is_in_the_table(
    routes: Seq<RouteSpec>,
    session: SessionView,
    interface: InterfaceView,
    table: Map<RouteKey, ForwardEntry>,
    outcomes: Seq<bool>,
    i: int,
)
    requires
        session.stopped is None,
        session.state matches StateView::Resolved {
            watch: WatchView::Writing { entries, written },
            ..
        } && written == 0 && entries == sync_plan(interface, routes) && outcomes.len()
            == entries.len(),
        0 <= i < outcomes.len(),
        outcomes[i],
    ensures
        ({
            let entry = sync_plan(interface, routes)[i];
            let after = table_written(routes, session, table, outcomes);
            after.contains_key(entry.key_of()) && after[entry.key_of()] == entry
        }),
{
    let entries = sync_plan(interface, routes);
    assert(entries.take(outcomes.len() as int) =~= entries);
    lemma_writes_fill_the_table(routes, session, table, outcomes);
    lemma_failure_is_isolated(table, interface, routes, outcomes, i);
}

/// Discovery as the monitor goes through it, one query after the other,
/// finds what the three answers hold when put side by side: the interface
/// that [`auto_resolve_model`] names, or its error. Where an answer ends
/// the attempt, the later answers are not taken in.
pub proof fn lemma_discovery_is_auto_resolve(
    routes: Seq<RouteSpec>,
    session: SessionView,
    systems: Option<Seq<Seq<char>>>,
    endpoints: Option<Seq<EndpointView>>,
    interfaces: Option<Seq<InterfaceView>>,
)
    requires
        session.stopped is None,
        session.state == (StateView::Unresolved { discovery: DiscoveryView::FindingVm }),
    ensures
        ({
            let after = session_after(
                routes,
                session,
                seq![
                    EventView::ComputeSystems(systems),
                    EventView::Endpoints(endpoints),
                    EventView::Interfaces(interfaces),
                ],
            );
            &&& after.last_known_address == session.last_known_address
            &&& after.stopped is None
            &&& match auto_resolve_model(systems, endpoints, interfaces) {
                Ok(name) => after.state == (StateView::Resolved {
                    name,
                    watch: WatchView::LookingUp,
                }) && after.last_error is None,
                Err(error) => after.state == (StateView::Unresolved {
                    discovery: DiscoveryView::Idle,
                }) && after.last_error == Some(error),
            }
        }),
{
    let one = seq![EventView::ComputeSystems(systems)];
    let two = seq![EventView::ComputeSystems(systems), EventView::Endpoints(endpoints)];
    let three = seq![
        EventView::ComputeSystems(systems),
        EventView::Endpoints(endpoints),
        EventView::Interfaces(interfaces),
    ];
    assert(session_after(routes, session, one.drop_last()) == session);
    assert(two.drop_last() =~= one);
    assert(three.drop_last() =~= two);
    let first = step_model(routes, session, EventView::ComputeSystems(systems));
    assert(session_after(routes, session, one) == first);
    let second = step_model(routes, first, EventView::Endpoints(endpoints));
    assert(session_after(routes, session, two) == second);
}

} // verus!
