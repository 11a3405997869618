//! A forwarding table that behaves as the host's does: a row is identified
//! by where it leads and through what, and an entry submitted for a row
//! that exists takes its place.
//!
//! The host's own table is out of reach of this crate. What is stated here
//! about synchronizing is stated of this table.

use vstd::prelude::*;
use crate::interface::{first_ipv4, InterfaceView};
use crate::routes::{sync_plan, ForwardEntry, RouteSpec};

verus! {

/// What identifies a row of the table: the destination, the next hop and
/// the interface.
#[derive(Clone, Copy, Debug, PartialEq, Eq, Structural)]
pub struct RouteKey {
    pub destination: u32,
    pub prefix_length: u8,
    pub next_hop: u32,
    pub interface_index: u32,
}

impl ForwardEntry {
    /// The row that this entry is for.
    pub open spec fn key_of(self) -> RouteKey {
        RouteKey {
            destination: self.destination,
            prefix_length: self.prefix_length,
            next_hop: self.next_hop,
            interface_index: self.interface_index,
        }
    }

    /// The row that this entry is for.
    pub fn key(&self) -> (key: RouteKey)
        ensures
            key == self.key_of(),
    {
        RouteKey {
            destination: self.destination,
            prefix_length: self.prefix_length,
            next_hop: self.next_hop,
            interface_index: self.interface_index,
        }
    }
}

/// Whether the host accepted the `i`-th entry of a batch. An entry without
/// a recorded outcome counts as refused.
pub open spec fn accepted_at(accepted: Seq<bool>, i: int) -> bool {
    0 <= i < accepted.len() && accepted[i]
}

/// The table after `entries` were submitted in order and the host accepted
/// those that `accepted` marks: each accepted entry is put into its row,
/// whatever became of the others.
pub open spec fn table_after(
    table: Map<RouteKey, ForwardEntry>,
    entries: Seq<ForwardEntry>,
    accepted: Seq<bool>,
) -> Map<RouteKey, ForwardEntry>
    decreases entries.len(),
{
    if entries.len() == 0 {
        table
    } else {
        let before = table_after(table, entries.drop_last(), accepted);
        if accepted_at(accepted, entries.len() - 1) {
            before.insert(entries.last().key_of(), entries.last())
        } else {
            before
        }
    }
}

/// The position of the last accepted entry for the row `key`.
pub open spec fn last_accepted(entries: Seq<ForwardEntry>, accepted: Seq<bool>, key: RouteKey)
    -> Option<int>
    decreases entries.len(),
{
    if entries.len() == 0 {
        None
    } else if accepted_at(accepted, entries.len() - 1) && entries.last().key_of() == key {
        Some(entries.len() - 1)
    } else {
        last_accepted(entries.drop_last(), accepted, key)
    }
}

/// What a batch leaves in one row: the last accepted entry for it, or what
/// was there before where none was accepted.
pub proof fn lemma_row_after(
    table: Map<RouteKey, ForwardEntry>,
    entries: Seq<ForwardEntry>,
    accepted: Seq<bool>,
    key: RouteKey,
)
    ensures
        match last_accepted(entries, accepted, key) {
            Some(i) => {
                &&& 0 <= i < entries.len()
                &&& accepted_at(accepted, i)
                &&& entries[i].key_of() == key
                &&& table_after(table, entries, accepted).contains_key(key)
                &&& table_after(table, entries, accepted)[key] == entries[i]
            },
            None => {
                &&& forall|i: int|
                    0 <= i < entries.len() && accepted_at(accepted, i) ==> (
                    #[trigger] entries[i]).key_of() != key
                &&& table_after(table, entries, accepted).contains_key(key) == table.contains_key(
                    key,
                )
                &&& table.contains_key(key) ==> table_after(table, entries, accepted)[key]
                    == table[key]
            },
        },
    decreases entries.len(),
{
    if entries.len() > 0 {
        lemma_row_after(table, entries.drop_last(), accepted, key);
        if last_accepted(entries, accepted, key) is None {
            assert forall|i: int|
                0 <= i < entries.len() && accepted_at(accepted, i) implies (
            #[trigger] entries[i]).key_of() != key by {
                if i < entries.len() - 1 {
                    assert(entries.drop_last()[i] == entries[i]);
                }
            }
        }
    }
}

/// Synchronizing twice is synchronizing once: a batch submitted again, with
/// the host accepting the same entries, leaves the table as the first
/// submission left it. No row is doubled and none changes.
pub proof fn lemma_sync_is_idempotent(
    table: Map<RouteKey, ForwardEntry>,
    entries: Seq<ForwardEntry>,
    accepted: Seq<bool>,
)
    ensures
        table_after(table_after(table, entries, accepted), entries, accepted) == table_after(
            table,
            entries,
            accepted,
        ),
{
    let once = table_after(table, entries, accepted);
    let twice = table_after(once, entries, accepted);
    assert forall|key: RouteKey| #[trigger]
        twice.dom().contains(key) == once.dom().contains(key) by {
        lemma_row_after(table, entries, accepted, key);
        lemma_row_after(once, entries, accepted, key);
    }
    assert forall|key: RouteKey| twice.dom().contains(key) implies #[trigger] twice[key]
        == once[key] by {
        lemma_row_after(table, entries, accepted, key);
        lemma_row_after(once, entries, accepted, key);
    }
}

/// One refused entry costs no other entry its row: whatever the host did
/// with the rest of the plan, every planned entry that it accepted stands in
/// the table afterwards.
pub proof fn lemma_failure_is_isolated(
    table: Map<RouteKey, ForwardEntry>,
    interface: InterfaceView,
    routes: Seq<RouteSpec>,
    accepted: Seq<bool>,
    i: int,
)
    requires
        0 <= i < sync_plan(interface, routes).len(),
        accepted_at(accepted, i),
    ensures
        ({
            let plan = sync_plan(interface, routes);
            let after = table_after(table, plan, accepted);
            after.contains_key(plan[i].key_of()) && after[plan[i].key_of()] == plan[i]
        }),
{
    let plan = sync_plan(interface, routes);
    lemma_row_after(table, plan, accepted, plan[i].key_of());
}

/// The plan leaves no route out: where the interface has an IPv4 address,
/// the plan holds an entry for each route, at the route's own position.
pub proof fn lemma_plan_covers_routes(interface: InterfaceView, routes: Seq<RouteSpec>)
    requires
        first_ipv4(interface.addresses) is Some,
    ensures
        sync_plan(interface, routes).len() == routes.len(),
        forall|i: int|
            0 <= i < routes.len() ==> {
                let entry = #[trigger] sync_plan(interface, routes)[i];
                &&& entry.destination == routes[i].address
                &&& entry.prefix_length == routes[i].prefix
                &&& entry.next_hop == first_ipv4(interface.addresses)->Some_0
                &&& entry.interface_index == interface.index
            },
{
}

/// The table that holds `rows`, of which no two are for the same row.
pub open spec fn rows_map(rows: Seq<ForwardEntry>) -> Map<RouteKey, ForwardEntry> {
    Map::new(
        |key: RouteKey| exists|i: int| 0 <= i < rows.len() && (#[trigger] rows[i]).key_of() == key,
        |key: RouteKey|
            rows[choose|i: int| 0 <= i < rows.len() && (#[trigger] rows[i]).key_of() == key],
    )
}

/// No two of `rows` are for the same row of the table.
pub open spec fn distinct_rows(rows: Seq<ForwardEntry>) -> bool {
    forall|i: int, j: int|
        0 <= i < j < rows.len() ==> (#[trigger] rows[i]).key_of() != (#[trigger] rows[j]).key_of()
}

/// A table has as many rows as it was made of.
proof fn lemma_rows_map_len(rows: Seq<ForwardEntry>)
    requires
        distinct_rows(rows),
    ensures
        rows_map(rows).dom().finite(),
        rows_map(rows).dom().len() == rows.len(),
    decreases rows.len(),
{
    if rows.len() == 0 {
        assert(rows_map(rows).dom() =~= Set::<RouteKey>::empty());
    } else {
        let earlier = rows.drop_last();
        let key = rows.last().key_of();
        lemma_rows_map_len(earlier);
        assert forall|k: RouteKey| #[trigger]
            rows_map(rows).dom().contains(k) == rows_map(earlier).dom().insert(key).contains(
                k,
            ) by {
            if rows_map(rows).dom().contains(k) {
                let j = choose|j: int| 0 <= j < rows.len() && (#[trigger] rows[j]).key_of() == k;
                if j < earlier.len() {
                    assert(earlier[j].key_of() == k);
                }
            }
        }
        assert(rows_map(rows).dom() =~= rows_map(earlier).dom().insert(key));
    }
}

/// An entry put in the place of the row with its key is the table's entry
/// for that key, and the other rows are as they were.
proof fn lemma_replace_row(rows: Seq<ForwardEntry>, i: int, entry: ForwardEntry)
    requires
        distinct_rows(rows),
        0 <= i < rows.len(),
        rows[i].key_of() == entry.key_of(),
    ensures
        distinct_rows(rows.update(i, entry)),
        rows_map(rows.update(i, entry)) == rows_map(rows).insert(entry.key_of(), entry),
{
    let after = rows.update(i, entry);
    assert forall|k: RouteKey| #[trigger]
        rows_map(after).dom().contains(k) == rows_map(rows).insert(
            entry.key_of(),
            entry,
        ).dom().contains(k) by {
        if rows_map(rows).dom().contains(k) {
            let j = choose|j: int| 0 <= j < rows.len() && (#[trigger] rows[j]).key_of() == k;
            assert(after[j].key_of() == k);
        }
    }
    assert(rows_map(after) =~= rows_map(rows).insert(entry.key_of(), entry));
}

/// An entry put behind rows of other keys is the table's entry for its key,
/// and the other rows are as they were.
proof fn lemma_add_row(rows: Seq<ForwardEntry>, entry: ForwardEntry)
    requires
        distinct_rows(rows),
        forall|j: int| 0 <= j < rows.len() ==> (#[trigger] rows[j]).key_of() != entry.key_of(),
    ensures
        distinct_rows(rows.push(entry)),
        rows_map(rows.push(entry)) == rows_map(rows).insert(entry.key_of(), entry),
{
    let after = rows.push(entry);
    assert forall|k: RouteKey| #[trigger]
        rows_map(after).dom().contains(k) == rows_map(rows).insert(
            entry.key_of(),
            entry,
        ).dom().contains(k) by {
        if rows_map(rows).dom().contains(k) {
            let j = choose|j: int| 0 <= j < rows.len() && (#[trigger] rows[j]).key_of() == k;
            assert(after[j].key_of() == k);
        }
        if k == entry.key_of() {
            assert(after[rows.len() as int].key_of() == k);
        }
    }
    assert(rows_map(after) =~= rows_map(rows).insert(entry.key_of(), entry));
}

/// An in-memory forwarding table with the host's way of taking entries: an
/// entry for a row that exists replaces it, any other entry adds a row.
#[derive(Debug)]
pub struct ForwardingTable {
    rows: Vec<ForwardEntry>,
}

impl View for ForwardingTable {
    type V = Map<RouteKey, ForwardEntry>;

    closed spec fn view(&self) -> Map<RouteKey, ForwardEntry> {
        rows_map(self.rows@)
    }
}

impl ForwardingTable {
    /// No row stands in the table twice. Every table that `new` made and
    /// the methods below changed is of this kind.
    pub closed spec fn wf(&self) -> bool {
        distinct_rows(self.rows@)
    }

    /// A table without rows.
    pub fn new() -> (table: Self)
        ensures
            table.wf(),
            table@ == Map::<RouteKey, ForwardEntry>::empty(),
    {
        ForwardingTable { rows: Vec::new() }
    }

    /// Puts `entry` into its row, in place of what the row held.
    #[verifier::loop_isolation(false)]
    pub fn submit(&mut self, entry: ForwardEntry)
        requires
            old(self).wf(),
        ensures
            final(self).wf(),
            final(self)@ == old(self)@.insert(entry.key_of(), entry),
    {
        let key = entry.key();
        let mut i: usize = 0;
        while i < self.rows.len()
            invariant
                i <= self.rows.len(),
                self.rows@ == old(self).rows@,
                forall|j: int| 0 <= j < i ==> (#[trigger] self.rows@[j]).key_of() != key,
            decreases self.rows.len() - i,
        {
            if self.rows[i].key() == key {
                self.rows[i] = entry;
                proof {
                    lemma_replace_row(old(self).rows@, i as int, entry);
                }
                return;
            }
            i += 1;
        }
        self.rows.push(entry);
        proof {
            lemma_add_row(old(self).rows@, entry);
        }
    }

    /// What the row `key` holds, if the table has that row.
    pub fn get(&self, key: RouteKey) -> (r: Option<ForwardEntry>)
        requires
            self.wf(),
        ensures
            r == if self@.contains_key(key) {
                Some(self@[key])
            } else {
                None
            },
    {
        let mut i: usize = 0;
        while i < self.rows.len()
            invariant
                i <= self.rows.len(),
                distinct_rows(self.rows@),
                forall|j: int| 0 <= j < i ==> (#[trigger] self.rows@[j]).key_of() != key,
            decreases self.rows.len() - i,
        {
            if self.rows[i].key() == key {
                return Some(self.rows[i]);
            }
            i += 1;
        }
        None
    }

    /// How many rows the table has.
    pub fn len(&self) -> (n: usize)
        requires
            self.wf(),
        ensures
            self@.dom().finite(),
            n == self@.len(),
    {
        proof {
            lemma_rows_map_len(self.rows@);
        }
        self.rows.len()
    }

    /// The rows of the table, each once.
    pub fn rows(&self) -> (rows: &Vec<ForwardEntry>)
        requires
            self.wf(),
        ensures
            distinct_rows(rows@),
            self@ == rows_map(rows@),
    {
        &self.rows
    }

    /// Submits `entries` in order, of which the host accepts those that
    /// `accepted` marks. A refused entry leaves the table as it is and the
    /// next entry is submitted all the same.
    pub fn apply(&mut self, entries: &Vec<ForwardEntry>, accepted: &Vec<bool>)
        requires
            old(self).wf(),
        ensures
            final(self).wf(),
            final(self)@ == table_after(old(self)@, entries@, accepted@),
    {
        let ghost before = self@;
        let mut i: usize = 0;
        while i < entries.len()
            invariant
                i <= entries.len(),
                self.wf(),
                self@ == table_after(before, entries@.take(i as int), accepted@),
            decreases entries.len() - i,
        {
            proof {
                assert(entries@.take(i + 1).drop_last() =~= entries@.take(i as int));
            }
            if i < accepted.len() && accepted[i] {
                self.submit(entries[i]);
            }
            i += 1;
        }
        proof {
            assert(entries@.take(i as int) =~= entries@);
        }
    }
}

} // verus!
