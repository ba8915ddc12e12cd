//! The traffic store: per-route byte counters, the two aggregates and the
//! shutdown flag.
//!
//! Every operation that changes the store takes it as `&mut`, so the effect
//! of each call can be stated exactly; callers that share a store between
//! tasks put it behind a lock.

use crate::traffic::{
    lemma_record_received_balanced, lemma_record_sent_balanced, lemma_route_within_total, TrafficView,
};
use crate::snapshot::{descending, lemma_listing_any_order, lists_rows, sort_by_total};
use dashmap::DashMap;
use vstd::prelude::*;

verus! {

/// `dashmap::DashMap`, carried as an opaque value.
#[verifier::external_type_specification]
#[verifier::external_body]
#[verifier::reject_recursive_types(K)]
#[verifier::reject_recursive_types(V)]
#[verifier::reject_recursive_types(S)]
pub struct ExDashMap<K, V, S>(DashMap<K, V, S>);

/// The key/value pairs that a route table holds.
pub uninterp spec fn table_contents(table: DashMap<String, (u64, u64)>) -> Map<Seq<char>, (u64, u64)>;

/// The route table in which no route has been seen.
pub open spec fn no_routes() -> Map<Seq<char>, (u64, u64)> {
    Map::empty()
}

/// `entries` names every key of `contents` exactly once, each with the pair
/// stored under it.
pub open spec fn lists_table(entries: Seq<(String, (u64, u64))>, contents: Map<Seq<char>, (u64, u64)>) -> bool {
    &&& forall|i: int|
        0 <= i < entries.len() ==> contents.contains_key(#[trigger] entries[i].0@) && contents[entries[i].0@]
            == entries[i].1
    &&& forall|i: int, j: int| 0 <= i < j < entries.len() ==> entries[i].0@ != entries[j].0@
    &&& forall|key: Seq<char>| #[trigger]
        contents.contains_key(key) ==> exists|i: int| 0 <= i < entries.len() && entries[i].0@ == key
}

/// `DashMap::new`: the fresh table holds nothing.
#[verifier::external_body]
fn table_new() -> (table: DashMap<String, (u64, u64)>)
    ensures
        table_contents(table) == no_routes(),
{
    DashMap::new()
}

/// `DashMap::entry` followed by `Entry::or_insert`: a key that is absent is
/// stored with `value`, a key that is present keeps what it holds; the pair
/// now stored under the key is returned.
#[verifier::external_body]
fn table_or_insert(table: &mut DashMap<String, (u64, u64)>, key: &str, value: (u64, u64)) -> (current: (u64, u64))
    ensures
        table_contents(*final(table)) == if table_contents(*old(table)).contains_key(key@) {
            table_contents(*old(table))
        } else {
            table_contents(*old(table)).insert(key@, value)
        },
        current == table_contents(*final(table))[key@],
{
    *table.entry(key.to_string()).or_insert(value)
}

/// `DashMap::insert`: the key now maps to `value`, every other key is untouched.
#[verifier::external_body]
fn table_insert(table: &mut DashMap<String, (u64, u64)>, key: &str, value: (u64, u64))
    ensures
        table_contents(*final(table)) == table_contents(*old(table)).insert(key@, value),
{
    table.insert(key.to_string(), value);
}

/// `DashMap::iter`, each item copied out: every key of the table appears
/// exactly once, with the pair stored under it. The order is that of the
/// walk, of which nothing is said.
#[verifier::external_body]
fn table_entries(table: &DashMap<String, (u64, u64)>) -> (entries: Vec<(String, (u64, u64))>)
    ensures
        lists_table(entries@, table_contents(*table)),
{
    table.iter().map(|item| (item.key().clone(), *item.value())).collect()
}

/// The traffic store.
pub struct State {
    url_traffic: DashMap<String, (u64, u64)>,
    http_traffic: u64,
    ws_traffic: u64,
    shutdown: bool,
}

impl View for State {
    type V = TrafficView;

    closed spec fn view(&self) -> TrafficView {
        let contents = table_contents(self.url_traffic);
        TrafficView {
            routes: Map::new(
                |route: Seq<char>| contents.contains_key(route),
                |route: Seq<char>| (contents[route].0 as nat, contents[route].1 as nat),
            ),
            http_total: self.http_traffic as nat,
            ws_total: self.ws_traffic as nat,
            shutdown: self.shutdown,
        }
    }
}

impl State {
    /// The store's invariant: finitely many routes, and an HTTP aggregate
    /// that equals the sum of all per-route counters.
    pub closed spec fn wf(&self) -> bool {
        &&& table_contents(self.url_traffic).dom().finite()
        &&& self@.balanced()
    }

    /// What the invariant gives to a caller: the HTTP aggregate is the sum
    /// of the counters of all routes, of which there are finitely many, and
    /// every counter and aggregate fits 64 bits.
    pub proof fn lemma_wf(&self)
        requires
            self.wf(),
        ensures
            self@.balanced(),
            self@.http_total <= u64::MAX,
            self@.ws_total <= u64::MAX,
            forall|route: Seq<char>| #[trigger] self@.sent(route) + self@.received(route) <= self@.http_total,
    {
        assert forall|route: Seq<char>| #[trigger]
            self@.sent(route) + self@.received(route) <= self@.http_total by {
            lemma_route_within_total(self@, route);
        }
    }

    /// A store with no routes, zero aggregates and the shutdown flag unset.
    pub fn new() -> (state: State)
        ensures
            state.wf(),
            state@ == TrafficView::empty(),
    {
        let state = State { url_traffic: table_new(), http_traffic: 0, ws_traffic: 0, shutdown: false };
        proof {
            assert(state@.routes =~= Map::empty());
            assert(state@.routes.dom() =~= Set::empty());
        }
        state
    }

    /// Adds `count` to the bytes sent upstream on `url` and to the HTTP
    /// aggregate, creating the route's counters on first use.
    pub fn update_sent(&mut self, url: &str, count: u64)
        requires
            old(self).wf(),
            old(self)@.http_has_room(count as nat),
        ensures
            final(self).wf(),
            final(self)@ == old(self)@.record_sent(url@, count as nat),
    {
        proof {
            lemma_route_within_total(self@, url@);
            lemma_record_sent_balanced(self@, url@, count as nat);
        }
        let current = table_or_insert(&mut self.url_traffic, url, (0, 0));
        table_insert(&mut self.url_traffic, url, (current.0 + count, current.1));
        self.http_traffic = self.http_traffic + count;
        proof {
            assert(self@.routes =~= old(self)@.record_sent(url@, count as nat).routes);
        }
    }

    /// Adds `count` to the bytes received from upstream on `url` and to the
    /// HTTP aggregate, creating the route's counters on first use.
    pub fn update_received(&mut self, url: &str, count: u64)
        requires
            old(self).wf(),
            old(self)@.http_has_room(count as nat),
        ensures
            final(self).wf(),
            final(self)@ == old(self)@.record_received(url@, count as nat),
    {
        proof {
            lemma_route_within_total(self@, url@);
            lemma_record_received_balanced(self@, url@, count as nat);
        }
        let current = table_or_insert(&mut self.url_traffic, url, (0, 0));
        table_insert(&mut self.url_traffic, url, (current.0, current.1 + count));
        self.http_traffic = self.http_traffic + count;
        proof {
            assert(self@.routes =~= old(self)@.record_received(url@, count as nat).routes);
        }
    }

    /// `update_sent` for a caller that does not know whether the aggregate
    /// has room: records where it has, and otherwise leaves the store as it
    /// is and says so.
    pub fn try_update_sent(&mut self, url: &str, count: u64) -> (recorded: bool)
        requires
            old(self).wf(),
        ensures
            final(self).wf(),
            recorded == old(self)@.http_has_room(count as nat),
            final(self)@ == old(self)@.count_sent(url@, count as nat),
    {
        if count <= u64::MAX - self.http_traffic {
            self.update_sent(url, count);
            true
        } else {
            false
        }
    }

    /// `update_received` for a caller that does not know whether the
    /// aggregate has room: records where it has, and otherwise leaves the
    /// store as it is and says so.
    pub fn try_update_received(&mut self, url: &str, count: u64) -> (recorded: bool)
        requires
            old(self).wf(),
        ensures
            final(self).wf(),
            recorded == old(self)@.http_has_room(count as nat),
            final(self)@ == old(self)@.count_received(url@, count as nat),
    {
        if count <= u64::MAX - self.http_traffic {
            self.update_received(url, count);
            true
        } else {
            false
        }
    }

    /// `update_ws_traffic` for a caller that does not know whether the
    /// aggregate has room: records where it has, and otherwise leaves the
    /// store as it is and says so.
    pub fn try_update_ws_traffic(&mut self, count: u64) -> (recorded: bool)
        ensures
            recorded == old(self)@.ws_has_room(count as nat),
            final(self)@ == old(self)@.count_ws(count as nat),
            old(self).wf() ==> final(self).wf(),
    {
        if count <= u64::MAX - self.ws_traffic {
            self.update_ws_traffic(count);
            true
        } else {
            false
        }
    }

    /// Every route seen so far with its two counters, each route once, in no
    /// particular order.
    pub fn get_info(&self) -> (entries: Vec<(String, (u64, u64))>)
        ensures
            lists_routes(entries@, self@.routes),
    {
        let entries = table_entries(&self.url_traffic);
        entries
    }

    /// The routes with their counters and the sum of the two, ordered for
    /// display: the busiest route first.
    pub fn snapshot(&self) -> (rows: Vec<(String, (u64, u64), u64)>)
        requires
            self.wf(),
        ensures
            lists_rows(rows@, self@.routes),
            descending(rows@),
    {
        let entries = self.get_info();
        let mut rows: Vec<(String, (u64, u64), u64)> = Vec::new();
        let mut i: usize = 0;
        while i < entries.len()
            invariant
                i <= entries.len(),
                rows.len() == i,
                self.wf(),
                lists_routes(entries@, self@.routes),
                forall|k: int|
                    0 <= k < i ==> (#[trigger] rows@[k]).0 == entries@[k].0 && rows@[k].1 == entries@[k].1
                        && rows@[k].2 == entries@[k].1.0 + entries@[k].1.1,
            decreases entries.len() - i,
        {
            let route = entries[i].0.clone();
            let counters = entries[i].1;
            proof {
                lemma_route_within_total(self@, entries@[i as int].0@);
            }
            rows.push((route, counters, counters.0 + counters.1));
            i = i + 1;
        }
        proof {
            assert forall|route: Seq<char>| #[trigger] self@.routes.contains_key(route) implies exists|k: int|
                0 <= k < rows.len() && rows@[k].0@ == route by {
                let k = choose|k: int| 0 <= k < entries.len() && entries@[k].0@ == route;
                assert(rows@[k].0@ == route);
            }
            assert(lists_rows(rows@, self@.routes));
        }
        let sorted = sort_by_total(rows);
        proof {
            lemma_listing_any_order(rows@, sorted@, self@.routes);
        }
        sorted
    }

    /// Asks for shutdown. The flag never goes back.
    pub fn shutdown(&mut self)
        ensures
            final(self)@ == old(self)@.mark_shutdown(),
            old(self).wf() ==> final(self).wf(),
    {
        self.shutdown = true;
    }

    /// Whether shutdown has been asked for.
    pub fn is_shutdown(&self) -> (flag: bool)
        ensures
            flag == self@.shutdown,
    {
        self.shutdown
    }

    /// The HTTP aggregate: all bytes recorded by `update_sent` and
    /// `update_received`.
    pub fn total_traffic(&self) -> (total: u64)
        ensures
            total == self@.http_total,
    {
        self.http_traffic
    }

    /// Adds `count` relayed WebSocket payload bytes to the WebSocket
    /// aggregate.
    pub fn update_ws_traffic(&mut self, count: u64)
        requires
            old(self)@.ws_has_room(count as nat),
        ensures
            final(self)@ == old(self)@.record_ws(count as nat),
            old(self).wf() ==> final(self).wf(),
    {
        self.ws_traffic = self.ws_traffic + count;
    }

    /// The WebSocket aggregate.
    pub fn websocket_traffic(&self) -> (total: u64)
        ensures
            total == self@.ws_total,
    {
        self.ws_traffic
    }
}

/// `entries` names every route of `routes` exactly once, each with its two
/// counters.
pub open spec fn lists_routes(entries: Seq<(String, (u64, u64))>, routes: Map<Seq<char>, (nat, nat)>) -> bool {
    &&& forall|i: int|
        0 <= i < entries.len() ==> routes.contains_key(#[trigger] entries[i].0@) && routes[entries[i].0@] == (
            entries[i].1.0 as nat,
            entries[i].1.1 as nat,
        )
    &&& forall|i: int, j: int| 0 <= i < j < entries.len() ==> entries[i].0@ != entries[j].0@
    &&& forall|route: Seq<char>| #[trigger]
        routes.contains_key(route) ==> exists|i: int| 0 <= i < entries.len() && entries[i].0@ == route
}

} // verus!
