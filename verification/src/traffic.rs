//! The mathematical model of the traffic store and the laws it obeys.

use vstd::prelude::*;
use vstd::seq_lib::{to_multiset_build, to_multiset_contains, to_multiset_len, to_multiset_remove};

verus! {

/// What the traffic store holds, as mathematical values: the two counters of
/// every route seen so far and the process-wide aggregates.
pub struct TrafficView {
    /// Route to (bytes sent upstream, bytes received from upstream).
    pub routes: Map<Seq<char>, (nat, nat)>,
    /// Every byte recorded by the request relay, in both directions.
    pub http_total: nat,
    /// Every payload byte recorded by the WebSocket bridges.
    pub ws_total: nat,
    /// Whether shutdown has been asked for.
    pub shutdown: bool,
}

/// Bytes that one route has carried in both directions.
pub open spec fn pair_total(pair: (nat, nat)) -> nat {
    pair.0 + pair.1
}

/// Bytes that all routes of a table have carried, both directions together.
pub open spec fn table_total(routes: Map<Seq<char>, (nat, nat)>) -> nat
    decreases routes.dom().len(),
    when routes.dom().finite()
{
    if routes.dom().len() == 0 {
        0
    } else {
        let route = routes.dom().choose();
        pair_total(routes[route]) + table_total(routes.remove(route))
    }
}

impl TrafficView {
    /// The store before anything was recorded.
    pub open spec fn empty() -> TrafficView {
        TrafficView { routes: Map::empty(), http_total: 0, ws_total: 0, shutdown: false }
    }

    /// Bytes sent upstream on `route`; zero for a route never seen.
    pub open spec fn sent(self, route: Seq<char>) -> nat {
        if self.routes.contains_key(route) {
            self.routes[route].0
        } else {
            0
        }
    }

    /// Bytes received from upstream on `route`; zero for a route never seen.
    pub open spec fn received(self, route: Seq<char>) -> nat {
        if self.routes.contains_key(route) {
            self.routes[route].1
        } else {
            0
        }
    }

    /// The store after `n` bytes were sent upstream on `route`.
    pub open spec fn record_sent(self, route: Seq<char>, n: nat) -> TrafficView {
        TrafficView {
            routes: self.routes.insert(route, (self.sent(route) + n, self.received(route))),
            http_total: self.http_total + n,
            ..self
        }
    }

    /// The store after `n` bytes were received from upstream on `route`.
    pub open spec fn record_received(self, route: Seq<char>, n: nat) -> TrafficView {
        TrafficView {
            routes: self.routes.insert(route, (self.sent(route), self.received(route) + n)),
            http_total: self.http_total + n,
            ..self
        }
    }

    /// The store after `n` WebSocket payload bytes were relayed.
    pub open spec fn record_ws(self, n: nat) -> TrafficView {
        TrafficView { ws_total: self.ws_total + n, ..self }
    }

    /// Whether the HTTP aggregate can take `n` more bytes.
    pub open spec fn http_has_room(self, n: nat) -> bool {
        self.http_total + n <= u64::MAX
    }

    /// Whether the WebSocket aggregate can take `n` more bytes.
    pub open spec fn ws_has_room(self, n: nat) -> bool {
        self.ws_total + n <= u64::MAX
    }

    /// The store after a relay counted `n` bytes sent upstream on `route`:
    /// they are recorded where the HTTP aggregate has room for them.
    pub open spec fn count_sent(self, route: Seq<char>, n: nat) -> TrafficView {
        if self.http_has_room(n) {
            self.record_sent(route, n)
        } else {
            self
        }
    }

    /// The store after a relay counted `n` bytes received from upstream on
    /// `route`: they are recorded where the HTTP aggregate has room for them.
    pub open spec fn count_received(self, route: Seq<char>, n: nat) -> TrafficView {
        if self.http_has_room(n) {
            self.record_received(route, n)
        } else {
            self
        }
    }

    /// The store after a bridge counted `n` relayed payload bytes: they are
    /// recorded where the WebSocket aggregate has room for them.
    pub open spec fn count_ws(self, n: nat) -> TrafficView {
        if self.ws_has_room(n) {
            self.record_ws(n)
        } else {
            self
        }
    }

    /// The store after shutdown was asked for.
    pub open spec fn mark_shutdown(self) -> TrafficView {
        TrafficView { shutdown: true, ..self }
    }

    /// The HTTP aggregate is the sum of all per-route counters, and only
    /// finitely many routes are known.
    pub open spec fn balanced(self) -> bool {
        &&& self.routes.dom().finite()
        &&& self.http_total == table_total(self.routes)
    }
}

/// A table's total splits into any one of its routes and the rest.
pub proof fn lemma_total_split(routes: Map<Seq<char>, (nat, nat)>, route: Seq<char>)
    requires
        routes.dom().finite(),
        routes.contains_key(route),
    ensures
        table_total(routes) == pair_total(routes[route]) + table_total(routes.remove(route)),
    decreases routes.dom().len(),
{
    let first = routes.dom().choose();
    if first != route {
        let without_first = routes.remove(first);
        let without_route = routes.remove(route);
        lemma_total_split(without_first, route);
        lemma_total_split(without_route, first);
        assert(without_first.remove(route) =~= without_route.remove(first));
    }
}

/// Storing a pair under a route makes the total that pair plus the total of
/// the other routes.
pub proof fn lemma_total_insert(routes: Map<Seq<char>, (nat, nat)>, route: Seq<char>, pair: (nat, nat))
    requires
        routes.dom().finite(),
    ensures
        table_total(routes.insert(route, pair)) == pair_total(pair) + table_total(routes.remove(route)),
{
    let after = routes.insert(route, pair);
    lemma_total_split(after, route);
    assert(after.remove(route) =~= routes.remove(route));
}

/// Recording sent bytes keeps the aggregate equal to the sum of the routes.
pub proof fn lemma_record_sent_balanced(view: TrafficView, route: Seq<char>, n: nat)
    requires
        view.balanced(),
    ensures
        view.record_sent(route, n).balanced(),
{
    lemma_total_insert(view.routes, route, (view.sent(route) + n, view.received(route)));
    if view.routes.contains_key(route) {
        lemma_total_split(view.routes, route);
    } else {
        assert(view.routes.remove(route) =~= view.routes);
    }
}

/// Recording received bytes keeps the aggregate equal to the sum of the routes.
pub proof fn lemma_record_received_balanced(view: TrafficView, route: Seq<char>, n: nat)
    requires
        view.balanced(),
    ensures
        view.record_received(route, n).balanced(),
{
    lemma_total_insert(view.routes, route, (view.sent(route), view.received(route) + n));
    if view.routes.contains_key(route) {
        lemma_total_split(view.routes, route);
    } else {
        assert(view.routes.remove(route) =~= view.routes);
    }
}

/// In a balanced store no route has carried more than the aggregate.
pub proof fn lemma_route_within_total(view: TrafficView, route: Seq<char>)
    requires
        view.balanced(),
    ensures
        view.sent(route) + view.received(route) <= view.http_total,
{
    if view.routes.contains_key(route) {
        lemma_total_split(view.routes, route);
    }
}

/// One transfer that the request relay records.
pub enum Transfer {
    /// `bytes` went from the client to the upstream on `route`.
    Sent { route: Seq<char>, bytes: nat },
    /// `bytes` came back from the upstream on `route`.
    Received { route: Seq<char>, bytes: nat },
}

impl Transfer {
    /// The route that the transfer is accounted to.
    pub open spec fn route(self) -> Seq<char> {
        match self {
            Transfer::Sent { route, .. } => route,
            Transfer::Received { route, .. } => route,
        }
    }

    /// The bytes that the transfer carried, whatever its direction.
    pub open spec fn bytes(self) -> nat {
        match self {
            Transfer::Sent { bytes, .. } => bytes,
            Transfer::Received { bytes, .. } => bytes,
        }
    }

    /// The bytes that the transfer sent upstream on `route`.
    pub open spec fn sent_on(self, route: Seq<char>) -> nat {
        match self {
            Transfer::Sent { route: r, bytes } if r == route => bytes,
            _ => 0,
        }
    }

    /// The bytes that the transfer received from upstream on `route`.
    pub open spec fn received_on(self, route: Seq<char>) -> nat {
        match self {
            Transfer::Received { route: r, bytes } if r == route => bytes,
            _ => 0,
        }
    }
}

impl TrafficView {
    /// The store after one transfer was recorded.
    pub open spec fn apply(self, transfer: Transfer) -> TrafficView {
        match transfer {
            Transfer::Sent { route, bytes } => self.record_sent(route, bytes),
            Transfer::Received { route, bytes } => self.record_received(route, bytes),
        }
    }

    /// The store after the transfers of `log` were recorded one after the
    /// other.
    pub open spec fn replay(self, log: Seq<Transfer>) -> TrafficView
        decreases log.len(),
    {
        if log.len() == 0 {
            self
        } else {
            self.replay(log.drop_last()).apply(log.last())
        }
    }
}

/// The sum of `weight` over the transfers of `log`.
pub open spec fn sum_over(log: Seq<Transfer>, weight: spec_fn(Transfer) -> nat) -> nat
    decreases log.len(),
{
    if log.len() == 0 {
        0
    } else {
        sum_over(log.drop_last(), weight) + weight(log.last())
    }
}

/// All bytes that `log` sent upstream on `route`.
pub open spec fn sent_sum(log: Seq<Transfer>, route: Seq<char>) -> nat {
    sum_over(log, |t: Transfer| t.sent_on(route))
}

/// All bytes that `log` received from upstream on `route`.
pub open spec fn received_sum(log: Seq<Transfer>, route: Seq<char>) -> nat {
    sum_over(log, |t: Transfer| t.received_on(route))
}

/// All bytes of `log`, every route and both directions.
pub open spec fn volume(log: Seq<Transfer>) -> nat {
    sum_over(log, |t: Transfer| t.bytes())
}

/// Whether some transfer of `log` is accounted to `route`.
pub open spec fn touches(log: Seq<Transfer>, route: Seq<char>) -> bool {
    exists|i: int| 0 <= i < log.len() && (#[trigger] log[i]).route() == route
}

/// After any sequence of recorded transfers, each route's counters have
/// grown by exactly the bytes issued for that route in each direction, the
/// HTTP aggregate has grown by the bytes of all transfers, a route is known
/// exactly if it was known before or a transfer names it, and nothing else
/// has changed.
pub proof fn lemma_replay_exact(start: TrafficView, log: Seq<Transfer>)
    ensures
        forall|route: Seq<char>| #[trigger]
            start.replay(log).sent(route) == start.sent(route) + sent_sum(log, route),
        forall|route: Seq<char>| #[trigger]
            start.replay(log).received(route) == start.received(route) + received_sum(log, route),
        forall|route: Seq<char>| #[trigger]
            start.replay(log).routes.contains_key(route) <==> start.routes.contains_key(route) || touches(
                log,
                route,
            ),
        start.replay(log).http_total == start.http_total + volume(log),
        start.replay(log).ws_total == start.ws_total,
        start.replay(log).shutdown == start.shutdown,
        start.balanced() ==> start.replay(log).balanced(),
    decreases log.len(),
{
    if log.len() > 0 {
        let head = log.drop_last();
        let before = start.replay(head);
        lemma_replay_exact(start, head);
        assert forall|route: Seq<char>| #[trigger]
            start.replay(log).sent(route) == start.sent(route) + sent_sum(log, route) by {
            assert(before.sent(route) == start.sent(route) + sent_sum(head, route));
            assert(sent_sum(log, route) == sent_sum(head, route) + log.last().sent_on(route));
        }
        assert forall|route: Seq<char>| #[trigger]
            start.replay(log).received(route) == start.received(route) + received_sum(log, route) by {
            assert(before.received(route) == start.received(route) + received_sum(head, route));
            assert(received_sum(log, route) == received_sum(head, route) + log.last().received_on(route));
        }
        match log.last() {
            Transfer::Sent { route, bytes } => {
                if start.balanced() {
                    lemma_record_sent_balanced(before, route, bytes);
                }
            },
            Transfer::Received { route, bytes } => {
                if start.balanced() {
                    lemma_record_received_balanced(before, route, bytes);
                }
            },
        }
        assert forall|route: Seq<char>| #[trigger]
            start.replay(log).routes.contains_key(route) <==> start.routes.contains_key(route) || touches(
                log,
                route,
            ) by {
            if touches(head, route) {
                let i = choose|i: int| 0 <= i < head.len() && (#[trigger] head[i]).route() == route;
                assert(log[i].route() == route);
            }
            if touches(log, route) {
                let i = choose|i: int| 0 <= i < log.len() && (#[trigger] log[i]).route() == route;
                if i < head.len() {
                    assert(head[i].route() == route);
                }
            }
            if log.last().route() == route {
                assert(log[log.len() - 1].route() == route);
            }
        }
    } else {
        assert forall|route: Seq<char>| !touches(log, route) by {}
    }
}

/// Recording bytes on one route touches that route's counter of that
/// direction and the HTTP aggregate, and nothing else: every other route is
/// known or unknown as before and holds what it held, the route's counter
/// of the other direction, the WebSocket aggregate and the shutdown flag
/// are as they were, and no route is removed.
pub proof fn lemma_record_touches_one(view: TrafficView, route: Seq<char>, n: nat)
    ensures
        forall|other: Seq<char>|
            other != route ==> (#[trigger] view.record_sent(route, n).routes.contains_key(other)
                == view.routes.contains_key(other)) && view.record_sent(route, n).routes[other]
                == view.routes[other],
        forall|other: Seq<char>|
            other != route ==> (#[trigger] view.record_received(route, n).routes.contains_key(other)
                == view.routes.contains_key(other)) && view.record_received(route, n).routes[other]
                == view.routes[other],
        view.record_sent(route, n).routes.contains_key(route),
        view.record_received(route, n).routes.contains_key(route),
        view.record_sent(route, n).sent(route) == view.sent(route) + n,
        view.record_sent(route, n).received(route) == view.received(route),
        view.record_received(route, n).received(route) == view.received(route) + n,
        view.record_received(route, n).sent(route) == view.sent(route),
        view.record_sent(route, n).ws_total == view.ws_total,
        view.record_received(route, n).ws_total == view.ws_total,
        view.record_sent(route, n).shutdown == view.shutdown,
        view.record_received(route, n).shutdown == view.shutdown,
{
}

/// From an empty store, the counters of every route are exactly the sums of
/// the bytes issued for it, and the HTTP aggregate is the sum of all bytes
/// issued.
pub proof fn lemma_counters_are_sums(log: Seq<Transfer>, route: Seq<char>)
    ensures
        TrafficView::empty().replay(log).sent(route) == sent_sum(log, route),
        TrafficView::empty().replay(log).received(route) == received_sum(log, route),
        TrafficView::empty().replay(log).http_total == volume(log),
        TrafficView::empty().replay(log).balanced(),
{
    lemma_replay_exact(TrafficView::empty(), log);
    assert(TrafficView::empty().routes.dom() =~= Set::empty());
    assert(TrafficView::empty().replay(log).sent(route) == TrafficView::empty().sent(route) + sent_sum(log, route));
    assert(TrafficView::empty().replay(log).received(route) == TrafficView::empty().received(route)
        + received_sum(log, route));
}

/// `after` knows every route that `before` knew, no counter or aggregate is
/// lower in it, and the shutdown flag is set in it if it was set before.
pub open spec fn grown(before: TrafficView, after: TrafficView) -> bool {
    &&& forall|route: Seq<char>| before.routes.contains_key(route) ==> #[trigger] after.routes.contains_key(route)
    &&& forall|route: Seq<char>| before.sent(route) <= #[trigger] after.sent(route)
    &&& forall|route: Seq<char>| before.received(route) <= #[trigger] after.received(route)
    &&& before.http_total <= after.http_total
    &&& before.ws_total <= after.ws_total
    &&& before.shutdown ==> after.shutdown
}

/// Counters never decrease, routes are never removed and the shutdown flag
/// goes from unset to set only, whichever operation is applied.
pub proof fn lemma_store_only_grows(view: TrafficView, route: Seq<char>, n: nat)
    ensures
        grown(view, view.record_sent(route, n)),
        grown(view, view.record_received(route, n)),
        grown(view, view.record_ws(n)),
        grown(view, view.mark_shutdown()),
        grown(view, view.count_sent(route, n)),
        grown(view, view.count_received(route, n)),
        grown(view, view.count_ws(n)),
        view.mark_shutdown().shutdown,
{
}

/// Taking one transfer out of a log lowers a sum by that transfer's weight.
proof fn lemma_sum_remove(log: Seq<Transfer>, weight: spec_fn(Transfer) -> nat, at: int)
    requires
        0 <= at < log.len(),
    ensures
        sum_over(log, weight) == sum_over(log.remove(at), weight) + weight(log[at]),
    decreases log.len(),
{
    if at == log.len() - 1 {
        assert(log.remove(at) =~= log.drop_last());
    } else {
        lemma_sum_remove(log.drop_last(), weight, at);
        assert(log.remove(at).drop_last() =~= log.drop_last().remove(at));
        assert(log.remove(at).last() == log.last());
    }
}

/// Two logs that hold the same transfers, in whatever order, have the same
/// sums.
pub proof fn lemma_sum_any_order(first: Seq<Transfer>, second: Seq<Transfer>, weight: spec_fn(Transfer) -> nat)
    requires
        first.to_multiset() == second.to_multiset(),
    ensures
        sum_over(first, weight) == sum_over(second, weight),
    decreases first.len(),
{
    to_multiset_len(first);
    to_multiset_len(second);
    if first.len() > 0 {
        let last = first.last();
        let head = first.drop_last();
        assert(first.contains(last));
        to_multiset_contains(first, last);
        to_multiset_contains(second, last);
        let at = choose|at: int| 0 <= at < second.len() && second[at] == last;
        let rest = second.remove(at);
        assert(first =~= head.push(last));
        to_multiset_build(head, last);
        to_multiset_remove(second, at);
        assert(head.to_multiset() =~= first.to_multiset().remove(last));
        lemma_sum_any_order(head, rest, weight);
        lemma_sum_remove(second, weight, at);
    }
}

/// The order in which transfers are recorded does not matter: two logs that
/// hold the same transfers lead from the same store to the same store.
pub proof fn lemma_replay_any_order(start: TrafficView, first: Seq<Transfer>, second: Seq<Transfer>)
    requires
        first.to_multiset() == second.to_multiset(),
    ensures
        start.replay(first) == start.replay(second),
{
    lemma_replay_exact(start, first);
    lemma_replay_exact(start, second);
    lemma_sum_any_order(first, second, |t: Transfer| t.bytes());
    let a = start.replay(first);
    let b = start.replay(second);
    assert forall|route: Seq<char>| touches(first, route) == touches(second, route) by {
        if touches(first, route) {
            let i = choose|i: int| 0 <= i < first.len() && (#[trigger] first[i]).route() == route;
            assert(first.contains(first[i]));
            to_multiset_contains(first, first[i]);
            to_multiset_contains(second, first[i]);
            let j = choose|j: int| 0 <= j < second.len() && second[j] == first[i];
            assert(second[j].route() == route);
        }
        if touches(second, route) {
            let i = choose|i: int| 0 <= i < second.len() && (#[trigger] second[i]).route() == route;
            assert(second.contains(second[i]));
            to_multiset_contains(second, second[i]);
            to_multiset_contains(first, second[i]);
            let j = choose|j: int| 0 <= j < first.len() && first[j] == second[i];
            assert(first[j].route() == route);
        }
    }
    assert forall|route: Seq<char>| a.routes.contains_key(route) implies a.routes[route] == b.routes[route] by {
        lemma_sum_any_order(first, second, |t: Transfer| t.sent_on(route));
        lemma_sum_any_order(first, second, |t: Transfer| t.received_on(route));
        assert(a.sent(route) == b.sent(route));
        assert(a.received(route) == b.received(route));
        assert(b.routes.contains_key(route));
    }
    assert(a.routes =~= b.routes);
}

} // verus!
