//! The route table and the entry point of the proxy: from an inbound request
//! to its first step.

use vstd::prelude::*;
use crate::error::GatewayError;
use crate::balancer::ticket_after;
use crate::plan::{spec_after_plan, spec_plan, ProxyStep, ProxyStepView, RetryPlan};
use crate::target::spec_query;
use crate::text::{same_text, starts_with};
use crate::upstream::{RetryStrategy, UpstreamService, UpstreamServiceView};

verus! {

/// The route entries of a table, each as plain mathematical values.
pub open spec fn spec_entries(entries: Seq<UpstreamService>) -> Seq<UpstreamServiceView> {
    Seq::new(entries.len(), |i: int| entries[i]@)
}

/// Whether the entry at position `i` matches `path`: its prefix is a literal
/// prefix of the path.
pub open spec fn route_matches(entries: Seq<UpstreamServiceView>, path: Seq<char>, i: int) -> bool {
    0 <= i < entries.len() && entries[i].prefix.is_prefix_of(path)
}

/// Whether the entry at position `i` is the one that serves `path`: the
/// first entry, in the order of the table, that matches it.
pub open spec fn is_first_match(
    entries: Seq<UpstreamServiceView>,
    path: Seq<char>,
    i: int,
) -> bool {
    &&& route_matches(entries, path, i)
    &&& forall|j: int| 0 <= j < i ==> !route_matches(entries, path, j)
}

/// Whether no entry matches `path`.
pub open spec fn no_route(entries: Seq<UpstreamServiceView>, path: Seq<char>) -> bool {
    forall|j: int| !route_matches(entries, path, j)
}

/// Position of the entry that serves `path`, if any entry matches it.
pub open spec fn spec_route(entries: Seq<UpstreamServiceView>, path: Seq<char>) -> Option<int> {
    if no_route(entries, path) {
        None
    } else {
        Some(choose|i: int| is_first_match(entries, path, i))
    }
}

/// The first step of a request and the route table after it.
///
/// A method other than `GET` is refused before any route is looked at. A
/// path that no entry matches ends the request with `NoRoute`. Else the
/// attempts are planned against the entry that serves the path, which claims
/// a rotation slot of that entry if its strategy asks for one. No other
/// entry changes.
pub open spec fn spec_begin(
    entries: Seq<UpstreamServiceView>,
    method: Seq<char>,
    path: Seq<char>,
    query: Option<Seq<char>>,
) -> (ProxyStepView, Seq<UpstreamServiceView>) {
    if !spec_is_get(method) {
        (ProxyStepView::Fail(GatewayError::MethodNotAllowed), entries)
    } else {
        match spec_route(entries, path) {
            None => (ProxyStepView::Fail(GatewayError::NoRoute), entries),
            Some(route) => (
                ProxyStepView::Attempt(spec_plan(entries[route], route as nat, path, query)),
                entries.update(route, spec_after_plan(entries[route])),
            ),
        }
    }
}

/// At most one entry serves a path, and `spec_route` names it.
pub proof fn lemma_route_unique(entries: Seq<UpstreamServiceView>, path: Seq<char>, route: int)
    requires
        is_first_match(entries, path, route),
    ensures
        spec_route(entries, path) == Some(route),
{
    assert(route_matches(entries, path, route));
    let chosen: int = choose|i: int| is_first_match(entries, path, i);
    if chosen < route {
        assert(!route_matches(entries, path, chosen));
    } else if chosen > route {
        assert(route_matches(entries, path, route));
    }
}

/// Whether `method` is the one method that the gateway forwards.
pub open spec fn spec_is_get(method: Seq<char>) -> bool {
    method == "GET"@
}

/// The route entries of a gateway, in the order in which they were
/// configured.
#[derive(Debug)]
pub struct RouteTable {
    entries: Vec<UpstreamService>,
}

impl View for RouteTable {
    type V = Seq<UpstreamServiceView>;

    closed spec fn view(&self) -> Seq<UpstreamServiceView> {
        spec_entries(self.entries@)
    }
}

impl RouteTable {
    /// A table of the given entries, in their order.
    pub fn new(entries: Vec<UpstreamService>) -> (table: RouteTable)
        ensures
            table@ == spec_entries(entries@),
    {
        RouteTable { entries }
    }

    /// Number of entries.
    pub fn len(&self) -> (count: usize)
        ensures
            count == self@.len(),
    {
        self.entries.len()
    }

    /// The entry at position `route`, if there is one.
    pub fn entry(&self, route: usize) -> (entry: Option<&UpstreamService>)
        ensures
            match entry {
                Some(service) => route < self@.len() && service@ == self@[route as int],
                None => route >= self@.len(),
            },
    {
        if route < self.entries.len() {
            Some(&self.entries[route])
        } else {
            None
        }
    }

    /// Position of the entry that serves `path`: the first one, in the order
    /// of the table, whose prefix is a literal prefix of `path`.
    pub fn find_route(&self, path: &str) -> (found: Option<usize>)
        ensures
            match found {
                Some(route) => is_first_match(self@, path@, route as int),
                None => no_route(self@, path@),
            },
            match found {
                Some(route) => spec_route(self@, path@) == Some(route as int),
                None => spec_route(self@, path@) is None,
            },
    {
        let mut route: usize = 0;
        while route < self.entries.len()
            invariant
                route <= self.entries@.len(),
                forall|j: int| 0 <= j < route ==> !route_matches(self@, path@, j),
            decreases self.entries@.len() - route,
        {
            if starts_with(path, self.entries[route].prefix()) {
                proof {
                    lemma_route_unique(self@, path@, route as int);
                }
                return Some(route);
            }
            route = route + 1;
        }
        None
    }

    /// The first step of an inbound request; see `spec_begin`.
    pub fn begin(&mut self, method: &str, path: &str, query: Option<&str>) -> (step: ProxyStep)
        ensures
            step@ == spec_begin(old(self)@, method@, path@, spec_query(query)).0,
            final(self)@ == spec_begin(old(self)@, method@, path@, spec_query(query)).1,
            step matches ProxyStep::Attempt(plan) ==> plan@.wf(),
    {
        if !same_text(method, "GET") {
            return ProxyStep::Fail(GatewayError::MethodNotAllowed);
        }
        match self.find_route(path) {
            None => ProxyStep::Fail(GatewayError::NoRoute),
            Some(route) => {
                let ghost before = self@;
                let plan = RetryPlan::prepare(&mut self.entries[route], route, path, query);
                proof {
                    assert(self@ =~= before.update(
                        route as int,
                        spec_after_plan(before[route as int]),
                    ));
                }
                ProxyStep::Attempt(plan)
            },
        }
    }
}

/// A request with a method other than `GET` is answered with status 405,
/// whatever its path, and leaves the route table as it was.
pub proof fn lemma_other_methods_refused(
    entries: Seq<UpstreamServiceView>,
    method: Seq<char>,
    path: Seq<char>,
    query: Option<Seq<char>>,
)
    requires
        !spec_is_get(method),
    ensures
        spec_begin(entries, method, path, query).0 == ProxyStepView::Fail(
            GatewayError::MethodNotAllowed,
        ),
        GatewayError::MethodNotAllowed.spec_status() == 405,
        spec_begin(entries, method, path, query).1 == entries,
{
}

/// A request claims at most one rotation slot, and only of the entry that
/// serves it: under claim-then-fallback the counter of that entry moves on by
/// exactly one, under a sweep from a snapshot it stays, and every other
/// entry is left as it was. What follows the first step never touches the
/// table.
pub proof fn lemma_one_claim_per_request(
    entries: Seq<UpstreamServiceView>,
    method: Seq<char>,
    path: Seq<char>,
    query: Option<Seq<char>>,
    route: int,
)
    requires
        spec_is_get(method),
        is_first_match(entries, path, route),
    ensures
        spec_begin(entries, method, path, query).1.len() == entries.len(),
        spec_begin(entries, method, path, query).1[route].ticket == match entries[route].strategy {
            RetryStrategy::ClaimThenFallback => ticket_after(entries[route].ticket),
            RetryStrategy::SweepFromSnapshot => entries[route].ticket,
        },
        forall|other: int|
            0 <= other < entries.len() && other != route ==> spec_begin(
                entries,
                method,
                path,
                query,
            ).1[other] == entries[other],
{
    lemma_route_unique(entries, path, route);
}

} // verus!
