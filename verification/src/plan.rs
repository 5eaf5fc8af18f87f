//! The retry state machine of one proxied request: the ordered candidates, the
//! attempt that is due, and what follows each outcome.

use vstd::prelude::*;
use crate::balancer::{lemma_round_robin, lemma_slot_offset, slot_of, ticket_after_claims};
use crate::error::GatewayError;
use crate::outcome::{AttemptOutcome, FailureCause};
use crate::target::{relative_target, spec_query, spec_relative_target, upstream_url};
use crate::upstream::{RetryStrategy, UpstreamService, UpstreamServiceView};

verus! {

/// The reply sent to the client when an upstream answered with success.
#[derive(Debug, Clone, PartialEq, Eq)]
pub struct ProxyResponse {
    pub status: u16,
    pub body: String,
}

/// One upstream to try: its position in the pool and the address to fetch.
#[derive(Debug, PartialEq, Eq)]
struct Candidate {
    upstream: usize,
    url: String,
}

/// A retry plan as plain mathematical values: the candidates in the order in
/// which they are tried, and how many of them have failed already.
pub struct RetryPlanView {
    /// Position of the matched route entry in the route table.
    pub route: nat,
    /// Time limit of each attempt, in seconds.
    pub timeout_seconds: u64,
    /// Pool position of each candidate.
    pub order: Seq<nat>,
    /// Address to fetch for each candidate.
    pub urls: Seq<Seq<char>>,
    /// Number of candidates that have failed; the candidate at this position
    /// is the one to try now.
    pub cursor: nat,
}

impl RetryPlanView {
    /// Every plan has a candidate that is due and one address per candidate.
    pub open spec fn wf(self) -> bool {
        &&& self.order.len() == self.urls.len()
        &&& self.cursor < self.order.len()
    }

    /// The plan after the candidate that was due has failed.
    pub open spec fn advanced(self) -> Self {
        RetryPlanView { cursor: self.cursor + 1, ..self }
    }

    /// Number of candidates not yet tried, the one that is due included.
    pub open spec fn remaining(self) -> nat {
        (self.order.len() - self.cursor) as nat
    }
}

/// Number of candidates of a request that matched `entry`: the configured
/// number of attempts under a sweep from a snapshot, the whole pool when a
/// slot is claimed.
pub open spec fn spec_budget(entry: UpstreamServiceView) -> nat {
    match entry.strategy {
        RetryStrategy::SweepFromSnapshot => entry.max_attempts,
        RetryStrategy::ClaimThenFallback => entry.upstreams.len(),
    }
}

/// Pool positions tried by a request that starts from the counter value
/// `ticket`: `ticket`, `ticket + 1`, ... for `count` positions, each modulo
/// the size of the pool.
pub open spec fn spec_order(ticket: nat, count: nat, pool: nat) -> Seq<nat> {
    Seq::new(count, |k: int| slot_of((ticket + k) as nat, pool))
}

/// The plan of a request for `path` and `query` that matched `entry`, the
/// route entry at position `route`.
pub open spec fn spec_plan(
    entry: UpstreamServiceView,
    route: nat,
    path: Seq<char>,
    query: Option<Seq<char>>,
) -> RetryPlanView {
    let target = spec_relative_target(entry.prefix, path, query);
    let order = spec_order(entry.ticket, spec_budget(entry), entry.upstreams.len());
    RetryPlanView {
        route,
        timeout_seconds: entry.timeout_seconds,
        order,
        urls: Seq::new(order.len(), |k: int| entry.upstreams[order[k] as int] + target),
        cursor: 0,
    }
}

/// The route entry after a request that matched it was planned: one rotation
/// slot is claimed where the strategy asks for it, and nothing changes
/// otherwise.
pub open spec fn spec_after_plan(entry: UpstreamServiceView) -> UpstreamServiceView {
    match entry.strategy {
        RetryStrategy::SweepFromSnapshot => entry,
        RetryStrategy::ClaimThenFallback => entry.claimed(),
    }
}

/// The candidates of one request and the attempt that is due.
#[derive(Debug, PartialEq, Eq)]
pub struct RetryPlan {
    route: usize,
    timeout_seconds: u64,
    candidates: Vec<Candidate>,
    cursor: usize,
}

impl View for RetryPlan {
    type V = RetryPlanView;

    closed spec fn view(&self) -> RetryPlanView {
        RetryPlanView {
            route: self.route as nat,
            timeout_seconds: self.timeout_seconds,
            order: Seq::new(self.candidates@.len(), |k: int| self.candidates@[k].upstream as nat),
            urls: Seq::new(self.candidates@.len(), |k: int| self.candidates@[k].url@),
            cursor: self.cursor as nat,
        }
    }
}

/// What the caller does next for a request.
#[derive(Debug, PartialEq, Eq)]
pub enum ProxyStep {
    /// Fetch the address that the plan names, then hand the outcome to
    /// `RetryPlan::advance`.
    Attempt(RetryPlan),
    /// Send this reply: an upstream answered with success.
    Respond(ProxyResponse),
    /// Send the reply for this failure.
    Fail(GatewayError),
}

/// A step as plain mathematical values.
pub enum ProxyStepView {
    Attempt(RetryPlanView),
    Respond(ProxyResponse),
    Fail(GatewayError),
}

impl View for ProxyStep {
    type V = ProxyStepView;

    open spec fn view(&self) -> ProxyStepView {
        match self {
            ProxyStep::Attempt(plan) => ProxyStepView::Attempt(plan@),
            ProxyStep::Respond(response) => ProxyStepView::Respond(*response),
            ProxyStep::Fail(error) => ProxyStepView::Fail(*error),
        }
    }
}

/// The step that follows `outcome` for the attempt that was due in `plan`:
/// a success ends the request with status 200 and the body received; a
/// failure moves on to the next candidate while there is one, and is
/// surfaced when there is none.
pub open spec fn spec_advance(plan: RetryPlanView, outcome: AttemptOutcome) -> ProxyStepView {
    match outcome {
        AttemptOutcome::Success { body, .. } => ProxyStepView::Respond(
            ProxyResponse { status: 200, body },
        ),
        _ => if plan.cursor + 1 < plan.order.len() {
            ProxyStepView::Attempt(plan.advanced())
        } else {
            ProxyStepView::Fail(outcome.spec_failure().unwrap())
        },
    }
}

impl RetryPlan {
    #[verifier::type_invariant]
    closed spec fn inv(&self) -> bool {
        self.cursor < self.candidates@.len()
    }

    /// Plans the attempts of a request for `path` and `query` that matched
    /// `service`, the route entry at position `route`. Claims a rotation slot
    /// of the entry where its strategy asks for one.
    pub fn prepare(
        service: &mut UpstreamService,
        route: usize,
        path: &str,
        query: Option<&str>,
    ) -> (plan: RetryPlan)
        ensures
            plan@ == spec_plan(old(service)@, route as nat, path@, spec_query(query)),
            plan@.wf(),
            final(service)@ == spec_after_plan(old(service)@),
    {
        let ghost before = service@;
        let pool: usize = service.pool_size();
        let strategy = service.strategy();
        let budget: usize = match strategy {
            RetryStrategy::SweepFromSnapshot => service.max_retries(),
            RetryStrategy::ClaimThenFallback => pool,
        };
        let first: usize = match strategy {
            RetryStrategy::SweepFromSnapshot => service.snapshot() % pool,
            RetryStrategy::ClaimThenFallback => service.next_index(),
        };
        let ghost after = service@;
        let target = relative_target(service.prefix(), path, query);
        let room: usize = pool - first;
        let mut candidates: Vec<Candidate> = Vec::new();
        let mut tried: usize = 0;
        while tried < budget
            invariant
                service@ == after,
                after == spec_after_plan(before),
                pool == before.upstreams.len(),
                budget == spec_budget(before),
                budget <= pool,
                first == slot_of(before.ticket, pool as nat),
                first < pool,
                room == pool - first,
                target@ == spec_relative_target(before.prefix, path@, spec_query(query)),
                tried <= budget,
                candidates@.len() == tried,
                forall|k: int|
                    0 <= k < tried ==> {
                        &&& (#[trigger] candidates@[k]).upstream == slot_of(
                            (before.ticket + k) as nat,
                            pool as nat,
                        )
                        &&& candidates@[k].url@ == before.upstreams[candidates@[k].upstream as int]
                            + target@
                    },
            decreases budget - tried,
        {
            let upstream: usize = if tried < room {
                first + tried
            } else {
                tried - room
            };
            proof {
                lemma_slot_offset(before.ticket, tried as nat, pool as nat);
                vstd::arithmetic::div_mod::lemma_small_mod(upstream as nat, pool as nat);
            }
            let url = upstream_url(service.get_upstream_by_index(upstream), target.as_str());
            candidates.push(Candidate { upstream, url });
            tried = tried + 1;
        }
        let plan = RetryPlan {
            route,
            timeout_seconds: service.timeout_seconds(),
            candidates,
            cursor: 0,
        };
        proof {
            let expected = spec_plan(before, route as nat, path@, spec_query(query));
            assert(plan@.order =~= expected.order);
            assert(plan@.urls =~= expected.urls);
        }
        plan
    }

    /// The step that follows `outcome` for the attempt that was due.
    pub fn advance(self, outcome: AttemptOutcome) -> (step: ProxyStep)
        ensures
            step@ == spec_advance(self@, outcome),
            step matches ProxyStep::Attempt(next) ==> next@.wf(),
    {
        match outcome {
            AttemptOutcome::Success { body, status: _ } => ProxyStep::Respond(
                ProxyResponse { status: 200, body },
            ),
            AttemptOutcome::UpstreamError(cause) => self.after_failure(cause.into_error()),
            AttemptOutcome::UpstreamRejected(status) => self.after_failure(
                GatewayError::UpstreamRejectedStatus(status),
            ),
        }
    }

    /// Moves on to the next candidate, or surfaces `error` when none is left.
    fn after_failure(self, error: GatewayError) -> (step: ProxyStep)
        ensures
            step@ == if self@.cursor + 1 < self@.order.len() {
                ProxyStepView::Attempt(self@.advanced())
            } else {
                ProxyStepView::Fail(error)
            },
            step matches ProxyStep::Attempt(next) ==> next@.wf(),
    {
        proof {
            use_type_invariant(&self);
        }
        let count: usize = self.candidates.len();
        if self.cursor + 1 < count {
            let next = RetryPlan {
                route: self.route,
                timeout_seconds: self.timeout_seconds,
                candidates: self.candidates,
                cursor: self.cursor + 1,
            };
            proof {
                assert(next@.order =~= self@.order);
                assert(next@.urls =~= self@.urls);
            }
            ProxyStep::Attempt(next)
        } else {
            ProxyStep::Fail(error)
        }
    }

    /// Position of the matched route entry in the route table.
    pub fn route(&self) -> (route: usize)
        ensures
            route == self@.route,
    {
        self.route
    }

    /// Time limit of the attempt that is due, in seconds.
    pub fn timeout_seconds(&self) -> (seconds: u64)
        ensures
            seconds == self@.timeout_seconds,
    {
        self.timeout_seconds
    }

    /// Number of the attempt that is due, counted from one.
    pub fn attempt(&self) -> (number: usize)
        ensures
            number == self@.cursor + 1,
            number <= self@.order.len(),
    {
        let count: usize = self.candidates.len();
        proof {
            use_type_invariant(self);
            assert(self.cursor < count);
        }
        self.cursor + 1
    }

    /// Number of attempts that the request may make in all.
    pub fn max_attempts(&self) -> (count: usize)
        ensures
            count == self@.order.len(),
            self@.wf(),
    {
        proof {
            use_type_invariant(self);
        }
        self.candidates.len()
    }

    /// Pool position of the upstream that is due.
    pub fn upstream_index(&self) -> (index: usize)
        ensures
            self@.wf(),
            index == self@.order[self@.cursor as int],
    {
        proof {
            use_type_invariant(self);
        }
        self.candidates[self.cursor].upstream
    }

    /// Address to fetch for the attempt that is due.
    pub fn url(&self) -> (url: &str)
        ensures
            self@.wf(),
            url@ == self@.urls[self@.cursor as int],
    {
        proof {
            use_type_invariant(self);
        }
        self.candidates[self.cursor].url.as_str()
    }
}

/// Where a request stands after the outcomes of its attempts, in order, were
/// handed to `plan`: still attempting while the outcomes given are all
/// failures and candidates are left, else the step that ended it. Outcomes
/// behind the one that ended the request are not looked at: no attempt is made
/// for them.
pub open spec fn spec_run(plan: RetryPlanView, outcomes: Seq<AttemptOutcome>) -> ProxyStepView
    decreases outcomes.len(),
{
    if outcomes.len() == 0 {
        ProxyStepView::Attempt(plan)
    } else {
        match spec_advance(plan, outcomes[0]) {
            ProxyStepView::Attempt(next) => spec_run(next, outcomes.skip(1)),
            done => done,
        }
    }
}

/// The plan after `failed` more of its candidates have failed.
pub open spec fn spec_after_failures(plan: RetryPlanView, failed: nat) -> RetryPlanView {
    RetryPlanView { cursor: plan.cursor + failed, ..plan }
}

/// Every position that a request tries is a position of the pool.
pub proof fn lemma_order_in_pool(ticket: nat, count: nat, pool: nat, k: int)
    requires
        pool > 0,
        0 <= k < count,
    ensures
        spec_order(ticket, count, pool)[k] < pool,
{
    lemma_slot_offset((ticket + k) as nat, 0, pool);
}

/// A request never tries one upstream twice: as long as it makes no more
/// attempts than the pool has upstreams, the positions it tries are pairwise
/// different.
pub proof fn lemma_order_distinct(ticket: nat, count: nat, pool: nat, i: int, j: int)
    requires
        pool > 0,
        count <= pool,
        0 <= i < j < count,
    ensures
        spec_order(ticket, count, pool)[i] != spec_order(ticket, count, pool)[j],
{
    lemma_slot_offset((ticket + i) as nat, (j - i) as nat, pool);
    assert((ticket + i) as nat + (j - i) as nat == (ticket + j) as nat);
}

/// A request that may make as many attempts as the pool has upstreams tries
/// every upstream.
pub proof fn lemma_order_covers(ticket: nat, pool: nat, slot: nat) -> (k: int)
    requires
        pool > 0,
        slot < pool,
    ensures
        0 <= k < pool,
        spec_order(ticket, pool, pool)[k] == slot,
{
    let first: nat = slot_of(ticket, pool);
    lemma_slot_offset(ticket, 0, pool);
    let k: int = if slot >= first {
        slot - first
    } else {
        slot + pool - first
    };
    lemma_slot_offset(ticket, k as nat, pool);
    k
}

/// The first upstream that a request tries is the one that the rotation
/// counter selects when the request arrives, and the number of upstreams it
/// may try is never above the size of the pool.
pub proof fn lemma_plan_shape(
    entry: UpstreamServiceView,
    route: nat,
    path: Seq<char>,
    query: Option<Seq<char>>,
)
    requires
        entry.wf(),
    ensures
        spec_plan(entry, route, path, query).wf(),
        1 <= spec_plan(entry, route, path, query).order.len() <= entry.upstreams.len(),
        spec_plan(entry, route, path, query).order.len() == spec_budget(entry),
        spec_plan(entry, route, path, query).order[0] == entry.slot(),
        entry.strategy == RetryStrategy::SweepFromSnapshot ==> spec_plan(
            entry,
            route,
            path,
            query,
        ).order.len() == entry.max_attempts,
{
}

/// Under claim-then-fallback a request tries every upstream of the pool, and
/// each of them exactly once: `upstream` stands at one position of the order
/// and at no other. So a request succeeds as soon as one upstream of the pool
/// answers with success, and asks that upstream only once.
pub proof fn lemma_fallback_tries_each_upstream_once(
    entry: UpstreamServiceView,
    route: nat,
    path: Seq<char>,
    query: Option<Seq<char>>,
    upstream: nat,
) -> (at: int)
    requires
        entry.wf(),
        entry.strategy == RetryStrategy::ClaimThenFallback,
        upstream < entry.upstreams.len(),
    ensures
        spec_plan(entry, route, path, query).order.len() == entry.upstreams.len(),
        0 <= at < entry.upstreams.len(),
        spec_plan(entry, route, path, query).order[at] == upstream,
        forall|k: int|
            0 <= k < entry.upstreams.len() && k != at ==> spec_plan(
                entry,
                route,
                path,
                query,
            ).order[k] != upstream,
{
    let pool: nat = entry.upstreams.len();
    let at: int = lemma_order_covers(entry.ticket, pool, upstream);
    assert forall|k: int| 0 <= k < pool && k != at implies spec_order(entry.ticket, pool, pool)[k]
        != upstream by {
        if k < at {
            lemma_order_distinct(entry.ticket, pool, pool, k, at);
        } else {
            lemma_order_distinct(entry.ticket, pool, pool, at, k);
        }
    }
    at
}

/// The route entry after `served` requests that matched it were planned.
pub open spec fn spec_after_requests(entry: UpstreamServiceView, served: nat) -> UpstreamServiceView
    decreases served,
{
    if served == 0 {
        entry
    } else {
        spec_after_plan(spec_after_requests(entry, (served - 1) as nat))
    }
}

/// Requests in a row under claim-then-fallback: each claims one slot, so
/// after `served` requests the counter has moved on by `served`, and with a
/// counter that started at zero the next request goes first to position
/// `served` modulo the size of the pool: `0, 1, ..., N - 1, 0, 1, ...`.
pub proof fn lemma_claimed_requests_rotate(
    entry: UpstreamServiceView,
    served: nat,
    route: nat,
    path: Seq<char>,
    query: Option<Seq<char>>,
)
    requires
        entry.wf(),
        entry.strategy == RetryStrategy::ClaimThenFallback,
        served <= usize::MAX,
    ensures
        spec_after_requests(entry, served) == (UpstreamServiceView {
            ticket: ticket_after_claims(entry.ticket, served),
            ..entry
        }),
        entry.ticket == 0 ==> spec_plan(
            spec_after_requests(entry, served),
            route,
            path,
            query,
        ).order[0] == served % entry.upstreams.len(),
    decreases served,
{
    if served > 0 {
        lemma_claimed_requests_rotate(entry, (served - 1) as nat, route, path, query);
    }
    if entry.ticket == 0 {
        lemma_round_robin(entry.upstreams.len(), served);
    }
}

/// Requests in a row under a sweep from a snapshot: none claims a slot, so
/// the counter stays where it is, and every request goes first to the
/// position that the counter selects, its value modulo the size of the pool.
pub proof fn lemma_swept_requests_keep_counter(
    entry: UpstreamServiceView,
    served: nat,
    route: nat,
    path: Seq<char>,
    query: Option<Seq<char>>,
)
    requires
        entry.wf(),
        entry.strategy == RetryStrategy::SweepFromSnapshot,
    ensures
        spec_after_requests(entry, served) == entry,
        spec_plan(spec_after_requests(entry, served), route, path, query).order[0]
            == entry.ticket % entry.upstreams.len(),
    decreases served,
{
    if served > 0 {
        lemma_swept_requests_keep_counter(entry, (served - 1) as nat, route, path, query);
    }
}

/// While every attempt fails and candidates are left, the request goes on
/// with the next candidate: after `outcomes`, all of them failures and fewer
/// than the candidates that were left, as many candidates have failed as
/// outcomes were given.
pub proof fn lemma_run_pending(plan: RetryPlanView, outcomes: Seq<AttemptOutcome>)
    requires
        plan.wf(),
        outcomes.len() < plan.remaining(),
        forall|i: int| 0 <= i < outcomes.len() ==> outcomes[i].is_failure(),
    ensures
        spec_run(plan, outcomes) == ProxyStepView::Attempt(
            spec_after_failures(plan, outcomes.len()),
        ),
    decreases outcomes.len(),
{
    if outcomes.len() > 0 {
        assert(outcomes[0].is_failure());
        let rest = outcomes.skip(1);
        assert forall|i: int| 0 <= i < rest.len() implies rest[i].is_failure() by {
            assert(rest[i] == outcomes[i + 1]);
        }
        lemma_run_pending(plan.advanced(), rest);
    }
}

/// Exhaustion: when every candidate that was left has failed, the request
/// ends with the failure of the last attempt, and not before.
pub proof fn lemma_run_exhausted(plan: RetryPlanView, outcomes: Seq<AttemptOutcome>)
    requires
        plan.wf(),
        outcomes.len() == plan.remaining(),
        forall|i: int| 0 <= i < outcomes.len() ==> outcomes[i].is_failure(),
    ensures
        spec_run(plan, outcomes) == ProxyStepView::Fail(outcomes.last().spec_failure().unwrap()),
        forall|made: int|
            0 <= made < outcomes.len() ==> #[trigger] spec_run(plan, outcomes.take(made))
                == ProxyStepView::Attempt(spec_after_failures(plan, made as nat)),
    decreases outcomes.len(),
{
    assert(outcomes[0].is_failure());
    let rest = outcomes.skip(1);
    if outcomes.len() > 1 {
        assert forall|i: int| 0 <= i < rest.len() implies rest[i].is_failure() by {
            assert(rest[i] == outcomes[i + 1]);
        }
        lemma_run_exhausted(plan.advanced(), rest);
        assert(rest.last() == outcomes.last());
    } else {
        assert(rest.len() == 0);
        assert(outcomes.last() == outcomes[0]);
    }
    assert forall|made: int| 0 <= made < outcomes.len() implies #[trigger] spec_run(
        plan,
        outcomes.take(made),
    ) == ProxyStepView::Attempt(spec_after_failures(plan, made as nat)) by {
        let given = outcomes.take(made);
        assert forall|i: int| 0 <= i < given.len() implies given[i].is_failure() by {
            assert(given[i] == outcomes[i]);
        }
        lemma_run_pending(plan, given);
    }
}

/// First success wins: when the attempts before position `at` fail and the
/// one at `at` succeeds, the request ends with status 200 and the body of
/// that attempt, whatever outcomes are listed behind it.
pub proof fn lemma_run_first_success(plan: RetryPlanView, outcomes: Seq<AttemptOutcome>, at: int)
    requires
        plan.wf(),
        0 <= at < outcomes.len(),
        at < plan.remaining(),
        forall|i: int| 0 <= i < at ==> outcomes[i].is_failure(),
        outcomes[at] is Success,
    ensures
        spec_run(plan, outcomes) == ProxyStepView::Respond(
            ProxyResponse { status: 200, body: outcomes[at]->body },
        ),
    decreases at,
{
    if at > 0 {
        assert(outcomes[0].is_failure());
        let rest = outcomes.skip(1);
        assert forall|i: int| 0 <= i < at - 1 implies rest[i].is_failure() by {
            assert(rest[i] == outcomes[i + 1]);
        }
        assert(rest[at - 1] == outcomes[at]);
        lemma_run_first_success(plan.advanced(), rest, at - 1);
    }
}

/// When every upstream that a request may try cannot be reached, the request
/// ends after exactly that many attempts, with the transport failure of the
/// last one, which is reported with status 502.
pub proof fn lemma_all_unreachable(plan: RetryPlanView, outcomes: Seq<AttemptOutcome>)
    requires
        plan.wf(),
        plan.cursor == 0,
        outcomes.len() == plan.order.len(),
        forall|i: int|
            0 <= i < outcomes.len() ==> (#[trigger] outcomes[i]) matches AttemptOutcome::UpstreamError(
                FailureCause::Transport(_),
            ),
    ensures
        spec_run(plan, outcomes) matches ProxyStepView::Fail(
            GatewayError::UpstreamTransportFailure(_),
        ),
        spec_run(plan, outcomes) matches ProxyStepView::Fail(error) && error.spec_status() == 502,
        forall|made: int|
            0 <= made < outcomes.len() ==> #[trigger] spec_run(plan, outcomes.take(made))
                is Attempt,
{
    assert forall|i: int| 0 <= i < outcomes.len() implies outcomes[i].is_failure() by {
        assert(outcomes[i] is UpstreamError);
    }
    lemma_run_exhausted(plan, outcomes);
    assert(outcomes.last() == outcomes[outcomes.len() - 1]);
}

} // verus!
