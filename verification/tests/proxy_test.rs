use leyline_gateway::error::GatewayError;
use leyline_gateway::outcome::{AttemptOutcome, FailureCause};
use leyline_gateway::plan::{ProxyResponse, ProxyStep, RetryPlan};
use leyline_gateway::table::RouteTable;
use leyline_gateway::upstream::{RetryStrategy, UpstreamService};

fn pool(size: usize) -> Vec<String> {
    let mut urls: Vec<String> = Vec::new();
    for i in 0..size {
        urls.push(format!("http://127.0.0.1:{}", 8080 + i));
    }
    urls
}

fn table_of(prefix: &str, size: usize, max_attempts: usize, strategy: RetryStrategy) -> RouteTable {
    let service = UpstreamService::with_config(prefix, pool(size), 10, max_attempts)
        .unwrap()
        .with_strategy(strategy);
    RouteTable::new(vec![service])
}

fn refused(detail: &str) -> AttemptOutcome {
    AttemptOutcome::UpstreamError(FailureCause::Transport(detail.to_string()))
}

fn plan_of(step: ProxyStep) -> RetryPlan {
    match step {
        ProxyStep::Attempt(plan) => plan,
        other => panic!("expected an attempt, got {:?}", other),
    }
}

fn counter(table: &RouteTable, route: usize) -> usize {
    table.entry(route).unwrap().snapshot()
}

#[test]
fn sweep_starts_at_counter_modulo_pool_size() {
    let mut service = UpstreamService::with_config("/py", pool(3), 10, 3).unwrap();
    let mut starts: Vec<usize> = Vec::new();
    for _ in 0..6 {
        let plan = RetryPlan::prepare(&mut service, 0, "/py", None);
        starts.push(plan.upstream_index());
        service.next_index();
    }
    assert_eq!(starts, vec![0, 1, 2, 0, 1, 2]);
}

#[test]
fn sweep_reads_the_counter_without_claiming() {
    let mut table = table_of("/py", 3, 3, RetryStrategy::SweepFromSnapshot);
    for _ in 0..4 {
        let plan = plan_of(table.begin("GET", "/py/x", None));
        assert_eq!(plan.upstream_index(), 0);
        assert_eq!(counter(&table, 0), 0);
    }
}

#[test]
fn claim_then_fallback_rotates_the_primary() {
    let mut table = table_of("/py", 3, 3, RetryStrategy::ClaimThenFallback);
    let mut primaries: Vec<usize> = Vec::new();
    for served in 0..6 {
        assert_eq!(counter(&table, 0), served);
        let plan = plan_of(table.begin("GET", "/py/x", None));
        primaries.push(plan.upstream_index());
    }
    assert_eq!(primaries, vec![0, 1, 2, 0, 1, 2]);
    assert_eq!(counter(&table, 0), 6);
}

#[test]
fn claim_then_fallback_succeeds_via_the_other_upstream() {
    let mut table = table_of("/py", 2, 2, RetryStrategy::ClaimThenFallback);
    for served in 0..5 {
        let before: usize = counter(&table, 0);
        assert_eq!(before, served);
        let plan = plan_of(table.begin("GET", "/py/users", None));
        let primary: usize = plan.upstream_index();
        assert_eq!(primary, served % 2);
        assert_eq!(plan.attempt(), 1);
        assert_eq!(plan.max_attempts(), 2);

        let plan = plan_of(plan.advance(refused("connection refused")));
        assert_eq!(plan.upstream_index(), 1 - primary);
        assert_eq!(plan.attempt(), 2);
        assert_eq!(plan.url(), format!("http://127.0.0.1:{}/users", 8080 + 1 - primary));

        let step = plan.advance(AttemptOutcome::Success { body: "ok".to_string(), status: 200 });
        assert_eq!(
            step,
            ProxyStep::Respond(ProxyResponse { status: 200, body: "ok".to_string() })
        );
        assert_eq!(counter(&table, 0), before + 1);
    }
}

#[test]
fn claim_then_fallback_tries_the_whole_pool_whatever_max_attempts() {
    let mut table = table_of("/py", 3, 1, RetryStrategy::ClaimThenFallback);
    table.begin("GET", "/py", None);
    let mut plan = plan_of(table.begin("GET", "/py", None));
    assert_eq!(plan.max_attempts(), 3);
    let mut tried: Vec<usize> = vec![plan.upstream_index()];
    loop {
        match plan.advance(AttemptOutcome::UpstreamRejected(500)) {
            ProxyStep::Attempt(next) => {
                tried.push(next.upstream_index());
                plan = next;
            }
            ProxyStep::Fail(error) => {
                assert_eq!(error, GatewayError::UpstreamRejectedStatus(500));
                break;
            }
            other => panic!("unexpected step {:?}", other),
        }
    }
    assert_eq!(tried, vec![1, 2, 0]);
    assert_eq!(counter(&table, 0), 2);
}

#[test]
fn clamped_max_attempts_never_exceeds_the_pool() {
    let mut table = table_of("/py", 2, 5, RetryStrategy::SweepFromSnapshot);
    assert_eq!(table.entry(0).unwrap().max_retries(), 2);
    let mut plan = plan_of(table.begin("GET", "/py/x", None));
    assert_eq!(plan.max_attempts(), 2);
    let mut tried: Vec<usize> = vec![plan.upstream_index()];
    loop {
        match plan.advance(refused("down")) {
            ProxyStep::Attempt(next) => {
                tried.push(next.upstream_index());
                plan = next;
            }
            ProxyStep::Fail(_) => break,
            other => panic!("unexpected step {:?}", other),
        }
    }
    assert_eq!(tried, vec![0, 1]);
}

#[test]
fn sweep_stops_at_max_attempts() {
    let mut service = UpstreamService::with_config("/py", pool(4), 10, 2).unwrap();
    service.next_index();
    service.next_index();
    service.next_index();
    let mut table = RouteTable::new(vec![service]);
    let plan = plan_of(table.begin("GET", "/py/x", None));
    assert_eq!(plan.max_attempts(), 2);
    assert_eq!(plan.upstream_index(), 3);
    let plan = plan_of(plan.advance(AttemptOutcome::UpstreamRejected(502)));
    assert_eq!(plan.upstream_index(), 0);
    assert_eq!(plan.url(), "http://127.0.0.1:8080/x");
    let step = plan.advance(AttemptOutcome::UpstreamError(FailureCause::Timeout));
    assert_eq!(step, ProxyStep::Fail(GatewayError::UpstreamTimeout));
    assert_eq!(counter(&table, 0), 3);
}

#[test]
fn post_is_refused_without_looking_at_routes() {
    let mut table = table_of("/py", 2, 2, RetryStrategy::ClaimThenFallback);
    let matched = table.begin("POST", "/py/users", None);
    assert_eq!(matched, ProxyStep::Fail(GatewayError::MethodNotAllowed));
    let unmatched = table.begin("POST", "/nowhere", Some("a=1"));
    assert_eq!(unmatched, ProxyStep::Fail(GatewayError::MethodNotAllowed));
    assert_eq!(GatewayError::MethodNotAllowed.status(), 405);
    assert_eq!(counter(&table, 0), 0);
}

#[test]
fn method_is_compared_exactly() {
    let mut table = table_of("/py", 2, 2, RetryStrategy::SweepFromSnapshot);
    let methods: Vec<&str> = vec!["get", "Get", "GETS", "GE", "", "HEAD", "PUT", "DELETE", " GET"];
    for method in methods {
        assert_eq!(
            table.begin(method, "/py", None),
            ProxyStep::Fail(GatewayError::MethodNotAllowed)
        );
    }
    plan_of(table.begin("GET", "/py", None));
}

#[test]
fn unmatched_path_has_no_route() {
    let mut table = table_of("/py", 2, 2, RetryStrategy::ClaimThenFallback);
    assert_eq!(table.begin("GET", "/go/x", None), ProxyStep::Fail(GatewayError::NoRoute));
    assert_eq!(table.begin("GET", "/p", None), ProxyStep::Fail(GatewayError::NoRoute));
    assert_eq!(table.begin("GET", "", None), ProxyStep::Fail(GatewayError::NoRoute));
    assert_eq!(GatewayError::NoRoute.status(), 500);
    assert_eq!(counter(&table, 0), 0);
    let mut empty = RouteTable::new(Vec::new());
    assert_eq!(empty.len(), 0);
    assert_eq!(empty.begin("GET", "/", None), ProxyStep::Fail(GatewayError::NoRoute));
}

#[test]
fn all_upstreams_unreachable_gives_502_after_exactly_n_attempts() {
    for size in 1..5 {
        let mut table = table_of("/py", size, size, RetryStrategy::SweepFromSnapshot);
        let mut step = table.begin("GET", "/py/x", None);
        let mut attempts: usize = 0;
        let error = loop {
            match step {
                ProxyStep::Attempt(plan) => {
                    attempts += 1;
                    assert_eq!(plan.attempt(), attempts);
                    step = plan.advance(refused(&format!("refused {}", attempts)));
                }
                ProxyStep::Fail(error) => break error,
                other => panic!("unexpected step {:?}", other),
            }
        };
        assert_eq!(attempts, size);
        assert_eq!(
            error,
            GatewayError::UpstreamTransportFailure(format!("refused {}", size))
        );
        assert_eq!(error.status(), 502);
        assert_eq!(error.into_response().status, 502);
    }
}

#[test]
fn last_failure_is_the_one_surfaced() {
    let mut table = table_of("/py", 3, 3, RetryStrategy::SweepFromSnapshot);
    let plan = plan_of(table.begin("GET", "/py", None));
    let plan = plan_of(plan.advance(refused("first")));
    let plan = plan_of(plan.advance(AttemptOutcome::UpstreamError(FailureCause::Timeout)));
    let step = plan.advance(AttemptOutcome::UpstreamRejected(503));
    assert_eq!(step, ProxyStep::Fail(GatewayError::UpstreamRejectedStatus(503)));

    let plan = plan_of(table.begin("GET", "/py", None));
    let plan = plan_of(plan.advance(AttemptOutcome::UpstreamRejected(503)));
    let plan = plan_of(plan.advance(refused("second")));
    let step = plan.advance(AttemptOutcome::UpstreamError(FailureCause::InvalidAddress(
        "no scheme".to_string(),
    )));
    assert_eq!(
        step,
        ProxyStep::Fail(GatewayError::InvalidUpstreamAddress("no scheme".to_string()))
    );

    let plan = plan_of(table.begin("GET", "/py", None));
    let plan = plan_of(plan.advance(refused("first")));
    let plan = plan_of(plan.advance(refused("second")));
    let step = plan.advance(AttemptOutcome::UpstreamError(FailureCause::Unclassified));
    assert_eq!(step, ProxyStep::Fail(GatewayError::Internal));
}

#[test]
fn first_success_ends_the_request_with_200_and_the_body() {
    let mut table = table_of("/py", 3, 3, RetryStrategy::SweepFromSnapshot);
    let plan = plan_of(table.begin("GET", "/py", None));
    let step = plan.advance(AttemptOutcome::Success { body: "first".to_string(), status: 204 });
    assert_eq!(
        step,
        ProxyStep::Respond(ProxyResponse { status: 200, body: "first".to_string() })
    );

    let plan = plan_of(table.begin("GET", "/py", None));
    let plan = plan_of(plan.advance(AttemptOutcome::UpstreamRejected(500)));
    let plan = plan_of(plan.advance(refused("down")));
    assert_eq!(plan.attempt(), 3);
    let step = plan.advance(AttemptOutcome::Success { body: String::new(), status: 200 });
    assert_eq!(step, ProxyStep::Respond(ProxyResponse { status: 200, body: String::new() }));
}

#[test]
fn plan_names_route_url_and_timeout() {
    let first = UpstreamService::with_config("/go", pool(1), 3, 1).unwrap();
    let second = UpstreamService::with_config("/py", pool(2), 25, 2).unwrap();
    let mut table = RouteTable::new(vec![first, second]);
    assert_eq!(table.len(), 2);
    let plan = plan_of(table.begin("GET", "/py/users", Some("active=true")));
    assert_eq!(plan.route(), 1);
    assert_eq!(plan.timeout_seconds(), 25);
    assert_eq!(plan.attempt(), 1);
    assert_eq!(plan.max_attempts(), 2);
    assert_eq!(plan.upstream_index(), 0);
    assert_eq!(plan.url(), "http://127.0.0.1:8080/users?active=true");
    let plan = plan_of(plan.advance(refused("down")));
    assert_eq!(plan.route(), 1);
    assert_eq!(plan.timeout_seconds(), 25);
    assert_eq!(plan.url(), "http://127.0.0.1:8081/users?active=true");

    let plan = plan_of(table.begin("GET", "/go", None));
    assert_eq!(plan.route(), 0);
    assert_eq!(plan.timeout_seconds(), 3);
    assert_eq!(plan.url(), "http://127.0.0.1:8080/");
}

#[test]
fn first_matching_entry_wins_over_a_more_specific_one() {
    let broad = UpstreamService::new("/a", vec!["http://broad".to_string()]).unwrap();
    let narrow = UpstreamService::new("/api", vec!["http://narrow".to_string()]).unwrap();
    let other = UpstreamService::new("/b", vec!["http://other".to_string()]).unwrap();
    let mut table = RouteTable::new(vec![broad, narrow, other]);
    assert_eq!(table.find_route("/api/users"), Some(0));
    assert_eq!(table.find_route("/a"), Some(0));
    assert_eq!(table.find_route("/b/x"), Some(2));
    assert_eq!(table.find_route("/c"), None);
    assert_eq!(table.find_route("/"), None);
    let plan = plan_of(table.begin("GET", "/api/users", None));
    assert_eq!(plan.route(), 0);
    assert_eq!(plan.url(), "http://broadpi/users");

    let narrow = UpstreamService::new("/api", vec!["http://narrow".to_string()]).unwrap();
    let broad = UpstreamService::new("/a", vec!["http://broad".to_string()]).unwrap();
    let table = RouteTable::new(vec![narrow, broad]);
    assert_eq!(table.find_route("/api/users"), Some(0));
    assert_eq!(table.find_route("/about"), Some(1));
}

#[test]
fn only_the_matched_entry_claims_a_slot() {
    let first = UpstreamService::new("/go", pool(2))
        .unwrap()
        .with_strategy(RetryStrategy::ClaimThenFallback);
    let second = UpstreamService::new("/py", pool(2))
        .unwrap()
        .with_strategy(RetryStrategy::ClaimThenFallback);
    let mut table = RouteTable::new(vec![first, second]);
    table.begin("GET", "/py/x", None);
    table.begin("GET", "/py/y", None);
    table.begin("GET", "/go/x", None);
    table.begin("GET", "/nowhere", None);
    table.begin("POST", "/go/x", None);
    assert_eq!(counter(&table, 0), 1);
    assert_eq!(counter(&table, 1), 2);
    assert!(table.entry(2).is_none());
}
