//! A route entry: a path prefix, the pool of upstreams behind it and the
//! retry policy of the requests that match it.

use vstd::prelude::*;
use vstd::string::*;
use crate::balancer::{slot_of, ticket_after, LoadBalancer};

verus! {

/// How the candidates of one request are chosen from the pool.
#[derive(Debug, Clone, Copy, PartialEq, Eq, Structural)]
pub enum RetryStrategy {
    /// Read the rotation counter once without claiming it, then try up to the
    /// configured number of upstreams in pool order from there. This is the
    /// default of a new route entry.
    SweepFromSnapshot,
    /// Claim one rotation slot for the first attempt; if it fails, try every
    /// other upstream once, in pool order from the one behind it.
    ClaimThenFallback,
}

/// Why a route entry was refused when it was configured.
#[derive(Debug, Clone, Copy, PartialEq, Eq, Structural)]
pub enum ConfigError {
    /// The path prefix is empty.
    EmptyPrefix,
    /// The pool holds no upstream.
    EmptyPool,
    /// The number of attempts allowed is zero.
    ZeroAttempts,
}

/// What a route entry holds, as plain mathematical values.
pub struct UpstreamServiceView {
    pub prefix: Seq<char>,
    pub upstreams: Seq<Seq<char>>,
    pub ticket: nat,
    pub timeout_seconds: u64,
    pub max_attempts: nat,
    pub strategy: RetryStrategy,
}

impl UpstreamServiceView {
    /// The constraints that every route entry meets: a non-empty prefix, a
    /// non-empty pool, and at least one attempt but no more than there are
    /// upstreams.
    pub open spec fn wf(self) -> bool {
        &&& self.prefix.len() > 0
        &&& self.upstreams.len() > 0
        &&& 1 <= self.max_attempts <= self.upstreams.len()
        &&& self.ticket <= usize::MAX
    }

    /// The entry after one rotation slot was claimed.
    pub open spec fn claimed(self) -> Self {
        UpstreamServiceView { ticket: ticket_after(self.ticket), ..self }
    }

    /// Pool position that the rotation counter selects now.
    pub open spec fn slot(self) -> nat {
        slot_of(self.ticket, self.upstreams.len())
    }
}

/// The addresses of a pool, each as its characters.
pub open spec fn spec_addresses(urls: Seq<String>) -> Seq<Seq<char>> {
    Seq::new(urls.len(), |i: int| urls[i]@)
}

/// The reason for which a configuration is refused, if it is: the first of
/// an empty prefix, an empty pool and a zero number of attempts.
pub open spec fn spec_refusal(prefix: Seq<char>, pool: nat, max_retries: nat) -> Option<
    ConfigError,
> {
    if prefix.len() == 0 {
        Some(ConfigError::EmptyPrefix)
    } else if pool == 0 {
        Some(ConfigError::EmptyPool)
    } else if max_retries == 0 {
        Some(ConfigError::ZeroAttempts)
    } else {
        None
    }
}

/// The smaller of two numbers.
pub open spec fn spec_min(a: nat, b: nat) -> nat {
    if a <= b {
        a
    } else {
        b
    }
}

/// A route entry: requests whose path starts with `prefix` are forwarded to
/// one of `upstream_urls`, chosen in rotation.
#[derive(Debug)]
pub struct UpstreamService {
    prefix: String,
    upstream_urls: Vec<String>,
    load_balancer: LoadBalancer,
    timeout_seconds: u64,
    max_retries: usize,
    strategy: RetryStrategy,
}

impl View for UpstreamService {
    type V = UpstreamServiceView;

    closed spec fn view(&self) -> UpstreamServiceView {
        UpstreamServiceView {
            prefix: self.prefix@,
            upstreams: spec_addresses(self.upstream_urls@),
            ticket: self.load_balancer.ticket(),
            timeout_seconds: self.timeout_seconds,
            max_attempts: self.max_retries as nat,
            strategy: self.strategy,
        }
    }
}

impl UpstreamService {
    #[verifier::type_invariant]
    closed spec fn inv(&self) -> bool {
        &&& self.prefix@.len() > 0
        &&& self.upstream_urls@.len() > 0
        &&& self.load_balancer.total() == self.upstream_urls@.len()
        &&& 1 <= self.max_retries <= self.upstream_urls@.len()
    }

    /// A route entry with a time limit of ten seconds for each attempt, in
    /// which a request may try every upstream of the pool. The entry sweeps
    /// from a snapshot until `with_strategy` says otherwise.
    ///
    /// The configuration is refused if the prefix or the pool is empty.
    pub fn new(prefix: &str, upstream_urls: Vec<String>) -> (made: Result<Self, ConfigError>)
        ensures
            match made {
                Ok(service) => {
                    &&& spec_refusal(prefix@, upstream_urls@.len(), upstream_urls@.len()) is None
                    &&& service@.wf()
                    &&& service@ == (UpstreamServiceView {
                        prefix: prefix@,
                        upstreams: spec_addresses(upstream_urls@),
                        ticket: 0,
                        timeout_seconds: 10,
                        max_attempts: upstream_urls@.len(),
                        strategy: RetryStrategy::SweepFromSnapshot,
                    })
                },
                Err(reason) => Some(reason) == spec_refusal(
                    prefix@,
                    upstream_urls@.len(),
                    upstream_urls@.len(),
                ),
            },
    {
        let len: usize = upstream_urls.len();
        Self::with_config(prefix, upstream_urls, 10, len)
    }

    /// A route entry with the given time limit, in seconds, for each attempt
    /// and at most `max_retries` attempts for each request; a `max_retries`
    /// above the size of the pool counts as the size of the pool. The entry
    /// sweeps from a snapshot until `with_strategy` says otherwise.
    ///
    /// The configuration is refused if the prefix is empty, the pool is empty
    /// or `max_retries` is zero.
    pub fn with_config(
        prefix: &str,
        upstream_urls: Vec<String>,
        timeout_seconds: u64,
        max_retries: usize,
    ) -> (made: Result<Self, ConfigError>)
        ensures
            match made {
                Ok(service) => {
                    &&& spec_refusal(prefix@, upstream_urls@.len(), max_retries as nat) is None
                    &&& service@.wf()
                    &&& service@ == (UpstreamServiceView {
                        prefix: prefix@,
                        upstreams: spec_addresses(upstream_urls@),
                        ticket: 0,
                        timeout_seconds,
                        max_attempts: spec_min(max_retries as nat, upstream_urls@.len()),
                        strategy: RetryStrategy::SweepFromSnapshot,
                    })
                },
                Err(reason) => Some(reason) == spec_refusal(
                    prefix@,
                    upstream_urls@.len(),
                    max_retries as nat,
                ),
            },
    {
        let len: usize = upstream_urls.len();
        if prefix.is_empty() {
            return Err(ConfigError::EmptyPrefix);
        }
        if len == 0 {
            return Err(ConfigError::EmptyPool);
        }
        if max_retries == 0 {
            return Err(ConfigError::ZeroAttempts);
        }
        let load_balancer = LoadBalancer::new(len);
        let allowed: usize = if max_retries <= len {
            max_retries
        } else {
            len
        };
        Ok(
            UpstreamService {
                prefix: String::from_str(prefix),
                upstream_urls,
                load_balancer,
                timeout_seconds,
                max_retries: allowed,
                strategy: RetryStrategy::SweepFromSnapshot,
            },
        )
    }

    /// The same entry with another retry strategy.
    pub fn with_strategy(self, strategy: RetryStrategy) -> (service: Self)
        ensures
            service@ == (UpstreamServiceView { strategy, ..self@ }),
            service@.wf(),
    {
        proof {
            use_type_invariant(&self);
            self.load_balancer.lemma_ticket_bound();
        }
        UpstreamService {
            prefix: self.prefix,
            upstream_urls: self.upstream_urls,
            load_balancer: self.load_balancer,
            timeout_seconds: self.timeout_seconds,
            max_retries: self.max_retries,
            strategy,
        }
    }

    /// Claims one rotation slot and returns the pool position it selects.
    pub fn next_index(&mut self) -> (index: usize)
        ensures
            index == old(self)@.slot(),
            index < old(self)@.upstreams.len(),
            final(self)@ == old(self)@.claimed(),
            old(self)@.wf(),
            final(self)@.wf(),
    {
        proof {
            use_type_invariant(&*self);
            self.load_balancer.lemma_ticket_bound();
        }
        self.load_balancer.next()
    }

    /// Claims one rotation slot and returns the address of the upstream it
    /// selects.
    pub fn get_next_upstream(&mut self) -> (address: &str)
        ensures
            address@ == old(self)@.upstreams[old(self)@.slot() as int],
            final(self)@ == old(self)@.claimed(),
    {
        let index: usize = self.next_index();
        proof {
            use_type_invariant(&*self);
        }
        self.upstream_urls[index].as_str()
    }

    /// The address of the upstream at position `index` modulo the size of
    /// the pool.
    pub fn get_upstream_by_index(&self, index: usize) -> (address: &str)
        ensures
            address@ == self@.upstreams[index as int % self@.upstreams.len() as int],
    {
        proof {
            use_type_invariant(self);
        }
        self.upstream_urls[index % self.upstream_urls.len()].as_str()
    }

    /// Reads the rotation counter without claiming a slot.
    pub fn snapshot(&self) -> (ticket: usize)
        ensures
            ticket == self@.ticket,
            self@.wf(),
    {
        proof {
            use_type_invariant(self);
            self.load_balancer.lemma_ticket_bound();
        }
        self.load_balancer.current()
    }

    /// The path prefix that this entry matches.
    pub fn prefix(&self) -> (prefix: &str)
        ensures
            prefix@ == self@.prefix,
    {
        self.prefix.as_str()
    }

    /// Number of upstreams in the pool.
    pub fn pool_size(&self) -> (size: usize)
        ensures
            size == self@.upstreams.len(),
            size > 0,
    {
        proof {
            use_type_invariant(self);
        }
        self.upstream_urls.len()
    }

    /// Time limit of one attempt, in seconds.
    pub fn timeout_seconds(&self) -> (seconds: u64)
        ensures
            seconds == self@.timeout_seconds,
    {
        self.timeout_seconds
    }

    /// Largest number of attempts that one request may make when it sweeps
    /// from a snapshot.
    pub fn max_retries(&self) -> (attempts: usize)
        ensures
            attempts == self@.max_attempts,
            1 <= attempts <= self@.upstreams.len(),
    {
        proof {
            use_type_invariant(self);
        }
        self.max_retries
    }

    /// The retry strategy of this entry.
    pub fn strategy(&self) -> (strategy: RetryStrategy)
        ensures
            strategy == self@.strategy,
    {
        self.strategy
    }
}

} // verus!
