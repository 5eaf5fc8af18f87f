//! The rotation counter that spreads requests over a pool of upstreams.

use vstd::prelude::*;
use vstd::arithmetic::div_mod::{
    lemma_add_mod_noop_right, lemma_fundamental_div_mod, lemma_fundamental_div_mod_converse,
    lemma_mod_bound, lemma_mod_sub_multiples_vanish, lemma_small_mod,
};

verus! {

/// Pool position selected by a counter value: the value modulo the pool size.
pub open spec fn slot_of(ticket: nat, total: nat) -> nat
    recommends
        total > 0,
{
    ticket % total
}

/// Counter value that follows `ticket`. The counter is a machine word, so the
/// largest value is followed by zero.
pub open spec fn ticket_after(ticket: nat) -> nat {
    if ticket >= usize::MAX {
        0
    } else {
        ticket + 1
    }
}

/// Walking `offset` positions forward from the position that `ticket`
/// selects, and starting again at zero behind the last position, arrives at
/// the position that `ticket + offset` selects.
pub proof fn lemma_slot_offset(ticket: nat, offset: nat, total: nat)
    requires
        total > 0,
        offset <= total,
    ensures
        slot_of(ticket, total) < total,
        slot_of(ticket + offset, total) == if slot_of(ticket, total) + offset < total {
            slot_of(ticket, total) + offset
        } else {
            (slot_of(ticket, total) + offset - total) as nat
        },
{
    let m: int = total as int;
    let s: int = (ticket % total) as int;
    let o: int = offset as int;
    lemma_add_mod_noop_right(o, ticket as int, m);
    assert((o + s) % m == (o + ticket) % m);
    if s + o < total {
        lemma_small_mod((s + o) as nat, total);
    } else {
        lemma_mod_sub_multiples_vanish(s + o, m);
        lemma_small_mod((s + o - m) as nat, total);
    }
}

/// Round-robin cursor over a pool of `total` interchangeable upstreams.
///
/// `next` claims the current counter value and advances the counter in one
/// step. It takes the balancer exclusively, so no two claims can observe the
/// same counter value and no increment can be lost; callers that share one
/// balancer between requests serialise their claims around it.
#[derive(Debug)]
pub struct LoadBalancer {
    current: usize,
    total: usize,
}

impl LoadBalancer {
    /// The counter value that the next claim will observe.
    pub closed spec fn ticket(&self) -> nat {
        self.current as nat
    }

    /// Number of upstreams in the pool.
    pub closed spec fn total(&self) -> nat {
        self.total as nat
    }

    /// The counter never leaves the range of a machine word.
    pub proof fn lemma_ticket_bound(&self)
        ensures
            self.ticket() <= usize::MAX,
    {
    }

    /// A balancer over `total` upstreams whose counter starts at zero.
    pub fn new(total: usize) -> (balancer: Self)
        ensures
            balancer.ticket() == 0,
            balancer.total() == total,
    {
        LoadBalancer { current: 0, total }
    }

    /// Claims the current counter value, advances the counter by one and
    /// returns the pool position the claimed value selects.
    pub fn next(&mut self) -> (index: usize)
        requires
            old(self).total() > 0,
        ensures
            index == slot_of(old(self).ticket(), old(self).total()),
            final(self).ticket() == ticket_after(old(self).ticket()),
            final(self).total() == old(self).total(),
        no_unwind
    {
        let claimed: usize = self.current;
        self.current = if claimed == usize::MAX {
            0
        } else {
            claimed + 1
        };
        claimed % self.total
    }

    /// Reads the counter without claiming it.
    pub fn current(&self) -> (ticket: usize)
        ensures
            ticket == self.ticket(),
    {
        self.current
    }

    /// Number of upstreams in the pool.
    pub fn size(&self) -> (total: usize)
        ensures
            total == self.total(),
    {
        self.total
    }
}

/// Counter value after `claims` claims were made from the value `start`.
pub open spec fn ticket_after_claims(start: nat, claims: nat) -> nat
    decreases claims,
{
    if claims == 0 {
        start
    } else {
        ticket_after(ticket_after_claims(start, (claims - 1) as nat))
    }
}

/// How many of the counter values `0, 1, ..., claims - 1` select the pool
/// position `slot`.
pub open spec fn selections(total: nat, claims: nat, slot: nat) -> nat
    decreases claims,
{
    if claims == 0 {
        0
    } else {
        selections(total, (claims - 1) as nat, slot) + if slot_of((claims - 1) as nat, total)
            == slot {
            1nat
        } else {
            0nat
        }
    }
}

/// Number of values that the counter can take.
pub open spec fn counter_values() -> int {
    usize::MAX as int + 1
}

/// Claims advance the counter one by one: after `claims` claims from `start`
/// the counter stands at `start + claims`, counted modulo the number of
/// values that the counter can take.
pub proof fn lemma_ticket_after_claims(start: nat, claims: nat)
    requires
        start <= usize::MAX,
    ensures
        ticket_after_claims(start, claims) == (start + claims) as int % counter_values(),
    decreases claims,
{
    let words: int = counter_values();
    if claims == 0 {
        lemma_small_mod(start, words as nat);
    } else {
        lemma_ticket_after_claims(start, (claims - 1) as nat);
        let before: int = start + claims - 1;
        lemma_fundamental_div_mod(before, words);
        lemma_mod_bound(before, words);
        let q: int = before / words;
        let r: int = before % words;
        if r == usize::MAX {
            assert(start + claims == (q + 1) * words + 0) by (nonlinear_arith)
                requires
                    before == words * q + r,
                    r == words - 1,
                    before == start + claims - 1,
            ;
            lemma_fundamental_div_mod_converse((start + claims) as int, words, q + 1, 0);
        } else {
            assert(start + claims == q * words + (r + 1)) by (nonlinear_arith)
                requires
                    before == words * q + r,
                    before == start + claims - 1,
            ;
            lemma_fundamental_div_mod_converse((start + claims) as int, words, q, r + 1);
        }
    }
}

/// Round robin: with a counter that starts at zero, the request that follows
/// `served` earlier claims is sent to position `served` modulo the size of
/// the pool, so the positions come out as `0, 1, ..., total - 1, 0, 1, ...`.
pub proof fn lemma_round_robin(total: nat, served: nat)
    requires
        total > 0,
        served <= usize::MAX,
    ensures
        ticket_after_claims(0, served) == served,
        slot_of(ticket_after_claims(0, served), total) == served % total,
{
    lemma_ticket_after_claims(0, served);
    lemma_small_mod(served, counter_values() as nat);
}

/// No two claims observe the same counter value, as long as fewer claims lie
/// between them than the counter has values.
pub proof fn lemma_claims_distinct(start: nat, earlier: nat, later: nat)
    requires
        start <= usize::MAX,
        earlier < later,
        later - earlier <= usize::MAX,
    ensures
        ticket_after_claims(start, earlier) != ticket_after_claims(start, later),
{
    let words: int = counter_values();
    lemma_ticket_after_claims(start, earlier);
    lemma_ticket_after_claims(start, later);
    let a: int = (start + earlier) as int;
    let b: int = (start + later) as int;
    if a % words == b % words {
        lemma_fundamental_div_mod(a, words);
        lemma_fundamental_div_mod(b, words);
        let qa: int = a / words;
        let qb: int = b / words;
        assert(b - a == words * (qb - qa)) by (nonlinear_arith)
            requires
                a == words * qa + a % words,
                b == words * qb + b % words,
                a % words == b % words,
        ;
        assert(false) by (nonlinear_arith)
            requires
                b - a == words * (qb - qa),
                0 < b - a < words,
        ;
    }
}

/// The position selected repeats with the size of the pool.
pub proof fn lemma_slot_period(ticket: nat, total: nat)
    requires
        total > 0,
    ensures
        slot_of(ticket + total, total) == slot_of(ticket, total),
{
    lemma_slot_offset(ticket, total, total);
}

/// Even spread: of the counter values `0, ..., claims - 1`, each position of
/// the pool is selected by the whole part of `claims / total` of them, and the
/// first `claims % total` positions by one more.
pub proof fn lemma_even_spread(total: nat, claims: nat, slot: nat)
    requires
        total > 0,
        slot < total,
    ensures
        selections(total, claims, slot) == claims / total + if slot < claims % total {
            1nat
        } else {
            0nat
        },
    decreases claims,
{
    let m: int = total as int;
    if claims == 0 {
        lemma_small_mod(0, total);
        lemma_fundamental_div_mod_converse(0, m, 0, 0);
    } else {
        let before: nat = (claims - 1) as nat;
        lemma_even_spread(total, before, slot);
        lemma_fundamental_div_mod(before as int, m);
        lemma_mod_bound(before as int, m);
        let q: int = before as int / m;
        let r: int = before as int % m;
        if r + 1 < m {
            assert(claims == q * m + (r + 1)) by (nonlinear_arith)
                requires
                    before == m * q + r,
                    claims == before + 1,
            ;
            lemma_fundamental_div_mod_converse(claims as int, m, q, r + 1);
        } else {
            assert(claims == (q + 1) * m + 0) by (nonlinear_arith)
                requires
                    before == m * q + r,
                    claims == before + 1,
                    r + 1 == m,
            ;
            lemma_fundamental_div_mod_converse(claims as int, m, q + 1, 0);
        }
    }
}

} // verus!
