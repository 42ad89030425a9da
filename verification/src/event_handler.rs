//! The dispatch registry: predicates and handlers, kept in the order in
//! which they were registered.
//!
//! The registry tests predicates and names the handlers to run; it never
//! runs one. A handler is any value `H` that the caller knows how to invoke.

use crate::client::SlackEnvelope;
use vstd::prelude::*;

verus! {

/// `plan` names the index `i`.
pub open spec fn names(plan: Seq<usize>, i: int) -> bool {
    exists|k: int| 0 <= k < plan.len() && #[trigger] plan[k] == i
}

/// A predicate that is a plain function.
pub type Predicate = fn(&SlackEnvelope) -> bool;

/// EventHandler manages callbacks for the SlackClient
pub struct EventHandler<P: Fn(&SlackEnvelope) -> bool, H> {
    callbacks: Vec<(P, H)>,
}

impl<P: Fn(&SlackEnvelope) -> bool, H> EventHandler<P, H> {
    /// Every registered predicate may be called on every envelope.
    #[verifier::type_invariant]
    spec fn callable(self) -> bool {
        forall|i: int, e: SlackEnvelope|
            0 <= i < self.callbacks@.len() ==> #[trigger] call_requires(
                self.callbacks@[i].0,
                (&e,),
            )
    }

    /// The registered pairs, first registered first.
    pub closed spec fn pairs(&self) -> Seq<(P, H)> {
        self.callbacks@
    }

    /// The number of registered pairs.
    pub open spec fn count(&self) -> nat {
        self.pairs().len()
    }

    /// The predicate at `i` can answer `true` on `e`.
    pub open spec fn accepts(&self, i: int, e: SlackEnvelope) -> bool {
        call_ensures(self.pairs()[i].0, (&e,), true)
    }

    /// The predicate at `i` can answer `false` on `e`.
    pub open spec fn rejects(&self, i: int, e: SlackEnvelope) -> bool {
        call_ensures(self.pairs()[i].0, (&e,), false)
    }

    /// `found` is the outcome of testing the predicates from `from` on, in
    /// order, until one accepts `e`.
    pub open spec fn is_next(&self, e: SlackEnvelope, from: int, found: Option<usize>) -> bool {
        match found {
            Some(k) => {
                &&& from <= k < self.count()
                &&& self.accepts(k as int, e)
                &&& forall|j: int| from <= j < k ==> self.rejects(j, e)
            },
            None => forall|j: int| from <= j < self.count() ==> self.rejects(j, e),
        }
    }

    /// `plan` is an outcome of testing the first `n` predicates on `e`: it
    /// lists, in registration order and each once, the indices whose
    /// predicate accepted; every index left out was rejected.
    pub open spec fn is_plan_of(&self, e: SlackEnvelope, n: int, plan: Seq<usize>) -> bool {
        &&& forall|a: int, b: int| 0 <= a < b < plan.len() ==> plan[a] < plan[b]
        &&& forall|k: int| 0 <= k < plan.len() ==> plan[k] < n && self.accepts(plan[k] as int, e)
        &&& forall|i: int| 0 <= i < n ==> self.rejects(i, e) || names(plan, i)
    }

    /// `plan` is an outcome of dispatching `e` over the whole registry.
    pub open spec fn is_plan(&self, e: SlackEnvelope, plan: Seq<usize>) -> bool {
        self.is_plan_of(e, self.count() as int, plan)
    }

    /// A registry without pairs.
    pub fn new() -> (r: Self)
        ensures
            r.pairs() == Seq::<(P, H)>::empty(),
    {
        EventHandler { callbacks: Vec::new() }
    }

    /// Appends the pair to the registry. Nothing is removed, merged or
    /// reordered. The predicate must be one that can be called on every
    /// envelope.
    pub fn register_callback(&mut self, predicate: P, callback: H)
        requires
            forall|e: SlackEnvelope| call_requires(predicate, (&e,)),
        ensures
            final(self).pairs() == old(self).pairs().push((predicate, callback)),
    {
        // The registry is taken out whole, extended and put back: its fields
        // are never borrowed apart from it.
        let mut taken = EventHandler { callbacks: Vec::new() };
        core::mem::swap(self, &mut taken);
        proof {
            use_type_invariant(&taken);
        }
        let EventHandler { callbacks } = taken;
        let mut callbacks = callbacks;
        callbacks.push((predicate, callback));
        *self = EventHandler { callbacks };
    }

    /// The registry is held in memory, so its indices fit in a `usize`.
    pub proof fn lemma_count_fits(&self)
        ensures
            self.count() <= usize::MAX,
    {
        assert(self.callbacks@.len() == self.callbacks.len());
    }

    /// The number of registered pairs.
    pub fn len(&self) -> (r: usize)
        ensures
            r == self.count(),
    {
        self.callbacks.len()
    }

    /// The handler registered at `index`.
    pub fn callback(&self, index: usize) -> (r: Option<&H>)
        ensures
            r is Some <==> index < self.count(),
            r matches Some(h) ==> *h == self.pairs()[index as int].1,
    {
        if index < self.callbacks.len() {
            Some(&self.callbacks[index].1)
        } else {
            None
        }
    }

    /// Tests the predicates from `from` on, in registration order, and stops
    /// at the first that accepts the envelope.
    pub fn next_match(&self, envelope: &SlackEnvelope, from: usize) -> (r: Option<usize>)
        ensures
            self.is_next(*envelope, from as int, r),
    {
        proof {
            use_type_invariant(self);
        }
        let mut i: usize = from;
        while i < self.callbacks.len()
            invariant
                from <= i,
                self.callable(),
                forall|j: int| from <= j < i && j < self.count() ==> self.rejects(j, *envelope),
            decreases self.callbacks.len() - i,
        {
            let predicate = &self.callbacks[i].0;
            if predicate(envelope) {
                return Some(i);
            }
            i += 1;
        }
        None
    }

    /// Chooses the handlers for one envelope: the indices of the pairs whose
    /// predicate accepts it, in registration order. The caller runs them one
    /// after the other, each to its end before the next.
    pub fn handle_event(&self, envelope: &SlackEnvelope) -> (r: Vec<usize>)
        ensures
            self.is_plan(*envelope, r@),
    {
        let mut plan: Vec<usize> = Vec::new();
        let mut from: usize = 0;
        assert(self.count() == self.callbacks.len());
        loop
            invariant
                self.count() <= usize::MAX,
                from <= self.count(),
                self.is_plan_of(*envelope, from as int, plan@),
            ensures
                self.is_plan(*envelope, plan@),
            decreases self.count() - from,
        {
            match self.next_match(envelope, from) {
                Some(k) => {
                    let ghost before = plan@;
                    plan.push(k);
                    proof {
                        assert forall|i: int| 0 <= i < k + 1 implies self.rejects(i, *envelope)
                            || names(plan@, i) by {
                            if i < from {
                                if names(before, i) {
                                    let m = choose|m: int|
                                        0 <= m < before.len() && #[trigger] before[m] == i;
                                    assert(plan@[m] == i);
                                }
                            } else if i == k {
                                assert(plan@[before.len() as int] == i);
                            }
                        }
                    }
                    from = k + 1;
                },
                None => {
                    break ;
                },
            }
        }
        plan
    }
}

/// Two rising lists that name the same indices are the same list.
proof fn lemma_rising_lists_agree(p: Seq<usize>, q: Seq<usize>)
    requires
        forall|a: int, b: int| 0 <= a < b < p.len() ==> p[a] < p[b],
        forall|a: int, b: int| 0 <= a < b < q.len() ==> q[a] < q[b],
        forall|i: int| names(p, i) <==> names(q, i),
    ensures
        p == q,
    decreases p.len(),
{
    if p.len() == 0 {
        if q.len() > 0 {
            assert(q[0] == q[0] as int);
            assert(names(q, q[0] as int));
            assert(names(p, q[0] as int));
        }
        assert(p =~= q);
    } else {
        let top = p.last();
        assert(p[p.len() - 1] == top as int);
        assert(names(p, top as int));
        assert(names(q, top as int));
        let at = choose|k: int| 0 <= k < q.len() && #[trigger] q[k] == top as int;
        if at < q.len() - 1 {
            let above = q.last();
            assert(q[q.len() - 1] == above as int);
            assert(names(q, above as int));
            assert(names(p, above as int));
            let back = choose|k: int| 0 <= k < p.len() && #[trigger] p[k] == above as int;
            assert(p[back] <= top);
        }
        let p0 = p.drop_last();
        let q0 = q.drop_last();
        assert forall|i: int| names(p0, i) <==> names(q0, i) by {
            if names(p0, i) {
                let k = choose|k: int| 0 <= k < p0.len() && #[trigger] p0[k] == i;
                assert(p[k] == i);
                assert(names(p, i));
                let m = choose|m: int| 0 <= m < q.len() && #[trigger] q[m] == i;
                assert(m < q.len() - 1);
                assert(q0[m] == i);
            }
            if names(q0, i) {
                let k = choose|k: int| 0 <= k < q0.len() && #[trigger] q0[k] == i;
                assert(q[k] == i);
                assert(names(q, i));
                let m = choose|m: int| 0 <= m < p.len() && #[trigger] p[m] == i;
                assert(m < p.len() - 1);
                assert(p0[m] == i);
            }
        }
        lemma_rising_lists_agree(p0, q0);
        assert(p =~= p0.push(top));
        assert(q =~= q0.push(top));
    }
}

impl<P: Fn(&SlackEnvelope) -> bool, H> EventHandler<P, H> {
    /// No predicate of the registry answers both ways on `e`.
    pub open spec fn decided(&self, e: SlackEnvelope) -> bool {
        forall|i: int| 0 <= i < self.count() ==> !(self.accepts(i, e) && self.rejects(i, e))
    }

    /// Where the predicates are functions of the envelope, the handlers that
    /// run are those of the matching pairs, no others, in the order in which
    /// they were registered.
    pub proof fn lemma_plan_is_the_matching_pairs(&self, e: SlackEnvelope, plan: Seq<usize>)
        requires
            self.is_plan(e, plan),
            self.decided(e),
        ensures
            forall|i: int| 0 <= i < self.count() ==> (names(plan, i) <==> self.accepts(i, e)),
            forall|i: int| names(plan, i) ==> 0 <= i < self.count(),
            forall|a: int, b: int| 0 <= a < b < plan.len() ==> plan[a] < plan[b],
    {
        assert forall|i: int| 0 <= i < self.count() implies (names(plan, i) <==> self.accepts(
            i,
            e,
        )) by {
            if names(plan, i) {
                let k = choose|k: int| 0 <= k < plan.len() && #[trigger] plan[k] == i;
                assert(self.accepts(plan[k] as int, e));
            }
        }
        assert forall|i: int| names(plan, i) implies 0 <= i < self.count() by {
            let k = choose|k: int| 0 <= k < plan.len() && #[trigger] plan[k] == i;
        }
    }

    /// Where the predicates are functions of the envelope, dispatching it
    /// has one outcome.
    pub proof fn lemma_plan_is_unique(&self, e: SlackEnvelope, p: Seq<usize>, q: Seq<usize>)
        requires
            self.is_plan(e, p),
            self.is_plan(e, q),
            self.decided(e),
        ensures
            p == q,
    {
        self.lemma_plan_is_the_matching_pairs(e, p);
        self.lemma_plan_is_the_matching_pairs(e, q);
        lemma_rising_lists_agree(p, q);
    }

    /// Routing is not exclusive: two pairs whose predicates both match an
    /// envelope both have their handler run for it, each exactly once.
    pub proof fn lemma_both_run_once(&self, e: SlackEnvelope, plan: Seq<usize>, i: int, j: int)
        requires
            self.is_plan(e, plan),
            0 <= i < self.count(),
            0 <= j < self.count(),
            i != j,
            !self.rejects(i, e),
            !self.rejects(j, e),
        ensures
            exists|a: int, b: int|
                {
                    &&& 0 <= a < plan.len() && 0 <= b < plan.len() && a != b
                    &&& #[trigger] plan[a] == i && #[trigger] plan[b] == j
                    &&& forall|k: int| 0 <= k < plan.len() && plan[k] == i ==> k == a
                    &&& forall|k: int| 0 <= k < plan.len() && plan[k] == j ==> k == b
                },
    {
        assert(names(plan, i) && names(plan, j));
        let a = choose|k: int| 0 <= k < plan.len() && #[trigger] plan[k] == i;
        let b = choose|k: int| 0 <= k < plan.len() && #[trigger] plan[k] == j;
        assert forall|k: int| 0 <= k < plan.len() && plan[k] == i implies k == a by {
            if k < a {
                assert(plan[k] < plan[a]);
            } else if a < k {
                assert(plan[a] < plan[k]);
            }
        }
        assert forall|k: int| 0 <= k < plan.len() && plan[k] == j implies k == b by {
            if k < b {
                assert(plan[k] < plan[b]);
            } else if b < k {
                assert(plan[b] < plan[k]);
            }
        }
        assert(plan[a] == i && plan[b] == j);
    }
}

} // verus!
