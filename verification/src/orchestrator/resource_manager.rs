//! Ledger of computational resources and the reservations held against
//! them.
//!
//! Every unit of a resource is accounted for at all times: the available
//! units, the units claimed by active reservations, and the units durably
//! allocated always sum to the resource's capacity (`balanced`). A
//! reservation is a time-bounded claim that is either committed into a
//! durable allocation, released back (idempotently), or reclaimed when its
//! lease expires.

use crate::shared::error::ProtocolError;
use crate::shared::types::{ReservationToken, TaskId};
use crate::shared::utils::str_eq;
use vstd::pervasive::VecAdditionalExecFns;
use vstd::prelude::*;

verus! {

/// A computational resource with bounded capacity.
#[derive(Debug)]
pub struct Resource {
    /// Resource identifier.
    pub id: String,
    /// What kind of resource this is.
    pub resource_type: ResourceType,
    /// Total capacity in units.
    pub capacity: u64,
    /// Units currently available for new claims.
    pub available: u64,
}

/// Kinds of computational resources.
#[derive(Clone, Copy, Debug, PartialEq, Eq, Structural)]
pub enum ResourceType {
    /// Processor cores.
    Cpu,
    /// Memory.
    Memory,
    /// GPU devices.
    Gpu,
    /// Disk space.
    Storage,
}

/// A time-bounded claim on units of one resource, pending commitment.
#[derive(Debug)]
pub struct Reservation {
    /// Handle under which the claim was granted.
    pub token: ReservationToken,
    /// The resource the units were claimed from.
    pub resource_id: String,
    /// How many units are claimed.
    pub amount: u64,
    /// The task on whose behalf the claim is held.
    pub task_id: TaskId,
    /// When the claim lapses if never committed, milliseconds.
    pub lease_expiry: u64,
    /// Whether the claim has been converted to a durable allocation.
    pub committed: bool,
}

/// A resource together with the units durably allocated from it.
#[derive(Debug)]
pub struct ResourceRecord {
    /// The resource as callers see it.
    pub resource: Resource,
    /// Units allocated durably (directly or by a committed reservation that
    /// ended), plus any units the resource was registered without.
    pub allocated: u64,
}

/// How many units the reservation `r` claims from the resource named `id`.
pub open spec fn rsv_contrib(r: Reservation, id: Seq<char>) -> int {
    if r.resource_id@ == id {
        r.amount as int
    } else {
        0
    }
}

/// Units claimed from the resource named `id` over all reservations in `rs`.
pub open spec fn reserved_amount(rs: Seq<Reservation>, id: Seq<char>) -> int
    decreases rs.len(),
{
    if rs.len() == 0 {
        0
    } else {
        reserved_amount(rs.drop_last(), id) + rsv_contrib(rs.last(), id)
    }
}

/// No two records name the same resource.
pub open spec fn unique_resource_ids(s: Seq<ResourceRecord>) -> bool {
    forall|i: int, j: int|
        0 <= i < s.len() && 0 <= j < s.len() && i != j ==> (#[trigger] s[i]).resource.id@ != (
        #[trigger] s[j]).resource.id@
}

/// No two reservations share a token.
pub open spec fn unique_tokens(rs: Seq<Reservation>) -> bool {
    forall|i: int, j: int|
        0 <= i < rs.len() && 0 <= j < rs.len() && i != j ==> (#[trigger] rs[i]).token != (
        #[trigger] rs[j]).token
}

/// Whether a record for the resource named `id` is present.
pub open spec fn has_resource(s: Seq<ResourceRecord>, id: Seq<char>) -> bool {
    exists|i: int| 0 <= i < s.len() && (#[trigger] s[i]).resource.id@ == id
}

/// The index of the record for the resource named `id`.
pub open spec fn res_idx(s: Seq<ResourceRecord>, id: Seq<char>) -> int {
    choose|i: int| 0 <= i < s.len() && (#[trigger] s[i]).resource.id@ == id
}

/// The record for the resource named `id`.
pub open spec fn resource_at(s: Seq<ResourceRecord>, id: Seq<char>) -> ResourceRecord {
    s[res_idx(s, id)]
}

/// Whether a reservation under `token` is present.
pub open spec fn has_reservation(rs: Seq<Reservation>, token: ReservationToken) -> bool {
    exists|i: int| 0 <= i < rs.len() && (#[trigger] rs[i]).token == token
}

/// The index of the reservation under `token`.
pub open spec fn rsv_idx(rs: Seq<Reservation>, token: ReservationToken) -> int {
    choose|i: int| 0 <= i < rs.len() && (#[trigger] rs[i]).token == token
}

/// The reservation held under `token`.
pub open spec fn reservation_at(rs: Seq<Reservation>, token: ReservationToken) -> Reservation {
    rs[rsv_idx(rs, token)]
}

/// The accounting equation of one record: available units, units claimed by
/// active reservations, and units durably allocated sum to the capacity.
pub open spec fn balanced_at(s: Seq<ResourceRecord>, rs: Seq<Reservation>, i: int) -> bool {
    s[i].resource.available + reserved_amount(rs, s[i].resource.id@) + s[i].allocated == s[i].resource.capacity
}

/// The accounting equation holds for every resource.
pub open spec fn balanced(s: Seq<ResourceRecord>, rs: Seq<Reservation>) -> bool {
    forall|i: int| 0 <= i < s.len() ==> #[trigger] balanced_at(s, rs, i)
}

/// `a + b`, saturating at the largest `u64`.
pub open spec fn sat_add(a: u64, b: u64) -> u64 {
    if a + b <= u64::MAX {
        (a + b) as u64
    } else {
        u64::MAX
    }
}

/// Whether a reservation still stands at time `now`: committed claims never
/// lapse, uncommitted ones last until their lease expires.
pub open spec fn lease_live(r: Reservation, now: u64) -> bool {
    r.committed || r.lease_expiry >= now
}

/// The reservations of `rs` that still stand at time `now`.
pub open spec fn live_reservations(rs: Seq<Reservation>, now: u64) -> Seq<Reservation> {
    rs.filter(|rv: Reservation| lease_live(rv, now))
}

/// Lease granted to a reservation when none other is configured,
/// milliseconds.
pub const DEFAULT_LEASE_MS: u64 = 30000;

proof fn lemma_reserved_nonneg(rs: Seq<Reservation>, id: Seq<char>)
    ensures
        reserved_amount(rs, id) >= 0,
    decreases rs.len(),
{
    if rs.len() > 0 {
        lemma_reserved_nonneg(rs.drop_last(), id);
    }
}

proof fn lemma_reserved_push(rs: Seq<Reservation>, r: Reservation, id: Seq<char>)
    ensures
        reserved_amount(rs.push(r), id) == reserved_amount(rs, id) + rsv_contrib(r, id),
{
    assert(rs.push(r).drop_last() =~= rs);
}

proof fn lemma_reserved_remove(rs: Seq<Reservation>, i: int, id: Seq<char>)
    requires
        0 <= i < rs.len(),
    ensures
        reserved_amount(rs.remove(i), id) == reserved_amount(rs, id) - rsv_contrib(rs[i], id),
    decreases rs.len(),
{
    if i == rs.len() - 1 {
        assert(rs.remove(i) =~= rs.drop_last());
    } else {
        assert(rs.remove(i).drop_last() =~= rs.drop_last().remove(i));
        assert(rs.remove(i).last() == rs.last());
        lemma_reserved_remove(rs.drop_last(), i, id);
    }
}

proof fn lemma_reserved_update(rs: Seq<Reservation>, i: int, r: Reservation, id: Seq<char>)
    requires
        0 <= i < rs.len(),
        r.resource_id@ == rs[i].resource_id@,
        r.amount == rs[i].amount,
    ensures
        reserved_amount(rs.update(i, r), id) == reserved_amount(rs, id),
    decreases rs.len(),
{
    if i == rs.len() - 1 {
        assert(rs.update(i, r).drop_last() =~= rs.drop_last());
        assert(rs.update(i, r).last() == r);
    } else {
        assert(rs.update(i, r).drop_last() =~= rs.drop_last().update(i, r));
        assert(rs.update(i, r).last() == rs.last());
        lemma_reserved_update(rs.drop_last(), i, r, id);
    }
}

proof fn lemma_reserved_absent(rs: Seq<Reservation>, id: Seq<char>)
    requires
        forall|k: int| 0 <= k < rs.len() ==> (#[trigger] rs[k]).resource_id@ != id,
    ensures
        reserved_amount(rs, id) == 0,
    decreases rs.len(),
{
    if rs.len() > 0 {
        lemma_reserved_absent(rs.drop_last(), id);
    }
}

/// With unique resource ids, an index holding `id` is *the* index of `id`.
proof fn lemma_res_idx_is(s: Seq<ResourceRecord>, id: Seq<char>, i: int)
    requires
        unique_resource_ids(s),
        0 <= i < s.len(),
        s[i].resource.id@ == id,
    ensures
        has_resource(s, id),
        res_idx(s, id) == i,
{
    assert(has_resource(s, id));
    let j = res_idx(s, id);
    assert(0 <= j < s.len() && s[j].resource.id@ == id);
}

proof fn lemma_live_push(s: Seq<Reservation>, x: Reservation, now: u64)
    ensures
        lease_live(x, now) ==> live_reservations(s.push(x), now) == live_reservations(
            s,
            now,
        ).push(x),
        !lease_live(x, now) ==> live_reservations(s.push(x), now) == live_reservations(s, now),
{
    reveal_with_fuel(Seq::filter, 2);
    assert(s.push(x).drop_last() =~= s);
    assert(s.push(x).last() == x);
}

/// With unique tokens, an index holding `token` is *the* index of `token`.
proof fn lemma_rsv_idx_is(rs: Seq<Reservation>, token: ReservationToken, i: int)
    requires
        unique_tokens(rs),
        0 <= i < rs.len(),
        rs[i].token == token,
    ensures
        has_reservation(rs, token),
        rsv_idx(rs, token) == i,
{
    assert(has_reservation(rs, token));
    let j = rsv_idx(rs, token);
    assert(0 <= j < rs.len() && rs[j].token == token);
}

/// Tracks allocation and reservation of computational resources.
pub struct ResourceManager {
    records: Vec<ResourceRecord>,
    reservations: Vec<Reservation>,
    next_token: u64,
    lease_ms: u64,
}

impl ResourceManager {
    /// The resource records, in registration order.
    pub closed spec fn records_seq(self) -> Seq<ResourceRecord> {
        self.records@
    }

    /// The active reservations, in grant order.
    pub closed spec fn reservations_seq(self) -> Seq<Reservation> {
        self.reservations@
    }

    /// The token the next successful reservation will be granted under.
    pub closed spec fn next_token_spec(self) -> u64 {
        self.next_token
    }

    /// The configured reservation lease, milliseconds.
    pub closed spec fn lease_ms_spec(self) -> u64 {
        self.lease_ms
    }

    /// Well-formedness: ids and tokens are unique, every reservation names a
    /// registered resource under a token that was granted, and every
    /// resource satisfies the accounting equation (available units plus
    /// reserved units plus allocated units equal capacity).
    pub open spec fn wf(self) -> bool {
        &&& unique_resource_ids(self.records_seq())
        &&& unique_tokens(self.reservations_seq())
        &&& balanced(self.records_seq(), self.reservations_seq())
        &&& forall|k: int|
            0 <= k < self.reservations_seq().len() ==> has_resource(
                self.records_seq(),
                (#[trigger] self.reservations_seq()[k]).resource_id@,
            )
        &&& forall|k: int|
            0 <= k < self.reservations_seq().len() ==> (#[trigger] self.reservations_seq()[k]).token
                < self.next_token_spec()
    }

    /// Creates an empty ledger with the default reservation lease.
    pub fn new() -> (r: Self)
        ensures
            r.wf(),
            r.records_seq() == Seq::<ResourceRecord>::empty(),
            r.reservations_seq() == Seq::<Reservation>::empty(),
            r.next_token_spec() == 0,
            r.lease_ms_spec() == DEFAULT_LEASE_MS,
    {
        ResourceManager {
            records: Vec::new(),
            reservations: Vec::new(),
            next_token: 0,
            lease_ms: DEFAULT_LEASE_MS,
        }
    }

    /// Reconfigures the lease granted to new reservations.
    pub fn set_lease_ms(&mut self, lease_ms: u64)
        requires
            old(self).wf(),
        ensures
            final(self).wf(),
            final(self).records_seq() == old(self).records_seq(),
            final(self).reservations_seq() == old(self).reservations_seq(),
            final(self).next_token_spec() == old(self).next_token_spec(),
            final(self).lease_ms_spec() == lease_ms,
    {
        self.lease_ms = lease_ms;
    }

    /// The index of the record named `resource_id`, if one is registered.
    fn find_resource(&self, resource_id: &str) -> (r: Option<usize>)
        ensures
            match r {
                Some(i) => i < self.records_seq().len() && self.records_seq()[i as int].resource.id@
                    == resource_id@,
                None => !has_resource(self.records_seq(), resource_id@),
            },
    {
        let n = self.records.len();
        for i in 0..n
            invariant
                n == self.records_seq().len(),
                forall|k: int| 0 <= k < i ==> (#[trigger] self.records_seq()[k]).resource.id@ != resource_id@,
        {
            if str_eq(self.records[i].resource.id.as_str(), resource_id) {
                return Some(i);
            }
        }
        None
    }

    /// The index of the reservation granted under `token`, if it is active.
    fn find_reservation(&self, token: ReservationToken) -> (r: Option<usize>)
        ensures
            match r {
                Some(i) => i < self.reservations_seq().len() && self.reservations_seq()[i as int].token
                    == token,
                None => !has_reservation(self.reservations_seq(), token),
            },
    {
        let n = self.reservations.len();
        for i in 0..n
            invariant
                n == self.reservations_seq().len(),
                forall|k: int| 0 <= k < i ==> (#[trigger] self.reservations_seq()[k]).token != token,
        {
            if self.reservations[i].token == token {
                return Some(i);
            }
        }
        None
    }

    /// Registers a new resource. Units the resource is registered without
    /// (`available < capacity`) are carried as already-allocated.
    pub fn register_resource(&mut self, resource: Resource) -> (r: Result<(), ProtocolError>)
        requires
            old(self).wf(),
            resource.available <= resource.capacity,
        ensures
            final(self).wf(),
            has_resource(old(self).records_seq(), resource.id@) ==> r == Err::<(), ProtocolError>(
                ProtocolError::AlreadyRegistered,
            ) && *final(self) == *old(self),
            !has_resource(old(self).records_seq(), resource.id@) ==> {
                &&& r == Ok::<(), ProtocolError>(())
                &&& final(self).records_seq() == old(self).records_seq().push(
                    ResourceRecord {
                        resource,
                        allocated: (resource.capacity - resource.available) as u64,
                    },
                )
                &&& final(self).reservations_seq() == old(self).reservations_seq()
                &&& final(self).next_token_spec() == old(self).next_token_spec()
                &&& final(self).lease_ms_spec() == old(self).lease_ms_spec()
            },
    {
        if self.find_resource(resource.id.as_str()).is_some() {
            return Err(ProtocolError::AlreadyRegistered);
        }
        proof {
            assert forall|k: int| 0 <= k < self.reservations_seq().len() implies (
            #[trigger] self.reservations_seq()[k]).resource_id@ != resource.id@ by {
                if self.reservations_seq()[k].resource_id@ == resource.id@ {
                    assert(has_resource(self.records_seq(), resource.id@));
                }
            }
            lemma_reserved_absent(self.reservations_seq(), resource.id@);
        }
        let allocated = resource.capacity - resource.available;
        let ghost prev = self.records@;
        self.records.push(ResourceRecord { resource, allocated });
        proof {
            assert forall|i: int| 0 <= i < self.records@.len() implies #[trigger] balanced_at(
                self.records@,
                self.reservations@,
                i,
            ) by {
                if i < prev.len() {
                    assert(balanced_at(prev, self.reservations@, i));
                    assert(self.records@[i] == prev[i]);
                }
            }
            assert forall|k: int| 0 <= k < self.reservations@.len() implies has_resource(
                self.records@,
                (#[trigger] self.reservations@[k]).resource_id@,
            ) by {
                let id = self.reservations@[k].resource_id@;
                assert(has_resource(prev, id));
                let i = choose|i: int| 0 <= i < prev.len() && (#[trigger] prev[i]).resource.id@ == id;
                assert(self.records@[i].resource.id@ == id);
            }
        }
        Ok(())
    }

    /// Durably allocates `amount` units of the resource, without a
    /// reservation step.
    pub fn allocate(&mut self, resource_id: &str, amount: u64) -> (r: Result<(), ProtocolError>)
        requires
            old(self).wf(),
        ensures
            final(self).wf(),
            !has_resource(old(self).records_seq(), resource_id@) ==> r == Err::<(), ProtocolError>(
                ProtocolError::NotFound,
            ) && *final(self) == *old(self),
            has_resource(old(self).records_seq(), resource_id@) && resource_at(
                old(self).records_seq(),
                resource_id@,
            ).resource.available < amount ==> r == Err::<(), ProtocolError>(
                ProtocolError::InsufficientResources,
            ) && *final(self) == *old(self),
            has_resource(old(self).records_seq(), resource_id@) && resource_at(
                old(self).records_seq(),
                resource_id@,
            ).resource.available >= amount ==> {
                let rec = resource_at(old(self).records_seq(), resource_id@);
                &&& r == Ok::<(), ProtocolError>(())
                &&& final(self).records_seq() == old(self).records_seq().update(
                    res_idx(old(self).records_seq(), resource_id@),
                    ResourceRecord {
                        resource: Resource {
                            available: (rec.resource.available - amount) as u64,
                            ..rec.resource
                        },
                        allocated: (rec.allocated + amount) as u64,
                    },
                )
                &&& final(self).reservations_seq() == old(self).reservations_seq()
                &&& final(self).next_token_spec() == old(self).next_token_spec()
                &&& final(self).lease_ms_spec() == old(self).lease_ms_spec()
            },
    {
        let found = self.find_resource(resource_id);
        match found {
            None => Err(ProtocolError::NotFound),
            Some(i) => {
                proof {
                    lemma_res_idx_is(self.records_seq(), resource_id@, i as int);
                }
                if self.records[i].resource.available < amount {
                    return Err(ProtocolError::InsufficientResources);
                }
                proof {
                    assert(balanced_at(self.records@, self.reservations@, i as int));
                    lemma_reserved_nonneg(self.reservations@, self.records@[i as int].resource.id@);
                }
                let ghost prev = self.records@;
                let rec = &self.records[i];
                let updated = ResourceRecord {
                    resource: Resource {
                        id: rec.resource.id.clone(),
                        resource_type: rec.resource.resource_type,
                        capacity: rec.resource.capacity,
                        available: rec.resource.available - amount,
                    },
                    allocated: rec.allocated + amount,
                };
                self.records.set(i, updated);
                proof {
                    assert forall|k: int| 0 <= k < self.records@.len() implies #[trigger] balanced_at(
                        self.records@,
                        self.reservations@,
                        k,
                    ) by {
                        assert(balanced_at(prev, self.reservations@, k));
                        if k != i as int {
                            assert(self.records@[k] == prev[k]);
                        }
                    }
                    assert forall|k: int| 0 <= k < self.reservations@.len() implies has_resource(
                        self.records@,
                        (#[trigger] self.reservations@[k]).resource_id@,
                    ) by {
                        let id = self.reservations@[k].resource_id@;
                        let j = choose|j: int| 0 <= j < prev.len() && (#[trigger] prev[j]).resource.id@ == id;
                        assert(self.records@[j].resource.id@ == id);
                    }
                }
                Ok(())
            },
        }
    }

    /// Releases up to `amount` durably allocated units back to the
    /// resource; units never exceed what is allocated, so availability never
    /// exceeds capacity.
    pub fn release(&mut self, resource_id: &str, amount: u64) -> (r: Result<(), ProtocolError>)
        requires
            old(self).wf(),
        ensures
            final(self).wf(),
            !has_resource(old(self).records_seq(), resource_id@) ==> r == Err::<(), ProtocolError>(
                ProtocolError::NotFound,
            ) && *final(self) == *old(self),
            has_resource(old(self).records_seq(), resource_id@) ==> {
                let rec = resource_at(old(self).records_seq(), resource_id@);
                let freed: u64 = if amount <= rec.allocated {
                    amount
                } else {
                    rec.allocated
                };
                &&& r == Ok::<(), ProtocolError>(())
                &&& final(self).records_seq() == old(self).records_seq().update(
                    res_idx(old(self).records_seq(), resource_id@),
                    ResourceRecord {
                        resource: Resource {
                            available: (rec.resource.available + freed) as u64,
                            ..rec.resource
                        },
                        allocated: (rec.allocated - freed) as u64,
                    },
                )
                &&& final(self).reservations_seq() == old(self).reservations_seq()
                &&& final(self).next_token_spec() == old(self).next_token_spec()
                &&& final(self).lease_ms_spec() == old(self).lease_ms_spec()
            },
    {
        let found = self.find_resource(resource_id);
        match found {
            None => Err(ProtocolError::NotFound),
            Some(i) => {
                proof {
                    lemma_res_idx_is(self.records_seq(), resource_id@, i as int);
                    assert(balanced_at(self.records@, self.reservations@, i as int));
                    lemma_reserved_nonneg(self.reservations@, self.records@[i as int].resource.id@);
                }
                let ghost prev = self.records@;
                let rec = &self.records[i];
                let freed = if amount <= rec.allocated {
                    amount
                } else {
                    rec.allocated
                };
                let updated = ResourceRecord {
                    resource: Resource {
                        id: rec.resource.id.clone(),
                        resource_type: rec.resource.resource_type,
                        capacity: rec.resource.capacity,
                        available: rec.resource.available + freed,
                    },
                    allocated: rec.allocated - freed,
                };
                self.records.set(i, updated);
                proof {
                    assert forall|k: int| 0 <= k < self.records@.len() implies #[trigger] balanced_at(
                        self.records@,
                        self.reservations@,
                        k,
                    ) by {
                        assert(balanced_at(prev, self.reservations@, k));
                        if k != i as int {
                            assert(self.records@[k] == prev[k]);
                        }
                    }
                    assert forall|k: int| 0 <= k < self.reservations@.len() implies has_resource(
                        self.records@,
                        (#[trigger] self.reservations@[k]).resource_id@,
                    ) by {
                        let id = self.reservations@[k].resource_id@;
                        let j = choose|j: int| 0 <= j < prev.len() && (#[trigger] prev[j]).resource.id@ == id;
                        assert(self.records@[j].resource.id@ == id);
                    }
                }
                Ok(())
            },
        }
    }

    /// Reserves `amount` units of the resource for `task_id`, granting a
    /// fresh token whose lease runs until `now` plus the configured lease.
    /// Fails with `InsufficientResources` when fewer units are available
    /// than requested (or the token space is exhausted), and with `NotFound`
    /// when no such resource is registered; neither failure changes the
    /// ledger.
    pub fn reserve(
        &mut self,
        resource_id: &str,
        amount: u64,
        task_id: TaskId,
        now: u64,
    ) -> (r: Result<ReservationToken, ProtocolError>)
        requires
            old(self).wf(),
        ensures
            final(self).wf(),
            !has_resource(old(self).records_seq(), resource_id@) ==> r == Err::<
                ReservationToken,
                ProtocolError,
            >(ProtocolError::NotFound) && *final(self) == *old(self),
            has_resource(old(self).records_seq(), resource_id@) && (resource_at(
                old(self).records_seq(),
                resource_id@,
            ).resource.available < amount || old(self).next_token_spec() == u64::MAX) ==> r == Err::<
                ReservationToken,
                ProtocolError,
            >(ProtocolError::InsufficientResources) && *final(self) == *old(self),
            has_resource(old(self).records_seq(), resource_id@) && resource_at(
                old(self).records_seq(),
                resource_id@,
            ).resource.available >= amount && old(self).next_token_spec() < u64::MAX ==> {
                let rec = resource_at(old(self).records_seq(), resource_id@);
                &&& r == Ok::<ReservationToken, ProtocolError>(old(self).next_token_spec())
                &&& final(self).records_seq() == old(self).records_seq().update(
                    res_idx(old(self).records_seq(), resource_id@),
                    ResourceRecord {
                        resource: Resource {
                            available: (rec.resource.available - amount) as u64,
                            ..rec.resource
                        },
                        allocated: rec.allocated,
                    },
                )
                &&& final(self).reservations_seq() == old(self).reservations_seq().push(
                    Reservation {
                        token: old(self).next_token_spec(),
                        resource_id: rec.resource.id,
                        amount,
                        task_id,
                        lease_expiry: sat_add(now, old(self).lease_ms_spec()),
                        committed: false,
                    },
                )
                &&& final(self).next_token_spec() == old(self).next_token_spec() + 1
                &&& final(self).lease_ms_spec() == old(self).lease_ms_spec()
            },
    {
        let found = self.find_resource(resource_id);
        match found {
            None => Err(ProtocolError::NotFound),
            Some(i) => {
                proof {
                    lemma_res_idx_is(self.records_seq(), resource_id@, i as int);
                }
                if self.records[i].resource.available < amount || self.next_token == u64::MAX {
                    return Err(ProtocolError::InsufficientResources);
                }
                let ghost prev_records = self.records@;
                let ghost prev_rsvs = self.reservations@;
                let token = self.next_token;
                self.next_token = self.next_token + 1;
                let lease_expiry = if now <= u64::MAX - self.lease_ms {
                    now + self.lease_ms
                } else {
                    u64::MAX
                };
                let rec = &self.records[i];
                let claim = Reservation {
                    token,
                    resource_id: rec.resource.id.clone(),
                    amount,
                    task_id,
                    lease_expiry,
                    committed: false,
                };
                let updated = ResourceRecord {
                    resource: Resource {
                        id: rec.resource.id.clone(),
                        resource_type: rec.resource.resource_type,
                        capacity: rec.resource.capacity,
                        available: rec.resource.available - amount,
                    },
                    allocated: rec.allocated,
                };
                self.reservations.push(claim);
                self.records.set(i, updated);
                proof {
                    assert forall|k: int| 0 <= k < self.records@.len() implies #[trigger] balanced_at(
                        self.records@,
                        self.reservations@,
                        k,
                    ) by {
                        assert(balanced_at(prev_records, prev_rsvs, k));
                        lemma_reserved_push(
                            prev_rsvs,
                            self.reservations@.last(),
                            prev_records[k].resource.id@,
                        );
                        if k != i as int {
                            assert(self.records@[k] == prev_records[k]);
                        }
                    }
                    assert forall|k: int| 0 <= k < self.reservations@.len() implies has_resource(
                        self.records@,
                        (#[trigger] self.reservations@[k]).resource_id@,
                    ) by {
                        let id = self.reservations@[k].resource_id@;
                        if k < prev_rsvs.len() {
                            let j = choose|j: int|
                                0 <= j < prev_records.len() && (#[trigger] prev_records[j]).resource.id@
                                    == id;
                            assert(self.records@[j].resource.id@ == id);
                        } else {
                            assert(self.records@[i as int].resource.id@ == id);
                        }
                    }
                }
                Ok(token)
            },
        }
    }

    /// Converts the reservation under `token` into a durable allocation; a
    /// no-op on availability. Fails with `NotFound` when no such reservation
    /// is active.
    pub fn commit(&mut self, token: ReservationToken) -> (r: Result<(), ProtocolError>)
        requires
            old(self).wf(),
        ensures
            final(self).wf(),
            !has_reservation(old(self).reservations_seq(), token) ==> r == Err::<(), ProtocolError>(
                ProtocolError::NotFound,
            ) && *final(self) == *old(self),
            has_reservation(old(self).reservations_seq(), token) ==> {
                &&& r == Ok::<(), ProtocolError>(())
                &&& final(self).reservations_seq() == old(self).reservations_seq().update(
                    rsv_idx(old(self).reservations_seq(), token),
                    Reservation {
                        committed: true,
                        ..reservation_at(old(self).reservations_seq(), token)
                    },
                )
                &&& final(self).records_seq() == old(self).records_seq()
                &&& final(self).next_token_spec() == old(self).next_token_spec()
                &&& final(self).lease_ms_spec() == old(self).lease_ms_spec()
            },
    {
        let found = self.find_reservation(token);
        match found {
            None => Err(ProtocolError::NotFound),
            Some(i) => {
                proof {
                    lemma_rsv_idx_is(self.reservations_seq(), token, i as int);
                }
                let ghost prev_rsvs = self.reservations@;
                let rv = &self.reservations[i];
                let updated = Reservation {
                    token: rv.token,
                    resource_id: rv.resource_id.clone(),
                    amount: rv.amount,
                    task_id: rv.task_id,
                    lease_expiry: rv.lease_expiry,
                    committed: true,
                };
                self.reservations.set(i, updated);
                proof {
                    assert forall|k: int| 0 <= k < self.records@.len() implies #[trigger] balanced_at(
                        self.records@,
                        self.reservations@,
                        k,
                    ) by {
                        assert(balanced_at(self.records@, prev_rsvs, k));
                        lemma_reserved_update(
                            prev_rsvs,
                            i as int,
                            self.reservations@[i as int],
                            self.records@[k].resource.id@,
                        );
                    }
                }
                Ok(())
            },
        }
    }

    /// Releases the reservation under `token`, restoring its units to the
    /// resource's availability. Idempotent: releasing an unknown or
    /// already-released token changes nothing.
    pub fn release_reservation(&mut self, token: ReservationToken)
        requires
            old(self).wf(),
        ensures
            final(self).wf(),
            !has_reservation(old(self).reservations_seq(), token) ==> *final(self) == *old(self),
            has_reservation(old(self).reservations_seq(), token) ==> {
                let rv = reservation_at(old(self).reservations_seq(), token);
                let rec = resource_at(old(self).records_seq(), rv.resource_id@);
                &&& final(self).reservations_seq() == old(self).reservations_seq().remove(
                    rsv_idx(old(self).reservations_seq(), token),
                )
                &&& final(self).records_seq() == old(self).records_seq().update(
                    res_idx(old(self).records_seq(), rv.resource_id@),
                    ResourceRecord {
                        resource: Resource {
                            available: (rec.resource.available + rv.amount) as u64,
                            ..rec.resource
                        },
                        allocated: rec.allocated,
                    },
                )
                &&& final(self).next_token_spec() == old(self).next_token_spec()
                &&& final(self).lease_ms_spec() == old(self).lease_ms_spec()
            },
    {
        let found = self.find_reservation(token);
        match found {
            None => {},
            Some(i) => {
                proof {
                    lemma_rsv_idx_is(self.reservations_seq(), token, i as int);
                }
                let ghost prev_records = self.records@;
                let ghost prev_rsvs = self.reservations@;
                let rv = self.reservations.remove(i);
                let found_res = self.find_resource(rv.resource_id.as_str());
                match found_res {
                    None => {
                        proof {
                            assert(has_resource(prev_records, prev_rsvs[i as int].resource_id@));
                            assert(false);
                        }
                    },
                    Some(j) => {
                        proof {
                            lemma_res_idx_is(self.records_seq(), rv.resource_id@, j as int);
                            assert(balanced_at(prev_records, prev_rsvs, j as int));
                            lemma_reserved_remove(
                                prev_rsvs,
                                i as int,
                                prev_records[j as int].resource.id@,
                            );
                            lemma_reserved_nonneg(
                                self.reservations@,
                                prev_records[j as int].resource.id@,
                            );
                        }
                        let rec = &self.records[j];
                        let updated = ResourceRecord {
                            resource: Resource {
                                id: rec.resource.id.clone(),
                                resource_type: rec.resource.resource_type,
                                capacity: rec.resource.capacity,
                                available: rec.resource.available + rv.amount,
                            },
                            allocated: rec.allocated,
                        };
                        self.records.set(j, updated);
                        proof {
                            assert forall|k: int|
                                0 <= k < self.records@.len() implies #[trigger] balanced_at(
                                self.records@,
                                self.reservations@,
                                k,
                            ) by {
                                assert(balanced_at(prev_records, prev_rsvs, k));
                                lemma_reserved_remove(
                                    prev_rsvs,
                                    i as int,
                                    prev_records[k].resource.id@,
                                );
                                if k != j as int {
                                    assert(self.records@[k] == prev_records[k]);
                                    assert(prev_records[k].resource.id@ != prev_rsvs[i as int].resource_id@);
                                }
                            }
                            assert forall|k: int|
                                0 <= k < self.reservations@.len() implies has_resource(
                                self.records@,
                                (#[trigger] self.reservations@[k]).resource_id@,
                            ) by {
                                let id = self.reservations@[k].resource_id@;
                                let ko = if k < i as int {
                                    k
                                } else {
                                    k + 1
                                };
                                assert(prev_rsvs[ko].resource_id@ == id);
                                let m = choose|m: int|
                                    0 <= m < prev_records.len() && (
                                    #[trigger] prev_records[m]).resource.id@ == id;
                                assert(self.records@[m].resource.id@ == id);
                            }
                            assert forall|a: int, b: int|
                                0 <= a < self.reservations@.len() && 0 <= b
                                    < self.reservations@.len() && a != b implies (
                            #[trigger] self.reservations@[a]).token != (
                            #[trigger] self.reservations@[b]).token by {
                                let ao = if a < i as int {
                                    a
                                } else {
                                    a + 1
                                };
                                let bo = if b < i as int {
                                    b
                                } else {
                                    b + 1
                                };
                                assert(prev_rsvs[ao].token == self.reservations@[a].token);
                                assert(prev_rsvs[bo].token == self.reservations@[b].token);
                            }
                        }
                    },
                }
            },
        }
    }

    /// Releases every uncommitted reservation whose lease expired before
    /// `now`, restoring their units to their resources, so that a
    /// coordinator crash mid-proposal never leaks capacity.
    pub fn expire_leases(&mut self, now: u64)
        requires
            old(self).wf(),
        ensures
            final(self).wf(),
            final(self).reservations_seq() == live_reservations(old(self).reservations_seq(), now),
            final(self).records_seq().len() == old(self).records_seq().len(),
            forall|k: int|
                0 <= k < old(self).records_seq().len() ==> {
                    let prev = old(self).records_seq()[k];
                    let cur = #[trigger] final(self).records_seq()[k];
                    cur.resource.id == prev.resource.id && cur.resource.resource_type
                        == prev.resource.resource_type && cur.resource.capacity
                        == prev.resource.capacity && cur.allocated == prev.allocated
                },
            final(self).next_token_spec() == old(self).next_token_spec(),
            final(self).lease_ms_spec() == old(self).lease_ms_spec(),
    {
        let ghost orig_rsvs = old(self).reservations_seq();
        let mut i: usize = 0;
        let ghost mut k: int = 0;
        while i < self.reservations.len()
            invariant
                self.wf(),
                0 <= k <= orig_rsvs.len(),
                i as int == live_reservations(orig_rsvs.subrange(0, k), now).len(),
                self.reservations@ == live_reservations(orig_rsvs.subrange(0, k), now)
                    + orig_rsvs.subrange(k, orig_rsvs.len() as int),
                self.records@.len() == old(self).records_seq().len(),
                forall|m: int|
                    0 <= m < old(self).records_seq().len() ==> {
                        let prev = old(self).records_seq()[m];
                        let cur = #[trigger] self.records@[m];
                        cur.resource.id == prev.resource.id && cur.resource.resource_type
                            == prev.resource.resource_type && cur.resource.capacity
                            == prev.resource.capacity && cur.allocated == prev.allocated
                    },
                self.next_token == old(self).next_token_spec(),
                self.lease_ms == old(self).lease_ms_spec(),
            decreases orig_rsvs.len() - k,
        {
            proof {
                assert(self.reservations@[i as int] == orig_rsvs[k]);
                assert(orig_rsvs.subrange(0, k + 1) =~= orig_rsvs.subrange(0, k).push(orig_rsvs[k]));
                lemma_live_push(orig_rsvs.subrange(0, k), orig_rsvs[k], now);
            }
            let live_now = self.reservations[i].committed || self.reservations[i].lease_expiry
                >= now;
            if live_now {
                i = i + 1;
                proof {
                    k = k + 1;
                    assert(self.reservations@ =~= live_reservations(
                        orig_rsvs.subrange(0, k),
                        now,
                    ) + orig_rsvs.subrange(k, orig_rsvs.len() as int));
                }
            } else {
                let token = self.reservations[i].token;
                proof {
                    lemma_rsv_idx_is(self.reservations@, token, i as int);
                }
                let ghost before = self.reservations@;
                self.release_reservation(token);
                proof {
                    k = k + 1;
                    assert(self.reservations@ =~= before.remove(i as int));
                    assert(self.reservations@ =~= live_reservations(
                        orig_rsvs.subrange(0, k),
                        now,
                    ) + orig_rsvs.subrange(k, orig_rsvs.len() as int));
                }
            }
        }
        proof {
            assert(orig_rsvs.subrange(0, orig_rsvs.len() as int) =~= orig_rsvs);
            assert(self.reservations@ =~= live_reservations(orig_rsvs, now));
        }
    }

    /// Whether a reservation is currently held under `token`.
    pub fn has_active_reservation(&self, token: ReservationToken) -> (r: bool)
        ensures
            r == has_reservation(self.reservations_seq(), token),
    {
        self.find_reservation(token).is_some()
    }

    /// The current state of a resource, if it is registered.
    pub fn get_resource_status(&self, resource_id: &str) -> (r: Option<Resource>)
        requires
            self.wf(),
        ensures
            r is Some <==> has_resource(self.records_seq(), resource_id@),
            r is Some ==> r == Some(resource_at(self.records_seq(), resource_id@).resource),
    {
        let found = self.find_resource(resource_id);
        match found {
            None => None,
            Some(i) => {
                proof {
                    lemma_res_idx_is(self.records_seq(), resource_id@, i as int);
                }
                let rec = &self.records[i];
                Some(
                    Resource {
                        id: rec.resource.id.clone(),
                        resource_type: rec.resource.resource_type,
                        capacity: rec.resource.capacity,
                        available: rec.resource.available,
                    },
                )
            },
        }
    }
}

/// The resource accounting invariant: for every resource of a well-formed
/// ledger, the available units, the units claimed by active reservations,
/// and the durably allocated units sum to the resource's capacity.
pub proof fn lemma_ledger_balanced(m: ResourceManager, i: int)
    requires
        m.wf(),
        0 <= i < m.records_seq().len(),
    ensures
        m.records_seq()[i].resource.available + reserved_amount(
            m.reservations_seq(),
            m.records_seq()[i].resource.id@,
        ) + m.records_seq()[i].allocated == m.records_seq()[i].resource.capacity,
{
    assert(balanced_at(m.records_seq(), m.reservations_seq(), i));
}

} // verus!
