//! The admission gate: a counting limiter that bounds how many jobs run at once.
//!
//! A permit is the number of a slot in the limiter's table. Replacing the limit makes a fresh
//! gate: permits issued before stay valid until they are released, but no longer count
//! against the new limit.

use crate::seqs::{first_where, lemma_first_where, lemma_first_where_is};
use vstd::prelude::*;

verus! {

/// The state of one slot of the limiter's table.
#[derive(Clone, Copy, PartialEq, Eq, Structural, Debug)]
pub enum Slot {
    /// No permit is out for this slot.
    Free,
    /// A permit of the current gate is out.
    Current,
    /// A permit is out that was issued before the limit was last replaced.
    Grandfathered,
}

/// The number of slots whose permit counts against the current limit.
pub open spec fn count_current(slots: Seq<Slot>) -> nat
    decreases slots.len(),
{
    if slots.len() == 0 {
        0
    } else {
        count_current(slots.drop_last()) + if slots.last() == Slot::Current {
            1nat
        } else {
            0nat
        }
    }
}

/// The number of slots with a permit out, of the current gate or an earlier one.
pub open spec fn count_held(slots: Seq<Slot>) -> nat
    decreases slots.len(),
{
    if slots.len() == 0 {
        0
    } else {
        count_held(slots.drop_last()) + if slots.last() == Slot::Free {
            0nat
        } else {
            1nat
        }
    }
}

/// The first free slot, or the table's length where none is free.
pub open spec fn first_free(slots: Seq<Slot>) -> int {
    first_where(slots, |slot: Slot| slot == Slot::Free)
}

/// The table after a permit was issued: the first free slot is taken, or a slot is added.
pub open spec fn granted(slots: Seq<Slot>) -> Seq<Slot> {
    if first_free(slots) < slots.len() {
        slots.update(first_free(slots), Slot::Current)
    } else {
        slots.push(Slot::Current)
    }
}

/// The table after a permit was handed back. A number that names no slot with a permit
/// out changes nothing.
pub open spec fn released(slots: Seq<Slot>, permit: int) -> Seq<Slot> {
    if 0 <= permit < slots.len() {
        slots.update(permit, Slot::Free)
    } else {
        slots
    }
}

/// The table after the limit was replaced: every permit that is out is grandfathered.
pub open spec fn retired(slots: Seq<Slot>) -> Seq<Slot> {
    Seq::new(
        slots.len(),
        |i: int|
            if slots[i] == Slot::Free {
                Slot::Free
            } else {
                Slot::Grandfathered
            },
    )
}

/// The mathematical content of an [`AdmissionGate`].
pub struct GateModel {
    pub limit: nat,
    pub slots: Seq<Slot>,
}

impl GateModel {
    /// Permits that count against the limit.
    pub open spec fn issued(self) -> nat {
        count_current(self.slots)
    }

    /// Permits that are out, whichever gate issued them.
    pub open spec fn held(self) -> nat {
        count_held(self.slots)
    }

    /// The limiter never has more permits of its own out than its limit.
    pub open spec fn bounded(self) -> bool {
        self.issued() <= self.limit
    }

    /// Whether a permit can be had now.
    pub open spec fn has_room(self) -> bool {
        self.issued() < self.limit
    }

    /// The limiter after one more permit was issued.
    pub open spec fn grant(self) -> GateModel {
        GateModel { limit: self.limit, slots: granted(self.slots) }
    }

    /// The limiter after a permit was handed back.
    pub open spec fn release(self, permit: int) -> GateModel {
        GateModel { limit: self.limit, slots: released(self.slots, permit) }
    }

    /// The fresh gate that replaces this one, with the permits that are still out.
    pub open spec fn replace(self, limit: nat) -> GateModel {
        GateModel { limit, slots: retired(self.slots) }
    }
}

/// A table's counts change with one slot as that slot's state does.
pub proof fn lemma_count_update(slots: Seq<Slot>, at: int, state: Slot)
    requires
        0 <= at < slots.len(),
    ensures
        count_current(slots.update(at, state)) + (if slots[at] == Slot::Current {
            1nat
        } else {
            0nat
        }) == count_current(slots) + (if state == Slot::Current {
            1nat
        } else {
            0nat
        }),
        count_held(slots.update(at, state)) + (if slots[at] == Slot::Free {
            0nat
        } else {
            1nat
        }) == count_held(slots) + (if state == Slot::Free {
            0nat
        } else {
            1nat
        }),
    decreases slots.len(),
{
    let after = slots.update(at, state);
    if at == slots.len() - 1 {
        assert(after.drop_last() == slots.drop_last());
    } else {
        lemma_count_update(slots.drop_last(), at, state);
        assert(after.drop_last() == slots.drop_last().update(at, state));
    }
}

/// Adding a slot adds its permit to the counts.
pub proof fn lemma_count_push(slots: Seq<Slot>, state: Slot)
    ensures
        count_current(slots.push(state)) == count_current(slots) + (if state == Slot::Current {
            1nat
        } else {
            0nat
        }),
        count_held(slots.push(state)) == count_held(slots) + (if state == Slot::Free {
            0nat
        } else {
            1nat
        }),
{
    assert(slots.push(state).drop_last() == slots);
}

/// A fresh gate has issued nothing, and holds what its predecessor held.
pub proof fn lemma_count_retired(slots: Seq<Slot>)
    ensures
        count_current(retired(slots)) == 0,
        count_held(retired(slots)) == count_held(slots),
    decreases slots.len(),
{
    if slots.len() > 0 {
        lemma_count_retired(slots.drop_last());
        assert(retired(slots).drop_last() == retired(slots.drop_last()));
    }
}

/// The first free slot is free, and no slot before it is.
pub proof fn lemma_first_free(slots: Seq<Slot>)
    ensures
        0 <= first_free(slots) <= slots.len(),
        first_free(slots) < slots.len() ==> slots[first_free(slots)] == Slot::Free,
        forall|k: int| 0 <= k < first_free(slots) ==> slots[k] != Slot::Free,
{
    lemma_first_where(slots, |slot: Slot| slot == Slot::Free);
}

/// Issuing a permit while there is room keeps the limiter within its limit and raises both
/// counts by one.
pub proof fn lemma_grant(gate: GateModel)
    requires
        gate.has_room(),
    ensures
        gate.grant().issued() == gate.issued() + 1,
        gate.grant().held() == gate.held() + 1,
        gate.grant().bounded(),
{
    lemma_first_free(gate.slots);
    if first_free(gate.slots) < gate.slots.len() {
        lemma_count_update(gate.slots, first_free(gate.slots), Slot::Current);
    } else {
        lemma_count_push(gate.slots, Slot::Current);
    }
}

/// Handing a permit back never raises a count, and frees room exactly where the permit was
/// the current gate's.
pub proof fn lemma_release(gate: GateModel, permit: int)
    ensures
        gate.release(permit).issued() == gate.issued() - (if 0 <= permit < gate.slots.len()
            && gate.slots[permit] == Slot::Current {
            1int
        } else {
            0int
        }),
        gate.release(permit).held() <= gate.held(),
        gate.bounded() ==> gate.release(permit).bounded(),
{
    if 0 <= permit < gate.slots.len() {
        lemma_count_update(gate.slots, permit, Slot::Free);
    }
}

/// A fresh gate starts with every permit of its limit to give, however many permits of
/// earlier gates are still out.
pub proof fn lemma_replace(gate: GateModel, limit: nat)
    ensures
        gate.replace(limit).issued() == 0,
        gate.replace(limit).held() == gate.held(),
        gate.replace(limit).bounded(),
{
    lemma_count_retired(gate.slots);
}

/// A copy of the table with the slot at `at` in the given state; with `at` one past the
/// last slot, the table grows by that slot.
fn with_slot(slots: &Vec<Slot>, at: usize, state: Slot) -> (r: Vec<Slot>)
    requires
        at <= slots.len(),
    ensures
        r@ == (if at < slots.len() {
            slots@.update(at as int, state)
        } else {
            slots@.push(state)
        }),
{
    let mut r: Vec<Slot> = Vec::new();
    let mut k: usize = 0;
    while k < slots.len()
        invariant
            k <= slots.len(),
            at <= slots.len(),
            r@.len() == k,
            forall|j: int| 0 <= j < k ==> r@[j] == (if j == at { state } else { slots@[j] }),
        decreases slots.len() - k,
    {
        r.push(if k == at { state } else { slots[k] });
        k += 1;
    }
    if at == slots.len() {
        r.push(state);
        assert(r@ =~= slots@.push(state));
    } else {
        assert(r@ =~= slots@.update(at as int, state));
    }
    r
}

/// A copy of the table in which every permit that is out is grandfathered.
fn retire(slots: &Vec<Slot>) -> (r: Vec<Slot>)
    ensures
        r@ == retired(slots@),
{
    let mut r: Vec<Slot> = Vec::new();
    let mut k: usize = 0;
    while k < slots.len()
        invariant
            k <= slots.len(),
            r@.len() == k,
            forall|j: int| 0 <= j < k ==> r@[j] == retired(slots@)[j],
        decreases slots.len() - k,
    {
        r.push(if slots[k] == Slot::Free { Slot::Free } else { Slot::Grandfathered });
        k += 1;
    }
    assert(r@ =~= retired(slots@));
    r
}

/// The position of the first free slot, or the table's length where none is free.
fn find_free(slots: &Vec<Slot>) -> (at: usize)
    ensures
        at == first_free(slots@),
        at <= slots.len(),
{
    let mut at: usize = 0;
    while at < slots.len() && slots[at] != Slot::Free
        invariant
            at <= slots.len(),
            forall|k: int| 0 <= k < at ==> slots@[k] != Slot::Free,
        decreases slots.len() - at,
    {
        at += 1;
    }
    proof {
        lemma_first_where_is(slots@, |slot: Slot| slot == Slot::Free, at as int);
    }
    at
}

/// A counting limiter on the jobs that run at once.
pub struct AdmissionGate {
    limit: usize,
    issued: usize,
    slots: Vec<Slot>,
}

impl View for AdmissionGate {
    type V = GateModel;

    closed spec fn view(&self) -> GateModel {
        GateModel { limit: self.limit as nat, slots: self.slots@ }
    }
}

impl AdmissionGate {
    /// What holds of every limiter: it knows how many of its permits are out, and they
    /// are no more than its limit.
    #[verifier::type_invariant]
    pub closed spec fn consistent(self) -> bool {
        self.issued == count_current(self.slots@) && self.issued <= self.limit
    }

    /// A limiter never has more permits of its own out than its limit.
    pub proof fn lemma_bounded(self)
        requires
            self.consistent(),
        ensures
            self@.bounded(),
    {
    }

    /// A gate with `limit` permits to give and none out.
    pub fn new(limit: usize) -> (gate: Self)
        ensures
            gate@ == (GateModel { limit: limit as nat, slots: Seq::empty() }),
            gate@.bounded(),
    {
        AdmissionGate { limit, issued: 0, slots: Vec::new() }
    }

    /// The number of permits that the limiter gives at most.
    pub fn limit(&self) -> (n: usize)
        ensures
            n == self@.limit,
    {
        self.limit
    }

    /// The number of permits of this gate that are out. It never exceeds the limit.
    pub fn issued(&self) -> (n: usize)
        ensures
            n == self@.issued(),
            self@.bounded(),
    {
        proof {
            use_type_invariant(self);
        }
        self.issued
    }

    /// Issues a permit if the limiter has room, and says which; issues none and changes
    /// nothing if it has not.
    pub fn try_acquire(&mut self) -> (permit: Option<usize>)
        ensures
            old(self)@.has_room() ==> permit == Some(first_free(old(self)@.slots) as usize)
                && final(self)@ == old(self)@.grant(),
            !old(self)@.has_room() ==> permit is None && final(self)@ == old(self)@,
            final(self)@.bounded(),
    {
        proof {
            use_type_invariant(&*self);
        }
        if self.issued >= self.limit {
            return None;
        }
        let at = find_free(&self.slots);
        proof {
            lemma_grant(self@);
        }
        let slots = with_slot(&self.slots, at, Slot::Current);
        *self = AdmissionGate { limit: self.limit, issued: self.issued + 1, slots };
        Some(at)
    }

    /// Takes a permit back. A number for which no permit is out changes nothing.
    pub fn release(&mut self, permit: usize)
        ensures
            final(self)@ == old(self)@.release(permit as int),
            final(self)@.bounded(),
    {
        proof {
            use_type_invariant(&*self);
            lemma_release(self@, permit as int);
        }
        if permit < self.slots.len() {
            let was = self.slots[permit];
            let slots = with_slot(&self.slots, permit, Slot::Free);
            let issued: usize = if was == Slot::Current {
                self.issued - 1
            } else {
                self.issued
            };
            *self = AdmissionGate { limit: self.limit, issued, slots };
        }
    }

    /// Replaces the limiter by a fresh one with `limit` permits to give. Permits that are out
    /// stay valid until they are released; they do not count against the new limit.
    pub fn replace(&mut self, limit: usize)
        ensures
            final(self)@ == old(self)@.replace(limit as nat),
            final(self)@.bounded(),
    {
        proof {
            use_type_invariant(&*self);
            lemma_replace(self@, limit as nat);
        }
        let slots = retire(&self.slots);
        *self = AdmissionGate { limit, issued: 0, slots };
    }
}

} // verus!
