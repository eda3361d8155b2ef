//! A fixed number of slots that are lent out one at a time.

use core::marker::PhantomData;
use vstd::prelude::*;

verus! {

/// `N` slots for values of type `T`. The pool keeps track of which slots are lent out.
pub struct Pool<T, const N: usize> {
    used: Vec<bool>,
    slots: PhantomData<T>,
}

/// How many slots are free.
pub open spec fn free_slots(used: Seq<bool>) -> nat
    decreases used.len(),
{
    if used.len() == 0 {
        0
    } else {
        free_slots(used.drop_last()) + if used.last() {
            0nat
        } else {
            1nat
        }
    }
}

/// Whether `slot` is the first one that is free.
pub open spec fn first_free(used: Seq<bool>, slot: int) -> bool {
    &&& 0 <= slot < used.len()
    &&& !used[slot]
    &&& forall|i: int| 0 <= i < slot ==> used[i]
}

impl<T, const N: usize> View for Pool<T, N> {
    type V = Seq<bool>;

    /// For each slot, whether it is lent out.
    closed spec fn view(&self) -> Seq<bool> {
        self.used@
    }
}

impl<T, const N: usize> Pool<T, N> {
    /// Whether every slot is accounted for.
    pub open spec fn wf(&self) -> bool {
        self@.len() == N
    }

    /// A pool with every slot free.
    pub fn new() -> (r: Self)
        ensures
            r.wf(),
            forall|i: int| 0 <= i < N ==> !r@[i],
    {
        let mut used: Vec<bool> = Vec::new();
        while used.len() < N
            invariant
                used.len() <= N,
                forall|i: int| 0 <= i < used.len() ==> !used@[i],
            decreases N - used.len(),
        {
            used.push(false);
        }
        Pool { used, slots: PhantomData }
    }

    /// Lends out the first free slot, if there is one.
    pub fn allocate(&mut self) -> (r: Option<usize>)
        requires
            old(self).wf(),
        ensures
            final(self).wf(),
            match r {
                Some(slot) => {
                    &&& first_free(old(self)@, slot as int)
                    &&& final(self)@ == old(self)@.update(slot as int, true)
                },
                None => {
                    &&& forall|i: int| 0 <= i < N ==> old(self)@[i]
                    &&& final(self)@ == old(self)@
                },
            },
    {
        let mut n: usize = 0;
        while n < N
            invariant
                self.wf(),
                n <= N,
                self@ == old(self)@,
                forall|i: int| 0 <= i < n ==> self@[i],
            decreases N - n,
        {
            if !self.used[n] {
                self.used.set(n, true);
                return Some(n);
            }
            n += 1;
        }
        None
    }

    /// Takes a slot back that was lent out.
    pub fn free(&mut self, slot: usize)
        requires
            old(self).wf(),
            slot < N,
        ensures
            final(self).wf(),
            final(self)@ == old(self)@.update(slot as int, false),
    {
        self.used.set(slot, false);
    }
}

/// The number of free slots goes with each slot.
proof fn lemma_free_slots(used: Seq<bool>, slot: int, lent: bool)
    requires
        0 <= slot < used.len(),
    ensures
        !used[slot] ==> free_slots(used) > 0,
        free_slots(used.update(slot, lent)) == free_slots(used) + (if used[slot] {
            1int
        } else {
            0
        }) - (if lent {
            1int
        } else {
            0
        }),
    decreases used.len(),
{
    let updated = used.update(slot, lent);
    if slot == used.len() - 1 {
        assert(updated.drop_last() =~= used.drop_last());
    } else {
        assert(updated.drop_last() =~= used.drop_last().update(slot, lent));
        lemma_free_slots(used.drop_last(), slot, lent);
    }
}

/// A slot is lent out exactly if one is free, and then one fewer is free.
pub proof fn lemma_lent_while_free(used: Seq<bool>)
    ensures
        free_slots(used) == 0 <==> (forall|i: int| 0 <= i < used.len() ==> used[i]),
        forall|slot: int| #[trigger]
            first_free(used, slot) ==> free_slots(used.update(slot, true)) == free_slots(used) - 1,
        free_slots(used) <= used.len(),
    decreases used.len(),
{
    assert forall|slot: int| #[trigger] first_free(used, slot) implies free_slots(
        used.update(slot, true),
    ) == free_slots(used) - 1 by {
        lemma_free_slots(used, slot, true);
    }
    if used.len() > 0 {
        let rest = used.drop_last();
        lemma_lent_while_free(rest);
        if free_slots(used) == 0 {
            assert forall|i: int| 0 <= i < used.len() implies used[i] by {
                if i < rest.len() {
                    assert(rest[i] == used[i]);
                }
            }
        }
        if forall|i: int| 0 <= i < used.len() ==> used[i] {
            assert(forall|i: int| 0 <= i < rest.len() ==> rest[i]);
        }
    }
}

/// The slot that is lent out was free, and no slot before it was. There is one to lend out as long
/// as any is free.
pub proof fn lemma_lowest_is_lent(used: Seq<bool>, slot: int, other: int)
    requires
        0 <= other < used.len(),
        !used[other],
    ensures
        first_free(used, slot) ==> 0 <= slot <= other && !used[slot],
        exists|lowest: int| first_free(used, lowest),
    decreases other,
{
    if forall|i: int| 0 <= i < other ==> used[i] {
        assert(first_free(used, other));
    } else {
        let before = choose|i: int| 0 <= i < other && !used[i];
        lemma_lowest_is_lent(used, slot, before);
    }
}

/// Taking back a slot undoes lending it out, and makes one more slot free.
pub proof fn lemma_free_undoes_allocate(used: Seq<bool>, slot: int)
    requires
        first_free(used, slot),
    ensures
        used.update(slot, true).update(slot, false) == used,
        free_slots(used.update(slot, true).update(slot, false)) == free_slots(
            used.update(slot, true),
        ) + 1,
{
    assert(used.update(slot, true).update(slot, false) =~= used);
    lemma_free_slots(used, slot, true);
}

/// What can happen to a pool.
pub enum SlotEvent {
    /// A slot is lent out.
    Lent(int),
    /// A slot is taken back.
    TakenBack(int),
}

/// The slots after an event.
pub open spec fn after_event(used: Seq<bool>, event: SlotEvent) -> Seq<bool> {
    match event {
        SlotEvent::Lent(slot) => used.update(slot, true),
        SlotEvent::TakenBack(slot) => used.update(slot, false),
    }
}

/// Whether a pool goes through `events` with `history` holding its slots before, between and after
/// them.
pub open spec fn goes_through(history: Seq<Seq<bool>>, events: Seq<SlotEvent>) -> bool {
    &&& history.len() == events.len() + 1
    &&& forall|i: int|
        #![trigger events[i]]
        0 <= i < events.len() ==> {
            &&& events[i] matches SlotEvent::Lent(slot) ==> first_free(history[i], slot)
            &&& events[i] matches SlotEvent::TakenBack(slot) ==> 0 <= slot < history[i].len()
            &&& history[i + 1] == after_event(history[i], events[i])
        }
}

/// A slot that was lent out stays so while it is not taken back.
proof fn lemma_stays_lent(
    history: Seq<Seq<bool>>,
    events: Seq<SlotEvent>,
    slot: int,
    i: int,
    j: int,
)
    requires
        goes_through(history, events),
        0 <= i < j <= events.len(),
        events[i] == SlotEvent::Lent(slot),
        forall|k: int| i < k < j ==> events[k] != SlotEvent::TakenBack(slot),
    ensures
        0 <= slot < history[j].len(),
        history[j][slot],
    decreases j,
{
    if j > i + 1 {
        lemma_stays_lent(history, events, slot, i, j - 1);
        assert(history[j] == after_event(history[j - 1], events[j - 1]));
    } else {
        assert(history[j] == after_event(history[i], events[i]));
    }
}

/// No slot is lent out twice: between two times that it is lent out, it is taken back.
pub proof fn lemma_not_lent_twice(
    history: Seq<Seq<bool>>,
    events: Seq<SlotEvent>,
    slot: int,
    i: int,
    j: int,
)
    requires
        goes_through(history, events),
        0 <= i < j < events.len(),
        events[i] == SlotEvent::Lent(slot),
        events[j] == SlotEvent::Lent(slot),
    ensures
        exists|k: int| i < k < j && events[k] == SlotEvent::TakenBack(slot),
{
    if forall|k: int| i < k < j ==> events[k] != SlotEvent::TakenBack(slot) {
        lemma_stays_lent(history, events, slot, i, j);
        assert(first_free(history[j], slot));
    }
}

/// The slots that are out after some events: lent out and not taken back since.
pub open spec fn slots_out(events: Seq<SlotEvent>) -> Set<int>
    decreases events.len(),
{
    if events.len() == 0 {
        Set::empty()
    } else {
        match events.last() {
            SlotEvent::Lent(slot) => slots_out(events.drop_last()).insert(slot),
            SlotEvent::TakenBack(slot) => slots_out(events.drop_last()).remove(slot),
        }
    }
}

/// The slots that are out are marked as used.
proof fn lemma_out_is_used(history: Seq<Seq<bool>>, events: Seq<SlotEvent>)
    requires
        goes_through(history, events),
    ensures
        history.last().len() == history[0].len(),
        slots_out(events).finite(),
        forall|slot: int| #[trigger]
            slots_out(events).contains(slot) ==> 0 <= slot < history[0].len()
                && history.last()[slot],
    decreases events.len(),
{
    if events.len() > 0 {
        let n = events.len() - 1;
        let before = history.drop_last();
        let earlier = events.drop_last();
        assert forall|i: int| #![trigger earlier[i]] 0 <= i < earlier.len() implies {
            &&& earlier[i] matches SlotEvent::Lent(slot) ==> first_free(before[i], slot)
            &&& earlier[i] matches SlotEvent::TakenBack(slot) ==> 0 <= slot < before[i].len()
            &&& before[i + 1] == after_event(before[i], earlier[i])
        } by {
            assert(earlier[i] == events[i]);
        }
        lemma_out_is_used(before, earlier);
        assert(events[n] == events.last());
        assert(history[n + 1] == after_event(history[n], events[n]));
    }
}

/// No more slots can be out at a time than there are, whatever was lent out and taken back.
pub proof fn lemma_no_more_than_there_are(history: Seq<Seq<bool>>, events: Seq<SlotEvent>)
    requires
        goes_through(history, events),
    ensures
        slots_out(events).finite(),
        slots_out(events).len() <= history[0].len(),
        slots_out(events).len() + free_slots(history.last()) <= history[0].len(),
{
    lemma_out_is_used(history, events);
    let used = history.last();
    lemma_used_and_free(used, slots_out(events));
}

/// Slots that are used and slots that are free together are no more than there are.
proof fn lemma_used_and_free(used: Seq<bool>, out: Set<int>)
    requires
        out.finite(),
        forall|slot: int| #[trigger] out.contains(slot) ==> 0 <= slot < used.len() && used[slot],
    ensures
        out.len() + free_slots(used) <= used.len(),
    decreases used.len(),
{
    if used.len() == 0 {
        assert(out =~= Set::empty());
    } else {
        let last = used.len() - 1;
        let rest = out.remove(last);
        assert forall|slot: int| #[trigger] rest.contains(slot) implies 0 <= slot
            < used.drop_last().len() && used.drop_last()[slot] by {
            assert(out.contains(slot));
        }
        lemma_used_and_free(used.drop_last(), rest);
        if !out.contains(last) {
            assert(rest =~= out);
        }
    }
}

} // verus!
