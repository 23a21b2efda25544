//! The buttons of the timer control panel, and an event bus that keeps,
//! per event, the callbacks to run in the order they were added.

use vstd::prelude::*;

use vstd::std_specs::cmp::PartialEqSpec;

use crate::text::str_eq;

verus! {

#[derive(Clone, Copy, Debug, PartialEq, Eq, Structural)]
pub enum ButtonFunction {
    M5,
    M1,
    Stop,
    Play,
    P1,
    P5,
}

/// The button a name stands for; an unknown name stands for `Stop`.
pub open spec fn button_of(s: Seq<char>) -> ButtonFunction {
    if s == "M5"@ {
        ButtonFunction::M5
    } else if s == "M1"@ {
        ButtonFunction::M1
    } else if s == "Stop"@ {
        ButtonFunction::Stop
    } else if s == "Play"@ {
        ButtonFunction::Play
    } else if s == "P1"@ {
        ButtonFunction::P1
    } else if s == "P5"@ {
        ButtonFunction::P5
    } else {
        ButtonFunction::Stop
    }
}

impl From<String> for ButtonFunction {
    fn from(s: String) -> (r: Self) {
        if str_eq(s.as_str(), "M5") {
            ButtonFunction::M5
        } else if str_eq(s.as_str(), "M1") {
            ButtonFunction::M1
        } else if str_eq(s.as_str(), "Stop") {
            ButtonFunction::Stop
        } else if str_eq(s.as_str(), "Play") {
            ButtonFunction::Play
        } else if str_eq(s.as_str(), "P1") {
            ButtonFunction::P1
        } else if str_eq(s.as_str(), "P5") {
            ButtonFunction::P5
        } else {
            ButtonFunction::Stop
        }
    }
}

impl vstd::std_specs::convert::FromSpecImpl<String> for ButtonFunction {
    open spec fn obeys_from_spec() -> bool {
        true
    }

    open spec fn from_spec(v: String) -> Self {
        button_of(v@)
    }
}

/// What pressing a button asks of the timer it belongs to.
#[derive(Clone, Copy, Debug, PartialEq, Eq, Structural)]
pub enum ButtonAction {
    /// Make the timer run (`true`) or stop (`false`).
    SetActive(bool),
    /// The button has no action yet.
    Unassigned,
}

impl ButtonFunction {
    /// `Stop` stops the timer and `Play` starts it; the buttons that would
    /// add or take away minutes have no action yet.
    pub fn action(&self) -> (a: ButtonAction)
        ensures
            a == match *self {
                ButtonFunction::Stop => ButtonAction::SetActive(false),
                ButtonFunction::Play => ButtonAction::SetActive(true),
                _ => ButtonAction::Unassigned,
            },
    {
        match self {
            ButtonFunction::Stop => ButtonAction::SetActive(false),
            ButtonFunction::Play => ButtonAction::SetActive(true),
            _ => ButtonAction::Unassigned,
        }
    }
}

#[derive(Clone, Copy, Debug, PartialEq, Eq, Hash, Structural)]
pub enum EventTypes {
    Update,
}

/// The callbacks registered for an event in `entries`, in the order they
/// were added.
pub open spec fn callbacks_in<C>(entries: Seq<(EventTypes, Vec<C>)>, event: EventTypes) -> Seq<C>
    decreases entries.len(),
{
    if entries.len() == 0 {
        Seq::empty()
    } else if entries.last().0 == event {
        entries.last().1@
    } else {
        callbacks_in(entries.drop_last(), event)
    }
}

/// `s` without the callbacks equal to `cb`.
pub open spec fn without<C: PartialEq>(s: Seq<C>, cb: C) -> Seq<C>
    decreases s.len(),
{
    if s.len() == 0 {
        s
    } else if s.last().eq_spec(&cb) {
        without(s.drop_last(), cb)
    } else {
        without(s.drop_last(), cb).push(s.last())
    }
}

/// The items of `s` whose mark in `keep` is set, in order.
pub open spec fn select<C>(s: Seq<C>, keep: Seq<bool>) -> Seq<C>
    decreases s.len(),
{
    if s.len() == 0 {
        s
    } else if keep.last() {
        select(s.drop_last(), keep.drop_last()).push(s.last())
    } else {
        select(s.drop_last(), keep.drop_last())
    }
}

/// Whether callback `f` ran with a clone of `data` and returned.
pub open spec fn ran_with_clone<C: Fn(D), D: Clone>(f: C, data: D) -> bool {
    exists|x: D| #[trigger] cloned::<D>(data, x) && call_ensures(f, (x,), ())
}

/// Callbacks registered per event. The entries are kept in a `Vec` of
/// pairs, one per event: Verus's specification of `HashMap` covers keys
/// whose hashing and equality it knows (integers and the like), not an enum
/// of this crate with derived `Hash` and `Eq`.
pub struct Events<C> {
    callbacks: Vec<(EventTypes, Vec<C>)>,
}

impl<C: Copy + PartialEq> Events<C> {
    /// The callbacks registered for `event`, in the order they were added.
    pub closed spec fn registered(&self, event: EventTypes) -> Seq<C> {
        callbacks_in(self.callbacks@, event)
    }

    /// Each event has one entry at most.
    pub closed spec fn wf(&self) -> bool {
        forall|i: int, j: int|
            0 <= i < j < self.callbacks@.len() ==> #[trigger] self.callbacks@[i].0
                != #[trigger] self.callbacks@[j].0
    }

    pub fn new() -> (e: Self)
        ensures
            e.wf(),
            forall|ev: EventTypes| e.registered(ev) == Seq::<C>::empty(),
    {
        Self { callbacks: Vec::new() }
    }

    fn find(&self, event: EventTypes) -> (r: Option<usize>)
        requires
            self.wf(),
        ensures
            match r {
                Some(i) => i < self.callbacks@.len() && self.callbacks@[i as int].0 == event,
                None => forall|i: int|
                    0 <= i < self.callbacks@.len() ==> self.callbacks@[i].0 != event,
            },
    {
        let mut i: usize = 0;
        while i < self.callbacks.len()
            invariant
                i <= self.callbacks@.len(),
                forall|j: int| 0 <= j < i ==> self.callbacks@[j].0 != event,
            decreases self.callbacks@.len() - i,
        {
            if self.callbacks[i].0 == event {
                return Some(i);
            }
            i = i + 1;
        }
        None
    }

    /// Registers `cb` for `event`, after the callbacks it already has.
    pub fn add_callback(&mut self, event: EventTypes, cb: C) -> (r: Result<(), ()>)
        requires
            old(self).wf(),
        ensures
            final(self).wf(),
            r is Ok,
            final(self).registered(event) == old(self).registered(event).push(cb),
            forall|ev: EventTypes|
                ev != event ==> final(self).registered(ev) == old(self).registered(ev),
    {
        match self.find(event) {
            Some(i) => {
                let ghost before = self.callbacks@;
                let (ev, mut list) = self.take_entry(i);
                list.push(cb);
                self.callbacks.insert(i, (ev, list));
                proof {
                    lemma_update_entry(before, i as int, (ev, list));
                    assert(self.callbacks@ =~= before.update(i as int, (ev, list)));
                }
            },
            None => {
                let ghost before = self.callbacks@;
                let mut list = Vec::new();
                list.push(cb);
                self.callbacks.push((event, list));
                proof {
                    lemma_absent(before, event);
                    assert(self.callbacks@.drop_last() =~= before);
                    assert forall|ev: EventTypes| ev != event implies callbacks_in(
                        self.callbacks@,
                        ev,
                    ) == callbacks_in(before, ev) by {}
                    assert(list@ =~= Seq::<C>::empty().push(cb));
                }
            },
        }
        Ok(())
    }

    /// Takes the entry at `i` out of the list.
    fn take_entry(&mut self, i: usize) -> (e: (EventTypes, Vec<C>))
        requires
            i < old(self).callbacks@.len(),
        ensures
            e == old(self).callbacks@[i as int],
            final(self).callbacks@ == old(self).callbacks@.remove(i as int),
    {
        self.callbacks.remove(i)
    }

    /// Unregisters every callback of `event` that equals `cb`; the others
    /// stay, in order. Which ones equal `cb` is what `==` on `C` says: where
    /// `C` obeys Verus's equality spec, exactly those `without` removes.
    pub fn remove_callback(&mut self, event: EventTypes, cb: C)
        requires
            old(self).wf(),
        ensures
            final(self).wf(),
            exists|keep: Seq<bool>|
                keep.len() == old(self).registered(event).len() && final(self).registered(event)
                    == #[trigger] select(old(self).registered(event), keep),
            C::obeys_eq_spec() ==> final(self).registered(event) == without(
                old(self).registered(event),
                cb,
            ),
            forall|ev: EventTypes|
                ev != event ==> final(self).registered(ev) == old(self).registered(ev),
    {
        match self.find(event) {
            Some(i) => {
                let ghost before = self.callbacks@;
                proof {
                    lemma_entry_found(before, i as int, event);
                }
                let (ev, list) = self.take_entry(i);
                let mut kept: Vec<C> = Vec::new();
                let ghost mut keep: Seq<bool> = Seq::empty();
                let mut j: usize = 0;
                while j < list.len()
                    invariant
                        j <= list@.len(),
                        keep.len() == j,
                        kept@ == select(list@.take(j as int), keep),
                        C::obeys_eq_spec() ==> kept@ == without(list@.take(j as int), cb),
                    decreases list@.len() - j,
                {
                    let v = list[j];
                    assert(list@.take(j + 1).drop_last() =~= list@.take(j as int));
                    let same = v == cb;
                    if !same {
                        kept.push(v);
                    }
                    proof {
                        let k2 = keep.push(!same);
                        assert(k2.drop_last() =~= keep);
                        keep = k2;
                    }
                    j = j + 1;
                }
                assert(list@.take(list@.len() as int) =~= list@);
                self.callbacks.insert(i, (ev, kept));
                proof {
                    lemma_update_entry(before, i as int, (ev, kept));
                    assert(self.callbacks@ =~= before.update(i as int, (ev, kept)));
                    assert(old(self).registered(event) == list@);
                    assert(select(old(self).registered(event), keep) == self.registered(event));
                }
            },
            None => {
                proof {
                    lemma_absent(self.callbacks@, event);
                    assert(select(self.registered(event), Seq::<bool>::empty())
                        == self.registered(event));
                }
            },
        }
    }

    /// The callbacks to run for `event`, in the order they were added.
    pub fn callbacks_for(&self, event: EventTypes) -> (r: Vec<C>)
        requires
            self.wf(),
        ensures
            r@ == self.registered(event),
    {
        match self.find(event) {
            Some(i) => {
                proof {
                    lemma_entry_found(self.callbacks@, i as int, event);
                }
                let list = &self.callbacks[i].1;
                let mut out: Vec<C> = Vec::new();
                let mut j: usize = 0;
                while j < list.len()
                    invariant
                        j <= list@.len(),
                        out@ == list@.take(j as int),
                    decreases list@.len() - j,
                {
                    out.push(list[j]);
                    assert(out@ =~= list@.take(j + 1));
                    j = j + 1;
                }
                assert(list@.take(list@.len() as int) =~= list@);
                out
            },
            None => {
                proof {
                    lemma_absent(self.callbacks@, event);
                }
                Vec::new()
            },
        }
    }
}

impl<C: Copy + PartialEq> Events<C> {
    /// Runs the callbacks registered for `event`, in the order they were
    /// added, each with its own clone of `data`; returns how many ran. Each
    /// callback ran with a clone of `data` and returned.
    pub fn trigger_event<D: Clone>(&self, event: EventTypes, data: D) -> (n: usize) where
        C: Fn(D),

        requires
            self.wf(),
            forall|f: C, x: D| #[trigger] call_requires(f, (x,)),
        ensures
            n == self.registered(event).len(),
            forall|i: int|
                0 <= i < n ==> #[trigger] ran_with_clone(self.registered(event)[i], data),
    {
        let list = self.callbacks_for(event);
        let ghost args: Seq<D> = Seq::empty();
        let mut j: usize = 0;
        while j < list.len()
            invariant
                j <= list@.len(),
                list@ == self.registered(event),
                args.len() == j,
                forall|f: C, x: D| #[trigger] call_requires(f, (x,)),
                forall|i: int|
                    0 <= i < j ==> cloned::<D>(data, #[trigger] args[i]) && call_ensures(
                        list@[i],
                        (args[i],),
                        (),
                    ),
            decreases list@.len() - j,
        {
            let f = list[j];
            let x = data.clone();
            let ghost xg = x;
            assert(cloned::<D>(data, xg));
            f(x);
            proof {
                args = args.push(xg);
            }
            j = j + 1;
        }
        proof {
            assert forall|i: int| 0 <= i < j implies #[trigger] ran_with_clone(
                self.registered(event)[i],
                data,
            ) by {
                assert(cloned::<D>(data, args[i]) && call_ensures(list@[i], (args[i],), ()));
            }
        }
        j
    }
}

/// Removing a callback right after adding it leaves the event's other
/// callbacks as they were before.
pub proof fn lemma_add_then_remove<C: PartialEq>(s: Seq<C>, cb: C)
    requires
        cb.eq_spec(&cb),
    ensures
        without(s.push(cb), cb) == without(s, cb),
{
    assert(s.push(cb).drop_last() =~= s);
}

/// Adding a callback that equals none of those registered for an event and
/// removing it again leaves what is registered, for every event, as it was.
pub proof fn lemma_events_add_then_remove<C: Copy + PartialEq>(
    before: Events<C>,
    added: Events<C>,
    after: Events<C>,
    event: EventTypes,
    cb: C,
)
    requires
        C::obeys_eq_spec(),
        cb.eq_spec(&cb),
        forall|i: int|
            0 <= i < before.registered(event).len() ==> !(#[trigger] before.registered(
                event,
            )[i]).eq_spec(&cb),
        added.registered(event) == before.registered(event).push(cb),
        forall|ev: EventTypes| ev != event ==> added.registered(ev) == before.registered(ev),
        after.registered(event) == without(added.registered(event), cb),
        forall|ev: EventTypes| ev != event ==> after.registered(ev) == added.registered(ev),
    ensures
        forall|ev: EventTypes| after.registered(ev) == before.registered(ev),
{
    lemma_add_then_remove(before.registered(event), cb);
    lemma_without_none_equal(before.registered(event), cb);
    assert forall|ev: EventTypes| after.registered(ev) == before.registered(ev) by {
        if ev != event {
            assert(added.registered(ev) == before.registered(ev));
        }
    }
}

/// Removing a callback that equals none of the items changes nothing.
proof fn lemma_without_none_equal<C: PartialEq>(s: Seq<C>, cb: C)
    requires
        forall|i: int| 0 <= i < s.len() ==> !(#[trigger] s[i]).eq_spec(&cb),
    ensures
        without(s, cb) == s,
    decreases s.len(),
{
    if s.len() > 0 {
        let p = s.drop_last();
        assert forall|i: int| 0 <= i < p.len() implies !(#[trigger] p[i]).eq_spec(&cb) by {
            assert(p[i] == s[i]);
        }
        lemma_without_none_equal(p, cb);
        assert(!s[s.len() - 1].eq_spec(&cb));
        assert(p.push(s.last()) =~= s);
    }
}

/// With no entry for `event`, nothing is registered for it.
proof fn lemma_absent<C>(entries: Seq<(EventTypes, Vec<C>)>, event: EventTypes)
    requires
        forall|i: int| 0 <= i < entries.len() ==> entries[i].0 != event,
    ensures
        callbacks_in(entries, event) == Seq::<C>::empty(),
    decreases entries.len(),
{
    if entries.len() > 0 {
        lemma_absent(entries.drop_last(), event);
    }
}

/// The entry for an event holds what is registered for it.
proof fn lemma_entry_found<C>(entries: Seq<(EventTypes, Vec<C>)>, i: int, event: EventTypes)
    requires
        0 <= i < entries.len(),
        entries[i].0 == event,
        forall|a: int, b: int|
            0 <= a < b < entries.len() ==> #[trigger] entries[a].0 != #[trigger] entries[b].0,
    ensures
        callbacks_in(entries, event) == entries[i].1@,
    decreases entries.len(),
{
    if i < entries.len() - 1 {
        assert(entries.last().0 != event);
        lemma_entry_found(entries.drop_last(), i, event);
    }
}

/// Replacing the entry of an event changes what is registered for that
/// event only.
proof fn lemma_update_entry<C>(
    entries: Seq<(EventTypes, Vec<C>)>,
    i: int,
    e: (EventTypes, Vec<C>),
)
    requires
        0 <= i < entries.len(),
        entries[i].0 == e.0,
        forall|a: int, b: int|
            0 <= a < b < entries.len() ==> #[trigger] entries[a].0 != #[trigger] entries[b].0,
    ensures
        callbacks_in(entries.update(i, e), e.0) == e.1@,
        forall|ev: EventTypes|
            ev != e.0 ==> callbacks_in(entries.update(i, e), ev) == callbacks_in(entries, ev),
        forall|a: int, b: int|
            0 <= a < b < entries.len() ==> #[trigger] entries.update(i, e)[a].0
                != #[trigger] entries.update(i, e)[b].0,
    decreases entries.len(),
{
    let u = entries.update(i, e);
    if i < entries.len() - 1 {
        assert(u.drop_last() =~= entries.drop_last().update(i, e));
        lemma_update_entry(entries.drop_last(), i, e);
        assert(u.last() == entries.last());
    } else {
        assert(u.drop_last() =~= entries.drop_last());
    }
    assert forall|a: int, b: int| 0 <= a < b < entries.len() implies #[trigger] u[a].0 != #[trigger] u[b].0 by {
        assert(entries[a].0 != entries[b].0);
    }
}

impl<C: Copy + PartialEq> Default for Events<C> {
    fn default() -> (e: Self)
        ensures
            e.wf(),
            forall|ev: EventTypes| e.registered(ev) == Seq::<C>::empty(),
    {
        Self::new()
    }
}

} // verus!
