//! Spreading the values of one receiver over several.
//!
//! The distributor takes from one receiver and hands each entry to one of
//! its outlets. It goes round the outlets in the order in which they
//! subscribed, starting behind the one that was served last, and serves
//! the first that listens and has room.

use crate::rch::mpsc::receiver::{Outcome, Receiver, ReceiverView, RecvError, TryRecvError};
use crate::rch::Poll;
use std::collections::VecDeque;
use vstd::prelude::*;

verus! {

/// What one of the receivers behind a distributor holds.
pub struct OutletView<T> {
    /// The entries that wait, oldest first.
    pub entries: Seq<Result<T, RecvError>>,
    /// How many entries the outlet has room for.
    pub capacity: nat,
    /// Whether the receiver still listens.
    pub open: bool,
}

impl<T> OutletView<T> {
    /// Whether the outlet can be served: it listens and has room.
    pub open spec fn takes(self) -> bool {
        self.open && self.entries.len() < self.capacity
    }

    /// Whether the outlet is within its bounds.
    pub open spec fn wf(self) -> bool {
        0 < self.capacity && self.entries.len() <= self.capacity
    }
}

/// The position that is `k` steps round from `cursor` among `len`.
pub open spec fn round(cursor: nat, k: nat, len: nat) -> int {
    if cursor + k < len {
        (cursor + k) as int
    } else {
        cursor + k - len
    }
}

/// The first outlet that can be served, going round from `cursor` and
/// leaving out the first `k` on the way.
pub open spec fn pick_from<T>(outlets: Seq<OutletView<T>>, cursor: nat, k: nat) -> Option<int>
    decreases outlets.len() - k,
{
    if k >= outlets.len() {
        None
    } else if outlets[round(cursor, k, outlets.len())].takes() {
        Some(round(cursor, k, outlets.len()))
    } else {
        pick_from(outlets, cursor, k + 1)
    }
}

/// Whether any outlet listens.
pub open spec fn any_open<T>(outlets: Seq<OutletView<T>>) -> bool {
    exists|i: int| 0 <= i < outlets.len() && (#[trigger] outlets[i]).open
}

/// What a distributor holds.
pub struct DistributorView<T> {
    /// The receiver it takes from.
    pub upstream: ReceiverView<T>,
    /// The outlets, in the order in which they subscribed.
    pub outlets: Seq<OutletView<T>>,
    /// Whether it waits while nobody listens.
    pub wait_on_empty: bool,
    /// Whether it has ended.
    pub terminated: bool,
    /// Where the next round starts.
    pub cursor: nat,
}

/// What a step of a distributor did.
#[derive(Clone, Copy, Debug, PartialEq, Eq, Structural)]
pub enum Pump {
    /// An entry went to the outlet with this number.
    Delivered(usize),
    /// Nothing to do now: nobody listens and the distributor waits, nobody
    /// who listens has room, or nothing is there to take.
    Idle,
    /// The distributor has ended: nobody listened and it does not wait, or
    /// the receiver it takes from has nothing more to give.
    Terminated,
}

impl<T> DistributorView<T> {
    /// Whether the outlets are within their bounds and the round starts at
    /// one of them.
    pub open spec fn wf(self) -> bool {
        &&& forall|i: int| 0 <= i < self.outlets.len() ==> (#[trigger] self.outlets[i]).wf()
        &&& (self.cursor < self.outlets.len() || self.cursor == 0)
    }

    /// The outlet that the next entry goes to, if one can be served.
    pub open spec fn pick(self) -> Option<int> {
        pick_from(self.outlets, self.cursor, 0)
    }

    /// The state with every outlet at its end: nothing more will come.
    pub open spec fn ended(self) -> DistributorView<T> {
        DistributorView { upstream: self.upstream.let_go(), terminated: true, ..self }
    }

    /// The state that a step leaves.
    ///
    /// A distributor that has ended stays as it is. If nobody listens it
    /// ends and lets its receiver go, unless it is to wait: then nothing
    /// changes. If nobody who listens has room, nothing changes either.
    /// Else it tries to take an entry: a value or an error goes to the
    /// outlet whose turn it is, and the end of the receiver ends the
    /// distributor.
    pub open spec fn stepped(self) -> DistributorView<T> {
        if self.terminated {
            self
        } else if !any_open(self.outlets) {
            if self.wait_on_empty {
                self
            } else {
                self.ended()
            }
        } else {
            match self.pick() {
                None => self,
                Some(to) => {
                    let taken = DistributorView { upstream: self.upstream.received(), ..self };
                    match self.upstream.outcome() {
                        Outcome::Value(value) => taken.served(to, Ok(value)),
                        Outcome::Failed(err) => taken.served(to, Err(err)),
                        Outcome::Finished => taken.ended(),
                        Outcome::Empty => taken,
                    }
                },
            }
        }
    }

    /// The state after an entry has gone to an outlet.
    pub open spec fn served(self, to: int, entry: Result<T, RecvError>) -> DistributorView<T> {
        DistributorView {
            outlets: self.outlets.update(
                to,
                OutletView { entries: self.outlets[to].entries.push(entry), ..self.outlets[to] },
            ),
            cursor: if to + 1 < self.outlets.len() {
                (to + 1) as nat
            } else {
                0
            },
            ..self
        }
    }

    /// What a step reports.
    pub open spec fn step_result(self) -> Pump {
        if self.terminated {
            Pump::Terminated
        } else if !any_open(self.outlets) {
            if self.wait_on_empty {
                Pump::Idle
            } else {
                Pump::Terminated
            }
        } else {
            match self.pick() {
                None => Pump::Idle,
                Some(to) => match self.upstream.outcome() {
                    Outcome::Value(_) => Pump::Delivered(to as usize),
                    Outcome::Failed(_) => Pump::Delivered(to as usize),
                    Outcome::Finished => Pump::Terminated,
                    Outcome::Empty => Pump::Idle,
                },
            }
        }
    }
}

/// One of the receivers behind a distributor.
struct Outlet<T> {
    queue: VecDeque<Result<T, RecvError>>,
    capacity: usize,
    open: bool,
}

impl<T> View for Outlet<T> {
    type V = OutletView<T>;

    closed spec fn view(&self) -> OutletView<T> {
        OutletView { entries: self.queue@, capacity: self.capacity as nat, open: self.open }
    }
}

/// Spreads the values of one receiver over several outlets.
pub struct Distributor<T, Codec, Buffer> {
    rx: Receiver<T, Codec, Buffer>,
    outlets: Vec<Outlet<T>>,
    wait_on_empty: bool,
    terminated: bool,
    cursor: usize,
}

impl<T, Codec, Buffer> View for Distributor<T, Codec, Buffer> {
    type V = DistributorView<T>;

    closed spec fn view(&self) -> DistributorView<T> {
        DistributorView {
            upstream: self.rx@,
            outlets: Seq::new(self.outlets@.len(), |i: int| self.outlets@[i]@),
            wait_on_empty: self.wait_on_empty,
            terminated: self.terminated,
            cursor: self.cursor as nat,
        }
    }
}

/// If the first `k` outlets on the round cannot be served, the pick is
/// what the rest of the round picks.
proof fn lemma_pick_skips<T>(outlets: Seq<OutletView<T>>, cursor: nat, k: nat)
    requires
        k <= outlets.len(),
        forall|j: nat| j < k ==> !(#[trigger] outlets[round(cursor, j, outlets.len())]).takes(),
    ensures
        pick_from(outlets, cursor, 0) == pick_from(outlets, cursor, k),
    decreases k,
{
    if k > 0 {
        lemma_pick_skips(outlets, cursor, (k - 1) as nat);
    }
}

impl<T, Codec, Buffer> Distributor<T, Codec, Buffer> {
    /// Whether everything is within its bounds.
    pub closed spec fn wf(&self) -> bool {
        &&& self.rx.wf()
        &&& forall|i: int| 0 <= i < self.outlets@.len() ==> (#[trigger] self.outlets@[i])@.wf()
        &&& (self.cursor < self.outlets@.len() || self.cursor == 0)
    }

    /// What is within its bounds here is so in the view.
    pub proof fn lemma_view_wf(&self)
        requires
            self.wf(),
        ensures
            self@.wf(),
    {
    }

    /// A distributor on `rx` without outlets.
    pub(crate) fn new(rx: Receiver<T, Codec, Buffer>, wait_on_empty: bool) -> (distributor: Self)
        requires
            rx.wf(),
        ensures
            distributor.wf(),
            distributor@ == (DistributorView {
                upstream: rx@,
                outlets: Seq::empty(),
                wait_on_empty,
                terminated: false,
                cursor: 0,
            }),
    {
        let distributor = Distributor {
            rx,
            outlets: Vec::new(),
            wait_on_empty,
            terminated: false,
            cursor: 0,
        };
        assert(distributor@.outlets =~= Seq::empty());
        distributor
    }

    /// The receiver that the distributor takes from, for those who feed it.
    pub fn upstream(&mut self) -> (rx: &mut Receiver<T, Codec, Buffer>)
        ensures
            rx@ == old(self)@.upstream,
            old(self).wf() ==> rx.wf(),
            final(self)@ == (DistributorView { upstream: final(rx)@, ..old(self)@ }),
            old(self).wf() && final(rx).wf() ==> final(self).wf(),
    {
        &mut self.rx
    }

    /// Adds an outlet with room for `capacity` entries and gives its
    /// number. A distributor that has ended takes no outlet.
    pub fn subscribe(&mut self, capacity: usize) -> (id: Option<usize>)
        requires
            old(self).wf(),
            capacity > 0,
        ensures
            final(self).wf(),
            id == (if old(self)@.terminated {
                None
            } else {
                Some(old(self)@.outlets.len() as usize)
            }),
            final(self)@ == (if old(self)@.terminated {
                old(self)@
            } else {
                DistributorView {
                    outlets: old(self)@.outlets.push(
                        OutletView { entries: Seq::empty(), capacity: capacity as nat, open: true },
                    ),
                    ..old(self)@
                }
            }),
    {
        if self.terminated {
            return None;
        }
        let id = self.outlets.len();
        self.outlets.push(Outlet { queue: VecDeque::new(), capacity, open: true });
        assert(self@.outlets =~= old(self)@.outlets.push(
            OutletView { entries: Seq::empty(), capacity: capacity as nat, open: true },
        ));
        Some(id)
    }

    /// An outlet stops listening. What waits in it stays for its receiver
    /// to take. Says whether it had been listening.
    pub fn unsubscribe(&mut self, id: usize) -> (listened: bool)
        requires
            old(self).wf(),
        ensures
            final(self).wf(),
            listened == (id < old(self)@.outlets.len() && old(self)@.outlets[id as int].open),
            final(self)@ == (if id < old(self)@.outlets.len() {
                DistributorView {
                    outlets: old(self)@.outlets.update(
                        id as int,
                        OutletView { open: false, ..old(self)@.outlets[id as int] },
                    ),
                    ..old(self)@
                }
            } else {
                old(self)@
            }),
    {
        if id >= self.outlets.len() {
            return false;
        }
        let outlet = &mut self.outlets[id];
        let listened = outlet.open;
        outlet.open = false;
        assert(self@.outlets =~= old(self)@.outlets.update(
            id as int,
            OutletView { open: false, ..old(self)@.outlets[id as int] },
        ));
        listened
    }

    /// Whether any outlet listens.
    fn listens(&self) -> (any: bool)
        ensures
            any == any_open(self@.outlets),
    {
        let mut i: usize = 0;
        while i < self.outlets.len()
            invariant
                i <= self.outlets@.len(),
                forall|j: int| 0 <= j < i ==> !(#[trigger] self.outlets@[j])@.open,
            decreases self.outlets@.len() - i,
        {
            if self.outlets[i].open {
                assert(self@.outlets[i as int].open);
                return true;
            }
            i += 1;
        }
        assert(!any_open(self@.outlets)) by {
            if any_open(self@.outlets) {
                let j = choose|j: int|
                    0 <= j < self@.outlets.len() && (#[trigger] self@.outlets[j]).open;
                assert(self.outlets@[j]@.open);
            }
        }
        false
    }

    /// The outlet whose turn it is, if one can be served.
    fn pick(&self) -> (to: Option<usize>)
        requires
            self.wf(),
        ensures
            match to {
                Some(to) => self@.pick() == Some(to as int) && to < self@.outlets.len()
                    && self@.outlets[to as int].takes(),
                None => self@.pick() is None,
            },
    {
        let len = self.outlets.len();
        let mut k: usize = 0;
        while k < len
            invariant
                self.wf(),
                len == self.outlets@.len(),
                k <= len,
                forall|j: nat|
                    j < k ==> !(#[trigger] self@.outlets[round(self.cursor as nat, j, len as nat)]).takes(),
            decreases len - k,
        {
            let at = if k < len - self.cursor {
                self.cursor + k
            } else {
                k - (len - self.cursor)
            };
            assert(at == round(self.cursor as nat, k as nat, len as nat));
            let outlet = &self.outlets[at];
            if outlet.open && outlet.queue.len() < outlet.capacity {
                proof {
                    lemma_pick_skips(self@.outlets, self.cursor as nat, k as nat);
                    assert(self@.outlets[at as int].takes());
                }
                return Some(at);
            }
            assert(!self@.outlets[at as int].takes());
            k += 1;
        }
        proof {
            lemma_pick_skips(self@.outlets, self.cursor as nat, len as nat);
        }
        None
    }

    /// Puts an entry into an outlet and moves the turn on.
    fn serve(&mut self, to: usize, entry: Result<T, RecvError>)
        requires
            old(self).wf(),
            to < old(self)@.outlets.len(),
            old(self)@.outlets[to as int].takes(),
        ensures
            final(self).wf(),
            final(self)@ == old(self)@.served(to as int, entry),
    {
        let len = self.outlets.len();
        let outlet = &mut self.outlets[to];
        outlet.queue.push_back(entry);
        self.cursor = if to < len - 1 {
            to + 1
        } else {
            0
        };
        assert(self@.outlets =~= old(self)@.served(to as int, entry).outlets);
    }

    /// One step of the distributor: hands on one entry if it can.
    ///
    /// Without listeners a distributor that does not wait ends, and the
    /// senders of its receiver learn that the receiver is gone; one that
    /// waits stays as it is and goes on when somebody listens again.
    pub fn step(&mut self) -> (did: Pump)
        requires
            old(self).wf(),
        ensures
            final(self).wf(),
            final(self)@ == old(self)@.stepped(),
            did == old(self)@.step_result(),
    {
        if self.terminated {
            return Pump::Terminated;
        }
        if !self.listens() {
            if self.wait_on_empty {
                return Pump::Idle;
            }
            self.rx.let_go();
            self.terminated = true;
            return Pump::Terminated;
        }
        let to = match self.pick() {
            Some(to) => to,
            None => {
                return Pump::Idle;
            },
        };
        match self.rx.poll_recv() {
            Poll::Ready(Ok(Some(value))) => {
                self.serve(to, Ok(value));
                Pump::Delivered(to)
            },
            Poll::Ready(Err(err)) => {
                self.serve(to, Err(err));
                Pump::Delivered(to)
            },
            Poll::Ready(Ok(None)) => {
                self.rx.let_go();
                self.terminated = true;
                Pump::Terminated
            },
            Poll::Pending => Pump::Idle,
        }
    }

    /// Takes the entry at the front of an outlet.
    ///
    /// With nothing there, gives `Closed` if the distributor has ended or
    /// the outlet does not listen, else `Empty`.
    pub fn try_recv(&mut self, id: usize) -> (r: Result<T, TryRecvError>)
        requires
            old(self).wf(),
        ensures
            final(self).wf(),
            final(self)@ == (if id < old(self)@.outlets.len() && old(
                self,
            )@.outlets[id as int].entries.len() > 0 {
                DistributorView {
                    outlets: old(self)@.outlets.update(
                        id as int,
                        OutletView {
                            entries: old(self)@.outlets[id as int].entries.skip(1),
                            ..old(self)@.outlets[id as int]
                        },
                    ),
                    ..old(self)@
                }
            } else {
                old(self)@
            }),
            r == (if id < old(self)@.outlets.len() && old(self)@.outlets[id as int].entries.len()
                > 0 {
                match old(self)@.outlets[id as int].entries[0] {
                    Ok(value) => Ok::<T, TryRecvError>(value),
                    Err(err) => Err(TryRecvError::of(err)),
                }
            } else if id < old(self)@.outlets.len() && !old(self)@.terminated && old(
                self,
            )@.outlets[id as int].open {
                Err(TryRecvError::Empty)
            } else {
                Err(TryRecvError::Closed)
            }),
    {
        if id >= self.outlets.len() {
            return Err(TryRecvError::Closed);
        }
        let terminated = self.terminated;
        let outlet = &mut self.outlets[id];
        let open = outlet.open;
        match outlet.queue.pop_front() {
            Some(entry) => {
                assert(self@.outlets =~= old(self)@.outlets.update(
                    id as int,
                    OutletView {
                        entries: old(self)@.outlets[id as int].entries.skip(1),
                        ..old(self)@.outlets[id as int]
                    },
                ));
                match entry {
                    Ok(value) => Ok(value),
                    Err(err) => Err(TryRecvError::from(err)),
                }
            },
            None => {
                assert(self@.outlets =~= old(self)@.outlets);
                if !terminated && open {
                    Err(TryRecvError::Empty)
                } else {
                    Err(TryRecvError::Closed)
                }
            },
        }
    }
}

/// A distributor that does not wait ends as soon as nobody listens, and
/// the senders of its receiver then learn that the receiver is gone.
pub proof fn lemma_ends_without_listeners<T>(state: DistributorView<T>)
    requires
        !state.terminated,
        !state.wait_on_empty,
        !any_open(state.outlets),
    ensures
        state.stepped().terminated,
        state.step_result() == Pump::Terminated,
        state.stepped().upstream == state.upstream.let_go(),
        state.upstream.successor is None && !state.upstream.queue.closed
            ==> state.stepped().upstream.queue.closed_signal is Some,
        forall|value: T| state.stepped().upstream.queue.closed_signal is Some ==> (
        #[trigger] state.stepped().upstream.queue.refusal(value)) is Some,
{
}

/// A distributor that waits stays alive while nobody listens and takes
/// nothing meanwhile. When an outlet subscribes, the next value that is
/// there goes to it.
pub proof fn lemma_waits_and_resumes<T>(state: DistributorView<T>, capacity: nat, value: T)
    requires
        state.wf(),
        state.outlets.len() < usize::MAX,
        !state.terminated,
        state.wait_on_empty,
        !any_open(state.outlets),
        capacity > 0,
        state.upstream.outcome() == Outcome::Value(value),
    ensures
        state.stepped() == state,
        state.step_result() == Pump::Idle,
        ({
            let outlet = OutletView::<T> { entries: Seq::empty(), capacity, open: true };
            let joined = DistributorView { outlets: state.outlets.push(outlet), ..state };
            let to = state.outlets.len() as int;
            &&& joined.step_result() matches Pump::Delivered(at) && at == to
            &&& !joined.stepped().terminated
            &&& joined.stepped().outlets[to].entries == seq![Ok::<T, RecvError>(value)]
            &&& joined.stepped().upstream == state.upstream.received()
        }),
{
    let outlet = OutletView::<T> { entries: Seq::empty(), capacity, open: true };
    let joined = DistributorView { outlets: state.outlets.push(outlet), ..state };
    let to = state.outlets.len() as int;
    assert(joined.outlets[to].open);
    assert(any_open(joined.outlets));
    lemma_only_pick(joined.outlets, joined.cursor, 0, to);
    assert(joined.stepped().outlets[to].entries =~= seq![Ok::<T, RecvError>(value)]);
}

/// If one outlet alone listens and it has room, the pick is that outlet.
proof fn lemma_only_pick<T>(outlets: Seq<OutletView<T>>, cursor: nat, k: nat, to: int)
    requires
        0 <= to < outlets.len(),
        outlets[to].takes(),
        forall|i: int| 0 <= i < outlets.len() && i != to ==> !(#[trigger] outlets[i]).open,
        k <= outlets.len(),
        cursor < outlets.len(),
        forall|j: nat| j < k ==> round(cursor, j, outlets.len()) != to,
    ensures
        pick_from(outlets, cursor, k) == Some(to),
    decreases outlets.len() - k,
{
    if k >= outlets.len() {
        // every position of the round has been passed, so one of them was `to`
        let j: nat = if to >= cursor {
            (to - cursor) as nat
        } else {
            (to + outlets.len() - cursor) as nat
        };
        assert(round(cursor, j, outlets.len()) == to);
    } else if round(cursor, k, outlets.len()) != to {
        lemma_only_pick(outlets, cursor, k + 1, to);
    }
}

} // verus!
