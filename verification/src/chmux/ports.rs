//! Port numbers: which are taken, and when one may be used again.

use vstd::prelude::*;

verus! {

/// What a port number stands for at the moment.
#[derive(Clone, Copy, Debug, PartialEq, Eq, Structural)]
pub enum PortState {
    /// Nothing: the number can be given out.
    Free,
    /// A port that is open, or whose closing one side has not yet confirmed.
    Live {
        /// Whether this side has let the port go.
        local_released: bool,
        /// Whether the peer has let the port go.
        remote_released: bool,
    },
}

/// The port numbers of one multiplexer.
///
/// A number is given to one port at a time. It comes back only when both
/// sides have let the port go.
pub struct PortRegistry {
    slots: Vec<PortState>,
}

impl View for PortRegistry {
    type V = Seq<PortState>;

    closed spec fn view(&self) -> Seq<PortState> {
        self.slots@
    }
}

/// Whether a number is in range and free.
pub open spec fn is_free(ports: Seq<PortState>, port: int) -> bool {
    0 <= port < ports.len() && ports[port] == PortState::Free
}

/// Whether a number is in range and stands for a port.
pub open spec fn is_live(ports: Seq<PortState>, port: int) -> bool {
    0 <= port < ports.len() && ports[port] != PortState::Free
}

/// The state of a port after one side has let it go.
pub open spec fn let_go(state: PortState, local: bool) -> PortState {
    match state {
        PortState::Free => PortState::Free,
        PortState::Live { local_released, remote_released } => {
            if (local || local_released) && (!local || remote_released) {
                PortState::Free
            } else {
                PortState::Live {
                    local_released: local || local_released,
                    remote_released: !local || remote_released,
                }
            }
        },
    }
}

impl PortRegistry {
    /// Whether the numbers fit the type of a port number.
    pub closed spec fn wf(&self) -> bool {
        self.slots@.len() <= u32::MAX
    }

    /// A registry of `max_ports` numbers, all free.
    pub fn new(max_ports: u32) -> (registry: Self)
        ensures
            registry.wf(),
            registry@.len() == max_ports,
            forall|port: int| 0 <= port < max_ports ==> is_free(registry@, port),
    {
        let mut slots: Vec<PortState> = Vec::new();
        let mut n: u32 = 0;
        while n < max_ports
            invariant
                n <= max_ports,
                slots@.len() == n,
                forall|port: int| 0 <= port < n ==> slots@[port] == PortState::Free,
            decreases max_ports - n,
        {
            slots.push(PortState::Free);
            n += 1;
        }
        PortRegistry { slots }
    }

    /// How many numbers there are.
    pub fn max_ports(&self) -> (n: u32)
        requires
            self.wf(),
        ensures
            n == self@.len(),
    {
        self.slots.len() as u32
    }

    /// What a number stands for. A number out of range stands for nothing.
    pub fn state(&self, port: u32) -> (state: PortState)
        ensures
            state == (if port < self@.len() {
                self@[port as int]
            } else {
                PortState::Free
            }),
    {
        if (port as usize) < self.slots.len() {
            self.slots[port as usize]
        } else {
            PortState::Free
        }
    }

    /// Gives out the lowest free number, if one is free. The number then
    /// stands for a port that neither side has let go.
    pub fn allocate(&mut self) -> (given: Option<u32>)
        requires
            old(self).wf(),
        ensures
            final(self).wf(),
            match given {
                Some(port) => {
                    &&& is_free(old(self)@, port as int)
                    &&& forall|lower: int| 0 <= lower < port ==> is_live(old(self)@, lower)
                    &&& final(self)@ == old(self)@.update(
                        port as int,
                        PortState::Live { local_released: false, remote_released: false },
                    )
                },
                None => {
                    &&& forall|port: int| 0 <= port < old(self)@.len() ==> is_live(old(self)@, port)
                    &&& final(self)@ == old(self)@
                },
            },
    {
        let mut port: usize = 0;
        while port < self.slots.len()
            invariant
                self.wf(),
                self.slots@ == old(self).slots@,
                port <= self.slots@.len(),
                forall|lower: int| 0 <= lower < port ==> is_live(self.slots@, lower),
            decreases self.slots@.len() - port,
        {
            if self.slots[port] == PortState::Free {
                self.slots.set(
                    port,
                    PortState::Live { local_released: false, remote_released: false },
                );
                return Some(port as u32);
            }
            port += 1;
        }
        None
    }

    /// Takes a number that the peer chose for a port it opened, if the
    /// number is in range and free.
    pub fn claim(&mut self, port: u32) -> (taken: bool)
        ensures
            taken == is_free(old(self)@, port as int),
            final(self)@ == (if taken {
                old(self)@.update(
                    port as int,
                    PortState::Live { local_released: false, remote_released: false },
                )
            } else {
                old(self)@
            }),
            old(self).wf() ==> final(self).wf(),
    {
        if (port as usize) < self.slots.len() && self.slots[port as usize] == PortState::Free {
            self.slots.set(
                port as usize,
                PortState::Live { local_released: false, remote_released: false },
            );
            true
        } else {
            false
        }
    }

    /// Records that one side has let a port go: this side if `local`, else
    /// the peer. The number is free again once both have. Says whether it
    /// is free afterwards.
    pub fn release(&mut self, port: u32, local: bool) -> (free: bool)
        ensures
            final(self)@ == (if port < old(self)@.len() {
                old(self)@.update(port as int, let_go(old(self)@[port as int], local))
            } else {
                old(self)@
            }),
            free == !is_live(final(self)@, port as int),
            old(self).wf() ==> final(self).wf(),
    {
        if (port as usize) >= self.slots.len() {
            return true;
        }
        match self.slots[port as usize] {
            PortState::Free => {
                assert(self.slots@ =~= old(self).slots@.update(
                    port as int,
                    let_go(old(self).slots@[port as int], local),
                ));
                true
            },
            PortState::Live { local_released, remote_released } => {
                let local_now = local || local_released;
                let remote_now = !local || remote_released;
                if local_now && remote_now {
                    self.slots.set(port as usize, PortState::Free);
                    true
                } else {
                    self.slots.set(
                        port as usize,
                        PortState::Live { local_released: local_now, remote_released: remote_now },
                    );
                    false
                }
            },
        }
    }
}

/// A number that is given out stands for a port until both sides have let
/// the port go: one side alone does not free it.
pub proof fn lemma_reuse_needs_both(state: PortState, local: bool)
    requires
        state == (PortState::Live { local_released: false, remote_released: false }),
    ensures
        let_go(state, local) != PortState::Free,
        let_go(let_go(state, local), local) != PortState::Free,
        let_go(let_go(state, local), !local) == PortState::Free,
{
}

} // verus!
