//! The peer service: the relay behaviour that sits on the swarm, and what the
//! single task that owns it does on each scheduling tick. The task's channels
//! and the swarm's sockets are the caller's; commands come in as values, and
//! what has to go out on the network or to the node is handed back as values.

use vstd::prelude::*;

use crate::bytes::{bytes_eq, copy_bytes};
use crate::error::RelayError;
use crate::identity::{Keypair, PeerId};

verus! {

/// A command for the peer service.
#[derive(Debug)]
pub enum InPeerNotification {
    /// Forward `data` to `dst_id` in the name of `src_id`.
    Relay { src_id: PeerId, dst_id: PeerId, data: Vec<u8> },
    /// Push the network state `state` to `dst_id`.
    NetworkState { dst_id: PeerId, state: Vec<u8> },
}

/// An event of the network, for the rest of the node.
#[derive(Debug)]
pub enum OutPeerNotification {
    PeerConnected { peer_id: PeerId },
    PeerDisconnected { peer_id: PeerId },
    Relay { src_id: PeerId, dst_id: PeerId, data: Vec<u8> },
}

/// Something that the swarm has to put on the wire.
#[derive(Debug)]
pub enum Delivery {
    /// `data` for `dst_id`, as sent by `src_id`, over the live connection.
    Relay { src_id: PeerId, dst_id: PeerId, data: Vec<u8> },
    /// `state` for `dst_id`; `dial` says that a connection has to be made first.
    NetworkState { dst_id: PeerId, state: Vec<u8>, dial: bool },
}

pub enum CommandView {
    Relay { src_id: Seq<u8>, dst_id: Seq<u8>, data: Seq<u8> },
    NetworkState { dst_id: Seq<u8>, state: Seq<u8> },
}

pub enum EventView {
    PeerConnected { peer_id: Seq<u8> },
    PeerDisconnected { peer_id: Seq<u8> },
    Relay { src_id: Seq<u8>, dst_id: Seq<u8>, data: Seq<u8> },
}

pub enum DeliveryView {
    Relay { src_id: Seq<u8>, dst_id: Seq<u8>, data: Seq<u8> },
    NetworkState { dst_id: Seq<u8>, state: Seq<u8>, dial: bool },
}

impl View for InPeerNotification {
    type V = CommandView;

    open spec fn view(&self) -> CommandView {
        match self {
            InPeerNotification::Relay { src_id, dst_id, data } => CommandView::Relay {
                src_id: src_id@,
                dst_id: dst_id@,
                data: data@,
            },
            InPeerNotification::NetworkState { dst_id, state } => CommandView::NetworkState {
                dst_id: dst_id@,
                state: state@,
            },
        }
    }
}

impl View for OutPeerNotification {
    type V = EventView;

    open spec fn view(&self) -> EventView {
        match self {
            OutPeerNotification::PeerConnected { peer_id } => EventView::PeerConnected {
                peer_id: peer_id@,
            },
            OutPeerNotification::PeerDisconnected { peer_id } => EventView::PeerDisconnected {
                peer_id: peer_id@,
            },
            OutPeerNotification::Relay { src_id, dst_id, data } => EventView::Relay {
                src_id: src_id@,
                dst_id: dst_id@,
                data: data@,
            },
        }
    }
}

impl View for Delivery {
    type V = DeliveryView;

    open spec fn view(&self) -> DeliveryView {
        match self {
            Delivery::Relay { src_id, dst_id, data } => DeliveryView::Relay {
                src_id: src_id@,
                dst_id: dst_id@,
                data: data@,
            },
            Delivery::NetworkState { dst_id, state, dial } => DeliveryView::NetworkState {
                dst_id: dst_id@,
                state: state@,
                dial: *dial,
            },
        }
    }
}

/// The mathematical value of the behaviour: the peers with a live
/// connection, what waits to go out on the wire, and the events that wait
/// for the node, each oldest first.
pub struct BehaviourView {
    pub connected: Seq<Seq<u8>>,
    pub deliveries: Seq<DeliveryView>,
    pub events: Seq<EventView>,
}

/// The list without the entries equal to `peer`.
pub open spec fn without(list: Seq<Seq<u8>>, peer: Seq<u8>) -> Seq<Seq<u8>>
    decreases list.len(),
{
    if list.len() == 0 {
        list
    } else if list.last() == peer {
        without(list.drop_last(), peer)
    } else {
        without(list.drop_last(), peer).push(list.last())
    }
}

/// The behaviour after a relay command: with a live connection to `dst_id`
/// the bytes are queued for it as they are, in the name of `src_id`; with
/// none, nothing changes.
pub open spec fn relayed(b: BehaviourView, src_id: Seq<u8>, dst_id: Seq<u8>, data: Seq<u8>) -> BehaviourView {
    if b.connected.contains(dst_id) {
        BehaviourView {
            deliveries: b.deliveries.push(DeliveryView::Relay { src_id, dst_id, data }),
            ..b
        }
    } else {
        b
    }
}

/// The behaviour after a state push: the state is queued for `dst_id`, to be
/// sent over its live connection, or over one that is dialed first.
pub open spec fn state_pushed(b: BehaviourView, dst_id: Seq<u8>, state: Seq<u8>) -> BehaviourView {
    BehaviourView {
        deliveries: b.deliveries.push(
            DeliveryView::NetworkState { dst_id, state, dial: !b.connected.contains(dst_id) },
        ),
        ..b
    }
}

/// The behaviour after one command.
pub open spec fn applied(b: BehaviourView, command: CommandView) -> BehaviourView {
    match command {
        CommandView::Relay { src_id, dst_id, data } => relayed(b, src_id, dst_id, data),
        CommandView::NetworkState { dst_id, state } => state_pushed(b, dst_id, state),
    }
}

/// The behaviour after a run of commands, applied in the order of receipt.
pub open spec fn applied_all(b: BehaviourView, commands: Seq<CommandView>) -> BehaviourView
    decreases commands.len(),
{
    if commands.len() == 0 {
        b
    } else {
        applied(applied_all(b, commands.drop_last()), commands.last())
    }
}

/// The protocol logic on top of the swarm.
pub struct PeerServiceBehaviour {
    connected: Vec<PeerId>,
    deliveries: Vec<Delivery>,
    events: Vec<OutPeerNotification>,
}

impl View for PeerServiceBehaviour {
    type V = BehaviourView;

    closed spec fn view(&self) -> BehaviourView {
        BehaviourView {
            connected: Seq::new(self.connected@.len(), |i: int| self.connected@[i]@),
            deliveries: Seq::new(self.deliveries@.len(), |i: int| self.deliveries@[i]@),
            events: Seq::new(self.events@.len(), |i: int| self.events@[i]@),
        }
    }
}

impl PeerServiceBehaviour {
    /// A behaviour with no connection and nothing waiting.
    pub fn new() -> (r: PeerServiceBehaviour)
        ensures
            r@ == (BehaviourView {
                connected: Seq::empty(),
                deliveries: Seq::empty(),
                events: Seq::empty(),
            }),
    {
        let r = PeerServiceBehaviour {
            connected: Vec::new(),
            deliveries: Vec::new(),
            events: Vec::new(),
        };
        assert(r@.connected =~= Seq::empty());
        assert(r@.deliveries =~= Seq::empty());
        assert(r@.events =~= Seq::empty());
        r
    }

    /// Whether there is a live connection to `peer`.
    pub fn is_connected(&self, peer: &PeerId) -> (r: bool)
        ensures
            r == self@.connected.contains(peer@),
    {
        let mut i: usize = 0;
        while i < self.connected.len()
            invariant
                i <= self.connected@.len(),
                forall|j: int| 0 <= j < i ==> self@.connected[j] != peer@,
            decreases self.connected@.len() - i,
        {
            if bytes_eq(&self.connected[i], peer) {
                assert(self@.connected[i as int] == peer@);
                return true;
            }
            i = i + 1;
        }
        false
    }

    /// The swarm reports a new connection to `peer`.
    pub fn inject_connected(&mut self, peer: PeerId)
        ensures
            final(self)@ == (BehaviourView {
                connected: if old(self)@.connected.contains(peer@) {
                    old(self)@.connected
                } else {
                    old(self)@.connected.push(peer@)
                },
                events: old(self)@.events.push(EventView::PeerConnected { peer_id: peer@ }),
                ..old(self)@
            }),
    {
        if !self.is_connected(&peer) {
            self.connected.push(copy_bytes(&peer));
            assert(self@.connected =~= old(self)@.connected.push(peer@));
        }
        self.events.push(OutPeerNotification::PeerConnected { peer_id: peer });
        assert(self@.events =~= old(self)@.events.push(EventView::PeerConnected { peer_id: peer@ }));
        assert(self@.deliveries =~= old(self)@.deliveries);
        assert(self@.connected =~= if old(self)@.connected.contains(peer@) {
            old(self)@.connected
        } else {
            old(self)@.connected.push(peer@)
        });
    }

    /// The swarm reports that the connection to `peer` is gone.
    pub fn inject_disconnected(&mut self, peer: PeerId)
        ensures
            final(self)@ == (BehaviourView {
                connected: without(old(self)@.connected, peer@),
                events: old(self)@.events.push(EventView::PeerDisconnected { peer_id: peer@ }),
                ..old(self)@
            }),
    {
        let mut kept: Vec<PeerId> = Vec::new();
        let mut i: usize = 0;
        let ghost before = self@.connected;
        assert(Seq::new(kept@.len(), |k: int| kept@[k]@) =~= without(before.subrange(0, 0), peer@));
        while i < self.connected.len()
            invariant
                i <= self.connected@.len(),
                *self == *old(self),
                before == self@.connected,
                Seq::new(kept@.len(), |k: int| kept@[k]@) == without(
                    before.subrange(0, i as int),
                    peer@,
                ),
            decreases self.connected@.len() - i,
        {
            let ghost part = before.subrange(0, i + 1);
            let ghost kept_before = Seq::new(kept@.len(), |k: int| kept@[k]@);
            assert(part.drop_last() =~= before.subrange(0, i as int));
            assert(part.last() == self.connected@[i as int]@);
            if !bytes_eq(&self.connected[i], &peer) {
                kept.push(copy_bytes(&self.connected[i]));
                assert(Seq::new(kept@.len(), |k: int| kept@[k]@) =~= kept_before.push(part.last()));
            }
            i = i + 1;
        }
        assert(before.subrange(0, before.len() as int) =~= before);
        self.connected = kept;
        self.events.push(OutPeerNotification::PeerDisconnected { peer_id: peer });
        assert(self@.events =~= old(self)@.events.push(
            EventView::PeerDisconnected { peer_id: peer@ },
        ));
        assert(self@.deliveries =~= old(self)@.deliveries);
        assert(self@.connected =~= without(before, peer@));
    }

    /// The swarm reports bytes that a peer relayed to this node.
    pub fn inject_relayed(&mut self, src_id: PeerId, dst_id: PeerId, data: Vec<u8>)
        ensures
            final(self)@ == (BehaviourView {
                events: old(self)@.events.push(
                    EventView::Relay { src_id: src_id@, dst_id: dst_id@, data: data@ },
                ),
                ..old(self)@
            }),
    {
        self.events.push(OutPeerNotification::Relay { src_id, dst_id, data });
        assert(self@.events =~= old(self)@.events.push(
            EventView::Relay { src_id: src_id@, dst_id: dst_id@, data: data@ },
        ));
        assert(self@.deliveries =~= old(self)@.deliveries);
        assert(self@.connected =~= old(self)@.connected);
    }

    /// Forwards `data` to `dst_id` in the name of `src_id`, byte for byte, if
    /// there is a live connection to `dst_id`; does nothing otherwise.
    pub fn relay_message(&mut self, src_id: PeerId, dst_id: PeerId, data: Vec<u8>)
        ensures
            final(self)@ == relayed(old(self)@, src_id@, dst_id@, data@),
            old(self)@.connected.contains(dst_id@) ==> final(self)@.deliveries == old(
                self,
            )@.deliveries.push(
                DeliveryView::Relay { src_id: src_id@, dst_id: dst_id@, data: data@ },
            ),
            !old(self)@.connected.contains(dst_id@) ==> final(self)@ == old(self)@,
    {
        if self.is_connected(&dst_id) {
            self.deliveries.push(Delivery::Relay { src_id, dst_id, data });
            assert(self@.deliveries =~= old(self)@.deliveries.push(
                DeliveryView::Relay { src_id: src_id@, dst_id: dst_id@, data: data@ },
            ));
            assert(self@.events =~= old(self)@.events);
            assert(self@.connected =~= old(self)@.connected);
        }
    }

    /// Pushes `state` to `dst_id`, over its connection or a newly dialed one.
    pub fn send_network_state(&mut self, dst_id: PeerId, state: Vec<u8>)
        ensures
            final(self)@ == state_pushed(old(self)@, dst_id@, state@),
    {
        let dial = !self.is_connected(&dst_id);
        self.deliveries.push(Delivery::NetworkState { dst_id, state, dial });
        assert(self@.deliveries =~= old(self)@.deliveries.push(
            DeliveryView::NetworkState { dst_id: dst_id@, state: state@, dial },
        ));
        assert(self@.events =~= old(self)@.events);
        assert(self@.connected =~= old(self)@.connected);
    }

    /// Applies one command.
    pub fn apply(&mut self, command: &InPeerNotification)
        ensures
            final(self)@ == applied(old(self)@, command@),
    {
        match command {
            InPeerNotification::Relay { src_id, dst_id, data } => {
                self.relay_message(copy_bytes(src_id), copy_bytes(dst_id), copy_bytes(data));
            },
            InPeerNotification::NetworkState { dst_id, state } => {
                self.send_network_state(copy_bytes(dst_id), copy_bytes(state));
            },
        }
    }

    /// The oldest event that waits for the node, if any: at most one a call.
    pub fn pop_out_node_event(&mut self) -> (r: Option<OutPeerNotification>)
        ensures
            old(self)@.events.len() == 0 ==> r is None && final(self)@ == old(self)@,
            old(self)@.events.len() > 0 ==> r is Some && r->0@ == old(self)@.events[0]
                && final(self)@ == (BehaviourView {
                events: old(self)@.events.drop_first(),
                ..old(self)@
            }),
    {
        if self.events.len() == 0 {
            return None;
        }
        let e = self.events.remove(0);
        assert(self@.events =~= old(self)@.events.drop_first());
        assert(self@.deliveries =~= old(self)@.deliveries);
        assert(self@.connected =~= old(self)@.connected);
        assert(e@ == old(self)@.events[0]);
        Some(e)
    }

    /// The oldest delivery that waits for the wire, if any.
    pub fn pop_delivery(&mut self) -> (r: Option<Delivery>)
        ensures
            old(self)@.deliveries.len() == 0 ==> r is None && final(self)@ == old(self)@,
            old(self)@.deliveries.len() > 0 ==> r is Some && r->0@ == old(self)@.deliveries[0]
                && final(self)@ == (BehaviourView {
                deliveries: old(self)@.deliveries.drop_first(),
                ..old(self)@
            }),
    {
        if self.deliveries.len() == 0 {
            return None;
        }
        let d = self.deliveries.remove(0);
        assert(self@.deliveries =~= old(self)@.deliveries.drop_first());
        assert(self@.events =~= old(self)@.events);
        assert(self@.connected =~= old(self)@.connected);
        assert(d@ == old(self)@.deliveries[0]);
        Some(d)
    }
}

/// Where the peer service stands.
#[derive(Clone, Copy, Debug, PartialEq, Eq, Structural)]
pub enum ServicePhase {
    Running,
    /// The exit signal came.
    Exited,
    /// One of the two channels to the node lost its other end.
    ChannelClosed,
}

/// The one peer service of a node: the behaviour on its swarm, the node's
/// identity, and whether it still runs.
pub struct PeerService {
    behaviour: PeerServiceBehaviour,
    local_key: Keypair,
    phase: ServicePhase,
}

/// The mathematical value of the peer service.
pub struct ServiceView {
    pub behaviour: BehaviourView,
    pub local_peer: Seq<u8>,
    pub phase: ServicePhase,
}

impl ServiceView {
    pub open spec fn running(self) -> bool {
        self.phase == ServicePhase::Running
    }
}

impl View for PeerService {
    type V = ServiceView;

    closed spec fn view(&self) -> ServiceView {
        ServiceView {
            behaviour: self.behaviour@,
            local_peer: self.local_key.public_bytes(),
            phase: self.phase,
        }
    }
}

impl PeerService {
    /// A running service for the node with the identity `local_key`.
    pub fn new(local_key: Keypair) -> (r: PeerService)
        ensures
            r@ == (ServiceView {
                behaviour: BehaviourView {
                    connected: Seq::empty(),
                    deliveries: Seq::empty(),
                    events: Seq::empty(),
                },
                local_peer: local_key.public_bytes(),
                phase: ServicePhase::Running,
            }),
    {
        PeerService {
            behaviour: PeerServiceBehaviour::new(),
            local_key,
            phase: ServicePhase::Running,
        }
    }

    /// The node's own peer identifier.
    pub fn local_peer_id(&self) -> (r: PeerId)
        ensures
            r@ == self@.local_peer,
    {
        self.local_key.peer_id()
    }

    /// Whether the service still runs.
    pub fn is_running(&self) -> (r: bool)
        ensures
            r == self@.running(),
    {
        match self.phase {
            ServicePhase::Running => true,
            _ => false,
        }
    }

    /// Where the service stands.
    pub fn phase(&self) -> (r: ServicePhase)
        ensures
            r == self@.phase,
    {
        self.phase
    }

    /// Why the service ended, where it ended for a failure: a closed
    /// channel. A service that runs, or that got the exit signal, has none.
    pub fn failure(&self) -> (r: Option<RelayError>)
        ensures
            r == (if self@.phase == ServicePhase::ChannelClosed {
                Some(RelayError::ChannelClosed)
            } else {
                None
            }),
    {
        match self.phase {
            ServicePhase::ChannelClosed => Some(RelayError::ChannelClosed),
            _ => None,
        }
    }

    /// The first part of a tick: applies the commands that were ready, in the
    /// order of receipt. After the exit signal nothing is applied any more.
    pub fn drain(&mut self, commands: &Vec<InPeerNotification>)
        ensures
            final(self)@ == (ServiceView {
                behaviour: if old(self)@.running() {
                    applied_all(
                        old(self)@.behaviour,
                        Seq::new(commands@.len(), |i: int| commands@[i]@),
                    )
                } else {
                    old(self)@.behaviour
                },
                ..old(self)@
            }),
    {
        if !self.is_running() {
            return ;
        }
        let ghost all = Seq::new(commands@.len(), |i: int| commands@[i]@);
        let mut i: usize = 0;
        assert(all.subrange(0, 0) =~= Seq::<CommandView>::empty());
        while i < commands.len()
            invariant
                i <= commands@.len(),
                all == Seq::new(commands@.len(), |i: int| commands@[i]@),
                self.phase == old(self).phase,
                self.local_key == old(self).local_key,
                self.behaviour@ == applied_all(old(self)@.behaviour, all.subrange(0, i as int)),
            decreases commands@.len() - i,
        {
            let ghost part = all.subrange(0, i + 1);
            assert(part.drop_last() =~= all.subrange(0, i as int));
            assert(part.last() == commands@[i as int]@);
            self.behaviour.apply(&commands[i]);
            i = i + 1;
        }
        assert(all.subrange(0, all.len() as int) =~= all);
    }

    /// The swarm's reports, between the two parts of a tick.
    pub fn behaviour_mut(&mut self) -> (r: &mut PeerServiceBehaviour)
        ensures
            r@ == old(self)@.behaviour,
            final(self)@ == (ServiceView { behaviour: final(r)@, ..old(self)@ }),
    {
        &mut self.behaviour
    }

    /// The last part of a tick: the one event, if any waits, that goes to the
    /// node now. After the exit signal none goes out any more.
    pub fn forward(&mut self) -> (r: Option<OutPeerNotification>)
        ensures
            !old(self)@.running() || old(self)@.behaviour.events.len() == 0 ==> r is None
                && final(self)@ == old(self)@,
            old(self)@.running() && old(self)@.behaviour.events.len() > 0 ==> r is Some && r->0@
                == old(self)@.behaviour.events[0] && final(self)@ == (ServiceView {
                behaviour: BehaviourView {
                    events: old(self)@.behaviour.events.drop_first(),
                    ..old(self)@.behaviour
                },
                ..old(self)@
            }),
    {
        if !self.is_running() {
            return None;
        }
        self.behaviour.pop_out_node_event()
    }

    /// The exit signal: a running service stops for good.
    pub fn exit(&mut self)
        ensures
            final(self)@ == (ServiceView {
                phase: if old(self)@.running() {
                    ServicePhase::Exited
                } else {
                    old(self)@.phase
                },
                ..old(self)@
            }),
    {
        if self.is_running() {
            self.phase = ServicePhase::Exited;
        }
    }

    /// A channel to the node lost its other end: a running service stops for
    /// good, and the failure is handed back for the log.
    pub fn channel_closed(&mut self) -> (r: Option<RelayError>)
        ensures
            final(self)@ == (ServiceView {
                phase: if old(self)@.running() {
                    ServicePhase::ChannelClosed
                } else {
                    old(self)@.phase
                },
                ..old(self)@
            }),
            r == (if old(self)@.running() {
                Some(RelayError::ChannelClosed)
            } else {
                None
            }),
    {
        if self.is_running() {
            self.phase = ServicePhase::ChannelClosed;
            Some(RelayError::ChannelClosed)
        } else {
            None
        }
    }
}

} // verus!
