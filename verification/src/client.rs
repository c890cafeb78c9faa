//! The decisions of the client's event loop: what to do on each network
//! event, timer tick and stop signal. The loop itself waits on the three
//! sources and performs the actions decided here.

use vstd::prelude::*;
use vstd::string::StringExecFns;
use vstd::string::StringSliceAdditionalSpecFns;

use crate::address::{Protocol, Segment};
use crate::call::{
    message_id, multiaddr_call_with_id, register_call_with_id, registration_call, reply_call,
    Argument, ArgumentView, CallView, FunctionCall,
};
use crate::error::RelayError;
use crate::bytes::copy_bytes;
use crate::identity::{Keypair, PeerId};

verus! {

/// What the client transport reports.
#[derive(Debug)]
pub enum ClientEvent {
    /// A call arrived from `sender`.
    FunctionCall { call: FunctionCall, sender: PeerId },
    /// A connection to `peer_id` at `multiaddr` was made.
    NewConnection { peer_id: PeerId, multiaddr: String },
    /// Anything else; it is ignored.
    Other,
}

/// One thing that the loop woke up for.
#[derive(Debug)]
pub enum Input {
    /// The transport reported an event.
    Event(ClientEvent),
    /// The transport closed.
    Closed,
    /// The periodic timer fired.
    Tick,
    /// The stop signal came.
    Stop,
}

/// What the loop has to do after an input.
#[derive(Debug)]
pub enum Action {
    /// Nothing.
    Idle,
    /// Nothing can be sent now; the reason is logged.
    Skip(RelayError),
    /// Hand a registration call to the transport, for `node`.
    Register { node: PeerId, call: FunctionCall },
    /// Hand a reply call to the transport, for `node`.
    Reply { node: PeerId, call: FunctionCall },
    /// Leave the loop: tell the transport to stop and wait for its end.
    StopTransport,
}

/// Where the loop stands.
#[derive(Clone, Copy, Debug, PartialEq, Eq, Structural)]
pub enum Phase {
    Running,
    StoppedBySignal,
    StoppedByClosedTransport,
}

pub enum EventView {
    FunctionCall { call: CallView, sender: Seq<u8> },
    NewConnection { peer_id: Seq<u8>, multiaddr: Seq<char> },
    Other,
}

pub enum InputView {
    Event(EventView),
    Closed,
    Tick,
    Stop,
}

pub enum ActionView {
    Idle,
    Skip(RelayError),
    Register { node: Seq<u8>, call: CallView },
    Reply { node: Seq<u8>, call: CallView },
    StopTransport,
}

/// The mathematical value of the loop's state.
pub struct StateView {
    pub bootstrap: Seq<char>,
    pub ipfs: Seq<char>,
    pub service_id: Seq<char>,
    pub service: Segment,
    pub peer: Seq<u8>,
    pub secret: Seq<u8>,
    pub relay: Option<Seq<u8>>,
    pub ticks_left: nat,
    pub phase: Phase,
}

impl View for ClientEvent {
    type V = EventView;

    open spec fn view(&self) -> EventView {
        match self {
            ClientEvent::FunctionCall { call, sender } => EventView::FunctionCall {
                call: call@,
                sender: sender@,
            },
            ClientEvent::NewConnection { peer_id, multiaddr } => EventView::NewConnection {
                peer_id: peer_id@,
                multiaddr: multiaddr@,
            },
            ClientEvent::Other => EventView::Other,
        }
    }
}

impl View for Input {
    type V = InputView;

    open spec fn view(&self) -> InputView {
        match self {
            Input::Event(e) => InputView::Event(e@),
            Input::Closed => InputView::Closed,
            Input::Tick => InputView::Tick,
            Input::Stop => InputView::Stop,
        }
    }
}

impl View for Action {
    type V = ActionView;

    open spec fn view(&self) -> ActionView {
        match self {
            Action::Idle => ActionView::Idle,
            Action::Skip(e) => ActionView::Skip(*e),
            Action::Register { node, call } => ActionView::Register { node: node@, call: call@ },
            Action::Reply { node, call } => ActionView::Reply { node: node@, call: call@ },
            Action::StopTransport => ActionView::StopTransport,
        }
    }
}

/// The value of the first entry with the key `key`, if that entry has one.
pub open spec fn lookup(args: Seq<ArgumentView>, key: Seq<char>) -> Option<Seq<char>>
    decreases args.len(),
{
    if args.len() == 0 {
        None
    } else if args[0].key == key {
        args[0].value
    } else {
        lookup(args.drop_first(), key)
    }
}

/// Whether a call is one that this node answers: it has a target that names
/// the node's service, and a reply address.
pub open spec fn addressed_to(call: CallView, service: Segment) -> bool {
    &&& call.target matches Some(target)
    &&& target.contains(service)
    &&& call.reply_to is Some
}

/// The state and the action that follow an input, where `uuid` is the
/// identifier that a new envelope gets.
pub open spec fn next(s: StateView, input: InputView, uuid: Seq<char>) -> (StateView, ActionView) {
    if s.phase != Phase::Running {
        (s, ActionView::Idle)
    } else {
        match input {
            InputView::Stop => (
                StateView { phase: Phase::StoppedBySignal, ..s },
                ActionView::StopTransport,
            ),
            InputView::Closed => (
                StateView { phase: Phase::StoppedByClosedTransport, ..s },
                ActionView::StopTransport,
            ),
            InputView::Tick => if s.ticks_left == 0 {
                (s, ActionView::Idle)
            } else {
                let after = StateView { ticks_left: (s.ticks_left - 1) as nat, ..s };
                match s.relay {
                    Some(relay) => (
                        after,
                        ActionView::Register {
                            node: relay,
                            call: registration_call(uuid, s.peer, relay, s.service_id, s.secret),
                        },
                    ),
                    None => (after, ActionView::Skip(RelayError::NoActiveRelay)),
                }
            },
            InputView::Event(EventView::NewConnection { peer_id, multiaddr }) => if multiaddr
                == s.bootstrap {
                (StateView { relay: Some(peer_id), ..s }, ActionView::Idle)
            } else {
                (s, ActionView::Idle)
            },
            InputView::Event(EventView::FunctionCall { call, sender }) => if addressed_to(
                call,
                s.service,
            ) {
                match s.relay {
                    Some(relay) => (
                        s,
                        ActionView::Reply {
                            node: relay,
                            call: reply_call(
                                uuid,
                                relay,
                                s.peer,
                                call.reply_to->0,
                                lookup(call.arguments, "msg_id"@),
                                s.ipfs,
                                s.secret,
                            ),
                        },
                    ),
                    None => (s, ActionView::Skip(RelayError::NoActiveRelay)),
                }
            } else {
                (s, ActionView::Idle)
            },
            InputView::Event(EventView::Other) => (s, ActionView::Idle),
        }
    }
}

/// The value of the first argument with the key `key`.
pub fn find_argument<'a>(args: &'a Vec<Argument>, key: &str) -> (r: Option<&'a String>)
    ensures
        (match r {
            Some(v) => Some(v@),
            None => None,
        }) == lookup(Seq::new(args@.len(), |i: int| args@[i]@), key@),
{
    let ghost all = Seq::new(args@.len(), |i: int| args@[i]@);
    let wanted = String::from_str(key);
    let mut i: usize = 0;
    assert(all.subrange(0, all.len() as int) =~= all);
    while i < args.len()
        invariant
            i <= args@.len(),
            wanted@ == key@,
            all == Seq::new(args@.len(), |i: int| args@[i]@),
            lookup(all, key@) == lookup(all.subrange(i as int, all.len() as int), key@),
        decreases args@.len() - i,
    {
        let ghost rest = all.subrange(i as int, all.len() as int);
        assert(rest[0] == args@[i as int]@);
        assert(rest.drop_first() =~= all.subrange(i + 1, all.len() as int));
        if args[i].key == wanted {
            return match &args[i].value {
                Some(v) => Some(v),
                None => None,
            };
        }
        i = i + 1;
    }
    None
}

/// The client loop's state: its configuration, its identity, the relay it
/// has seen, how many timer ticks are still to come, and whether it runs.
pub struct Orchestrator {
    bootstrap: String,
    ipfs: String,
    service_id: String,
    service: Protocol,
    keypair: Keypair,
    relay: Option<PeerId>,
    ticks_left: u64,
    phase: Phase,
}

impl View for Orchestrator {
    type V = StateView;

    closed spec fn view(&self) -> StateView {
        StateView {
            bootstrap: self.bootstrap@,
            ipfs: self.ipfs@,
            service_id: self.service_id@,
            service: self.service@,
            peer: self.keypair.public_bytes(),
            secret: self.keypair.secret_bytes(),
            relay: match self.relay {
                Some(r) => Some(r@),
                None => None,
            },
            ticks_left: self.ticks_left as nat,
            phase: self.phase,
        }
    }
}

impl Orchestrator {
    /// A running loop that has seen no relay yet and whose timer will fire
    /// `max_ticks` times.
    pub fn new(
        bootstrap: String,
        ipfs: String,
        service_id: &str,
        keypair: Keypair,
        max_ticks: u64,
    ) -> (r: Orchestrator)
        ensures
            r@ == (StateView {
                bootstrap: bootstrap@,
                ipfs: ipfs@,
                service_id: service_id@,
                service: Segment::Service(service_id.spec_bytes()),
                peer: keypair.public_bytes(),
                secret: keypair.secret_bytes(),
                relay: None,
                ticks_left: max_ticks as nat,
                phase: Phase::Running,
            }),
    {
        Orchestrator {
            bootstrap,
            ipfs,
            service_id: String::from_str(service_id),
            service: Protocol::service(service_id),
            keypair,
            relay: None,
            ticks_left: max_ticks,
            phase: Phase::Running,
        }
    }

    /// Where the loop stands.
    pub fn phase(&self) -> (r: Phase)
        ensures
            r == self@.phase,
    {
        self.phase
    }

    /// Whether the loop still runs.
    pub fn is_running(&self) -> (r: bool)
        ensures
            r == (self@.phase == Phase::Running),
    {
        match self.phase {
            Phase::Running => true,
            _ => false,
        }
    }

    /// Why the loop ended, where it ended for a failure: the transport
    /// closed. A loop that runs, or that got the stop signal, has none.
    pub fn failure(&self) -> (r: Option<RelayError>)
        ensures
            r == (if self@.phase == Phase::StoppedByClosedTransport {
                Some(RelayError::TransportClosed)
            } else {
                None
            }),
    {
        match self.phase {
            Phase::StoppedByClosedTransport => Some(RelayError::TransportClosed),
            _ => None,
        }
    }

    /// Whether the timer has ticks left.
    pub fn timer_active(&self) -> (r: bool)
        ensures
            r == (self@.ticks_left > 0),
    {
        self.ticks_left > 0
    }

    /// The relay that the loop sends through, once one has connected.
    pub fn relay(&self) -> (r: Option<&PeerId>)
        ensures
            (match r {
                Some(p) => Some(p@),
                None => None,
            }) == self@.relay,
    {
        match &self.relay {
            Some(p) => Some(p),
            None => None,
        }
    }

    /// Takes one input and decides, where `uuid` is the identifier for the
    /// envelope that may have to be made.
    pub fn step_with_id(&mut self, input: Input, uuid: String) -> (r: Action)
        ensures
            (final(self)@, r@) == next(old(self)@, input@, uuid@),
    {
        if !self.is_running() {
            return Action::Idle;
        }
        match input {
            Input::Stop => {
                self.phase = Phase::StoppedBySignal;
                Action::StopTransport
            },
            Input::Closed => {
                self.phase = Phase::StoppedByClosedTransport;
                Action::StopTransport
            },
            Input::Tick => {
                if self.ticks_left == 0 {
                    return Action::Idle;
                }
                self.ticks_left = self.ticks_left - 1;
                match &self.relay {
                    Some(relay) => {
                        let node = copy_bytes(relay);
                        let made = register_call_with_id(
                            uuid,
                            self.keypair.peer_id(),
                            copy_bytes(relay),
                            self.service_id.as_str(),
                            &self.keypair,
                        );
                        match made {
                            Ok(call) => Action::Register { node, call },
                            Err(e) => Action::Skip(e),
                        }
                    },
                    None => Action::Skip(RelayError::NoActiveRelay),
                }
            },
            Input::Event(ClientEvent::NewConnection { peer_id, multiaddr }) => {
                if multiaddr == self.bootstrap {
                    self.relay = Some(peer_id);
                }
                Action::Idle
            },
            Input::Event(ClientEvent::FunctionCall { call, sender }) => {
                let FunctionCall { uuid: _, target, reply_to, arguments, name: _ } = call;
                let wanted = match &target {
                    Some(t) => t.contains(&self.service),
                    None => false,
                };
                match (wanted, reply_to, &self.relay) {
                    (true, Some(destination), Some(relay)) => {
                        let node = copy_bytes(relay);
                        let msg_id = match find_argument(&arguments, "msg_id") {
                            Some(v) => Some(v.as_str()),
                            None => None,
                        };
                        let made = multiaddr_call_with_id(
                            uuid,
                            copy_bytes(relay),
                            self.keypair.peer_id(),
                            destination,
                            msg_id,
                            self.ipfs.as_str(),
                            &self.keypair,
                        );
                        match made {
                            Ok(call) => Action::Reply { node, call },
                            Err(e) => Action::Skip(e),
                        }
                    },
                    (true, Some(_), None) => Action::Skip(RelayError::NoActiveRelay),
                    _ => Action::Idle,
                }
            },
            Input::Event(ClientEvent::Other) => Action::Idle,
        }
    }

    /// Takes one input and decides; an envelope that has to be made gets a
    /// fresh random identifier.
    pub fn step(&mut self, input: Input) -> (r: Action)
        ensures
            exists|id: Seq<char>|
                id.len() == 36 && (final(self)@, r@) == #[trigger] next(old(self)@, input@, id),
    {
        let uuid = message_id();
        self.step_with_id(input, uuid)
    }
}

/// The state after a run of inputs and the actions decided on the way, where
/// the envelope made at the input number `i` gets the identifier `ids(i)`.
pub open spec fn run(s: StateView, inputs: Seq<InputView>, ids: spec_fn(int) -> Seq<char>) -> (
    StateView,
    Seq<ActionView>,
)
    decreases inputs.len(),
{
    if inputs.len() == 0 {
        (s, Seq::empty())
    } else {
        let before = run(s, inputs.drop_last(), ids);
        let last = next(before.0, inputs.last(), ids(inputs.len() - 1));
        (last.0, before.1.push(last.1))
    }
}

/// How many of the actions tell the transport to stop.
pub open spec fn stops(acts: Seq<ActionView>) -> nat
    decreases acts.len(),
{
    if acts.len() == 0 {
        0
    } else {
        stops(acts.drop_last()) + if acts.last() is StopTransport {
            1nat
        } else {
            0nat
        }
    }
}

/// How many of the actions send a registration call.
pub open spec fn registrations(acts: Seq<ActionView>) -> nat
    decreases acts.len(),
{
    if acts.len() == 0 {
        0
    } else {
        registrations(acts.drop_last()) + if acts.last() is Register {
            1nat
        } else {
            0nat
        }
    }
}

/// No input reports a connection at the address `bootstrap`.
pub open spec fn never_connects(bootstrap: Seq<char>, inputs: Seq<InputView>) -> bool {
    forall|i: int|
        0 <= i < inputs.len() ==> !(#[trigger] inputs[i] matches InputView::Event(
            EventView::NewConnection { multiaddr, .. },
        ) && multiaddr == bootstrap)
}

/// A running loop that gets the stop signal, or whose transport closes, has
/// left the running phase after that one input, whatever came before and
/// whatever comes after; and over any run of inputs the transport is told to
/// stop exactly once if the loop has ended, and not at all if it still runs.
pub proof fn lemma_stops_once(s: StateView, inputs: Seq<InputView>, ids: spec_fn(int) -> Seq<char>)
    requires
        s.phase == Phase::Running,
    ensures
        stops(run(s, inputs, ids).1) == (if run(s, inputs, ids).0.phase == Phase::Running {
            0nat
        } else {
            1nat
        }),
        forall|i: int|
            0 <= i < inputs.len() && (#[trigger] inputs[i] is Stop || inputs[i] is Closed)
                ==> run(s, inputs, ids).0.phase != Phase::Running,
    decreases inputs.len(),
{
    if inputs.len() > 0 {
        let shorter = inputs.drop_last();
        lemma_stops_once(s, shorter, ids);
        let before = run(s, shorter, ids);
        let last = next(before.0, inputs.last(), ids(inputs.len() - 1));
        assert(before.1.push(last.1).drop_last() =~= before.1);
        assert forall|i: int|
            0 <= i < inputs.len() && (#[trigger] inputs[i] is Stop
                || inputs[i] is Closed) implies run(s, inputs, ids).0.phase
            != Phase::Running by {
            if i < inputs.len() - 1 {
                assert(shorter[i] == inputs[i]);
            }
        }
    }
}

/// Over any run of inputs the loop sends no more registration calls than its
/// timer had ticks to give; and while no relay is known and none connects at
/// the bootstrap address, it sends none.
pub proof fn lemma_registrations_bounded(
    s: StateView,
    inputs: Seq<InputView>,
    ids: spec_fn(int) -> Seq<char>,
)
    ensures
        run(s, inputs, ids).0.bootstrap == s.bootstrap,
        registrations(run(s, inputs, ids).1) + run(s, inputs, ids).0.ticks_left <= s.ticks_left,
        s.relay is None && never_connects(s.bootstrap, inputs) ==> registrations(
            run(s, inputs, ids).1,
        ) == 0 && run(s, inputs, ids).0.relay is None,
    decreases inputs.len(),
{
    if inputs.len() > 0 {
        let shorter = inputs.drop_last();
        lemma_registrations_bounded(s, shorter, ids);
        let before = run(s, shorter, ids);
        let last = next(before.0, inputs.last(), ids(inputs.len() - 1));
        assert(before.1.push(last.1).drop_last() =~= before.1);
        if s.relay is None && never_connects(s.bootstrap, inputs) {
            assert forall|i: int| 0 <= i < shorter.len() implies !(#[trigger] shorter[i] matches InputView::Event(
                EventView::NewConnection { multiaddr, .. },
            ) && multiaddr == s.bootstrap) by {
                assert(shorter[i] == inputs[i]);
            }
            assert(inputs.last() == inputs[inputs.len() - 1]);
        }
    }
}

} // verus!
