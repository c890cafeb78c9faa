//! Call envelopes and the two builders that make them.

use uuid::Uuid;
use vstd::prelude::*;
use vstd::string::StringExecFns;
use vstd::string::StringSliceAdditionalSpecFns;

use crate::address::{encode, relay_path, verifies, Address, Protocol, Segment};
use crate::error::RelayError;
use crate::identity::{ed25519_signature, Keypair, PeerId};

verus! {

/// One entry of an envelope's payload: a key, and a text value or none.
#[derive(Debug)]
pub struct Argument {
    pub key: String,
    pub value: Option<String>,
}

/// The mathematical value of a payload entry.
pub struct ArgumentView {
    pub key: Seq<char>,
    pub value: Option<Seq<char>>,
}

impl View for Argument {
    type V = ArgumentView;

    open spec fn view(&self) -> ArgumentView {
        ArgumentView {
            key: self.key@,
            value: match self.value {
                Some(v) => Some(v@),
                None => None,
            },
        }
    }
}

/// The unit of routed work: an identifier, where it goes, the signed path
/// for the answer, the payload, and a label for people.
#[derive(Debug)]
pub struct FunctionCall {
    pub uuid: String,
    pub target: Option<Address>,
    pub reply_to: Option<Address>,
    pub arguments: Vec<Argument>,
    pub name: Option<String>,
}

/// The mathematical value of an envelope.
pub struct CallView {
    pub uuid: Seq<char>,
    pub target: Option<Seq<Segment>>,
    pub reply_to: Option<Seq<Segment>>,
    pub arguments: Seq<ArgumentView>,
    pub name: Option<Seq<char>>,
}

impl View for FunctionCall {
    type V = CallView;

    open spec fn view(&self) -> CallView {
        CallView {
            uuid: self.uuid@,
            target: match self.target {
                Some(a) => Some(a@),
                None => None,
            },
            reply_to: match self.reply_to {
                Some(a) => Some(a@),
                None => None,
            },
            arguments: Seq::new(self.arguments@.len(), |i: int| self.arguments@[i]@),
            name: match self.name {
                Some(n) => Some(n@),
                None => None,
            },
        }
    }
}

impl FunctionCall {
    /// Whether the envelope may leave the node: it has a target, and its
    /// reply path, if it has one, carries a signature that verifies.
    pub open spec fn sendable(call: CallView) -> bool {
        &&& call.target is Some
        &&& call.reply_to matches Some(path) ==> verifies(path)
    }

    /// Checks the envelope before a send. One with no target, or with a
    /// reply path that does not verify, is refused with `InvalidAddress`.
    pub fn validate(&self) -> (r: Result<(), RelayError>)
        ensures
            r is Ok <==> Self::sendable(self@),
            r matches Err(e) ==> e == RelayError::InvalidAddress,
    {
        if self.target.is_none() {
            return Err(RelayError::InvalidAddress);
        }
        match &self.reply_to {
            Some(path) => {
                if path.verify() {
                    Ok(())
                } else {
                    Err(RelayError::InvalidAddress)
                }
            },
            None => Ok(()),
        }
    }
}

/// The reply path to `client` through `relay`, with the signature that the
/// seed `secret` makes of its byte form.
pub open spec fn signed_relay_path(relay: Seq<u8>, client: Seq<u8>, secret: Seq<u8>) -> Seq<
    Segment,
> {
    let path = seq![Segment::Peer(relay), Segment::Peer(client)];
    path.push(Segment::Signature(ed25519_signature(secret, encode(path))))
}

/// The envelope that asks the relay to register `service_id` for `client`.
pub open spec fn registration_call(
    uuid: Seq<char>,
    client: Seq<u8>,
    relay: Seq<u8>,
    service_id: Seq<char>,
    secret: Seq<u8>,
) -> CallView {
    CallView {
        uuid,
        target: Some(seq![Segment::Service("provide".spec_bytes())]),
        reply_to: Some(signed_relay_path(relay, client, secret)),
        arguments: seq![ArgumentView { key: "service_id"@, value: Some(service_id) }],
        name: Some("Delegate provide service "@ + service_id),
    }
}

/// The envelope that answers a call: it goes to the caller's reply address
/// and carries the payload and the identifier of the call it answers.
pub open spec fn reply_call(
    uuid: Seq<char>,
    relay: Seq<u8>,
    client: Seq<u8>,
    destination: Seq<Segment>,
    msg_id: Option<Seq<char>>,
    multiaddr: Seq<char>,
    secret: Seq<u8>,
) -> CallView {
    CallView {
        uuid,
        target: Some(destination),
        reply_to: Some(signed_relay_path(relay, client, secret)),
        arguments: seq![
            ArgumentView { key: "multiaddr"@, value: Some(multiaddr) },
            ArgumentView { key: "msg_id"@, value: msg_id },
        ],
        name: Some("Reply on IPFS.multiaddr"@),
    }
}

/// Calls `Uuid::new_v4` and renders the identifier with `to_string`.
/// Trusted: the text is the hyphenated form, 36 characters long. Which
/// identifier comes back is left open: it is random.
#[verifier::external_body]
pub(crate) fn message_id() -> (r: String)
    ensures
        r@.len() == 36,
{
    Uuid::new_v4().to_string()
}

/// The signed reply path to `client` through `relay`. Fails with
/// `InvalidAddress` unless `client` is the keypair's own peer.
pub fn signed_reply_path(relay: PeerId, client: PeerId, keypair: &Keypair) -> (r: Result<
    Address,
    RelayError,
>)
    ensures
        r is Ok <==> client@ == keypair.public_bytes(),
        r matches Ok(a) ==> verifies(a@) && a@ == signed_relay_path(
            relay@,
            client@,
            keypair.secret_bytes(),
        ),
        r matches Err(e) ==> e == RelayError::InvalidAddress,
{
    let path = relay_path(relay, client);
    proof {
        let p = path@;
        assert(p.last() == Segment::Peer(client@));
        assert(crate::address::signer_of(p) == Some(client@));
        assert(crate::address::unsigned(p));
    }
    path.signed(keypair)
}

/// The registration envelope with the identifier `uuid`.
pub fn register_call_with_id(
    uuid: String,
    client: PeerId,
    relay: PeerId,
    service_id: &str,
    keypair: &Keypair,
) -> (r: Result<FunctionCall, RelayError>)
    ensures
        r is Ok <==> client@ == keypair.public_bytes(),
        r matches Ok(call) ==> call@ == registration_call(
            uuid@,
            client@,
            relay@,
            service_id@,
            keypair.secret_bytes(),
        ) && verifies(call@.reply_to->0),
        r matches Err(e) ==> e == RelayError::InvalidAddress,
{
    let reply_to = match signed_reply_path(relay, client, keypair) {
        Ok(a) => a,
        Err(e) => {
            return Err(e);
        },
    };
    let target = Address::from_protocol(Protocol::service("provide"));
    let mut arguments: Vec<Argument> = Vec::new();
    arguments.push(
        Argument { key: String::from_str("service_id"), value: Some(String::from_str(service_id)) },
    );
    let name = String::from_str("Delegate provide service ").concat(service_id);
    let call = FunctionCall {
        uuid,
        target: Some(target),
        reply_to: Some(reply_to),
        arguments,
        name: Some(name),
    };
    proof {
        let want = registration_call(
            uuid@,
            client@,
            relay@,
            service_id@,
            keypair.secret_bytes(),
        );
        assert(call@.arguments =~= want.arguments);
        assert(call@.target->0 =~= want.target->0);
    }
    Ok(call)
}

/// A registration envelope with a fresh random identifier.
pub fn register_call(client: PeerId, relay: PeerId, service_id: &str, keypair: &Keypair) -> (r:
    Result<FunctionCall, RelayError>)
    ensures
        r is Ok <==> client@ == keypair.public_bytes(),
        r matches Ok(call) ==> call@ == registration_call(
            call@.uuid,
            client@,
            relay@,
            service_id@,
            keypair.secret_bytes(),
        ) && call@.uuid.len() == 36 && verifies(call@.reply_to->0),
        r matches Ok(call) ==> call@.target == Some(
            seq![Segment::Service("provide".spec_bytes())],
        ),
        r matches Err(e) ==> e == RelayError::InvalidAddress,
{
    register_call_with_id(message_id(), client, relay, service_id, keypair)
}

/// The reply envelope with the identifier `uuid`.
pub fn multiaddr_call_with_id(
    uuid: String,
    bootstrap_id: PeerId,
    client: PeerId,
    reply_to: Address,
    msg_id: Option<&str>,
    multiaddr: &str,
    keypair: &Keypair,
) -> (r: Result<FunctionCall, RelayError>)
    ensures
        r is Ok <==> client@ == keypair.public_bytes(),
        r matches Ok(call) ==> call@ == reply_call(
            uuid@,
            bootstrap_id@,
            client@,
            reply_to@,
            match msg_id {
                Some(m) => Some(m@),
                None => None,
            },
            multiaddr@,
            keypair.secret_bytes(),
        ) && verifies(call@.reply_to->0),
        r matches Err(e) ==> e == RelayError::InvalidAddress,
{
    let target = reply_to;
    let signed = match signed_reply_path(bootstrap_id, client, keypair) {
        Ok(a) => a,
        Err(e) => {
            return Err(e);
        },
    };
    let correlation = match msg_id {
        Some(m) => Some(String::from_str(m)),
        None => None,
    };
    let mut arguments: Vec<Argument> = Vec::new();
    arguments.push(
        Argument { key: String::from_str("multiaddr"), value: Some(String::from_str(multiaddr)) },
    );
    arguments.push(Argument { key: String::from_str("msg_id"), value: correlation });
    let call = FunctionCall {
        uuid,
        target: Some(target),
        reply_to: Some(signed),
        arguments,
        name: Some(String::from_str("Reply on IPFS.multiaddr")),
    };
    proof {
        let want = reply_call(
            uuid@,
            bootstrap_id@,
            client@,
            reply_to@,
            match msg_id {
                Some(m) => Some(m@),
                None => None,
            },
            multiaddr@,
            keypair.secret_bytes(),
        );
        assert(call@.arguments =~= want.arguments);
    }
    Ok(call)
}

/// A reply envelope with a fresh random identifier.
pub fn multiaddr_call(
    bootstrap_id: PeerId,
    client: PeerId,
    reply_to: Address,
    msg_id: Option<&str>,
    multiaddr: &str,
    keypair: &Keypair,
) -> (r: Result<FunctionCall, RelayError>)
    ensures
        r is Ok <==> client@ == keypair.public_bytes(),
        r matches Ok(call) ==> call@ == reply_call(
            call@.uuid,
            bootstrap_id@,
            client@,
            reply_to@,
            match msg_id {
                Some(m) => Some(m@),
                None => None,
            },
            multiaddr@,
            keypair.secret_bytes(),
        ) && call@.uuid.len() == 36 && verifies(call@.reply_to->0),
        r matches Err(e) ==> e == RelayError::InvalidAddress,
{
    multiaddr_call_with_id(message_id(), bootstrap_id, client, reply_to, msg_id, multiaddr, keypair)
}

} // verus!
