use std::collections::HashSet;

use janus_relay::address::{relay_path, Address, Protocol};
use janus_relay::call::{
    Argument, FunctionCall, multiaddr_call, multiaddr_call_with_id, register_call, register_call_with_id,
    signed_reply_path,
};
use janus_relay::error::RelayError;
use janus_relay::identity::Keypair;

fn node() -> Keypair {
    Keypair::from_secret(vec![11u8; 32]).unwrap()
}

fn relay() -> Vec<u8> {
    Keypair::from_secret(vec![22u8; 32]).unwrap().peer_id()
}

#[test]
fn registration_call_has_the_provide_target_and_a_verified_reply_path() {
    let kp = node();
    let call = register_call(kp.peer_id(), relay(), "IPFS.multiaddr", &kp).unwrap();
    let target = call.target.unwrap();
    assert!(target.same_as(&Address::from_protocol(Protocol::service("provide"))));
    let reply_to = call.reply_to.unwrap();
    assert!(reply_to.verify());
    assert_eq!(reply_to.len(), 3);
    assert!(reply_to.prefix(2).same_as(&relay_path(relay(), kp.peer_id())));
    assert_eq!(call.arguments.len(), 1);
    assert_eq!(call.arguments[0].key, "service_id");
    assert_eq!(call.arguments[0].value.as_deref(), Some("IPFS.multiaddr"));
    assert_eq!(call.name.as_deref(), Some("Delegate provide service IPFS.multiaddr"));
    assert_eq!(call.uuid.len(), 36);
}

#[test]
fn registration_call_keeps_the_given_identifier() {
    let kp = node();
    let call =
        register_call_with_id("id-1".to_string(), kp.peer_id(), relay(), "s", &kp).unwrap();
    assert_eq!(call.uuid, "id-1");
    assert_eq!(call.name.as_deref(), Some("Delegate provide service s"));
}

#[test]
fn reply_call_goes_to_the_reply_address() {
    let kp = node();
    let destination = relay_path(vec![5], vec![6]).append(Protocol::Signature(vec![7]));
    let call = multiaddr_call(
        relay(),
        kp.peer_id(),
        destination.duplicate(),
        Some("m-42"),
        "/ip4/127.0.0.1/tcp/5001",
        &kp,
    )
    .unwrap();
    assert!(call.target.unwrap().same_as(&destination));
    let reply_to = call.reply_to.unwrap();
    assert!(reply_to.verify());
    assert!(reply_to.prefix(2).same_as(&relay_path(relay(), kp.peer_id())));
    assert_eq!(call.arguments.len(), 2);
    assert_eq!(call.arguments[0].key, "multiaddr");
    assert_eq!(call.arguments[0].value.as_deref(), Some("/ip4/127.0.0.1/tcp/5001"));
    assert_eq!(call.arguments[1].key, "msg_id");
    assert_eq!(call.arguments[1].value.as_deref(), Some("m-42"));
    assert_eq!(call.name.as_deref(), Some("Reply on IPFS.multiaddr"));
    assert_eq!(call.uuid.len(), 36);
}

#[test]
fn reply_call_without_correlation_id() {
    let kp = node();
    let call = multiaddr_call_with_id(
        "u".to_string(),
        relay(),
        kp.peer_id(),
        Address::empty(),
        None,
        "addr",
        &kp,
    )
    .unwrap();
    assert_eq!(call.uuid, "u");
    assert_eq!(call.arguments[1].key, "msg_id");
    assert_eq!(call.arguments[1].value, None);
    assert_eq!(call.target.unwrap().len(), 0);
}

#[test]
fn builders_refuse_a_key_that_is_not_the_clients() {
    let kp = node();
    let r = register_call(relay(), kp.peer_id(), "s", &kp);
    assert!(matches!(r, Err(RelayError::InvalidAddress)));
    let r = multiaddr_call(kp.peer_id(), relay(), Address::empty(), None, "a", &kp);
    assert!(matches!(r, Err(RelayError::InvalidAddress)));
    let r = signed_reply_path(kp.peer_id(), relay(), &kp);
    assert!(matches!(r, Err(RelayError::InvalidAddress)));
}

#[test]
fn identifiers_are_hyphenated_and_fresh() {
    let kp = node();
    let a = register_call(kp.peer_id(), relay(), "s", &kp).unwrap().uuid;
    let b = register_call(kp.peer_id(), relay(), "s", &kp).unwrap().uuid;
    assert_ne!(a, b);
    for id in [a, b] {
        let bytes = id.as_bytes();
        assert_eq!(bytes.len(), 36);
        for (i, c) in bytes.iter().enumerate() {
            if i == 8 || i == 13 || i == 18 || i == 23 {
                assert_eq!(*c, b'-');
            } else {
                assert!(c.is_ascii_hexdigit());
            }
        }
    }
}

#[test]
fn ten_thousand_envelopes_have_distinct_identifiers() {
    let kp = node();
    let mut seen = HashSet::new();
    for i in 0..10_000 {
        let call = if i % 2 == 0 {
            register_call(kp.peer_id(), relay(), "IPFS.multiaddr", &kp).unwrap()
        } else {
            multiaddr_call(relay(), kp.peer_id(), Address::empty(), Some("m"), "a", &kp).unwrap()
        };
        assert!(seen.insert(call.uuid));
    }
    assert_eq!(seen.len(), 10_000);
}

#[test]
fn envelope_without_target_is_not_sendable() {
    let kp = node();
    let mut call = register_call(kp.peer_id(), relay(), "s", &kp).unwrap();
    assert!(call.validate().is_ok());
    call.target = None;
    assert!(matches!(call.validate(), Err(RelayError::InvalidAddress)));
}

#[test]
fn envelope_with_unsigned_reply_path_is_not_sendable() {
    let kp = node();
    let call = FunctionCall {
        uuid: "u".to_string(),
        target: Some(Address::from_protocol(Protocol::service("provide"))),
        reply_to: Some(relay_path(relay(), kp.peer_id())),
        arguments: vec![Argument { key: "k".to_string(), value: None }],
        name: None,
    };
    assert!(matches!(call.validate(), Err(RelayError::InvalidAddress)));
    let bare = FunctionCall { reply_to: None, ..call };
    assert!(bare.validate().is_ok());
}
