use janus_relay::address::{relay_path, Address, Protocol};
use janus_relay::error::RelayError;
use janus_relay::identity::{verify_signature, Keypair};

fn hex(s: &str) -> Vec<u8> {
    (0..s.len() / 2)
        .map(|i| u8::from_str_radix(&s[2 * i..2 * i + 2], 16).unwrap())
        .collect()
}

fn seed_one() -> Vec<u8> {
    hex("9d61b19deffd5a60ba844af492ec2cc44449c5697b326919703bac031cae7f60")
}

fn key_one() -> Keypair {
    Keypair::from_secret(seed_one()).unwrap()
}

fn key_two() -> Keypair {
    Keypair::from_secret(vec![7u8; 32]).unwrap()
}

#[test]
fn keypair_refuses_seed_of_wrong_length() {
    assert!(Keypair::from_secret(vec![1u8; 31]).is_none());
    assert!(Keypair::from_secret(vec![1u8; 33]).is_none());
    assert!(Keypair::from_secret(Vec::new()).is_none());
    assert!(Keypair::from_secret(vec![1u8; 32]).is_some());
}

#[test]
fn public_key_of_known_seed() {
    let want = hex("d75a980182b10ab7d54bfed3c964073a0ee172f3daa62325af021a68f707511a");
    assert_eq!(key_one().peer_id(), want);
    assert_ne!(key_one().peer_id(), seed_one());
}

#[test]
fn signature_of_known_seed_and_empty_message() {
    let want = hex(
        "e5564300c360ac729086e2cc806e828a84877f1eb8e5d974d873e06522490155\
         5fb8821590a33bacc61e39701cf9b46bd25bf5f0595bbe24655141438e7a100b",
    );
    assert_eq!(key_one().sign(&Vec::new()), want);
}

#[test]
fn signature_verifies_under_own_key_only() {
    let kp = key_one();
    let msg = b"hello world".to_vec();
    let sig = kp.sign(&msg);
    assert_eq!(sig.len(), 64);
    assert!(verify_signature(&kp.peer_id(), &msg, &sig));
    assert!(!verify_signature(&key_two().peer_id(), &msg, &sig));
    assert!(!verify_signature(&kp.peer_id(), &b"hello w0rld".to_vec(), &sig));
    assert!(!verify_signature(&vec![1u8, 2, 3], &msg, &sig));
    assert!(!verify_signature(&kp.peer_id(), &msg, &sig[..63].to_vec()));
}

#[test]
fn relay_path_is_relay_then_client() {
    let path = relay_path(vec![1, 2, 3], vec![4, 5]);
    assert_eq!(path.len(), 2);
    assert!(path.get(0).same_as(&Protocol::Peer(vec![1, 2, 3])));
    assert!(path.get(1).same_as(&Protocol::Peer(vec![4, 5])));
    assert!(!path.get(1).same_as(&Protocol::Client(vec![4, 5])));
}

#[test]
fn byte_form_is_tag_length_payload() {
    let path = relay_path(vec![1, 2], vec![9]);
    assert_eq!(
        path.to_bytes(),
        vec![0, 2, 0, 0, 0, 0, 0, 0, 0, 1, 2, 0, 1, 0, 0, 0, 0, 0, 0, 0, 9]
    );
    assert_eq!(Address::empty().to_bytes(), Vec::<u8>::new());
    let service = Address::from_protocol(Protocol::service("ab"));
    assert_eq!(service.to_bytes(), vec![2, 2, 0, 0, 0, 0, 0, 0, 0, 97, 98]);
    let client = Address::from_protocol(Protocol::Client(vec![]));
    assert_eq!(client.to_bytes(), vec![1, 0, 0, 0, 0, 0, 0, 0, 0]);
    let sig = Address::from_protocol(Protocol::Signature(vec![5]));
    assert_eq!(sig.to_bytes(), vec![3, 1, 0, 0, 0, 0, 0, 0, 0, 5]);
}

#[test]
fn byte_form_keeps_segment_boundaries_apart() {
    let a = relay_path(vec![1, 2], vec![3]);
    let b = relay_path(vec![1], vec![2, 3]);
    assert_ne!(a.to_bytes(), b.to_bytes());
}

#[test]
fn service_segment_holds_the_name_bytes() {
    assert!(Protocol::service("provide").same_as(&Protocol::Service(b"provide".to_vec())));
}

#[test]
fn append_gives_a_longer_path_and_keeps_the_order() {
    let path = Address::from_protocol(Protocol::Peer(vec![1]));
    let copy = path.duplicate();
    let longer = path.append(Protocol::service("x"));
    assert_eq!(copy.len(), 1);
    assert_eq!(longer.len(), 2);
    assert!(longer.get(0).same_as(copy.get(0)));
    assert!(longer.get(1).same_as(&Protocol::service("x")));
    assert!(longer.prefix(1).same_as(&copy));
    assert!(!longer.same_as(&copy));
    assert!(longer.contains(&Protocol::service("x")));
    assert!(!copy.contains(&Protocol::service("x")));
}

#[test]
fn signed_path_verifies() {
    let kp = key_one();
    let path = relay_path(key_two().peer_id(), kp.peer_id());
    let sig = path.sign(&kp).unwrap();
    let signed = path.with_signature(sig);
    assert_eq!(signed.len(), 3);
    assert!(signed.verify());
}

#[test]
fn signer_is_the_last_peer_or_client() {
    let path = relay_path(vec![1], vec![2]);
    assert_eq!(path.signer(), Some(vec![2]));
    let path = path.append(Protocol::Client(vec![3])).append(Protocol::service("s"));
    assert_eq!(path.signer(), Some(vec![3]));
    assert_eq!(Address::from_protocol(Protocol::service("s")).signer(), None);
    assert_eq!(Address::empty().signer(), None);
}

#[test]
fn signing_with_a_mismatched_key_is_refused() {
    let kp = key_one();
    let other = key_two();
    let path = relay_path(kp.peer_id(), other.peer_id());
    assert!(matches!(path.sign(&kp), Err(RelayError::InvalidAddress)));
    assert!(matches!(path.signed(&kp), Err(RelayError::InvalidAddress)));
    let nobody = Address::from_protocol(Protocol::service("s"));
    assert!(matches!(nobody.sign(&kp), Err(RelayError::InvalidAddress)));
}

#[test]
fn signing_a_signed_path_is_refused() {
    let kp = key_one();
    let signed = relay_path(vec![1], kp.peer_id()).signed(&kp).unwrap();
    assert!(!signed.is_unsigned());
    assert!(matches!(signed.sign(&kp), Err(RelayError::InvalidAddress)));
}

#[test]
fn unsigned_or_malformed_paths_do_not_verify() {
    let kp = key_one();
    assert!(!Address::empty().verify());
    assert!(!relay_path(vec![1], kp.peer_id()).verify());
    let only_sig = Address::from_protocol(Protocol::Signature(vec![0u8; 64]));
    assert!(!only_sig.verify());
    let signed = relay_path(vec![1], kp.peer_id()).signed(&kp).unwrap();
    let not_last = signed.duplicate().append(Protocol::service("s"));
    assert!(!not_last.verify());
    let sig = match signed.get(2) {
        Protocol::Signature(s) => s.clone(),
        _ => unreachable!(),
    };
    let twice = signed.with_signature(sig);
    assert!(!twice.verify());
}

#[test]
fn altered_path_or_signature_does_not_verify() {
    let kp = key_one();
    let path = relay_path(vec![1, 2, 3], kp.peer_id());
    let sig = path.sign(&kp).unwrap();
    assert!(path.duplicate().with_signature(sig.clone()).verify());

    let mut bad_sig = sig.clone();
    bad_sig[10] ^= 1;
    assert!(!path.duplicate().with_signature(bad_sig).verify());

    let other_relay = relay_path(vec![1, 2, 4], kp.peer_id());
    assert!(!other_relay.with_signature(sig.clone()).verify());

    let other_client = relay_path(vec![1, 2, 3], key_two().peer_id());
    assert!(!other_client.with_signature(sig.clone()).verify());

    let moved = relay_path(vec![1, 2], kp.peer_id());
    assert!(!moved.with_signature(sig).verify());
}

#[test]
fn payload_length_is_written_low_byte_first() {
    let path = Address::from_protocol(Protocol::Peer(vec![7u8; 300]));
    let bytes = path.to_bytes();
    assert_eq!(bytes.len(), 309);
    assert_eq!(&bytes[..9], &[0, 44, 1, 0, 0, 0, 0, 0, 0]);
    assert!(bytes[9..].iter().all(|b| *b == 7));
}

#[test]
fn segment_copy_and_byte_form() {
    let seg = Protocol::Client(vec![8, 9]);
    let copy = seg.duplicate();
    assert!(copy.same_as(&seg));
    let mut out = vec![255u8];
    seg.encode_into(&mut out);
    assert_eq!(out, vec![255, 1, 2, 0, 0, 0, 0, 0, 0, 0, 8, 9]);
}

#[test]
fn signature_signs_the_byte_form_of_the_path() {
    let kp = key_one();
    let path = relay_path(vec![1, 2, 3], kp.peer_id());
    let sig = path.sign(&kp).unwrap();
    assert_eq!(sig, kp.sign(&path.to_bytes()));
    assert!(verify_signature(&kp.peer_id(), &path.to_bytes(), &sig));
}
