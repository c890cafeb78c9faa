use janus_relay::identity::Keypair;
use janus_relay::error::RelayError;
use janus_relay::service::{
    Delivery, InPeerNotification, OutPeerNotification, PeerService, PeerServiceBehaviour,
    ServicePhase,
};

fn service() -> PeerService {
    PeerService::new(Keypair::from_secret(vec![5u8; 32]).unwrap())
}

#[test]
fn relay_to_a_connected_peer_delivers_the_bytes_unchanged() {
    let mut b = PeerServiceBehaviour::new();
    b.inject_connected(vec![2]);
    b.relay_message(vec![1], vec![2], vec![0, 255, 7, 7]);
    match b.pop_delivery() {
        Some(Delivery::Relay { src_id, dst_id, data }) => {
            assert_eq!(src_id, vec![1]);
            assert_eq!(dst_id, vec![2]);
            assert_eq!(data, vec![0, 255, 7, 7]);
        }
        other => panic!("no delivery: {:?}", other),
    }
    assert!(b.pop_delivery().is_none());
}

#[test]
fn relay_to_an_unknown_peer_does_nothing() {
    let mut b = PeerServiceBehaviour::new();
    b.inject_connected(vec![3]);
    b.relay_message(vec![1], vec![2], vec![9]);
    assert!(b.pop_delivery().is_none());
}

#[test]
fn network_state_dials_when_there_is_no_connection() {
    let mut b = PeerServiceBehaviour::new();
    b.inject_connected(vec![2]);
    b.send_network_state(vec![2], vec![10]);
    b.send_network_state(vec![4], vec![11]);
    assert!(matches!(
        b.pop_delivery(),
        Some(Delivery::NetworkState { dst_id, state, dial: false }) if dst_id == vec![2] && state == vec![10]
    ));
    assert!(matches!(
        b.pop_delivery(),
        Some(Delivery::NetworkState { dst_id, state, dial: true }) if dst_id == vec![4] && state == vec![11]
    ));
}

#[test]
fn events_come_out_one_at_a_time_oldest_first() {
    let mut b = PeerServiceBehaviour::new();
    assert!(b.pop_out_node_event().is_none());
    b.inject_connected(vec![1]);
    b.inject_relayed(vec![1], vec![5], vec![42]);
    b.inject_disconnected(vec![1]);
    assert!(matches!(
        b.pop_out_node_event(),
        Some(OutPeerNotification::PeerConnected { peer_id }) if peer_id == vec![1]
    ));
    assert!(matches!(
        b.pop_out_node_event(),
        Some(OutPeerNotification::Relay { src_id, dst_id, data })
            if src_id == vec![1] && dst_id == vec![5] && data == vec![42]
    ));
    assert!(matches!(
        b.pop_out_node_event(),
        Some(OutPeerNotification::PeerDisconnected { peer_id }) if peer_id == vec![1]
    ));
    assert!(b.pop_out_node_event().is_none());
}

#[test]
fn disconnected_peer_gets_no_relay() {
    let mut b = PeerServiceBehaviour::new();
    b.inject_connected(vec![1]);
    b.inject_connected(vec![2]);
    b.inject_connected(vec![1]);
    assert!(b.is_connected(&vec![1]));
    b.inject_disconnected(vec![1]);
    assert!(!b.is_connected(&vec![1]));
    assert!(b.is_connected(&vec![2]));
    b.relay_message(vec![2], vec![1], vec![1]);
    assert!(b.pop_delivery().is_none());
}

#[test]
fn drain_applies_commands_in_order() {
    let mut s = service();
    s.behaviour_mut().inject_connected(vec![2]);
    let commands = vec![
        InPeerNotification::Relay { src_id: vec![1], dst_id: vec![2], data: vec![100] },
        InPeerNotification::NetworkState { dst_id: vec![3], state: vec![200] },
        InPeerNotification::Relay { src_id: vec![1], dst_id: vec![9], data: vec![101] },
        InPeerNotification::Relay { src_id: vec![4], dst_id: vec![2], data: vec![102] },
    ];
    s.drain(&commands);
    let b = s.behaviour_mut();
    assert!(matches!(b.pop_delivery(), Some(Delivery::Relay { data, .. }) if data == vec![100]));
    assert!(matches!(
        b.pop_delivery(),
        Some(Delivery::NetworkState { state, dial: true, .. }) if state == vec![200]
    ));
    assert!(matches!(
        b.pop_delivery(),
        Some(Delivery::Relay { src_id, data, .. }) if data == vec![102] && src_id == vec![4]
    ));
    assert!(b.pop_delivery().is_none());
}

#[test]
fn forward_hands_out_one_event_a_tick() {
    let mut s = service();
    s.behaviour_mut().inject_connected(vec![1]);
    s.behaviour_mut().inject_connected(vec![2]);
    assert!(matches!(
        s.forward(),
        Some(OutPeerNotification::PeerConnected { peer_id }) if peer_id == vec![1]
    ));
    assert!(matches!(
        s.forward(),
        Some(OutPeerNotification::PeerConnected { peer_id }) if peer_id == vec![2]
    ));
    assert!(s.forward().is_none());
}

#[test]
fn nothing_is_processed_after_exit() {
    let mut s = service();
    assert!(s.is_running());
    s.behaviour_mut().inject_connected(vec![2]);
    s.exit();
    assert!(!s.is_running());
    s.drain(&vec![InPeerNotification::Relay { src_id: vec![1], dst_id: vec![2], data: vec![1] }]);
    assert!(s.forward().is_none());
    assert!(s.behaviour_mut().pop_delivery().is_none());
}

#[test]
fn service_knows_its_own_peer() {
    let kp = Keypair::from_secret(vec![5u8; 32]).unwrap();
    assert_eq!(service().local_peer_id(), kp.peer_id());
    assert_eq!(kp.peer_id().len(), 32);
}

#[test]
fn exit_is_no_failure() {
    let mut s = service();
    assert_eq!(s.phase(), ServicePhase::Running);
    assert_eq!(s.failure(), None);
    s.exit();
    assert_eq!(s.phase(), ServicePhase::Exited);
    assert_eq!(s.failure(), None);
    assert_eq!(s.channel_closed(), None);
    assert_eq!(s.phase(), ServicePhase::Exited);
}

#[test]
fn closed_channel_stops_the_service() {
    let mut s = service();
    s.behaviour_mut().inject_connected(vec![2]);
    assert_eq!(s.channel_closed(), Some(RelayError::ChannelClosed));
    assert_eq!(s.phase(), ServicePhase::ChannelClosed);
    assert_eq!(s.failure(), Some(RelayError::ChannelClosed));
    assert!(!s.is_running());
    assert!(s.forward().is_none());
    s.exit();
    assert_eq!(s.phase(), ServicePhase::ChannelClosed);
}
