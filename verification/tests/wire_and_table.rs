use peernet::codec::{
    decode_findpeer, decode_netmsg, decode_peer, decode_peers, decode_ping, decode_pong,
    decode_shutdown, encode_findpeer, encode_netmsg, encode_peer, encode_peers, encode_ping,
    encode_pong, encode_shutdown,
};
use peernet::message::{
    FindPeerMsg, NetMsg, NetMsgCmd, PeerMsg, PeersMsg, PingMsg, PongMsg, ShutdownMsg,
};
use peernet::peer::PeerID;
use peernet::routing_table::{AddResult, PeerEntry, RoutingTable};
use peernet::slots::ConnectionSlots;

fn id_of(byte: u8) -> PeerID {
    PeerID::from_bytes(vec![byte; 32])
}

fn entry_of(byte: u8) -> PeerEntry {
    PeerEntry {
        peer_id: id_of(byte),
        addr: b"127.0.0.1".to_vec(),
        port: 3000,
        discovery_port: 3010,
        last_seen: 7,
    }
}

fn peer_msg_of(byte: u8) -> PeerMsg {
    PeerMsg {
        addr: b"127.0.0.1".to_vec(),
        port: 3000,
        discovery_port: 3010,
        peer_id: id_of(byte),
    }
}

#[test]
fn ping_round_trip() {
    let ping = PingMsg { version: b"0.1.0".to_vec(), nonce: vec![9u8; 32] };
    let bytes = encode_ping(&ping);
    let back = decode_ping(&bytes).expect("a ping must decode");
    assert_eq!(back, ping);
}

#[test]
fn ping_exact_bytes() {
    let ping = PingMsg { version: b"0.1.0".to_vec(), nonce: vec![0u8; 32] };
    let bytes = encode_ping(&ping);
    let mut expected = vec![5u8, 0, 0, 0];
    expected.extend_from_slice(b"0.1.0");
    expected.extend_from_slice(&[0u8; 32]);
    assert_eq!(bytes, expected);
}

#[test]
fn pong_round_trip() {
    let pong = PongMsg { nonce: (0u8..32).collect() };
    let bytes = encode_pong(&pong);
    assert_eq!(decode_pong(&bytes).expect("a pong must decode"), pong);
    assert!(decode_pong(&vec![0u8; 31]).is_none());
}

#[test]
fn findpeer_round_trip() {
    let msg = FindPeerMsg { peer_id: id_of(3) };
    let bytes = encode_findpeer(&msg);
    assert_eq!(decode_findpeer(&bytes).expect("a find-peer must decode"), msg);
}

#[test]
fn peer_round_trip() {
    let msg = peer_msg_of(4);
    let bytes = encode_peer(&msg);
    assert_eq!(decode_peer(&bytes).expect("a peer must decode"), msg);
}

#[test]
fn peers_round_trip() {
    let msg = PeersMsg { peers: vec![peer_msg_of(1), peer_msg_of(2), peer_msg_of(3)] };
    let bytes = encode_peers(&msg);
    assert_eq!(decode_peers(&bytes).expect("a peers list must decode"), msg);
    let empty = PeersMsg { peers: vec![] };
    let bytes = encode_peers(&empty);
    assert_eq!(decode_peers(&bytes).expect("an empty list must decode"), empty);
}

#[test]
fn peers_rejects_trailing_bytes() {
    let msg = PeersMsg { peers: vec![peer_msg_of(1)] };
    let mut bytes = encode_peers(&msg);
    bytes.push(0);
    assert!(decode_peers(&bytes).is_none());
}

#[test]
fn shutdown_round_trip() {
    let msg = ShutdownMsg { code: 0 };
    let bytes = encode_shutdown(&msg);
    assert_eq!(bytes, vec![0u8]);
    assert_eq!(decode_shutdown(&bytes).expect("a shutdown must decode"), msg);
}

#[test]
fn netmsg_round_trip_and_tags() {
    let frame = NetMsg { command: NetMsgCmd::Ping, payload: vec![1, 2, 3] };
    let bytes = encode_netmsg(&frame);
    assert_eq!(bytes, vec![0u8, 3, 0, 0, 0, 1, 2, 3]);
    assert_eq!(decode_netmsg(&bytes).expect("a frame must decode"), frame);

    let shutdown = NetMsg { command: NetMsgCmd::Shutdown, payload: vec![0] };
    assert_eq!(encode_netmsg(&shutdown)[0], 5);
    assert_eq!(
        encode_netmsg(&NetMsg { command: NetMsgCmd::Pong, payload: vec![] })[0],
        1
    );
    assert_eq!(
        encode_netmsg(&NetMsg { command: NetMsgCmd::FindPeer, payload: vec![] })[0],
        2
    );
    assert_eq!(
        encode_netmsg(&NetMsg { command: NetMsgCmd::Peers, payload: vec![] })[0],
        3
    );
    assert_eq!(
        encode_netmsg(&NetMsg { command: NetMsgCmd::Peer, payload: vec![] })[0],
        4
    );
    // A tag nothing stands for decodes to nothing.
    assert!(decode_netmsg(&vec![9u8, 0, 0, 0, 0]).is_none());
    // A wrong length field decodes to nothing.
    assert!(decode_netmsg(&vec![0u8, 5, 0, 0, 0, 1]).is_none());
}

#[test]
fn table_never_holds_the_self_id() {
    let self_id = id_of(7);
    let mut table = RoutingTable::new(self_id, 16);
    let own = PeerEntry {
        peer_id: id_of(7),
        addr: b"10.0.0.1".to_vec(),
        port: 1,
        discovery_port: 2,
        last_seen: 0,
    };
    let verdict = table.add_entry(own);
    assert!(matches!(verdict, AddResult::Rejected(_)));
    assert_eq!(table.entries.len(), 0);
    assert!(!table.contains_key(&id_of(7)));
}

#[test]
fn table_add_update_and_contains() {
    let mut table = RoutingTable::new(id_of(0), 16);
    assert_eq!(table.add_entry(entry_of(1)), AddResult::Added);
    assert_eq!(table.add_entry(entry_of(2)), AddResult::Added);
    assert!(table.contains_key(&id_of(1)));
    assert!(!table.contains_key(&id_of(3)));
    let mut refreshed = entry_of(1);
    refreshed.port = 4000;
    assert_eq!(table.add_entry(refreshed), AddResult::Updated);
    assert_eq!(table.entries.len(), 2);
}

#[test]
fn table_eviction_at_capacity() {
    // Key 0: distance of id [b; 32] is [b; 32] itself, ordered by b.
    let mut table = RoutingTable::new(id_of(0), 2);
    assert_eq!(table.add_entry(entry_of(10)), AddResult::Added);
    assert_eq!(table.add_entry(entry_of(20)), AddResult::Added);
    // Farther than everything present: rejected.
    assert!(matches!(table.add_entry(entry_of(30)), AddResult::Rejected(_)));
    // Closer than the farthest: displaces it.
    assert_eq!(table.add_entry(entry_of(5)), AddResult::Added);
    assert!(table.contains_key(&id_of(5)));
    assert!(!table.contains_key(&id_of(20)));
    assert_eq!(table.entries.len(), 2);
}

#[test]
fn closest_entries_sorted_and_bounded() {
    let mut table = RoutingTable::new(id_of(0), 16);
    for b in [9u8, 1, 5, 13, 3] {
        assert_eq!(table.add_entry(entry_of(b)), AddResult::Added);
    }
    // XOR distance to [1; 32] of [b; 32] is [b ^ 1; 32].
    let got = table.closest_entries(&id_of(1), 3);
    assert_eq!(got.len(), 3);
    let ids: Vec<u8> = got.iter().map(|e| e.peer_id.bytes[0]).collect();
    assert_eq!(ids, vec![1, 3, 5]);
    // Asking for more than the table holds returns the whole table, sorted.
    let all = table.closest_entries(&id_of(1), 10);
    assert_eq!(all.len(), 5);
    let ids: Vec<u8> = all.iter().map(|e| e.peer_id.bytes[0]).collect();
    assert_eq!(ids, vec![1, 3, 5, 9, 13]);
}

#[test]
fn slots_account_for_each_handler() {
    let mut slots = ConnectionSlots::new(2);
    assert!(slots.available());
    slots.add();
    slots.add();
    assert!(!slots.available());
    slots.remove();
    assert!(slots.available());
    assert_eq!(slots.taken, 1);
    slots.remove();
    assert_eq!(slots.taken, 0);
}
