use peernet::client::{Client, RpcInbound, WaitOutcome};
use peernet::codec::{decode_peers, decode_pong};
use peernet::endpoint::Endpoint;
use peernet::listener::Listener;
use peernet::lookup::{
    check_peers_reply, check_pong_msg, random_nonce, shuffle_peers, top_up, Config, InboundAction,
    LookupService,
};
use peernet::message::{NetMsg, NetMsgCmd, PeerMsg};
use peernet::peer::PeerID;
use peernet::routing_table::{AddResult, PeerEntry, RoutingTable};
use peernet::rpc_message::{Notification, Response};
use peernet::slots::ConnectionSlots;
use peernet::version::version_match;
use peernet::Error;

fn id_of(byte: u8) -> PeerID {
    PeerID::from_bytes(vec![byte; 32])
}

fn entry_of(byte: u8) -> PeerEntry {
    PeerEntry {
        peer_id: id_of(byte),
        addr: b"127.0.0.1".to_vec(),
        port: 3000,
        discovery_port: 3010,
        last_seen: 7,
    }
}

fn config_for(version_req: &str) -> Config {
    Config {
        version: b"0.1.0".to_vec(),
        version_req: version_req.to_string(),
        listen_endpoint: None,
        discovery_port: 3010,
        lookup_inbound_slots: 20,
        lookup_outbound_slots: 20,
        lookup_connect_retries: 3,
        lookup_response_timeout: 10,
        lookup_connection_lifespan: 60,
        enable_tls: false,
    }
}

fn service_of(self_byte: u8, peers: &[u8]) -> LookupService {
    let mut table = RoutingTable::new(id_of(self_byte), 32);
    for b in peers {
        assert_eq!(table.add_entry(entry_of(*b)), AddResult::Added);
    }
    LookupService::new(id_of(self_byte), table, config_for(">=0.1.0"))
}

#[test]
fn rpc_call_success() {
    let mut client = Client::new(None, 8);
    let id: u32 = 0xDEADBEEF;
    client.begin_request(id).expect("a fresh id registers");
    assert!(client.dispatcher.ids.contains(&id));

    // The server answers with the same id and result 5.
    let arrived = Response {
        id: Some(id),
        result: Some(serde_json::Value::from(5u64)),
        error: None,
    };
    client
        .handle_msg(RpcInbound::Reply(Response {
            id: Some(id),
            result: None,
            error: None,
        }))
        .expect("a pending id dispatches");
    let response = client
        .await_response(id, WaitOutcome::Delivered(arrived))
        .expect("a delivered response comes back");
    let response = client.finish_request(id, response).expect("ids agree");
    let value = client.call_result(response).expect("a result is present");
    assert_eq!(value, serde_json::Value::from(5u64));
    assert!(client.dispatcher.ids.is_empty());
}

#[test]
fn rpc_call_timeout() {
    let mut client = Client::new(Some(100), 8);
    let id: u32 = 0xDEADBEEF;
    client.begin_request(id).expect("a fresh id registers");
    let outcome = client.await_response(id, WaitOutcome::TimedOut);
    assert_eq!(outcome.err(), Some(Error::Timeout));
    // The pending entry is gone.
    assert!(!client.dispatcher.ids.contains(&id));
    assert!(client.dispatcher.ids.is_empty());
}

#[test]
fn rpc_subscribe_then_notify() {
    let mut client = Client::new(None, 8);
    let response = Response {
        id: Some(1),
        result: Some(serde_json::Value::from(42u64)),
        error: None,
    };
    let sub_id = client.finish_subscribe(response).expect("the id is an integer");
    assert_eq!(sub_id, 42);

    let notification = Notification {
        method: "feed".to_string(),
        subscription: 42,
        result: serde_json::Value::from("hello"),
    };
    client
        .handle_msg(RpcInbound::Notify(notification))
        .expect("the subscription exists");
    let got = client.subscriber.next_value(42);
    assert_eq!(got, Some(serde_json::Value::from("hello")));
    assert_eq!(client.subscriber.next_value(42), None);
}

#[test]
fn rpc_mismatched_id() {
    let client = Client::new(None, 8);
    let response = Response { id: Some(2), result: None, error: None };
    let got = client.finish_request(1, response);
    assert_eq!(got.err(), Some(Error::InvalidMsg("Invalid response id")));
}

#[test]
fn rpc_error_response_surfaces_a_call_error() {
    let client = Client::new(None, 8);
    let response = Response {
        id: Some(1),
        result: None,
        error: Some(peernet::rpc_message::RpcError { code: -32601, message: "method not found".to_string() }),
    };
    let got = client.finish_request(1, response);
    assert_eq!(
        got.err(),
        Some(Error::CallError(-32601, "method not found".to_string()))
    );
}

#[test]
fn rpc_channel_closed_unregisters() {
    let mut client = Client::new(None, 8);
    client.begin_request(3).expect("registers");
    let got = client.await_response(3, WaitOutcome::ChannelClosed);
    assert_eq!(got.err(), Some(Error::ChannelClosed));
    assert!(client.dispatcher.ids.is_empty());
}

#[test]
fn rpc_unknown_response_and_subscription() {
    let mut client = Client::new(None, 8);
    let err = client
        .handle_msg(RpcInbound::Reply(Response { id: Some(9), result: None, error: None }))
        .err();
    assert_eq!(err, Some(Error::InvalidMsg("Unknown response id")));
    let err = client
        .handle_msg(RpcInbound::Notify(Notification {
            method: "feed".to_string(),
            subscription: 9,
            result: serde_json::Value::Null,
        }))
        .err();
    assert_eq!(err, Some(Error::InvalidMsg("Unknown subscription id")));
    let err = client.handle_msg(RpcInbound::Malformed).err();
    assert_eq!(err, Some(Error::InvalidMsg("Unexpected msg")));
}

#[test]
fn rpc_teardown_closes_everything() {
    let mut client = Client::new(None, 8);
    client.begin_request(1).expect("registers");
    client.begin_request(2).expect("registers");
    let response = Response {
        id: Some(1),
        result: Some(serde_json::Value::from(42u64)),
        error: None,
    };
    client.finish_subscribe(response).expect("subscribes");
    client.on_receive_loop_exit();
    assert!(client.dispatcher.ids.is_empty());
    assert!(client.subscriber.subs.is_empty());
}

#[test]
fn notify_drops_the_oldest_when_full() {
    let mut client = Client::new(None, 2);
    let response = Response {
        id: Some(1),
        result: Some(serde_json::Value::from(7u64)),
        error: None,
    };
    client.finish_subscribe(response).expect("subscribes");
    for n in [1u64, 2, 3] {
        client
            .handle_msg(RpcInbound::Notify(Notification {
                method: "feed".to_string(),
                subscription: 7,
                result: serde_json::Value::from(n),
            }))
            .expect("the subscription exists");
    }
    // The first value was dropped to make room.
    assert_eq!(client.subscriber.next_value(7), Some(serde_json::Value::from(2u64)));
    assert_eq!(client.subscriber.next_value(7), Some(serde_json::Value::from(3u64)));
    assert_eq!(client.subscriber.next_value(7), None);
}

#[test]
fn bad_pong_is_refused() {
    let node = service_of(1, &[]);
    let nonce = random_nonce();
    assert_eq!(nonce.len(), 32);
    let ping = node.make_ping_msg(nonce.clone());
    assert_eq!(ping.command, NetMsgCmd::Ping);

    // An honest pong passes.
    let good = NetMsg { command: NetMsgCmd::Pong, payload: nonce.clone() };
    assert!(check_pong_msg(&nonce, &good).is_ok());

    // Any bit flip in the nonce forces an invalid pong.
    for position in [0usize, 13, 31] {
        let mut flipped = nonce.clone();
        flipped[position] ^= 0x01;
        let reply = NetMsg { command: NetMsgCmd::Pong, payload: flipped };
        assert_eq!(check_pong_msg(&nonce, &reply).err(), Some(Error::InvalidPongMsg));
    }

    // A frame of the wrong command or length is told apart.
    let wrong = NetMsg { command: NetMsgCmd::Peers, payload: nonce.clone() };
    assert!(matches!(check_pong_msg(&nonce, &wrong).err(), Some(Error::InvalidMsg(_))));
    let short = NetMsg { command: NetMsgCmd::Pong, payload: vec![0u8; 31] };
    assert_eq!(check_pong_msg(&nonce, &short).err(), Some(Error::Decoding));
}

#[test]
fn ten_peers_are_rejected() {
    let bootstrap = service_of(2, &[10, 11, 12, 13, 14, 15, 16, 17, 18, 19, 20]);
    let fresh = service_of(1, &[]);
    let ask = fresh.make_findpeer_msg(&id_of(9));
    let mut server = bootstrap;
    let action = server.handle_inbound_msg(&ask, 0).expect("a find-peer is answered");
    let reply = match action {
        InboundAction::Reply(m) => m,
        other => panic!("expected a reply, got {:?}", other),
    };
    // The reply carries the full allowed maximum, which the outbound side
    // must refuse (strictly fewer are required).
    let decoded = decode_peers(&reply.payload).expect("the reply decodes");
    assert_eq!(decoded.peers.len(), 10);
    assert!(matches!(check_peers_reply(&reply).err(), Some(Error::Lookup(_))));
}

#[test]
fn discovery_happy_path() {
    // One bootstrap node knows three peers; a fresh node asks it.
    let mut bootstrap = service_of(2, &[10, 20, 30]);
    let mut fresh = service_of(1, &[]);

    // Outbound: ping, await pong, validate the nonce.
    let nonce = random_nonce();
    let ping = fresh.make_ping_msg(nonce.clone());
    let action = bootstrap.handle_inbound_msg(&ping, 0).expect("a compatible ping is answered");
    let pong = match action {
        InboundAction::Reply(m) => m,
        other => panic!("expected a pong, got {:?}", other),
    };
    assert_eq!(pong.command, NetMsgCmd::Pong);
    assert_eq!(decode_pong(&pong.payload).map(|p| p.nonce), Some(nonce.clone()));
    check_pong_msg(&nonce, &pong).expect("the nonce is echoed");

    // Outbound: ask for peers near a random id.
    let target = PeerID::random();
    let ask = fresh.make_findpeer_msg(&target);
    let action = bootstrap.handle_inbound_msg(&ask, 0).expect("a find-peer is answered");
    let reply = match action {
        InboundAction::Reply(m) => m,
        other => panic!("expected peers, got {:?}", other),
    };
    let peers = check_peers_reply(&reply).expect("three peers are strictly under the limit");
    assert_eq!(peers.len(), 3);

    // Accumulate, deduplicate, and plan the self lookup.
    let mut random_peers: Vec<PeerMsg> = Vec::new();
    fresh.merge_random_peers(&mut random_peers, &peers);
    fresh.merge_random_peers(&mut random_peers, &peers);
    assert_eq!(random_peers.len(), 3, "a second batch adds no duplicates");
    let random_peers = shuffle_peers(random_peers);
    assert_eq!(random_peers.len(), 3);
    let endpoints = fresh.plan_self_lookup(&random_peers);
    assert_eq!(endpoints.len(), 3);
    for ep in &endpoints {
        assert_eq!(ep.port(), 3010);
    }

    // No self-lookup replies here: top up from the leftovers and insert.
    let mut peer_buffer: Vec<PeerMsg> = Vec::new();
    let mut leftovers = random_peers;
    top_up(&mut peer_buffer, &mut leftovers);
    assert_eq!(peer_buffer.len(), 3);
    assert!(leftovers.is_empty());
    let n = peer_buffer.len();
    fresh.finalize_lookup(peer_buffer, 99);
    assert!(n <= 3);
    assert_eq!(fresh.table.entries.len(), 3);
    for b in [10u8, 20, 30] {
        assert!(fresh.table.contains_key(&id_of(b)));
    }
    assert!(!fresh.table.contains_key(&id_of(1)), "never the node itself");
}

#[test]
fn bad_pong_peer_adds_nothing() {
    let mut fresh = service_of(1, &[]);
    let nonce = random_nonce();
    let mut flipped = nonce.clone();
    flipped[5] ^= 0x80;
    let reply = NetMsg { command: NetMsgCmd::Pong, payload: flipped };
    assert_eq!(check_pong_msg(&nonce, &reply).err(), Some(Error::InvalidPongMsg));
    // The exchange stops there: nothing was merged, nothing inserted.
    assert!(fresh.table.entries.is_empty());
    let mut acc: Vec<PeerMsg> = Vec::new();
    let empty: Vec<PeerMsg> = Vec::new();
    fresh.merge_random_peers(&mut acc, &empty);
    assert!(acc.is_empty());
}

#[test]
fn empty_random_peers_plan_an_empty_self_lookup() {
    let fresh = service_of(1, &[]);
    let none: Vec<PeerMsg> = Vec::new();
    assert!(fresh.plan_self_lookup(&none).is_empty());
    let mut buffer: Vec<PeerMsg> = Vec::new();
    let mut leftovers: Vec<PeerMsg> = Vec::new();
    top_up(&mut buffer, &mut leftovers);
    assert_eq!(buffer.len(), 0);
}

#[test]
fn merge_skips_self_and_known_peers() {
    let fresh = service_of(1, &[10]);
    let mut acc: Vec<PeerMsg> = Vec::new();
    let batch = vec![
        PeerMsg { addr: b"a".to_vec(), port: 1, discovery_port: 2, peer_id: id_of(1) },
        PeerMsg { addr: b"b".to_vec(), port: 1, discovery_port: 2, peer_id: id_of(10) },
        PeerMsg { addr: b"c".to_vec(), port: 1, discovery_port: 2, peer_id: id_of(11) },
    ];
    fresh.merge_random_peers(&mut acc, &batch);
    assert_eq!(acc.len(), 1);
    assert_eq!(acc[0].peer_id, id_of(11));
}

#[test]
fn inbound_version_gate() {
    let mut strict = service_of(3, &[]);
    strict.config.version_req = ">=2.0.0".to_string();
    let other = service_of(1, &[]);
    let ping = other.make_ping_msg(random_nonce());
    let got = strict.handle_inbound_msg(&ping, 0).err();
    assert_eq!(got, Some(Error::IncompatibleVersion));
}

#[test]
fn inbound_shutdown_and_unexpected() {
    let mut node = service_of(3, &[]);
    let shutdown = node.make_shutdown_msg();
    assert_eq!(
        node.handle_inbound_msg(&shutdown, 0).ok(),
        Some(InboundAction::ShutdownReceived)
    );
    let stray = NetMsg { command: NetMsgCmd::Pong, payload: vec![0u8; 32] };
    assert!(matches!(
        node.handle_inbound_msg(&stray, 0).err(),
        Some(Error::InvalidMsg(_))
    ));
}

#[test]
fn inbound_peer_advert_lands_in_the_table() {
    let mut node = service_of(3, &[]);
    let advertiser = service_of(9, &[]);
    let advert = advertiser.make_peer_msg(&Endpoint::Tcp(b"10.0.0.9".to_vec(), 4000));
    let action = node.handle_inbound_msg(&advert, 5).expect("a peer advert is taken");
    assert_eq!(action, InboundAction::PeerAdded(AddResult::Added));
    assert!(node.table.contains_key(&id_of(9)));
}

#[test]
fn version_match_uses_real_semver() {
    assert!(version_match(">=0.1.0", &b"0.2.0".to_vec()));
    assert!(version_match("^0.1", &b"0.1.9".to_vec()));
    assert!(!version_match(">=2.0.0", &b"0.1.0".to_vec()));
    assert!(!version_match(">=0.1.0", &b"not a version".to_vec()));
    assert!(!version_match("not a requirement", &b"0.1.0".to_vec()));
    assert!(!version_match(">=0.1.0", &vec![0xffu8, 0xfe]));
}

#[test]
fn shuffle_keeps_the_same_peers() {
    let peers: Vec<PeerMsg> = (1u8..=5)
        .map(|b| PeerMsg { addr: vec![b], port: 1, discovery_port: 2, peer_id: id_of(b) })
        .collect();
    let shuffled = shuffle_peers(peers.clone());
    assert_eq!(shuffled.len(), peers.len());
    for p in &peers {
        assert_eq!(
            shuffled.iter().filter(|q| *q == p).count(),
            1,
            "each peer appears exactly once"
        );
    }
}

#[test]
fn listener_endpoint_admission() {
    let tls_on = Listener::new(ConnectionSlots::new(4), true);
    let tls_off = Listener::new(ConnectionSlots::new(4), false);
    let tcp = Endpoint::Tcp(b"127.0.0.1".to_vec(), 80);
    let tls = Endpoint::Tls(b"127.0.0.1".to_vec(), 443);
    let udp = Endpoint::Udp(b"127.0.0.1".to_vec(), 53);
    assert!(tls_on.check_endpoint(&tcp).is_ok());
    assert!(tls_on.check_endpoint(&tls).is_ok());
    assert_eq!(tls_on.check_endpoint(&udp).err(), Some(Error::UnsupportedEndpoint));
    assert!(tls_off.check_endpoint(&tcp).is_ok());
    assert_eq!(tls_off.check_endpoint(&tls).err(), Some(Error::UnsupportedEndpoint));
}

#[test]
fn listener_slot_protocol() {
    let mut listener = Listener::new(ConnectionSlots::new(1), false);
    let peer = Endpoint::Tcp(b"10.0.0.2".to_vec(), 9000);
    assert!(listener.connection_slots.available());
    let event = listener.on_accepted(peer.clone());
    assert_eq!(event, peernet::monitor::ConnEvent::Accepted(peer.clone()));
    assert!(!listener.connection_slots.available());
    let event = listener.on_handler_exit(peer.clone());
    assert_eq!(event, peernet::monitor::ConnEvent::Disconnected(peer));
    assert_eq!(listener.connection_slots.taken, 0);
}

#[test]
fn fresh_ids_have_the_right_shape() {
    let a = PeerID::random();
    let b = PeerID::random();
    assert_eq!(a.bytes.len(), 32);
    assert_eq!(b.bytes.len(), 32);
    let _ = peernet::client::random_request_id();
}

#[test]
fn nine_peers_pass_the_strict_limit() {
    let mut bootstrap = service_of(2, &[10, 11, 12, 13, 14, 15, 16, 17, 18]);
    let fresh = service_of(1, &[]);
    let ask = fresh.make_findpeer_msg(&id_of(9));
    let action = bootstrap.handle_inbound_msg(&ask, 0).expect("a find-peer is answered");
    let reply = match action {
        InboundAction::Reply(m) => m,
        other => panic!("expected a reply, got {:?}", other),
    };
    let peers = check_peers_reply(&reply).expect("nine is strictly under the limit");
    assert_eq!(peers.len(), 9);
}

#[test]
fn register_collision_is_surfaced() {
    let mut client = Client::new(None, 8);
    client.begin_request(5).expect("a fresh id registers");
    let err = client.begin_request(5).err();
    assert_eq!(err, Some(Error::InvalidMsg("request id already registered")));
    assert_eq!(client.dispatcher.ids.len(), 1);
}

#[test]
fn empty_table_answers_with_no_peers() {
    let table = RoutingTable::new(id_of(1), 8);
    assert!(table.closest_entries(&id_of(2), 10).is_empty());
}

#[test]
fn new_service_takes_the_configured_listen_endpoint() {
    let mut config = config_for(">=0.1.0");
    config.listen_endpoint = Some(Endpoint::Tcp(b"0.0.0.0".to_vec(), 4400));
    let table = RoutingTable::new(id_of(1), 8);
    let service = LookupService::new(id_of(1), table, config);
    assert_eq!(
        service.listen_endpoint,
        Some(Endpoint::Tcp(b"0.0.0.0".to_vec(), 4400))
    );

    let none = service_of(2, &[]);
    assert_eq!(none.listen_endpoint, None);
}

#[test]
fn duplicate_subscription_id_is_refused() {
    let mut client = Client::new(None, 8);
    let first = Response {
        id: Some(1),
        result: Some(serde_json::Value::from(42u64)),
        error: None,
    };
    assert_eq!(client.finish_subscribe(first), Ok(42));
    let second = Response {
        id: Some(2),
        result: Some(serde_json::Value::from(42u64)),
        error: None,
    };
    assert!(matches!(
        client.finish_subscribe(second).err(),
        Some(Error::InvalidMsg(_))
    ));
    assert_eq!(client.subscriber.subs.len(), 1);

    let not_an_integer = Response {
        id: Some(3),
        result: Some(serde_json::Value::from("42")),
        error: None,
    };
    assert!(matches!(
        client.finish_subscribe(not_an_integer).err(),
        Some(Error::InvalidMsg(_))
    ));
    assert_eq!(client.subscriber.subs.len(), 1, "an error leaves the table");
}
