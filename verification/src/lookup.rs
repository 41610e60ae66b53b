//! The iterative peer-discovery protocol: the outbound exchange (ping,
//! find-peer, advertise, shutdown), the inbound request handler, and the
//! bookkeeping of an iterative lookup. Connections and timers are the
//! embedder's; every protocol decision is here.
use vstd::prelude::*;

use crate::codec::{
    dec_findpeer, dec_peer, dec_peers, dec_ping, dec_pong, dec_shutdown, decode_findpeer,
    decode_peer, decode_peers, decode_ping, decode_pong, encode_findpeer, encode_peer,
    encode_peers,
    encode_ping, encode_pong, encode_shutdown, copy_range, lemma_findpeer_round_trip,
    lemma_peer_round_trip, lemma_peers_round_trip, lemma_ping_round_trip, lemma_pong_round_trip,
    lemma_shutdown_round_trip,
};
use crate::connector::Connector;
use crate::endpoint::Endpoint;
use crate::listener::Listener;
use crate::message::{
    wf_peer, wf_peers, FindPeerMsg, NetMsg, NetMsgCmd, PeerMsg, PeerMsgView, PeersMsg, PingMsg,
    PingMsgView, PongMsg, ShutdownMsg, MAX_PEERS_IN_PEERSMSG,
};
use crate::peer::PeerID;
use crate::routing_table::{spec_add_post, wf_entry, AddResult, PeerEntry, RoutingTable};
use crate::slots::ConnectionSlots;
use crate::Error;

verus! {

/// Configuration of the discovery service.
pub struct Config {
    /// The version advertised in outbound pings, as its textual bytes.
    pub version: Vec<u8>,
    /// The semver requirement inbound pings must satisfy.
    pub version_req: String,
    /// Where to accept inbound discovery, if anywhere.
    pub listen_endpoint: Option<Endpoint>,
    /// The discovery port advertised to peers.
    pub discovery_port: u16,
    pub lookup_inbound_slots: usize,
    pub lookup_outbound_slots: usize,
    pub lookup_connect_retries: u32,
    /// Seconds an outbound exchange waits for each reply.
    pub lookup_response_timeout: u64,
    /// Seconds an inbound connection may live.
    pub lookup_connection_lifespan: u64,
    pub enable_tls: bool,
}

impl Config {
    /// The advertised version must fit comfortably in a ping frame.
    pub open spec fn wf(&self) -> bool {
        self.version@.len() <= 0xffff
    }
}

/// The iterative discovery service of one node.
pub struct LookupService {
    /// This node's id.
    pub id: PeerID,
    /// The shared peer registry.
    pub table: RoutingTable,
    /// Accepts inbound discovery connections.
    pub listener: Listener,
    /// Dials outbound discovery connections.
    pub connector: Connector,
    /// The resolved endpoint inbound discovery listens on, once known.
    pub listen_endpoint: Option<Endpoint>,
    pub config: Config,
}

impl LookupService {
    pub open spec fn wf(&self) -> bool {
        &&& self.id.wf()
        &&& self.table.wf()
        &&& self.table.self_id@ == self.id@
        &&& self.listener.wf()
        &&& self.connector.wf()
        &&& self.config.wf()
    }

    /// Builds the service: one slot counter each for inbound and outbound
    /// discovery, a listener and a connector over them.
    pub fn new(id: PeerID, table: RoutingTable, config: Config) -> (r: LookupService)
        requires
            id.wf(),
            table.wf(),
            table.self_id@ == id@,
            config.wf(),
        ensures
            r.wf(),
            r.id == id,
            r.table == table,
            r.config == config,
            (r.listen_endpoint is Some) == (config.listen_endpoint is Some),
            config.listen_endpoint is Some ==> crate::endpoint::ep_eq(
                r.listen_endpoint->0,
                config.listen_endpoint->0,
            ),
            r.listener.enable_tls == config.enable_tls,
            r.listener.connection_slots.capacity == config.lookup_inbound_slots,
            r.listener.connection_slots.taken == 0,
            r.connector.retries == config.lookup_connect_retries,
            r.connector.connection_slots.capacity == config.lookup_outbound_slots,
            r.connector.connection_slots.taken == 0,
    {
        let inbound_slots = ConnectionSlots::new(config.lookup_inbound_slots);
        let outbound_slots = ConnectionSlots::new(config.lookup_outbound_slots);
        let listener = Listener::new(inbound_slots, config.enable_tls);
        let connector = Connector::new(config.lookup_connect_retries, outbound_slots);
        let listen_endpoint = match &config.listen_endpoint {
            Some(ep) => Some(crate::endpoint::clone_endpoint(ep)),
            None => None,
        };
        LookupService { id, table, listener, connector, listen_endpoint, config }
    }

    /// Records the resolved listen endpoint, if listening was configured.
    pub fn set_listen_endpoint(&mut self, resolved_endpoint: Endpoint)
        ensures
            old(self).config.listen_endpoint is Some ==> *final(self) == (LookupService {
                listen_endpoint: Some(resolved_endpoint),
                ..*old(self)
            }),
            old(self).config.listen_endpoint is None ==> *final(self) == *old(self),
    {
        if self.config.listen_endpoint.is_some() {
            self.listen_endpoint = Some(resolved_endpoint);
        }
    }

    /// Builds the opening ping of an outbound exchange around a fresh nonce.
    pub fn make_ping_msg(&self, nonce: Vec<u8>) -> (r: NetMsg)
        requires
            self.wf(),
            nonce@.len() == 32,
        ensures
            r.wf(),
            r@.command == NetMsgCmd::Ping,
            dec_ping(r@.payload) == Some(
                PingMsgView { version: self.config.version@, nonce: nonce@ },
            ),
    {
        let version = copy_range(&self.config.version, 0, self.config.version.len());
        assert(version@ =~= self.config.version@);
        let body = PingMsg { version, nonce };
        let payload = encode_ping(&body);
        proof {
            lemma_ping_round_trip(body@);
        }
        NetMsg { command: NetMsgCmd::Ping, payload }
    }

    /// Builds the find-peer question of an outbound exchange.
    pub fn make_findpeer_msg(&self, target: &PeerID) -> (r: NetMsg)
        requires
            target.wf(),
        ensures
            r.wf(),
            r@.command == NetMsgCmd::FindPeer,
            dec_findpeer(r@.payload) == Some(target@),
    {
        let bytes = copy_range(&target.bytes, 0, target.bytes.len());
        assert(bytes@ =~= target.bytes@);
        let body = FindPeerMsg { peer_id: PeerID::from_bytes(bytes) };
        let payload = encode_findpeer(&body);
        proof {
            lemma_findpeer_round_trip(body@);
        }
        NetMsg { command: NetMsgCmd::FindPeer, payload }
    }

    /// Builds the advert of this node sent when it listens itself.
    pub fn make_peer_msg(&self, endpoint: &Endpoint) -> (r: NetMsg)
        requires
            self.wf(),
            endpoint.spec_addr().len() <= 0xffff,
        ensures
            r.wf(),
            r@.command == NetMsgCmd::Peer,
            dec_peer(r@.payload) == Some(
                PeerMsgView {
                    addr: endpoint.spec_addr(),
                    port: endpoint.spec_port(),
                    discovery_port: self.config.discovery_port,
                    peer_id: self.id@,
                },
            ),
    {
        let ep_addr = endpoint.addr();
        let addr = copy_range(ep_addr, 0, ep_addr.len());
        assert(addr@ =~= endpoint.spec_addr());
        let id_bytes = copy_range(&self.id.bytes, 0, self.id.bytes.len());
        assert(id_bytes@ =~= self.id.bytes@);
        let body = PeerMsg {
            addr,
            port: endpoint.port(),
            discovery_port: self.config.discovery_port,
            peer_id: PeerID::from_bytes(id_bytes),
        };
        let payload = encode_peer(&body);
        proof {
            lemma_peer_round_trip(body@);
        }
        NetMsg { command: NetMsgCmd::Peer, payload }
    }

    /// Builds the closing frame of an outbound exchange.
    pub fn make_shutdown_msg(&self) -> (r: NetMsg)
        ensures
            r.wf(),
            r@.command == NetMsgCmd::Shutdown,
            dec_shutdown(r@.payload) == Some(0u8),
    {
        let payload = encode_shutdown(&ShutdownMsg { code: 0 });
        proof {
            lemma_shutdown_round_trip(0u8);
        }
        NetMsg { command: NetMsgCmd::Shutdown, payload }
    }
}

/// Checks the reply to a ping: it must be a pong echoing the nonce byte for
/// byte; any differing nonce is an invalid pong.
pub fn check_pong_msg(expected_nonce: &Vec<u8>, reply: &NetMsg) -> (r: Result<(), Error>)
    requires
        expected_nonce@.len() == 32,
    ensures
        (r is Ok) == (reply@.command == NetMsgCmd::Pong && dec_pong(reply@.payload) == Some(
            expected_nonce@,
        )),
        reply@.command != NetMsgCmd::Pong ==> (r matches Err(Error::InvalidMsg(_))),
        reply@.command == NetMsgCmd::Pong && dec_pong(reply@.payload) is None ==> r == Err::<
            (),
            Error,
        >(Error::Decoding),
        reply@.command == NetMsgCmd::Pong && (dec_pong(reply@.payload) matches Some(n) && n
            != expected_nonce@) ==> r == Err::<(), Error>(Error::InvalidPongMsg),
    {
    match reply.command {
        NetMsgCmd::Pong => {},
        _ => {
            return Err(Error::InvalidMsg("expected a pong frame"));
        },
    }
    let pong = match decode_pong(&reply.payload) {
        Some(p) => p,
        None => {
            return Err(Error::Decoding);
        },
    };
    if crate::peer::bytes_eq(&pong.nonce, expected_nonce) {
        Ok(())
    } else {
        Err(Error::InvalidPongMsg)
    }
}

/// Checks the reply to a find-peer question: it must be a peers frame whose
/// list is strictly shorter than the allowed maximum.
pub fn check_peers_reply(reply: &NetMsg) -> (r: Result<Vec<PeerMsg>, Error>)
    ensures
        reply@.command != NetMsgCmd::Peers ==> (r matches Err(Error::InvalidMsg(_))),
        reply@.command == NetMsgCmd::Peers && dec_peers(reply@.payload) is None ==> (r matches Err(
            e,
        ) && e == Error::Decoding),
        reply@.command == NetMsgCmd::Peers && (dec_peers(reply@.payload) matches Some(ps) && ps.len()
            >= MAX_PEERS_IN_PEERSMSG) ==> (r matches Err(Error::Lookup(_))),
        reply@.command == NetMsgCmd::Peers && (dec_peers(reply@.payload) matches Some(ps) && ps.len()
            < MAX_PEERS_IN_PEERSMSG) ==> (r matches Ok(v) && Some(v@.map_values(|p: PeerMsg| p@))
            == dec_peers(reply@.payload) && wf_peers(v@.map_values(|p: PeerMsg| p@))),
    {
    match reply.command {
        NetMsgCmd::Peers => {},
        _ => {
            return Err(Error::InvalidMsg("expected a peers frame"));
        },
    }
    let peers = match decode_peers(&reply.payload) {
        Some(m) => m,
        None => {
            return Err(Error::Decoding);
        },
    };
    if peers.peers.len() >= MAX_PEERS_IN_PEERSMSG {
        return Err(Error::Lookup("received too many peers in a peers frame"));
    }
    Ok(peers.peers)
}

/// The peer advert naming a table entry.
pub open spec fn peer_msg_of_entry(e: crate::routing_table::PeerEntryView) -> PeerMsgView {
    PeerMsgView {
        addr: e.addr,
        port: e.port,
        discovery_port: e.discovery_port,
        peer_id: e.peer_id,
    }
}

/// Some entry of `s` adverts as `pv`.
pub open spec fn msg_view_from_entries(s: Seq<PeerEntry>, pv: PeerMsgView) -> bool {
    exists|k: int| 0 <= k < s.len() && peer_msg_of_entry(#[trigger] s[k]@) == pv
}

/// What a correct reply to `FindPeer(target)` holds: as many of the table's
/// entries as allowed, each an advert of an entry, nearest to `target`
/// first, and none of the entries passed over is nearer than any sent.
pub open spec fn good_peers_reply(t: RoutingTable, target: Seq<u8>, ps: Seq<PeerMsgView>) -> bool {
    &&& ps.len() == if 10 <= t.entries@.len() {
        10int
    } else {
        t.entries@.len() as int
    }
    &&& forall|i: int, j: int|
        0 <= i < j < ps.len() ==> crate::peer::dist_le(
            target,
            (#[trigger] ps[i]).peer_id,
            (#[trigger] ps[j]).peer_id,
        )
    &&& forall|i: int| 0 <= i < ps.len() ==> msg_view_from_entries(t.entries@, #[trigger] ps[i])
    &&& forall|i: int, k: int|
        0 <= i < ps.len() && 0 <= k < t.entries@.len() && !view_in_seq(
            ps,
            peer_msg_of_entry(t.entries@[k]@),
        ) ==> crate::peer::dist_le(
            target,
            (#[trigger] ps[i]).peer_id,
            (#[trigger] t.entries@[k]@).peer_id,
        )
}

/// The table entry recording a peer advert, stamped with when it was seen.
pub open spec fn entry_view_of(
    p: PeerMsgView,
    last_seen: u64,
) -> crate::routing_table::PeerEntryView {
    crate::routing_table::PeerEntryView {
        peer_id: p.peer_id,
        addr: p.addr,
        port: p.port,
        discovery_port: p.discovery_port,
        last_seen,
    }
}

/// Turns a received peer advert into a table entry.
pub fn entry_from_peer_msg(p: PeerMsg, last_seen: u64) -> (r: PeerEntry)
    requires
        wf_peer(p@),
        p@.addr.len() <= 0xffff,
    ensures
        r@ == entry_view_of(p@, last_seen),
        wf_entry(r@),
{
    PeerEntry {
        peer_id: p.peer_id,
        addr: p.addr,
        port: p.port,
        discovery_port: p.discovery_port,
        last_seen,
    }
}

/// An advert of one table entry.
pub fn peer_msg_from_entry(e: &PeerEntry) -> (r: PeerMsg)
    requires
        wf_entry(e@),
    ensures
        r@ == peer_msg_of_entry(e@),
{
    let addr = copy_range(&e.addr, 0, e.addr.len());
    assert(addr@ =~= e.addr@);
    let id_bytes = copy_range(&e.peer_id.bytes, 0, e.peer_id.bytes.len());
    assert(id_bytes@ =~= e.peer_id.bytes@);
    PeerMsg {
        addr,
        port: e.port,
        discovery_port: e.discovery_port,
        peer_id: PeerID::from_bytes(id_bytes),
    }
}

/// What the inbound handler does with one frame.
#[derive(Debug, Clone, PartialEq, Eq)]
pub enum InboundAction {
    /// Send this frame back.
    Reply(NetMsg),
    /// A peer advert went to the routing table, with this verdict.
    PeerAdded(crate::routing_table::AddResult),
    /// The peer closed the exchange; return cleanly.
    ShutdownReceived,
}

/// Only the routing table differs between the two service states.
pub open spec fn same_but_table(a: LookupService, b: LookupService) -> bool {
    &&& a.id == b.id
    &&& a.listener == b.listener
    &&& a.connector == b.connector
    &&& a.listen_endpoint == b.listen_endpoint
    &&& a.config == b.config
}

impl LookupService {
    /// Answers one frame of an inbound exchange: a valid ping gets a pong
    /// echoing its nonce, a find-peer question gets the nearest known peers,
    /// a peer advert goes to the routing table, a shutdown ends the
    /// exchange, and anything else is refused.
    pub fn handle_inbound_msg(&mut self, msg: &NetMsg, now: u64) -> (r: Result<
        InboundAction,
        Error,
    >)
        requires
            old(self).wf(),
        ensures
            final(self).wf(),
            same_but_table(*final(self), *old(self)),
            msg@.command == NetMsgCmd::Shutdown ==> r == Ok::<InboundAction, Error>(
                InboundAction::ShutdownReceived,
            ) && *final(self) == *old(self),
            msg@.command == NetMsgCmd::Ping && dec_ping(msg@.payload) is None ==> r == Err::<
                InboundAction,
                Error,
            >(Error::Decoding) && *final(self) == *old(self),
            msg@.command == NetMsgCmd::Ping && (dec_ping(msg@.payload) matches Some(p)
                && !crate::version::semver_matches(old(self).config.version_req@, p.version)) ==> r
                == Err::<InboundAction, Error>(Error::IncompatibleVersion) && *final(self) == *old(self),
            msg@.command == NetMsgCmd::Ping && (dec_ping(msg@.payload) matches Some(p)
                && crate::version::semver_matches(old(self).config.version_req@, p.version)) ==> (
            r matches Ok(a) && a matches InboundAction::Reply(m) && m@.command == NetMsgCmd::Pong
                && dec_pong(m@.payload) == Some((dec_ping(msg@.payload)->Some_0).nonce)) && *final(self) == *old(self),
            msg@.command == NetMsgCmd::FindPeer && dec_findpeer(msg@.payload) is None ==> r
                == Err::<InboundAction, Error>(Error::Decoding) && *final(self) == *old(self),
            msg@.command == NetMsgCmd::FindPeer && dec_findpeer(msg@.payload) is Some ==> (
            r matches Ok(a) && a matches InboundAction::Reply(m) && m@.command == NetMsgCmd::Peers
                && (dec_peers(m@.payload) matches Some(ps) && good_peers_reply(
                old(self).table,
                dec_findpeer(msg@.payload)->Some_0,
                ps,
            ))) && *final(self) == *old(self),
            msg@.command == NetMsgCmd::Peer && dec_peer(msg@.payload) is None ==> r == Err::<
                InboundAction,
                Error,
            >(Error::Decoding) && *final(self) == *old(self),
            msg@.command == NetMsgCmd::Peer && (dec_peer(msg@.payload) matches Some(p) && p.addr.len()
                > 0xffff) ==> (r matches Err(Error::InvalidMsg(_))) && *final(self) == *old(self),
            msg@.command == NetMsgCmd::Peer && (dec_peer(msg@.payload) matches Some(p) && p.addr.len()
                <= 0xffff) ==> (r matches Ok(a) && a matches InboundAction::PeerAdded(res)
                && (exists|e: PeerEntry|
                e@ == entry_view_of(dec_peer(msg@.payload)->Some_0, now)
                    && #[trigger] crate::routing_table::spec_add_post(
                    old(self).table,
                    final(self).table,
                    e,
                    res,
                ))),
            msg@.command == NetMsgCmd::Pong || msg@.command == NetMsgCmd::Peers ==> (r matches Err(
                Error::InvalidMsg(_),
            )) && *final(self) == *old(self),
    {
        match msg.command {
            NetMsgCmd::Shutdown => Ok(InboundAction::ShutdownReceived),
            NetMsgCmd::Ping => {
                let ping = match decode_ping(&msg.payload) {
                    Some(p) => p,
                    None => {
                        return Err(Error::Decoding);
                    },
                };
                if !crate::version::version_match(self.config.version_req.as_str(), &ping.version)
                {
                    return Err(Error::IncompatibleVersion);
                }
                let body = PongMsg { nonce: ping.nonce };
                let payload = encode_pong(&body);
                proof {
                    lemma_pong_round_trip(body@);
                }
                Ok(InboundAction::Reply(NetMsg { command: NetMsgCmd::Pong, payload }))
            },
            NetMsgCmd::FindPeer => {
                let fp = match decode_findpeer(&msg.payload) {
                    Some(f) => f,
                    None => {
                        return Err(Error::Decoding);
                    },
                };
                let entries = self.table.closest_entries(&fp.peer_id, MAX_PEERS_IN_PEERSMSG);
                let k = entries.len();
                let mut peers: Vec<PeerMsg> = Vec::new();
                let mut i: usize = 0;
                while i < k
                    invariant
                        k == entries@.len(),
                        0 <= i <= k,
                        peers@.len() == i,
                        forall|a: int|
                            0 <= a < entries@.len() ==> wf_entry(#[trigger] entries@[a]@),
                        forall|a: int|
                            0 <= a < i ==> (#[trigger] peers@[a]@) == peer_msg_of_entry(
                                entries@[a]@,
                            ),
                    decreases k - i,
                {
                    assert(wf_entry(entries@[i as int]@));
                    peers.push(peer_msg_from_entry(&entries[i]));
                    i += 1;
                }
                let reply_body = PeersMsg { peers };
                assert forall|a: int|
                    0 <= a < reply_body@.len() implies wf_peer(#[trigger] reply_body@[a])
                    && reply_body@[a].addr.len() <= 0xffff by {
                    assert(reply_body@[a] == reply_body.peers@[a]@);
                    assert(reply_body.peers@[a]@ == peer_msg_of_entry(entries@[a]@));
                    assert(wf_entry(entries@[a]@));
                }
                let payload = encode_peers(&reply_body);
                proof {
                    lemma_peers_round_trip(reply_body@);
                    crate::codec::lemma_enc_peer_list_len(reply_body@);
                    assert(reply_body@.len() <= 10);
                    assert(payload@.len() <= 4 + 10 * 65575);
                }
                let out = NetMsg { command: NetMsgCmd::Peers, payload };
                proof {
                    let ghost tgt = fp.peer_id@;
                    assert forall|a: int|
                        0 <= a < reply_body@.len() implies msg_view_from_entries(
                        self.table.entries@,
                        #[trigger] reply_body@[a],
                    ) by {
                        assert(crate::routing_table::entry_view_in(
                            self.table.entries@,
                            entries@[a]@,
                        ));
                        let kk = choose|kk: int|
                            0 <= kk < self.table.entries@.len()
                                && #[trigger] self.table.entries@[kk]@ == entries@[a]@;
                        assert(peer_msg_of_entry(self.table.entries@[kk]@) == reply_body@[a]);
                    }
                    assert forall|a: int, kk: int|
                        0 <= a < reply_body@.len() && 0 <= kk < self.table.entries@.len()
                            && !view_in_seq(
                            reply_body@,
                            peer_msg_of_entry(self.table.entries@[kk]@),
                        ) implies crate::peer::dist_le(
                        tgt,
                        (#[trigger] reply_body@[a]).peer_id,
                        (#[trigger] self.table.entries@[kk]@).peer_id,
                    ) by {
                        if crate::routing_table::entry_view_in(
                            entries@,
                            self.table.entries@[kk]@,
                        ) {
                            let b = choose|b: int|
                                0 <= b < entries@.len() && #[trigger] entries@[b]@
                                    == self.table.entries@[kk]@;
                            assert(reply_body@[b] == peer_msg_of_entry(self.table.entries@[kk]@));
                            assert(view_in_seq(
                                reply_body@,
                                peer_msg_of_entry(self.table.entries@[kk]@),
                            ));
                        }
                        assert(!crate::routing_table::entry_view_in(
                            entries@,
                            self.table.entries@[kk]@,
                        ));
                        assert(reply_body@[a].peer_id == entries@[a]@.peer_id);
                    }
                    assert(good_peers_reply(self.table, fp.peer_id@, reply_body@));
                }
                Ok(InboundAction::Reply(out))
            },
            NetMsgCmd::Peer => {
                let p = match decode_peer(&msg.payload) {
                    Some(p) => p,
                    None => {
                        return Err(Error::Decoding);
                    },
                };
                if p.addr.len() > 0xffff {
                    return Err(Error::InvalidMsg("peer advert carries an oversized address"));
                }
                let entry = entry_from_peer_msg(p, now);
                let ghost ge = entry;
                let res = self.table.add_entry(entry);
                proof {
                    assert(crate::routing_table::spec_add_post(
                        old(self).table,
                        self.table,
                        ge,
                        res,
                    ));
                }
                Ok(InboundAction::PeerAdded(res))
            },
            _ => Err(Error::InvalidMsg("unexpected message in an inbound exchange")),
        }
    }
}

/// Some member of `s` equals `p`.
pub open spec fn view_in_seq(s: Seq<PeerMsgView>, p: PeerMsgView) -> bool {
    exists|i: int| 0 <= i < s.len() && #[trigger] s[i] == p
}

/// Whether a freshly received peer advert is kept: not seen in this lookup
/// already, not this node itself, and not already in the routing table.
pub open spec fn spec_keep(
    acc: Seq<PeerMsgView>,
    p: PeerMsgView,
    self_id: Seq<u8>,
    t: RoutingTable,
) -> bool {
    !view_in_seq(acc, p) && p.peer_id != self_id && !t.contains_id(p.peer_id)
}

/// The accumulated peers after folding a batch of received adverts through
/// the keep rule, in order.
pub open spec fn spec_merge(
    acc: Seq<PeerMsgView>,
    news: Seq<PeerMsgView>,
    self_id: Seq<u8>,
    t: RoutingTable,
) -> Seq<PeerMsgView>
    decreases news.len(),
{
    if news.len() == 0 {
        acc
    } else {
        let acc2 = if spec_keep(acc, news[0], self_id, t) {
            acc.push(news[0])
        } else {
            acc
        };
        spec_merge(acc2, news.skip(1), self_id, t)
    }
}

/// Folding one more advert continues the merge.
pub proof fn lemma_spec_merge_snoc(
    acc: Seq<PeerMsgView>,
    news: Seq<PeerMsgView>,
    x: PeerMsgView,
    self_id: Seq<u8>,
    t: RoutingTable,
)
    ensures
        spec_merge(acc, news.push(x), self_id, t) == (if spec_keep(
            spec_merge(acc, news, self_id, t),
            x,
            self_id,
            t,
        ) {
            spec_merge(acc, news, self_id, t).push(x)
        } else {
            spec_merge(acc, news, self_id, t)
        }),
    decreases news.len(),
{
    assert(news.push(x)[0] == if news.len() == 0 {
        x
    } else {
        news[0]
    });
    if news.len() == 0 {
        assert(news.push(x).skip(1) =~= Seq::<PeerMsgView>::empty());
        let acc2 = if spec_keep(acc, x, self_id, t) {
            acc.push(x)
        } else {
            acc
        };
        assert(spec_merge(acc, news.push(x), self_id, t) == spec_merge(
            acc2,
            Seq::<PeerMsgView>::empty(),
            self_id,
            t,
        ));
        assert(spec_merge(acc2, Seq::<PeerMsgView>::empty(), self_id, t) == acc2);
        assert(spec_merge(acc, news, self_id, t) == acc);
    } else {
        assert(news.push(x).skip(1) =~= news.skip(1).push(x));
        let acc2 = if spec_keep(acc, news[0], self_id, t) {
            acc.push(news[0])
        } else {
            acc
        };
        lemma_spec_merge_snoc(acc2, news.skip(1), x, self_id, t);
    }
}

/// Field-for-field equality of two peer adverts.
pub fn peer_msg_eq(a: &PeerMsg, b: &PeerMsg) -> (r: bool)
    ensures
        r == (a@ == b@),
{
    let same = crate::peer::bytes_eq(&a.addr, &b.addr) && a.port == b.port && a.discovery_port
        == b.discovery_port && crate::peer::bytes_eq(&a.peer_id.bytes, &b.peer_id.bytes);
    if same {
        assert(a@ == b@);
    } else {
        assert(a@ != b@);
    }
    same
}

/// Copies one peer advert, field for field.
pub fn clone_peer_msg(p: &PeerMsg) -> (r: PeerMsg)
    ensures
        r@ == p@,
{
    let addr = copy_range(&p.addr, 0, p.addr.len());
    assert(addr@ =~= p.addr@);
    let id_bytes = copy_range(&p.peer_id.bytes, 0, p.peer_id.bytes.len());
    assert(id_bytes@ =~= p.peer_id.bytes@);
    PeerMsg {
        addr,
        port: p.port,
        discovery_port: p.discovery_port,
        peer_id: PeerID { bytes: id_bytes },
    }
}

/// Whether some advert in `acc` equals `p`.
pub fn contains_peer(acc: &Vec<PeerMsg>, p: &PeerMsg) -> (r: bool)
    ensures
        r == view_in_seq(acc@.map_values(|q: PeerMsg| q@), p@),
{
    let ghost views = acc@.map_values(|q: PeerMsg| q@);
    let n = acc.len();
    let mut i: usize = 0;
    while i < n
        invariant
            n == acc@.len(),
            views == acc@.map_values(|q: PeerMsg| q@),
            0 <= i <= n,
            forall|j: int| 0 <= j < i ==> #[trigger] views[j] != p@,
        decreases n - i,
    {
        assert(views[i as int] == acc@[i as int]@);
        if peer_msg_eq(&acc[i], p) {
            return true;
        }
        i += 1;
    }
    false
}

impl LookupService {
    /// Folds one batch of received adverts into the accumulator of a random
    /// lookup, keeping an advert only when it is new to this lookup, is not
    /// this node, and is not already in the routing table.
    pub fn merge_random_peers(&self, acc: &mut Vec<PeerMsg>, new_peers: &Vec<PeerMsg>)
        requires
            self.wf(),
            forall|i: int| 0 <= i < new_peers@.len() ==> wf_peer(#[trigger] new_peers@[i]@),
        ensures
            final(acc)@.map_values(|q: PeerMsg| q@) == spec_merge(
                old(acc)@.map_values(|q: PeerMsg| q@),
                new_peers@.map_values(|q: PeerMsg| q@),
                self.id@,
                self.table,
            ),
    {
        let ghost news = new_peers@.map_values(|q: PeerMsg| q@);
        let ghost acc0 = old(acc)@.map_values(|q: PeerMsg| q@);
        let n = new_peers.len();
        let mut i: usize = 0;
        while i < n
            invariant
                self.wf(),
                forall|j: int| 0 <= j < new_peers@.len() ==> wf_peer(#[trigger] new_peers@[j]@),
                news == new_peers@.map_values(|q: PeerMsg| q@),
                n == new_peers@.len(),
                0 <= i <= n,
                acc@.map_values(|q: PeerMsg| q@) == spec_merge(
                    acc0,
                    news.take(i as int),
                    self.id@,
                    self.table,
                ),
            decreases n - i,
        {
            let ghost accv = acc@.map_values(|q: PeerMsg| q@);
            assert(news[i as int] == new_peers@[i as int]@);
            assert(wf_peer(new_peers@[i as int]@));
            let p = &new_peers[i];
            let keep = !contains_peer(acc, p) && !p.peer_id.eq_id(&self.id)
                && !self.table.contains_key(&p.peer_id);
            assert(keep == spec_keep(accv, news[i as int], self.id@, self.table));
            if keep {
                acc.push(clone_peer_msg(p));
                assert(acc@.map_values(|q: PeerMsg| q@) =~= accv.push(news[i as int]));
            }
            proof {
                lemma_spec_merge_snoc(acc0, news.take(i as int), news[i as int], self.id@, self.table);
                assert(news.take(i + 1) =~= news.take(i as int).push(news[i as int]));
            }
            i += 1;
        }
        assert(news.take(n as int) =~= news);
    }

    /// The endpoints a self lookup dials: each kept advert's address at its
    /// discovery port. An empty accumulator plans an empty self lookup.
    pub fn plan_self_lookup(&self, random_peers: &Vec<PeerMsg>) -> (r: Vec<Endpoint>)
        ensures
            r@.len() == random_peers@.len(),
            forall|i: int|
                0 <= i < r@.len() ==> (#[trigger] r@[i]).spec_is_tcp() && r@[i].spec_addr()
                    == random_peers@[i]@.addr && r@[i].spec_port()
                    == random_peers@[i]@.discovery_port,
    {
        let n = random_peers.len();
        let mut out: Vec<Endpoint> = Vec::new();
        let mut i: usize = 0;
        while i < n
            invariant
                n == random_peers@.len(),
                0 <= i <= n,
                out@.len() == i,
                forall|j: int|
                    0 <= j < i ==> (#[trigger] out@[j]).spec_is_tcp() && out@[j].spec_addr()
                        == random_peers@[j]@.addr && out@[j].spec_port()
                        == random_peers@[j]@.discovery_port,
            decreases n - i,
        {
            let p = &random_peers[i];
            let addr = copy_range(&p.addr, 0, p.addr.len());
            assert(addr@ =~= p.addr@);
            out.push(Endpoint::Tcp(addr, p.discovery_port));
            i += 1;
        }
        out
    }

    /// Inserts every buffered peer into the routing table; an advert with an
    /// oversized address is passed over. The final table is exactly the
    /// result of one `add_entry` step per buffered peer, back to front.
    pub fn finalize_lookup(&mut self, peer_buffer: Vec<PeerMsg>, now: u64)
        requires
            old(self).wf(),
            forall|i: int| 0 <= i < peer_buffer@.len() ==> wf_peer(#[trigger] peer_buffer@[i]@),
        ensures
            final(self).wf(),
            same_but_table(*final(self), *old(self)),
            final(self).table.self_id == old(self).table.self_id,
            final(self).table.capacity == old(self).table.capacity,
            spec_buffer_inserted(
                old(self).table,
                peer_buffer@.map_values(|q: PeerMsg| q@),
                now,
                final(self).table,
            ),
    {
        let ghost views = peer_buffer@.map_values(|q: PeerMsg| q@);
        let mut rest = peer_buffer;
        proof {
            assert(rest@ =~= peer_buffer@.take(rest@.len() as int));
            assert(views.skip(rest@.len() as int) =~= Seq::<PeerMsgView>::empty());
        }
        while rest.len() > 0
            invariant
                self.wf(),
                same_but_table(*self, *old(self)),
                self.table.self_id == old(self).table.self_id,
                self.table.capacity == old(self).table.capacity,
                views == peer_buffer@.map_values(|q: PeerMsg| q@),
                forall|i: int| 0 <= i < peer_buffer@.len() ==> wf_peer(#[trigger] peer_buffer@[i]@),
                rest@.len() <= peer_buffer@.len(),
                rest@ == peer_buffer@.take(rest@.len() as int),
                spec_buffer_inserted(
                    old(self).table,
                    views.skip(rest@.len() as int),
                    now,
                    self.table,
                ),
            decreases rest@.len(),
        {
            let ghost rl = rest@.len() as int;
            let ghost table_before = self.table;
            assert(rest@[rl - 1] == peer_buffer@[rl - 1]);
            assert(wf_peer(peer_buffer@[rl - 1]@));
            let p = rest.pop().unwrap();
            assert(p == peer_buffer@[rl - 1]);
            assert(rest@ =~= peer_buffer@.take(rl - 1));
            let ghost x = views[rl - 1];
            assert(x == p@);
            if p.addr.len() <= 0xffff {
                let entry = entry_from_peer_msg(p, now);
                let ghost ge = entry;
                let res = self.table.add_entry(entry);
                proof {
                    assert(spec_add_post(table_before, self.table, ge, res));
                    assert(spec_insert_step(table_before, x, now, self.table));
                }
            } else {
                assert(x.addr.len() > 0xffff);
                assert(spec_insert_step(table_before, x, now, self.table));
            }
            proof {
                lemma_buffer_inserted_extend(
                    old(self).table,
                    views.skip(rl),
                    now,
                    table_before,
                    x,
                    self.table,
                );
                assert(seq![x] + views.skip(rl) =~= views.skip(rl - 1));
            }
        }
        proof {
            assert(views.skip(0) =~= views);
        }
    }
}

/// One insertion step of `finalize_lookup`: the advert went through
/// `add_entry` stamped with `now`, or was passed over for an oversized
/// address.
pub open spec fn spec_insert_step(
    before: RoutingTable,
    p: PeerMsgView,
    now: u64,
    after: RoutingTable,
) -> bool {
    if p.addr.len() <= 0xffff {
        exists|e: PeerEntry, res: AddResult|
            e@ == entry_view_of(p, now) && #[trigger] spec_add_post(before, after, e, res)
    } else {
        after == before
    }
}

/// The table `after` is the result of folding `add_entry` over `buffer`,
/// taking the adverts from the back, as the insertion loop pops them.
pub open spec fn spec_buffer_inserted(
    before: RoutingTable,
    buffer: Seq<PeerMsgView>,
    now: u64,
    after: RoutingTable,
) -> bool
    decreases buffer.len(),
{
    if buffer.len() == 0 {
        after == before
    } else {
        exists|mid: RoutingTable|
            #[trigger] spec_insert_step(before, buffer.last(), now, mid) && spec_buffer_inserted(
                mid,
                buffer.drop_last(),
                now,
                after,
            )
    }
}

/// One more step at the front of the insertion order extends the fold.
proof fn lemma_buffer_inserted_extend(
    b: RoutingTable,
    s: Seq<PeerMsgView>,
    now: u64,
    m: RoutingTable,
    x: PeerMsgView,
    a: RoutingTable,
)
    requires
        spec_buffer_inserted(b, s, now, m),
        spec_insert_step(m, x, now, a),
    ensures
        spec_buffer_inserted(b, seq![x] + s, now, a),
    decreases s.len(),
{
    let s2 = seq![x] + s;
    if s.len() == 0 {
        assert(s2.last() == x);
        assert(s2.drop_last() =~= Seq::<PeerMsgView>::empty());
        assert(m == b);
        assert(spec_insert_step(b, s2.last(), now, a));
        assert(spec_buffer_inserted(a, s2.drop_last(), now, a));
    } else {
        assert(s2.last() == s.last());
        assert(s2.drop_last() =~= seq![x] + s.drop_last());
        let mid = choose|mid: RoutingTable|
            #[trigger] spec_insert_step(b, s.last(), now, mid) && spec_buffer_inserted(
                mid,
                s.drop_last(),
                now,
                m,
            );
        lemma_buffer_inserted_extend(mid, s.drop_last(), now, m, x, a);
        assert(spec_insert_step(b, s2.last(), now, mid));
        assert(spec_buffer_inserted(mid, s2.drop_last(), now, a));
    }
}

/// How many peers a top-up moves from the leftover adverts to the buffer:
/// up to the frame maximum, as far as the leftovers reach.
pub open spec fn spec_topup_k(buffered: int, leftover: int) -> int {
    if buffered >= 10 {
        0
    } else if leftover <= 10 - buffered {
        leftover
    } else {
        10 - buffered
    }
}

/// Moves leftover adverts from the back of `random_peers` into `buffer`
/// until the buffer holds the frame maximum or nothing is left.
pub fn top_up(buffer: &mut Vec<PeerMsg>, random_peers: &mut Vec<PeerMsg>)
    ensures
        final(buffer)@.len() == old(buffer)@.len() + spec_topup_k(
            old(buffer)@.len() as int,
            old(random_peers)@.len() as int,
        ),
        final(random_peers)@ == old(random_peers)@.take(
            old(random_peers)@.len() - spec_topup_k(
                old(buffer)@.len() as int,
                old(random_peers)@.len() as int,
            ),
        ),
        forall|j: int|
            0 <= j < old(buffer)@.len() ==> #[trigger] final(buffer)@[j] == old(buffer)@[j],
        forall|j: int|
            0 <= j < spec_topup_k(old(buffer)@.len() as int, old(random_peers)@.len() as int)
                ==> #[trigger] final(buffer)@[old(buffer)@.len() + j]
                == old(random_peers)@[old(random_peers)@.len() - 1 - j],
{
    let ghost b0 = old(buffer)@;
    let ghost r0 = old(random_peers)@;
    while buffer.len() < MAX_PEERS_IN_PEERSMSG && random_peers.len() > 0
        invariant
            random_peers@.len() <= r0.len(),
            random_peers@ == r0.take(random_peers@.len() as int),
            buffer@.len() == b0.len() + (r0.len() - random_peers@.len()),
            b0.len() >= 10 ==> buffer@.len() == b0.len(),
            b0.len() < 10 ==> buffer@.len() <= 10,
            forall|j: int| 0 <= j < b0.len() ==> #[trigger] buffer@[j] == b0[j],
            forall|j: int|
                0 <= j < r0.len() - random_peers@.len() ==> #[trigger] buffer@[b0.len() + j]
                    == r0[r0.len() - 1 - j],
        decreases random_peers@.len(),
    {
        let ghost rl = random_peers@.len() as int;
        let p = random_peers.pop().unwrap();
        assert(p == r0.take(rl)[rl - 1]);
        assert(random_peers@ =~= r0.take(rl - 1));
        buffer.push(p);
    }
}

/// A random permutation of the adverts gathered by a random lookup.
/// Relies on rand's SliceRandom::shuffle: the result holds exactly the same
/// peers; nothing is promised of their order.
#[verifier::external_body]
pub fn shuffle_peers(peers: Vec<PeerMsg>) -> (r: Vec<PeerMsg>)
    ensures
        r@.to_multiset() == peers@.to_multiset(),
{
    let mut shuffled = peers;
    rand::seq::SliceRandom::shuffle(shuffled.as_mut_slice(), &mut rand::rngs::OsRng);
    shuffled
}

/// Draws a fresh 32-byte ping nonce.
/// Relies on rand's OsRng::fill_bytes: fills the buffer; nothing further can
/// be promised of random output.
#[verifier::external_body]
pub fn random_nonce() -> (r: Vec<u8>)
    ensures
        r@.len() == 32,
{
    let mut bytes = vec![0u8; 32];
    rand::RngCore::fill_bytes(&mut rand::rngs::OsRng, &mut bytes);
    bytes
}

} // verus!
