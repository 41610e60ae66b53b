//! Binary encoding of the wire messages: little-endian integers and
//! length-prefixed variable fields, with round-trip proofs.
use vstd::prelude::*;

use crate::message::{
    cmd_tag, spec_cmd_tag, spec_tag_cmd, tag_cmd, wf_peer, wf_peers, wf_ping, FindPeerMsg,
    NetMsg, NetMsgCmd, NetMsgView, PeerMsg, PeerMsgView, PeersMsg, PingMsg, PingMsgView,
    PongMsg, ShutdownMsg,
};

verus! {

/// The four little-endian bytes of a 32-bit integer.
pub open spec fn u32_le(n: u32) -> Seq<u8> {
    seq![
        (n & 0xff) as u8,
        ((n >> 8) & 0xff) as u8,
        ((n >> 16) & 0xff) as u8,
        ((n >> 24) & 0xff) as u8,
    ]
}

/// The 32-bit integer spelled by four little-endian bytes.
pub open spec fn le_u32(s: Seq<u8>) -> u32 {
    (s[0] as u32) | ((s[1] as u32) << 8) | ((s[2] as u32) << 16) | ((s[3] as u32) << 24)
}

/// The two little-endian bytes of a 16-bit integer.
pub open spec fn u16_le(n: u16) -> Seq<u8> {
    seq![(n & 0xff) as u8, ((n >> 8) & 0xff) as u8]
}

/// The 16-bit integer spelled by two little-endian bytes.
pub open spec fn le_u16(s: Seq<u8>) -> u16 {
    (s[0] as u16) | ((s[1] as u16) << 8)
}

/// Reading back the four bytes of an integer yields the integer.
pub proof fn lemma_u32_le_inverse(n: u32)
    ensures
        le_u32(u32_le(n)) == n,
{
    let b0 = (n & 0xff) as u8;
    let b1 = ((n >> 8) & 0xff) as u8;
    let b2 = ((n >> 16) & 0xff) as u8;
    let b3 = ((n >> 24) & 0xff) as u8;
    assert((b0 as u32) | ((b1 as u32) << 8) | ((b2 as u32) << 16) | ((b3 as u32) << 24) == n)
        by (bit_vector)
        requires
            b0 == (n & 0xff) as u8,
            b1 == ((n >> 8) & 0xff) as u8,
            b2 == ((n >> 16) & 0xff) as u8,
            b3 == ((n >> 24) & 0xff) as u8,
    ;
    assert(u32_le(n) =~= seq![b0, b1, b2, b3]);
}

/// Reading back the two bytes of an integer yields the integer.
pub proof fn lemma_u16_le_inverse(n: u16)
    ensures
        le_u16(u16_le(n)) == n,
{
    let b0 = (n & 0xff) as u8;
    let b1 = ((n >> 8) & 0xff) as u8;
    assert((b0 as u16) | ((b1 as u16) << 8) == n) by (bit_vector)
        requires
            b0 == (n & 0xff) as u8,
            b1 == ((n >> 8) & 0xff) as u8,
    ;
    assert(u16_le(n) =~= seq![b0, b1]);
}

/// Appends the little-endian bytes of a 32-bit integer.
pub fn push_u32_le(out: &mut Vec<u8>, n: u32)
    ensures
        final(out)@ == old(out)@ + u32_le(n),
{
    out.push((n & 0xff) as u8);
    out.push(((n >> 8) & 0xff) as u8);
    out.push(((n >> 16) & 0xff) as u8);
    out.push(((n >> 24) & 0xff) as u8);
    assert(out@ =~= old(out)@ + u32_le(n));
}

/// Appends the little-endian bytes of a 16-bit integer.
pub fn push_u16_le(out: &mut Vec<u8>, n: u16)
    ensures
        final(out)@ == old(out)@ + u16_le(n),
{
    out.push((n & 0xff) as u8);
    out.push(((n >> 8) & 0xff) as u8);
    assert(out@ =~= old(out)@ + u16_le(n));
}

/// Reads the 32-bit integer at `at`.
pub fn read_u32_le(b: &Vec<u8>, at: usize) -> (r: u32)
    requires
        at + 4 <= b@.len(),
    ensures
        r == le_u32(b@.subrange(at as int, at + 4)),
{
    let n = b.len();
    let r = (b[at] as u32) | ((b[at + 1] as u32) << 8) | ((b[at + 2] as u32) << 16) | ((b[at
        + 3] as u32) << 24);
    assert(b@.subrange(at as int, at + 4)[0] == b@[at as int]);
    assert(b@.subrange(at as int, at + 4)[1] == b@[at + 1]);
    assert(b@.subrange(at as int, at + 4)[2] == b@[at + 2]);
    assert(b@.subrange(at as int, at + 4)[3] == b@[at + 3]);
    r
}

/// Reads the 16-bit integer at `at`.
pub fn read_u16_le(b: &Vec<u8>, at: usize) -> (r: u16)
    requires
        at + 2 <= b@.len(),
    ensures
        r == le_u16(b@.subrange(at as int, at + 2)),
{
    let n = b.len();
    let r = (b[at] as u16) | ((b[at + 1] as u16) << 8);
    assert(b@.subrange(at as int, at + 2)[0] == b@[at as int]);
    assert(b@.subrange(at as int, at + 2)[1] == b@[at + 1]);
    r
}

/// Appends every byte of `src`.
pub fn extend_bytes(out: &mut Vec<u8>, src: &Vec<u8>)
    ensures
        final(out)@ == old(out)@ + src@,
{
    let n = src.len();
    let mut i: usize = 0;
    while i < n
        invariant
            n == src@.len(),
            0 <= i <= n,
            out@ == old(out)@ + src@.subrange(0, i as int),
        decreases n - i,
    {
        out.push(src[i]);
        assert(out@ =~= old(out)@ + src@.subrange(0, i + 1));
        i += 1;
    }
    assert(out@ =~= old(out)@ + src@);
}

/// Encoding of a ping body: length-prefixed version bytes, then the nonce.
pub open spec fn enc_ping(v: PingMsgView) -> Seq<u8> {
    u32_le(v.version.len() as u32) + v.version + v.nonce
}

/// Decoding of a ping body; `None` unless the bytes are exactly one encoding.
pub open spec fn dec_ping(b: Seq<u8>) -> Option<PingMsgView> {
    if b.len() >= 4 {
        let l = le_u32(b.subrange(0, 4)) as int;
        if b.len() == 4 + l + 32 {
            Some(
                PingMsgView {
                    version: b.subrange(4, 4 + l),
                    nonce: b.subrange(4 + l, b.len() as int),
                },
            )
        } else {
            None
        }
    } else {
        None
    }
}

/// Encoding of a pong body: the 32 nonce bytes themselves.
pub open spec fn enc_pong(nonce: Seq<u8>) -> Seq<u8> {
    nonce
}

/// Decoding of a pong body.
pub open spec fn dec_pong(b: Seq<u8>) -> Option<Seq<u8>> {
    if b.len() == 32 {
        Some(b)
    } else {
        None
    }
}

/// Encoding of a find-peer body: the 32 id bytes themselves.
pub open spec fn enc_findpeer(id: Seq<u8>) -> Seq<u8> {
    id
}

/// Decoding of a find-peer body.
pub open spec fn dec_findpeer(b: Seq<u8>) -> Option<Seq<u8>> {
    if b.len() == 32 {
        Some(b)
    } else {
        None
    }
}

/// Encoding of a shutdown body: the one reason byte.
pub open spec fn enc_shutdown(code: u8) -> Seq<u8> {
    seq![code]
}

/// Decoding of a shutdown body.
pub open spec fn dec_shutdown(b: Seq<u8>) -> Option<u8> {
    if b.len() == 1 {
        Some(b[0])
    } else {
        None
    }
}

/// Encoding of a whole frame: tag byte, payload length, payload.
pub open spec fn enc_netmsg(m: NetMsgView) -> Seq<u8> {
    seq![spec_cmd_tag(m.command)] + u32_le(m.payload.len() as u32) + m.payload
}

/// Decoding of a whole frame.
pub open spec fn dec_netmsg(b: Seq<u8>) -> Option<NetMsgView> {
    if b.len() >= 5 {
        match spec_tag_cmd(b[0]) {
            Some(cmd) => {
                let l = le_u32(b.subrange(1, 5)) as int;
                if b.len() == 5 + l {
                    Some(NetMsgView { command: cmd, payload: b.subrange(5, b.len() as int) })
                } else {
                    None
                }
            },
            None => None,
        }
    } else {
        None
    }
}

/// Encoding of one advertised peer: length-prefixed address, the two ports,
/// then the 32 id bytes.
pub open spec fn enc_peer(p: PeerMsgView) -> Seq<u8> {
    u32_le(p.addr.len() as u32) + p.addr + u16_le(p.port) + u16_le(p.discovery_port) + p.peer_id
}

/// Decoding of one peer standing at the front of `b`, together with how many
/// bytes it took.
pub open spec fn dec_peer_at(b: Seq<u8>) -> Option<(PeerMsgView, int)> {
    if b.len() >= 4 {
        let l = le_u32(b.subrange(0, 4)) as int;
        if b.len() >= 4 + l + 36 {
            Some(
                (
                    PeerMsgView {
                        addr: b.subrange(4, 4 + l),
                        port: le_u16(b.subrange(4 + l, 4 + l + 2)),
                        discovery_port: le_u16(b.subrange(4 + l + 2, 4 + l + 4)),
                        peer_id: b.subrange(4 + l + 4, 4 + l + 36),
                    },
                    4 + l + 36,
                ),
            )
        } else {
            None
        }
    } else {
        None
    }
}

/// Decoding of a peer body that takes all of `b`.
pub open spec fn dec_peer(b: Seq<u8>) -> Option<PeerMsgView> {
    match dec_peer_at(b) {
        Some(pc) => if pc.1 == b.len() {
            Some(pc.0)
        } else {
            None
        },
        None => None,
    }
}

/// Encoding of a run of peers, one after the other.
pub open spec fn enc_peer_list(ps: Seq<PeerMsgView>) -> Seq<u8>
    decreases ps.len(),
{
    if ps.len() == 0 {
        Seq::empty()
    } else {
        enc_peer(ps[0]) + enc_peer_list(ps.skip(1))
    }
}

/// Decoding of exactly `n` peers that together take all of `b`.
pub open spec fn dec_peer_list(b: Seq<u8>, n: nat) -> Option<Seq<PeerMsgView>>
    decreases n,
{
    if n == 0 {
        if b.len() == 0 {
            Some(Seq::empty())
        } else {
            None
        }
    } else {
        match dec_peer_at(b) {
            Some(pc) => match dec_peer_list(b.skip(pc.1), (n - 1) as nat) {
                Some(rest) => Some(seq![pc.0] + rest),
                None => None,
            },
            None => None,
        }
    }
}

/// Encoding of a peers body: the count, then the peers.
pub open spec fn enc_peers(ps: Seq<PeerMsgView>) -> Seq<u8> {
    u32_le(ps.len() as u32) + enc_peer_list(ps)
}

/// Decoding of a peers body.
pub open spec fn dec_peers(b: Seq<u8>) -> Option<Seq<PeerMsgView>> {
    if b.len() >= 4 {
        dec_peer_list(b.skip(4), le_u32(b.subrange(0, 4)) as nat)
    } else {
        None
    }
}

/// Copies the bytes of `b` between `start` and `end` into a fresh vector.
pub fn copy_range(b: &Vec<u8>, start: usize, end: usize) -> (r: Vec<u8>)
    requires
        start <= end <= b@.len(),
    ensures
        r@ == b@.subrange(start as int, end as int),
{
    let mut out: Vec<u8> = Vec::new();
    let mut i: usize = start;
    while i < end
        invariant
            start <= i <= end <= b@.len(),
            out@ == b@.subrange(start as int, i as int),
        decreases end - i,
    {
        out.push(b[i]);
        assert(out@ =~= b@.subrange(start as int, i + 1));
        i += 1;
    }
    out
}

/// Encodes a ping body.
pub fn encode_ping(m: &PingMsg) -> (r: Vec<u8>)
    requires
        wf_ping(m@),
    ensures
        r@ == enc_ping(m@),
{
    let mut out: Vec<u8> = Vec::new();
    push_u32_le(&mut out, m.version.len() as u32);
    extend_bytes(&mut out, &m.version);
    extend_bytes(&mut out, &m.nonce);
    assert(out@ =~= enc_ping(m@));
    out
}

/// Decodes a ping body; returns exactly what `dec_ping` names.
pub fn decode_ping(b: &Vec<u8>) -> (r: Option<PingMsg>)
    ensures
        (r is Some) == (dec_ping(b@) is Some),
        r matches Some(m) ==> Some(m@) == dec_ping(b@) && wf_ping(m@),
{
    let n = b.len();
    if n < 36 {
        return None;
    }
    let l32 = read_u32_le(b, 0);
    let l = l32 as usize;
    if l != n - 36 {
        return None;
    }
    let version = copy_range(b, 4, 4 + l);
    let nonce = copy_range(b, 4 + l, n);
    let m = PingMsg { version, nonce };
    assert(Some(m@) == dec_ping(b@));
    Some(m)
}

/// Encodes a pong body.
pub fn encode_pong(m: &PongMsg) -> (r: Vec<u8>)
    requires
        m@.len() == 32,
    ensures
        r@ == enc_pong(m@),
{
    copy_range(&m.nonce, 0, m.nonce.len())
}

/// Decodes a pong body.
pub fn decode_pong(b: &Vec<u8>) -> (r: Option<PongMsg>)
    ensures
        (r is Some) == (dec_pong(b@) is Some),
        r matches Some(m) ==> Some(m@) == dec_pong(b@) && m@.len() == 32,
{
    let n = b.len();
    if n != 32 {
        return None;
    }
    let nonce = copy_range(b, 0, n);
    assert(nonce@ =~= b@);
    Some(PongMsg { nonce })
}

/// Encodes a find-peer body.
pub fn encode_findpeer(m: &FindPeerMsg) -> (r: Vec<u8>)
    requires
        m@.len() == 32,
    ensures
        r@ == enc_findpeer(m@),
{
    copy_range(&m.peer_id.bytes, 0, m.peer_id.bytes.len())
}

/// Decodes a find-peer body.
pub fn decode_findpeer(b: &Vec<u8>) -> (r: Option<FindPeerMsg>)
    ensures
        (r is Some) == (dec_findpeer(b@) is Some),
        r matches Some(m) ==> Some(m@) == dec_findpeer(b@) && m.peer_id.wf(),
{
    let n = b.len();
    if n != 32 {
        return None;
    }
    let bytes = copy_range(b, 0, n);
    assert(bytes@ =~= b@);
    Some(FindPeerMsg { peer_id: crate::peer::PeerID::from_bytes(bytes) })
}

/// Encodes a shutdown body.
pub fn encode_shutdown(m: &ShutdownMsg) -> (r: Vec<u8>)
    ensures
        r@ == enc_shutdown(m.code),
{
    let mut out: Vec<u8> = Vec::new();
    out.push(m.code);
    assert(out@ =~= enc_shutdown(m.code));
    out
}

/// Decodes a shutdown body.
pub fn decode_shutdown(b: &Vec<u8>) -> (r: Option<ShutdownMsg>)
    ensures
        (r is Some) == (dec_shutdown(b@) is Some),
        r matches Some(m) ==> Some(m.code) == dec_shutdown(b@),
{
    if b.len() != 1 {
        return None;
    }
    Some(ShutdownMsg { code: b[0] })
}

/// Encodes a whole frame.
pub fn encode_netmsg(m: &NetMsg) -> (r: Vec<u8>)
    requires
        m.wf(),
    ensures
        r@ == enc_netmsg(m@),
{
    let mut out: Vec<u8> = Vec::new();
    out.push(cmd_tag(m.command));
    push_u32_le(&mut out, m.payload.len() as u32);
    extend_bytes(&mut out, &m.payload);
    assert(out@ =~= enc_netmsg(m@));
    out
}

/// Decodes a whole frame.
pub fn decode_netmsg(b: &Vec<u8>) -> (r: Option<NetMsg>)
    ensures
        (r is Some) == (dec_netmsg(b@) is Some),
        r matches Some(m) ==> Some(m@) == dec_netmsg(b@) && m.wf(),
{
    let n = b.len();
    if n < 5 {
        return None;
    }
    let cmd = match tag_cmd(b[0]) {
        Some(c) => c,
        None => {
            return None;
        },
    };
    let l32 = read_u32_le(b, 1);
    let l = l32 as usize;
    if l != n - 5 {
        return None;
    }
    let payload = copy_range(b, 5, n);
    let m = NetMsg { command: cmd, payload };
    assert(Some(m@) == dec_netmsg(b@));
    Some(m)
}

/// Encodes one advertised peer.
pub fn encode_peer(m: &PeerMsg) -> (r: Vec<u8>)
    requires
        wf_peer(m@),
    ensures
        r@ == enc_peer(m@),
{
    let mut out: Vec<u8> = Vec::new();
    push_u32_le(&mut out, m.addr.len() as u32);
    extend_bytes(&mut out, &m.addr);
    push_u16_le(&mut out, m.port);
    push_u16_le(&mut out, m.discovery_port);
    extend_bytes(&mut out, &m.peer_id.bytes);
    assert(out@ =~= enc_peer(m@));
    out
}

/// Decodes the peer standing at `at`, returning it and the offset just past it.
pub fn decode_peer_at(b: &Vec<u8>, at: usize) -> (r: Option<(PeerMsg, usize)>)
    requires
        at <= b@.len(),
    ensures
        (r is Some) == (dec_peer_at(b@.skip(at as int)) is Some),
        r matches Some(pn) ==> {
            &&& dec_peer_at(b@.skip(at as int)) == Some((pn.0@, pn.1 - at))
            &&& at < pn.1 <= b@.len()
            &&& wf_peer(pn.0@)
        },
{
    let ghost s = b@.skip(at as int);
    let n = b.len();
    if n - at < 40 {
        if n - at >= 4 {
            assert(s.subrange(0, 4) =~= b@.subrange(at as int, at + 4));
        }
        return None;
    }
    let l32 = read_u32_le(b, at);
    assert(s.subrange(0, 4) =~= b@.subrange(at as int, at + 4));
    let l = l32 as usize;
    if l > n - at - 40 {
        return None;
    }
    let a0 = at + 4;
    let addr = copy_range(b, a0, a0 + l);
    let port = read_u16_le(b, a0 + l);
    let dport = read_u16_le(b, a0 + l + 2);
    let idb = copy_range(b, a0 + l + 4, a0 + l + 36);
    assert(s.subrange(4, 4 + l as int) =~= b@.subrange(a0 as int, a0 + l));
    assert(s.subrange(4 + l as int, 4 + l + 2) =~= b@.subrange(a0 + l, a0 + l + 2));
    assert(s.subrange(4 + l + 2, 4 + l + 4) =~= b@.subrange(a0 + l + 2, a0 + l + 4));
    assert(s.subrange(4 + l + 4, 4 + l + 36) =~= b@.subrange(a0 + l + 4, a0 + l + 36));
    let p = PeerMsg {
        addr,
        port,
        discovery_port: dport,
        peer_id: crate::peer::PeerID::from_bytes(idb),
    };
    assert(dec_peer_at(s) == Some((p@, 4 + l + 36)));
    Some((p, a0 + l + 36))
}

/// Decodes a whole peer body.
pub fn decode_peer(b: &Vec<u8>) -> (r: Option<PeerMsg>)
    ensures
        (r is Some) == (dec_peer(b@) is Some),
        r matches Some(m) ==> Some(m@) == dec_peer(b@) && wf_peer(m@),
{
    assert(b@.skip(0) =~= b@);
    match decode_peer_at(b, 0) {
        Some(pn) => {
            let (p, next) = pn;
            if next == b.len() {
                Some(p)
            } else {
                None
            }
        },
        None => None,
    }
}

/// Encodes a peers body.
pub fn encode_peers(m: &PeersMsg) -> (r: Vec<u8>)
    requires
        wf_peers(m@),
    ensures
        r@ == enc_peers(m@),
{
    let mut out: Vec<u8> = Vec::new();
    let k = m.peers.len();
    push_u32_le(&mut out, k as u32);
    let mut i: usize = 0;
    while i < k
        invariant
            k == m.peers@.len(),
            wf_peers(m@),
            m@ == m.peers@.map_values(|p: PeerMsg| p@),
            0 <= i <= k,
            out@ == u32_le(k as u32) + enc_peer_list(m@.take(i as int)),
        decreases k - i,
    {
        assert(m@[i as int] == m.peers@[i as int]@);
        assert(wf_peer(m@[i as int]));
        let ep = encode_peer(&m.peers[i]);
        extend_bytes(&mut out, &ep);
        proof {
            lemma_enc_peer_list_snoc(m@.take(i as int), m@[i as int]);
            assert(m@.take(i + 1) =~= m@.take(i as int).push(m@[i as int]));
        }
        i += 1;
    }
    assert(m@.take(k as int) =~= m@);
    out
}

/// Decodes a peers body; returns exactly what `dec_peers` names.
pub fn decode_peers(b: &Vec<u8>) -> (r: Option<PeersMsg>)
    ensures
        (r is Some) == (dec_peers(b@) is Some),
        r matches Some(m) ==> Some(m@) == dec_peers(b@) && wf_peers(m@),
{
    let n = b.len();
    if n < 4 {
        return None;
    }
    let cnt = read_u32_le(b, 0);
    assert(b@.subrange(0, 4) =~= b@.subrange(0int, 4int));
    let mut peers: Vec<PeerMsg> = Vec::new();
    let mut cur: usize = 4;
    let mut i: u32 = 0;
    assert(b@.skip(4) == b@.skip(cur as int));
    while i < cnt
        invariant
            n == b@.len(),
            4 <= cur <= n,
            0 <= i <= cnt,
            peers@.len() == i,
            forall|j: int| 0 <= j < i ==> wf_peer((#[trigger] peers@[j])@),
            (dec_peers(b@) is Some) == (dec_peer_list(
                b@.skip(cur as int),
                (cnt - i) as nat,
            ) is Some),
            dec_peer_list(b@.skip(cur as int), (cnt - i) as nat) matches Some(rest)
                ==> dec_peers(b@) == Some(peers@.map_values(|p: PeerMsg| p@) + rest),
        decreases cnt - i,
    {
        let ghost pv = peers@.map_values(|p: PeerMsg| p@);
        let ghost k = (cnt - i) as nat;
        match decode_peer_at(b, cur) {
            Some(pn) => {
                let (p, next) = pn;
                proof {
                    assert(b@.skip(cur as int).skip(next - cur) =~= b@.skip(next as int));
                }
                let ghost pv2 = peers@.push(p).map_values(|q: PeerMsg| q@);
                proof {
                    assert(pv2 =~= pv.push(p@));
                    if let Some(rest2) = dec_peer_list(b@.skip(next as int), (k - 1) as nat) {
                        assert(dec_peer_list(b@.skip(cur as int), k) == Some(
                            seq![p@] + rest2,
                        ));
                        assert(pv + (seq![p@] + rest2) =~= pv.push(p@) + rest2);
                    } else {
                        assert(dec_peer_list(b@.skip(cur as int), k) is None);
                    }
                }
                peers.push(p);
                cur = next;
                i += 1;
            },
            None => {
                assert(dec_peer_list(b@.skip(cur as int), k) is None);
                return None;
            },
        }
    }
    if cur != n {
        assert(b@.skip(cur as int).len() != 0);
        assert(dec_peer_list(b@.skip(cur as int), 0nat) is None);
        return None;
    }
    assert(b@.skip(cur as int).len() == 0);
    assert(dec_peer_list(b@.skip(cur as int), 0nat) == Some(Seq::<PeerMsgView>::empty()));
    let m = PeersMsg { peers };
    assert(m@ + Seq::<PeerMsgView>::empty() =~= m@);
    assert(Some(m@) == dec_peers(b@));
    Some(m)
}

/// Appending one peer to a run appends its encoding.
pub proof fn lemma_enc_peer_list_snoc(ps: Seq<PeerMsgView>, x: PeerMsgView)
    ensures
        enc_peer_list(ps.push(x)) == enc_peer_list(ps) + enc_peer(x),
    decreases ps.len(),
{
    assert(enc_peer_list(ps.push(x)) == enc_peer(ps.push(x)[0]) + enc_peer_list(
        ps.push(x).skip(1),
    ));
    if ps.len() == 0 {
        assert(ps.push(x)[0] == x);
        assert(ps.push(x).skip(1) =~= Seq::<PeerMsgView>::empty());
        assert(enc_peer_list(ps) == Seq::<u8>::empty());
        assert(enc_peer_list(Seq::<PeerMsgView>::empty()) == Seq::<u8>::empty());
        assert(enc_peer(x) + Seq::<u8>::empty() =~= enc_peer(x));
        assert(enc_peer_list(ps) + enc_peer(x) =~= enc_peer(x));
    } else {
        assert(ps.push(x)[0] == ps[0]);
        assert(ps.push(x).skip(1) =~= ps.skip(1).push(x));
        lemma_enc_peer_list_snoc(ps.skip(1), x);
        assert(enc_peer_list(ps) == enc_peer(ps[0]) + enc_peer_list(ps.skip(1)));
        assert(enc_peer(ps[0]) + (enc_peer_list(ps.skip(1)) + enc_peer(x)) =~= (enc_peer(ps[0])
            + enc_peer_list(ps.skip(1))) + enc_peer(x));
    }
}

/// A peer standing at the front of its encoding plus anything after it reads
/// back as itself.
pub proof fn lemma_peer_at_prefix(p: PeerMsgView, rest: Seq<u8>)
    requires
        wf_peer(p),
    ensures
        dec_peer_at(enc_peer(p) + rest) == Some((p, enc_peer(p).len() as int)),
{
    let e = enc_peer(p) + rest;
    let l = p.addr.len() as int;
    lemma_u32_le_inverse(p.addr.len() as u32);
    lemma_u16_le_inverse(p.port);
    lemma_u16_le_inverse(p.discovery_port);
    assert(e.subrange(0, 4) =~= u32_le(p.addr.len() as u32));
    assert(e.len() >= 4 + l + 36);
    assert(e.subrange(4, 4 + l) =~= p.addr);
    assert(e.subrange(4 + l, 4 + l + 2) =~= u16_le(p.port));
    assert(e.subrange(4 + l + 2, 4 + l + 4) =~= u16_le(p.discovery_port));
    assert(e.subrange(4 + l + 4, 4 + l + 36) =~= p.peer_id);
    assert(enc_peer(p).len() == 4 + l + 36);
}

/// A peer body read back from its encoding is the body itself.
pub proof fn lemma_peer_round_trip(p: PeerMsgView)
    requires
        wf_peer(p),
    ensures
        dec_peer(enc_peer(p)) == Some(p),
{
    lemma_peer_at_prefix(p, Seq::empty());
    assert(enc_peer(p) + Seq::<u8>::empty() =~= enc_peer(p));
}

/// A run of peers read back from its encoding is the run itself.
#[verifier::rlimit(100)]
#[verifier::spinoff_prover]
pub proof fn lemma_peer_list_round_trip(ps: Seq<PeerMsgView>)
    requires
        forall|i: int| 0 <= i < ps.len() ==> wf_peer(ps[i]),
    ensures
        dec_peer_list(enc_peer_list(ps), ps.len()) == Some(ps),
    decreases ps.len(),
{
    if ps.len() == 0 {
        assert(enc_peer_list(ps).len() == 0);
        assert(Seq::<PeerMsgView>::empty() =~= ps);
    } else {
        let e = enc_peer_list(ps);
        let head = enc_peer(ps[0]);
        let tail = enc_peer_list(ps.skip(1));
        lemma_peer_at_prefix(ps[0], tail);
        assert(e == head + tail);
        assert(dec_peer_at(e) == Some((ps[0], head.len() as int)));
        assert(e.skip(head.len() as int) =~= tail);
        lemma_peer_list_round_trip(ps.skip(1));
        assert(dec_peer_list(tail, ps.skip(1).len()) == Some(ps.skip(1)));
        assert(dec_peer_list(e, ps.len()) == Some(seq![ps[0]] + ps.skip(1)));
        assert(seq![ps[0]] + ps.skip(1) =~= ps);
    }
}

/// A run of peers with short addresses encodes into few bytes.
pub proof fn lemma_enc_peer_list_len(ps: Seq<PeerMsgView>)
    requires
        forall|i: int| 0 <= i < ps.len() ==> (#[trigger] ps[i]).addr.len() <= 0xffff && ps[i].peer_id.len()
            == 32,
    ensures
        enc_peer_list(ps).len() <= ps.len() * 65575,
    decreases ps.len(),
{
    if ps.len() > 0 {
        assert(enc_peer(ps[0]).len() <= 65575);
        lemma_enc_peer_list_len(ps.skip(1));
        assert(ps.len() * 65575 == (ps.len() - 1) * 65575 + 65575) by (nonlinear_arith);
    }
}

/// A peers body read back from its encoding is the body itself.
pub proof fn lemma_peers_round_trip(ps: Seq<PeerMsgView>)
    requires
        wf_peers(ps),
    ensures
        dec_peers(enc_peers(ps)) == Some(ps),
{
    let e = enc_peers(ps);
    lemma_u32_le_inverse(ps.len() as u32);
    assert(e.subrange(0, 4) =~= u32_le(ps.len() as u32));
    assert(e.skip(4) =~= enc_peer_list(ps));
    lemma_peer_list_round_trip(ps);
}

/// A ping body read back from its encoding is the body itself.
pub proof fn lemma_ping_round_trip(v: PingMsgView)
    requires
        wf_ping(v),
    ensures
        dec_ping(enc_ping(v)) == Some(v),
{
    let e = enc_ping(v);
    let l = v.version.len() as int;
    lemma_u32_le_inverse(v.version.len() as u32);
    assert(e.subrange(0, 4) =~= u32_le(v.version.len() as u32));
    assert(le_u32(e.subrange(0, 4)) as int == l);
    assert(e.len() == 4 + l + 32);
    assert(e.subrange(4, 4 + l) =~= v.version);
    assert(e.subrange(4 + l, e.len() as int) =~= v.nonce);
}

/// A pong body read back from its encoding is the body itself.
pub proof fn lemma_pong_round_trip(nonce: Seq<u8>)
    requires
        nonce.len() == 32,
    ensures
        dec_pong(enc_pong(nonce)) == Some(nonce),
{
}

/// A find-peer body read back from its encoding is the body itself.
pub proof fn lemma_findpeer_round_trip(id: Seq<u8>)
    requires
        id.len() == 32,
    ensures
        dec_findpeer(enc_findpeer(id)) == Some(id),
{
}

/// A shutdown body read back from its encoding is the body itself.
pub proof fn lemma_shutdown_round_trip(code: u8)
    ensures
        dec_shutdown(enc_shutdown(code)) == Some(code),
{
}

/// A frame read back from its encoding is the frame itself.
pub proof fn lemma_netmsg_round_trip(m: NetMsgView)
    requires
        m.payload.len() <= 0xffff_ffff,
    ensures
        dec_netmsg(enc_netmsg(m)) == Some(m),
{
    let e = enc_netmsg(m);
    let l = m.payload.len() as int;
    lemma_u32_le_inverse(m.payload.len() as u32);
    assert(e[0] == spec_cmd_tag(m.command));
    assert(spec_tag_cmd(spec_cmd_tag(m.command)) == Some(m.command));
    assert(e.subrange(1, 5) =~= u32_le(m.payload.len() as u32));
    assert(e.len() == 5 + l);
    assert(e.subrange(5, e.len() as int) =~= m.payload);
}

} // verus!
