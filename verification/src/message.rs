//! Wire messages of the discovery protocol: a tagged header plus the binary
//! body of each command.
use vstd::prelude::*;

use crate::peer::PeerID;

verus! {

/// Largest number of peers a `PeersMsg` may carry; a reply holding this many
/// or more is rejected.
pub const MAX_PEERS_IN_PEERSMSG: usize = 10;

/// Command tag of a wire message.
#[derive(Debug, Clone, Copy, PartialEq, Eq, Structural)]
pub enum NetMsgCmd {
    Ping,
    Pong,
    FindPeer,
    Peers,
    Peer,
    Shutdown,
}

/// The stable one-byte tag of each command.
pub open spec fn spec_cmd_tag(cmd: NetMsgCmd) -> u8 {
    match cmd {
        NetMsgCmd::Ping => 0,
        NetMsgCmd::Pong => 1,
        NetMsgCmd::FindPeer => 2,
        NetMsgCmd::Peers => 3,
        NetMsgCmd::Peer => 4,
        NetMsgCmd::Shutdown => 5,
    }
}

/// The command a tag byte stands for, if any.
pub open spec fn spec_tag_cmd(tag: u8) -> Option<NetMsgCmd> {
    if tag == 0 {
        Some(NetMsgCmd::Ping)
    } else if tag == 1 {
        Some(NetMsgCmd::Pong)
    } else if tag == 2 {
        Some(NetMsgCmd::FindPeer)
    } else if tag == 3 {
        Some(NetMsgCmd::Peers)
    } else if tag == 4 {
        Some(NetMsgCmd::Peer)
    } else {
        if tag == 5 {
            Some(NetMsgCmd::Shutdown)
        } else {
            None
        }
    }
}

/// Emits the tag byte of a command.
pub fn cmd_tag(cmd: NetMsgCmd) -> (r: u8)
    ensures
        r == spec_cmd_tag(cmd),
{
    match cmd {
        NetMsgCmd::Ping => 0,
        NetMsgCmd::Pong => 1,
        NetMsgCmd::FindPeer => 2,
        NetMsgCmd::Peers => 3,
        NetMsgCmd::Peer => 4,
        NetMsgCmd::Shutdown => 5,
    }
}

/// Reads a tag byte back into its command.
pub fn tag_cmd(tag: u8) -> (r: Option<NetMsgCmd>)
    ensures
        r == spec_tag_cmd(tag),
{
    match tag {
        0 => Some(NetMsgCmd::Ping),
        1 => Some(NetMsgCmd::Pong),
        2 => Some(NetMsgCmd::FindPeer),
        3 => Some(NetMsgCmd::Peers),
        4 => Some(NetMsgCmd::Peer),
        5 => Some(NetMsgCmd::Shutdown),
        _ => None,
    }
}

/// A framed wire message: command, payload length, payload bytes.
#[derive(Debug, Clone, PartialEq, Eq)]
pub struct NetMsg {
    pub command: NetMsgCmd,
    pub payload: Vec<u8>,
}

/// Mathematical image of a `NetMsg`.
pub ghost struct NetMsgView {
    pub command: NetMsgCmd,
    pub payload: Seq<u8>,
}

impl View for NetMsg {
    type V = NetMsgView;

    open spec fn view(&self) -> NetMsgView {
        NetMsgView { command: self.command, payload: self.payload@ }
    }
}

impl NetMsg {
    /// The payload length must fit the header's 32-bit length field.
    pub open spec fn wf(&self) -> bool {
        self.payload@.len() <= 0xffff_ffff
    }
}

/// Body of `Ping`: the sender's version string and a 32-byte nonce.
#[derive(Debug, Clone, PartialEq, Eq)]
pub struct PingMsg {
    pub version: Vec<u8>,
    pub nonce: Vec<u8>,
}

/// Mathematical image of a `PingMsg`.
pub ghost struct PingMsgView {
    pub version: Seq<u8>,
    pub nonce: Seq<u8>,
}

impl View for PingMsg {
    type V = PingMsgView;

    open spec fn view(&self) -> PingMsgView {
        PingMsgView { version: self.version@, nonce: self.nonce@ }
    }
}

/// A ping body is well formed when the nonce is 32 bytes and the version
/// fits its 32-bit length prefix.
pub open spec fn wf_ping(v: PingMsgView) -> bool {
    v.nonce.len() == 32 && v.version.len() <= 0xffff_ffff
}

/// Body of `Pong`: the nonce of the ping answered, echoed byte for byte.
#[derive(Debug, Clone, PartialEq, Eq)]
pub struct PongMsg {
    pub nonce: Vec<u8>,
}

impl View for PongMsg {
    type V = Seq<u8>;

    open spec fn view(&self) -> Seq<u8> {
        self.nonce@
    }
}

/// Body of `FindPeer`: the id whose neighbourhood is asked for.
#[derive(Debug, Clone, PartialEq, Eq)]
pub struct FindPeerMsg {
    pub peer_id: PeerID,
}

impl View for FindPeerMsg {
    type V = Seq<u8>;

    open spec fn view(&self) -> Seq<u8> {
        self.peer_id@
    }
}

/// Body of `Peer`: one advertised peer.
#[derive(Debug, Clone, PartialEq, Eq)]
pub struct PeerMsg {
    pub addr: Vec<u8>,
    pub port: u16,
    pub discovery_port: u16,
    pub peer_id: PeerID,
}

/// Mathematical image of a `PeerMsg`.
pub ghost struct PeerMsgView {
    pub addr: Seq<u8>,
    pub port: u16,
    pub discovery_port: u16,
    pub peer_id: Seq<u8>,
}

impl View for PeerMsg {
    type V = PeerMsgView;

    open spec fn view(&self) -> PeerMsgView {
        PeerMsgView {
            addr: self.addr@,
            port: self.port,
            discovery_port: self.discovery_port,
            peer_id: self.peer_id@,
        }
    }
}

/// A peer body is well formed when the id is 32 bytes and the address fits
/// its 32-bit length prefix.
pub open spec fn wf_peer(p: PeerMsgView) -> bool {
    p.peer_id.len() == 32 && p.addr.len() <= 0xffff_ffff
}

/// Body of `Peers`: the advertised peers, one after the other.
#[derive(Debug, Clone, PartialEq, Eq)]
pub struct PeersMsg {
    pub peers: Vec<PeerMsg>,
}

impl View for PeersMsg {
    type V = Seq<PeerMsgView>;

    open spec fn view(&self) -> Seq<PeerMsgView> {
        self.peers@.map_values(|p: PeerMsg| p@)
    }
}

/// A peers body is well formed when each member is and the count fits its
/// 32-bit prefix.
pub open spec fn wf_peers(ps: Seq<PeerMsgView>) -> bool {
    ps.len() <= 0xffff_ffff && forall|i: int| 0 <= i < ps.len() ==> wf_peer(ps[i])
}

/// Body of `Shutdown`: a one-byte reason code.
#[derive(Debug, Clone, Copy, PartialEq, Eq, Structural)]
pub struct ShutdownMsg {
    pub code: u8,
}

} // verus!
