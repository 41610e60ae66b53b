//! Peer identifiers: 32-byte opaque ids with an XOR distance metric.
use vstd::prelude::*;

verus! {

/// Number of bytes in a peer identifier.
pub const PEER_ID_SIZE: usize = 32;

/// A 32-byte peer identifier.
#[derive(Debug, Clone, PartialEq, Eq)]
pub struct PeerID {
    pub bytes: Vec<u8>,
}

impl View for PeerID {
    type V = Seq<u8>;

    open spec fn view(&self) -> Seq<u8> {
        self.bytes@
    }
}

impl PeerID {
    /// A peer id is well formed when it holds exactly 32 bytes.
    pub open spec fn wf(&self) -> bool {
        self@.len() == 32
    }

    /// Builds a peer id from its raw bytes.
    pub fn from_bytes(bytes: Vec<u8>) -> (r: PeerID)
        requires
            bytes@.len() == 32,
        ensures
            r.wf(),
            r@ == bytes@,
    {
        PeerID { bytes }
    }

    /// Draws a fresh random peer id.
    /// Relies on rand's OsRng::fill_bytes: fills the buffer; nothing further
    /// can be promised of random output.
    #[verifier::external_body]
    pub fn random() -> (r: PeerID)
        ensures
            r.wf(),
    {
        let mut bytes = vec![0u8; 32];
        rand::RngCore::fill_bytes(&mut rand::rngs::OsRng, &mut bytes);
        PeerID { bytes }
    }

    /// Byte-for-byte equality of two peer ids.
    pub fn eq_id(&self, other: &PeerID) -> (r: bool)
        requires
            self.wf(),
            other.wf(),
        ensures
            r == (self@ == other@),
    {
        bytes_eq(&self.bytes, &other.bytes)
    }
}

/// Byte-for-byte equality of two byte vectors.
pub fn bytes_eq(a: &Vec<u8>, b: &Vec<u8>) -> (r: bool)
    ensures
        r == (a@ == b@),
{
    if a.len() != b.len() {
        assert(a@ != b@);
        return false;
    }
    let n = a.len();
    let mut i: usize = 0;
    while i < n
        invariant
            n == a@.len(),
            n == b@.len(),
            0 <= i <= n,
            forall|j: int| 0 <= j < i ==> a@[j] == b@[j],
        decreases n - i,
    {
        if a[i] != b[i] {
            return false;
        }
        i += 1;
    }
    assert(a@ =~= b@);
    true
}

/// The XOR of two equal-length byte strings, the Kademlia-style distance.
pub open spec fn xor_bytes(a: Seq<u8>, b: Seq<u8>) -> Seq<u8> {
    Seq::new(a.len(), |i: int| a[i] ^ b[i])
}

/// Strict lexicographic order on byte strings: some position holds a smaller
/// byte while every earlier position agrees.
pub open spec fn lex_lt(a: Seq<u8>, b: Seq<u8>) -> bool {
    exists|i: int|
        0 <= i < a.len() && i < b.len() && a[i] < b[i] && (forall|j: int|
            0 <= j < i ==> a[j] == b[j])
}

/// `x` lies strictly closer to `key` than `y` does, by XOR distance.
pub open spec fn dist_lt(key: Seq<u8>, x: Seq<u8>, y: Seq<u8>) -> bool {
    lex_lt(xor_bytes(key, x), xor_bytes(key, y))
}

/// `x` lies no farther from `key` than `y` does.
pub open spec fn dist_le(key: Seq<u8>, x: Seq<u8>, y: Seq<u8>) -> bool {
    !dist_lt(key, y, x)
}

/// Strict lexicographic order is transitive.
pub proof fn lemma_lex_lt_trans(a: Seq<u8>, b: Seq<u8>, c: Seq<u8>)
    requires
        a.len() == b.len(),
        b.len() == c.len(),
        lex_lt(a, b),
        lex_lt(b, c),
    ensures
        lex_lt(a, c),
{
    let i = choose|i: int|
        0 <= i < a.len() && i < b.len() && a[i] < b[i] && (forall|j: int|
            0 <= j < i ==> a[j] == b[j]);
    let k = choose|k: int|
        0 <= k < b.len() && k < c.len() && b[k] < c[k] && (forall|j: int|
            0 <= j < k ==> b[j] == c[j]);
    if i < k {
        assert(a[i] < c[i]);
        assert(forall|j: int| 0 <= j < i ==> a[j] == c[j]);
    } else if k < i {
        assert(a[k] < c[k]);
        assert(forall|j: int| 0 <= j < k ==> a[j] == c[j]);
    } else {
        assert(a[i] < c[i]);
        assert(forall|j: int| 0 <= j < i ==> a[j] == c[j]);
    }
}

/// The least position at which two distinct equal-length byte strings differ.
proof fn first_diff(a: Seq<u8>, b: Seq<u8>) -> (i: int)
    requires
        a.len() == b.len(),
        a != b,
    ensures
        0 <= i < a.len(),
        a[i] != b[i],
        forall|j: int| 0 <= j < i ==> a[j] == b[j],
    decreases a.len(),
{
    if a.len() == 0 {
        assert(a =~= b);
        0
    } else if a[0] != b[0] {
        0
    } else {
        if a.skip(1) == b.skip(1) {
            assert forall|k: int| 0 <= k < a.len() implies a[k] == b[k] by {
                if k >= 1 {
                    assert(a[k] == a.skip(1)[k - 1]);
                    assert(b[k] == b.skip(1)[k - 1]);
                }
            }
            assert(a =~= b);
        }
        let i1 = first_diff(a.skip(1), b.skip(1));
        assert(a[i1 + 1] == a.skip(1)[i1]);
        assert(b[i1 + 1] == b.skip(1)[i1]);
        assert(forall|j: int| 1 <= j < i1 + 1 ==> a[j] == a.skip(1)[j - 1] && b[j] == b.skip(1)[j
            - 1]);
        i1 + 1
    }
}

/// Two equal-length byte strings that neither order strictly are equal.
pub proof fn lemma_lex_connex(a: Seq<u8>, b: Seq<u8>)
    requires
        a.len() == b.len(),
        !lex_lt(a, b),
        !lex_lt(b, a),
    ensures
        a == b,
{
    if a != b {
        let i = first_diff(a, b);
        if a[i] < b[i] {
            assert(lex_lt(a, b));
        } else {
            assert(b[i] < a[i]);
            assert(lex_lt(b, a));
        }
    }
}

/// An id strictly closer to the key than another is in particular no farther.
pub proof fn lemma_dist_lt_asym(key: Seq<u8>, x: Seq<u8>, y: Seq<u8>)
    requires
        key.len() == 32,
        x.len() == 32,
        y.len() == 32,
        dist_lt(key, x, y),
    ensures
        !dist_lt(key, y, x),
        dist_le(key, x, y),
{
    let dx = xor_bytes(key, x);
    let dy = xor_bytes(key, y);
    if lex_lt(dy, dx) {
        lemma_lex_lt_trans(dx, dy, dx);
        assert(!lex_lt(dx, dx));
    }
}

/// XOR distance to a fixed key orders ids transitively.
pub proof fn lemma_dist_le_trans(key: Seq<u8>, x: Seq<u8>, y: Seq<u8>, z: Seq<u8>)
    requires
        key.len() == 32,
        x.len() == 32,
        y.len() == 32,
        z.len() == 32,
        dist_le(key, x, y),
        dist_le(key, y, z),
    ensures
        dist_le(key, x, z),
{
    let dx = xor_bytes(key, x);
    let dy = xor_bytes(key, y);
    let dz = xor_bytes(key, z);
    if lex_lt(dz, dx) {
        if lex_lt(dz, dy) {
            assert(false);
        } else if lex_lt(dy, dz) {
            lemma_lex_lt_trans(dy, dz, dx);
            assert(false);
        } else {
            lemma_lex_connex(dz, dy);
            assert(false);
        }
    }
}

/// Decides whether `x` is strictly closer to `key` than `y`.
pub fn xor_dist_lt(key: &PeerID, x: &PeerID, y: &PeerID) -> (r: bool)
    requires
        key.wf(),
        x.wf(),
        y.wf(),
    ensures
        r == dist_lt(key@, x@, y@),
{
    let ghost dx_all = xor_bytes(key@, x@);
    let ghost dy_all = xor_bytes(key@, y@);
    let mut i: usize = 0;
    while i < 32
        invariant
            key.wf(),
            x.wf(),
            y.wf(),
            0 <= i <= 32,
            dx_all == xor_bytes(key@, x@),
            dy_all == xor_bytes(key@, y@),
            forall|j: int| 0 <= j < i ==> dx_all[j] == dy_all[j],
        decreases 32 - i,
    {
        let dx = key.bytes[i] ^ x.bytes[i];
        let dy = key.bytes[i] ^ y.bytes[i];
        if dx < dy {
            assert(dx_all[i as int] < dy_all[i as int]);
            assert(lex_lt(dx_all, dy_all));
            return true;
        }
        if dx > dy {
            assert(forall|k: int|
                0 <= k < dx_all.len() && k < dy_all.len() && dx_all[k] < dy_all[k] ==> !(forall|
                    j: int,
                |
                    0 <= j < k ==> dx_all[j] == dy_all[j]));
            assert(!lex_lt(dx_all, dy_all));
            return false;
        }
        assert(dx_all[i as int] == dy_all[i as int]);
        i += 1;
    }
    assert(forall|j: int| 0 <= j < dx_all.len() ==> dx_all[j] == dy_all[j]);
    assert(!lex_lt(dx_all, dy_all));
    false
}

} // verus!
