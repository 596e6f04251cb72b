use crate::bytes::clone_bytes;
use crate::sig::{compute_tag, sig_tag, u64_le_bytes, u64_to_le_bytes};
use vstd::prelude::*;

verus! {

/// Longest accepted encoded payload of one account's data. Broadcasting more
/// is a protocol violation.
pub const MAX_ACCOUNT_DATA_SIZE_BYTES: usize = 10000;

/// One proxy address a validator advertises: a peer and its IPv4 endpoint.
pub struct PeerAddr {
    pub peer_id: Vec<u8>,
    pub ip: u32,
    pub port: u16,
}

pub ghost struct PeerAddrV {
    pub peer_id: Seq<u8>,
    pub ip: u32,
    pub port: u16,
}

impl View for PeerAddr {
    type V = PeerAddrV;

    open spec fn view(&self) -> PeerAddrV {
        PeerAddrV { peer_id: self.peer_id@, ip: self.ip, port: self.port }
    }
}

/// The unsigned payload a validator broadcasts about itself.
pub struct AccountData {
    pub peer_id: Option<Vec<u8>>,
    pub epoch_id: Vec<u8>,
    pub account_id: Vec<u8>,
    pub peers: Vec<PeerAddr>,
}

pub ghost struct AccountDataV {
    pub peer_id: Option<Seq<u8>>,
    pub epoch_id: Seq<u8>,
    pub account_id: Seq<u8>,
    pub peers: Seq<PeerAddrV>,
}

impl View for AccountData {
    type V = AccountDataV;

    open spec fn view(&self) -> AccountDataV {
        AccountDataV {
            peer_id: match self.peer_id {
                Some(ref p) => Some(p@),
                None => None,
            },
            epoch_id: self.epoch_id@,
            account_id: self.account_id@,
            peers: self.peers@.map_values(|p: PeerAddr| p@),
        }
    }
}

/// Signed account data as it travels between peers: the account key it is
/// for, a version used as a tie-breaker, the signing time, the encoded
/// payload, and the signature over the payload.
pub struct SignedAccountData {
    pub account_key: Vec<u8>,
    pub version: u64,
    pub timestamp: u64,
    pub payload: Vec<u8>,
    pub signature: u64,
}

pub ghost struct SignedAccountDataV {
    pub account_key: Seq<u8>,
    pub version: u64,
    pub timestamp: u64,
    pub payload: Seq<u8>,
    pub signature: u64,
}

impl View for SignedAccountData {
    type V = SignedAccountDataV;

    open spec fn view(&self) -> SignedAccountDataV {
        SignedAccountDataV {
            account_key: self.account_key@,
            version: self.version,
            timestamp: self.timestamp,
            payload: self.payload@,
            signature: self.signature,
        }
    }
}

/// Whether the signature verifies for the key the data claims to be for.
pub open spec fn signature_ok(d: SignedAccountDataV) -> bool {
    d.signature == sig_tag(d.account_key, d.payload)
}

/// The local node's signing identity and the account data it advertises.
pub struct LocalData {
    pub signer_key: Vec<u8>,
    pub data: AccountData,
}

pub ghost struct LocalDataV {
    pub signer_key: Seq<u8>,
    pub data: AccountDataV,
}

impl View for LocalData {
    type V = LocalDataV;

    open spec fn view(&self) -> LocalDataV {
        LocalDataV { signer_key: self.signer_key@, data: self.data@ }
    }
}

/// A byte string, length-prefixed.
pub open spec fn enc_bytes(b: Seq<u8>) -> Seq<u8> {
    u64_le_bytes(b.len() as u64) + b
}

/// An optional byte string: a presence byte, then the string if present.
pub open spec fn enc_opt_bytes(o: Option<Seq<u8>>) -> Seq<u8> {
    match o {
        None => seq![0u8],
        Some(b) => seq![1u8] + enc_bytes(b),
    }
}

/// One proxy address.
pub open spec fn enc_peer(p: PeerAddrV) -> Seq<u8> {
    enc_bytes(p.peer_id) + u64_le_bytes(p.ip as u64) + u64_le_bytes(p.port as u64)
}

/// The addresses, in order.
pub open spec fn enc_peers_items(ps: Seq<PeerAddrV>) -> Seq<u8>
    decreases ps.len(),
{
    if ps.len() == 0 {
        Seq::empty()
    } else {
        enc_peers_items(ps.drop_last()) + enc_peer(ps.last())
    }
}

/// The canonical payload bytes of versioned account data: every field of the
/// data together with the account key, version and timestamp it is signed
/// under.
pub open spec fn payload_of(
    d: AccountDataV,
    account_key: Seq<u8>,
    version: u64,
    timestamp: u64,
) -> Seq<u8> {
    enc_opt_bytes(d.peer_id) + enc_bytes(d.epoch_id) + enc_bytes(d.account_id) + enc_bytes(
        account_key,
    ) + u64_le_bytes(version) + u64_le_bytes(timestamp) + u64_le_bytes(d.peers.len() as u64)
        + enc_peers_items(d.peers)
}

/// The signed record composing `l.data` at the given version and time.
pub open spec fn signed_of(l: LocalDataV, version: u64, timestamp: u64) -> SignedAccountDataV {
    let payload = payload_of(l.data, l.signer_key, version, timestamp);
    SignedAccountDataV {
        account_key: l.signer_key,
        version,
        timestamp,
        payload,
        signature: sig_tag(l.signer_key, payload),
    }
}

/// Appends a length-prefixed byte string.
fn append_bytes(out: &mut Vec<u8>, b: &Vec<u8>)
    ensures
        final(out)@ == old(out)@ + enc_bytes(b@),
{
    let mut len8 = u64_to_le_bytes(b.len() as u64);
    out.append(&mut len8);
    let mut body = clone_bytes(b);
    out.append(&mut body);
    proof {
        assert(final(out)@ =~= old(out)@ + enc_bytes(b@));
    }
}

/// Appends eight little-endian bytes.
fn append_u64(out: &mut Vec<u8>, v: u64)
    ensures
        final(out)@ == old(out)@ + u64_le_bytes(v),
{
    let mut le = u64_to_le_bytes(v);
    out.append(&mut le);
}

/// Encodes versioned account data into its canonical payload bytes.
pub fn encode_versioned(
    data: &AccountData,
    account_key: &Vec<u8>,
    version: u64,
    timestamp: u64,
) -> (r: Vec<u8>)
    ensures
        r@ == payload_of(data@, account_key@, version, timestamp),
{
    let mut out: Vec<u8> = Vec::new();
    match &data.peer_id {
        None => {
            out.push(0);
        },
        Some(p) => {
            out.push(1);
            append_bytes(&mut out, p);
        },
    }
    proof {
        assert(out@ =~= enc_opt_bytes(data@.peer_id));
    }
    append_bytes(&mut out, &data.epoch_id);
    append_bytes(&mut out, &data.account_id);
    append_bytes(&mut out, account_key);
    append_u64(&mut out, version);
    append_u64(&mut out, timestamp);
    append_u64(&mut out, data.peers.len() as u64);
    let ghost head = out@;
    let mut i: usize = 0;
    while i < data.peers.len()
        invariant
            i <= data.peers@.len(),
            out@ == head + enc_peers_items(data@.peers.take(i as int)),
            head == out@.take(head.len() as int),
        decreases data.peers@.len() - i,
    {
        let p = &data.peers[i];
        append_bytes(&mut out, &p.peer_id);
        append_u64(&mut out, p.ip as u64);
        append_u64(&mut out, p.port as u64);
        proof {
            let pv = data@.peers[i as int];
            assert(pv == data.peers@[i as int]@);
            assert(data@.peers.take(i + 1).drop_last() =~= data@.peers.take(i as int));
            assert(data@.peers.take(i + 1).last() == pv);
            assert(out@ =~= head + enc_peers_items(data@.peers.take(i + 1)));
        }
        i += 1;
    }
    proof {
        assert(data@.peers.take(data.peers@.len() as int) =~= data@.peers);
        assert(data@.peers.len() == data.peers@.len());
        assert(out@ =~= payload_of(data@, account_key@, version, timestamp));
    }
    out
}

/// Signs the local node's account data at the given version and time.
pub fn sign_account_data(local: &LocalData, version: u64, timestamp: u64) -> (r: SignedAccountData)
    ensures
        r@ == signed_of(local@, version, timestamp),
        signature_ok(r@),
{
    let payload = encode_versioned(&local.data, &local.signer_key, version, timestamp);
    let signature = compute_tag(&local.signer_key, &payload);
    SignedAccountData {
        account_key: clone_bytes(&local.signer_key),
        version,
        timestamp,
        payload,
        signature,
    }
}

/// A fresh record with the same contents.
pub fn clone_signed(d: &SignedAccountData) -> (r: SignedAccountData)
    ensures
        r@ == d@,
{
    SignedAccountData {
        account_key: clone_bytes(&d.account_key),
        version: d.version,
        timestamp: d.timestamp,
        payload: clone_bytes(&d.payload),
        signature: d.signature,
    }
}

/// A fresh copy of one proxy address.
pub fn clone_peer_addr(p: &PeerAddr) -> (r: PeerAddr)
    ensures
        r@ == p@,
{
    PeerAddr { peer_id: clone_bytes(&p.peer_id), ip: p.ip, port: p.port }
}

/// A fresh copy of unsigned account data.
pub fn clone_account_data(d: &AccountData) -> (r: AccountData)
    ensures
        r@ == d@,
{
    let peer_id = match &d.peer_id {
        None => None,
        Some(p) => Some(clone_bytes(p)),
    };
    let mut peers: Vec<PeerAddr> = Vec::new();
    let mut i: usize = 0;
    while i < d.peers.len()
        invariant
            i <= d.peers@.len(),
            peers@.len() == i,
            forall|j: int| 0 <= j < i ==> peers@[j]@ == #[trigger] d.peers@[j]@,
        decreases d.peers@.len() - i,
    {
        peers.push(clone_peer_addr(&d.peers[i]));
        i += 1;
    }
    let r = AccountData {
        peer_id,
        epoch_id: clone_bytes(&d.epoch_id),
        account_id: clone_bytes(&d.account_id),
        peers,
    };
    proof {
        assert(r@.peers =~= d@.peers);
    }
    r
}

/// A fresh copy of the local identity and its data.
pub fn clone_local(l: &LocalData) -> (r: LocalData)
    ensures
        r@ == l@,
{
    LocalData { signer_key: clone_bytes(&l.signer_key), data: clone_account_data(&l.data) }
}

} // verus!
