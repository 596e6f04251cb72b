use crate::bytes::clone_bytes;
use crate::sig::{key_from_seed, key_of_seed};
use vstd::prelude::*;
use vstd::string::{StrSliceExecFns, StringSliceAdditionalSpecFns};

verus! {

broadcast use vstd::string::to_string_from_display_ensures_for_str;

/// A peer's identity: the bytes of its public key.
pub struct PeerId {
    pub key: Vec<u8>,
}

impl View for PeerId {
    type V = Seq<u8>;

    open spec fn view(&self) -> Seq<u8> {
        self.key@
    }
}

/// The loopback address boot nodes listen on in tests.
pub const LOOPBACK_IP: u32 = 0x7f000001;

/// A peer together with the IPv4 endpoint it listens on.
pub struct PeerInfo {
    pub id: PeerId,
    pub ip: u32,
    pub port: u16,
}

pub ghost struct PeerInfoV {
    pub id: Seq<u8>,
    pub ip: u32,
    pub port: u16,
}

impl View for PeerInfo {
    type V = PeerInfoV;

    open spec fn view(&self) -> PeerInfoV {
        PeerInfoV { id: self.id@, ip: self.ip, port: self.port }
    }
}

/// The peer identity a seed determines.
pub fn peer_id_from_seed(seed: &str) -> (r: PeerId)
    ensures
        r@ == key_of_seed(seed.spec_bytes()),
{
    let bytes = seed.as_bytes_vec();
    PeerId { key: key_from_seed(&bytes) }
}

/// The list of boot-node descriptions for the given seeds and ports: each
/// peer's identity comes from its seed, listening on the loopback address at
/// its port.
pub fn convert_boot_nodes(boot_nodes: Vec<(&str, u16)>) -> (r: Vec<PeerInfo>)
    ensures
        r@.len() == boot_nodes@.len(),
        forall|i: int|
            0 <= i < r@.len() ==> (#[trigger] r@[i])@ == (PeerInfoV {
                id: key_of_seed(boot_nodes@[i].0.spec_bytes()),
                ip: LOOPBACK_IP,
                port: boot_nodes@[i].1,
            }),
{
    let mut result: Vec<PeerInfo> = Vec::new();
    let mut i: usize = 0;
    while i < boot_nodes.len()
        invariant
            i <= boot_nodes@.len(),
            result@.len() == i,
            forall|j: int|
                0 <= j < i ==> (#[trigger] result@[j])@ == (PeerInfoV {
                    id: key_of_seed(boot_nodes@[j].0.spec_bytes()),
                    ip: LOOPBACK_IP,
                    port: boot_nodes@[j].1,
                }),
        decreases boot_nodes@.len() - i,
    {
        let (peer_seed, port) = boot_nodes[i];
        let id = peer_id_from_seed(peer_seed);
        result.push(PeerInfo { id, ip: LOOPBACK_IP, port });
        i += 1;
    }
    result
}

/// Converts borrowed strings to owned ones, in order.
pub fn vec_ref_to_str(values: Vec<&str>) -> (r: Vec<String>)
    ensures
        r@.len() == values@.len(),
        forall|i: int| 0 <= i < r@.len() ==> (#[trigger] r@[i])@ == values@[i]@,
{
    let mut result: Vec<String> = Vec::new();
    let mut i: usize = 0;
    while i < values.len()
        invariant
            i <= values@.len(),
            result@.len() == i,
            forall|j: int| 0 <= j < i ==> (#[trigger] result@[j])@ == values@[j]@,
        decreases values@.len() - i,
    {
        result.push(values[i].to_string());
        i += 1;
    }
    result
}

/// One row of a routing table: a peer and the next hops that reach it.
pub type RoutingRow = (PeerId, Vec<PeerId>);

/// Whether `row` names the same peer and the same set of next hops as
/// `(peer, paths)`: equal lengths, and every expected hop present.
pub open spec fn row_matches(row: (Seq<u8>, Seq<Seq<u8>>), peer: Seq<u8>, paths: Seq<Seq<u8>>) -> bool {
    &&& row.0 == peer
    &&& row.1.len() == paths.len()
    &&& forall|h: int| 0 <= h < paths.len() ==> row.1.contains(#[trigger] paths[h])
}

/// The id views and hop views of a routing row.
pub open spec fn row_view(row: RoutingRow) -> (Seq<u8>, Seq<Seq<u8>>) {
    (row.0@, row.1@.map_values(|p: PeerId| p@))
}

/// Whether some row of `current` matches `target`: same peer, and the same
/// next hops up to order.
pub open spec fn has_matching_row(current: Seq<RoutingRow>, target: RoutingRow) -> bool {
    exists|j: int|
        0 <= j < current.len() && row_matches(
            row_view(#[trigger] current[j]),
            row_view(target).0,
            row_view(target).1,
        )
}

/// Whether the tables have the same number of rows and every expected row
/// is matched by some current row.
pub open spec fn routing_tables_match(current: Seq<RoutingRow>, expected: Seq<RoutingRow>) -> bool {
    &&& current.len() == expected.len()
    &&& forall|i: int| 0 <= i < expected.len() ==> has_matching_row(current, #[trigger] expected[i])
}

/// Checks a routing table against the expected one: the same number of
/// peers, and for each expected peer a row with next hops that are the same
/// up to order.
pub fn expected_routing_tables(current: Vec<RoutingRow>, expected: Vec<RoutingRow>) -> (r: bool)
    ensures
        r == routing_tables_match(current@, expected@),
{
    if current.len() != expected.len() {
        return false;
    }
    let mut i: usize = 0;
    while i < expected.len()
        invariant
            i <= expected@.len(),
            current@.len() == expected@.len(),
            forall|l: int| 0 <= l < i ==> has_matching_row(current@, #[trigger] expected@[l]),
        decreases expected@.len() - i,
    {
        if !some_row_matches(&current, &expected[i]) {
            return false;
        }
        i += 1;
    }
    true
}

/// Whether some row of `current` matches the target row, up to hop order.
fn some_row_matches(current: &Vec<RoutingRow>, target: &RoutingRow) -> (r: bool)
    ensures
        r == has_matching_row(current@, *target),
{
    let mut j: usize = 0;
    while j < current.len()
        invariant
            j <= current@.len(),
            forall|l: int|
                0 <= l < j ==> !row_matches(
                    row_view(#[trigger] current@[l]),
                    row_view(*target).0,
                    row_view(*target).1,
                ),
        decreases current@.len() - j,
    {
        if row_eq(&current[j], &target.0, &target.1) {
            proof {
                assert(row_matches(
                    row_view(current@[j as int]),
                    row_view(*target).0,
                    row_view(*target).1,
                ));
            }
            return true;
        }
        j += 1;
    }
    proof {
        if has_matching_row(current@, *target) {
            let w = choose|w: int|
                0 <= w < current@.len() && row_matches(
                    row_view(#[trigger] current@[w]),
                    row_view(*target).0,
                    row_view(*target).1,
                );
            assert(false);
        }
    }
    false
}

/// Whether one row names `peer` with exactly the hops of `paths`, up to
/// order.
fn row_eq(row: &RoutingRow, peer: &PeerId, paths: &Vec<PeerId>) -> (r: bool)
    ensures
        r == row_matches(row_view(*row), peer@, paths@.map_values(|p: PeerId| p@)),
{
    let ghost pv = paths@.map_values(|p: PeerId| p@);
    if !crate::bytes::bytes_eq(&row.0.key, &peer.key) {
        return false;
    }
    if row.1.len() != paths.len() {
        return false;
    }
    let mut h: usize = 0;
    while h < paths.len()
        invariant
            h <= paths@.len(),
            pv == paths@.map_values(|p: PeerId| p@),
            row_view(*row).0 == peer@,
            row_view(*row).1.len() == pv.len(),
            forall|l: int| 0 <= l < h ==> row_view(*row).1.contains(#[trigger] pv[l]),
        decreases paths@.len() - h,
    {
        if !row_contains_peer(&row.1, &paths[h]) {
            proof {
                assert(pv[h as int] == paths@[h as int]@);
            }
            return false;
        }
        proof {
            assert(pv[h as int] == paths@[h as int]@);
        }
        h += 1;
    }
    true
}

/// Whether `hops` holds a peer with the given identity.
fn row_contains_peer(hops: &Vec<PeerId>, peer: &PeerId) -> (r: bool)
    ensures
        r == hops@.map_values(|p: PeerId| p@).contains(peer@),
{
    let ghost hv = hops@.map_values(|p: PeerId| p@);
    let mut i: usize = 0;
    while i < hops.len()
        invariant
            i <= hops@.len(),
            hv == hops@.map_values(|p: PeerId| p@),
            forall|l: int| 0 <= l < i ==> hv[l] != peer@,
        decreases hops@.len() - i,
    {
        if crate::bytes::bytes_eq(&hops[i].key, &peer.key) {
            proof {
                assert(hv[i as int] == peer@);
            }
            return true;
        }
        proof {
            assert(hv[i as int] == hops@[i as int]@);
        }
        i += 1;
    }
    proof {
        if hv.contains(peer@) {
            let w = choose|w: int| 0 <= w < hv.len() && hv[w] == peer@;
            assert(hv[w] != peer@);
            assert(false);
        }
    }
    false
}

/// Asks a peer manager for its network info.
pub struct GetInfo {}

/// Tells a peer manager to stop, either cleanly or by panicking, so tests
/// can exercise both shutdown paths.
pub struct StopSignal {
    pub should_panic: bool,
}

impl StopSignal {
    /// A clean stop.
    pub fn new() -> (r: Self)
        ensures
            !r.should_panic,
    {
        StopSignal { should_panic: false }
    }

    /// A stop that simulates a crash.
    pub fn should_panic() -> (r: Self)
        ensures
            r.should_panic,
    {
        StopSignal { should_panic: true }
    }
}

/// A mocked peer-manager endpoint: requests are queued as their encoded
/// bytes instead of being sent, and a test pops them off in order.
pub struct MockPeerManagerAdapter {
    pub requests: Vec<Vec<u8>>,
}

impl MockPeerManagerAdapter {
    pub fn new() -> (r: Self)
        ensures
            r.requests@.len() == 0,
    {
        MockPeerManagerAdapter { requests: Vec::new() }
    }

    /// Queues a request.
    pub fn do_send(&mut self, msg: Vec<u8>)
        ensures
            final(self).requests@ == old(self).requests@.push(msg),
    {
        self.requests.push(msg);
    }

    /// Takes the oldest queued request, if any.
    pub fn pop(&mut self) -> (r: Option<Vec<u8>>)
        ensures
            match r {
                Some(m) => old(self).requests@.len() > 0 && m@ == old(self).requests@.first()@
                    && final(self).requests@ == old(self).requests@.drop_first(),
                None => old(self).requests@.len() == 0 && *final(self) == *old(self),
            },
    {
        if self.requests.len() == 0 {
            return None;
        }
        let front = clone_bytes(&self.requests[0]);
        let ghost before = self.requests@;
        let _ = self.requests.remove(0);
        proof {
            assert(before.remove(0) =~= before.drop_first());
        }
        Some(front)
    }
}

} // verus!
