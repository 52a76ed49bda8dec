use vstd::prelude::*;
use crate::storage::byte_vecs_view;

verus! {

/// The two transports over which a mesh peer can be reached.
#[derive(Debug, Clone, Copy, PartialEq, Eq, Hash, Structural)]
pub enum TransportType {
    Wifi,
    Bluetooth,
}

/// A discovered peer: its id (the bytes of its libp2p peer id) and the
/// transport it was found on.
#[derive(Debug, Clone)]
pub struct MeshPeer {
    pub peer_id: Vec<u8>,
    pub transport: TransportType,
}

/// The peers a mesh node has discovered, one entry per peer id.
pub struct PeerTable {
    peers: Vec<MeshPeer>,
}

/// Whether no two entries of `s` have the same id.
pub open spec fn distinct_ids(s: Seq<(Seq<u8>, TransportType)>) -> bool {
    forall|i: int, j: int| 0 <= i < s.len() && 0 <= j < s.len() && i != j ==> s[i].0 != s[j].0
}

/// Where in `s` the entry with id `id` is, if anywhere.
pub open spec fn index_of_id(s: Seq<(Seq<u8>, TransportType)>, id: Seq<u8>) -> Option<int> {
    if exists|i: int| 0 <= i < s.len() && s[i].0 == id {
        Some(choose|i: int| 0 <= i < s.len() && s[i].0 == id)
    } else {
        None
    }
}

/// The table after the peer `id` is recorded as reachable over `t`: its
/// entry is updated where it has one, else a new entry is added at the end.
pub open spec fn table_after_insert(
    s: Seq<(Seq<u8>, TransportType)>,
    id: Seq<u8>,
    t: TransportType,
) -> Seq<(Seq<u8>, TransportType)> {
    match index_of_id(s, id) {
        Some(i) => s.update(i, (id, t)),
        None => s.push((id, t)),
    }
}

/// How many entries of `s` are reachable over `t`.
pub open spec fn count_transport(s: Seq<(Seq<u8>, TransportType)>, t: TransportType) -> nat
    decreases s.len(),
{
    if s.len() == 0 {
        0
    } else {
        count_transport(s.drop_last(), t) + if s.last().1 == t {
            1nat
        } else {
            0nat
        }
    }
}

/// The transport recorded for `id` in `s`, if any.
pub open spec fn transport_of(s: Seq<(Seq<u8>, TransportType)>, id: Seq<u8>) -> Option<TransportType> {
    match index_of_id(s, id) {
        Some(i) => Some(s[i].1),
        None => None,
    }
}

impl View for PeerTable {
    type V = Seq<(Seq<u8>, TransportType)>;

    closed spec fn view(&self) -> Seq<(Seq<u8>, TransportType)> {
        mesh_entries(self.peers@)
    }
}

/// The (id bytes, transport) of each peer of `v`.
pub open spec fn mesh_entries(v: Seq<MeshPeer>) -> Seq<(Seq<u8>, TransportType)> {
    v.map_values(|p: MeshPeer| (p.peer_id@, p.transport))
}

/// Whether two byte vectors hold the same bytes.
fn bytes_equal(a: &Vec<u8>, b: &Vec<u8>) -> (r: bool)
    ensures
        r == (a@ == b@),
{
    if a.len() != b.len() {
        return false;
    }
    let mut i: usize = 0;
    while i < a.len()
        invariant
            a.len() == b.len(),
            i <= a.len(),
            forall|j: int| 0 <= j < i ==> a@[j] == b@[j],
        decreases a.len() - i,
    {
        if a[i] != b[i] {
            return false;
        }
        i = i + 1;
    }
    proof {
        assert(a@ =~= b@);
    }
    true
}

impl PeerTable {
    #[verifier::type_invariant]
    spec fn inv(self) -> bool {
        distinct_ids(self@)
    }

    /// An empty table.
    pub fn new() -> (r: PeerTable)
        ensures
            r@ == Seq::<(Seq<u8>, TransportType)>::empty(),
    {
        let r = PeerTable { peers: Vec::new() };
        proof {
            assert(r@ =~= Seq::<(Seq<u8>, TransportType)>::empty());
        }
        r
    }

    /// Where the entry for `id` is, if the table has one.
    fn find(&self, id: &Vec<u8>) -> (r: Option<usize>)
        ensures
            match r {
                Some(i) => i < self@.len() && self@[i as int].0 == id@ && index_of_id(self@, id@) == Some(i as int),
                None => index_of_id(self@, id@) is None,
            },
    {
        proof {
            use_type_invariant(self);
        }
        let mut i: usize = 0;
        while i < self.peers.len()
            invariant
                i <= self.peers.len(),
                self@.len() == self.peers.len(),
                distinct_ids(self@),
                forall|j: int| 0 <= j < i ==> self@[j].0 != id@,
            decreases self.peers.len() - i,
        {
            if bytes_equal(&self.peers[i].peer_id, id) {
                proof {
                    assert(self@[i as int].0 == id@);
                    let k = choose|k: int| 0 <= k < self@.len() && self@[k].0 == id@;
                    assert(k == i);
                }
                return Some(i);
            }
            i = i + 1;
        }
        None
    }

    /// Records that the peer `peer_id` is reachable over `transport`,
    /// replacing what was known of it.
    pub fn insert(&mut self, peer_id: Vec<u8>, transport: TransportType)
        ensures
            final(self)@ == table_after_insert(old(self)@, peer_id@, transport),
            distinct_ids(final(self)@),
            transport_of(final(self)@, peer_id@) == Some(transport),
            forall|other: Seq<u8>|
                other != peer_id@ ==> #[trigger] transport_of(final(self)@, other) == transport_of(old(self)@, other),
    {
        proof {
            use_type_invariant(&*self);
            assert forall|other: Seq<u8>| other != peer_id@ implies #[trigger] transport_of(
                table_after_insert(self@, peer_id@, transport),
                other,
            ) == transport_of(self@, other) by {
                law_insert_then_lookup(self@, peer_id@, transport, other);
            }
            law_insert_then_lookup(self@, peer_id@, transport, peer_id@);
        }
        let ghost before = self@;
        let found = self.find(&peer_id);
        let mut peers = self.copy_entries();
        match found {
            Some(i) => {
                peers.set(i, MeshPeer { peer_id, transport });
                proof {
                    assert(mesh_entries(peers@) =~= before.update(
                        i as int,
                        (peer_id@, transport),
                    ));
                }
            },
            None => {
                peers.push(MeshPeer { peer_id, transport });
                proof {
                    assert(mesh_entries(peers@) =~= before.push(
                        (peer_id@, transport),
                    ));
                }
            },
        }
        self.peers = peers;
    }

    /// A copy of the entries.
    fn copy_entries(&self) -> (r: Vec<MeshPeer>)
        ensures
            mesh_entries(r@) == self@,
    {
        let mut r: Vec<MeshPeer> = Vec::new();
        let mut i: usize = 0;
        while i < self.peers.len()
            invariant
                i <= self.peers.len(),
                self@.len() == self.peers.len(),
                r.len() == i,
                mesh_entries(r@) == self@.take(i as int),
            decreases self.peers.len() - i,
        {
            let p = &self.peers[i];
            let id = p.peer_id.clone();
            proof {
                assert(id@ =~= p.peer_id@);
            }
            r.push(MeshPeer { peer_id: id, transport: p.transport });
            proof {
                assert(self@[i as int] == (p.peer_id@, p.transport));
                assert(mesh_entries(r@)[i as int] == (id@, p.transport));
                assert forall|j: int| 0 <= j < i implies mesh_entries(r@)[j] == self@.take(i as int + 1)[j] by {
                    assert(mesh_entries(r@)[j] == mesh_entries(r@.drop_last())[j]);
                }
                assert(mesh_entries(r@) =~= self@.take(i as int + 1));
            }
            i = i + 1;
        }
        proof {
            assert(self@.take(self@.len() as int) =~= self@);
        }
        r
    }

    /// How many peers the table holds.
    pub fn len(&self) -> (r: usize)
        ensures
            r == self@.len(),
    {
        self.peers.len()
    }

    /// The transport recorded for `peer_id`, if the table has the peer.
    pub fn transport_for(&self, peer_id: &Vec<u8>) -> (r: Option<TransportType>)
        ensures
            r == transport_of(self@, peer_id@),
    {
        match self.find(peer_id) {
            Some(i) => Some(self.peers[i].transport),
            None => None,
        }
    }

    /// How many peers are reachable over `transport`.
    pub fn count(&self, transport: TransportType) -> (r: usize)
        ensures
            r == count_transport(self@, transport),
    {
        let mut n: usize = 0;
        let mut i: usize = 0;
        while i < self.peers.len()
            invariant
                i <= self.peers.len(),
                self@.len() == self.peers.len(),
                n == count_transport(self@.take(i as int), transport),
                n <= i,
            decreases self.peers.len() - i,
        {
            proof {
                assert(self@.take(i as int + 1).drop_last() =~= self@.take(i as int));
            }
            if self.peers[i].transport == transport {
                n = n + 1;
            }
            i = i + 1;
        }
        proof {
            assert(self@.take(self@.len() as int) =~= self@);
        }
        n
    }
}

/// Every peer is reachable over exactly one transport: the Wi-Fi peers and
/// the Bluetooth peers together are all the peers.
pub proof fn law_transport_counts_add_up(s: Seq<(Seq<u8>, TransportType)>)
    ensures
        count_transport(s, TransportType::Wifi) + count_transport(s, TransportType::Bluetooth) == s.len(),
    decreases s.len(),
{
    if s.len() > 0 {
        law_transport_counts_add_up(s.drop_last());
    }
}

/// Recording a peer makes it reachable over the given transport, leaves
/// every other peer as it was, keeps one entry per peer, and adds an entry
/// only for a peer not seen before.
pub proof fn law_insert_then_lookup(
    s: Seq<(Seq<u8>, TransportType)>,
    id: Seq<u8>,
    t: TransportType,
    other: Seq<u8>,
)
    requires
        distinct_ids(s),
    ensures
        distinct_ids(table_after_insert(s, id, t)),
        transport_of(table_after_insert(s, id, t), id) == Some(t),
        other != id ==> transport_of(table_after_insert(s, id, t), other) == transport_of(s, other),
        table_after_insert(s, id, t).len() == s.len() + if transport_of(s, id) is Some {
            0int
        } else {
            1int
        },
{
    let after = table_after_insert(s, id, t);
    match index_of_id(s, id) {
        Some(i) => {
            assert(after[i].0 == id);
            let k = choose|k: int| 0 <= k < after.len() && after[k].0 == id;
            assert(k == i);
        },
        None => {
            assert(after[s.len() as int].0 == id);
            let k = choose|k: int| 0 <= k < after.len() && after[k].0 == id;
            assert(k == s.len());
        },
    }
    if other != id {
        if exists|i: int| 0 <= i < s.len() && s[i].0 == other {
            let i = choose|i: int| 0 <= i < s.len() && s[i].0 == other;
            assert(after[i].0 == other);
            let k = choose|k: int| 0 <= k < after.len() && after[k].0 == other;
            assert(k == i);
        } else {
            assert forall|i: int| 0 <= i < after.len() implies after[i].0 != other by {
                if i < s.len() {
                    assert(after[i].0 == s[i].0 || after[i].0 == id);
                }
            }
        }
    }
}

/// Which transports currently work. Wi-Fi is assumed to work until a
/// discovery round finds nothing over it; a transport that is down works
/// again once a round finds peers over it.
#[derive(Debug, Clone, Copy, PartialEq, Eq, Structural)]
pub struct TransportHealth {
    pub wifi: bool,
    pub bluetooth: bool,
}

impl TransportHealth {
    /// The health of a node that has just started: Wi-Fi up, Bluetooth up
    /// where a Bluetooth transport could be set up.
    pub fn new(bluetooth_available: bool) -> (r: TransportHealth)
        ensures
            r.wifi,
            r.bluetooth == bluetooth_available,
    {
        TransportHealth { wifi: true, bluetooth: bluetooth_available }
    }

    /// Whether `transport` works.
    pub fn is_healthy(&self, transport: TransportType) -> (r: bool)
        ensures
            r == match transport {
                TransportType::Wifi => self.wifi,
                TransportType::Bluetooth => self.bluetooth,
            },
    {
        match transport {
            TransportType::Wifi => self.wifi,
            TransportType::Bluetooth => self.bluetooth,
        }
    }

    /// Records whether `transport` works.
    pub fn set(&mut self, transport: TransportType, healthy: bool)
        ensures
            final(self).wifi == if transport == TransportType::Wifi { healthy } else { old(self).wifi },
            final(self).bluetooth == if transport == TransportType::Bluetooth {
                healthy
            } else {
                old(self).bluetooth
            },
    {
        match transport {
            TransportType::Wifi => {
                self.wifi = healthy;
            },
            TransportType::Bluetooth => {
                self.bluetooth = healthy;
            },
        }
    }
}

/// How many peers the mesh knows, per transport, and which transports work.
#[derive(Debug, Clone, Copy, PartialEq, Eq, Structural)]
pub struct PeerCounts {
    pub total_peers: usize,
    pub wifi_peers: usize,
    pub bluetooth_peers: usize,
    pub wifi_healthy: bool,
    pub bluetooth_healthy: bool,
}

/// What a discovery round over one transport leads to.
#[derive(Debug, Clone, Copy, PartialEq, Eq, Structural)]
pub enum DiscoveryStep {
    /// The transport is down and the probe found nothing: it stays down.
    StillDown,
    /// Record this many newly found peers on the transport.
    RecordPeers(usize),
    /// The transport was down, and the probe found this many peers: mark it
    /// as working again and record them.
    Recover(usize),
    /// Nothing was found over Wi-Fi: mark Wi-Fi as down.
    MarkDown,
    /// Nothing was found over Bluetooth; nothing changes.
    NothingFound,
}

/// The mesh state of a node: the peers discovered, the health of the
/// transports, and whether discovery runs.
pub struct MeshState {
    pub peers: PeerTable,
    pub health: TransportHealth,
    pub is_running: bool,
}

/// What a discovery round over `transport` leads to, given whether the
/// transport works and how many peers the scan (or, for a transport that is
/// down, the probe) found.
pub fn discovery_step(transport: TransportType, healthy: bool, found: usize) -> (r: DiscoveryStep)
    ensures
        r == discovery_step_spec(transport, healthy, found),
{
    if found > 0 {
        if healthy {
            DiscoveryStep::RecordPeers(found)
        } else {
            DiscoveryStep::Recover(found)
        }
    } else if !healthy {
        DiscoveryStep::StillDown
    } else {
        match transport {
            TransportType::Wifi => DiscoveryStep::MarkDown,
            TransportType::Bluetooth => DiscoveryStep::NothingFound,
        }
    }
}

/// The table after each of `ids` is recorded, in order, as reachable over `t`.
pub open spec fn table_after_inserts(
    s: Seq<(Seq<u8>, TransportType)>,
    ids: Seq<Seq<u8>>,
    t: TransportType,
) -> Seq<(Seq<u8>, TransportType)>
    decreases ids.len(),
{
    if ids.len() == 0 {
        s
    } else {
        table_after_insert(table_after_inserts(s, ids.drop_last(), t), ids.last(), t)
    }
}

/// Why a message could not be routed.
#[derive(Debug, Clone, Copy, PartialEq, Eq, Structural)]
pub enum MeshError {
    PeerNotFound,
}

impl MeshState {
    /// The state of a node that has not started: no peers, Wi-Fi assumed
    /// up, Bluetooth up where a Bluetooth transport could be set up.
    pub fn new(bluetooth_available: bool) -> (r: MeshState)
        ensures
            r.peers@ == Seq::<(Seq<u8>, TransportType)>::empty(),
            r.health.wifi,
            r.health.bluetooth == bluetooth_available,
            !r.is_running,
    {
        MeshState { peers: PeerTable::new(), health: TransportHealth::new(bluetooth_available), is_running: false }
    }

    /// Starts discovery. Returns `false`, changing nothing, where it already
    /// runs; else records whether the Bluetooth transport started (where the
    /// node has one) and marks the node as running.
    pub fn start(&mut self, bluetooth_started: Option<bool>) -> (r: bool)
        ensures
            r == !old(self).is_running,
            final(self).is_running,
            final(self).peers@ == old(self).peers@,
            final(self).health.wifi == old(self).health.wifi,
            final(self).health.bluetooth == if r && bluetooth_started is Some {
                bluetooth_started->0
            } else {
                old(self).health.bluetooth
            },
    {
        if self.is_running {
            return false;
        }
        match bluetooth_started {
            Some(ok) => self.health.set(TransportType::Bluetooth, ok),
            None => {},
        }
        self.is_running = true;
        true
    }

    /// Records each of `peer_ids`, in order, as reachable over `transport`.
    pub fn record_peers(&mut self, transport: TransportType, peer_ids: Vec<Vec<u8>>)
        ensures
            final(self).peers@ == table_after_inserts(old(self).peers@, byte_vecs_view(peer_ids@), transport),
            final(self).health == old(self).health,
            final(self).is_running == old(self).is_running,
    {
        let mut i: usize = 0;
        while i < peer_ids.len()
            invariant
                i <= peer_ids.len(),
                self.peers@ == table_after_inserts(old(self).peers@, byte_vecs_view(peer_ids@).take(i as int), transport),
                self.health == old(self).health,
                self.is_running == old(self).is_running,
            decreases peer_ids.len() - i,
        {
            let id = peer_ids[i].clone();
            proof {
                assert(id@ =~= peer_ids@[i as int]@);
                assert(byte_vecs_view(peer_ids@).take(i as int + 1).drop_last() =~= byte_vecs_view(peer_ids@).take(i as int));
            }
            self.peers.insert(id, transport);
            i = i + 1;
        }
        proof {
            assert(byte_vecs_view(peer_ids@).take(peer_ids.len() as int) =~= byte_vecs_view(peer_ids@));
        }
    }

    /// Carries out a discovery step over `transport`: records `found_ids`
    /// (the peers found) where the step says so, marks a transport that was
    /// down as working again where peers were found over it, or marks Wi-Fi
    /// as down where nothing was found. No peer is ever forgotten.
    pub fn apply_discovery(&mut self, transport: TransportType, found_ids: Vec<Vec<u8>>) -> (r: DiscoveryStep)
        ensures
            r == discovery_step_spec(transport, old(self).health.is_healthy_spec(transport), found_ids.len()),
            (r is RecordPeers || r is Recover) ==> final(self).peers@ == table_after_inserts(
                old(self).peers@,
                byte_vecs_view(found_ids@),
                transport,
            ),
            !(r is RecordPeers || r is Recover) ==> final(self).peers@ == old(self).peers@,
            r is MarkDown ==> final(self).health == old(self).health.with_spec(TransportType::Wifi, false),
            r is Recover ==> final(self).health == old(self).health.with_spec(transport, true),
            !(r is MarkDown || r is Recover) ==> final(self).health == old(self).health,
            final(self).is_running == old(self).is_running,
            forall|id: Seq<u8>| #[trigger] transport_of(old(self).peers@, id) is Some
                ==> transport_of(final(self).peers@, id) is Some,
    {
        let healthy = self.health.is_healthy(transport);
        let step = discovery_step(transport, healthy, found_ids.len());
        let ghost ids = byte_vecs_view(found_ids@);
        match step {
            DiscoveryStep::RecordPeers(_) => self.record_peers(transport, found_ids),
            DiscoveryStep::Recover(_) => {
                self.health.set(transport, true);
                self.record_peers(transport, found_ids);
            },
            DiscoveryStep::MarkDown => self.health.set(TransportType::Wifi, false),
            _ => {},
        }
        proof {
            assert forall|id: Seq<u8>| #[trigger] transport_of(old(self).peers@, id) is Some
                implies transport_of(self.peers@, id) is Some by {
                if step is RecordPeers || step is Recover {
                    law_discovered_peers_stay(old(self).peers@, ids, transport, id);
                }
            }
        }
        step
    }

    /// The peer counts per transport and the health of the transports.
    pub fn status(&self) -> (r: PeerCounts)
        ensures
            r.total_peers == self.peers@.len(),
            r.wifi_peers == count_transport(self.peers@, TransportType::Wifi),
            r.bluetooth_peers == count_transport(self.peers@, TransportType::Bluetooth),
            r.wifi_healthy == self.health.wifi,
            r.bluetooth_healthy == self.health.bluetooth,
    {
        PeerCounts {
            total_peers: self.peers.len(),
            wifi_peers: self.peers.count(TransportType::Wifi),
            bluetooth_peers: self.peers.count(TransportType::Bluetooth),
            wifi_healthy: self.health.wifi,
            bluetooth_healthy: self.health.bluetooth,
        }
    }

    /// The transport over which a message to `peer_id` goes: the one the
    /// peer was discovered on; an error where the peer is unknown.
    pub fn route_message(&self, peer_id: &Vec<u8>) -> (r: Result<TransportType, MeshError>)
        ensures
            match transport_of(self.peers@, peer_id@) {
                Some(t) => r == Ok::<TransportType, MeshError>(t),
                None => r == Err::<TransportType, MeshError>(MeshError::PeerNotFound),
            },
    {
        match self.peers.transport_for(peer_id) {
            Some(t) => Ok(t),
            None => Err(MeshError::PeerNotFound),
        }
    }
}

impl TransportHealth {
    /// Whether `transport` works.
    pub open spec fn is_healthy_spec(self, transport: TransportType) -> bool {
        match transport {
            TransportType::Wifi => self.wifi,
            TransportType::Bluetooth => self.bluetooth,
        }
    }

    /// This health with `transport` recorded as working or not.
    pub open spec fn with_spec(self, transport: TransportType, healthy: bool) -> TransportHealth {
        match transport {
            TransportType::Wifi => TransportHealth { wifi: healthy, ..self },
            TransportType::Bluetooth => TransportHealth { bluetooth: healthy, ..self },
        }
    }
}

/// Peers are never forgotten: a peer known before a discovery round is still
/// known after it records `ids`, whatever they are.
pub proof fn law_discovered_peers_stay(
    s: Seq<(Seq<u8>, TransportType)>,
    ids: Seq<Seq<u8>>,
    t: TransportType,
    id: Seq<u8>,
)
    requires
        transport_of(s, id) is Some,
    ensures
        transport_of(table_after_inserts(s, ids, t), id) is Some,
    decreases ids.len(),
{
    if ids.len() > 0 {
        law_discovered_peers_stay(s, ids.drop_last(), t, id);
        let before = table_after_inserts(s, ids.drop_last(), t);
        let after = table_after_insert(before, ids.last(), t);
        let i = choose|i: int| 0 <= i < before.len() && before[i].0 == id;
        match index_of_id(before, ids.last()) {
            Some(k) => {
                assert(after[i].0 == id);
            },
            None => {
                assert(after[i].0 == id);
            },
        }
    }
}

/// What a discovery round over `transport` leads to: found peers are
/// recorded (and a transport that was down works again); finding none marks
/// Wi-Fi as down.
pub open spec fn discovery_step_spec(transport: TransportType, healthy: bool, found: usize) -> DiscoveryStep {
    if found > 0 {
        if healthy {
            DiscoveryStep::RecordPeers(found)
        } else {
            DiscoveryStep::Recover(found)
        }
    } else if !healthy {
        DiscoveryStep::StillDown
    } else if transport == TransportType::Wifi {
        DiscoveryStep::MarkDown
    } else {
        DiscoveryStep::NothingFound
    }
}

/// How a discovery round changes the health of the transports (`old` before,
/// `new` after, as `apply_discovery` leaves them): a round over one transport
/// never changes the other; a transport that is down and finds no peers
/// stays down and nothing changes; finding peers makes the transport work;
/// and only a Wi-Fi round that finds nothing marks Wi-Fi as down.
pub proof fn law_discovery_round_health(
    transport: TransportType,
    old: TransportHealth,
    new: TransportHealth,
    found: usize,
    r: DiscoveryStep,
)
    requires
        r == discovery_step_spec(transport, old.is_healthy_spec(transport), found),
        r is MarkDown ==> new == old.with_spec(TransportType::Wifi, false),
        r is Recover ==> new == old.with_spec(transport, true),
        !(r is MarkDown || r is Recover) ==> new == old,
    ensures
        transport == TransportType::Bluetooth ==> new.wifi == old.wifi,
        transport == TransportType::Wifi ==> new.bluetooth == old.bluetooth,
        found == 0 && !old.is_healthy_spec(transport) ==> new == old && r == DiscoveryStep::StillDown,
        found > 0 ==> new.is_healthy_spec(transport),
        found == 0 && transport == TransportType::Wifi ==> !new.wifi,
        found == 0 && transport == TransportType::Bluetooth ==> new == old,
        r is MarkDown ==> transport == TransportType::Wifi,
{
}

} // verus!
