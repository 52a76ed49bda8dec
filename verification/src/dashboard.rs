use vstd::prelude::*;
use crate::api::reads_of;
use crate::storage::{strings_view, Storage, StorageError};

verus! {

/// The most recent activities that a dashboard keeps.
pub const MAX_ACTIVITIES: usize = 50;

/// Figures about a running node, as the dashboard shows them.
#[derive(Debug, Clone)]
pub struct NodeStats {
    pub peer_id: String,
    pub listen_addresses: Vec<String>,
    pub connected_peers: Vec<String>,
    pub total_keys: usize,
    pub bluetooth_enabled: bool,
    pub uptime_seconds: u64,
    pub messages_sent: u64,
    pub messages_received: u64,
    pub last_activity: String,
}

/// A peer as the dashboard lists it.
#[derive(Debug, Clone)]
pub struct PeerInfo {
    pub peer_id: String,
    pub transport: String,
    pub last_seen: String,
    pub is_connected: bool,
}

/// What the dashboard knows of the network: the peers it is connected to
/// (one entry per peer id) and the node's own identity and addresses.
#[derive(Debug, Clone)]
pub struct NetworkState {
    pub connected_peers: Vec<PeerInfo>,
    pub listen_addresses: Vec<String>,
    pub peer_id: String,
}

/// Everything the dashboard page shows at once.
#[derive(Debug, Clone)]
pub struct DashboardData {
    pub node_stats: NodeStats,
    pub peers: Vec<PeerInfo>,
    pub recent_activity: Vec<String>,
}

/// One stored key with the value read for it (`None`: the key has no value).
#[derive(Debug, Clone)]
pub struct KeyEntry {
    pub key: String,
    pub value: Option<String>,
}

/// The keys of the store, with their values, as the dashboard lists them.
#[derive(Debug, Clone)]
pub struct DatabaseKeys {
    pub keys: Vec<KeyEntry>,
    pub total_count: usize,
}

/// The state behind the dashboard: message counters, the recent activity
/// log and the view of the network.
pub struct Dashboard {
    messages_sent: u64,
    messages_received: u64,
    recent_activity: Vec<String>,
    network_state: NetworkState,
}

/// Whether no two peers in `peers` have the same id.
pub open spec fn distinct_peer_ids(peers: Seq<PeerInfo>) -> bool {
    forall|i: int, j: int|
        0 <= i < peers.len() && 0 <= j < peers.len() && i != j ==> peers[i].peer_id@
            != peers[j].peer_id@
}

/// The peers of `peers` whose id is not `id`, in order.
pub open spec fn peers_without(peers: Seq<PeerInfo>, id: Seq<char>) -> Seq<PeerInfo>
    decreases peers.len(),
{
    if peers.len() == 0 {
        seq![]
    } else {
        let rest = peers_without(peers.drop_last(), id);
        if peers.last().peer_id@ != id {
            rest.push(peers.last())
        } else {
            rest
        }
    }
}

/// The activity log after `activity` is recorded in `log`: the newest
/// entries, at most `MAX_ACTIVITIES` of them, oldest first.
pub open spec fn log_after(log: Seq<Seq<char>>, activity: Seq<char>) -> Seq<Seq<char>> {
    let all = log.push(activity);
    if all.len() > MAX_ACTIVITIES {
        all.drop_first()
    } else {
        all
    }
}

/// The id of each peer of `v`.
pub open spec fn peer_ids(v: Seq<PeerInfo>) -> Seq<Seq<char>> {
    v.map_values(|p: PeerInfo| p.peer_id@)
}

/// A copy of `p`.
fn copy_peer(p: &PeerInfo) -> (r: PeerInfo)
    ensures
        r == *p,
{
    PeerInfo {
        peer_id: p.peer_id.clone(),
        transport: p.transport.clone(),
        last_seen: p.last_seen.clone(),
        is_connected: p.is_connected,
    }
}

/// A copy of `v`.
fn copy_peers(v: &Vec<PeerInfo>) -> (r: Vec<PeerInfo>)
    ensures
        r@ == v@,
{
    let mut r: Vec<PeerInfo> = Vec::new();
    let mut i: usize = 0;
    while i < v.len()
        invariant
            i <= v.len(),
            r@ == v@.take(i as int),
        decreases v.len() - i,
    {
        r.push(copy_peer(&v[i]));
        proof {
            assert(r@ =~= v@.take(i as int + 1));
        }
        i = i + 1;
    }
    proof {
        assert(v@.take(v.len() as int) =~= v@);
    }
    r
}

/// A copy of `v`.
fn copy_strings(v: &Vec<String>) -> (r: Vec<String>)
    ensures
        r@ == v@,
{
    let mut r: Vec<String> = Vec::new();
    let mut i: usize = 0;
    while i < v.len()
        invariant
            i <= v.len(),
            r@ == v@.take(i as int),
        decreases v.len() - i,
    {
        r.push(v[i].clone());
        proof {
            assert(r@ =~= v@.take(i as int + 1));
        }
        i = i + 1;
    }
    proof {
        assert(v@.take(v.len() as int) =~= v@);
    }
    r
}

/// The peers of `peers` whose id is not `id`, in order.
fn retain_other_peers(peers: &Vec<PeerInfo>, id: &str) -> (r: Vec<PeerInfo>)
    ensures
        r@ == peers_without(peers@, id@),
{
    let mut r: Vec<PeerInfo> = Vec::new();
    let mut i: usize = 0;
    let target = id.to_string();
    while i < peers.len()
        invariant
            i <= peers.len(),
            target@ == id@,
            r@ == peers_without(peers@.take(i as int), id@),
        decreases peers.len() - i,
    {
        proof {
            assert(peers@.take(i as int + 1).drop_last() =~= peers@.take(i as int));
        }
        if peers[i].peer_id != target {
            r.push(copy_peer(&peers[i]));
        }
        i = i + 1;
    }
    proof {
        assert(peers@.take(peers.len() as int) =~= peers@);
    }
    r
}

/// Every peer kept by `peers_without` comes from `peers` and has another id.
proof fn lemma_peers_without_members(peers: Seq<PeerInfo>, id: Seq<char>, i: int)
    requires
        0 <= i < peers_without(peers, id).len(),
    ensures
        peers_without(peers, id)[i].peer_id@ != id,
        exists|j: int| 0 <= j < peers.len() && peers[j] == peers_without(peers, id)[i],
    decreases peers.len(),
{
    let rest = peers_without(peers.drop_last(), id);
    if i < rest.len() {
        lemma_peers_without_members(peers.drop_last(), id, i);
        let j = choose|j: int| 0 <= j < peers.drop_last().len() && peers.drop_last()[j] == rest[i];
        assert(peers[j] == peers_without(peers, id)[i]);
    } else {
        assert(peers[peers.len() - 1] == peers_without(peers, id)[i]);
    }
}

/// Removing the peers with one id keeps the others' ids distinct and
/// leaves no peer with that id.
proof fn lemma_peers_without_distinct(peers: Seq<PeerInfo>, id: Seq<char>)
    requires
        distinct_peer_ids(peers),
    ensures
        distinct_peer_ids(peers_without(peers, id)),
        forall|i: int|
            0 <= i < peers_without(peers, id).len() ==> (#[trigger] peers_without(
                peers,
                id,
            )[i]).peer_id@ != id,
    decreases peers.len(),
{
    if peers.len() > 0 {
        lemma_peers_without_distinct(peers.drop_last(), id);
        let rest = peers_without(peers.drop_last(), id);
        assert forall|i: int| 0 <= i < rest.len() implies (#[trigger] rest[i]).peer_id@
            != peers.last().peer_id@ by {
            lemma_peers_without_members(peers.drop_last(), id, i);
        }
    }
    assert forall|i: int| 0 <= i < peers_without(peers, id).len() implies (#[trigger] peers_without(
        peers,
        id,
    )[i]).peer_id@ != id by {
        lemma_peers_without_members(peers, id, i);
    }
}

/// The dashboard's state as a value: counters, activity log (oldest
/// first), connected peers, and the node's own id and listen addresses.
pub struct DashboardView {
    pub messages_sent: u64,
    pub messages_received: u64,
    pub recent_activity: Seq<Seq<char>>,
    pub connected_peers: Seq<PeerInfo>,
    pub listen_addresses: Seq<Seq<char>>,
    pub peer_id: Seq<char>,
}

impl DashboardView {
    /// What every dashboard state satisfies: at most `MAX_ACTIVITIES`
    /// activities are kept, and each connected peer is listed once.
    pub open spec fn wf(self) -> bool {
        &&& self.recent_activity.len() <= MAX_ACTIVITIES
        &&& distinct_peer_ids(self.connected_peers)
    }
}

impl View for Dashboard {
    type V = DashboardView;

    closed spec fn view(&self) -> DashboardView {
        DashboardView {
            messages_sent: self.messages_sent,
            messages_received: self.messages_received,
            recent_activity: strings_view(self.recent_activity@),
            connected_peers: self.network_state.connected_peers@,
            listen_addresses: strings_view(self.network_state.listen_addresses@),
            peer_id: self.network_state.peer_id@,
        }
    }
}

impl Dashboard {
    #[verifier::type_invariant]
    spec fn inv(self) -> bool {
        self@.wf()
    }

    /// A dashboard with no messages counted, no activity, no peers and an
    /// empty identity.
    pub fn new() -> (r: Dashboard)
        ensures
            r@.wf(),
            r@.messages_sent == 0,
            r@.messages_received == 0,
            r@.recent_activity == Seq::<Seq<char>>::empty(),
            r@.connected_peers == Seq::<PeerInfo>::empty(),
            r@.listen_addresses == Seq::<Seq<char>>::empty(),
            r@.peer_id == Seq::<char>::empty(),
    {
        let r = Dashboard {
            messages_sent: 0,
            messages_received: 0,
            recent_activity: Vec::new(),
            network_state: NetworkState {
                connected_peers: Vec::new(),
                listen_addresses: Vec::new(),
                peer_id: String::new(),
            },
        };
        proof {
            assert(strings_view(r.recent_activity@) =~= Seq::<Seq<char>>::empty());
            assert(strings_view(r.network_state.listen_addresses@) =~= Seq::<Seq<char>>::empty());
        }
        r
    }

    /// How many messages were sent.
    pub fn messages_sent(&self) -> (r: u64)
        ensures
            r == self@.messages_sent,
    {
        self.messages_sent
    }

    /// How many messages were received.
    pub fn messages_received(&self) -> (r: u64)
        ensures
            r == self@.messages_received,
    {
        self.messages_received
    }

    /// Counts one more message sent.
    pub fn increment_messages_sent(&mut self)
        requires
            old(self)@.messages_sent < u64::MAX,
        ensures
            final(self)@ == (DashboardView { messages_sent: (old(self)@.messages_sent + 1) as u64, ..old(self)@ }),
            final(self)@.wf(),
    {
        proof {
            use_type_invariant(&*self);
        }
        self.messages_sent = self.messages_sent + 1;
    }

    /// Counts one more message received.
    pub fn increment_messages_received(&mut self)
        requires
            old(self)@.messages_received < u64::MAX,
        ensures
            final(self)@ == (DashboardView { messages_received: (old(self)@.messages_received + 1) as u64, ..old(self)@ }),
            final(self)@.wf(),
    {
        proof {
            use_type_invariant(&*self);
        }
        self.messages_received = self.messages_received + 1;
    }

    /// Records `activity` as the newest entry of the log; beyond
    /// `MAX_ACTIVITIES` entries the oldest one is dropped.
    pub fn add_activity(&mut self, activity: String)
        ensures
            final(self)@ == (DashboardView {
                recent_activity: log_after(old(self)@.recent_activity, activity@),
                ..old(self)@
            }),
            final(self)@.wf(),
    {
        proof {
            use_type_invariant(&*self);
        }
        let mut log = copy_strings(&self.recent_activity);
        let ghost before = log@;
        log.push(activity);
        if log.len() > MAX_ACTIVITIES {
            log.remove(0);
        }
        proof {
            assert(strings_view(log@) =~= log_after(strings_view(before), activity@));
        }
        self.recent_activity = log;
    }

    /// Sets the node's own peer id and listen addresses.
    pub fn update_network_state(&mut self, peer_id: String, listen_addresses: Vec<String>)
        ensures
            final(self)@ == (DashboardView {
                peer_id: peer_id@,
                listen_addresses: strings_view(listen_addresses@),
                ..old(self)@
            }),
            final(self)@.wf(),
    {
        proof {
            use_type_invariant(&*self);
        }
        let peers = copy_peers(&self.network_state.connected_peers);
        self.network_state = NetworkState { connected_peers: peers, listen_addresses, peer_id };
    }

    /// Lists `peer` as connected, in place of any entry with the same id;
    /// it becomes the last entry.
    pub fn add_peer(&mut self, peer: PeerInfo)
        ensures
            final(self)@ == (DashboardView {
                connected_peers: peers_without(old(self)@.connected_peers, peer.peer_id@).push(peer),
                ..old(self)@
            }),
            final(self)@.wf(),
    {
        proof {
            use_type_invariant(&*self);
            lemma_peers_without_distinct(self.network_state.connected_peers@, peer.peer_id@);
        }
        let mut peers = retain_other_peers(&self.network_state.connected_peers, peer.peer_id.as_str());
        peers.push(peer);
        let addresses = copy_strings(&self.network_state.listen_addresses);
        let id = self.network_state.peer_id.clone();
        self.network_state = NetworkState { connected_peers: peers, listen_addresses: addresses, peer_id: id };
    }

    /// Drops every connected peer whose id is `peer_id`.
    pub fn remove_peer(&mut self, peer_id: &str)
        ensures
            final(self)@ == (DashboardView {
                connected_peers: peers_without(old(self)@.connected_peers, peer_id@),
                ..old(self)@
            }),
            final(self)@.wf(),
    {
        proof {
            use_type_invariant(&*self);
            lemma_peers_without_distinct(self.network_state.connected_peers@, peer_id@);
        }
        let peers = retain_other_peers(&self.network_state.connected_peers, peer_id);
        let addresses = copy_strings(&self.network_state.listen_addresses);
        let id = self.network_state.peer_id.clone();
        self.network_state = NetworkState { connected_peers: peers, listen_addresses: addresses, peer_id: id };
    }
}

/// The entries listed for `keys`, where `lookups[i]` is what reading
/// `keys[i]` gave: keys whose read failed are left out, the others keep
/// their order.
pub open spec fn key_entries(
    keys: Seq<String>,
    lookups: Seq<Result<Option<String>, StorageError>>,
) -> Seq<KeyEntry>
    decreases keys.len(),
{
    if keys.len() == 0 || lookups.len() == 0 {
        seq![]
    } else {
        let rest = key_entries(keys.drop_last(), lookups.drop_last());
        match lookups.last() {
            Ok(v) => rest.push(KeyEntry { key: keys.last(), value: v }),
            Err(_) => rest,
        }
    }
}

/// The key listing for `keys` and the reads `lookups` made for them, one
/// per key.
pub fn database_keys_from(
    keys: Vec<String>,
    lookups: Vec<Result<Option<String>, StorageError>>,
) -> (r: DatabaseKeys)
    requires
        keys.len() == lookups.len(),
    ensures
        r.keys@ == key_entries(keys@, lookups@),
        r.total_count == r.keys@.len(),
{
    let mut entries: Vec<KeyEntry> = Vec::new();
    let n = keys.len();
    let mut i: usize = 0;
    while i < n
        invariant
            n == keys.len(),
            n == lookups.len(),
            i <= n,
            entries@ == key_entries(keys@.take(i as int), lookups@.take(i as int)),
        decreases n - i,
    {
        proof {
            assert(keys@.take(i as int + 1).drop_last() =~= keys@.take(i as int));
            assert(lookups@.take(i as int + 1).drop_last() =~= lookups@.take(i as int));
        }
        match &lookups[i] {
            Ok(v) => {
                let value = match v {
                    Some(t) => Some(t.clone()),
                    None => None,
                };
                entries.push(KeyEntry { key: keys[i].clone(), value });
            },
            Err(_) => {},
        }
        i = i + 1;
    }
    proof {
        assert(keys@.take(n as int) =~= keys@);
        assert(lookups@.take(n as int) =~= lookups@);
    }
    let total_count = entries.len();
    DatabaseKeys { keys: entries, total_count }
}

/// Lists the keys of `storage` with the value read for each; a key whose
/// read fails is left out. Fails, with the listing's error, exactly where
/// the listing fails.
pub fn get_database_keys<S: Storage + ?Sized>(storage: &S) -> (r: Result<DatabaseKeys, StorageError>)
    ensures
        match r {
            Ok(d) => exists|keys: Vec<String>, lookups: Seq<Result<Option<String>, StorageError>>|
                #![trigger storage.list_answer(Ok(keys)), reads_of(storage, keys@, lookups)]
                storage.list_answer(Ok(keys)) && reads_of(storage, keys@, lookups)
                    && d.keys@ == key_entries(keys@, lookups) && d.total_count == d.keys@.len(),
            Err(e) => storage.list_answer(Err(e)),
        },
{
    let keys = match storage.list_keys() {
        Ok(k) => k,
        Err(e) => {
            return Err(e);
        },
    };
    let mut lookups: Vec<Result<Option<String>, StorageError>> = Vec::new();
    let mut i: usize = 0;
    while i < keys.len()
        invariant
            i <= keys.len(),
            lookups.len() == i,
            forall|j: int| 0 <= j < i ==> #[trigger] storage.get_answer(keys@[j]@, lookups@[j]),
        decreases keys.len() - i,
    {
        let answer = storage.get(keys[i].as_str());
        lookups.push(answer);
        i = i + 1;
    }
    let ghost k = keys;
    let ghost l = lookups@;
    let d = database_keys_from(keys, lookups);
    assert(storage.list_answer(Ok(k)) && reads_of(storage, k@, l));
    Ok(d)
}

impl Dashboard {
    /// The figures for the dashboard: the given identity, addresses,
    /// uptime, Bluetooth support, time of the latest activity and key
    /// count, with the message counters and the ids of the connected peers.
    pub fn node_stats(
        &self,
        total_keys: usize,
        peer_id: String,
        listen_addresses: Vec<String>,
        uptime_seconds: u64,
        bluetooth_enabled: bool,
        last_activity: String,
    ) -> (r: NodeStats)
        ensures
            r.peer_id == peer_id,
            r.listen_addresses == listen_addresses,
            strings_view(r.connected_peers@) == peer_ids(self@.connected_peers),
            r.total_keys == total_keys,
            r.bluetooth_enabled == bluetooth_enabled,
            r.uptime_seconds == uptime_seconds,
            r.messages_sent == self@.messages_sent,
            r.messages_received == self@.messages_received,
            r.last_activity == last_activity,
    {
        let peers = &self.network_state.connected_peers;
        let mut ids: Vec<String> = Vec::new();
        let mut i: usize = 0;
        while i < peers.len()
            invariant
                i <= peers.len(),
                peers@ == self@.connected_peers,
                ids.len() == i,
                strings_view(ids@) == peer_ids(peers@.take(i as int)),
            decreases peers.len() - i,
        {
            let id = peers[i].peer_id.clone();
            ids.push(id);
            proof {
                assert(peers@.take(i as int + 1)[i as int] == peers@[i as int]);
                assert(peer_ids(peers@.take(i as int + 1))[i as int] == peers@[i as int].peer_id@);
                assert(strings_view(ids@)[i as int] == id@);
                assert forall|j: int| 0 <= j < i implies strings_view(ids@)[j] == peer_ids(
                    peers@.take(i as int + 1),
                )[j] by {
                    assert(strings_view(ids@)[j] == peer_ids(peers@.take(i as int))[j]);
                }
                assert(strings_view(ids@) =~= peer_ids(peers@.take(i as int + 1)));
            }
            i = i + 1;
        }
        proof {
            assert(peers@.take(peers.len() as int) =~= peers@);
        }
        NodeStats {
            peer_id,
            listen_addresses,
            connected_peers: ids,
            total_keys,
            bluetooth_enabled,
            uptime_seconds,
            messages_sent: self.messages_sent,
            messages_received: self.messages_received,
            last_activity,
        }
    }

    /// The figures for the dashboard, counting the keys of `storage`; fails
    /// where listing the keys fails.
    pub fn get_node_stats<S: Storage + ?Sized>(
        &self,
        storage: &S,
        peer_id: String,
        listen_addresses: Vec<String>,
        uptime_seconds: u64,
        bluetooth_enabled: bool,
        last_activity: String,
    ) -> (r: Result<NodeStats, StorageError>)
        ensures
            match r {
                Ok(s) => exists|keys: Vec<String>| #[trigger] storage.list_answer(Ok(keys)) && s.total_keys == keys.len(),
                Err(e) => storage.list_answer(Err(e)),
            },
            r matches Ok(s) ==> {
                &&& s.peer_id == peer_id
                &&& s.listen_addresses == listen_addresses
                &&& strings_view(s.connected_peers@) == peer_ids(self@.connected_peers)
                &&& s.bluetooth_enabled == bluetooth_enabled
                &&& s.uptime_seconds == uptime_seconds
                &&& s.messages_sent == self@.messages_sent
                &&& s.messages_received == self@.messages_received
                &&& s.last_activity == last_activity
            },
    {
        match storage.list_keys() {
            Ok(keys) => {
                let s = self.node_stats(
                    keys.len(),
                    peer_id,
                    listen_addresses,
                    uptime_seconds,
                    bluetooth_enabled,
                    last_activity,
                );
                assert(storage.list_answer(Ok(keys)) && s.total_keys == keys.len());
                Ok(s)
            },
            Err(e) => Err(e),
        }
    }

    /// Everything the dashboard page shows: the figures (see
    /// `get_node_stats`), the connected peers and the activity log.
    pub fn get_dashboard_data<S: Storage + ?Sized>(
        &self,
        storage: &S,
        peer_id: String,
        listen_addresses: Vec<String>,
        uptime_seconds: u64,
        bluetooth_enabled: bool,
        last_activity: String,
    ) -> (r: Result<DashboardData, StorageError>)
        ensures
            match r {
                Ok(d) => exists|keys: Vec<String>|
                    #[trigger] storage.list_answer(Ok(keys)) && d.node_stats.total_keys == keys.len(),
                Err(e) => storage.list_answer(Err(e)),
            },
            r matches Ok(d) ==> {
                &&& d.node_stats.peer_id == peer_id
                &&& d.node_stats.listen_addresses == listen_addresses
                &&& strings_view(d.node_stats.connected_peers@) == peer_ids(self@.connected_peers)
                &&& d.node_stats.bluetooth_enabled == bluetooth_enabled
                &&& d.node_stats.uptime_seconds == uptime_seconds
                &&& d.node_stats.messages_sent == self@.messages_sent
                &&& d.node_stats.messages_received == self@.messages_received
                &&& d.node_stats.last_activity == last_activity
                &&& d.peers@ == self@.connected_peers
                &&& strings_view(d.recent_activity@) == self@.recent_activity
            },
    {
        let node_stats = match self.get_node_stats(
            storage,
            peer_id,
            listen_addresses,
            uptime_seconds,
            bluetooth_enabled,
            last_activity,
        ) {
            Ok(s) => s,
            Err(e) => {
                return Err(e);
            },
        };
        let peers = copy_peers(&self.network_state.connected_peers);
        let recent_activity = copy_strings(&self.recent_activity);
        Ok(DashboardData { node_stats, peers, recent_activity })
    }
}

} // verus!
