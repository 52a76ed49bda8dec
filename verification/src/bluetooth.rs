use vstd::prelude::*;
use vstd::string::StringSliceAdditionalSpecFns;
use crate::text::{contains, contains_spec, remove_dashes, without_dashes};
use crate::storage::{byte_vecs_view, opt_bytes, opt_chars, strings_view};

verus! {

/// Whether a Bluetooth device name marks a likely peer: it mentions
/// `TrainDB` or one of the known development machines.
pub open spec fn is_peer_device_name_spec(name: Seq<char>) -> bool {
    ||| contains_spec(name, "TrainDB"@)
    ||| contains_spec(name, "amengade_in-mac"@)
    ||| contains_spec(name, "Abhiraj Mengade's MacBook Air"@)
    ||| contains_spec(name, "MacBook"@)
}

/// Whether a Bluetooth device name marks a likely peer.
pub fn is_peer_device_name(name: &str) -> (r: bool)
    ensures
        r == is_peer_device_name_spec(name@),
{
    contains(name, "TrainDB") || contains(name, "amengade_in-mac") || contains(
        name,
        "Abhiraj Mengade's MacBook Air",
    ) || contains(name, "MacBook")
}

/// Whether a discovered device is kept as a possible peer: a named device
/// where its name marks a peer, and every unnamed device.
pub open spec fn accepts_device_spec(name: Option<Seq<char>>) -> bool {
    match name {
        Some(n) => is_peer_device_name_spec(n),
        None => true,
    }
}

/// Whether a discovered device with this name (if any) is kept as a
/// possible peer.
pub fn accepts_device(name: &Option<String>) -> (r: bool)
    ensures
        r == accepts_device_spec(opt_chars(*name)),
{
    match name {
        Some(n) => is_peer_device_name(n.as_str()),
        None => true,
    }
}

/// Whether the node tries to connect to a device with this name: only
/// named devices that mention `TrainDB`.
pub fn should_connect(name: &Option<String>) -> (r: bool)
    ensures
        r == match opt_chars(*name) {
            Some(n) => contains_spec(n, "TrainDB"@),
            None => false,
        },
{
    match name {
        Some(n) => contains(n.as_str(), "TrainDB"),
        None => false,
    }
}

/// The value of the hexadecimal digit `c` (an ASCII byte), if it is one.
pub open spec fn hex_digit_value(c: u8) -> Option<u8> {
    if 0x30 <= c <= 0x39 {
        Some((c - 0x30) as u8)
    } else if 0x41 <= c <= 0x46 {
        Some((c - 0x41 + 10) as u8)
    } else if 0x61 <= c <= 0x66 {
        Some((c - 0x61 + 10) as u8)
    } else {
        None
    }
}

/// The bytes that the hexadecimal text `b` (its UTF-8 bytes) stands for:
/// each pair of digits, either case, gives one byte, high digit first. `None`
/// where the length is odd or a byte is not a hexadecimal digit.
pub open spec fn hex_decode_spec(b: Seq<u8>) -> Option<Seq<u8>> {
    if b.len() % 2 == 0 && forall|i: int| 0 <= i < b.len() ==> #[trigger] hex_digit_value(b[i]) is Some {
        Some(
            Seq::new(
                (b.len() / 2) as nat,
                |i: int|
                    (hex_digit_value(b[2 * i])->0 * 16 + hex_digit_value(b[2 * i + 1])->0) as u8,
            ),
        )
    } else {
        None
    }
}

/// Decodes hexadecimal text with `hex::decode`.
#[verifier::external_body]
fn hex_decode(s: &str) -> (r: Option<Vec<u8>>)
    ensures
        opt_bytes(r) == hex_decode_spec(s.spec_bytes()),
{
    hex::decode(s).ok()
}

/// The 32 key bytes made from `bytes`: its first 32 bytes, padded with
/// zeros where it is shorter.
pub open spec fn padded_key(bytes: Seq<u8>) -> Seq<u8> {
    Seq::new(32, |i: int| if i < bytes.len() { bytes[i] } else { 0u8 })
}

/// The public-key bytes derived from a device id: the id without dashes,
/// read as hexadecimal (no bytes where it is not), cut or zero-padded to 32
/// bytes.
pub open spec fn device_key_spec(device_id: Seq<char>) -> Seq<u8> {
    let stripped: Seq<char> = without_dashes(device_id);
    padded_key(
        match hex_decode_spec(vstd::utf8::encode_utf8(stripped)) {
            Some(b) => b,
            None => Seq::empty(),
        },
    )
}

/// The 32 public-key bytes derived from a Bluetooth device id.
pub fn device_key_bytes(device_id: &str) -> (r: Vec<u8>)
    ensures
        r@ == device_key_spec(device_id@),
{
    let stripped = remove_dashes(device_id);
    let bytes = match hex_decode(stripped.as_str()) {
        Some(b) => b,
        None => Vec::new(),
    };
    let mut key: Vec<u8> = Vec::new();
    let mut i: usize = 0;
    while i < 32
        invariant
            i <= 32,
            key@ == padded_key(bytes@).take(i as int),
        decreases 32 - i,
    {
        if i < bytes.len() {
            key.push(bytes[i]);
        } else {
            key.push(0u8);
        }
        proof {
            assert(key@ =~= padded_key(bytes@).take(i as int + 1));
        }
        i = i + 1;
    }
    proof {
        assert(padded_key(bytes@).take(32) =~= padded_key(bytes@));
    }
    key
}

/// Whether the 32 bytes `key` are the compressed form of a point on the
/// Ed25519 curve, as `ed25519_dalek::VerifyingKey::from_bytes` decides.
pub uninterp spec fn ed25519_key_is_valid(key: Seq<u8>) -> bool;

/// The bytes of the libp2p peer id of the Ed25519 public key `key`: the
/// identity multihash (code `0x00`, length `0x24`) of the key's protobuf
/// encoding (field 1, key type Ed25519 = 1; field 2, the 32 key bytes).
pub open spec fn ed25519_peer_id_bytes(key: Seq<u8>) -> Seq<u8> {
    seq![0x00u8, 0x24u8, 0x08u8, 0x01u8, 0x12u8, 0x20u8] + key
}

/// The bytes of the libp2p peer id of the Ed25519 public key `key`; `None`
/// where `key` is not a valid Ed25519 public key.
pub open spec fn ed25519_peer_id(key: Seq<u8>) -> Option<Seq<u8>> {
    if key.len() == 32 && ed25519_key_is_valid(key) {
        Some(ed25519_peer_id_bytes(key))
    } else {
        None
    }
}

/// Reads `key` with `libp2p::identity::ed25519::PublicKey::try_from_bytes`
/// and returns the bytes (`PeerId::to_bytes`) of the peer id
/// (`PeerId::from_public_key`) of that key. The contract claims that a key
/// is read exactly where it has 32 bytes that form a curve point, and that
/// the peer id is then the identity multihash of the key's protobuf
/// encoding, which is short enough (36 bytes) to be inlined.
#[verifier::external_body]
fn peer_id_of_ed25519_key(key: &[u8]) -> (r: Option<Vec<u8>>)
    ensures
        r is Some <==> (key@.len() == 32 && ed25519_key_is_valid(key@)),
        r matches Some(b) ==> b@ == ed25519_peer_id_bytes(key@),
{
    match libp2p::identity::ed25519::PublicKey::try_from_bytes(key) {
        Ok(k) => Some(libp2p::PeerId::from_public_key(&libp2p::identity::PublicKey::from(k)).to_bytes()),
        Err(_) => None,
    }
}

/// A Bluetooth device that discovery has seen: its platform id and, where
/// the device advertises one, its name.
#[derive(Debug, Clone)]
pub struct DiscoveredDevice {
    pub device_id: String,
    pub name: Option<String>,
}

/// The peer id derived for a device, if its key bytes form a valid key.
pub open spec fn device_peer_id_spec(d: DiscoveredDevice) -> Option<Seq<u8>> {
    ed25519_peer_id(device_key_spec(d.device_id@))
}

/// The peer ids of the devices of `devices` kept as possible peers whose
/// derived key is valid, in order.
pub open spec fn discovered_peer_ids(devices: Seq<DiscoveredDevice>) -> Seq<Seq<u8>>
    decreases devices.len(),
{
    if devices.len() == 0 {
        seq![]
    } else {
        let rest = discovered_peer_ids(devices.drop_last());
        let d = devices.last();
        if accepts_device_spec(opt_chars(d.name)) && device_peer_id_spec(d) is Some {
            rest.push(device_peer_id_spec(d)->0)
        } else {
            rest
        }
    }
}

/// The peer id derived for the device `device_id`: the libp2p peer id of
/// the Ed25519 key whose bytes come from the device id.
pub fn device_peer_id(device_id: &str) -> (r: Option<Vec<u8>>)
    ensures
        opt_bytes(r) == ed25519_peer_id(device_key_spec(device_id@)),
{
    let key = device_key_bytes(device_id);
    let r = peer_id_of_ed25519_key(key.as_slice());
    proof {
        if r is Some {
            assert(r->0@ =~= ed25519_peer_id_bytes(key@));
        }
    }
    r
}

/// The peers among the discovered `devices`: each device kept as a
/// possible peer gives the peer id derived from its id, where that id gives
/// a valid key; the order of `devices` is kept.
pub fn discover_peer_ids(devices: &Vec<DiscoveredDevice>) -> (r: Vec<Vec<u8>>)
    ensures
        byte_vecs_view(r@) == discovered_peer_ids(devices@),
{
    let mut peers: Vec<Vec<u8>> = Vec::new();
    let mut i: usize = 0;
    while i < devices.len()
        invariant
            i <= devices.len(),
            byte_vecs_view(peers@) == discovered_peer_ids(devices@.take(i as int)),
        decreases devices.len() - i,
    {
        proof {
            assert(devices@.take(i as int + 1).drop_last() =~= devices@.take(i as int));
        }
        let d = &devices[i];
        if accepts_device(&d.name) {
            match device_peer_id(d.device_id.as_str()) {
                Some(id) => {
                    peers.push(id);
                },
                None => {},
            }
        }
        proof {
            assert(byte_vecs_view(peers@) =~= discovered_peer_ids(devices@.take(i as int + 1)));
        }
        i = i + 1;
    }
    proof {
        assert(devices@.take(devices.len() as int) =~= devices@);
    }
    peers
}

/// `s` without the entries equal to `a`, in order.
pub open spec fn texts_without(s: Seq<Seq<char>>, a: Seq<char>) -> Seq<Seq<char>>
    decreases s.len(),
{
    if s.len() == 0 {
        seq![]
    } else if s.last() == a {
        texts_without(s.drop_last(), a)
    } else {
        texts_without(s.drop_last(), a).push(s.last())
    }
}

proof fn lemma_texts_without_no_dup(s: Seq<Seq<char>>, a: Seq<char>)
    requires
        s.no_duplicates(),
    ensures
        texts_without(s, a).no_duplicates(),
        !texts_without(s, a).contains(a),
        forall|x: Seq<char>| #[trigger] texts_without(s, a).contains(x) ==> s.contains(x),
    decreases s.len(),
{
    if s.len() > 0 {
        let rest = s.drop_last();
        assert(rest.no_duplicates()) by {
            assert forall|i: int, j: int| 0 <= i < rest.len() && 0 <= j < rest.len() && i != j implies rest[i] != rest[j] by {
                assert(rest[i] == s[i] && rest[j] == s[j]);
            }
        }
        lemma_texts_without_no_dup(rest, a);
        assert forall|x: Seq<char>| #[trigger] rest.contains(x) implies s.contains(x) by {
            let k = choose|k: int| 0 <= k < rest.len() && rest[k] == x;
            assert(s[k] == x);
        }
        if s.last() != a {
            assert(!rest.contains(s.last())) by {
                if rest.contains(s.last()) {
                    let k = choose|k: int| 0 <= k < rest.len() && rest[k] == s.last();
                    assert(s[k] == s[s.len() - 1]);
                }
            }
            assert(!texts_without(rest, a).contains(s.last()));
            let t = texts_without(rest, a).push(s.last());
            assert forall|x: Seq<char>| #[trigger] t.contains(x) implies s.contains(x) by {
                let k = choose|k: int| 0 <= k < t.len() && t[k] == x;
                if k < t.len() - 1 {
                    assert(texts_without(rest, a).contains(x));
                } else {
                    assert(s[s.len() - 1] == x);
                }
            }
            assert(!t.contains(a)) by {
                if t.contains(a) {
                    let k = choose|k: int| 0 <= k < t.len() && t[k] == a;
                    if k < t.len() - 1 {
                        assert(texts_without(rest, a).contains(a));
                    }
                }
            }
        }
    }
}

/// The Bluetooth peers a node has connected to, by address; each address
/// appears once.
pub struct BluetoothConnectionManager {
    connections: Vec<String>,
}

impl View for BluetoothConnectionManager {
    type V = Seq<Seq<char>>;

    closed spec fn view(&self) -> Seq<Seq<char>> {
        strings_view(self.connections@)
    }
}

impl BluetoothConnectionManager {
    #[verifier::type_invariant]
    spec fn inv(self) -> bool {
        self@.no_duplicates()
    }

    /// A manager with no connections.
    pub fn new() -> (r: BluetoothConnectionManager)
        ensures
            r@ == Seq::<Seq<char>>::empty(),
    {
        let r = BluetoothConnectionManager { connections: Vec::new() };
        proof {
            assert(r@ =~= Seq::<Seq<char>>::empty());
        }
        r
    }

    /// Records a connection to `address`; an address already connected
    /// stays listed once.
    pub fn connect_to_peer(&mut self, address: String)
        ensures
            final(self)@ == if old(self)@.contains(address@) {
                old(self)@
            } else {
                old(self)@.push(address@)
            },
            final(self)@.no_duplicates(),
    {
        proof {
            use_type_invariant(&*self);
        }
        let mut i: usize = 0;
        while i < self.connections.len()
            invariant
                i <= self.connections.len(),
                self@.len() == self.connections.len(),
                self@.no_duplicates(),
                forall|k: int| 0 <= k < i ==> self@[k] != address@,
            decreases self.connections.len() - i,
        {
            if self.connections[i] == address {
                proof {
                    assert(self@[i as int] == address@);
                }
                return;
            }
            i = i + 1;
        }
        let mut next: Vec<String> = Vec::new();
        let mut j: usize = 0;
        while j < self.connections.len()
            invariant
                j <= self.connections.len(),
                next@ == self.connections@.take(j as int),
            decreases self.connections.len() - j,
        {
            next.push(self.connections[j].clone());
            proof {
                assert(next@ =~= self.connections@.take(j as int + 1));
            }
            j = j + 1;
        }
        proof {
            assert(self.connections@.take(self.connections.len() as int) =~= self.connections@);
        }
        let ghost before = self@;
        next.push(address);
        proof {
            assert(strings_view(next@) =~= before.push(address@));
            assert(!before.contains(address@));
        }
        self.connections = next;
    }

    /// Forgets the connection to `address`.
    pub fn disconnect_from_peer(&mut self, address: String)
        ensures
            final(self)@ == texts_without(old(self)@, address@),
            final(self)@.no_duplicates(),
            !final(self)@.contains(address@),
    {
        proof {
            use_type_invariant(&*self);
            lemma_texts_without_no_dup(self@, address@);
        }
        let mut next: Vec<String> = Vec::new();
        let mut j: usize = 0;
        while j < self.connections.len()
            invariant
                j <= self.connections.len(),
                self@.len() == self.connections.len(),
                strings_view(next@) == texts_without(self@.take(j as int), address@),
            decreases self.connections.len() - j,
        {
            proof {
                assert(self@.take(j as int + 1).drop_last() =~= self@.take(j as int));
            }
            if self.connections[j] != address {
                next.push(self.connections[j].clone());
                proof {
                    assert(strings_view(next@) =~= texts_without(self@.take(j as int), address@).push(self@[j as int]));
                }
            }
            j = j + 1;
        }
        proof {
            assert(self@.take(self@.len() as int) =~= self@);
        }
        self.connections = next;
    }

    /// The connections as address/state pairs. As it stands, no connection
    /// is reported here: the list is always empty.
    pub fn get_connections(&self) -> (r: Vec<(String, String)>)
        ensures
            r@.len() == 0,
    {
        Vec::new()
    }
}

/// A message sent to a Bluetooth peer, stamped with the time it was queued
/// (milliseconds since the Unix epoch).
#[derive(Debug, Clone)]
pub struct BluetoothMessage {
    pub from: String,
    pub to: String,
    pub data: Vec<u8>,
    pub timestamp_millis: i64,
}

/// The queue of Bluetooth messages waiting to be handled.
pub struct BluetoothMessageHandler {
    message_queue: Vec<BluetoothMessage>,
}

impl View for BluetoothMessageHandler {
    type V = Seq<BluetoothMessage>;

    closed spec fn view(&self) -> Seq<BluetoothMessage> {
        self.message_queue@
    }
}

impl BluetoothMessageHandler {
    /// A handler with an empty queue.
    pub fn new() -> (r: BluetoothMessageHandler)
        ensures
            r@ == Seq::<BluetoothMessage>::empty(),
    {
        BluetoothMessageHandler { message_queue: Vec::new() }
    }

    /// Queues `data` for the peer `to`, from `"local"`, stamped with
    /// `timestamp_millis`.
    pub fn send_message(&mut self, to: String, data: Vec<u8>, timestamp_millis: i64)
        ensures
            final(self)@.len() == old(self)@.len() + 1,
            final(self)@.drop_last() == old(self)@,
            final(self)@.last().from@ == "local"@,
            final(self)@.last().to == to,
            final(self)@.last().data == data,
            final(self)@.last().timestamp_millis == timestamp_millis,
    {
        let ghost before = self.message_queue@;
        self.message_queue.push(BluetoothMessage { from: "local".to_string(), to, data, timestamp_millis });
        proof {
            assert(self.message_queue@.drop_last() =~= before);
        }
    }

    /// Takes every queued message, newest first, leaving the queue empty.
    pub fn handle_incoming_messages(&mut self) -> (r: Vec<BluetoothMessage>)
        ensures
            r@ == old(self)@.reverse(),
            final(self)@ == Seq::<BluetoothMessage>::empty(),
    {
        let ghost q = self.message_queue@;
        let mut handled: Vec<BluetoothMessage> = Vec::new();
        while self.message_queue.len() > 0
            invariant
                q == self.message_queue@ + handled@.reverse(),
            decreases self.message_queue.len(),
        {
            let ghost before = self.message_queue@;
            let m = self.message_queue.pop().unwrap();
            let ghost h = handled@;
            handled.push(m);
            proof {
                assert(handled@.reverse() =~= seq![m] + h.reverse());
                assert(before =~= self.message_queue@.push(m));
                assert(q =~= self.message_queue@ + handled@.reverse());
            }
        }
        proof {
            assert(handled@.reverse().reverse() =~= handled@);
            assert(q =~= handled@.reverse());
        }
        handled
    }
}

/// Disconnecting from an address right after connecting to it forgets it
/// again: the connections are those from before, without that address.
pub proof fn law_connect_then_disconnect(connections: Seq<Seq<char>>, address: Seq<char>)
    requires
        connections.no_duplicates(),
    ensures
        texts_without(
            if connections.contains(address) {
                connections
            } else {
                connections.push(address)
            },
            address,
        ) == texts_without(connections, address),
        !connections.contains(address) ==> texts_without(connections, address) == connections,
{
    if !connections.contains(address) {
        assert(connections.push(address).drop_last() =~= connections);
        lemma_texts_without_absent(connections, address);
    }
}

/// Removing an address that `s` does not hold changes nothing.
proof fn lemma_texts_without_absent(s: Seq<Seq<char>>, a: Seq<char>)
    requires
        !s.contains(a),
    ensures
        texts_without(s, a) == s,
    decreases s.len(),
{
    if s.len() > 0 {
        assert(!s.drop_last().contains(a)) by {
            if s.drop_last().contains(a) {
                let k = choose|k: int| 0 <= k < s.drop_last().len() && s.drop_last()[k] == a;
                assert(s[k] == a);
            }
        }
        lemma_texts_without_absent(s.drop_last(), a);
        assert(s.last() != a) by {
            if s.last() == a {
                assert(s[s.len() - 1] == a);
            }
        }
        assert(s.drop_last().push(s.last()) =~= s);
    }
}

/// Which named devices are kept as possible peers: a name that mentions
/// `TrainDB`, `amengade_in-mac`, `Abhiraj Mengade's MacBook Air` or
/// `MacBook` is kept, any other name is not; an unnamed device is kept. A
/// kept device with a valid derived key gives its peer id.
pub proof fn law_peer_devices_are_kept(n: Seq<char>, d: DiscoveredDevice)
    ensures
        contains_spec(n, "TrainDB"@) ==> accepts_device_spec(Some(n)),
        contains_spec(n, "amengade_in-mac"@) ==> accepts_device_spec(Some(n)),
        contains_spec(n, "Abhiraj Mengade's MacBook Air"@) ==> accepts_device_spec(Some(n)),
        contains_spec(n, "MacBook"@) ==> accepts_device_spec(Some(n)),
        !contains_spec(n, "TrainDB"@) && !contains_spec(n, "amengade_in-mac"@) && !contains_spec(
            n,
            "Abhiraj Mengade's MacBook Air"@,
        ) && !contains_spec(n, "MacBook"@) ==> !accepts_device_spec(Some(n)),
        accepts_device_spec(None),
        opt_chars(d.name) == Some(n) && contains_spec(n, "MacBook"@) && device_peer_id_spec(d) is Some
            ==> discovered_peer_ids(seq![d]) == seq![device_peer_id_spec(d)->0],
{
    let s = seq![d];
    assert(s.drop_last() =~= Seq::<DiscoveredDevice>::empty());
    assert(s.last() == d);
    reveal_with_fuel(discovered_peer_ids, 2);
}

} // verus!
