use vstd::prelude::*;
use crate::text::word_is;
use crate::storage::{opt_chars, Storage, StorageError};

verus! {

/// A request handed to a running node by its user interface.
#[derive(Debug, Clone)]
pub enum NetworkCommand {
    SetKey { key: String, value: String },
    GetKey { key: String },
    DeleteKey { key: String },
    ListKeys,
    BroadcastMessage { message: Vec<u8> },
}

/// A change that a node shares with its peers so that they make it too.
#[derive(Debug, Clone)]
pub enum SyncOperation {
    Store { key: String, value: String },
    Delete { key: String },
}

/// The storage operation that a command asked for.
#[derive(Debug, Clone, Copy, PartialEq, Eq, Structural)]
pub enum StorageOperation {
    Write,
    Read,
    Delete,
    List,
}

/// What a node does once it has handled a command.
#[derive(Debug, Clone)]
pub enum NodeAction {
    /// Tell the peers about this change: publish `message`, the change as
    /// JSON stamped with the time, on the data topic.
    Broadcast { change: SyncOperation, message: Vec<u8> },
    /// Publish these bytes as they are on the data topic.
    Publish(Vec<u8>),
    /// Report the value found under `key` (`None`: no such key).
    ReportValue { key: String, value: Option<String> },
    /// Report the keys of the store.
    ReportKeys(Vec<String>),
    /// Report that the storage operation failed, with the store's message.
    StorageFailed { operation: StorageOperation, message: String },
}

/// The string value of the top-level member `field` of the JSON document
/// held in `data`; `None` where `data` is not JSON, the document is not an
/// object with such a member, or the member is not a string.
pub uninterp spec fn json_string_member(data: Seq<u8>, field: Seq<char>) -> Option<Seq<char>>;

/// The integer value of the top-level member `field` of the JSON document
/// held in `data`; `None` where `data` is not JSON, the document is not an
/// object with such a member, or the member is not an integer.
pub uninterp spec fn json_integer_member(data: Seq<u8>, field: Seq<char>) -> Option<int>;

/// The text of the last pair in `fields` named `name`, if any.
pub open spec fn text_member_of(fields: Seq<(String, String)>, name: Seq<char>) -> Option<Seq<char>>
    decreases fields.len(),
{
    if fields.len() == 0 {
        None
    } else if fields.last().0@ == name {
        Some(fields.last().1@)
    } else {
        text_member_of(fields.drop_last(), name)
    }
}

/// The number of the last pair in `fields` named `name`, if any.
pub open spec fn integer_member_of(fields: Seq<(String, i64)>, name: Seq<char>) -> Option<int>
    decreases fields.len(),
{
    if fields.len() == 0 {
        None
    } else if fields.last().0@ == name {
        Some(fields.last().1 as int)
    } else {
        integer_member_of(fields.drop_last(), name)
    }
}

/// Serialises with `serde_json::to_vec` the JSON object built by inserting
/// into a `serde_json::Map`, in turn, each pair of `texts` as a string member
/// and then each pair of `integers` as a number member (a later member
/// replaces an earlier one of the same name). The contract claims that
/// bytes come back (`to_vec` fails only where a `Serialize` impl fails or a
/// map has keys that are not strings, and neither happens for an object of
/// strings and integers written into a `Vec`), and the round trip that
/// `serde_json` keeps: parsing the bytes gives each member back, as a string
/// or as an integer.
#[verifier::external_body]
fn json_object_bytes(texts: &Vec<(String, String)>, integers: &Vec<(String, i64)>) -> (r: Option<Vec<u8>>)
    ensures
        r is Some,
        r matches Some(b) ==> forall|name: Seq<char>|
            #[trigger] json_integer_member(b@, name) == integer_member_of(integers@, name),
        r matches Some(b) ==> forall|name: Seq<char>|
            #[trigger] json_string_member(b@, name) == if integer_member_of(integers@, name) is Some {
                None
            } else {
                text_member_of(texts@, name)
            },
{
    let mut map = serde_json::Map::new();
    for (name, text) in texts.iter() {
        map.insert(name.clone(), serde_json::Value::from(text.as_str()));
    }
    for (name, number) in integers.iter() {
        map.insert(name.clone(), serde_json::Value::from(*number));
    }
    serde_json::to_vec(&serde_json::Value::Object(map)).ok()
}

/// The value of the `operation` member of the message for `op`.
pub open spec fn operation_name_spec(op: SyncOperation) -> Seq<char> {
    match op {
        SyncOperation::Store { .. } => "set"@,
        SyncOperation::Delete { .. } => "delete"@,
    }
}

/// The key that `op` is about.
pub open spec fn change_key(op: SyncOperation) -> Seq<char> {
    match op {
        SyncOperation::Store { key, .. } => key@,
        SyncOperation::Delete { key } => key@,
    }
}

/// The value that `op` writes, if it writes one.
pub open spec fn change_value(op: SyncOperation) -> Option<Seq<char>> {
    match op {
        SyncOperation::Store { value, .. } => Some(value@),
        SyncOperation::Delete { .. } => None,
    }
}

/// Whether the JSON document `data` is the message for `op` stamped with
/// `timestamp`: its members `operation`, `key`, `value` (for a write only)
/// and `timestamp` say so.
pub open spec fn describes_change(data: Seq<u8>, op: SyncOperation, timestamp: i64) -> bool {
    &&& json_string_member(data, "operation"@) == Some(operation_name_spec(op))
    &&& json_string_member(data, "key"@) == Some(change_key(op))
    &&& json_string_member(data, "value"@) == change_value(op)
    &&& json_integer_member(data, "timestamp"@) == Some(timestamp as int)
}

/// The message that tells the peers about `op`: a JSON object with the
/// members `operation` (`"set"` or `"delete"`), `key`, `value` (for a write)
/// and `timestamp`.
pub fn encode_sync_message(op: &SyncOperation, timestamp: i64) -> (r: Vec<u8>)
    ensures
        describes_change(r@, *op, timestamp),
{
    let ghost op_name = "operation"@;
    let ghost key_name = "key"@;
    let ghost value_name = "value"@;
    let ghost time_name = "timestamp"@;
    proof {
        reveal_strlit("operation");
        reveal_strlit("key");
        reveal_strlit("value");
        reveal_strlit("timestamp");
        assert(op_name[0] != time_name[0]);
        assert(op_name.len() != key_name.len() && op_name.len() != value_name.len());
        assert(key_name.len() != value_name.len() && key_name.len() != time_name.len());
        assert(value_name.len() != time_name.len());
    }
    let mut texts: Vec<(String, String)> = Vec::new();
    texts.push(("operation".to_string(), op.operation_name()));
    texts.push(("key".to_string(), op.key()));
    match op.value() {
        Some(v) => texts.push(("value".to_string(), v)),
        None => {},
    }
    let mut integers: Vec<(String, i64)> = Vec::new();
    integers.push(("timestamp".to_string(), timestamp));
    let r = json_object_bytes(&texts, &integers);
    proof {
        reveal_with_fuel(text_member_of, 4);
        reveal_with_fuel(integer_member_of, 2);
        assert(op_name != time_name);
        if r is Some {
            let b = r->0;
            assert(integers@.drop_last().len() == 0);
            assert(json_integer_member(b@, time_name) == Some(timestamp as int));
            assert(json_string_member(b@, op_name) == Some(operation_name_spec(*op)));
            assert(json_string_member(b@, key_name) == Some(change_key(*op)));
            assert(json_string_member(b@, value_name) == change_value(*op));
        }
    }
    r.unwrap()
}

/// Whether `a` tells the peers about `change`, stamped with `timestamp`.
pub open spec fn broadcast_of(change: SyncOperation, timestamp: i64, a: NodeAction) -> bool {
    a matches NodeAction::Broadcast { change: c, message } && c == change
        && describes_change(message@, change, timestamp)
}

/// The action that tells the peers about `change`, stamped with `timestamp`.
pub fn broadcast(change: SyncOperation, timestamp: i64) -> (a: NodeAction)
    ensures
        broadcast_of(change, timestamp, a),
{
    let message = encode_sync_message(&change, timestamp);
    NodeAction::Broadcast { change, message }
}

/// Whether `a` is the action after a write of `value` under `key`, at
/// `timestamp`, that gave `r`.
pub open spec fn set_key_outcome_spec(
    key: String,
    value: String,
    timestamp: i64,
    r: Result<(), StorageError>,
    a: NodeAction,
) -> bool {
    match r {
        Ok(()) => broadcast_of(SyncOperation::Store { key, value }, timestamp, a),
        Err(e) => a == NodeAction::StorageFailed { operation: StorageOperation::Write, message: e.message_spec() },
    }
}

/// The action after a read of `key` that gave `r`.
pub open spec fn get_key_outcome_spec(key: String, r: Result<Option<String>, StorageError>) -> NodeAction {
    match r {
        Ok(v) => NodeAction::ReportValue { key, value: v },
        Err(e) => NodeAction::StorageFailed { operation: StorageOperation::Read, message: e.message_spec() },
    }
}

/// Whether `a` is the action after a removal of `key`, at `timestamp`, that
/// gave `r`.
pub open spec fn delete_key_outcome_spec(key: String, timestamp: i64, r: Result<(), StorageError>, a: NodeAction) -> bool {
    match r {
        Ok(()) => broadcast_of(SyncOperation::Delete { key }, timestamp, a),
        Err(e) => a == NodeAction::StorageFailed { operation: StorageOperation::Delete, message: e.message_spec() },
    }
}

/// The action after a listing of the keys that gave `r`.
pub open spec fn list_keys_outcome_spec(r: Result<Vec<String>, StorageError>) -> NodeAction {
    match r {
        Ok(keys) => NodeAction::ReportKeys(keys),
        Err(e) => NodeAction::StorageFailed { operation: StorageOperation::List, message: e.message_spec() },
    }
}

/// The action after a write of `value` under `key`, at `timestamp`, that
/// gave `r`.
pub fn set_key_outcome(key: String, value: String, timestamp: i64, r: Result<(), StorageError>) -> (a: NodeAction)
    ensures
        set_key_outcome_spec(key, value, timestamp, r, a),
{
    match r {
        Ok(()) => broadcast(SyncOperation::Store { key, value }, timestamp),
        Err(e) => NodeAction::StorageFailed { operation: StorageOperation::Write, message: e.message() },
    }
}

/// The action after a read of `key` that gave `r`.
pub fn get_key_outcome(key: String, r: Result<Option<String>, StorageError>) -> (a: NodeAction)
    ensures
        a == get_key_outcome_spec(key, r),
{
    match r {
        Ok(v) => NodeAction::ReportValue { key, value: v },
        Err(e) => NodeAction::StorageFailed { operation: StorageOperation::Read, message: e.message() },
    }
}

/// The action after a removal of `key`, at `timestamp`, that gave `r`.
pub fn delete_key_outcome(key: String, timestamp: i64, r: Result<(), StorageError>) -> (a: NodeAction)
    ensures
        delete_key_outcome_spec(key, timestamp, r, a),
{
    match r {
        Ok(()) => broadcast(SyncOperation::Delete { key }, timestamp),
        Err(e) => NodeAction::StorageFailed { operation: StorageOperation::Delete, message: e.message() },
    }
}

/// The action after a listing of the keys that gave `r`.
pub fn list_keys_outcome(r: Result<Vec<String>, StorageError>) -> (a: NodeAction)
    ensures
        a == list_keys_outcome_spec(r),
{
    match r {
        Ok(keys) => NodeAction::ReportKeys(keys),
        Err(e) => NodeAction::StorageFailed { operation: StorageOperation::List, message: e.message() },
    }
}

/// Carries out `command` against `storage` at `timestamp` (seconds since
/// the epoch) and says what the node does next: a successful write or
/// removal is broadcast to the peers, a read or a listing is reported, a
/// failure is reported with the store's message, and raw bytes are published
/// unchanged.
pub fn handle_command<S: Storage + ?Sized>(storage: &S, command: NetworkCommand, timestamp: i64) -> (a: NodeAction)
    ensures
        match command {
            NetworkCommand::SetKey { key, value } => exists|r: Result<(), StorageError>|
                #[trigger] storage.set_answer(key@, value@, r) && set_key_outcome_spec(key, value, timestamp, r, a),
            NetworkCommand::GetKey { key } => exists|r: Result<Option<String>, StorageError>|
                #[trigger] storage.get_answer(key@, r) && a == get_key_outcome_spec(key, r),
            NetworkCommand::DeleteKey { key } => exists|r: Result<(), StorageError>|
                #[trigger] storage.delete_answer(key@, r) && delete_key_outcome_spec(key, timestamp, r, a),
            NetworkCommand::ListKeys => exists|r: Result<Vec<String>, StorageError>|
                #[trigger] storage.list_answer(r) && a == list_keys_outcome_spec(r),
            NetworkCommand::BroadcastMessage { message } => a == NodeAction::Publish(message),
        },
{
    match command {
        NetworkCommand::SetKey { key, value } => {
            let r = storage.set(key.as_str(), value.as_str());
            let ghost (k, v) = (key, value);
            let a = set_key_outcome(key, value, timestamp, r);
            assert(storage.set_answer(k@, v@, r) && set_key_outcome_spec(k, v, timestamp, r, a));
            a
        },
        NetworkCommand::GetKey { key } => {
            let r = storage.get(key.as_str());
            let ghost k = key;
            let a = get_key_outcome(key, r);
            assert(storage.get_answer(k@, r) && a == get_key_outcome_spec(k, r));
            a
        },
        NetworkCommand::DeleteKey { key } => {
            let r = storage.delete(key.as_str());
            let ghost k = key;
            let a = delete_key_outcome(key, timestamp, r);
            assert(storage.delete_answer(k@, r) && delete_key_outcome_spec(k, timestamp, r, a));
            a
        },
        NetworkCommand::ListKeys => {
            let r = storage.list_keys();
            let ghost r0 = r;
            let a = list_keys_outcome(r);
            assert(storage.list_answer(r0) && a == list_keys_outcome_spec(r0));
            a
        },
        NetworkCommand::BroadcastMessage { message } => NodeAction::Publish(message),
    }
}

/// Parses `data` with `serde_json` into a `serde_json::Value` and reads the
/// string member `field` of it.
#[verifier::external_body]
fn json_string_field(data: &[u8], field: &str) -> (r: Option<String>)
    ensures
        opt_chars(r) == json_string_member(data@, field@),
{
    match serde_json::from_slice::<serde_json::Value>(data) {
        Ok(doc) => match doc.get(field) {
            Some(serde_json::Value::String(s)) => Some(s.clone()),
            _ => None,
        },
        Err(_) => None,
    }
}

/// Whether `r` is the change that a message with the string members
/// `operation`, `key` and `value` describes: `"set"` needs a key and a
/// value, `"delete"` a key; anything else describes no change.
pub open spec fn sync_operation_for(
    operation: Option<Seq<char>>,
    key: Option<Seq<char>>,
    value: Option<Seq<char>>,
    r: Option<SyncOperation>,
) -> bool {
    if operation == Some("set"@) && key is Some && value is Some {
        r matches Some(SyncOperation::Store { key: k, value: v }) && Some(k@) == key && Some(v@) == value
    } else if operation == Some("delete"@) && key is Some {
        r matches Some(SyncOperation::Delete { key: k }) && Some(k@) == key
    } else {
        r is None
    }
}

/// The change described by the members `operation`, `key` and `value` of a
/// message from a peer.
pub fn sync_operation_from_fields(
    operation: Option<String>,
    key: Option<String>,
    value: Option<String>,
) -> (r: Option<SyncOperation>)
    ensures
        sync_operation_for(opt_chars(operation), opt_chars(key), opt_chars(value), r),
{
    proof {
        reveal_strlit("set");
        reveal_strlit("delete");
        assert("set"@.len() != "delete"@.len());
    }
    match operation {
        Some(op) => {
            if word_is(&op, "set") {
                match (key, value) {
                    (Some(k), Some(v)) => Some(SyncOperation::Store { key: k, value: v }),
                    _ => None,
                }
            } else if word_is(&op, "delete") {
                match key {
                    Some(k) => Some(SyncOperation::Delete { key: k }),
                    None => None,
                }
            } else {
                None
            }
        },
        None => None,
    }
}

/// Reads the change that a peer published: the JSON members `operation`,
/// `key` and `value` of `data`.
pub fn decode_sync_message(data: &[u8]) -> (r: Option<SyncOperation>)
    ensures
        sync_operation_for(
            json_string_member(data@, "operation"@),
            json_string_member(data@, "key"@),
            json_string_member(data@, "value"@),
            r,
        ),
{
    let operation = json_string_field(data, "operation");
    let key = json_string_field(data, "key");
    let value = json_string_field(data, "value");
    sync_operation_from_fields(operation, key, value)
}

/// What became of a message from a peer.
#[derive(Debug, Clone)]
pub enum SyncOutcome {
    /// The message describes no change.
    Ignored,
    /// The change was made in the local store.
    Applied(SyncOperation),
    /// The store refused the change, with this message.
    Failed(SyncOperation, String),
}

/// The operation that an outcome is about, if any.
pub open spec fn outcome_operation(o: SyncOutcome) -> Option<SyncOperation> {
    match o {
        SyncOutcome::Ignored => None,
        SyncOutcome::Applied(op) => Some(op),
        SyncOutcome::Failed(op, _) => Some(op),
    }
}

/// Whether `r` is an answer that `storage` gives when asked to make `op`:
/// a write for a `Store`, a removal for a `Delete`.
pub open spec fn change_answer<S: Storage + ?Sized>(storage: &S, op: SyncOperation, r: Result<(), StorageError>) -> bool {
    match op {
        SyncOperation::Store { key, value } => storage.set_answer(key@, value@, r),
        SyncOperation::Delete { key } => storage.delete_answer(key@, r),
    }
}

/// Makes in `storage` the change that a peer published in `data`: a
/// `"set"` writes the value, a `"delete"` removes the key, and anything else
/// is ignored. The outcome says whether the store took the change.
pub fn apply_sync_message<S: Storage + ?Sized>(storage: &S, data: &[u8]) -> (r: SyncOutcome)
    ensures
        sync_operation_for(
            json_string_member(data@, "operation"@),
            json_string_member(data@, "key"@),
            json_string_member(data@, "value"@),
            outcome_operation(r),
        ),
        match r {
            SyncOutcome::Ignored => true,
            SyncOutcome::Applied(op) => exists|res: Result<(), StorageError>|
                #[trigger] change_answer(storage, op, res) && res is Ok,
            SyncOutcome::Failed(op, m) => exists|e: StorageError|
                #[trigger] change_answer(storage, op, Err(e)) && m == e.message_spec(),
        },
{
    match decode_sync_message(data) {
        None => SyncOutcome::Ignored,
        Some(op) => {
            let result = match &op {
                SyncOperation::Store { key, value } => storage.set(key.as_str(), value.as_str()),
                SyncOperation::Delete { key } => storage.delete(key.as_str()),
            };
            assert(change_answer(storage, op, result));
            match result {
                Ok(()) => SyncOutcome::Applied(op),
                Err(e) => {
                    let ghost e0 = e;
                    let m = e.message();
                    assert(change_answer(storage, op, Err(e0)) && m == e0.message_spec());
                    SyncOutcome::Failed(op, m)
                },
            }
        },
    }
}

impl SyncOperation {
    /// The value of the `operation` member of the message for this change.
    pub fn operation_name(&self) -> (r: String)
        ensures
            r@ == match self {
                SyncOperation::Store { .. } => "set"@,
                SyncOperation::Delete { .. } => "delete"@,
            },
    {
        match self {
            SyncOperation::Store { .. } => "set".to_string(),
            SyncOperation::Delete { .. } => "delete".to_string(),
        }
    }

    /// The key that the change is about.
    pub fn key(&self) -> (r: String)
        ensures
            r@ == match self {
                SyncOperation::Store { key, .. } => key@,
                SyncOperation::Delete { key } => key@,
            },
    {
        match self {
            SyncOperation::Store { key, .. } => key.clone(),
            SyncOperation::Delete { key } => key.clone(),
        }
    }

    /// The value written by the change, if it writes one.
    pub fn value(&self) -> (r: Option<String>)
        ensures
            opt_chars(r) == match self {
                SyncOperation::Store { value, .. } => Some(value@),
                SyncOperation::Delete { .. } => None,
            },
    {
        match self {
            SyncOperation::Store { value, .. } => Some(value.clone()),
            SyncOperation::Delete { .. } => None,
        }
    }
}

/// What one node publishes for a change is what its peers apply: a peer
/// that handles a message describing `op` (as `encode_sync_message` makes
/// it) does not ignore it, and takes up the same change, with the same key
/// and value.
pub proof fn law_published_change_is_applied(data: Seq<u8>, op: SyncOperation, timestamp: i64, outcome: SyncOutcome)
    requires
        describes_change(data, op, timestamp),
        sync_operation_for(
            json_string_member(data, "operation"@),
            json_string_member(data, "key"@),
            json_string_member(data, "value"@),
            outcome_operation(outcome),
        ),
    ensures
        outcome_operation(outcome) matches Some(back) && operation_name_spec(back) == operation_name_spec(op)
            && change_key(back) == change_key(op) && change_value(back) == change_value(op),
{
    reveal_strlit("set");
    reveal_strlit("delete");
}

} // verus!
