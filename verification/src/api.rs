use vstd::prelude::*;
use crate::storage::{DatabaseInfo, Storage, StorageError};

verus! {

/// A write asked for over the HTTP interface.
#[derive(Debug, Clone)]
pub struct SetKeyRequest {
    pub key: String,
    pub value: String,
}

/// A key with its value.
#[derive(Debug, Clone)]
pub struct KeyValueResponse {
    pub key: String,
    pub value: String,
}

/// What the node says about itself.
#[derive(Debug, Clone)]
pub struct InfoResponse {
    pub node_type: String,
    pub version: String,
    pub key_count: usize,
    pub size_bytes: u64,
}

/// The body of an answer of the HTTP interface.
#[derive(Debug, Clone)]
pub enum ApiReply {
    KeyValue(KeyValueResponse),
    KeyValues(Vec<KeyValueResponse>),
    Info(InfoResponse),
    Message(String),
    /// The key asked for has no value; the text says so.
    NotFound(String),
    /// The store failed; the text is its message.
    Error(String),
}

/// The pairs listed for `keys`, where `lookups[i]` is what reading `keys[i]`
/// gave: only keys read with a value are listed, in order.
pub open spec fn listed_pairs(
    keys: Seq<String>,
    lookups: Seq<Result<Option<String>, StorageError>>,
) -> Seq<KeyValueResponse>
    decreases keys.len(),
{
    if keys.len() == 0 || lookups.len() == 0 {
        seq![]
    } else {
        let rest = listed_pairs(keys.drop_last(), lookups.drop_last());
        match lookups.last() {
            Ok(Some(v)) => rest.push(KeyValueResponse { key: keys.last(), value: v }),
            _ => rest,
        }
    }
}

/// The answer for a listing of `keys` and the reads `lookups` made for them,
/// one per key.
pub fn key_values_reply(keys: Vec<String>, lookups: Vec<Result<Option<String>, StorageError>>) -> (r: ApiReply)
    requires
        keys.len() == lookups.len(),
    ensures
        r matches ApiReply::KeyValues(v) && v@ == listed_pairs(keys@, lookups@),
{
    let mut pairs: Vec<KeyValueResponse> = Vec::new();
    let n = keys.len();
    let mut i: usize = 0;
    while i < n
        invariant
            n == keys.len(),
            n == lookups.len(),
            i <= n,
            pairs@ == listed_pairs(keys@.take(i as int), lookups@.take(i as int)),
        decreases n - i,
    {
        proof {
            assert(keys@.take(i as int + 1).drop_last() =~= keys@.take(i as int));
            assert(lookups@.take(i as int + 1).drop_last() =~= lookups@.take(i as int));
        }
        match &lookups[i] {
            Ok(Some(v)) => {
                pairs.push(KeyValueResponse { key: keys[i].clone(), value: v.clone() });
            },
            _ => {},
        }
        i = i + 1;
    }
    proof {
        assert(keys@.take(n as int) =~= keys@);
        assert(lookups@.take(n as int) =~= lookups@);
    }
    ApiReply::KeyValues(pairs)
}

/// The answer for a failed storage operation: its message.
pub fn error_reply(e: StorageError) -> (r: ApiReply)
    ensures
        r == ApiReply::Error(e.message_spec()),
{
    ApiReply::Error(e.message())
}

/// Whether `lookups` holds, for each of `keys` in turn, an answer that
/// `storage` gives to a read of that key.
pub open spec fn reads_of<S: Storage + ?Sized>(
    storage: &S,
    keys: Seq<String>,
    lookups: Seq<Result<Option<String>, StorageError>>,
) -> bool {
    &&& lookups.len() == keys.len()
    &&& forall|i: int| 0 <= i < keys.len() ==> #[trigger] storage.get_answer(keys[i]@, lookups[i])
}

/// Answers a request for every key with its value: the store lists its keys,
/// each is read, and the keys read with a value are answered with it, in
/// listing order; where the listing fails, its error is the answer.
pub fn handle_list_keys<S: Storage + ?Sized>(storage: &S) -> (r: ApiReply)
    ensures
        (exists|e: StorageError| #[trigger] storage.list_answer(Err(e)) && r == ApiReply::Error(e.message_spec()))
        || (exists|keys: Vec<String>, lookups: Seq<Result<Option<String>, StorageError>>|
            #![trigger storage.list_answer(Ok(keys)), reads_of(storage, keys@, lookups)]
            storage.list_answer(Ok(keys)) && reads_of(storage, keys@, lookups)
                && (r matches ApiReply::KeyValues(v) && v@ == listed_pairs(keys@, lookups))),
{
    let listing = storage.list_keys();
    let keys = match listing {
        Ok(k) => k,
        Err(e) => {
            let ghost e0 = e;
            let r = error_reply(e);
            assert(storage.list_answer(Err(e0)));
            return r;
        },
    };
    let mut lookups: Vec<Result<Option<String>, StorageError>> = Vec::new();
    let mut i: usize = 0;
    while i < keys.len()
        invariant
            i <= keys.len(),
            lookups.len() == i,
            forall|j: int| 0 <= j < i ==> #[trigger] storage.get_answer(keys@[j]@, lookups@[j]),
        decreases keys.len() - i,
    {
        let answer = storage.get(keys[i].as_str());
        lookups.push(answer);
        i = i + 1;
    }
    let ghost k0 = keys;
    let ghost l0 = lookups@;
    let r = key_values_reply(keys, lookups);
    assert(storage.list_answer(Ok(k0)));
    assert(reads_of(storage, k0@, l0));
    r
}

/// The answer for a read of `key` that gave `lookup`.
pub open spec fn get_key_reply_spec(key: String, lookup: Result<Option<String>, StorageError>, r: ApiReply) -> bool {
    match lookup {
        Ok(Some(v)) => r == ApiReply::KeyValue(KeyValueResponse { key, value: v }),
        Ok(None) => r matches ApiReply::NotFound(m) && m@ == "Key not found"@,
        Err(e) => r == ApiReply::Error(e.message_spec()),
    }
}

/// The answer for a read of `key` that gave `lookup`.
pub fn get_key_reply(key: String, lookup: Result<Option<String>, StorageError>) -> (r: ApiReply)
    ensures
        get_key_reply_spec(key, lookup, r),
{
    match lookup {
        Ok(Some(value)) => ApiReply::KeyValue(KeyValueResponse { key, value }),
        Ok(None) => ApiReply::NotFound("Key not found".to_string()),
        Err(e) => error_reply(e),
    }
}

/// Answers a request for the value of `key` in `storage`.
pub fn handle_get_key<S: Storage + ?Sized>(key: String, storage: &S) -> (r: ApiReply)
    ensures
        exists|lookup: Result<Option<String>, StorageError>|
            #[trigger] storage.get_answer(key@, lookup) && get_key_reply_spec(key, lookup, r),
{
    let lookup = storage.get(key.as_str());
    let ghost k = key;
    let r = get_key_reply(key, lookup);
    assert(storage.get_answer(k@, lookup) && get_key_reply_spec(k, lookup, r));
    r
}

/// The answer for a write of `request` that gave `result`: the pair
/// written, or the error.
pub open spec fn set_key_reply_spec(request: SetKeyRequest, result: Result<(), StorageError>) -> ApiReply {
    match result {
        Ok(()) => ApiReply::KeyValue(KeyValueResponse { key: request.key, value: request.value }),
        Err(e) => ApiReply::Error(e.message_spec()),
    }
}

/// The answer for a write of `request` that gave `result`.
pub fn set_key_reply(request: SetKeyRequest, result: Result<(), StorageError>) -> (r: ApiReply)
    ensures
        r == set_key_reply_spec(request, result),
{
    match result {
        Ok(()) => ApiReply::KeyValue(KeyValueResponse { key: request.key, value: request.value }),
        Err(e) => error_reply(e),
    }
}

/// Writes the pair of `request` into `storage` and answers with it, or
/// with the error.
pub fn handle_set_key<S: Storage + ?Sized>(request: SetKeyRequest, storage: &S) -> (r: ApiReply)
    ensures
        exists|result: Result<(), StorageError>|
            #[trigger] storage.set_answer(request.key@, request.value@, result)
                && r == set_key_reply_spec(request, result),
{
    let result = storage.set(request.key.as_str(), request.value.as_str());
    let ghost q = request;
    let r = set_key_reply(request, result);
    assert(storage.set_answer(q.key@, q.value@, result) && r == set_key_reply_spec(q, result));
    r
}

/// The answer for a removal that gave `result`.
pub open spec fn delete_key_reply_spec(result: Result<(), StorageError>, r: ApiReply) -> bool {
    match result {
        Ok(()) => r matches ApiReply::Message(m) && m@ == "Key deleted"@,
        Err(e) => r == ApiReply::Error(e.message_spec()),
    }
}

/// The answer for a removal that gave `result`.
pub fn delete_key_reply(result: Result<(), StorageError>) -> (r: ApiReply)
    ensures
        delete_key_reply_spec(result, r),
{
    match result {
        Ok(()) => ApiReply::Message("Key deleted".to_string()),
        Err(e) => error_reply(e),
    }
}

/// Removes `key` from `storage` and says so, or answers with the error.
pub fn handle_delete_key<S: Storage + ?Sized>(key: String, storage: &S) -> (r: ApiReply)
    ensures
        exists|result: Result<(), StorageError>|
            #[trigger] storage.delete_answer(key@, result) && delete_key_reply_spec(result, r),
{
    let result = storage.delete(key.as_str());
    let r = delete_key_reply(result);
    assert(storage.delete_answer(key@, result) && delete_key_reply_spec(result, r));
    r
}

/// The answer for a summary request that gave `result`.
pub open spec fn info_reply_spec(result: Result<DatabaseInfo, StorageError>, r: ApiReply) -> bool {
    match result {
        Ok(info) => r matches ApiReply::Info(i) && i.node_type@ == "SimpleTrainDB"@ && i.version@ == "1.0.0"@
            && i.key_count == info.key_count && i.size_bytes == info.size_bytes,
        Err(e) => r == ApiReply::Error(e.message_spec()),
    }
}

/// The answer for a summary request that gave `result`.
pub fn info_reply(result: Result<DatabaseInfo, StorageError>) -> (r: ApiReply)
    ensures
        info_reply_spec(result, r),
{
    match result {
        Ok(info) => ApiReply::Info(
            InfoResponse {
                node_type: "SimpleTrainDB".to_string(),
                version: "1.0.0".to_string(),
                key_count: info.key_count,
                size_bytes: info.size_bytes,
            },
        ),
        Err(e) => error_reply(e),
    }
}

/// Answers a request for what the node is: its kind, version, key count and
/// size, or the error.
pub fn handle_get_info<S: Storage + ?Sized>(storage: &S) -> (r: ApiReply)
    ensures
        exists|result: Result<DatabaseInfo, StorageError>|
            #[trigger] storage.info_answer(result) && info_reply_spec(result, r),
{
    let result = storage.info();
    let r = info_reply(result);
    assert(storage.info_answer(result) && info_reply_spec(result, r));
    r
}

/// A read is answered with the key that was asked for: a key-value reply
/// names that key and carries the value the store gave; a read that found
/// nothing is answered "not found", and a failed read with the store's
/// message.
pub proof fn law_read_reply_names_the_key(
    key: String,
    lookup: Result<Option<String>, StorageError>,
    r: ApiReply,
)
    requires
        get_key_reply_spec(key, lookup, r),
    ensures
        r matches ApiReply::KeyValue(p) ==> p.key == key && (lookup matches Ok(Some(v)) && v == p.value),
        lookup matches Ok(Some(v)) ==> (r matches ApiReply::KeyValue(p) && p.key == key && p.value == v),
        lookup matches Ok(None) ==> r is NotFound,
        lookup matches Err(e) ==> r == ApiReply::Error(e.message_spec()),
{
}

} // verus!
