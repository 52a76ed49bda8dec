use vstd::prelude::*;
use vstd::string::StringSliceAdditionalSpecFns;
use vstd::utf8::*;

verus! {

/// Summary of a store: how many entries it holds and how many bytes their
/// keys and values take together.
#[derive(Debug, Clone, PartialEq, Eq, Structural)]
pub struct DatabaseInfo {
    pub key_count: usize,
    pub size_bytes: u64,
}

/// Why a storage operation failed.
#[derive(Debug, Clone)]
pub enum StorageError {
    /// The backend reported an error; its message is kept.
    Backend(String),
    /// A stored value is not valid UTF-8; the decoder's message is kept.
    InvalidUtf8(String),
}

impl StorageError {
    /// The message that describes the failure.
    pub open spec fn message_spec(&self) -> String {
        match self {
            StorageError::Backend(m) => *m,
            StorageError::InvalidUtf8(m) => *m,
        }
    }

    /// The message that describes the failure.
    pub fn message(&self) -> (r: String)
        ensures
            r == self.message_spec(),
    {
        match self {
            StorageError::Backend(m) => m.clone(),
            StorageError::InvalidUtf8(m) => m.clone(),
        }
    }
}

/// A key-value store of strings. Keys and values are kept as their UTF-8
/// bytes. Implementations talk to a backend (such as an on-disk database),
/// so every operation may fail. What a backend holds is its own: each
/// operation's contract names its result as one of the store's answers to
/// that call with those arguments, and the `*_answer` predicates leave the
/// answers to the implementation (by default, any answer is one).
pub trait Storage: Send + Sync {
    /// Whether `r` is an answer that this store gives to a read of `key`.
    closed spec fn get_answer(&self, key: Seq<char>, r: Result<Option<String>, StorageError>) -> bool {
        true
    }

    /// Whether `r` is an answer that this store gives to a write of `value`
    /// under `key`.
    closed spec fn set_answer(&self, key: Seq<char>, value: Seq<char>, r: Result<(), StorageError>) -> bool {
        true
    }

    /// Whether `r` is an answer that this store gives to a removal of `key`.
    closed spec fn delete_answer(&self, key: Seq<char>, r: Result<(), StorageError>) -> bool {
        true
    }

    /// Whether `r` is an answer that this store gives to a listing of its keys.
    closed spec fn list_answer(&self, r: Result<Vec<String>, StorageError>) -> bool {
        true
    }

    /// Whether `r` is an answer that this store gives to a summary request.
    closed spec fn info_answer(&self, r: Result<DatabaseInfo, StorageError>) -> bool {
        true
    }

    /// Whether `r` is an answer that this store gives when asked whether
    /// `key` has a value.
    closed spec fn exists_answer(&self, key: Seq<char>, r: Result<bool, StorageError>) -> bool {
        true
    }

    /// Reads `key` from the backend: its value, `None` where it has none, or
    /// the backend's error. The contract says only that the result is one of
    /// this store's answers to that read.
    fn get(&self, key: &str) -> (r: Result<Option<String>, StorageError>)
        ensures
            self.get_answer(key@, r),
    ;

    /// Asks the backend to store `value` under `key`, replacing what was
    /// there. The contract says only that the result is one of this store's
    /// answers to that write.
    fn set(&self, key: &str, value: &str) -> (r: Result<(), StorageError>)
        ensures
            self.set_answer(key@, value@, r),
    ;

    /// Asks the backend to remove `key` and its value. The contract says only
    /// that the result is one of this store's answers to that removal.
    fn delete(&self, key: &str) -> (r: Result<(), StorageError>)
        ensures
            self.delete_answer(key@, r),
    ;

    /// Asks the backend for its keys (those whose stored bytes are valid
    /// UTF-8). The contract says only that the result is one of this store's
    /// answers to a listing.
    fn list_keys(&self) -> (r: Result<Vec<String>, StorageError>)
        ensures
            self.list_answer(r),
    ;

    /// Asks the backend how many entries it holds and their total size. The
    /// contract says only that the result is one of this store's answers to
    /// that request.
    fn info(&self) -> (r: Result<DatabaseInfo, StorageError>)
        ensures
            self.info_answer(r),
    ;

    /// Asks the backend whether a value is stored under `key`. The contract
    /// says only that the result is one of this store's answers to that
    /// question.
    fn key_exists(&self, key: &str) -> (r: Result<bool, StorageError>)
        ensures
            self.exists_answer(key@, r),
    ;
}

/// Decodes `bytes` as UTF-8, keeping the decoder's message on failure.
#[verifier::external_body]
fn string_from_utf8(bytes: Vec<u8>) -> (r: Result<String, String>)
    ensures
        r is Ok <==> valid_utf8(bytes@),
        r matches Ok(s) ==> s@ == decode_utf8(bytes@),
{
    String::from_utf8(bytes).map_err(|e| e.to_string())
}

/// What a read gives for the stored bytes `raw` (`None`: no entry): no
/// value, the decoded string, or an error where the bytes are not UTF-8.
pub open spec fn decoded_value_spec(raw: Option<Seq<u8>>) -> Option<Option<Seq<char>>> {
    match raw {
        None => Some(None),
        Some(b) => if valid_utf8(b) {
            Some(Some(decode_utf8(b)))
        } else {
            None
        },
    }
}

/// The bytes of an optional byte vector.
pub open spec fn opt_bytes(raw: Option<Vec<u8>>) -> Option<Seq<u8>> {
    match raw {
        Some(b) => Some(b@),
        None => None,
    }
}

/// The characters of an optional string.
pub open spec fn opt_chars(s: Option<String>) -> Option<Seq<char>> {
    match s {
        Some(t) => Some(t@),
        None => None,
    }
}

/// The characters of each string in `v`.
pub open spec fn strings_view(v: Seq<String>) -> Seq<Seq<char>> {
    v.map_values(|s: String| s@)
}

/// The bytes of each byte vector in `v`.
pub open spec fn byte_vecs_view(v: Seq<Vec<u8>>) -> Seq<Seq<u8>> {
    v.map_values(|b: Vec<u8>| b@)
}

/// Turns what the backend holds under a key into the string that a read
/// returns.
pub fn decode_value(raw: Option<Vec<u8>>) -> (r: Result<Option<String>, StorageError>)
    ensures
        match decoded_value_spec(opt_bytes(raw)) {
            Some(v) => r matches Ok(o) && opt_chars(o) == v,
            None => r matches Err(StorageError::InvalidUtf8(_)),
        },
{
    match raw {
        None => Ok(None),
        Some(bytes) => match string_from_utf8(bytes) {
            Ok(s) => Ok(Some(s)),
            Err(m) => Err(StorageError::InvalidUtf8(m)),
        },
    }
}

/// The keys, in order, of those stored key byte strings that are valid UTF-8,
/// decoded.
pub open spec fn utf8_keys_spec(raw: Seq<Seq<u8>>) -> Seq<Seq<char>>
    decreases raw.len(),
{
    if raw.len() == 0 {
        seq![]
    } else {
        let rest = utf8_keys_spec(raw.drop_last());
        if valid_utf8(raw.last()) {
            rest.push(decode_utf8(raw.last()))
        } else {
            rest
        }
    }
}

/// Keeps, in order, the stored keys that decode as UTF-8; the others are
/// skipped.
pub fn utf8_keys(raw_keys: Vec<Vec<u8>>) -> (r: Vec<String>)
    ensures
        strings_view(r@) == utf8_keys_spec(byte_vecs_view(raw_keys@)),
{
    let mut keys: Vec<String> = Vec::new();
    let n = raw_keys.len();
    let mut i: usize = 0;
    while i < n
        invariant
            n == raw_keys.len(),
            i <= n,
            strings_view(keys@) == utf8_keys_spec(byte_vecs_view(raw_keys@).take(i as int)),
        decreases n - i,
    {
        let raw = raw_keys[i].clone();
        proof {
            assert(byte_vecs_view(raw_keys@).take(i as int + 1).drop_last()
                =~= byte_vecs_view(raw_keys@).take(i as int));
        }
        match string_from_utf8(raw) {
            Ok(s) => {
                keys.push(s);
            },
            Err(_) => {},
        }
        proof {
            assert(strings_view(keys@) =~= utf8_keys_spec(byte_vecs_view(raw_keys@).take(i as int + 1)));
        }
        i = i + 1;
    }
    proof {
        assert(byte_vecs_view(raw_keys@).take(n as int) =~= byte_vecs_view(raw_keys@));
    }
    keys
}

/// Total bytes of the entries whose key and value lengths `sizes` lists.
pub open spec fn total_size(sizes: Seq<(usize, usize)>) -> int
    decreases sizes.len(),
{
    if sizes.len() == 0 {
        0
    } else {
        total_size(sizes.drop_last()) + sizes.last().0 + sizes.last().1
    }
}

proof fn lemma_total_size_prefix_monotone(sizes: Seq<(usize, usize)>, i: int)
    requires
        0 <= i <= sizes.len(),
    ensures
        total_size(sizes.take(i)) <= total_size(sizes),
    decreases sizes.len() - i,
{
    if i < sizes.len() {
        lemma_total_size_prefix_monotone(sizes, i + 1);
        assert(sizes.take(i + 1).drop_last() =~= sizes.take(i));
    } else {
        assert(sizes.take(i) =~= sizes);
    }
}

/// The summary of a store from the (key length, value length) of each
/// entry. The sum is taken in `usize`, so it must fit there.
pub fn database_info(sizes: &Vec<(usize, usize)>) -> (r: DatabaseInfo)
    requires
        total_size(sizes@) <= usize::MAX,
    ensures
        r.key_count == sizes@.len(),
        r.size_bytes == total_size(sizes@),
{
    let mut key_count: usize = 0;
    let mut size_bytes: usize = 0;
    let n = sizes.len();
    let mut i: usize = 0;
    while i < n
        invariant
            n == sizes.len(),
            i <= n,
            key_count == i,
            size_bytes == total_size(sizes@.take(i as int)),
            total_size(sizes@) <= usize::MAX,
        decreases n - i,
    {
        let (klen, vlen) = sizes[i];
        proof {
            assert(sizes@.take(i as int + 1).drop_last() =~= sizes@.take(i as int));
            lemma_total_size_prefix_monotone(sizes@, i as int + 1);
        }
        key_count = key_count + 1;
        size_bytes = size_bytes + klen + vlen;
        i = i + 1;
    }
    proof {
        assert(sizes@.take(n as int) =~= sizes@);
    }
    DatabaseInfo { key_count, size_bytes: size_bytes as u64 }
}

/// Every string that was stored reads back unchanged: the bytes written for a
/// value decode to that value.
pub proof fn law_stored_value_reads_back(value: &str)
    ensures
        decoded_value_spec(Some(value.spec_bytes())) == Some(Some(value@)),
{
    encode_utf8_valid_utf8(value@);
    encode_utf8_decode_utf8(value@);
}

/// Every key written is listed back: when each stored key is the UTF-8 of
/// a string, the listing gives exactly those strings, in the same order.
pub proof fn law_written_keys_are_listed(keys: Seq<Seq<char>>)
    ensures
        utf8_keys_spec(keys.map_values(|k: Seq<char>| encode_utf8(k))) == keys,
    decreases keys.len(),
{
    let raw = keys.map_values(|k: Seq<char>| encode_utf8(k));
    if keys.len() > 0 {
        law_written_keys_are_listed(keys.drop_last());
        assert(raw.drop_last() =~= keys.drop_last().map_values(|k: Seq<char>| encode_utf8(k)));
        encode_utf8_valid_utf8(keys.last());
        encode_utf8_decode_utf8(keys.last());
        assert(keys.drop_last().push(keys.last()) =~= keys);
    }
}

/// The size of a store is the plain sum of the lengths of all its keys and
/// values: nothing for no entries, `k + v` for one entry, and the sizes of two
/// lists of entries add up.
pub proof fn law_size_is_plain_sum(
    s: Seq<(usize, usize)>,
    t: Seq<(usize, usize)>,
    k: usize,
    v: usize,
)
    ensures
        total_size(Seq::<(usize, usize)>::empty()) == 0,
        total_size(seq![(k, v)]) == k + v,
        total_size(s + t) == total_size(s) + total_size(t),
    decreases t.len(),
{
    assert(seq![(k, v)].drop_last() =~= Seq::<(usize, usize)>::empty());
    if t.len() == 0 {
        assert(s + t =~= s);
    } else {
        law_size_is_plain_sum(s, t.drop_last(), k, v);
        assert((s + t).drop_last() =~= s + t.drop_last());
        assert((s + t).last() == t.last());
    }
}

} // verus!
