//! Artifact keys and the bounded in-process artifact store.
//!
//! The process-memory backend keeps every artifact in a list of
//! `(key, bytes)` objects in which no key occurs twice. Its view is the map
//! from key to bytes, the number of bytes held, and the capacity it was made
//! with; the store never holds more bytes than that capacity.
use vstd::prelude::*;
use crate::text::{push_decimal, str_eq, owned};

verus! {

/// Largest artifact the server is willing to hold in one buffer (100 MiB).
pub const MAX_BUFFERED_ARTIFACT_BYTES: u64 = 104857600;

/// The text of a content-addressed key: `artifacts/<sha256>.<extension>`.
pub open spec fn artifact_key_spec(sha256: Seq<char>, extension: Seq<char>) -> Seq<char> {
    seq!['a', 'r', 't', 'i', 'f', 'a', 'c', 't', 's', '/'] + sha256 + seq!['.'] + extension
}

/// The storage key of an artifact, addressed by its digest and extension.
pub fn artifact_key(sha256: &str, extension: &str) -> (r: String)
    ensures
        r@ == artifact_key_spec(sha256@, extension@),
{
    let mut r = String::new();
    r.append("artifacts/");
    r.append(sha256);
    r.append(".");
    r.append(extension);
    proof {
        reveal_strlit("artifacts/");
        reveal_strlit(".");
    }
    assert(r@ =~= artifact_key_spec(sha256@, extension@));
    r
}

/// One stored artifact.
#[derive(Debug)]
pub struct StoredObject {
    pub key: String,
    pub bytes: Vec<u8>,
}

/// Why a store operation was refused.
#[derive(Debug)]
pub enum StoreError {
    /// The write would take the store past its capacity.
    CapacityExceeded { would_use: u64, limit: u64 },
    /// The byte count of the store after the write does not fit in 64 bits.
    AccountingOverflow,
    /// No artifact is stored under the key.
    NotFound { key: String },
    /// The artifact is larger than a single buffer may be.
    TooLargeToBuffer { key: String, len: u64 },
}

/// The abstract state of a memory store.
pub struct MemoryStoreView {
    pub objects: Map<Seq<char>, Seq<u8>>,
    pub used: nat,
    pub max_bytes: nat,
}

/// A bounded, process-local artifact store.
#[derive(Debug)]
pub struct MemoryStore {
    objects: Vec<StoredObject>,
    max_bytes: u64,
}

/// Total number of bytes held by a list of objects.
pub open spec fn sum_len(objs: Seq<StoredObject>) -> nat
    decreases objs.len(),
{
    if objs.len() == 0 {
        0
    } else {
        sum_len(objs.drop_last()) + objs.last().bytes@.len()
    }
}

/// The key-to-bytes map a list of objects stands for.
pub open spec fn to_map(objs: Seq<StoredObject>) -> Map<Seq<char>, Seq<u8>>
    decreases objs.len(),
{
    if objs.len() == 0 {
        Map::empty()
    } else {
        to_map(objs.drop_last()).insert(objs.last().key@, objs.last().bytes@)
    }
}

/// No key occurs twice.
pub open spec fn keys_distinct(objs: Seq<StoredObject>) -> bool {
    forall|i: int, j: int| 0 <= i < j < objs.len() ==> objs[i].key@ != objs[j].key@
}

/// Bytes currently held under `key` (zero when the key is absent).
pub open spec fn existing_len(v: MemoryStoreView, key: Seq<char>) -> nat {
    if v.objects.contains_key(key) { v.objects[key].len() } else { 0 }
}

/// Bytes the store would hold after writing `len` bytes under `key`: the
/// bytes under other keys are kept, the old bytes under `key` are replaced.
pub open spec fn bytes_after_put(v: MemoryStoreView, key: Seq<char>, len: nat) -> int {
    v.used - existing_len(v, key) + len
}

/// The state after a successful write.
pub open spec fn after_put(v: MemoryStoreView, key: Seq<char>, bytes: Seq<u8>) -> MemoryStoreView {
    MemoryStoreView {
        objects: v.objects.insert(key, bytes),
        used: bytes_after_put(v, key, bytes.len()) as nat,
        max_bytes: v.max_bytes,
    }
}

/// The error text of a refused operation.
pub open spec fn store_error_message(e: StoreError) -> Seq<char> {
    match e {
        StoreError::CapacityExceeded { would_use, limit } =>
            "in-memory artifact store capacity exceeded: write would use "@
                + crate::text::decimal(would_use as nat) + " bytes, limit is "@
                + crate::text::decimal(limit as nat) + " bytes"@,
        StoreError::AccountingOverflow => "in-memory artifact byte accounting overflowed"@,
        StoreError::NotFound { key } => "in-memory artifact "@ + key@ + " not found"@,
        StoreError::TooLargeToBuffer { key, len } =>
            "artifact "@ + key@ + " is "@ + crate::text::decimal(len as nat) + " bytes, over the "@
                + crate::text::decimal(MAX_BUFFERED_ARTIFACT_BYTES as nat)
                + "-byte in-memory ceiling; refusing to buffer it"@,
    }
}

impl StoreError {
    /// The human-readable error text.
    pub fn message(&self) -> (r: String)
        ensures
            r@ == store_error_message(*self),
    {
        let mut r = String::new();
        match self {
            StoreError::CapacityExceeded { would_use, limit } => {
                r.append("in-memory artifact store capacity exceeded: write would use ");
                push_decimal(&mut r, *would_use as u128);
                r.append(" bytes, limit is ");
                push_decimal(&mut r, *limit as u128);
                r.append(" bytes");
            },
            StoreError::AccountingOverflow => {
                r.append("in-memory artifact byte accounting overflowed");
            },
            StoreError::NotFound { key } => {
                r.append("in-memory artifact ");
                r.append(key.as_str());
                r.append(" not found");
            },
            StoreError::TooLargeToBuffer { key, len } => {
                r.append("artifact ");
                r.append(key.as_str());
                r.append(" is ");
                push_decimal(&mut r, *len as u128);
                r.append(" bytes, over the ");
                push_decimal(&mut r, MAX_BUFFERED_ARTIFACT_BYTES as u128);
                r.append("-byte in-memory ceiling; refusing to buffer it");
            },
        }
        assert(r@ =~= store_error_message(*self));
        r
    }
}

/// Refuse to buffer an artifact of `len` bytes over the single-buffer ceiling.
pub fn guard_buffered(key: &str, len: u64) -> (r: Result<(), StoreError>)
    ensures
        r is Ok <==> len <= MAX_BUFFERED_ARTIFACT_BYTES,
        r matches Err(StoreError::TooLargeToBuffer { key: k, len: l }) ==> k@ == key@ && l == len,
        r matches Err(e) ==> e is TooLargeToBuffer,
{
    if len > MAX_BUFFERED_ARTIFACT_BYTES {
        Err(StoreError::TooLargeToBuffer { key: owned(key), len })
    } else {
        Ok(())
    }
}

proof fn lemma_prefix_sum_le(objs: Seq<StoredObject>, i: int)
    requires
        0 <= i <= objs.len(),
    ensures
        sum_len(objs.take(i)) <= sum_len(objs),
    decreases objs.len() - i,
{
    if i < objs.len() {
        lemma_prefix_sum_le(objs, i + 1);
        assert(objs.take(i + 1).drop_last() =~= objs.take(i));
    } else {
        assert(objs.take(i) =~= objs);
    }
}

proof fn lemma_sum_update(objs: Seq<StoredObject>, i: int, o: StoredObject)
    requires
        0 <= i < objs.len(),
    ensures
        sum_len(objs.update(i, o)) + objs[i].bytes@.len() == sum_len(objs) + o.bytes@.len(),
    decreases objs.len(),
{
    if i == objs.len() - 1 {
        assert(objs.update(i, o).drop_last() =~= objs.drop_last());
    } else {
        lemma_sum_update(objs.drop_last(), i, o);
        assert(objs.update(i, o).drop_last() =~= objs.drop_last().update(i, o));
    }
}

proof fn lemma_sum_ge_elem(objs: Seq<StoredObject>, i: int)
    requires
        0 <= i < objs.len(),
    ensures
        objs[i].bytes@.len() <= sum_len(objs),
    decreases objs.len(),
{
    if i < objs.len() - 1 {
        lemma_sum_ge_elem(objs.drop_last(), i);
    }
}

proof fn lemma_map_index(objs: Seq<StoredObject>, i: int)
    requires
        0 <= i < objs.len(),
        keys_distinct(objs),
    ensures
        to_map(objs).contains_key(objs[i].key@),
        to_map(objs)[objs[i].key@] == objs[i].bytes@,
    decreases objs.len(),
{
    if i < objs.len() - 1 {
        lemma_map_index(objs.drop_last(), i);
    }
}

proof fn lemma_map_absent(objs: Seq<StoredObject>, key: Seq<char>)
    requires
        forall|j: int| 0 <= j < objs.len() ==> objs[j].key@ != key,
    ensures
        !to_map(objs).contains_key(key),
    decreases objs.len(),
{
    if objs.len() > 0 {
        lemma_map_absent(objs.drop_last(), key);
    }
}

proof fn lemma_map_update(objs: Seq<StoredObject>, i: int, o: StoredObject)
    requires
        0 <= i < objs.len(),
        keys_distinct(objs),
        o.key@ == objs[i].key@,
    ensures
        to_map(objs.update(i, o)) == to_map(objs).insert(o.key@, o.bytes@),
    decreases objs.len(),
{
    let u = objs.update(i, o);
    if i == objs.len() - 1 {
        assert(u.drop_last() =~= objs.drop_last());
        assert(to_map(u) =~= to_map(objs).insert(o.key@, o.bytes@));
    } else {
        assert(u.drop_last() =~= objs.drop_last().update(i, o));
        lemma_map_update(objs.drop_last(), i, o);
        assert(objs.last().key@ != o.key@);
        assert(to_map(u) =~= to_map(objs).insert(o.key@, o.bytes@));
    }
}

/// The total length of the byte strings a finite map holds.
pub open spec fn map_total(m: Map<Seq<char>, Seq<u8>>) -> nat
    decreases m.dom().len(),
    when m.dom().finite()
{
    if m.dom().len() == 0 {
        0
    } else {
        let k = m.dom().choose();
        proof {
            vstd::set_lib::lemma_set_empty_equivalency_len(m.dom());
        }
        m[k].len() + map_total(m.remove(k))
    }
}

/// The total is the same whichever key is taken out first.
pub proof fn lemma_map_total_remove(m: Map<Seq<char>, Seq<u8>>, k: Seq<char>)
    requires
        m.dom().finite(),
        m.dom().contains(k),
    ensures
        map_total(m) == m[k].len() + map_total(m.remove(k)),
    decreases m.dom().len(),
{
    vstd::set_lib::lemma_set_empty_equivalency_len(m.dom());
    let c = m.dom().choose();
    if c != k {
        let mc = m.remove(c);
        let mk = m.remove(k);
        assert(mc.dom() =~= m.dom().remove(c));
        assert(mk.dom() =~= m.dom().remove(k));
        lemma_map_total_remove(mc, k);
        lemma_map_total_remove(mk, c);
        assert(mc.remove(k) =~= mk.remove(c));
    }
}

/// A list of objects with distinct keys holds, in all, the total of its map.
proof fn lemma_sum_is_map_total(objs: Seq<StoredObject>)
    requires
        keys_distinct(objs),
    ensures
        to_map(objs).dom().finite(),
        sum_len(objs) == map_total(to_map(objs)),
    decreases objs.len(),
{
    if objs.len() == 0 {
        assert(to_map(objs).dom() =~= Set::<Seq<char>>::empty());
    } else {
        let d = objs.drop_last();
        let o = objs.last();
        assert(keys_distinct(d));
        lemma_sum_is_map_total(d);
        assert forall|j: int| 0 <= j < d.len() implies d[j].key@ != o.key@ by {
            assert(objs[j].key@ != objs[objs.len() - 1].key@);
        }
        lemma_map_absent(d, o.key@);
        let m = to_map(objs);
        assert(m.dom() =~= to_map(d).dom().insert(o.key@));
        lemma_map_total_remove(m, o.key@);
        assert(m.remove(o.key@) =~= to_map(d));
    }
}

/// What a write would leave stored is the bytes under the other keys plus
/// the new bytes: the old bytes under the key are not counted twice.
pub proof fn lemma_bytes_after_put_is_retained_plus_new(v: MemoryStoreView, key: Seq<char>, len: nat)
    requires
        v.objects.dom().finite(),
        v.used == map_total(v.objects),
    ensures
        bytes_after_put(v, key, len) == map_total(v.objects.remove(key)) + len,
{
    if v.objects.contains_key(key) {
        lemma_map_total_remove(v.objects, key);
    } else {
        assert(v.objects.remove(key) =~= v.objects);
    }
}

impl View for MemoryStore {
    type V = MemoryStoreView;

    closed spec fn view(&self) -> MemoryStoreView {
        MemoryStoreView {
            objects: to_map(self.objects@),
            used: sum_len(self.objects@),
            max_bytes: self.max_bytes as nat,
        }
    }
}

impl MemoryStore {
    /// The store's invariant: no key twice, never more bytes than the capacity.
    #[verifier::type_invariant]
    closed spec fn wf(&self) -> bool {
        &&& keys_distinct(self.objects@)
        &&& sum_len(self.objects@) <= self.max_bytes
    }

    /// An empty store that may hold up to `max_bytes` bytes.
    pub fn new(max_bytes: u64) -> (r: MemoryStore)
        ensures
            r@.objects == Map::<Seq<char>, Seq<u8>>::empty(),
            r@.used == 0,
            r@.max_bytes == max_bytes,
            r@.objects.dom().finite(),
    {
        let r = MemoryStore { objects: Vec::new(), max_bytes };
        proof { lemma_sum_is_map_total(r.objects@); }
        r
    }

    /// Store `bytes` under `key`, replacing what the key held, unless the
    /// store would then hold more than its capacity. A refused write leaves
    /// the store as it was.
    pub fn put(&mut self, key: &str, bytes: Vec<u8>) -> (r: Result<(), StoreError>)
        ensures
            final(self)@.used <= final(self)@.max_bytes,
            final(self)@.used == map_total(final(self)@.objects),
            final(self)@.objects.dom().finite(),
            r is Ok <==> bytes_after_put(old(self)@, key@, bytes@.len()) <= old(self)@.max_bytes,
            r is Ok ==> final(self)@ == after_put(old(self)@, key@, bytes@),
            r is Err ==> final(self)@ == old(self)@,
            r matches Err(StoreError::CapacityExceeded { would_use, limit }) ==> would_use
                == bytes_after_put(old(self)@, key@, bytes@.len()) && limit == old(self)@.max_bytes,
            (r matches Err(StoreError::AccountingOverflow)) <==> bytes_after_put(
                old(self)@,
                key@,
                bytes@.len(),
            ) > u64::MAX,
            r matches Err(e) ==> (e is CapacityExceeded || e is AccountingOverflow),
    {
        proof {
            use_type_invariant(&*self);
            lemma_sum_is_map_total(self.objects@);
        }
        let n = self.objects.len();
        let mut total: u64 = 0;
        let mut found: Option<usize> = None;
        let mut i: usize = 0;
        while i < n
            invariant
                n == self.objects@.len(),
                self.wf(),
                i <= n,
                total == sum_len(self.objects@.take(i as int)),
                found matches Some(j) ==> j < i && self.objects@[j as int].key@ == key@,
                found is None ==> forall|j: int| 0 <= j < i ==> self.objects@[j].key@ != key@,
            decreases n - i,
        {
            proof {
                lemma_prefix_sum_le(self.objects@, i + 1);
                assert(self.objects@.take(i + 1).drop_last() =~= self.objects@.take(i as int));
            }
            let o = &self.objects[i];
            total = total + o.bytes.len() as u64;
            if str_eq(o.key.as_str(), key) {
                found = Some(i);
            }
            i = i + 1;
        }
        proof {
            assert(self.objects@.take(n as int) =~= self.objects@);
        }
        let existing: u64 = match found {
            Some(j) => {
                proof {
                    lemma_sum_ge_elem(self.objects@, j as int);
                    lemma_map_index(self.objects@, j as int);
                }
                self.objects[j].bytes.len() as u64
            },
            None => {
                proof { lemma_map_absent(self.objects@, key@); }
                0
            },
        };
        assert(existing == existing_len(self@, key@));
        let retained = total - existing;
        let len = bytes.len() as u64;
        match retained.checked_add(len) {
            None => Err(StoreError::AccountingOverflow),
            Some(next) => {
                if next > self.max_bytes {
                    Err(StoreError::CapacityExceeded { would_use: next, limit: self.max_bytes })
                } else {
                    let ghost old_objs = self.objects@;
                    let o = StoredObject { key: owned(key), bytes };
                    let mut objs: Vec<StoredObject> = Vec::new();
                    std::mem::swap(&mut objs, &mut self.objects);
                    match found {
                        Some(j) => {
                            objs[j] = o;
                            proof {
                                lemma_sum_update(old_objs, j as int, o);
                                lemma_map_update(old_objs, j as int, o);
                                assert(keys_distinct(objs@)) by {
                                    assert forall|a: int, b: int| 0 <= a < b < objs@.len()
                                        implies objs@[a].key@ != objs@[b].key@ by {
                                        assert(old_objs[a].key@ != old_objs[b].key@);
                                    }
                                }
                            }
                        },
                        None => {
                            objs.push(o);
                            proof {
                                assert(objs@.drop_last() =~= old_objs);
                                assert(keys_distinct(objs@)) by {
                                    assert forall|a: int, b: int| 0 <= a < b < objs@.len()
                                        implies objs@[a].key@ != objs@[b].key@ by {
                                        if b < old_objs.len() {
                                            assert(old_objs[a].key@ != old_objs[b].key@);
                                        }
                                    }
                                }
                            }
                        },
                    }
                    self.objects = objs;
                    proof { lemma_sum_is_map_total(self.objects@); }
                    assert(self@ == after_put(old(self)@, key@, o.bytes@));
                    Ok(())
                }
            },
        }
    }

    fn find(&self, key: &str) -> (r: Option<usize>)
        requires
            self.wf(),
        ensures
            r is Some <==> self@.objects.contains_key(key@),
            r matches Some(j) ==> j < self.objects@.len() && self.objects@[j as int].bytes@
                == self@.objects[key@],
    {
        let mut i: usize = 0;
        while i < self.objects.len()
            invariant
                self.wf(),
                i <= self.objects@.len(),
                forall|j: int| 0 <= j < i ==> self.objects@[j].key@ != key@,
            decreases self.objects@.len() - i,
        {
            if str_eq(self.objects[i].key.as_str(), key) {
                proof { lemma_map_index(self.objects@, i as int); }
                return Some(i);
            }
            i = i + 1;
        }
        proof { lemma_map_absent(self.objects@, key@); }
        None
    }

    /// A copy of the bytes stored under `key`.
    pub fn download(&self, key: &str) -> (r: Result<Vec<u8>, StoreError>)
        ensures
            r is Ok <==> self@.objects.contains_key(key@),
            r matches Ok(b) ==> b@ == self@.objects[key@],
            r matches Err(StoreError::NotFound { key: k }) ==> k@ == key@,
            r matches Err(e) ==> e is NotFound,
    {
        proof { use_type_invariant(self); }
        match self.find(key) {
            Some(j) => {
                let b = self.objects[j].bytes.clone();
                assert(b@ =~= self.objects@[j as int].bytes@);
                Ok(b)
            },
            None => Err(StoreError::NotFound { key: owned(key) }),
        }
    }

    /// The bytes stored under `key`, refused when they exceed the
    /// single-buffer ceiling.
    pub fn get_bytes(&self, key: &str) -> (r: Result<Vec<u8>, StoreError>)
        ensures
            r is Ok <==> self@.objects.contains_key(key@) && self@.objects[key@].len()
                <= MAX_BUFFERED_ARTIFACT_BYTES,
            r matches Ok(b) ==> b@ == self@.objects[key@],
            r matches Err(StoreError::NotFound { key: k }) ==> k@ == key@
                && !self@.objects.contains_key(key@),
            r matches Err(StoreError::TooLargeToBuffer { key: k, len }) ==> k@ == key@
                && self@.objects.contains_key(key@) && len == self@.objects[key@].len(),
            r matches Err(e) ==> (e is NotFound || e is TooLargeToBuffer),
    {
        proof { use_type_invariant(self); }
        match self.find(key) {
            Some(j) => {
                let len = self.objects[j].bytes.len() as u64;
                match guard_buffered(key, len) {
                    Err(e) => Err(e),
                    Ok(()) => {
                        let b = self.objects[j].bytes.clone();
                        assert(b@ =~= self.objects@[j as int].bytes@);
                        Ok(b)
                    },
                }
            },
            None => Err(StoreError::NotFound { key: owned(key) }),
        }
    }
}

/// A read after a successful write under the same key gives back the bytes
/// written, and every other key keeps what it held.
pub proof fn lemma_read_your_write(v: MemoryStoreView, key: Seq<char>, bytes: Seq<u8>, other: Seq<char>)
    requires
        other != key,
    ensures
        after_put(v, key, bytes).objects.contains_key(key),
        after_put(v, key, bytes).objects[key] == bytes,
        after_put(v, key, bytes).objects.contains_key(other) == v.objects.contains_key(other),
        v.objects.contains_key(other) ==> after_put(v, key, bytes).objects[other] == v.objects[other],
{
}

/// Writing the bytes a key already holds never exceeds the capacity: a
/// re-publish of the same content-addressed key is not counted twice.
pub proof fn lemma_republish_fits(v: MemoryStoreView, key: Seq<char>)
    requires
        v.objects.contains_key(key),
        v.used <= v.max_bytes,
    ensures
        bytes_after_put(v, key, v.objects[key].len()) <= v.max_bytes,
        after_put(v, key, v.objects[key]) == v,
{
    assert(v.objects.insert(key, v.objects[key]) =~= v.objects);
}

} // verus!
