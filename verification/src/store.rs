//! The key-value store model: an in-memory mapping from short keys to
//! link records, viewed as a `Map` from key characters to record values.
//! A put is an upsert with no conflict detection, as a durable key-value
//! backend without cross-key transactions behaves: when two writers race
//! on one key, the later write silently replaces the earlier one.

use vstd::prelude::*;
use vstd::string::StringExecFns;
use crate::text::str_eq;

verus! {

/// The mathematical value of one stored link.
pub ghost struct LinkRecordV {
    pub destination: Seq<char>,
    pub created_by: Seq<char>,
    pub created_at: u64,
}

/// One stored link: the validated destination plus its creation metadata.
pub struct LinkRecord {
    /// The validated absolute destination URL.
    pub destination: String,
    /// Opaque identity of the creator, as the caller supplied it.
    pub created_by: String,
    /// Creation time in milliseconds, recorded at write time.
    pub created_at: u64,
}

impl View for LinkRecord {
    type V = LinkRecordV;

    open spec fn view(&self) -> LinkRecordV {
        LinkRecordV {
            destination: self.destination@,
            created_by: self.created_by@,
            created_at: self.created_at,
        }
    }
}

impl LinkRecord {
    /// A field-for-field copy.
    pub fn duplicate(&self) -> (r: LinkRecord)
        ensures
            r@ == self@,
    {
        LinkRecord {
            destination: self.destination.clone(),
            created_by: self.created_by.clone(),
            created_at: self.created_at,
        }
    }
}

struct StoreEntry {
    key: String,
    rec: LinkRecord,
}

/// The map a run of entries denotes: each entry upserts its key, so the
/// latest entry for a key wins.
spec fn entries_map(es: Seq<StoreEntry>) -> Map<Seq<char>, LinkRecordV>
    decreases es.len(),
{
    if es.len() == 0 {
        Map::empty()
    } else {
        entries_map(es.drop_last()).insert(es.last().key@, es.last().rec@)
    }
}

proof fn lemma_map_lookup(es: Seq<StoreEntry>, k: Seq<char>, i: int)
    requires
        0 <= i < es.len(),
        es[i].key@ == k,
        forall|j: int| i < j < es.len() ==> es[j].key@ != k,
    ensures
        entries_map(es).contains_key(k),
        entries_map(es)[k] == es[i].rec@,
    decreases es.len(),
{
    if i < es.len() - 1 {
        lemma_map_lookup(es.drop_last(), k, i);
    }
}

proof fn lemma_map_absent(es: Seq<StoreEntry>, k: Seq<char>)
    requires
        forall|j: int| 0 <= j < es.len() ==> es[j].key@ != k,
    ensures
        !entries_map(es).contains_key(k),
    decreases es.len(),
{
    if es.len() > 0 {
        lemma_map_absent(es.drop_last(), k);
    }
}

/// The in-memory key-value store holding the short-link records.
pub struct MemoryStore {
    entries: Vec<StoreEntry>,
}

impl View for MemoryStore {
    type V = Map<Seq<char>, LinkRecordV>;

    closed spec fn view(&self) -> Map<Seq<char>, LinkRecordV> {
        entries_map(self.entries@)
    }
}

impl MemoryStore {
    /// An empty store.
    pub fn new() -> (r: MemoryStore)
        ensures
            r@ == Map::<Seq<char>, LinkRecordV>::empty(),
    {
        MemoryStore { entries: Vec::new() }
    }

    /// Looks a key up; any string may be asked for, an unknown one simply
    /// misses.
    pub fn get(&self, key: &str) -> (r: Option<LinkRecord>)
        ensures
            match r {
                Some(rec) => self@.contains_key(key@) && rec@ == self@[key@],
                None => !self@.contains_key(key@),
            },
    {
        let n: usize = self.entries.len();
        let mut i: usize = n;
        while i > 0
            invariant
                i <= n,
                n == self.entries@.len(),
                forall|j: int| i <= j < n ==> self.entries@[j].key@ != key@,
            decreases i,
        {
            i = i - 1;
            let e = &self.entries[i];
            if str_eq(e.key.as_str(), key) {
                proof {
                    lemma_map_lookup(self.entries@, key@, i as int);
                }
                return Some(e.rec.duplicate());
            }
        }
        proof {
            lemma_map_absent(self.entries@, key@);
        }
        None
    }

    /// Whether a key is present: existence is derived from a lookup.
    pub fn contains(&self, key: &str) -> (r: bool)
        ensures
            r == self@.contains_key(key@),
    {
        match self.get(key) {
            Some(_) => true,
            None => false,
        }
    }

    /// Upserts one record under a key. Never fails, detects no conflict:
    /// writing an existing key replaces its record.
    pub fn put(&mut self, key: &str, rec: LinkRecord)
        ensures
            final(self)@ == old(self)@.insert(key@, rec@),
    {
        let entry = StoreEntry { key: String::from_str(key), rec };
        self.entries.push(entry);
        proof {
            assert(self.entries@.drop_last() =~= old(self).entries@);
        }
    }
}

/// What resolving a key against store contents yields: the destination of
/// its record, or nothing.
pub open spec fn resolve_spec(m: Map<Seq<char>, LinkRecordV>, k: Seq<char>) -> Option<Seq<char>> {
    if m.contains_key(k) {
        Some(m[k].destination)
    } else {
        None
    }
}

/// The characters of an optional destination string.
pub open spec fn dest_view(r: Option<String>) -> Option<Seq<char>> {
    match r {
        Some(s) => Some(s@),
        None => None,
    }
}

/// Resolves a short key: the destination to redirect to if the key is
/// mapped, and nothing — to be rendered as not-found — if it is absent.
/// No format check is made; a malformed key merely misses.
pub fn resolve(store: &MemoryStore, key: &str) -> (r: Option<String>)
    ensures
        dest_view(r) == resolve_spec(store@, key@),
{
    match store.get(key) {
        Some(rec) => Some(rec.destination),
        None => None,
    }
}

/// Writes one record in a single put: the destination together with its
/// metadata. Nothing is retried and nothing can fail in this store.
pub fn write(store: &mut MemoryStore, key: &str, destination: &str, created_by: &str, created_at: u64)
    ensures
        final(store)@ == old(store)@.insert(
            key@,
            LinkRecordV { destination: destination@, created_by: created_by@, created_at },
        ),
{
    let rec = LinkRecord {
        destination: String::from_str(destination),
        created_by: String::from_str(created_by),
        created_at,
    };
    store.put(key, rec);
}

/// Resolving is a pure function of the store contents: two resolutions of
/// one key, with no write between them, give the same answer.
pub proof fn lemma_resolve_idempotent(
    m: Map<Seq<char>, LinkRecordV>,
    k: Seq<char>,
    r1: Option<Seq<char>>,
    r2: Option<Seq<char>>,
)
    requires
        r1 == resolve_spec(m, k),
        r2 == resolve_spec(m, k),
    ensures
        r1 == r2,
{
}

/// Round trip: a key just written resolves to the destination that was
/// written under it.
pub proof fn lemma_write_then_resolve(
    m: Map<Seq<char>, LinkRecordV>,
    k: Seq<char>,
    rec: LinkRecordV,
)
    ensures
        resolve_spec(m.insert(k, rec), k) == Some(rec.destination),
{
}

/// When two writers race on one key — both having passed the existence
/// check — the later write wins and neither is told of the conflict: the
/// store after both writes is exactly the store after the second alone.
pub proof fn lemma_last_write_wins(
    m: Map<Seq<char>, LinkRecordV>,
    k: Seq<char>,
    r1: LinkRecordV,
    r2: LinkRecordV,
)
    ensures
        m.insert(k, r1).insert(k, r2) =~= m.insert(k, r2),
{
}

} // verus!
