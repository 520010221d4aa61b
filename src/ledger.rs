//! The integrity ledger: which file holds each item, and the digest that file
//! had when it was written.

use vstd::prelude::*;

verus! {

/// An entry as a value: identifier, location, digest.
pub type EntryView = (Seq<char>, Seq<char>, Seq<char>);

/// One ledger record.
pub struct LockEntry {
    pub image_id: String,
    pub image_location: String,
    pub sha256: String,
}

impl View for LockEntry {
    type V = EntryView;

    open spec fn view(&self) -> EntryView {
        (self.image_id@, self.image_location@, self.sha256@)
    }
}

/// The values of a sequence of entries.
pub open spec fn views(v: Seq<LockEntry>) -> Seq<EntryView> {
    v.map_values(|e: LockEntry| e@)
}

/// No two entries carry the same identifier.
pub open spec fn unique_ids(s: Seq<EntryView>) -> bool {
    forall|i: int, j: int| 0 <= i < j < s.len() ==> s[i].0 != s[j].0
}

/// Some entry for `id` stores exactly `digest`.
pub open spec fn records(s: Seq<EntryView>, id: Seq<char>, digest: Seq<char>) -> bool {
    exists|i: int| 0 <= i < s.len() && s[i].0 == id && s[i].2 == digest
}

/// Some entry carries `id`.
pub open spec fn has_id(s: Seq<EntryView>, id: Seq<char>) -> bool {
    exists|i: int| 0 <= i < s.len() && s[i].0 == id
}

/// The entries after an upsert: the entry for `id` is overwritten where it
/// stands, or a new one is appended when there is none.
pub open spec fn upserted(s: Seq<EntryView>, id: Seq<char>, loc: Seq<char>, digest: Seq<char>) -> Seq<EntryView> {
    if has_id(s, id) {
        let i = choose|i: int| 0 <= i < s.len() && s[i].0 == id;
        s.update(i, (id, loc, digest))
    } else {
        s.push((id, loc, digest))
    }
}

/// For an entry `(id, d)` of a ledger with unique identifiers, a lookup of
/// `(id, d)` succeeds, and a lookup of `id` with any other digest fails.
pub proof fn lemma_lookup_exact(s: Seq<EntryView>, i: int, other: Seq<char>)
    requires
        unique_ids(s),
        0 <= i < s.len(),
        other != s[i].2,
    ensures
        records(s, s[i].0, s[i].2),
        !records(s, s[i].0, other),
{
}

/// An upsert keeps identifiers unique.
pub proof fn lemma_upsert_keeps_unique(s: Seq<EntryView>, id: Seq<char>, loc: Seq<char>, digest: Seq<char>)
    requires
        unique_ids(s),
    ensures
        unique_ids(upserted(s, id, loc, digest)),
        records(upserted(s, id, loc, digest), id, digest),
{
    let t = upserted(s, id, loc, digest);
    if has_id(s, id) {
        let i = choose|i: int| 0 <= i < s.len() && s[i].0 == id;
        assert(t[i] == (id, loc, digest));
    } else {
        assert(t[s.len() as int] == (id, loc, digest));
    }
}

/// Upserting an identifier that is already present replaces its entry where
/// it stands: the length is unchanged, exactly one entry carries the
/// identifier, it holds the new location and digest, and every other entry is
/// untouched.
pub proof fn lemma_upsert_replaces_in_place(
    s: Seq<EntryView>,
    id: Seq<char>,
    loc: Seq<char>,
    digest: Seq<char>,
    i: int,
)
    requires
        unique_ids(s),
        0 <= i < s.len(),
        s[i].0 == id,
    ensures
        upserted(s, id, loc, digest).len() == s.len(),
        upserted(s, id, loc, digest)[i] == (id, loc, digest),
        unique_ids(upserted(s, id, loc, digest)),
        forall|j: int|
            0 <= j < s.len() && upserted(s, id, loc, digest)[j].0 == id ==> j == i,
        forall|j: int| 0 <= j < s.len() && j != i ==> upserted(s, id, loc, digest)[j] == s[j],
{
    let k = choose|k: int| 0 <= k < s.len() && s[k].0 == id;
    assert(k == i);
    lemma_upsert_keeps_unique(s, id, loc, digest);
}

/// The ledger that results from upserting `es` in order into an empty one.
pub open spec fn upsert_all(es: Seq<EntryView>) -> Seq<EntryView>
    decreases es.len(),
{
    if es.len() == 0 {
        Seq::empty()
    } else {
        let p = upsert_all(es.drop_last());
        upserted(p, es.last().0, es.last().1, es.last().2)
    }
}


/// The ledger: at most one entry per identifier, kept in insertion order.
pub struct LockFile {
    entries: Vec<LockEntry>,
}

impl View for LockFile {
    type V = Seq<EntryView>;

    closed spec fn view(&self) -> Seq<EntryView> {
        views(self.entries@)
    }
}

impl LockFile {
    pub open spec fn wf(&self) -> bool {
        unique_ids(self@)
    }

    /// An empty ledger.
    pub fn new() -> (r: LockFile)
        ensures
            r.wf(),
            r@ == Seq::<EntryView>::empty(),
    {
        LockFile { entries: Vec::new() }
    }

    /// Builds a ledger from stored records, upserting them in order, so that a
    /// record read later wins over an earlier one for the same identifier.
    pub fn from_entries(entries: Vec<LockEntry>) -> (r: LockFile)
        ensures
            r.wf(),
            r@ == upsert_all(views(entries@)),
    {
        let ghost es = views(entries@);
        let ghost n = es.len();
        let mut l = LockFile::new();
        let mut rest = entries;
        assert(es.subrange(0, 0) =~= Seq::<EntryView>::empty());
        while rest.len() > 0
            invariant
                n == es.len(),
                l.wf(),
                rest@.len() <= n,
                l@ == upsert_all(es.subrange(0, n - rest@.len())),
                views(rest@) =~= es.subrange(n - rest@.len(), n as int),
            decreases rest@.len(),
        {
            let ghost k = n - rest@.len();
            let ghost before = rest@;
            assert(views(before)[0] == es[k]);
            let e = rest.remove(0);
            assert(rest@ =~= before.subrange(1, before.len() as int));
            assert(e@ == es[k]);
            assert(es.subrange(0, k + 1).drop_last() =~= es.subrange(0, k));
            l.add(e.image_id, e.image_location, e.sha256);
            assert forall|j: int| 0 <= j < rest@.len() implies #[trigger] views(rest@)[j]
                == es.subrange(k + 1, n as int)[j] by {
                assert(rest@[j] == before[j + 1]);
                assert(views(before)[j + 1] == es[k + 1 + j]);
            }
            assert(views(rest@) =~= es.subrange(k + 1, n as int));
        }
        assert(es.subrange(0, n as int) =~= es);
        l
    }

    /// Hands out the entries, in order.
    pub fn into_entries(self) -> (r: Vec<LockEntry>)
        ensures
            views(r@) == self@,
    {
        self.entries
    }

    /// Number of entries.
    pub fn len(&self) -> (r: usize)
        ensures
            r == self@.len(),
    {
        self.entries.len()
    }

    /// The entry at position `i`.
    pub fn entry(&self, i: usize) -> (r: &LockEntry)
        requires
            i < self@.len(),
        ensures
            r@ == self@[i as int],
    {
        &self.entries[i]
    }

    /// True iff an entry for `image_id` stores exactly `hash`.
    pub fn contains(&self, image_id: &str, hash: &str) -> (r: bool)
        ensures
            r == records(self@, image_id@, hash@),
    {
        let id = image_id.to_owned();
        let h = hash.to_owned();
        let mut i: usize = 0;
        while i < self.entries.len()
            invariant
                0 <= i <= self.entries@.len(),
                id@ == image_id@,
                h@ == hash@,
                forall|k: int| 0 <= k < i ==> !(self@[k].0 == id@ && self@[k].2 == h@),
            decreases self.entries@.len() - i,
        {
            assert(self@[i as int] == self.entries@[i as int]@);
            if self.entries[i].image_id == id && self.entries[i].sha256 == h {
                assert(self@[i as int].0 == id@ && self@[i as int].2 == h@);
                return true;
            }
            i = i + 1;
        }
        false
    }

    /// Upserts: inserts an entry for `image_id`, or overwrites the existing one
    /// in place.
    pub fn add(&mut self, image_id: String, image_location: String, sha256: String)
        requires
            old(self).wf(),
        ensures
            final(self).wf(),
            final(self)@ == upserted(old(self)@, image_id@, image_location@, sha256@),
    {
        let ghost s = self@;
        let mut i: usize = 0;
        while i < self.entries.len()
            invariant
                0 <= i <= self.entries@.len(),
                self@ == s,
                s == old(self)@,
                unique_ids(s),
                forall|k: int| 0 <= k < i ==> s[k].0 != image_id@,
            decreases self.entries@.len() - i,
        {
            if self.entries[i].image_id == image_id {
                assert(s[i as int] == self.entries@[i as int]@);
                assert(s[i as int].0 == image_id@);
                assert(has_id(s, image_id@));
                let ghost j = choose|j: int| 0 <= j < s.len() && s[j].0 == image_id@;
                assert(j == i);
                let ghost e = (image_id@, image_location@, sha256@);
                assert(upserted(s, e.0, e.1, e.2) == s.update(i as int, e));
                self.entries[i] = LockEntry { image_id, image_location, sha256 };
                assert(self@ =~= s.update(i as int, e));
                return;
            }
            assert(s[i as int] == self.entries@[i as int]@);
            i = i + 1;
        }
        self.entries.push(LockEntry { image_id, image_location, sha256 });
        assert(self@ =~= s.push((image_id@, image_location@, sha256@)));
    }
}

} // verus!
