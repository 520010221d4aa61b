//! The identifier set: normalisation of user input, the canonical sorted
//! order without duplicates, and the line-per-identifier file format.

use vstd::prelude::*;
use crate::text::{
    after_last, before_first, has_prefix, lex_less, lex_lt,
    lemma_lex_total, lemma_lex_transitive, prefix_before_first, split_on, split_str,
    starts_with, strings, suffix_after_last, trim, trim_str,
};

verus! {

/// The trimmed, non-empty pieces among `ps`, in order.
pub open spec fn keep_items(ps: Seq<Seq<char>>) -> Seq<Seq<char>>
    decreases ps.len(),
{
    if ps.len() == 0 {
        Seq::empty()
    } else {
        let r = keep_items(ps.drop_last());
        let t = trim(ps.last());
        if t.len() > 0 {
            r.push(t)
        } else {
            r
        }
    }
}

/// The identifiers in a comma-separated list: each piece trimmed, empty ones
/// dropped.
pub open spec fn split_items(s: Seq<char>) -> Seq<Seq<char>> {
    keep_items(split_on(s, ','))
}

/// An item is taken for a URL when it starts with an HTTP scheme.
pub open spec fn looks_like_url(s: Seq<char>) -> bool {
    starts_with(s, "http://"@) || starts_with(s, "https://"@)
}

/// The last path segment of a URL, without its query string.
pub open spec fn id_from_url(s: Seq<char>) -> Seq<char> {
    before_first(after_last(s, '/'), '?')
}

/// An item with a URL reduced to its identifier; anything else verbatim.
pub open spec fn normalized(s: Seq<char>) -> Seq<char> {
    if looks_like_url(s) {
        id_from_url(s)
    } else {
        s
    }
}

/// All identifiers named by the comma-separated lists `ps`.
pub open spec fn ids_in(ps: Seq<Seq<char>>) -> Set<Seq<char>>
    decreases ps.len(),
{
    if ps.len() == 0 {
        Set::empty()
    } else {
        ids_in(ps.drop_last()).union(split_items(ps.last()).to_set())
    }
}

/// All identifiers named by raw user items (bare identifiers, comma lists or
/// URLs).
pub open spec fn ids_of_items(items: Seq<Seq<char>>) -> Set<Seq<char>> {
    ids_in(items.map_values(|x: Seq<char>| normalized(x)))
}

/// All identifiers in the text of a list file: one list per line.
pub open spec fn ids_of_text(text: Seq<char>) -> Set<Seq<char>> {
    ids_in(split_on(text, '\n'))
}

/// Strictly increasing in lexicographic order, hence without duplicates.
pub open spec fn sorted(v: Seq<Seq<char>>) -> bool {
    forall|i: int, j: int| 0 <= i < j < v.len() ==> lex_lt(v[i], v[j])
}

/// Each identifier followed by a line break.
pub open spec fn lines_of(v: Seq<Seq<char>>) -> Seq<char>
    decreases v.len(),
{
    if v.len() == 0 {
        Seq::empty()
    } else {
        lines_of(v.drop_last()) + v.last() + seq!['\n']
    }
}

/// The elements of a prefix grow one at a time.
pub proof fn lemma_prefix_to_set(s: Seq<Seq<char>>, k: int)
    requires
        0 <= k < s.len(),
    ensures
        s.subrange(0, k + 1).to_set() == s.subrange(0, k).to_set().insert(s[k]),
{
    let a = s.subrange(0, k + 1);
    let b = s.subrange(0, k);
    assert forall|x: Seq<char>| #[trigger] a.contains(x) <==> b.contains(x) || x == s[k] by {
        if a.contains(x) {
            let i = choose|i: int| 0 <= i < a.len() && a[i] == x;
            if i < k {
                assert(b[i] == x);
            }
        }
        if b.contains(x) {
            let i = choose|i: int| 0 <= i < b.len() && b[i] == x;
            assert(a[i] == x);
        }
        if x == s[k] {
            assert(a[k] == x);
        }
    }
    assert(a.to_set() =~= b.to_set().insert(s[k]));
}

/// Whether `s` is taken for a URL.
pub fn is_url(s: &str) -> (r: bool)
    ensures
        r == looks_like_url(s@),
{
    has_prefix(s, "http://") || has_prefix(s, "https://")
}

/// A URL reduced to its identifier; anything else unchanged.
pub fn normalize(item: &str) -> (r: String)
    ensures
        r@ == normalized(item@),
{
    if is_url(item) {
        let seg = suffix_after_last(item, '/');
        prefix_before_first(seg.as_str(), '?')
    } else {
        item.to_owned()
    }
}

/// The identifiers of a comma-separated list, trimmed, empty ones dropped.
pub fn to_array(s: &str) -> (r: Vec<String>)
    ensures
        strings(r@) == split_items(s@),
{
    let pieces = split_str(s, ',');
    let ghost ps = strings(pieces@);
    let mut out: Vec<String> = Vec::new();
    let mut i: usize = 0;
    assert(ps.subrange(0, 0) =~= Seq::<Seq<char>>::empty());
    while i < pieces.len()
        invariant
            ps == strings(pieces@),
            i <= pieces@.len(),
            strings(out@) == keep_items(ps.subrange(0, i as int)),
        decreases pieces@.len() - i,
    {
        let t = trim_str(pieces[i].as_str());
        assert(ps.subrange(0, i + 1).drop_last() =~= ps.subrange(0, i as int));
        assert(ps.subrange(0, i + 1).last() == pieces@[i as int]@);
        if t.unicode_len() > 0 {
            out.push(t);
            assert(strings(out@) =~= keep_items(ps.subrange(0, i as int)).push(t@));
        }
        i = i + 1;
    }
    assert(ps.subrange(0, i as int) =~= ps);
    out
}

/// The identifier set, kept sorted without duplicates.
pub struct WallpaperSet {
    ids: Vec<String>,
}

impl View for WallpaperSet {
    type V = Seq<Seq<char>>;

    closed spec fn view(&self) -> Seq<Seq<char>> {
        strings(self.ids@)
    }
}

impl WallpaperSet {
    pub open spec fn wf(&self) -> bool {
        sorted(self@)
    }

    /// An empty set.
    pub fn new() -> (r: WallpaperSet)
        ensures
            r.wf(),
            r@ == Seq::<Seq<char>>::empty(),
    {
        let r = WallpaperSet { ids: Vec::new() };
        assert(r@ =~= Seq::<Seq<char>>::empty());
        r
    }

    /// Number of identifiers.
    pub fn len(&self) -> (r: usize)
        ensures
            r == self@.len(),
    {
        self.ids.len()
    }

    /// The identifier at position `i` of the sorted order.
    pub fn get(&self, i: usize) -> (r: &String)
        requires
            i < self@.len(),
        ensures
            r@ == self@[i as int],
    {
        &self.ids[i]
    }

    /// Adds one identifier, keeping the order and the absence of duplicates.
    pub fn insert(&mut self, id: String)
        requires
            old(self).wf(),
        ensures
            final(self).wf(),
            final(self)@.to_set() == old(self)@.to_set().insert(id@),
    {
        let ghost v = self@;
        let ghost x = id@;
        let n = self.ids.len();
        let mut p: usize = 0;
        while p < n && lex_less(self.ids[p].as_str(), id.as_str())
            invariant
                n == v.len(),
                self@ == v,
                x == id@,
                p <= n,
                forall|k: int| 0 <= k < p ==> lex_lt(v[k], x),
            decreases n - p,
        {
            assert(self.ids@[p as int]@ == v[p as int]);
            p = p + 1;
        }
        if p < n {
            assert(self.ids@[p as int]@ == v[p as int]);
            if self.ids[p] == id {
                assert(v.contains(x));
                assert(v.to_set() =~= v.to_set().insert(x));
                return;
            }
        }
        proof {
            if p < n {
                lemma_lex_total(v[p as int], x);
            }
            assert forall|k: int| p <= k < n implies lex_lt(x, #[trigger] v[k]) by {
                if k > p {
                    lemma_lex_transitive(x, v[p as int], v[k]);
                }
            }
        }
        self.ids.insert(p, id);
        assert(self@ =~= v.insert(p as int, x));
        proof {
            let t = v.insert(p as int, x);
            assert forall|i: int, j: int| 0 <= i < j < t.len() implies lex_lt(
                #[trigger] t[i],
                #[trigger] t[j],
            ) by {
                if j < p {
                } else if j == p {
                } else if i < p {
                } else if i == p {
                } else {
                }
            }
            assert forall|a: Seq<char>| #[trigger] t.contains(a) <==> v.contains(a) || a == x by {
                if t.contains(a) {
                    let k = choose|k: int| 0 <= k < t.len() && t[k] == a;
                    if k < p {
                        assert(v[k] == a);
                    } else if k > p {
                        assert(v[k - 1] == a);
                    }
                }
                if v.contains(a) {
                    let k = choose|k: int| 0 <= k < v.len() && v[k] == a;
                    if k < p {
                        assert(t[k] == a);
                    } else {
                        assert(t[k + 1] == a);
                    }
                }
                if a == x {
                    assert(t[p as int] == a);
                }
            }
            assert(t.to_set() =~= v.to_set().insert(x));
        }
    }
    /// Adds every identifier of one comma-separated list.
    pub fn add_list(&mut self, list: &str)
        requires
            old(self).wf(),
        ensures
            final(self).wf(),
            final(self)@.to_set() == old(self)@.to_set().union(split_items(list@).to_set()),
    {
        let parts = to_array(list);
        let ghost ps = strings(parts@);
        let ghost base = self@.to_set();
        let mut k: usize = 0;
        assert(ps.subrange(0, 0).to_set() =~= Set::<Seq<char>>::empty());
        assert(base.union(Set::<Seq<char>>::empty()) =~= base);
        while k < parts.len()
            invariant
                self.wf(),
                ps == strings(parts@),
                k <= parts@.len(),
                self@.to_set() == base.union(ps.subrange(0, k as int).to_set()),
            decreases parts@.len() - k,
        {
            let id = parts[k].clone();
            self.insert(id);
            proof {
                lemma_prefix_to_set(ps, k as int);
                assert(base.union(ps.subrange(0, k as int).to_set()).insert(ps[k as int])
                    =~= base.union(ps.subrange(0, k + 1).to_set()));
            }
            k = k + 1;
        }
        assert(ps.subrange(0, k as int) =~= ps);
    }

    /// Adds raw user items: a URL stands for its last path segment without
    /// the query string, and each item may name several identifiers separated
    /// by commas. The result stays sorted and free of duplicates.
    pub fn add(&mut self, items: &Vec<String>)
        requires
            old(self).wf(),
        ensures
            final(self).wf(),
            final(self)@.to_set() == old(self)@.to_set().union(ids_of_items(strings(items@))),
    {
        let ghost norm = strings(items@).map_values(|x: Seq<char>| normalized(x));
        let ghost base = self@.to_set();
        let mut j: usize = 0;
        assert(norm.subrange(0, 0) =~= Seq::<Seq<char>>::empty());
        assert(base.union(Set::<Seq<char>>::empty()) =~= base);
        while j < items.len()
            invariant
                self.wf(),
                norm == strings(items@).map_values(|x: Seq<char>| normalized(x)),
                j <= items@.len(),
                self@.to_set() == base.union(ids_in(norm.subrange(0, j as int))),
            decreases items@.len() - j,
        {
            let one = normalize(items[j].as_str());
            assert(one@ == norm[j as int]);
            self.add_list(one.as_str());
            assert(norm.subrange(0, j + 1).drop_last() =~= norm.subrange(0, j as int));
            assert(base.union(ids_in(norm.subrange(0, j as int))).union(
                split_items(one@).to_set(),
            ) =~= base.union(ids_in(norm.subrange(0, j + 1))));
            j = j + 1;
        }
        assert(norm.subrange(0, j as int) =~= norm);
    }

    /// Reads the text of a list file: every line is a comma-separated list.
    pub fn from_text(text: &str) -> (r: WallpaperSet)
        ensures
            r.wf(),
            r@.to_set() == ids_of_text(text@),
    {
        let lines = split_str(text, '\n');
        let ghost ls = strings(lines@);
        let mut r = WallpaperSet::new();
        let mut j: usize = 0;
        assert(ls.subrange(0, 0) =~= Seq::<Seq<char>>::empty());
        assert(r@.to_set() =~= Set::<Seq<char>>::empty());
        while j < lines.len()
            invariant
                r.wf(),
                ls == strings(lines@),
                j <= lines@.len(),
                r@.to_set() == ids_in(ls.subrange(0, j as int)),
            decreases lines@.len() - j,
        {
            r.add_list(lines[j].as_str());
            assert(ls.subrange(0, j + 1).drop_last() =~= ls.subrange(0, j as int));
            j = j + 1;
        }
        assert(ls.subrange(0, j as int) =~= ls);
        r
    }

    /// The text of the list file: one identifier per line, in order.
    pub fn to_text(&self) -> (r: String)
        ensures
            r@ == lines_of(self@),
    {
        let mut out = String::new();
        let mut i: usize = 0;
        proof {
            reveal_strlit("\n");
        }
        assert(self@.subrange(0, 0) =~= Seq::<Seq<char>>::empty());
        while i < self.ids.len()
            invariant
                i <= self@.len(),
                "\n"@ == seq!['\n'],
                out@ == lines_of(self@.subrange(0, i as int)),
            decreases self@.len() - i,
        {
            out.append(self.ids[i].as_str());
            out.append("\n");
            assert(self@.subrange(0, i + 1).drop_last() =~= self@.subrange(0, i as int));
            assert(self.ids@[i as int]@ == self@[i as int]);
            i = i + 1;
        }
        assert(self@.subrange(0, i as int) =~= self@);
        out
    }
}

} // verus!
