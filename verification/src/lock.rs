//! The lock table: for each synced source, the commit that was last brought
//! in, under a key made of the source's address and destination.

use vstd::prelude::*;
use vstd::string::StringExecFns;
use crate::text::{opt_str_text, same_text};

verus! {

/// What was last synced for one source.
#[derive(Debug, Clone, PartialEq, Eq)]
pub struct LockedSource {
    pub url: String,
    pub commit: String,
    pub synced_at: String,
}

/// What a [`LockedSource`] holds, as text.
pub struct LockedText {
    pub url: Seq<char>,
    pub commit: Seq<char>,
    pub synced_at: Seq<char>,
}

impl View for LockedSource {
    type V = LockedText;

    open spec fn view(&self) -> LockedText {
        LockedText { url: self.url@, commit: self.commit@, synced_at: self.synced_at@ }
    }
}

impl LockedSource {
    /// A copy of the entry.
    pub fn copy(&self) -> (r: LockedSource)
        ensures
            r@ == self@,
    {
        LockedSource {
            url: self.url.clone(),
            commit: self.commit.clone(),
            synced_at: self.synced_at.clone(),
        }
    }
}

/// The text of an optional borrowed entry.
pub open spec fn opt_locked(o: Option<&LockedSource>) -> Option<LockedText> {
    match o {
        Some(e) => Some(e@),
        None => None,
    }
}

/// The table that a list of keyed entries stands for: each key with the
/// entry that stands last under it.
pub open spec fn table_of(entries: Seq<(String, LockedSource)>) -> Map<Seq<char>, LockedText>
    decreases entries.len(),
{
    if entries.len() == 0 {
        Map::empty()
    } else {
        table_of(entries.drop_last()).insert(entries.last().0@, entries.last().1@)
    }
}

/// No key stands twice in the list.
pub open spec fn distinct_keys(entries: Seq<(String, LockedSource)>) -> bool {
    forall|i: int, j: int|
        0 <= i < j < entries.len() ==> (#[trigger] entries[i]).0@ != (#[trigger] entries[j]).0@
}

/// The keys of the table are the keys of the list.
pub proof fn lemma_table_keys(entries: Seq<(String, LockedSource)>, key: Seq<char>)
    ensures
        table_of(entries).contains_key(key) <==> exists|i: int|
            0 <= i < entries.len() && (#[trigger] entries[i]).0@ == key,
    decreases entries.len(),
{
    if entries.len() > 0 {
        let front = entries.drop_last();
        lemma_table_keys(front, key);
        if table_of(entries).contains_key(key) {
            if entries.last().0@ == key {
                assert(entries[entries.len() - 1].0@ == key);
            } else {
                let i = choose|i: int| 0 <= i < front.len() && (#[trigger] front[i]).0@ == key;
                assert(entries[i].0@ == key);
            }
        }
        if exists|i: int| 0 <= i < entries.len() && (#[trigger] entries[i]).0@ == key {
            let i = choose|i: int| 0 <= i < entries.len() && (#[trigger] entries[i]).0@ == key;
            if i < entries.len() - 1 {
                assert(front[i].0@ == key);
            }
        }
    }
}

/// Where no key stands twice in a list, none stands twice in the list
/// without its last entry.
pub proof fn lemma_front_keys_distinct(entries: Seq<(String, LockedSource)>)
    requires
        distinct_keys(entries),
        entries.len() > 0,
    ensures
        distinct_keys(entries.drop_last()),
{
    let front = entries.drop_last();
    assert forall|x: int, y: int| 0 <= x < y < front.len() implies (#[trigger] front[x]).0@ != (
    #[trigger] front[y]).0@ by {
        assert(entries[x].0@ != entries[y].0@);
    }
}

/// Under keys that are distinct, the table holds each entry of the list
/// under its key.
pub proof fn lemma_table_entry(entries: Seq<(String, LockedSource)>, i: int)
    requires
        distinct_keys(entries),
        0 <= i < entries.len(),
    ensures
        table_of(entries).contains_key(entries[i].0@),
        table_of(entries)[entries[i].0@] == entries[i].1@,
    decreases entries.len(),
{
    let front = entries.drop_last();
    if i < entries.len() - 1 {
        lemma_front_keys_distinct(entries);
        lemma_table_entry(front, i);
        assert(front[i] == entries[i]);
        assert(entries[i].0@ != entries[entries.len() - 1].0@);
    }
}

/// Replacing the entry at one place of the list, under its own key, puts the
/// new entry under that key and leaves the rest of the table.
pub proof fn lemma_table_update(
    entries: Seq<(String, LockedSource)>,
    i: int,
    key: String,
    entry: LockedSource,
)
    requires
        distinct_keys(entries),
        0 <= i < entries.len(),
        entries[i].0@ == key@,
    ensures
        distinct_keys(entries.update(i, (key, entry))),
        table_of(entries.update(i, (key, entry))) == table_of(entries).insert(key@, entry@),
    decreases entries.len(),
{
    let after = entries.update(i, (key, entry));
    assert forall|x: int, y: int| 0 <= x < y < after.len() implies (#[trigger] after[x]).0@ != (
    #[trigger] after[y]).0@ by {
        assert(entries[x].0@ != entries[y].0@);
    }
    let front = entries.drop_last();
    if i == entries.len() - 1 {
        assert(after.drop_last() =~= front);
        assert(table_of(after) =~= table_of(entries).insert(key@, entry@));
    } else {
        lemma_front_keys_distinct(entries);
        lemma_table_update(front, i, key, entry);
        assert(after.drop_last() =~= front.update(i, (key, entry)));
        assert(after.last() == entries.last());
        assert(entries[i].0@ != entries[entries.len() - 1].0@);
        assert(table_of(after) =~= table_of(entries).insert(key@, entry@));
    }
}

/// The lock table. Insertion order does not matter: the table is the map
/// from key to entry.
///
/// It is kept as a list of keyed entries in which no key stands twice. vstd
/// has no model of how a `String` hashes, so of a hash map with such keys
/// nothing could be proved; of the list, every lookup and every update is.
#[derive(Debug)]
pub struct LockFile {
    sources: Vec<(String, LockedSource)>,
}

impl View for LockFile {
    type V = Map<Seq<char>, LockedText>;

    closed spec fn view(&self) -> Map<Seq<char>, LockedText> {
        table_of(self.sources@)
    }
}

impl LockFile {
    #[verifier::type_invariant]
    spec fn keys_are_distinct(self) -> bool {
        distinct_keys(self.sources@)
    }

    /// The empty table.
    pub fn new() -> (r: LockFile)
        ensures
            r@ == Map::<Seq<char>, LockedText>::empty(),
    {
        LockFile { sources: Vec::new() }
    }

    /// The entry under `key`, if the table holds one.
    pub fn get(&self, key: &str) -> (r: Option<&LockedSource>)
        ensures
            opt_locked(r) == (if self@.contains_key(key@) {
                Some(self@[key@])
            } else {
                None
            }),
    {
        proof {
            use_type_invariant(self);
            lemma_table_keys(self.sources@, key@);
        }
        let mut i: usize = 0;
        while i < self.sources.len()
            invariant
                i <= self.sources.len(),
                distinct_keys(self.sources@),
                forall|j: int| 0 <= j < i ==> (#[trigger] self.sources@[j]).0@ != key@,
            decreases self.sources.len() - i,
        {
            if same_text(self.sources[i].0.as_str(), key) {
                proof {
                    lemma_table_entry(self.sources@, i as int);
                }
                return Some(&self.sources[i].1);
            }
            i += 1;
        }
        None
    }

    /// Puts `source` under `key`, in place of what stood there.
    pub fn set(&mut self, key: String, source: LockedSource)
        ensures
            final(self)@ == old(self)@.insert(key@, source@),
    {
        proof {
            use_type_invariant(&*self);
        }
        let mut taken = LockFile::new();
        std::mem::swap(self, &mut taken);
        let mut sources = taken.sources;
        let mut i: usize = 0;
        while i < sources.len()
            invariant
                i <= sources.len(),
                sources == old(self).sources,
                distinct_keys(sources@),
                forall|j: int| 0 <= j < i ==> (#[trigger] sources@[j]).0@ != key@,
            decreases sources.len() - i,
        {
            if same_text(sources[i].0.as_str(), key.as_str()) {
                proof {
                    lemma_table_update(sources@, i as int, key, source);
                }
                sources.set(i, (key, source));
                *self = LockFile { sources };
                return ;
            }
            i += 1;
        }
        proof {
            let after = sources@.push((key, source));
            assert(after.drop_last() =~= sources@);
            assert(distinct_keys(after));
        }
        sources.push((key, source));
        *self = LockFile { sources };
    }

    /// The keyed entries of the table: each key once, in no order that
    /// matters.
    pub fn entries(&self) -> (r: &Vec<(String, LockedSource)>)
        ensures
            distinct_keys(r@),
            table_of(r@) == self@,
    {
        proof {
            use_type_invariant(self);
        }
        &self.sources
    }
}

impl Default for LockFile {
    fn default() -> (r: LockFile)
        ensures
            r@ == Map::<Seq<char>, LockedText>::empty(),
    {
        LockFile::new()
    }
}

/// The key of a source in the lock table, as text: the address alone where
/// the source has no destination, else the address, a colon and the
/// destination.
pub open spec fn lock_key_text(url: Seq<char>, dest: Option<Seq<char>>) -> Seq<char> {
    match dest {
        Some(d) => url + seq![':'] + d,
        None => url,
    }
}

/// The key of a source in the lock table.
#[must_use]
pub fn lock_key(url: &str, dest: Option<&str>) -> (r: String)
    ensures
        r@ == lock_key_text(url@, opt_str_text(dest)),
{
    match dest {
        Some(d) => {
            proof {
                reveal_strlit(":");
                assert(":"@ =~= seq![':']);
            }
            let mut r = String::from_str(url);
            r.append(":");
            r.append(d);
            r
        },
        None => String::from_str(url),
    }
}

/// A source with a destination and the same source without one never share
/// a key, whatever the destination.
pub proof fn law_lock_key_tells_destination(url: Seq<char>, dest: Seq<char>)
    ensures
        lock_key_text(url, None) != lock_key_text(url, Some(dest)),
{
    assert(lock_key_text(url, Some(dest)).len() == url.len() + 1 + dest.len());
}

/// Under one address, sources with different destinations have different
/// keys.
pub proof fn law_lock_key_injective_in_destination(
    url: Seq<char>,
    first: Option<Seq<char>>,
    second: Option<Seq<char>>,
)
    requires
        lock_key_text(url, first) == lock_key_text(url, second),
    ensures
        first == second,
{
    match (first, second) {
        (Some(a), Some(b)) => {
            let x = lock_key_text(url, first);
            let n: int = url.len() as int + 1;
            assert(x.len() == n + a.len());
            assert(x.len() == n + b.len());
            assert(a =~= x.subrange(n, x.len() as int));
            assert(b =~= x.subrange(n, x.len() as int));
        },
        (Some(a), None) => {
            law_lock_key_tells_destination(url, a);
        },
        (None, Some(b)) => {
            law_lock_key_tells_destination(url, b);
        },
        (None, None) => {},
    }
}

/// Where no address holds a colon, the key tells address and destination:
/// two sources share a key only if they share both.
pub proof fn law_lock_key_injective(
    url: Seq<char>,
    dest: Option<Seq<char>>,
    other_url: Seq<char>,
    other_dest: Option<Seq<char>>,
)
    requires
        !url.contains(':'),
        !other_url.contains(':'),
        lock_key_text(url, dest) == lock_key_text(other_url, other_dest),
    ensures
        url == other_url,
        dest == other_dest,
{
    let x = lock_key_text(url, dest);
    let y = lock_key_text(other_url, other_dest);
    assert(url =~= x.subrange(0, url.len() as int));
    assert(other_url =~= y.subrange(0, other_url.len() as int));
    if url.len() < other_url.len() {
        assert(dest is Some);
        assert(x[url.len() as int] == ':');
        assert(other_url[url.len() as int] == ':');
    }
    if other_url.len() < url.len() {
        assert(other_dest is Some);
        assert(y[other_url.len() as int] == ':');
        assert(url[other_url.len() as int] == ':');
    }
    assert(url =~= other_url);
    law_lock_key_injective_in_destination(url, dest, other_dest);
}

/// Where both sources have a destination and no destination holds a colon,
/// the key tells address and destination, whatever the addresses hold.
pub proof fn law_lock_key_injective_by_destination(
    url: Seq<char>,
    dest: Seq<char>,
    other_url: Seq<char>,
    other_dest: Seq<char>,
)
    requires
        !dest.contains(':'),
        !other_dest.contains(':'),
        lock_key_text(url, Some(dest)) == lock_key_text(other_url, Some(other_dest)),
    ensures
        url == other_url,
        dest == other_dest,
{
    let x = lock_key_text(url, Some(dest));
    let y = lock_key_text(other_url, Some(other_dest));
    assert(x.len() == url.len() + 1 + dest.len());
    assert(y.len() == other_url.len() + 1 + other_dest.len());
    assert(dest =~= x.subrange(url.len() as int + 1, x.len() as int));
    assert(other_dest =~= y.subrange(other_url.len() as int + 1, y.len() as int));
    if url.len() < other_url.len() {
        let k: int = other_url.len() as int;
        assert(y[k] == ':');
        assert(x[k] == dest[k - url.len() - 1]);
    }
    if other_url.len() < url.len() {
        let k: int = url.len() as int;
        assert(x[k] == ':');
        assert(y[k] == other_dest[k - other_url.len() - 1]);
    }
    assert(url =~= x.subrange(0, url.len() as int));
    assert(other_url =~= y.subrange(0, other_url.len() as int));
    assert(url =~= other_url);
    assert(dest =~= other_dest);
}

} // verus!
