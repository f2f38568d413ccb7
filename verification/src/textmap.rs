//! Maps from texts.
use crate::text::text_eq;
use vstd::prelude::*;

verus! {

/// A map from texts: of the entries with one key the first counts.
#[derive(Debug, PartialEq, Eq)]
pub struct TextMap<V> {
    pub entries: Vec<(String, V)>,
}

/// The position of a key, or the number of entries where it is not there.
pub open spec fn key_at<V>(entries: Seq<(String, V)>, key: Seq<char>) -> nat
    decreases entries.len(),
{
    if entries.len() == 0 || entries[0].0@ == key {
        0
    } else {
        1 + key_at(entries.skip(1), key)
    }
}

proof fn lemma_key_at<V>(entries: Seq<(String, V)>, key: Seq<char>)
    ensures
        key_at(entries, key) <= entries.len(),
        key_at(entries, key) < entries.len() ==> entries[key_at(entries, key) as int].0@ == key,
        forall|j: int| 0 <= j < key_at(entries, key) ==> (#[trigger] entries[j]).0@ != key,
    decreases entries.len(),
{
    if entries.len() > 0 && entries[0].0@ != key {
        lemma_key_at(entries.skip(1), key);
        assert forall|j: int| 0 <= j < key_at(entries, key) implies (#[trigger] entries[j]).0@
            != key by {
            if j > 0 {
                assert(entries.skip(1)[j - 1] == entries[j]);
            }
        }
    }
}

/// The map that entries write.
pub open spec fn map_of<V: View>(entries: Seq<(String, V)>) -> Map<Seq<char>, V::V> {
    Map::new(
        |k: Seq<char>| key_at(entries, k) < entries.len(),
        |k: Seq<char>| entries[key_at(entries, k) as int].1@,
    )
}

impl<V: View> View for TextMap<V> {
    type V = Map<Seq<char>, V::V>;

    open spec fn view(&self) -> Map<Seq<char>, V::V> {
        map_of(self.entries@)
    }
}

proof fn lemma_replaced<V: View>(before: Seq<(String, V)>, at: int, entry: (String, V))
    requires
        at == key_at(before, entry.0@),
    ensures
        at < before.len() ==> map_of(before.update(at, entry)) == map_of(before).insert(
            entry.0@,
            entry.1@,
        ),
        at >= before.len() ==> map_of(before.push(entry)) == map_of(before).insert(
            entry.0@,
            entry.1@,
        ),
{
    lemma_key_at(before, entry.0@);
    let now = if at < before.len() {
        before.update(at, entry)
    } else {
        before.push(entry)
    };
    assert(now[at] == entry);
    assert forall|k: Seq<char>| #![trigger key_at(now, k)]
        key_at(now, k) == if k == entry.0@ {
            at as nat
        } else if key_at(before, k) < before.len() {
            key_at(before, k)
        } else {
            now.len()
        } by {
        lemma_key_at(before, k);
        lemma_key_at(now, k);
        let x = key_at(now, k) as int;
        let y = key_at(before, k) as int;
        if x < now.len() && x != at {
            assert(before[x].0@ == k);
        }
        if y < before.len() {
            assert(now[y].0@ == before[y].0@);
        }
    }
    let want = map_of(before).insert(entry.0@, entry.1@);
    assert forall|k: Seq<char>| #![trigger want.dom().contains(k)]
        map_of(now).dom().contains(k) == want.dom().contains(k) && (want.dom().contains(k)
            ==> map_of(now)[k] == want[k]) by {
        lemma_key_at(before, k);
        lemma_key_at(now, k);
        let y = key_at(before, k) as int;
        assert(key_at(now, k) <= now.len());
        if k != entry.0@ && y < before.len() {
            assert(now[y] == before[y]);
        }
    }
    assert(map_of(now) =~= want);
}

proof fn lemma_removed<V: View>(before: Seq<(String, V)>, at: int, other: Seq<char>)
    requires
        0 <= at < before.len(),
        before[at].0@ != other,
    ensures
        ({
            let now = before.remove(at);
            &&& (key_at(now, other) < now.len()) == (key_at(before, other) < before.len())
            &&& key_at(now, other) < now.len() ==> now[key_at(now, other) as int] == before[key_at(
                before,
                other,
            ) as int]
        }),
{
    let now = before.remove(at);
    lemma_key_at(before, other);
    lemma_key_at(now, other);
    let x = key_at(now, other) as int;
    let y = key_at(before, other) as int;
    if y < before.len() {
        let z = if y < at { y } else { y - 1 };
        assert(now[z] == before[y]);
        assert(x <= z);
    }
    if x < now.len() {
        let z = if x < at { x } else { x + 1 };
        assert(now[x] == before[z]);
        assert(y <= z);
    }
}

impl<V: View> TextMap<V> {
    /// The map without entries.
    pub fn new() -> (r: TextMap<V>)
        ensures
            r@ == Map::<Seq<char>, V::V>::empty(),
    {
        let r = TextMap { entries: Vec::new() };
        assert(r@ =~= Map::empty());
        r
    }

    fn find(&self, key: &str) -> (r: usize)
        ensures
            r == key_at(self.entries@, key@),
            r <= self.entries@.len(),
    {
        let mut i: usize = 0;
        assert(self.entries@.skip(0) =~= self.entries@);
        while i < self.entries.len()
            invariant
                i <= self.entries@.len(),
                key_at(self.entries@, key@) == i + key_at(self.entries@.skip(i as int), key@),
            decreases self.entries@.len() - i,
        {
            assert(self.entries@.skip(i as int)[0] == self.entries@[i as int]);
            assert(self.entries@.skip(i as int).skip(1) =~= self.entries@.skip(i + 1));
            if text_eq(self.entries[i].0.as_str(), key) {
                return i;
            }
            i += 1;
        }
        i
    }

    /// What a key stands for.
    pub fn get(&self, key: &str) -> (r: Option<&V>)
        ensures
            match r {
                Some(v) => self@.dom().contains(key@) && self@[key@] == v@,
                None => !self@.dom().contains(key@),
            },
    {
        let at = self.find(key);
        if at < self.entries.len() {
            Some(&self.entries[at].1)
        } else {
            None
        }
    }

    /// Lets a key stand for a value, in place of what it stood for.
    pub fn insert(&mut self, key: String, value: V)
        ensures
            final(self)@ == old(self)@.insert(key@, value@),
    {
        let at = self.find(key.as_str());
        proof {
            lemma_replaced(self.entries@, at as int, (key, value));
        }
        if at < self.entries.len() {
            self.entries[at] = (key, value);
        } else {
            self.entries.push((key, value));
        }
    }

    /// Takes a key out, and gives what it stood for.
    pub fn remove(&mut self, key: &str) -> (r: Option<V>)
        ensures
            final(self)@ == old(self)@.remove(key@),
            match r {
                Some(v) => old(self)@.dom().contains(key@) && v@ == old(self)@[key@],
                None => !old(self)@.dom().contains(key@),
            },
    {
        let ghost start = self.entries@;
        let mut taken: Option<V> = None;
        let mut at = self.find(key);
        while at < self.entries.len()
            invariant
                at == key_at(self.entries@, key@),
                at <= self.entries@.len(),
                taken is None ==> self.entries@ == start,
                taken matches Some(v) ==> map_of(start).dom().contains(key@) && v@
                    == map_of(start)[key@],
                map_of(self.entries@).remove(key@) == map_of(start).remove(key@),
            decreases self.entries@.len(),
        {
            let ghost before = self.entries@;
            proof {
                lemma_key_at(before, key@);
            }
            let (_, value) = self.entries.remove(at);
            if taken.is_none() {
                taken = Some(value);
            }
            proof {
                assert forall|k: Seq<char>| k != key@ implies (#[trigger] map_of(
                    self.entries@,
                ).dom().contains(k) == map_of(before).dom().contains(k)) && (map_of(
                    before,
                ).dom().contains(k) ==> map_of(self.entries@)[k] == map_of(before)[k]) by {
                    lemma_removed(before, at as int, k);
                }
                assert(map_of(self.entries@).remove(key@) =~= map_of(before).remove(key@));
            }
            at = self.find(key);
        }
        assert(map_of(self.entries@).remove(key@) =~= map_of(self.entries@));
        taken
    }

    /// The number of keys.
    pub fn len(&self) -> (r: usize)
        ensures
            r == self@.dom().len(),
    {
        let mut count: usize = 0;
        let mut i: usize = 0;
        let ghost mut seen: Set<Seq<char>> = Set::empty();
        while i < self.entries.len()
            invariant
                i <= self.entries@.len(),
                count <= i,
                seen.finite(),
                count == seen.len(),
                forall|k: Seq<char>|
                    seen.contains(k) <==> exists|j: int|
                        0 <= j < i && (#[trigger] self.entries@[j]).0@ == k,
            decreases self.entries@.len() - i,
        {
            let ghost key = self.entries@[i as int].0@;
            let ghost before = seen;
            let first = self.find(self.entries[i].0.as_str());
            proof {
                lemma_key_at(self.entries@, key);
                if first == i {
                    assert(!before.contains(key));
                    seen = before.insert(key);
                } else {
                    assert(first < i);
                    assert(before.contains(key));
                }
                assert forall|k: Seq<char>| seen.contains(k) <==> exists|j: int|
                    0 <= j < i + 1 && (#[trigger] self.entries@[j]).0@ == k by {
                    if before.contains(k) {
                        let j = choose|j: int| 0 <= j < i && (#[trigger] self.entries@[j]).0@ == k;
                        assert(self.entries@[j].0@ == k);
                    }
                    if k == key {
                        assert(self.entries@[i as int].0@ == k);
                    }
                }
            }
            if first == i {
                count += 1;
            }
            i += 1;
        }
        proof {
            assert forall|k: Seq<char>| self@.dom().contains(k) == seen.contains(k) by {
                lemma_key_at(self.entries@, k);
                if seen.contains(k) {
                    let j = choose|j: int|
                        0 <= j < self.entries@.len() && (#[trigger] self.entries@[j]).0@ == k;
                    assert(self.entries@[j].0@ == k);
                }
                if self@.dom().contains(k) {
                    assert(self.entries@[key_at(self.entries@, k) as int].0@ == k);
                }
            }
            assert(self@.dom() =~= seen);
        }
        count
    }

    /// Whether there are no keys.
    pub fn is_empty(&self) -> (r: bool)
        ensures
            r == (self@ == Map::<Seq<char>, V::V>::empty()),
    {
        proof {
            if self.entries@.len() == 0 {
                assert(self@ =~= Map::empty());
            } else {
                assert(key_at(self.entries@, self.entries@[0].0@) == 0);
                assert(self@.dom().contains(self.entries@[0].0@));
            }
        }
        self.entries.len() == 0
    }
}

} // verus!
