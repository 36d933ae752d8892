//! Sets of texts and maps keyed by texts, in the order of insertion.
use vstd::prelude::*;
use crate::models::copies_faithfully;
use crate::text::{clone_texts, same_text, text_in, texts};

verus! {

/// A set of texts.
#[derive(Debug)]
pub struct TextSet {
    items: Vec<String>,
}

impl View for TextSet {
    type V = Set<Seq<char>>;

    closed spec fn view(&self) -> Set<Seq<char>> {
        texts(self.items@).to_set()
    }
}

impl Clone for TextSet {
    fn clone(&self) -> (copy: Self)
        ensures
            copy@ == self@,
    {
        proof {
            use_type_invariant(&*self);
        }
        TextSet { items: clone_texts(&self.items) }
    }
}

impl TextSet {
    #[verifier::type_invariant]
    spec fn distinct(self) -> bool {
        texts(self.items@).no_duplicates()
    }

    pub fn new() -> (set: Self)
        ensures
            set@ == Set::<Seq<char>>::empty(),
    {
        let set = TextSet { items: Vec::new() };
        assert(set@ =~= Set::<Seq<char>>::empty());
        set
    }

    pub fn len(&self) -> (n: usize)
        ensures
            n == self@.len(),
            self@.finite(),
    {
        proof {
            use_type_invariant(&*self);
            texts(self.items@).unique_seq_to_set();
        }
        self.items.len()
    }

    pub fn contains(&self, text: &str) -> (yes: bool)
        ensures
            yes == self@.contains(text@),
    {
        text_in(&self.items, text)
    }

    /// The texts of the set, each once.
    pub fn items(&self) -> (list: Vec<String>)
        ensures
            texts(list@).to_set() == self@,
            texts(list@).no_duplicates(),
    {
        proof {
            use_type_invariant(&*self);
        }
        clone_texts(&self.items)
    }

    pub fn insert(&mut self, text: String)
        ensures
            final(self)@ == old(self)@.insert(text@),
    {
        proof {
            use_type_invariant(&*self);
        }
        if text_in(&self.items, text.as_str()) {
            assert(self@.insert(text@) =~= self@);
            return ;
        }
        let mut items: Vec<String> = Vec::new();
        core::mem::swap(&mut items, &mut self.items);
        let ghost before = items@;
        items.push(text);
        proof {
            assert(texts(items@) =~= texts(before).push(text@));
            assert(texts(items@).to_set() =~= texts(before).to_set().insert(text@)) by {
                assert forall|t: Seq<char>| texts(before).to_set().insert(text@).contains(
                    t,
                ) implies texts(items@).contains(t) by {
                    if t == text@ {
                        assert(texts(items@)[before.len() as int] == t);
                    } else {
                        let i = choose|i: int| 0 <= i < texts(before).len() && texts(before)[i] == t;
                        assert(texts(items@)[i] == t);
                    }
                }
            }
        }
        self.items = items;
    }

    /// Drops the texts that `keep` does not hold of.
    pub fn retain<F: Fn(&String) -> bool>(
        &mut self,
        keep: F,
        Ghost(kept): Ghost<spec_fn(Seq<char>) -> bool>,
    )
        requires
            forall|t: &String| #[trigger] keep.requires((t,)),
            forall|t: &String, r: bool| #[trigger] keep.ensures((t,), r) ==> r == kept(t@),
        ensures
            final(self)@ == old(self)@.filter(kept),
    {
        proof {
            use_type_invariant(&*self);
        }
        let mut all: Vec<String> = Vec::new();
        core::mem::swap(&mut all, &mut self.items);
        let mut items: Vec<String> = Vec::new();
        let mut i: usize = 0;
        while i < all.len()
            invariant
                i <= all@.len(),
                texts(all@).no_duplicates(),
                texts(items@).no_duplicates(),
                forall|t: &String| #[trigger] keep.requires((t,)),
                forall|t: &String, r: bool| #[trigger] keep.ensures((t,), r) ==> r == kept(t@),
                forall|t: Seq<char>|
                    #[trigger] texts(items@).contains(t) <==> kept(t) && exists|j: int|
                        0 <= j < i && #[trigger] texts(all@)[j] == t,
            decreases all@.len() - i,
        {
            let ghost before = items@;
            assert(texts(all@)[i as int] == all@[i as int]@);
            let stays = keep(&all[i]);
            if stays {
                items.push(all[i].clone());
                assert(texts(items@) =~= texts(before).push(all@[i as int]@));
            }
            proof {
                assert forall|t: Seq<char>|
                    #[trigger] texts(items@).contains(t) <==> kept(t) && exists|j: int|
                        0 <= j < i + 1 && #[trigger] texts(all@)[j] == t by {
                    if texts(items@).contains(t) {
                        let k = choose|k: int| 0 <= k < items@.len() && texts(items@)[k] == t;
                        if k < before.len() {
                            assert(texts(before)[k] == t);
                            assert(texts(before).contains(t));
                        } else {
                            assert(texts(all@)[i as int] == t);
                        }
                    }
                    if kept(t) && exists|j: int| 0 <= j < i + 1 && #[trigger] texts(all@)[j] == t {
                        let j = choose|j: int| 0 <= j < i + 1 && #[trigger] texts(all@)[j] == t;
                        if j < i {
                            assert(texts(before).contains(t));
                            let k = choose|k: int| 0 <= k < before.len() && texts(before)[k] == t;
                            assert(texts(items@)[k] == t);
                        } else {
                            assert(texts(items@)[before.len() as int] == t);
                        }
                    }
                }
                if stays {
                    assert(!texts(before).contains(all@[i as int]@)) by {
                        if texts(before).contains(all@[i as int]@) {
                            let j = choose|j: int|
                                0 <= j < i && #[trigger] texts(all@)[j] == all@[i as int]@;
                            assert(texts(all@)[j] != texts(all@)[i as int]);
                        }
                    }
                }
            }
            i = i + 1;
        }
        proof {
            assert(texts(items@).to_set() =~= texts(all@).to_set().filter(kept)) by {
                assert forall|t: Seq<char>| texts(items@).to_set().contains(t) <==> texts(
                    all@,
                ).to_set().filter(kept).contains(t) by {
                    assert(texts(items@).contains(t) <==> kept(t) && exists|j: int|
                        0 <= j < i && #[trigger] texts(all@)[j] == t);
                }
            }
        }
        self.items = items;
    }

    pub fn remove(&mut self, text: &str)
        ensures
            final(self)@ == old(self)@.remove(text@),
    {
        let ghost before = self@;
        let ghost kept = |t: Seq<char>| t != text@;
        let keep = |t: &String| -> (r: bool)
            ensures
                r == (t@ != text@),
            { !same_text(t.as_str(), text) };
        self.retain(keep, Ghost(kept));
        assert(before.filter(kept) =~= before.remove(text@));
    }
}

#[derive(Debug)]
struct Entry<V> {
    key: String,
    value: V,
}

/// A map from texts to values.
#[derive(Debug)]
pub struct TextMap<V> {
    entries: Vec<Entry<V>>,
}

spec fn keys<V>(entries: Seq<Entry<V>>) -> Seq<Seq<char>> {
    entries.map_values(|e: Entry<V>| e.key@)
}

spec fn as_map<V: View>(entries: Seq<Entry<V>>) -> Map<Seq<char>, V::V> {
    Map::new(
        |k: Seq<char>| keys(entries).contains(k),
        |k: Seq<char>| entries[keys(entries).index_of(k)].value@,
    )
}

impl<V: View> View for TextMap<V> {
    type V = Map<Seq<char>, V::V>;

    closed spec fn view(&self) -> Map<Seq<char>, V::V> {
        as_map(self.entries@)
    }
}

proof fn lemma_entry<V: View>(entries: Seq<Entry<V>>, i: int)
    requires
        keys(entries).no_duplicates(),
        0 <= i < entries.len(),
    ensures
        as_map(entries).contains_key(entries[i].key@),
        as_map(entries)[entries[i].key@] == entries[i].value@,
{
    let k = entries[i].key@;
    assert(keys(entries)[i] == k);
    let j = keys(entries).index_of(k);
    assert(keys(entries)[j] == k);
}

impl<V> TextMap<V> {
    #[verifier::type_invariant]
    spec fn distinct(self) -> bool {
        keys(self.entries@).no_duplicates()
    }
}

impl<V: View> TextMap<V> {
    pub fn new() -> (map: Self)
        ensures
            map@ == Map::<Seq<char>, V::V>::empty(),
    {
        let map = TextMap { entries: Vec::new() };
        assert(map@ =~= Map::<Seq<char>, V::V>::empty());
        map
    }

    fn position(&self, key: &str) -> (at: Option<usize>)
        ensures
            match at {
                Some(i) => i < self.entries@.len() && self.entries@[i as int].key@ == key@,
                None => !self@.contains_key(key@),
            },
    {
        let mut i: usize = 0;
        while i < self.entries.len()
            invariant
                i <= self.entries@.len(),
                forall|j: int| 0 <= j < i ==> (#[trigger] self.entries@[j]).key@ != key@,
            decreases self.entries@.len() - i,
        {
            if same_text(self.entries[i].key.as_str(), key) {
                return Some(i);
            }
            i = i + 1;
        }
        assert(!keys(self.entries@).contains(key@)) by {
            if keys(self.entries@).contains(key@) {
                let j = choose|j: int|
                    0 <= j < keys(self.entries@).len() && keys(self.entries@)[j] == key@;
                assert(self.entries@[j].key@ == key@);
            }
        }
        None
    }

    pub fn contains_key(&self, key: &str) -> (yes: bool)
        ensures
            yes == self@.contains_key(key@),
    {
        proof {
            use_type_invariant(&*self);
        }
        match self.position(key) {
            Some(i) => {
                proof {
                    lemma_entry(self.entries@, i as int);
                }
                true
            },
            None => false,
        }
    }

    pub fn get(&self, key: &str) -> (value: Option<&V>)
        ensures
            match value {
                Some(v) => self@.contains_key(key@) && self@[key@] == v@,
                None => !self@.contains_key(key@),
            },
    {
        proof {
            use_type_invariant(&*self);
        }
        match self.position(key) {
            Some(i) => {
                proof {
                    lemma_entry(self.entries@, i as int);
                }
                Some(&self.entries[i].value)
            },
            None => None,
        }
    }

    pub fn len(&self) -> (n: usize)
        ensures
            n == self@.dom().len(),
            self@.dom().finite(),
    {
        proof {
            use_type_invariant(&*self);
            keys(self.entries@).unique_seq_to_set();
            assert(self@.dom() =~= keys(self.entries@).to_set());
        }
        self.entries.len()
    }

    /// The keys of the map, each once.
    pub fn keys(&self) -> (list: Vec<String>)
        ensures
            texts(list@).to_set() == self@.dom(),
            texts(list@).no_duplicates(),
    {
        proof {
            use_type_invariant(&*self);
        }
        let mut list: Vec<String> = Vec::new();
        let mut i: usize = 0;
        while i < self.entries.len()
            invariant
                i <= self.entries@.len(),
                texts(list@) == keys(self.entries@).take(i as int),
            decreases self.entries@.len() - i,
        {
            let ghost before = list@;
            list.push(self.entries[i].key.clone());
            assert(texts(list@) =~= texts(before).push(self.entries@[i as int].key@));
            assert(keys(self.entries@).take(i + 1) =~= keys(self.entries@).take(i as int).push(
                self.entries@[i as int].key@,
            ));
            i = i + 1;
        }
        assert(keys(self.entries@).take(i as int) =~= keys(self.entries@));
        assert(texts(list@).to_set() =~= self@.dom());
        list
    }

    pub fn insert(&mut self, key: String, value: V)
        ensures
            final(self)@ == old(self)@.insert(key@, value@),
    {
        proof {
            use_type_invariant(&*self);
        }
        let at = self.position(key.as_str());
        let ghost map = self@;
        let mut entries: Vec<Entry<V>> = Vec::new();
        core::mem::swap(&mut entries, &mut self.entries);
        let ghost before = entries@;
        match at {
            Some(i) => {
                entries[i] = Entry { key, value };
                proof {
                    assert(keys(entries@) =~= keys(before));
                    assert(as_map(entries@) =~= map.insert(key@, value@)) by {
                        lemma_entry(before, i as int);
                        lemma_entry(entries@, i as int);
                        assert forall|k: Seq<char>| map.contains_key(k) && k != key@ implies as_map(
                            entries@,
                        )[k] == map[k] by {
                            let j = keys(before).index_of(k);
                            assert(keys(before)[j] == k);
                            lemma_entry(before, j);
                            lemma_entry(entries@, j);
                        }
                    }
                }
            },
            None => {
                entries.push(Entry { key, value });
                proof {
                    assert(keys(entries@) =~= keys(before).push(key@));
                    let n = before.len() as int;
                    assert(keys(entries@).no_duplicates());
                    assert(as_map(entries@) =~= map.insert(key@, value@)) by {
                        lemma_entry(entries@, n);
                        assert forall|k: Seq<char>|
                            #[trigger] map.contains_key(k) implies as_map(entries@).contains_key(k)
                            && as_map(entries@)[k] == map[k] by {
                            let j = keys(before).index_of(k);
                            assert(keys(before)[j] == k);
                            lemma_entry(before, j);
                            lemma_entry(entries@, j);
                        }
                        assert forall|k: Seq<char>|
                            #[trigger] as_map(entries@).contains_key(k) && k != key@
                                implies map.contains_key(k) by {
                            let j = keys(entries@).index_of(k);
                            assert(keys(entries@)[j] == k);
                            assert(keys(before)[j] == k);
                        }
                    }
                }
            },
        }
        self.entries = entries;
    }

    pub fn remove(&mut self, key: &str)
        ensures
            final(self)@ == old(self)@.remove(key@),
    {
        proof {
            use_type_invariant(&*self);
        }
        let at = self.position(key);
        let ghost map = self@;
        match at {
            Some(i) => {
                let mut entries: Vec<Entry<V>> = Vec::new();
                core::mem::swap(&mut entries, &mut self.entries);
                let ghost before = entries@;
                entries.remove(i);
                proof {
                    assert(keys(entries@) =~= keys(before).remove(i as int));
                    assert(keys(entries@).no_duplicates()) by {
                        assert forall|a: int, b: int|
                            0 <= a < entries@.len() && 0 <= b < entries@.len() && a
                                != b implies keys(entries@)[a] != keys(entries@)[b] by {
                            let a2 = if a < i { a } else { a + 1 };
                            let b2 = if b < i { b } else { b + 1 };
                            assert(keys(before)[a2] != keys(before)[b2]);
                        }
                    }
                    assert(as_map(entries@) =~= map.remove(key@)) by {
                        assert forall|k: Seq<char>|
                            #[trigger] as_map(entries@).contains_key(k) implies map.contains_key(k)
                            && k != key@ && as_map(entries@)[k] == map[k] by {
                            let j = keys(entries@).index_of(k);
                            assert(keys(entries@)[j] == k);
                            let j2 = if j < i { j } else { j + 1 };
                            assert(keys(before)[j2] == k);
                            assert(keys(before)[j2] != keys(before)[i as int]);
                            lemma_entry(entries@, j);
                            lemma_entry(before, j2);
                        }
                        assert forall|k: Seq<char>|
                            #[trigger] map.contains_key(k) && k != key@ implies as_map(
                            entries@,
                        ).contains_key(k) by {
                            let j = keys(before).index_of(k);
                            assert(keys(before)[j] == k);
                            assert(j != i);
                            let j2 = if j < i { j } else { j - 1 };
                            assert(keys(entries@)[j2] == k);
                        }
                    }
                }
                self.entries = entries;
            },
            None => {
                assert(map.remove(key@) =~= map);
            },
        }
    }

    /// Drops entries until at most `cap` are left.
    pub fn cap(&mut self, cap: usize)
        ensures
            final(self)@.submap_of(old(self)@),
            final(self)@.dom().finite(),
            final(self)@.dom().len() == if old(self)@.dom().len() <= cap {
                old(self)@.dom().len()
            } else {
                cap as nat
            },
            old(self)@.dom().len() <= cap ==> final(self)@ == old(self)@,
    {
        let mut n: usize = self.len();
        while n > cap
            invariant
                n == self@.dom().len(),
                self@.dom().finite(),
                self@.submap_of(old(self)@),
                old(self)@.dom().len() <= cap ==> self@ == old(self)@,
                n >= cap || n == old(self)@.dom().len(),
                n <= old(self)@.dom().len(),
            decreases n,
        {
            let list = self.keys();
            proof {
                texts(list@).unique_seq_to_set();
                assert(texts(list@)[0] == list@[0]@);
                assert(texts(list@).to_set().contains(list@[0]@));
            }
            self.remove(list[0].as_str());
            n = n - 1;
        }
    }

    pub fn copy(&self) -> (map: Self) where V: Clone
        requires
            copies_faithfully::<V>(),
        ensures
            map@ == self@,
    {
        proof {
            use_type_invariant(&*self);
        }
        let mut entries: Vec<Entry<V>> = Vec::new();
        let mut i: usize = 0;
        while i < self.entries.len()
            invariant
                i <= self.entries@.len(),
                copies_faithfully::<V>(),
                entries@.len() == i,
                keys(self.entries@).no_duplicates(),
                forall|j: int|
                    0 <= j < i ==> (#[trigger] entries@[j]).key@ == self.entries@[j].key@
                        && entries@[j].value@ == self.entries@[j].value@,
            decreases self.entries@.len() - i,
        {
            entries.push(
                Entry {
                    key: self.entries[i].key.clone(),
                    value: self.entries[i].value.clone(),
                },
            );
            i = i + 1;
        }
        proof {
            assert(keys(entries@) =~= keys(self.entries@));
            assert(as_map(entries@) =~= as_map(self.entries@)) by {
                assert forall|k: Seq<char>|
                    #[trigger] as_map(entries@).contains_key(k) implies as_map(entries@)[k]
                    == as_map(self.entries@)[k] by {
                    let j = keys(entries@).index_of(k);
                    assert(keys(entries@)[j] == k);
                    lemma_entry(entries@, j);
                    lemma_entry(self.entries@, j);
                }
            }
        }
        TextMap { entries }
    }
}

} // verus!
