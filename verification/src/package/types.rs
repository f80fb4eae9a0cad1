//! Package metadata, extracted packages, installed packages, dependencies
//! and repositories.

use vstd::prelude::*;

verus! {

/// Whether text `a` comes before text `b`: the order of `String`, which
/// compares character by character (by code point) and puts a prefix
/// first.
pub open spec fn key_less(a: Seq<char>, b: Seq<char>) -> bool
    decreases a.len(),
{
    if a.len() == 0 {
        b.len() > 0
    } else if b.len() == 0 {
        false
    } else if a[0] != b[0] {
        (a[0] as u32) < (b[0] as u32)
    } else {
        key_less(a.drop_first(), b.drop_first())
    }
}

/// Texts in strictly ascending order.
pub open spec fn keys_ascending(s: Seq<Seq<char>>) -> bool {
    forall|i: int, j: int| 0 <= i < j < s.len() ==> key_less(#[trigger] s[i], #[trigger] s[j])
}

/// No text comes before itself.
pub proof fn lemma_key_less_irreflexive(a: Seq<char>)
    ensures
        !key_less(a, a),
    decreases a.len(),
{
    if a.len() > 0 {
        lemma_key_less_irreflexive(a.drop_first());
    }
}

/// Of two different texts, one comes before the other, and not both.
pub proof fn lemma_key_less_total(a: Seq<char>, b: Seq<char>)
    ensures
        a != b ==> key_less(a, b) || key_less(b, a),
        !(key_less(a, b) && key_less(b, a)),
    decreases a.len(),
{
    if a.len() > 0 && b.len() > 0 {
        lemma_key_less_total(a.drop_first(), b.drop_first());
        if a[0] == b[0] && a != b {
            assert(a =~= seq![a[0]] + a.drop_first());
            assert(b =~= seq![b[0]] + b.drop_first());
        }
        if a[0] != b[0] {
            vstd::utf8::char_u32_cast(a[0], a[0] as u32);
            vstd::utf8::char_u32_cast(b[0], b[0] as u32);
            assert((a[0] as u32) != (b[0] as u32));
        }
    } else if a.len() == 0 && b.len() == 0 {
        assert(a =~= b);
    }
}

/// The order is transitive.
pub proof fn lemma_key_less_transitive(a: Seq<char>, b: Seq<char>, c: Seq<char>)
    requires
        key_less(a, b),
        key_less(b, c),
    ensures
        key_less(a, c),
    decreases a.len(),
{
    if a.len() > 0 && b.len() > 0 && c.len() > 0 && a[0] == b[0] && b[0] == c[0] {
        lemma_key_less_transitive(a.drop_first(), b.drop_first(), c.drop_first());
    }
}

/// Comparing texts from position `i` on, after equal prefixes, is
/// comparing them whole.
proof fn lemma_key_less_skip(a: Seq<char>, b: Seq<char>, i: int)
    requires
        0 <= i <= a.len(),
        i <= b.len(),
        a.subrange(0, i) == b.subrange(0, i),
    ensures
        key_less(a, b) == key_less(a.skip(i), b.skip(i)),
    decreases i,
{
    if i > 0 {
        assert(a[0] == a.subrange(0, i)[0]);
        assert(b[0] == b.subrange(0, i)[0]);
        assert(a.drop_first().subrange(0, i - 1) =~= a.subrange(0, i).drop_first());
        assert(b.drop_first().subrange(0, i - 1) =~= b.subrange(0, i).drop_first());
        lemma_key_less_skip(a.drop_first(), b.drop_first(), i - 1);
        assert(a.drop_first().skip(i - 1) =~= a.skip(i));
        assert(b.drop_first().skip(i - 1) =~= b.skip(i));
    } else {
        assert(a.skip(0) =~= a);
        assert(b.skip(0) =~= b);
    }
}

/// Whether `a` comes before `b` (`key_less`).
pub fn str_less(a: &String, b: &str) -> (r: bool)
    ensures
        r == key_less(a@, b@),
{
    let x = crate::package::text::chars_of(a.as_str());
    let y = crate::package::text::chars_of(b);
    let mut i: usize = 0;
    while i < x.len() && i < y.len() && x[i] == y[i]
        invariant
            x@ == a@,
            y@ == b@,
            i <= x@.len(),
            i <= y@.len(),
            x@.subrange(0, i as int) == y@.subrange(0, i as int),
        decreases x@.len() - i,
    {
        assert(x@.subrange(0, i + 1) =~= x@.subrange(0, i as int).push(x@[i as int]));
        assert(y@.subrange(0, i + 1) =~= y@.subrange(0, i as int).push(y@[i as int]));
        i = i + 1;
    }
    proof {
        lemma_key_less_skip(x@, y@, i as int);
    }
    let ghost xs = x@.skip(i as int);
    let ghost ys = y@.skip(i as int);
    if i == x.len() {
        assert(xs.len() == 0);
        i < y.len()
    } else if i == y.len() {
        assert(xs.len() > 0 && ys.len() == 0);
        false
    } else {
        assert(xs[0] == x@[i as int] && ys[0] == y@[i as int]);
        let a_char: char = x[i];
        let b_char: char = y[i];
        let cx: u32 = a_char as u32;
        let cy: u32 = b_char as u32;
        cx < cy
    }
}

/// A map from text keys to values, each key at most once.
#[derive(Debug, Clone)]
pub struct StrMap<V: View> {
    entries: Vec<(String, V)>,
}

impl<V: View> StrMap<V> {
    /// No key occurs twice, and the keys are in ascending order.
    pub closed spec fn wf(&self) -> bool {
        &&& forall|i: int, j: int|
            0 <= i < j < self.entries@.len() ==> #[trigger] self.entries@[i].0@ != #[trigger] self.entries@[j].0@
        &&& forall|i: int, j: int|
            0 <= i < j < self.entries@.len() ==> key_less(#[trigger] self.entries@[i].0@, #[trigger] self.entries@[j].0@)
    }

    /// The index at which key `k` stands.
    closed spec fn index_of(&self, k: Seq<char>) -> int {
        choose|i: int| 0 <= i < self.entries@.len() && self.entries@[i].0@ == k
    }

    /// Whether key `k` is present.
    closed spec fn has(&self, k: Seq<char>) -> bool {
        exists|i: int| 0 <= i < self.entries@.len() && self.entries@[i].0@ == k
    }

    /// The map from keys to the views of their values.
    pub closed spec fn view(&self) -> Map<Seq<char>, V::V> {
        Map::new(|k: Seq<char>| self.has(k), |k: Seq<char>| self.entries@[self.index_of(k)].1@)
    }

    /// The empty map.
    pub fn new() -> (r: Self)
        ensures
            r.wf(),
            r@ == Map::<Seq<char>, V::V>::empty(),
    {
        let r = StrMap { entries: Vec::new() };
        assert(r@ =~= Map::<Seq<char>, V::V>::empty());
        r
    }

    /// The number of keys.
    pub fn len(&self) -> (r: usize)
        requires
            self.wf(),
        ensures
            self@.dom().finite(),
            r == self@.dom().len(),
    {
        proof {
            self.lemma_len();
        }
        self.entries.len()
    }

    /// The map of a well-formed `StrMap` is finite, with one key per entry.
    pub proof fn lemma_len(&self)
        requires
            self.wf(),
        ensures
            self@.dom().len() == self.key_order().len(),
            self@.dom().finite(),
    {
        let keys = self.entries@.map_values(|e: (String, V)| e.0@);
        assert(self@.dom() =~= keys.to_set()) by {
            assert forall|k: Seq<char>| self@.dom().contains(k) implies keys.to_set().contains(k) by {
                let i = self.index_of(k);
                assert(keys[i] == k);
            }
            assert forall|k: Seq<char>| keys.to_set().contains(k) implies self@.dom().contains(k) by {
                let i = choose|i: int| 0 <= i < keys.len() && keys[i] == k;
                assert(self.entries@[i].0@ == k);
            }
        }
        assert(keys.no_duplicates()) by {
            assert forall|i: int, j: int| 0 <= i < keys.len() && 0 <= j < keys.len() && i != j implies keys[i]
                != keys[j] by {
                if i < j {
                    assert(self.entries@[i].0@ != self.entries@[j].0@);
                } else {
                    assert(self.entries@[j].0@ != self.entries@[i].0@);
                }
            }
        }
        keys.unique_seq_to_set();
    }

    /// The position of key `key`, if present.
    fn find(&self, key: &str) -> (r: Option<usize>)
        ensures
            match r {
                Some(i) => i < self.entries@.len() && self.entries@[i as int].0@ == key@,
                None => !self.has(key@),
            },
    {
        let mut i: usize = 0;
        while i < self.entries.len()
            invariant
                i <= self.entries@.len(),
                forall|k: int| 0 <= k < i ==> self.entries@[k].0@ != key@,
            decreases self.entries@.len() - i,
        {
            if str_eq(&self.entries[i].0, key) {
                return Some(i);
            }
            i = i + 1;
        }
        None
    }

    proof fn lemma_index(&self, i: int)
        requires
            self.wf(),
            0 <= i < self.entries@.len(),
        ensures
            self.has(self.entries@[i].0@),
            self.index_of(self.entries@[i].0@) == i,
    {
        let k = self.entries@[i].0@;
        let j = self.index_of(k);
        if j != i {
            if j < i {
                assert(self.entries@[j].0@ != self.entries@[i].0@);
            } else {
                assert(self.entries@[i].0@ != self.entries@[j].0@);
            }
        }
    }

    /// Puts `value` under `key`, in place of what was there.
    pub fn insert(&mut self, key: String, value: V)
        requires
            old(self).wf(),
        ensures
            final(self).wf(),
            final(self)@ == old(self)@.insert(key@, value@),
    {
        let ghost old_self = *self;
        match self.find(key.as_str()) {
            Some(i) => {
                let ghost k = key@;
                self.entries.set(i, (key, value));
                proof {
                    assert forall|a: Seq<char>| #[trigger] self@.dom().contains(a) == old_self@.insert(k, value@).dom().contains(a) by {
                        if self.has(a) {
                            let j = choose|j: int| 0 <= j < self.entries@.len() && self.entries@[j].0@ == a;
                            if j != i {
                                assert(old_self.entries@[j].0@ == a);
                            }
                        }
                        if old_self.has(a) {
                            let j = choose|j: int| 0 <= j < old_self.entries@.len() && old_self.entries@[j].0@ == a;
                            if j != i {
                                assert(self.entries@[j].0@ == a);
                            }
                        }
                    }
                    assert forall|a: Seq<char>| #[trigger] self@.dom().contains(a) implies self@[a] == old_self@.insert(k, value@)[a] by {
                        let j = self.index_of(a);
                        self.lemma_index(j);
                        if j != i {
                            old_self.lemma_index(j);
                        }
                    }
                    assert(self@ =~= old_self@.insert(k, value@));
                }
            },
            None => {
                let ghost k = key@;
                let mut p: usize = 0;
                while p < self.entries.len() && str_less(&self.entries[p].0, key.as_str())
                    invariant
                        p <= self.entries@.len(),
                        self.entries@ == old_self.entries@,
                        k == key@,
                        forall|j: int| 0 <= j < p ==> key_less(#[trigger] self.entries@[j].0@, k),
                    decreases self.entries@.len() - p,
                {
                    p = p + 1;
                }
                let ghost olds = old_self.entries@;
                proof {
                    assert(!old_self.has(k));
                    assert forall|j: int| p <= j < olds.len() implies key_less(k, #[trigger] olds[j].0@) by {
                        lemma_key_less_total(olds[p as int].0@, k);
                        assert(olds[p as int].0@ != k);
                        if j > p {
                            lemma_key_less_transitive(k, olds[p as int].0@, olds[j].0@);
                        }
                    }
                }
                self.entries.insert(p, (key, value));
                proof {
                    let news = self.entries@;
                    assert(news == olds.insert(p as int, news[p as int]));
                    assert(news[p as int].0@ == k);
                    assert forall|x: int, y: int| 0 <= x < y < news.len() implies key_less(#[trigger] news[x].0@, #[trigger] news[y].0@) by {
                        if y < p {
                            assert(key_less(olds[x].0@, olds[y].0@));
                        } else if x > p {
                            assert(key_less(olds[x - 1].0@, olds[y - 1].0@));
                        } else if x == p {
                            assert(key_less(k, olds[y - 1].0@));
                        } else if y == p {
                            assert(key_less(olds[x].0@, k));
                        } else {
                            lemma_key_less_transitive(olds[x].0@, k, olds[y - 1].0@);
                        }
                    }
                    assert forall|x: int, y: int| 0 <= x < y < news.len() implies #[trigger] news[x].0@ != #[trigger] news[y].0@ by {
                        assert(key_less(news[x].0@, news[y].0@));
                        lemma_key_less_irreflexive(news[x].0@);
                    }
                    assert forall|a: Seq<char>| #[trigger] self@.dom().contains(a) == old_self@.insert(k, value@).dom().contains(a) by {
                        if self.has(a) {
                            let j = choose|j: int| 0 <= j < news.len() && news[j].0@ == a;
                            if j < p {
                                assert(olds[j].0@ == a);
                            } else if j > p {
                                assert(olds[j - 1].0@ == a);
                            }
                        }
                        if old_self.has(a) {
                            let j = choose|j: int| 0 <= j < olds.len() && olds[j].0@ == a;
                            if j < p {
                                assert(news[j].0@ == a);
                            } else {
                                assert(news[j + 1].0@ == a);
                            }
                        }
                        if a == k {
                            assert(news[p as int].0@ == a);
                        }
                    }
                    assert forall|a: Seq<char>| #[trigger] self@.dom().contains(a) implies self@[a] == old_self@.insert(k, value@)[a] by {
                        let j = self.index_of(a);
                        self.lemma_index(j);
                        if j < p {
                            old_self.lemma_index(j);
                        } else if j > p {
                            old_self.lemma_index(j - 1);
                        }
                    }
                    assert(self@ =~= old_self@.insert(k, value@));
                }
            },
        }
    }

    /// The value under `key`.
    pub fn get(&self, key: &str) -> (r: Option<&V>)
        requires
            self.wf(),
        ensures
            match r {
                Some(v) => self@.dom().contains(key@) && v@ == self@[key@],
                None => !self@.dom().contains(key@),
            },
    {
        match self.find(key) {
            Some(i) => {
                proof {
                    self.lemma_index(i as int);
                }
                Some(&self.entries[i].1)
            },
            None => None,
        }
    }

    /// Takes the value under `key` out of the map.
    pub fn remove(&mut self, key: &str) -> (r: Option<V>)
        requires
            old(self).wf(),
        ensures
            final(self).wf(),
            match r {
                Some(v) => old(self)@.dom().contains(key@) && v@ == old(self)@[key@],
                None => !old(self)@.dom().contains(key@),
            },
            final(self)@ == old(self)@.remove(key@),
    {
        let ghost old_self = *self;
        match self.find(key) {
            Some(i) => {
                proof {
                    old_self.lemma_index(i as int);
                }
                let (_, v) = self.entries.remove(i);
                proof {
                    let k = key@;
                    assert forall|a: Seq<char>| #[trigger] self@.dom().contains(a) == old_self@.remove(k).dom().contains(a) by {
                        if self.has(a) {
                            let j = choose|j: int| 0 <= j < self.entries@.len() && self.entries@[j].0@ == a;
                            if j < i {
                                assert(old_self.entries@[j].0@ == a);
                                assert(old_self.entries@[j].0@ != old_self.entries@[i as int].0@);
                            } else {
                                assert(old_self.entries@[j + 1].0@ == a);
                                assert(old_self.entries@[i as int].0@ != old_self.entries@[j + 1].0@);
                            }
                        }
                        if old_self.has(a) && a != k {
                            let j = choose|j: int| 0 <= j < old_self.entries@.len() && old_self.entries@[j].0@ == a;
                            if j < i {
                                assert(self.entries@[j].0@ == a);
                            } else {
                                assert(j != i);
                                assert(self.entries@[j - 1].0@ == a);
                            }
                        }
                    }
                    assert forall|a: Seq<char>| #[trigger] self@.dom().contains(a) implies self@[a] == old_self@.remove(k)[a] by {
                        let j = self.index_of(a);
                        self.lemma_index(j);
                        if j < i {
                            old_self.lemma_index(j);
                        } else {
                            old_self.lemma_index(j + 1);
                        }
                    }
                    assert(self@ =~= old_self@.remove(k));
                }
                Some(v)
            },
            None => {
                proof {
                    assert(self@ =~= old_self@.remove(key@));
                }
                None
            },
        }
    }

    /// Removes every key.
    pub fn clear(&mut self)
        ensures
            final(self).wf(),
            final(self)@ == Map::<Seq<char>, V::V>::empty(),
    {
        self.entries = Vec::new();
        assert(self@ =~= Map::<Seq<char>, V::V>::empty());
    }

    /// The keys, in ascending order (`lemma_key_order`).
    pub closed spec fn key_order(&self) -> Seq<Seq<char>> {
        self.entries@.map_values(|e: (String, V)| e.0@)
    }

    /// The key order of a well-formed map lists each key once, in
    /// ascending order.
    pub proof fn lemma_key_order(&self)
        requires
            self.wf(),
        ensures
            keys_ascending(self.key_order()),
            self.key_order().no_duplicates(),
            self.key_order().to_set() == self@.dom(),
            self.key_order().len() == self@.dom().len(),
    {
        self.lemma_len();
        let keys = self.key_order();
        assert(keys_ascending(keys)) by {
            assert forall|i: int, j: int| 0 <= i < j < keys.len() implies key_less(#[trigger] keys[i], #[trigger] keys[j]) by {
                assert(key_less(self.entries@[i].0@, self.entries@[j].0@));
            }
        }
        assert(keys.no_duplicates()) by {
            assert forall|i: int, j: int| 0 <= i < keys.len() && 0 <= j < keys.len() && i != j implies keys[i]
                != keys[j] by {
                if i < j {
                    assert(self.entries@[i].0@ != self.entries@[j].0@);
                } else {
                    assert(self.entries@[j].0@ != self.entries@[i].0@);
                }
            }
        }
        assert(self@.dom() =~= keys.to_set()) by {
            assert forall|k: Seq<char>| self@.dom().contains(k) implies keys.to_set().contains(k) by {
                let i = self.index_of(k);
                assert(keys[i] == k);
            }
            assert forall|k: Seq<char>| keys.to_set().contains(k) implies self@.dom().contains(k) by {
                let i = choose|i: int| 0 <= i < keys.len() && keys[i] == k;
                assert(self.entries@[i].0@ == k);
            }
        }
    }

    /// The values, in ascending order of their keys (`key_order`).
    pub fn values(&self) -> (r: Vec<&V>)
        requires
            self.wf(),
        ensures
            keys_ascending(self.key_order()),
            self.key_order().no_duplicates(),
            self.key_order().to_set() == self@.dom(),
            r@.len() == self.key_order().len(),
            forall|i: int| 0 <= i < r@.len() ==> #[trigger] r@[i]@ == self@[self.key_order()[i]],
    {
        proof {
            self.lemma_key_order();
        }
        let mut out: Vec<&V> = Vec::new();
        let mut i: usize = 0;
        while i < self.entries.len()
            invariant
                i <= self.entries@.len(),
                out@.len() == i,
                self.wf(),
                forall|j: int| 0 <= j < i ==> out@[j] == &self.entries@[j].1,
            decreases self.entries@.len() - i,
        {
            out.push(&self.entries[i].1);
            i = i + 1;
        }
        proof {
            assert forall|j: int| 0 <= j < out@.len() implies #[trigger] out@[j]@ == self@[self.key_order()[j]] by {
                self.lemma_index(j);
            }
        }
        out
    }
}

/// Whether two texts are equal.
pub fn str_eq(a: &String, b: &str) -> (r: bool)
    ensures
        r == (a@ == b@),
{
    let x = crate::package::text::chars_of(a.as_str());
    let y = crate::package::text::chars_of(b);
    if x.len() != y.len() {
        return false;
    }
    let mut i: usize = 0;
    while i < x.len()
        invariant
            x@ == a@,
            y@ == b@,
            x@.len() == y@.len(),
            i <= x@.len(),
            forall|k: int| 0 <= k < i ==> x@[k] == y@[k],
        decreases x@.len() - i,
    {
        if x[i] != y[i] {
            return false;
        }
        i = i + 1;
    }
    assert(a@ =~= b@);
    true
}

/// Files by path.
pub type FileMap = StrMap<Vec<u8>>;

/// Control scripts by name.
pub type ScriptMap = StrMap<String>;

/// Metadata of a package.
#[derive(Debug, Clone)]
pub struct PackageMetadata {
    pub name: String,
    pub version: String,
    pub architecture: String,
    pub description: String,
    pub maintainer: Option<String>,
    pub homepage: Option<String>,
    pub dependencies: Vec<String>,
    pub size: u64,
    pub installed_size: u64,
}

impl PackageMetadata {
    /// Metadata with the given name, version and architecture and nothing
    /// else.
    pub fn new(name: String, version: String, architecture: String) -> (r: Self)
        ensures
            r.name == name,
            r.version == version,
            r.architecture == architecture,
            r.description@ == Seq::<char>::empty(),
            r.maintainer is None,
            r.homepage is None,
            r.dependencies@ == Seq::<String>::empty(),
            r.size == 0,
            r.installed_size == 0,
    {
        PackageMetadata {
            name,
            version,
            architecture,
            description: String::new(),
            maintainer: None,
            homepage: None,
            dependencies: Vec::new(),
            size: 0,
            installed_size: 0,
        }
    }
}

/// An extracted package: metadata, files by path and control scripts by
/// name.
#[derive(Debug, Clone)]
pub struct ExtractedPackage {
    pub metadata: PackageMetadata,
    pub files: FileMap,
    pub scripts: ScriptMap,
}

impl ExtractedPackage {
    /// The file and script maps are well formed.
    pub open spec fn wf(&self) -> bool {
        self.files.wf() && self.scripts.wf()
    }

    /// A package with no files and no scripts.
    pub fn new(metadata: PackageMetadata) -> (r: Self)
        ensures
            r.wf(),
            r.metadata == metadata,
            r.files@ == Map::<Seq<char>, Seq<u8>>::empty(),
            r.scripts@ == Map::<Seq<char>, Seq<char>>::empty(),
    {
        ExtractedPackage { metadata, files: StrMap::new(), scripts: StrMap::new() }
    }

    /// Adds a file, in place of one at the same path.
    pub fn add_file(&mut self, path: String, data: Vec<u8>)
        requires
            old(self).wf(),
        ensures
            final(self).wf(),
            final(self).files@ == old(self).files@.insert(path@, data@),
            final(self).scripts@ == old(self).scripts@,
            final(self).metadata == old(self).metadata,
    {
        self.files.insert(path, data);
    }

    /// Adds a control script, in place of one with the same name.
    pub fn add_script(&mut self, name: String, content: String)
        requires
            old(self).wf(),
        ensures
            final(self).wf(),
            final(self).scripts@ == old(self).scripts@.insert(name@, content@),
            final(self).files@ == old(self).files@,
            final(self).metadata == old(self).metadata,
    {
        self.scripts.insert(name, content);
    }
}

/// States of an installed package.
#[derive(Debug, Clone, Copy, PartialEq, Eq, Structural)]
pub enum PackageStatus {
    Installed,
    PartiallyInstalled,
    MarkedForRemoval,
    ConfigPending,
}

/// An installed package.
#[derive(Debug, Clone)]
pub struct PackageInfo {
    pub metadata: PackageMetadata,
    pub install_time: u64,
    pub installed_files: Vec<String>,
    pub status: PackageStatus,
}

/// A dependency on another package.
#[derive(Debug, Clone)]
pub struct Dependency {
    pub name: String,
    pub version_constraint: Option<String>,
    pub optional: bool,
}

impl Dependency {
    /// A required dependency with no version constraint.
    pub fn new(name: String) -> (r: Self)
        ensures
            r.name == name,
            r.version_constraint is None,
            !r.optional,
    {
        Dependency { name, version_constraint: None, optional: false }
    }

    /// A required dependency with a version constraint.
    pub fn with_version(name: String, version: String) -> (r: Self)
        ensures
            r.name == name,
            r.version_constraint == Some(version),
            !r.optional,
    {
        Dependency { name, version_constraint: Some(version), optional: false }
    }
}

/// Kinds of repositories.
#[derive(Debug, Clone, Copy, PartialEq, Eq, Structural)]
pub enum RepositoryType {
    Apt,
    Dnf,
    Pacman,
    Apk,
    Custom,
}

/// A package repository.
#[derive(Debug, Clone)]
pub struct Repository {
    pub name: String,
    pub url: String,
    pub repo_type: RepositoryType,
    pub enabled: bool,
}

} // verus!
