//! The database of installed packages, keyed by package name, and the
//! cache of downloaded package files, keyed by `name-version`.

use vstd::prelude::*;
use crate::package::{PackageError, PackageResult, not_found};
use crate::package::types::{PackageInfo, PackageStatus, StrMap, FileMap, keys_ascending};
use vstd::string::StringExecFns;

verus! {

impl View for PackageInfo {
    type V = PackageInfo;

    open spec fn view(&self) -> PackageInfo {
        *self
    }
}

/// Whether `p` occurs in `s` as a contiguous run.
pub open spec fn contains_text(s: Seq<char>, p: Seq<char>) -> bool {
    exists|i: int| 0 <= i && i + p.len() <= s.len() && #[trigger] s.subrange(i, i + p.len()) == p
}

/// Whether `p` occurs in `s`.
pub fn text_contains(s: &String, p: &str) -> (r: bool)
    ensures
        r == contains_text(s@, p@),
{
    let a = crate::package::text::chars_of(s.as_str());
    let b = crate::package::text::chars_of(p);
    let n = a.len();
    let m = b.len();
    if m > n {
        proof {
            assert forall|i: int| 0 <= i && i + m <= n implies #[trigger] a@.subrange(i, i + m) != b@ by {}
        }
        return false;
    }
    let mut i: usize = 0;
    while i <= n - m
        invariant
            a@ == s@,
            b@ == p@,
            n == a@.len(),
            m == b@.len(),
            m <= n,
            i <= n - m + 1,
            forall|k: int| 0 <= k < i ==> #[trigger] a@.subrange(k, k + m) != b@,
        decreases n - m + 1 - i,
    {
        let mut j: usize = 0;
        while j < m
            invariant
                a@ == s@,
                b@ == p@,
                n == a@.len(),
                m == b@.len(),
                i + m <= n,
                j <= m,
                forall|k: int| 0 <= k < j ==> a@[i + k] == b@[k],
            ensures
                j <= m,
                forall|k: int| 0 <= k < j ==> a@[i + k] == b@[k],
                j < m ==> a@[i + j] != b@[j as int],
            decreases m - j,
        {
            if a[i + j] != b[j] {
                break;
            }
            j = j + 1;
        }
        if j == m {
            assert(a@.subrange(i as int, i + m) =~= b@);
            return true;
        }
        assert(a@.subrange(i as int, i + m)[j as int] != b@[j as int]);
        i = i + 1;
    }
    false
}

/// The installed packages by name.
pub struct PackageDatabase {
    packages: StrMap<PackageInfo>,
}

impl PackageDatabase {
    /// The installed packages by name.
    pub closed spec fn packages_spec(&self) -> Map<Seq<char>, PackageInfo> {
        self.packages@
    }

    /// The names in ascending order, as `list_packages` lists them.
    pub closed spec fn name_order(&self) -> Seq<Seq<char>> {
        self.packages.key_order()
    }

    /// The internal map is well formed.
    pub closed spec fn wf(&self) -> bool {
        self.packages.wf()
    }

    /// An empty database.
    pub fn new() -> (r: Self)
        ensures
            r.wf(),
            r.packages_spec() == Map::<Seq<char>, PackageInfo>::empty(),
    {
        PackageDatabase { packages: StrMap::new() }
    }

    /// Records a package under its name, in place of one with that name.
    pub fn add_package(&mut self, info: PackageInfo) -> (r: PackageResult<()>)
        requires
            old(self).wf(),
        ensures
            final(self).wf(),
            r is Ok,
            final(self).packages_spec() == old(self).packages_spec().insert(info.metadata.name@, info),
    {
        let name = info.metadata.name.clone();
        self.packages.insert(name, info);
        Ok(())
    }

    /// Takes the package `name` out of the database; `NotFound` when it is
    /// not there.
    pub fn remove_package(&mut self, name: &str) -> (r: PackageResult<PackageInfo>)
        requires
            old(self).wf(),
        ensures
            final(self).wf(),
            final(self).packages_spec() == old(self).packages_spec().remove(name@),
            old(self).packages_spec().dom().finite(),
            final(self).packages_spec().dom().len() == if old(self).packages_spec().dom().contains(name@) {
                old(self).packages_spec().dom().len() - 1
            } else {
                old(self).packages_spec().dom().len() as int
            },
            match r {
                Ok(p) => old(self).packages_spec().dom().contains(name@) && p == old(self).packages_spec()[name@],
                Err(e) => !old(self).packages_spec().dom().contains(name@) && not_found(
                    e,
                    "Package "@ + name@ + " not found"@,
                ),
            },
    {
        proof {
            self.packages.lemma_len();
        }
        match self.packages.remove(name) {
            Some(p) => Ok(p),
            None => Err(package_not_found(name)),
        }
    }

    /// The package `name`.
    pub fn get_package(&self, name: &str) -> (r: Option<&PackageInfo>)
        requires
            self.wf(),
        ensures
            match r {
                Some(p) => self.packages_spec().dom().contains(name@) && *p == self.packages_spec()[name@],
                None => !self.packages_spec().dom().contains(name@),
            },
    {
        self.packages.get(name)
    }

    /// Whether the package `name` is installed.
    pub fn is_installed(&self, name: &str) -> (r: bool)
        requires
            self.wf(),
        ensures
            r == self.packages_spec().dom().contains(name@),
    {
        self.packages.get(name).is_some()
    }

    /// The installed packages, in `name_order`.
    pub fn list_packages(&self) -> (r: Vec<&PackageInfo>)
        requires
            self.wf(),
        ensures
            keys_ascending(self.name_order()),
            self.name_order().no_duplicates(),
            self.name_order().to_set() == self.packages_spec().dom(),
            r@.len() == self.name_order().len(),
            forall|i: int| 0 <= i < r@.len() ==> *#[trigger] r@[i] == self.packages_spec()[self.name_order()[i]],
    {
        proof {
            self.packages.lemma_key_order();
        }
        let r = self.packages.values();
        proof {
            assert forall|i: int| 0 <= i < r@.len() implies *#[trigger] r@[i] == self.packages_spec()[self.name_order()[i]] by {
                assert(r@[i]@ == self.packages@[self.packages.key_order()[i]]);
            }
        }
        r
    }

    /// The installed packages whose names contain `pattern`, in
    /// `name_order`.
    pub fn search(&self, pattern: &str) -> (r: Vec<&PackageInfo>)
        requires
            self.wf(),
        ensures
            keys_ascending(self.name_order()),
            r@.map_values(|p: &PackageInfo| *p) == search_spec(
                self.name_order().map_values(|k: Seq<char>| self.packages_spec()[k]),
                pattern@,
            ),
    {
        proof {
            self.packages.lemma_key_order();
        }
        let all = self.packages.values();
        proof {
            assert forall|i: int| 0 <= i < all@.len() implies *#[trigger] all@[i] == self.packages_spec()[self.name_order()[i]] by {
                assert(all@[i]@ == self.packages@[self.packages.key_order()[i]]);
            }
        }
        let ghost src = self.name_order().map_values(|k: Seq<char>| self.packages_spec()[k]);
        let mut out: Vec<&PackageInfo> = Vec::new();
        let mut i: usize = 0;
        while i < all.len()
            invariant
                i <= all@.len(),
                all@.len() == src.len(),
                forall|j: int| 0 <= j < all@.len() ==> *#[trigger] all@[j] == src[j],
                out@.map_values(|p: &PackageInfo| *p) == search_spec(src.take(i as int), pattern@),
            decreases all@.len() - i,
        {
            let p = all[i];
            assert(src.take(i + 1).drop_last() =~= src.take(i as int));
            if text_contains(&p.metadata.name, pattern) {
                out.push(p);
            }
            assert(out@.map_values(|p: &PackageInfo| *p) =~= search_spec(src.take(i + 1), pattern@));
            i = i + 1;
        }
        assert(src.take(all@.len() as int) =~= src);
        out
    }

    /// The number of installed packages.
    pub fn package_count(&self) -> (r: usize)
        requires
            self.wf(),
        ensures
            self.packages_spec().dom().finite(),
            r == self.packages_spec().dom().len(),
    {
        self.packages.len()
    }

    /// Sets the status of the package `name`; `NotFound` when it is not
    /// there.
    pub fn update_status(&mut self, name: &str, status: PackageStatus) -> (r: PackageResult<()>)
        requires
            old(self).wf(),
        ensures
            final(self).wf(),
            old(self).packages_spec().dom().contains(name@) ==> r is Ok && final(self).packages_spec()
                == old(self).packages_spec().insert(
                name@,
                PackageInfo { status, ..old(self).packages_spec()[name@] },
            ),
            !old(self).packages_spec().dom().contains(name@) ==> r is Err && not_found(
                r->Err_0,
                "Package "@ + name@ + " not found"@,
            ) && final(self).packages_spec() == old(self).packages_spec(),
    {
        proof {
            self.packages.lemma_len();
        }
        match self.packages.remove(name) {
            Some(p) => {
                let mut q = p;
                q.status = status;
                let ghost before = self.packages@;
                self.packages.insert(name.to_owned(), q);
                assert(self.packages@ =~= old(self).packages@.insert(
                    name@,
                    PackageInfo { status, ..old(self).packages@[name@] },
                ));
                Ok(())
            },
            None => Err(package_not_found(name)),
        }
    }
}

/// `NotFound` for the package `name`.
fn package_not_found(name: &str) -> (e: PackageError)
    ensures
        not_found(e, "Package "@ + name@ + " not found"@),
{
    let mut msg = String::from_str("Package ");
    crate::text::append_str(&mut msg, name);
    crate::text::append_str(&mut msg, " not found");
    PackageError::NotFound(msg)
}

/// The packages of `ps` whose names contain `pattern`, in order.
pub open spec fn search_spec(ps: Seq<PackageInfo>, pattern: Seq<char>) -> Seq<PackageInfo>
    decreases ps.len(),
{
    if ps.len() == 0 {
        Seq::empty()
    } else {
        let rest = search_spec(ps.drop_last(), pattern);
        if contains_text(ps.last().metadata.name@, pattern) {
            rest.push(ps.last())
        } else {
            rest
        }
    }
}


/// The bytes of package files kept for later, by `name-version`.
pub struct PackageCache {
    cache: FileMap,
}

/// The key under which a package file is cached.
pub open spec fn cache_key(name: Seq<char>, version: Seq<char>) -> Seq<char> {
    name + "-"@ + version
}

/// The key under which a package file is cached.
fn make_cache_key(name: &str, version: &str) -> (r: String)
    ensures
        r@ == cache_key(name@, version@),
{
    let mut key = String::from_str(name);
    crate::text::append_str(&mut key, "-");
    crate::text::append_str(&mut key, version);
    key
}

/// The total length of the values under `keys`.
pub open spec fn total_len(m: Map<Seq<char>, Seq<u8>>, keys: Seq<Seq<char>>) -> nat
    decreases keys.len(),
{
    if keys.len() == 0 {
        0
    } else {
        total_len(m, keys.drop_last()) + m[keys.last()].len()
    }
}

impl PackageCache {
    /// The cached files by key.
    pub closed spec fn cache_spec(&self) -> Map<Seq<char>, Seq<u8>> {
        self.cache@
    }

    /// The total number of cached bytes.
    pub closed spec fn total_spec(&self) -> nat {
        total_len(self.cache@, self.cache.key_order())
    }

    /// The internal map is well formed.
    pub closed spec fn wf(&self) -> bool {
        self.cache.wf()
    }

    /// An empty cache.
    pub fn new() -> (r: Self)
        ensures
            r.wf(),
            r.cache_spec() == Map::<Seq<char>, Seq<u8>>::empty(),
    {
        PackageCache { cache: StrMap::new() }
    }

    /// Keeps `data` for `name` and `version`, in place of what was kept.
    pub fn add(&mut self, name: &str, version: &str, data: Vec<u8>)
        requires
            old(self).wf(),
        ensures
            final(self).wf(),
            final(self).cache_spec() == old(self).cache_spec().insert(cache_key(name@, version@), data@),
    {
        let key = make_cache_key(name, version);
        self.cache.insert(key, data);
    }

    /// The data kept for `name` and `version`.
    pub fn get(&self, name: &str, version: &str) -> (r: Option<&Vec<u8>>)
        requires
            self.wf(),
        ensures
            match r {
                Some(d) => self.cache_spec().dom().contains(cache_key(name@, version@)) && d@
                    == self.cache_spec()[cache_key(name@, version@)],
                None => !self.cache_spec().dom().contains(cache_key(name@, version@)),
            },
    {
        let key = make_cache_key(name, version);
        self.cache.get(key.as_str())
    }

    /// Takes out the data kept for `name` and `version`.
    pub fn remove(&mut self, name: &str, version: &str) -> (r: Option<Vec<u8>>)
        requires
            old(self).wf(),
        ensures
            final(self).wf(),
            final(self).cache_spec() == old(self).cache_spec().remove(cache_key(name@, version@)),
            match r {
                Some(d) => old(self).cache_spec().dom().contains(cache_key(name@, version@)) && d@
                    == old(self).cache_spec()[cache_key(name@, version@)],
                None => !old(self).cache_spec().dom().contains(cache_key(name@, version@)),
            },
    {
        let key = make_cache_key(name, version);
        self.cache.remove(key.as_str())
    }

    /// Drops everything kept.
    pub fn clear(&mut self)
        ensures
            final(self).wf(),
            final(self).cache_spec() == Map::<Seq<char>, Seq<u8>>::empty(),
    {
        self.cache.clear();
    }

    /// The total number of bytes kept.
    pub fn size(&self) -> (r: usize)
        requires
            self.wf(),
            self.total_spec() <= usize::MAX,
        ensures
            r == self.total_spec(),
    {
        let vals = self.cache.values();
        let ghost keys = self.cache.key_order();
        let mut total: usize = 0;
        let mut i: usize = 0;
        while i < vals.len()
            invariant
                i <= vals@.len(),
                vals@.len() == keys.len(),
                keys == self.cache.key_order(),
                forall|j: int| 0 <= j < vals@.len() ==> #[trigger] vals@[j]@ == self.cache@[keys[j]],
                total == total_len(self.cache@, keys.take(i as int)),
                total_len(self.cache@, keys) <= usize::MAX,
            decreases vals@.len() - i,
        {
            assert(keys.take(i + 1).drop_last() =~= keys.take(i as int));
            proof {
                lemma_total_len_prefix(self.cache@, keys, i + 1);
            }
            total = total + vals[i].len();
            i = i + 1;
        }
        assert(keys.take(vals@.len() as int) =~= keys);
        total
    }
}

proof fn lemma_total_len_prefix(m: Map<Seq<char>, Seq<u8>>, keys: Seq<Seq<char>>, k: int)
    requires
        0 <= k <= keys.len(),
    ensures
        total_len(m, keys.take(k)) <= total_len(m, keys),
    decreases keys.len() - k,
{
    if k < keys.len() {
        lemma_total_len_prefix(m, keys.drop_last(), k);
        assert(keys.drop_last().take(k) =~= keys.take(k));
    } else {
        assert(keys.take(k) =~= keys);
    }
}

} // verus!
