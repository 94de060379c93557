//! The records of the shortener: short names with the addresses they lead to,
//! and the prefixes under which each user may register names.

use vstd::prelude::*;
use crate::text::{is_byte_prefix, starts_with, str_eq};

verus! {

/// A short name and the address it redirects to.
#[derive(Debug)]
pub struct Url {
    pub name: String,
    pub url: String,
}

/// What a [`Url`] holds, as texts.
pub ghost struct UrlModel {
    pub name: Seq<char>,
    pub url: Seq<char>,
}

impl View for Url {
    type V = UrlModel;

    open spec fn view(&self) -> UrlModel {
        UrlModel { name: self.name@, url: self.url@ }
    }
}

/// The permission of one user to register names that begin with `prefix`.
/// The empty prefix permits every name.
#[derive(Debug)]
pub struct PrefixLink {
    pub user_id: String,
    pub prefix: String,
}

/// What a [`PrefixLink`] holds, as texts.
pub ghost struct PrefixModel {
    pub user_id: Seq<char>,
    pub prefix: Seq<char>,
}

impl View for PrefixLink {
    type V = PrefixModel;

    open spec fn view(&self) -> PrefixModel {
        PrefixModel { user_id: self.user_id@, prefix: self.prefix@ }
    }
}

/// Why the store refused a write.
#[derive(Debug, Clone, Copy, PartialEq, Eq, Structural)]
pub enum StorageError {
    /// A record with that name is already there.
    UniqueViolation,
    /// The store could not carry out the write.
    Unavailable,
}

/// The first of `items` that `wanted` accepts.
pub open spec fn find_first<T>(items: Seq<T>, wanted: spec_fn(T) -> bool) -> Option<T>
    decreases items.len(),
{
    if items.len() == 0 {
        None
    } else {
        match find_first(items.drop_last(), wanted) {
            Some(r) => Some(r),
            None => if wanted(items.last()) {
                Some(items.last())
            } else {
                None
            },
        }
    }
}

/// The record registered under `name`.
pub open spec fn find_name(urls: Seq<UrlModel>, name: Seq<char>) -> Option<UrlModel> {
    find_first(urls, |r: UrlModel| r.name == name)
}

/// The first record that leads to `url`. Addresses are compared as they are
/// written: no case folding, no normalising.
pub open spec fn find_url(urls: Seq<UrlModel>, url: Seq<char>) -> Option<UrlModel> {
    find_first(urls, |r: UrlModel| r.url == url)
}

/// No two records share a name.
pub open spec fn unique_names(urls: Seq<UrlModel>) -> bool {
    forall|i: int, j: int| 0 <= i < j < urls.len() ==> urls[i].name != urls[j].name
}

/// The records with every record named `name` pointed at `url`.
pub open spec fn retarget(urls: Seq<UrlModel>, name: Seq<char>, url: Seq<char>) -> Seq<UrlModel> {
    Seq::new(
        urls.len(),
        |i: int|
            if urls[i].name == name {
                UrlModel { name, url }
            } else {
                urls[i]
            },
    )
}

/// The grants of `user_id` among `prefixes`, in their order.
pub open spec fn grants_of(prefixes: Seq<PrefixModel>, user_id: Seq<char>) -> Seq<PrefixModel>
    decreases prefixes.len(),
{
    if prefixes.len() == 0 {
        Seq::empty()
    } else if prefixes.last().user_id == user_id {
        grants_of(prefixes.drop_last(), user_id).push(prefixes.last())
    } else {
        grants_of(prefixes.drop_last(), user_id)
    }
}

/// One of `grants` has a prefix that `name` begins with.
pub open spec fn some_prefix_matches(grants: Seq<PrefixModel>, name: Seq<char>) -> bool {
    exists|i: int| 0 <= i < grants.len() && is_byte_prefix(#[trigger] grants[i].prefix, name)
}

/// The two relations of the store.
pub ghost struct DbModel {
    pub urls: Seq<UrlModel>,
    pub prefixes: Seq<PrefixModel>,
}

impl DbModel {
    /// The store with nothing in it.
    pub open spec fn empty() -> DbModel {
        DbModel { urls: Seq::empty(), prefixes: Seq::empty() }
    }

    /// The invariant of the store: a name is registered at most once.
    pub open spec fn wf(self) -> bool {
        unique_names(self.urls)
    }

    /// A record is registered under `name`.
    pub open spec fn contains_name(self, name: Seq<char>) -> bool {
        find_name(self.urls, name) is Some
    }

    /// The address that `name` leads to.
    pub open spec fn target(self, name: Seq<char>) -> Option<Seq<char>> {
        match find_name(self.urls, name) {
            Some(r) => Some(r.url),
            None => None,
        }
    }

    /// The first record that leads to `url`.
    pub open spec fn from_url(self, url: Seq<char>) -> Option<UrlModel> {
        find_url(self.urls, url)
    }

    /// The store with one more record.
    pub open spec fn insert(self, name: Seq<char>, url: Seq<char>) -> DbModel {
        DbModel { urls: self.urls.push(UrlModel { name, url }), prefixes: self.prefixes }
    }

    /// The store with the record of `name` pointed at `url`; without such a
    /// record nothing changes.
    pub open spec fn update(self, name: Seq<char>, url: Seq<char>) -> DbModel {
        DbModel { urls: retarget(self.urls, name, url), prefixes: self.prefixes }
    }

    /// The store in which `name` leads to `url`, whether or not it was
    /// registered before.
    pub open spec fn upsert(self, name: Seq<char>, url: Seq<char>) -> DbModel {
        if self.contains_name(name) {
            self.update(name, url)
        } else {
            self.insert(name, url)
        }
    }

    /// The store with one more grant.
    pub open spec fn grant(self, user_id: Seq<char>, prefix: Seq<char>) -> DbModel {
        DbModel { urls: self.urls, prefixes: self.prefixes.push(PrefixModel { user_id, prefix }) }
    }

    /// The grants of `user_id`.
    pub open spec fn grants(self, user_id: Seq<char>) -> Seq<PrefixModel> {
        grants_of(self.prefixes, user_id)
    }

    /// `user_id` holds a grant whose prefix `name` begins with, byte by
    /// byte. The empty prefix is such a prefix of every name.
    pub open spec fn can_link(self, user_id: Seq<char>, name: Seq<char>) -> bool {
        exists|i: int|
            0 <= i < self.prefixes.len() && (#[trigger] self.prefixes[i]).user_id == user_id
                && is_byte_prefix(self.prefixes[i].prefix, name)
    }
}

/// What `find_first` returns, said with indices: the item at the least
/// index that `wanted` accepts, and nothing where it accepts none.
pub proof fn lemma_find_first<T>(items: Seq<T>, wanted: spec_fn(T) -> bool)
    ensures
        match find_first(items, wanted) {
            Some(r) => exists|i: int|
                0 <= i < items.len() && #[trigger] items[i] == r && wanted(r) && forall|j: int|
                    0 <= j < i ==> !wanted(#[trigger] items[j]),
            None => forall|i: int| 0 <= i < items.len() ==> !wanted(#[trigger] items[i]),
        },
    decreases items.len(),
{
    if items.len() > 0 {
        let front = items.drop_last();
        lemma_find_first(front, wanted);
        assert(forall|i: int| 0 <= i < front.len() ==> front[i] == items[i]);
        match find_first(front, wanted) {
            Some(r) => {
                let i = choose|i: int|
                    0 <= i < front.len() && #[trigger] front[i] == r && wanted(r) && forall|j: int|
                        0 <= j < i ==> !wanted(#[trigger] front[j]);
                assert(items[i] == r);
                assert(forall|j: int| 0 <= j < i ==> front[j] == items[j]);
            },
            None => {
                if wanted(items.last()) {
                    let i = items.len() - 1;
                    assert(items[i] == items.last());
                }
            },
        }
    }
}

/// The item at the least index that `wanted` accepts is what `find_first`
/// returns.
pub proof fn lemma_find_first_at<T>(items: Seq<T>, wanted: spec_fn(T) -> bool, i: int)
    requires
        0 <= i < items.len(),
        wanted(items[i]),
        forall|j: int| 0 <= j < i ==> !wanted(#[trigger] items[j]),
    ensures
        find_first(items, wanted) == Some(items[i]),
{
    lemma_find_first(items, wanted);
}

/// What is found after one more item: what was found before, else the new
/// item where it is wanted.
pub proof fn lemma_find_first_push<T>(items: Seq<T>, item: T, wanted: spec_fn(T) -> bool)
    ensures
        find_first(items.push(item), wanted) == match find_first(items, wanted) {
            Some(r) => Some(r),
            None => if wanted(item) {
                Some(item)
            } else {
                None
            },
        },
{
    assert(items.push(item).drop_last() =~= items);
}

/// After a record is pointed elsewhere, its name leads to the new address,
/// and every other name leads where it led.
pub proof fn lemma_retarget_name(
    urls: Seq<UrlModel>,
    name: Seq<char>,
    url: Seq<char>,
    other: Seq<char>,
)
    ensures
        find_name(retarget(urls, name, url), other) == if other != name {
            find_name(urls, other)
        } else if find_name(urls, name) is Some {
            Some(UrlModel { name, url })
        } else {
            None
        },
    decreases urls.len(),
{
    if urls.len() > 0 {
        lemma_retarget_name(urls.drop_last(), name, url, other);
        assert(retarget(urls, name, url).drop_last() =~= retarget(urls.drop_last(), name, url));
    }
}

/// In a store of distinct names, a record that is found by its address is
/// also the record found by its name.
pub proof fn lemma_found_by_url_is_found_by_name(urls: Seq<UrlModel>, url: Seq<char>)
    requires
        unique_names(urls),
    ensures
        match find_url(urls, url) {
            Some(r) => r.url == url && find_name(urls, r.name) == Some(r),
            None => true,
        },
{
    lemma_find_first(urls, |r: UrlModel| r.url == url);
    match find_url(urls, url) {
        Some(r) => {
            lemma_find_first(urls, |x: UrlModel| x.name == r.name);
        },
        None => {},
    }
}

impl DbModel {
    /// After one more record under a free name, the name leads to its
    /// address, and every other name leads where it led.
    pub proof fn lemma_insert(self, name: Seq<char>, url: Seq<char>, other: Seq<char>)
        ensures
            !self.contains_name(name) ==> self.insert(name, url).target(name) == Some(url),
            other != name ==> self.insert(name, url).target(other) == self.target(other),
            self.contains_name(other) ==> self.insert(name, url).target(other) == self.target(
                other,
            ),
    {
        lemma_find_first_push(self.urls, UrlModel { name, url }, |r: UrlModel| r.name == name);
        lemma_find_first_push(self.urls, UrlModel { name, url }, |r: UrlModel| r.name == other);
    }

    /// After an overwrite the name leads to the new address, and every other
    /// name leads where it led.
    pub proof fn lemma_upsert(self, name: Seq<char>, url: Seq<char>, other: Seq<char>)
        ensures
            self.upsert(name, url).target(name) == Some(url),
            other != name ==> self.upsert(name, url).target(other) == self.target(other),
    {
        lemma_retarget_name(self.urls, name, url, name);
        lemma_retarget_name(self.urls, name, url, other);
        self.lemma_insert(name, url, other);
    }

    /// An update changes where its name leads, if it leads anywhere, and
    /// nothing else.
    pub proof fn lemma_update(self, name: Seq<char>, url: Seq<char>, other: Seq<char>)
        ensures
            self.update(name, url).target(name) == if self.contains_name(name) {
                Some(url)
            } else {
                None
            },
            other != name ==> self.update(name, url).target(other) == self.target(other),
    {
        lemma_retarget_name(self.urls, name, url, name);
        lemma_retarget_name(self.urls, name, url, other);
    }
}

/// One of a user's grants matches a name exactly when one of the grants in
/// the store is theirs and has a prefix that the name begins with.
pub proof fn lemma_can_link(prefixes: Seq<PrefixModel>, user_id: Seq<char>, name: Seq<char>)
    ensures
        some_prefix_matches(grants_of(prefixes, user_id), name) <==> exists|i: int|
            0 <= i < prefixes.len() && (#[trigger] prefixes[i]).user_id == user_id
                && is_byte_prefix(prefixes[i].prefix, name),
    decreases prefixes.len(),
{
    if prefixes.len() > 0 {
        let front = prefixes.drop_last();
        let last = prefixes.last();
        lemma_can_link(front, user_id, name);
        let mine = grants_of(prefixes, user_id);
        let before = grants_of(front, user_id);
        if some_prefix_matches(mine, name) {
            let k = choose|k: int| 0 <= k < mine.len() && is_byte_prefix(#[trigger] mine[k].prefix, name);
            if last.user_id == user_id && k == mine.len() - 1 {
                assert(prefixes[prefixes.len() - 1].user_id == user_id);
            } else {
                assert(before[k] == mine[k]);
                assert(some_prefix_matches(before, name));
                let i = choose|i: int|
                    0 <= i < front.len() && (#[trigger] front[i]).user_id == user_id
                        && is_byte_prefix(front[i].prefix, name);
                assert(prefixes[i] == front[i]);
            }
        }
        if exists|i: int|
            0 <= i < prefixes.len() && (#[trigger] prefixes[i]).user_id == user_id
                && is_byte_prefix(prefixes[i].prefix, name) {
            let i = choose|i: int|
                0 <= i < prefixes.len() && (#[trigger] prefixes[i]).user_id == user_id
                    && is_byte_prefix(prefixes[i].prefix, name);
            if i == prefixes.len() - 1 {
                assert(mine[mine.len() - 1] == last);
                assert(is_byte_prefix(mine[mine.len() - 1].prefix, name));
            } else {
                assert(front[i] == prefixes[i]);
                assert(some_prefix_matches(before, name));
                let k = choose|k: int|
                    0 <= k < before.len() && is_byte_prefix(#[trigger] before[k].prefix, name);
                assert(mine[k] == before[k]);
                assert(is_byte_prefix(mine[k].prefix, name));
            }
        }
    }
}

/// The records in `list`, as texts.
pub open spec fn url_models(list: Seq<Url>) -> Seq<UrlModel> {
    list.map_values(|u: Url| u@)
}

/// The records of the shortener, held in memory: each name at most once, in
/// the order of registration.
pub struct Db {
    urls: Vec<Url>,
    prefixes: Vec<PrefixLink>,
}

impl View for Db {
    type V = DbModel;

    closed spec fn view(&self) -> DbModel {
        DbModel {
            urls: url_models(self.urls@),
            prefixes: self.prefixes@.map_values(|p: PrefixLink| p@),
        }
    }
}

impl Db {
    /// The invariant of the store.
    pub open spec fn wf(&self) -> bool {
        self@.wf()
    }

    /// A store with no record and no grant.
    pub fn new() -> (db: Db)
        ensures
            db@ == DbModel::empty(),
            db.wf(),
    {
        let db = Db { urls: Vec::new(), prefixes: Vec::new() };
        assert(db@.urls =~= Seq::empty());
        assert(db@.prefixes =~= Seq::empty());
        db
    }

    /// Grants `user_id` the names that begin with `prefix`.
    pub fn grant(&mut self, user_id: &str, prefix: &str)
        ensures
            final(self)@ == old(self)@.grant(user_id@, prefix@),
    {
        let g = PrefixLink { user_id: user_id.to_owned(), prefix: prefix.to_owned() };
        self.prefixes.push(g);
        assert(self@.prefixes =~= old(self)@.prefixes.push(g@));
    }

    /// The index of the record named `name`.
    fn position(&self, name: &str) -> (at: Option<usize>)
        ensures
            match at {
                Some(i) => i < self@.urls.len() && self@.urls[i as int].name == name@
                    && find_name(self@.urls, name@) == Some(self@.urls[i as int])
                    && self.urls@[i as int]@ == self@.urls[i as int],
                None => find_name(self@.urls, name@) is None,
            },
    {
        let ghost wanted = |r: UrlModel| r.name == name@;
        let mut i: usize = 0;
        while i < self.urls.len()
            invariant
                i <= self.urls@.len(),
                self@.urls.len() == self.urls@.len(),
                wanted == (|r: UrlModel| r.name == name@),
                forall|j: int| 0 <= j < i ==> !wanted(#[trigger] self@.urls[j]),
            decreases self.urls@.len() - i,
        {
            if str_eq(self.urls[i].name.as_str(), name) {
                proof {
                    lemma_find_first_at(self@.urls, wanted, i as int);
                }
                return Some(i);
            }
            i += 1;
        }
        proof {
            lemma_find_first(self@.urls, wanted);
        }
        None
    }

    /// All the records, in the order of registration.
    pub fn records(&self) -> (list: Vec<Url>)
        ensures
            url_models(list@) == self@.urls,
    {
        let mut list: Vec<Url> = Vec::new();
        let mut i: usize = 0;
        while i < self.urls.len()
            invariant
                i <= self.urls@.len(),
                list@.len() == i,
                forall|j: int| 0 <= j < i ==> (#[trigger] list@[j])@ == self.urls@[j]@,
            decreases self.urls@.len() - i,
        {
            let u = &self.urls[i];
            list.push(Url { name: u.name.clone(), url: u.url.clone() });
            i += 1;
        }
        assert(url_models(list@) =~= self@.urls);
        list
    }

    /// The record registered under `name`.
    pub fn lookup(&self, name: &str) -> (found: Option<Url>)
        ensures
            found is Some <==> self@.contains_name(name@),
            found is Some ==> Some(found->0@) == find_name(self@.urls, name@),
            match found {
                Some(u) => u@.name == name@ && self@.target(name@) == Some(u@.url),
                None => self@.target(name@) is None,
            },
    {
        match self.position(name) {
            Some(i) => {
                let u = &self.urls[i];
                Some(Url { name: u.name.clone(), url: u.url.clone() })
            },
            None => None,
        }
    }

    /// Registers `url` under `name`. A name that is already registered is
    /// refused, and the store stays as it was.
    pub fn insert(&mut self, name: &str, url: &str) -> (done: Result<(), StorageError>)
        requires
            old(self).wf(),
        ensures
            final(self).wf(),
            old(self)@.contains_name(name@) ==> done == Err::<(), StorageError>(
                StorageError::UniqueViolation,
            ) && final(self)@ == old(self)@,
            !old(self)@.contains_name(name@) ==> done is Ok && final(self)@ == old(self)@.insert(
                name@,
                url@,
            ),
            done is Ok ==> final(self)@.target(name@) == Some(url@),
            forall|other: Seq<char>|
                other != name@ ==> #[trigger] final(self)@.target(other) == old(self)@.target(
                    other,
                ),
            forall|other: Seq<char>|
                other != name@ ==> #[trigger] final(self)@.contains_name(other) == old(
                    self,
                )@.contains_name(other),
    {
        assert forall|other: Seq<char>| other != name@ implies #[trigger] old(self)@.insert(
            name@,
            url@,
        ).target(other) == old(self)@.target(other) by {
            old(self)@.lemma_insert(name@, url@, other);
        }
        assert forall|other: Seq<char>| other != name@ implies #[trigger] old(self)@.insert(
            name@,
            url@,
        ).contains_name(other) == old(self)@.contains_name(other) by {
            old(self)@.lemma_insert(name@, url@, other);
        }
        proof {
            old(self)@.lemma_insert(name@, url@, name@);
        }
        if self.position(name).is_some() {
            return Err(StorageError::UniqueViolation);
        }
        let rec = Url { name: name.to_owned(), url: url.to_owned() };
        proof {
            lemma_find_first(self@.urls, |r: UrlModel| r.name == name@);
        }
        self.urls.push(rec);
        assert(self@.urls =~= old(self)@.urls.push(rec@));
        assert(self@.prefixes =~= old(self)@.prefixes);
        Ok(())
    }

    /// Points the record of `name` at `url`, and says whether there was one.
    pub fn update(&mut self, name: &str, url: &str) -> (changed: bool)
        requires
            old(self).wf(),
        ensures
            final(self).wf(),
            changed == old(self)@.contains_name(name@),
            final(self)@ == old(self)@.update(name@, url@),
            changed ==> final(self)@.target(name@) == Some(url@),
            !changed ==> final(self)@ == old(self)@,
            forall|other: Seq<char>|
                other != name@ ==> #[trigger] final(self)@.target(other) == old(self)@.target(
                    other,
                ),
            forall|other: Seq<char>|
                other != name@ ==> #[trigger] final(self)@.contains_name(other) == old(
                    self,
                )@.contains_name(other),
    {
        assert forall|other: Seq<char>| other != name@ implies #[trigger] old(self)@.update(
            name@,
            url@,
        ).target(other) == old(self)@.target(other) by {
            old(self)@.lemma_update(name@, url@, other);
        }
        assert forall|other: Seq<char>| other != name@ implies #[trigger] old(self)@.update(
            name@,
            url@,
        ).contains_name(other) == old(self)@.contains_name(other) by {
            old(self)@.lemma_update(name@, url@, other);
        }
        proof {
            old(self)@.lemma_update(name@, url@, name@);
        }
        match self.position(name) {
            Some(i) => {
                let rec = Url { name: name.to_owned(), url: url.to_owned() };
                self.urls.set(i, rec);
                assert(self@.urls =~= retarget(old(self)@.urls, name@, url@));
                assert(self@.prefixes =~= old(self)@.prefixes);
                true
            },
            None => {
                proof {
                    lemma_find_first(self@.urls, |r: UrlModel| r.name == name@);
                }
                assert(self@.urls =~= retarget(old(self)@.urls, name@, url@));
                false
            },
        }
    }

    /// Makes `name` lead to `url`: the record is overwritten where there is
    /// one and created where there is none.
    pub fn upsert(&mut self, name: &str, url: &str)
        requires
            old(self).wf(),
        ensures
            final(self).wf(),
            final(self)@ == old(self)@.upsert(name@, url@),
            final(self)@.target(name@) == Some(url@),
            forall|other: Seq<char>|
                other != name@ ==> #[trigger] final(self)@.target(other) == old(self)@.target(
                    other,
                ),
            forall|other: Seq<char>|
                other != name@ ==> #[trigger] final(self)@.contains_name(other) == old(
                    self,
                )@.contains_name(other),
    {
        let changed = self.update(name, url);
        if !changed {
            proof {
                lemma_find_first(old(self)@.urls, |r: UrlModel| r.name == name@);
                assert(retarget(old(self)@.urls, name@, url@) =~= old(self)@.urls);
            }
            let done = self.insert(name, url);
        }
    }
}

impl Url {
    /// Whether a record is registered under `name`.
    pub fn name_exists(db: &Db, name: &str) -> (found: bool)
        ensures
            found == db@.contains_name(name@),
    {
        db.lookup(name).is_some()
    }

    /// The first record that leads to `url`.
    pub fn from_url(db: &Db, url: &str) -> (found: Option<Url>)
        ensures
            match found {
                Some(u) => db@.from_url(url@) == Some(u@),
                None => db@.from_url(url@) is None,
            },
    {
        let ghost wanted = |r: UrlModel| r.url == url@;
        let mut i: usize = 0;
        while i < db.urls.len()
            invariant
                i <= db.urls@.len(),
                db@.urls.len() == db.urls@.len(),
                wanted == (|r: UrlModel| r.url == url@),
                forall|j: int| 0 <= j < i ==> !wanted(#[trigger] db@.urls[j]),
            decreases db.urls@.len() - i,
        {
            if str_eq(db.urls[i].url.as_str(), url) {
                proof {
                    lemma_find_first_at(db@.urls, wanted, i as int);
                }
                let u = &db.urls[i];
                return Some(Url { name: u.name.clone(), url: u.url.clone() });
            }
            i += 1;
        }
        proof {
            lemma_find_first(db@.urls, wanted);
        }
        None
    }
}

/// The grants in `list`, as texts.
pub open spec fn grant_models(list: Seq<PrefixLink>) -> Seq<PrefixModel> {
    list.map_values(|p: PrefixLink| p@)
}

impl PrefixLink {
    /// All the grants of `user_id`, in the order in which they were made.
    pub fn get_all(db: &Db, user_id: &str) -> (list: Vec<PrefixLink>)
        ensures
            grant_models(list@) == db@.grants(user_id@),
    {
        let mut list: Vec<PrefixLink> = Vec::new();
        let mut i: usize = 0;
        assert(db@.prefixes.take(0) =~= Seq::empty());
        while i < db.prefixes.len()
            invariant
                i <= db.prefixes@.len(),
                db@.prefixes.len() == db.prefixes@.len(),
                grant_models(list@) =~= grants_of(db@.prefixes.take(i as int), user_id@),
            decreases db.prefixes@.len() - i,
        {
            let p = &db.prefixes[i];
            proof {
                let next = db@.prefixes.take(i + 1);
                assert(next.drop_last() =~= db@.prefixes.take(i as int));
                assert(next.last() == p@);
            }
            if str_eq(p.user_id.as_str(), user_id) {
                list.push(PrefixLink { user_id: p.user_id.clone(), prefix: p.prefix.clone() });
            }
            i += 1;
        }
        assert(db@.prefixes.take(i as int) =~= db@.prefixes);
        list
    }

    /// Whether one of `grants` lets its holder register `link_name`.
    pub fn allows(grants: &Vec<PrefixLink>, link_name: &str) -> (allowed: bool)
        ensures
            allowed == some_prefix_matches(grant_models(grants@), link_name@),
    {
        let mut i: usize = 0;
        while i < grants.len()
            invariant
                i <= grants@.len(),
                forall|j: int|
                    0 <= j < i ==> !is_byte_prefix(
                        #[trigger] grant_models(grants@)[j].prefix,
                        link_name@,
                    ),
            decreases grants@.len() - i,
        {
            if starts_with(link_name, grants[i].prefix.as_str()) {
                assert(is_byte_prefix(grant_models(grants@)[i as int].prefix, link_name@));
                return true;
            }
            i += 1;
        }
        false
    }

    /// Whether `user_id` may register `link_name`: whether one of the user's
    /// grants has a prefix that the name begins with.
    pub fn user_can_link(db: &Db, user_id: &str, link_name: &str) -> (allowed: bool)
        ensures
            allowed == db@.can_link(user_id@, link_name@),
    {
        let grants = PrefixLink::get_all(db, user_id);
        proof {
            lemma_can_link(db@.prefixes, user_id@, link_name@);
        }
        PrefixLink::allows(&grants, link_name)
    }
}

} // verus!
