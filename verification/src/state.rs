//! Keys, the per-kind cache, and the application state made of such caches.
use crate::model::{Contact, Resume};
use std::collections::HashMap;
use vstd::prelude::*;

verus! {

broadcast use vstd::std_specs::hash::group_hash_axioms;

/// The key of an entity.
///
/// A value that has not been written out yet lives under `Tmp`, one that
/// the database knows lives under `Db`. The two never collide, whatever
/// numbers they carry.
#[derive(Copy, Clone, Debug, PartialEq, Eq, Hash, Structural)]
pub enum Key {
    Tmp(i64),
    Db(i64),
}

/// What a cache is, mathematically: the entries by key, and the number the
/// next temporary key will carry.
pub struct CacheModel<V> {
    pub next: int,
    pub entries: Map<Key, V>,
}

impl<V> CacheModel<V> {
    pub open spec fn empty() -> Self {
        CacheModel { next: 0, entries: Map::empty() }
    }

    /// A temporary key is in use only if it was handed out.
    pub open spec fn wf(self) -> bool {
        &&& 0 <= self.next <= i64::MAX
        &&& self.entries.dom().finite()
        &&& forall|n: i64| #[trigger] self.entries.contains_key(Key::Tmp(n)) ==> 0 <= n < self.next
    }

    /// Whether this cache ever gave `key` to a value.
    pub open spec fn issued(self, key: Key) -> bool {
        match key {
            Key::Tmp(n) => 0 <= n < self.next,
            Key::Db(_) => self.entries.contains_key(key),
        }
    }

    pub open spec fn lookup(self, key: Key) -> Option<V> {
        if self.entries.contains_key(key) {
            Some(self.entries[key])
        } else {
            None
        }
    }

    /// The key that the next new value receives.
    pub open spec fn next_key(self) -> Key {
        Key::Tmp(self.next as i64)
    }

    /// Whether a temporary key is left for one more value.
    pub open spec fn has_room(self) -> bool {
        self.next < i64::MAX
    }

    /// The cache after `value` was added under `next_key()`.
    pub open spec fn add(self, value: V) -> Self {
        CacheModel { next: self.next + 1, entries: self.entries.insert(self.next_key(), value) }
    }

    /// The cache after `value` was read from the database, where it has
    /// the id `id`.
    pub open spec fn load(self, id: i64, value: V) -> Self {
        CacheModel { next: self.next, entries: self.entries.insert(Key::Db(id), value) }
    }

    /// Whether the value under `key` can move to the id `id` of the
    /// database: the key is temporary and in use, and the id is free.
    pub open spec fn can_persist(self, key: Key, id: i64) -> bool {
        &&& key is Tmp
        &&& self.entries.contains_key(key)
        &&& !self.entries.contains_key(Key::Db(id))
    }

    /// The cache after the value under `key` moved to the id `id` of the
    /// database. The temporary key is not used again.
    pub open spec fn persist(self, key: Key, id: i64) -> Self {
        CacheModel {
            next: self.next,
            entries: self.entries.remove(key).insert(Key::Db(id), self.entries[key]),
        }
    }

    /// The cache after each of `values` was added, first to last.
    pub open spec fn add_all(self, values: Seq<V>) -> Self
        decreases values.len(),
    {
        if values.len() == 0 {
            self
        } else {
            self.add_all(values.drop_last()).add(values.last())
        }
    }

    /// The keys that adding `values`, first to last, hands out.
    pub open spec fn keys_of(self, values: Seq<V>) -> Seq<Key>
        decreases values.len(),
    {
        if values.len() == 0 {
            Seq::empty()
        } else {
            self.keys_of(values.drop_last()).push(self.add_all(values.drop_last()).next_key())
        }
    }
}

/// A value can be read back under the key it was added under, and adding
/// disturbs no other entry.
pub proof fn lemma_added_is_found<V>(cache: CacheModel<V>, value: V, other: Key)
    requires
        cache.wf(),
        cache.has_room(),
    ensures
        cache.add(value).wf(),
        cache.add(value).lookup(cache.next_key()) == Some(value),
        cache.lookup(cache.next_key()) is None,
        other != cache.next_key() ==> cache.add(value).lookup(other) == cache.lookup(other),
{
}

/// Adding `values` to a cache moves its counter on by their number.
pub proof fn lemma_add_all_counts<V>(cache: CacheModel<V>, values: Seq<V>)
    ensures
        cache.add_all(values).next == cache.next + values.len(),
        cache.keys_of(values).len() == values.len(),
    decreases values.len(),
{
    if values.len() > 0 {
        lemma_add_all_counts(cache, values.drop_last());
    }
}

/// The keys handed out for values added to a cache carry the numbers from
/// the cache's counter on, in the order of the additions.
pub proof fn lemma_keys_count_up<V>(cache: CacheModel<V>, values: Seq<V>)
    requires
        0 <= cache.next,
        cache.next + values.len() <= i64::MAX,
    ensures
        cache.keys_of(values).len() == values.len(),
        forall|i: int|
            0 <= i < values.len() ==> #[trigger] cache.keys_of(values)[i] == Key::Tmp(
                (cache.next + i) as i64,
            ),
    decreases values.len(),
{
    lemma_add_all_counts(cache, values);
    if values.len() > 0 {
        let front = values.drop_last();
        lemma_keys_count_up(cache, front);
        lemma_add_all_counts(cache, front);
        assert forall|i: int| 0 <= i < values.len() implies #[trigger] cache.keys_of(values)[i]
            == Key::Tmp((cache.next + i) as i64) by {
            if i < front.len() {
                assert(cache.keys_of(values)[i] == cache.keys_of(front)[i]);
            }
        }
    }
}

/// The keys handed out for any number of values added to an empty cache
/// are `Tmp(0)`, `Tmp(1)`, ... in the order of the additions: they grow
/// strictly, and no two of them are the same.
pub proof fn lemma_fresh_keys_count_up<V>(values: Seq<V>)
    requires
        values.len() <= i64::MAX,
    ensures
        CacheModel::<V>::empty().keys_of(values).len() == values.len(),
        forall|i: int|
            0 <= i < values.len() ==> #[trigger] CacheModel::<V>::empty().keys_of(values)[i]
                == Key::Tmp(i as i64),
        forall|i: int, j: int|
            #![trigger CacheModel::<V>::empty().keys_of(values)[i], CacheModel::<V>::empty().keys_of(values)[j]]
            0 <= i < j < values.len() ==> {
                &&& CacheModel::<V>::empty().keys_of(values)[i] matches Key::Tmp(a)
                &&& CacheModel::<V>::empty().keys_of(values)[j] matches Key::Tmp(b)
                &&& a < b
                &&& CacheModel::<V>::empty().keys_of(values)[i] != CacheModel::<V>::empty().keys_of(
                    values,
                )[j]
            },
{
    lemma_keys_count_up(CacheModel::<V>::empty(), values);
}

/// The counter of a cache never goes back, whatever is done to the cache,
/// so a temporary key that was handed out once is not handed out again:
/// the key of the next new value was never given out before.
pub proof fn lemma_counter_only_grows<V>(cache: CacheModel<V>, value: V, key: Key, id: i64)
    requires
        cache.wf(),
    ensures
        cache.add(value).next == cache.next + 1,
        cache.load(id, value).next == cache.next,
        cache.persist(key, id).next == cache.next,
        !cache.issued(cache.next_key()),
        cache.has_room() ==> cache.add(value).issued(cache.next_key()),
{
}

/// Two lookups of one key in one cache find the same: whatever `get`
/// returned once, it returns again while the cache is not changed.
pub proof fn lemma_lookup_repeats<V>(cache: CacheModel<V>, key: Key, first: Option<V>, second: Option<V>)
    requires
        first == cache.lookup(key),
        second == cache.lookup(key),
    ensures
        first == second,
{
}

/// A key that the cache never gave out finds nothing.
pub proof fn lemma_unissued_key_misses<V>(cache: CacheModel<V>, key: Key)
    requires
        cache.wf(),
        !cache.issued(key),
    ensures
        cache.lookup(key) is None,
{
    if let Key::Tmp(n) = key {
        assert(!cache.entries.contains_key(Key::Tmp(n)));
    }
}

/// Add a new value to an implementing structure, returning the index it
/// now lives under.
pub trait AddNew<Val, Idx> {
    /// What the structure holds, by index.
    spec fn held(&self) -> Map<Idx, Val>;

    /// The index that the next new value receives.
    spec fn next_index(&self) -> Idx;

    /// Whether one more value fits.
    spec fn has_room(&self) -> bool;

    fn add_new(&mut self, value: Val) -> (idx: Idx)
        requires
            old(self).has_room(),
        ensures
            idx == old(self).next_index(),
            !old(self).held().contains_key(idx),
            final(self).held() == old(self).held().insert(idx, value),
    ;
}

/// Get the value that lives under a key, if there is one.
pub trait Get<Val, Idx> {
    /// What a lookup of `key` finds.
    spec fn found(&self, key: Idx) -> Option<Val>;

    fn get(&self, key: &Idx) -> (r: Option<&Val>)
        ensures
            r == (match <Self as Get<Val, Idx>>::found(self, *key) {
                Some(v) => Some(&v),
                None => None,
            }),
    ;
}

/// Everything a state can do, under one name.
pub trait State<Val, Idx>: AddNew<Val, Idx> + Get<Val, Idx> {

}

impl<S, Val, Idx> State<Val, Idx> for S where S: AddNew<Val, Idx> + Get<Val, Idx> {

}

/// The values of one kind: those read from the database under their `Db`
/// keys, and those not written out yet under `Tmp` keys, which the cache
/// numbers itself.
#[derive(Debug)]
pub struct TempCache<V> {
    next_tmp_key: i64,
    tmp: HashMap<i64, V>,
    db: HashMap<i64, V>,
}

/// The two tables of a cache seen as one map over `Key`.
pub open spec fn joined<V>(tmp: Map<i64, V>, db: Map<i64, V>) -> Map<Key, V> {
    Map::new(
        |k: Key|
            match k {
                Key::Tmp(n) => tmp.contains_key(n),
                Key::Db(n) => db.contains_key(n),
            },
        |k: Key|
            match k {
                Key::Tmp(n) => tmp[n],
                Key::Db(n) => db[n],
            },
    )
}

/// The joined map has as many entries as the two tables together.
pub proof fn lemma_joined_len<V>(tmp: Map<i64, V>, db: Map<i64, V>)
    requires
        tmp.dom().finite(),
        db.dom().finite(),
    ensures
        joined(tmp, db).dom().finite(),
        joined(tmp, db).len() == tmp.len() + db.len(),
{
    let as_tmp = |n: i64| Key::Tmp(n);
    let as_db = |n: i64| Key::Db(n);
    let left = tmp.dom().map(as_tmp);
    let right = db.dom().map(as_db);
    vstd::set_lib::lemma_map_size(tmp.dom(), left, as_tmp);
    vstd::set_lib::lemma_map_size(db.dom(), right, as_db);
    assert(left.disjoint(right));
    vstd::set_lib::lemma_set_disjoint_lens(left, right);
    assert(joined(tmp, db).dom() =~= left + right) by {
        assert forall|k: Key| joined(tmp, db).dom().contains(k) implies (left + right).contains(
            k,
        ) by {
            match k {
                Key::Tmp(n) => {
                    assert(tmp.dom().contains(n) && as_tmp(n) == k);
                },
                Key::Db(n) => {
                    assert(db.dom().contains(n) && as_db(n) == k);
                },
            }
        }
    }
}

impl<V> View for TempCache<V> {
    type V = CacheModel<V>;

    closed spec fn view(&self) -> CacheModel<V> {
        CacheModel { next: self.next_tmp_key as int, entries: joined(self.tmp@, self.db@) }
    }
}

impl<V> TempCache<V> {
    #[verifier::type_invariant]
    spec fn inv(&self) -> bool {
        &&& 0 <= self.next_tmp_key
        &&& forall|n: i64| #[trigger] self.tmp@.contains_key(n) ==> 0 <= n < self.next_tmp_key
    }

    /// What the invariant says of the view.
    proof fn lemma_view_wf(&self)
        requires
            self.inv(),
        ensures
            self@.wf(),
    {
        lemma_joined_len(self.tmp@, self.db@);
    }

    /// An empty cache, whose first temporary key will carry 0.
    pub fn new() -> (cache: Self)
        ensures
            cache@ == CacheModel::<V>::empty(),
    {
        let cache = Self { next_tmp_key: 0, tmp: HashMap::new(), db: HashMap::new() };
        assert(cache@.entries =~= Map::<Key, V>::empty());
        cache
    }

    /// The number of values held, under either kind of key (and
    /// `usize::MAX`, should there ever be more).
    pub fn len(&self) -> (n: usize)
        ensures
            n == if self@.entries.len() <= usize::MAX {
                self@.entries.len()
            } else {
                usize::MAX as nat
            },
            self@.wf(),
    {
        proof {
            use_type_invariant(self);
            lemma_joined_len(self.tmp@, self.db@);
        }
        match self.tmp.len().checked_add(self.db.len()) {
            Some(n) => n,
            None => usize::MAX,
        }
    }

    /// Whether the cache has to refuse another new value.
    pub fn is_full(&self) -> (full: bool)
        ensures
            full == !self@.has_room(),
            self@.wf(),
    {
        proof {
            use_type_invariant(self);
            self.lemma_view_wf();
        }
        self.next_tmp_key == i64::MAX
    }

    /// Takes in a value that was read from the database, under the id it
    /// has there, and returns the value that the cache held under that id
    /// before, if any.
    pub fn load(&mut self, id: i64, value: V) -> (before: Option<V>)
        ensures
            final(self)@ == old(self)@.load(id, value),
            before == old(self)@.lookup(Key::Db(id)),
            final(self)@.wf(),
    {
        proof {
            use_type_invariant(&*self);
            lemma_joined_len(self.tmp@, self.db@);
        }
        let mut db = HashMap::new();
        std::mem::swap(&mut db, &mut self.db);
        let before = db.insert(id, value);
        self.db = db;
        proof {
            lemma_joined_len(self.tmp@, self.db@);
            assert(self@.entries =~= old(self)@.entries.insert(Key::Db(id), value));
        }
        before
    }

    /// Moves the value under the temporary key `key` to the id `id` that
    /// the database gave it, and says whether it did: nothing moves where
    /// the key is not temporary or holds nothing, or where the id is taken.
    pub fn persist(&mut self, key: &Key, id: i64) -> (done: bool)
        ensures
            done == old(self)@.can_persist(*key, id),
            done ==> final(self)@ == old(self)@.persist(*key, id),
            !done ==> final(self)@ == old(self)@,
            final(self)@.wf(),
    {
        proof {
            use_type_invariant(&*self);
            lemma_joined_len(self.tmp@, self.db@);
        }
        match *key {
            Key::Tmp(n) => {
                if self.db.contains_key(&id) {
                    return false;
                }
                let mut tmp = HashMap::new();
                std::mem::swap(&mut tmp, &mut self.tmp);
                let taken = tmp.remove(&n);
                self.tmp = tmp;
                match taken {
                    Some(value) => {
                        let mut db = HashMap::new();
                        std::mem::swap(&mut db, &mut self.db);
                        db.insert(id, value);
                        self.db = db;
                        proof {
                            lemma_joined_len(self.tmp@, self.db@);
                            assert(self@.entries =~= old(self)@.entries.remove(*key).insert(
                                Key::Db(id),
                                value,
                            ));
                        }
                        true
                    },
                    None => {
                        proof {
                            lemma_joined_len(self.tmp@, self.db@);
                            assert(self.tmp@ =~= old(self).tmp@);
                            assert(self@.entries =~= old(self)@.entries);
                        }
                        false
                    },
                }
            },
            Key::Db(_) => false,
        }
    }
}

impl<V: Clone> Clone for TempCache<V> {
    fn clone(&self) -> (copy: Self)
        ensures
            copy@ == self@,
    {
        proof {
            use_type_invariant(self);
        }
        Self { next_tmp_key: self.next_tmp_key, tmp: self.tmp.clone(), db: self.db.clone() }
    }
}

impl<V> AddNew<V, Key> for TempCache<V> {
    open spec fn held(&self) -> Map<Key, V> {
        self@.entries
    }

    open spec fn next_index(&self) -> Key {
        self@.next_key()
    }

    open spec fn has_room(&self) -> bool {
        self@.has_room()
    }

    /// Puts the value under a fresh temporary key, which it keeps until the
    /// value has been written out and the key of the database takes over.
    fn add_new(&mut self, value: V) -> (key: Key)
        ensures
            final(self)@ == old(self)@.add(value),
            old(self)@.wf(),
            final(self)@.wf(),
    {
        proof {
            use_type_invariant(&*self);
            lemma_joined_len(self.tmp@, self.db@);
        }
        let n = self.next_tmp_key;
        let mut tmp = HashMap::new();
        std::mem::swap(&mut tmp, &mut self.tmp);
        tmp.insert(n, value);
        self.next_tmp_key = n + 1;
        self.tmp = tmp;
        proof {
            lemma_joined_len(self.tmp@, self.db@);
            assert(self@.entries =~= old(self)@.entries.insert(Key::Tmp(n), value));
        }
        Key::Tmp(n)
    }
}

impl<V> Get<V, Key> for TempCache<V> {
    open spec fn found(&self, key: Key) -> Option<V> {
        self@.lookup(key)
    }

    /// The value under `key`, or `None` where the cache holds none: a key
    /// that this cache never gave out finds nothing.
    fn get(&self, key: &Key) -> (r: Option<&V>)
        ensures
            !self@.issued(*key) ==> r is None,
            self@.wf(),
    {
        proof {
            use_type_invariant(self);
            self.lemma_view_wf();
        }
        match *key {
            Key::Tmp(n) => self.tmp.get(&n),
            Key::Db(n) => self.db.get(&n),
        }
    }
}

/// What the application state is, mathematically: one cache per kind.
pub struct AppStateModel {
    pub resume: CacheModel<Resume>,
    pub contact: CacheModel<Contact>,
}

impl AppStateModel {
    pub open spec fn empty() -> Self {
        AppStateModel { resume: CacheModel::empty(), contact: CacheModel::empty() }
    }

    pub open spec fn wf(self) -> bool {
        self.resume.wf() && self.contact.wf()
    }

    /// The state after a resume was added.
    pub open spec fn add_resume(self, value: Resume) -> Self {
        AppStateModel { resume: self.resume.add(value), contact: self.contact }
    }

    /// The state after a contact was added.
    pub open spec fn add_contact(self, value: Contact) -> Self {
        AppStateModel { resume: self.resume, contact: self.contact.add(value) }
    }

    /// The state after a resume was read from the database.
    pub open spec fn load_resume(self, id: i64, value: Resume) -> Self {
        AppStateModel { resume: self.resume.load(id, value), contact: self.contact }
    }

    /// The state after a contact was read from the database.
    pub open spec fn load_contact(self, id: i64, value: Contact) -> Self {
        AppStateModel { resume: self.resume, contact: self.contact.load(id, value) }
    }

    /// The state after the resume under `key` moved to the id `id` of the
    /// database.
    pub open spec fn persist_resume(self, key: Key, id: i64) -> Self {
        AppStateModel { resume: self.resume.persist(key, id), contact: self.contact }
    }

    /// The state after the contact under `key` moved to the id `id` of the
    /// database.
    pub open spec fn persist_contact(self, key: Key, id: i64) -> Self {
        AppStateModel { resume: self.resume, contact: self.contact.persist(key, id) }
    }
}

/// The basic structure of all data for the whole application.
///
/// Everything fits into one of a few kinds, each with its own cache. A key
/// means something only to the cache that gave it out; which cache that is
/// follows from the kind of value asked for.
#[derive(Debug)]
pub struct AppState {
    resume: TempCache<Resume>,
    contact: TempCache<Contact>,
}

impl View for AppState {
    type V = AppStateModel;

    closed spec fn view(&self) -> AppStateModel {
        AppStateModel { resume: self.resume@, contact: self.contact@ }
    }
}

impl AppState {
    /// A state that holds nothing yet.
    pub fn new() -> (state: Self)
        ensures
            state@ == AppStateModel::empty(),
    {
        Self { resume: TempCache::new(), contact: TempCache::new() }
    }

    /// Takes in a resume that was read from the database, under the id it
    /// has there, and returns the resume held under that id before, if any.
    pub fn load_resume(&mut self, id: i64, value: Resume) -> (before: Option<Resume>)
        ensures
            final(self)@ == old(self)@.load_resume(id, value),
            before == old(self)@.resume.lookup(Key::Db(id)),
            final(self)@.wf(),
    {
        proof {
            use_type_invariant(&self.resume);
            use_type_invariant(&self.contact);
            self.resume.lemma_view_wf();
            self.contact.lemma_view_wf();
        }
        self.resume.load(id, value)
    }

    /// Takes in a contact that was read from the database, under the id it
    /// has there, and returns the contact held under that id before, if
    /// any.
    pub fn load_contact(&mut self, id: i64, value: Contact) -> (before: Option<Contact>)
        ensures
            final(self)@ == old(self)@.load_contact(id, value),
            before == old(self)@.contact.lookup(Key::Db(id)),
            final(self)@.wf(),
    {
        proof {
            use_type_invariant(&self.resume);
            use_type_invariant(&self.contact);
            self.resume.lemma_view_wf();
            self.contact.lemma_view_wf();
        }
        self.contact.load(id, value)
    }

    /// Moves the resume under the temporary key `key` to the id `id` that
    /// the database gave it, and says whether it did.
    pub fn persist_resume(&mut self, key: &Key, id: i64) -> (done: bool)
        ensures
            done == old(self)@.resume.can_persist(*key, id),
            done ==> final(self)@ == old(self)@.persist_resume(*key, id),
            !done ==> final(self)@ == old(self)@,
            final(self)@.wf(),
    {
        proof {
            use_type_invariant(&self.resume);
            use_type_invariant(&self.contact);
            self.resume.lemma_view_wf();
            self.contact.lemma_view_wf();
        }
        self.resume.persist(key, id)
    }

    /// Moves the contact under the temporary key `key` to the id `id` that
    /// the database gave it, and says whether it did.
    pub fn persist_contact(&mut self, key: &Key, id: i64) -> (done: bool)
        ensures
            done == old(self)@.contact.can_persist(*key, id),
            done ==> final(self)@ == old(self)@.persist_contact(*key, id),
            !done ==> final(self)@ == old(self)@,
            final(self)@.wf(),
    {
        proof {
            use_type_invariant(&self.resume);
            use_type_invariant(&self.contact);
            self.resume.lemma_view_wf();
            self.contact.lemma_view_wf();
        }
        self.contact.persist(key, id)
    }

    /// Whether one of the caches has to refuse another value.
    pub fn is_full(&self) -> (full: bool)
        ensures
            full == !(self@.resume.has_room() && self@.contact.has_room()),
            self@.wf(),
    {
        let resumes_full = self.resume.is_full();
        let contacts_full = self.contact.is_full();
        resumes_full || contacts_full
    }
}

impl Clone for AppState {
    fn clone(&self) -> (copy: Self)
        ensures
            copy@ == self@,
    {
        Self { resume: self.resume.clone(), contact: self.contact.clone() }
    }
}

impl AddNew<Resume, Key> for AppState {
    open spec fn held(&self) -> Map<Key, Resume> {
        self@.resume.entries
    }

    open spec fn next_index(&self) -> Key {
        self@.resume.next_key()
    }

    open spec fn has_room(&self) -> bool {
        self@.resume.has_room()
    }

    fn add_new(&mut self, value: Resume) -> (key: Key)
        ensures
            final(self)@ == old(self)@.add_resume(value),
            old(self)@.wf(),
            final(self)@.wf(),
    {
        proof {
            use_type_invariant(&self.resume);
            use_type_invariant(&self.contact);
            self.resume.lemma_view_wf();
            self.contact.lemma_view_wf();
        }
        self.resume.add_new(value)
    }
}

impl AddNew<Contact, Key> for AppState {
    open spec fn held(&self) -> Map<Key, Contact> {
        self@.contact.entries
    }

    open spec fn next_index(&self) -> Key {
        self@.contact.next_key()
    }

    open spec fn has_room(&self) -> bool {
        self@.contact.has_room()
    }

    fn add_new(&mut self, value: Contact) -> (key: Key)
        ensures
            final(self)@ == old(self)@.add_contact(value),
            old(self)@.wf(),
            final(self)@.wf(),
    {
        proof {
            use_type_invariant(&self.resume);
            use_type_invariant(&self.contact);
            self.resume.lemma_view_wf();
            self.contact.lemma_view_wf();
        }
        self.contact.add_new(value)
    }
}

impl Get<Resume, Key> for AppState {
    open spec fn found(&self, key: Key) -> Option<Resume> {
        self@.resume.lookup(key)
    }

    fn get(&self, key: &Key) -> (r: Option<&Resume>) {
        self.resume.get(key)
    }
}

impl Get<Contact, Key> for AppState {
    open spec fn found(&self, key: Key) -> Option<Contact> {
        self@.contact.lookup(key)
    }

    fn get(&self, key: &Key) -> (r: Option<&Contact>) {
        self.contact.get(key)
    }
}

} // verus!
