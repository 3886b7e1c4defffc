//! The store: the application state held in memory, the changes made to it
//! since it was last in step with the database, and the database handle.
use crate::changelist::{Apply, ChangeList};
use crate::model::{Contact, Resume};
use crate::state::{AddNew, AppState, AppStateModel, Get, Key};
use sqlx::SqlitePool;
use vstd::prelude::*;

verus! {

/// One change to the application state.
#[derive(Debug)]
pub enum Change {
    /// A resume was added.
    Resume(Resume),
    /// A contact was added.
    Contact(Contact),
}

impl Clone for Change {
    fn clone(&self) -> (c: Self)
        ensures
            c == *self,
    {
        match self {
            Change::Resume(r) => Change::Resume(r.clone()),
            Change::Contact(c) => Change::Contact(c.clone()),
        }
    }
}

impl Apply<Resume, Key> for AppState {
    open spec fn accepts(state: AppStateModel, change: Resume) -> bool {
        state.resume.has_room()
    }

    open spec fn changed_by(state: AppStateModel, change: Resume) -> AppStateModel {
        state.add_resume(change)
    }

    open spec fn index_of(state: AppStateModel, change: Resume) -> Key {
        state.resume.next_key()
    }

    fn apply(&mut self, change: &Resume) -> (key: Key) {
        self.add_new(change.clone())
    }
}

impl Apply<Contact, Key> for AppState {
    open spec fn accepts(state: AppStateModel, change: Contact) -> bool {
        state.contact.has_room()
    }

    open spec fn changed_by(state: AppStateModel, change: Contact) -> AppStateModel {
        state.add_contact(change)
    }

    open spec fn index_of(state: AppStateModel, change: Contact) -> Key {
        state.contact.next_key()
    }

    fn apply(&mut self, change: &Contact) -> (key: Key) {
        self.add_new(change.clone())
    }
}

impl Apply<Change, Key> for AppState {
    open spec fn accepts(state: AppStateModel, change: Change) -> bool {
        match change {
            Change::Resume(r) => <AppState as Apply<Resume, Key>>::accepts(state, r),
            Change::Contact(c) => <AppState as Apply<Contact, Key>>::accepts(state, c),
        }
    }

    open spec fn changed_by(state: AppStateModel, change: Change) -> AppStateModel {
        match change {
            Change::Resume(r) => <AppState as Apply<Resume, Key>>::changed_by(state, r),
            Change::Contact(c) => <AppState as Apply<Contact, Key>>::changed_by(state, c),
        }
    }

    open spec fn index_of(state: AppStateModel, change: Change) -> Key {
        match change {
            Change::Resume(r) => <AppState as Apply<Resume, Key>>::index_of(state, r),
            Change::Contact(c) => <AppState as Apply<Contact, Key>>::index_of(state, c),
        }
    }

    fn apply(&mut self, change: &Change) -> (key: Key) {
        match change {
            Change::Resume(r) => self.apply(r),
            Change::Contact(c) => self.apply(c),
        }
    }
}

/// Why a save did not go through.
#[derive(Debug)]
pub enum SaveError<E> {
    /// The database could not be written to; the error says why.
    Storage(E),
    /// The ids that came back from the database do not fit the changes
    /// that were to be written: there is not one for each change, or one
    /// of them is taken already.
    Rejected,
}

/// The log of a store.
pub type Log = ChangeList<AppState, Key, Change>;

/// What a store is, mathematically: the state it started from, the state
/// it is in, and the changes that lie between the two, oldest first.
pub struct StoreModel {
    pub initial: AppStateModel,
    pub current: AppStateModel,
    pub changes: Seq<Change>,
}

impl StoreModel {
    /// A store that starts from `initial` with nothing changed.
    pub open spec fn fresh(initial: AppStateModel) -> Self {
        StoreModel { initial, current: initial, changes: Seq::empty() }
    }

    /// The current state is what the changes make of the initial state,
    /// and each change found room when it was made.
    pub open spec fn caught_up(self) -> bool {
        &&& Log::replayable(self.changes, self.initial)
        &&& self.current == Log::replay(self.changes, self.initial)
    }

    /// Both states are in order, and the store is caught up.
    pub open spec fn wf(self) -> bool {
        &&& self.initial.wf()
        &&& self.current.wf()
        &&& self.caught_up()
    }

    /// The store after `change` was carried out and written down.
    pub open spec fn record(self, change: Change) -> Self {
        StoreModel {
            initial: self.initial,
            current: <AppState as Apply<Change, Key>>::changed_by(self.current, change),
            changes: self.changes.push(change),
        }
    }

    /// The store after a resume was read from the database: the database
    /// holds it, so it belongs to the state the store started from as much
    /// as to the state it is in.
    pub open spec fn load_resume(self, id: i64, value: Resume) -> Self {
        StoreModel {
            initial: self.initial.load_resume(id, value),
            current: self.current.load_resume(id, value),
            changes: self.changes,
        }
    }

    /// The store after a contact was read from the database.
    pub open spec fn load_contact(self, id: i64, value: Contact) -> Self {
        StoreModel {
            initial: self.initial.load_contact(id, value),
            current: self.current.load_contact(id, value),
            changes: self.changes,
        }
    }

    /// The keys that the changes of the log gave out, oldest first.
    pub open spec fn pending_keys(self) -> Seq<Key> {
        Log::touched(self.changes, self.initial)
    }

    /// The store after the database took in what every change of the log
    /// made and gave it the id at the same position of `ids`: the state
    /// with each of those values under its id, now also the state to start
    /// from, and an empty log. `None` where the ids do not fit the log.
    pub open spec fn saved(self, ids: Seq<i64>) -> Option<Self> {
        match persist_all(self.current, self.changes, self.pending_keys(), ids) {
            Some(next) => Some(StoreModel::fresh(next)),
            None => None,
        }
    }

    /// The store after each of `changes` was carried out and written down,
    /// first to last.
    pub open spec fn record_all(self, changes: Seq<Change>) -> Self
        decreases changes.len(),
    {
        if changes.len() == 0 {
            self
        } else {
            self.record_all(changes.drop_last()).record(changes.last())
        }
    }
}

/// The state after the value that `change` made, which lives under `key`,
/// moved to the id `id` of the database; `None` where it cannot.
pub open spec fn persist_one(state: AppStateModel, change: Change, key: Key, id: i64) -> Option<
    AppStateModel,
> {
    match change {
        Change::Resume(_) => if state.resume.can_persist(key, id) {
            Some(state.persist_resume(key, id))
        } else {
            None
        },
        Change::Contact(_) => if state.contact.can_persist(key, id) {
            Some(state.persist_contact(key, id))
        } else {
            None
        },
    }
}

/// The state after the value of each change moved from its key to its id,
/// first to last; `None` where there is not one key and one id for each
/// change, or where one of the values cannot move.
pub open spec fn persist_all(
    state: AppStateModel,
    changes: Seq<Change>,
    keys: Seq<Key>,
    ids: Seq<i64>,
) -> Option<AppStateModel>
    decreases changes.len(),
{
    if changes.len() != keys.len() || changes.len() != ids.len() {
        None
    } else if changes.len() == 0 {
        Some(state)
    } else {
        match persist_all(state, changes.drop_last(), keys.drop_last(), ids.drop_last()) {
            Some(before) => persist_one(before, changes.last(), keys.last(), ids.last()),
            None => None,
        }
    }
}

/// Where all the values can move, so can those of the first `n` changes.
pub proof fn lemma_persist_all_prefix(
    state: AppStateModel,
    changes: Seq<Change>,
    keys: Seq<Key>,
    ids: Seq<i64>,
    n: int,
)
    requires
        persist_all(state, changes, keys, ids) is Some,
        0 <= n <= changes.len(),
    ensures
        persist_all(state, changes.take(n), keys.take(n), ids.take(n)) is Some,
    decreases changes.len(),
{
    if n == changes.len() {
        assert(changes.take(n) == changes);
        assert(keys.take(n) == keys);
        assert(ids.take(n) == ids);
    } else {
        lemma_persist_all_prefix(state, changes.drop_last(), keys.drop_last(), ids.drop_last(), n);
        assert(changes.drop_last().take(n) == changes.take(n));
        assert(keys.drop_last().take(n) == keys.take(n));
        assert(ids.drop_last().take(n) == ids.take(n));
    }
}

/// A log touches one key for each of its changes.
pub proof fn lemma_touched_len(changes: Seq<Change>, state: AppStateModel)
    ensures
        Log::touched(changes, state).len() == changes.len(),
    decreases changes.len(),
{
    if changes.len() > 0 {
        lemma_touched_len(changes.drop_last(), state);
    }
}

/// A value read from the database does not get in the way of the log: the
/// changes can be replayed on the state that holds it as well, and they
/// give the same state as before with the value in it.
pub proof fn lemma_replay_after_load_resume(
    changes: Seq<Change>,
    state: AppStateModel,
    id: i64,
    value: Resume,
)
    requires
        Log::replayable(changes, state),
    ensures
        Log::replayable(changes, state.load_resume(id, value)),
        Log::replay(changes, state.load_resume(id, value)) == Log::replay(
            changes,
            state,
        ).load_resume(id, value),
    decreases changes.len(),
{
    if changes.len() > 0 {
        lemma_replay_after_load_resume(changes.drop_last(), state, id, value);
        let before = Log::replay(changes.drop_last(), state);
        let after = <AppState as Apply<Change, Key>>::changed_by(
            before.load_resume(id, value),
            changes.last(),
        );
        let expected = <AppState as Apply<Change, Key>>::changed_by(
            before,
            changes.last(),
        ).load_resume(id, value);
        assert(after.resume.entries =~= expected.resume.entries);
        assert(after.contact.entries =~= expected.contact.entries);
    }
}

/// The same of a contact read from the database.
pub proof fn lemma_replay_after_load_contact(
    changes: Seq<Change>,
    state: AppStateModel,
    id: i64,
    value: Contact,
)
    requires
        Log::replayable(changes, state),
    ensures
        Log::replayable(changes, state.load_contact(id, value)),
        Log::replay(changes, state.load_contact(id, value)) == Log::replay(
            changes,
            state,
        ).load_contact(id, value),
    decreases changes.len(),
{
    if changes.len() > 0 {
        lemma_replay_after_load_contact(changes.drop_last(), state, id, value);
        let before = Log::replay(changes.drop_last(), state);
        let after = <AppState as Apply<Change, Key>>::changed_by(
            before.load_contact(id, value),
            changes.last(),
        );
        let expected = <AppState as Apply<Change, Key>>::changed_by(
            before,
            changes.last(),
        ).load_contact(id, value);
        assert(after.resume.entries =~= expected.resume.entries);
        assert(after.contact.entries =~= expected.contact.entries);
    }
}

/// The changes that a store holds, carried out on the state it started
/// from, give the state it is in: this holds of a fresh store, and each
/// change that is recorded keeps it.
pub proof fn lemma_record_keeps_caught_up(store: StoreModel, change: Change)
    requires
        store.caught_up(),
        <AppState as Apply<Change, Key>>::accepts(store.current, change),
    ensures
        store.record(change).caught_up(),
        StoreModel::fresh(store.initial).caught_up(),
        store.wf() ==> store.record(change).wf(),
{
    assert(store.changes.push(change).drop_last() == store.changes);
}

/// A resume that was added to the store is found in its current state
/// under the key it was added under, before anything else happens.
pub proof fn lemma_created_resume_is_found(store: StoreModel, value: Resume)
    requires
        store.wf(),
        store.current.resume.has_room(),
    ensures
        store.record(Change::Resume(value)).current.resume.lookup(
            store.current.resume.next_key(),
        ) == Some(value),
        store.record(Change::Resume(value)).current.contact == store.current.contact,
{
}

/// A contact that was added to the store is found in its current state
/// under the key it was added under, before anything else happens.
pub proof fn lemma_created_contact_is_found(store: StoreModel, value: Contact)
    requires
        store.wf(),
        store.current.contact.has_room(),
    ensures
        store.record(Change::Contact(value)).current.contact.lookup(
            store.current.contact.next_key(),
        ) == Some(value),
        store.record(Change::Contact(value)).current.resume == store.current.resume,
{
}

/// However many changes a store has recorded since it was fresh, replaying
/// its log on the initial state gives its current state, and the same holds
/// of every beginning of the log and the state the store was in then.
pub proof fn lemma_replay_gives_current(initial: AppStateModel, changes: Seq<Change>, n: int)
    requires
        Log::replayable(changes, initial),
        0 <= n <= changes.len(),
    ensures
        StoreModel::fresh(initial).record_all(changes.take(n)).caught_up(),
        StoreModel::fresh(initial).record_all(changes.take(n)).changes == changes.take(n),
        StoreModel::fresh(initial).record_all(changes.take(n)).current == Log::replay(
            changes.take(n),
            initial,
        ),
    decreases n,
{
    let fresh = StoreModel::fresh(initial);
    if n > 0 {
        lemma_replay_gives_current(initial, changes, n - 1);
        Log::lemma_replayable_prefix(changes, initial, n);
        assert(changes.take(n).drop_last() == changes.take(n - 1));
        let before = fresh.record_all(changes.take(n - 1));
        lemma_record_keeps_caught_up(before, changes.take(n).last());
        assert(before.changes.push(changes.take(n).last()) == changes.take(n));
    } else {
        Log::lemma_replayable_prefix(changes, initial, 0);
    }
}

/// What `state` holds under `key` among the values of the kind of `like`,
/// as a change of that kind.
pub open spec fn lookup_like(state: AppStateModel, like: Change, key: Key) -> Option<Change> {
    match like {
        Change::Resume(_) => match state.resume.lookup(key) {
            Some(r) => Some(Change::Resume(r)),
            None => None,
        },
        Change::Contact(_) => match state.contact.lookup(key) {
            Some(c) => Some(Change::Contact(c)),
            None => None,
        },
    }
}

/// Whether two changes make values of the same kind.
pub open spec fn same_kind(a: Change, b: Change) -> bool {
    a is Resume <==> b is Resume
}

/// A replay of changes that find room leaves a state in order.
pub proof fn lemma_replay_wf(changes: Seq<Change>, initial: AppStateModel)
    requires
        initial.wf(),
        Log::replayable(changes, initial),
    ensures
        Log::replay(changes, initial).wf(),
    decreases changes.len(),
{
    if changes.len() > 0 {
        lemma_replay_wf(changes.drop_last(), initial);
    }
}

/// After a replay each change's value lives under the key the change
/// touched, a temporary one, and no two changes of a kind touched the same
/// key.
pub proof fn lemma_replay_keeps_values(changes: Seq<Change>, initial: AppStateModel)
    requires
        initial.wf(),
        Log::replayable(changes, initial),
    ensures
        Log::touched(changes, initial).len() == changes.len(),
        forall|i: int|
            0 <= i < changes.len() ==> (#[trigger] Log::touched(changes, initial)[i]) is Tmp
                && lookup_like(
                Log::replay(changes, initial),
                changes[i],
                Log::touched(changes, initial)[i],
            ) == Some(changes[i]),
        forall|i: int, j: int|
            0 <= i < j < changes.len() && same_kind(changes[i], changes[j]) ==> (
            #[trigger] Log::touched(changes, initial)[i]) != (#[trigger] Log::touched(
                changes,
                initial,
            )[j]),
    decreases changes.len(),
{
    lemma_touched_len(changes, initial);
    if changes.len() > 0 {
        let front = changes.drop_last();
        let last = changes.len() - 1;
        lemma_replay_keeps_values(front, initial);
        lemma_replay_wf(front, initial);
        lemma_touched_len(front, initial);
        let before = Log::replay(front, initial);
        let after = Log::replay(changes, initial);
        let keys = Log::touched(changes, initial);
        assert forall|i: int| 0 <= i < changes.len() implies (#[trigger] keys[i]) is Tmp
            && lookup_like(after, changes[i], keys[i]) == Some(changes[i]) by {
            if i < last {
                assert(keys[i] == Log::touched(front, initial)[i]);
                assert(changes[i] == front[i]);
                assert(lookup_like(before, front[i], keys[i]) == Some(front[i]));
            }
        }
        assert forall|i: int, j: int|
            0 <= i < j < changes.len() && same_kind(changes[i], changes[j]) implies (
        #[trigger] keys[i]) != (#[trigger] keys[j]) by {
            assert(keys[i] == Log::touched(front, initial)[i]);
            assert(changes[i] == front[i]);
            if j < last {
                assert(keys[j] == Log::touched(front, initial)[j]);
                assert(changes[j] == front[j]);
            } else {
                assert(lookup_like(before, front[i], keys[i]) == Some(front[i]));
            }
        }
    }
}

/// Where every value can move from its key to its id, each value is found
/// under its id afterwards, given that the keys are temporary and that no
/// two changes of a kind share a key.
pub proof fn lemma_persist_all_moves_values(
    state: AppStateModel,
    changes: Seq<Change>,
    keys: Seq<Key>,
    ids: Seq<i64>,
)
    requires
        persist_all(state, changes, keys, ids) is Some,
        forall|i: int| 0 <= i < changes.len() ==> (#[trigger] keys[i]) is Tmp,
        forall|i: int, j: int|
            0 <= i < j < changes.len() && same_kind(changes[i], changes[j]) ==> (
            #[trigger] keys[i]) != (#[trigger] keys[j]),
    ensures
        forall|i: int|
            0 <= i < changes.len() ==> lookup_like(
                persist_all(state, changes, keys, ids)->Some_0,
                changes[i],
                Key::Db(#[trigger] ids[i]),
            ) == lookup_like(state, changes[i], keys[i]) && lookup_like(
                state,
                changes[i],
                keys[i],
            ) is Some && lookup_like(
                persist_all(state, changes, keys, ids)->Some_0,
                changes[i],
                keys[i],
            ) is None,
        forall|like: Change, key: Key|
            key is Tmp && (forall|j: int|
                0 <= j < changes.len() && same_kind(changes[j], like) ==> (#[trigger] keys[j])
                    != key) ==> #[trigger] lookup_like(
                persist_all(state, changes, keys, ids)->Some_0,
                like,
                key,
            ) == lookup_like(state, like, key),
    decreases changes.len(),
{
    if changes.len() > 0 {
        let last = changes.len() - 1;
        let front = changes.drop_last();
        let front_keys = keys.drop_last();
        let front_ids = ids.drop_last();
        let before = persist_all(state, front, front_keys, front_ids)->Some_0;
        let after = persist_all(state, changes, keys, ids)->Some_0;
        assert forall|i: int| 0 <= i < front.len() implies (#[trigger] front_keys[i]) is Tmp by {
            assert(front_keys[i] == keys[i]);
        }
        assert forall|i: int, j: int|
            0 <= i < j < front.len() && same_kind(front[i], front[j]) implies (
        #[trigger] front_keys[i]) != (#[trigger] front_keys[j]) by {
            assert(front_keys[i] == keys[i] && front_keys[j] == keys[j]);
            assert(front[i] == changes[i] && front[j] == changes[j]);
        }
        lemma_persist_all_moves_values(state, front, front_keys, front_ids);
        // the value of the last change was still where the state had it
        assert(lookup_like(before, changes[last], keys[last]) == lookup_like(
            state,
            changes[last],
            keys[last],
        )) by {
            assert forall|j: int|
                0 <= j < front.len() && same_kind(front[j], changes[last]) implies (
            #[trigger] front_keys[j]) != keys[last] by {
                assert(front_keys[j] == keys[j]);
                assert(front[j] == changes[j]);
            }
        }
        assert forall|i: int| 0 <= i < changes.len() implies lookup_like(
            after,
            changes[i],
            Key::Db(#[trigger] ids[i]),
        ) == lookup_like(state, changes[i], keys[i]) && lookup_like(state, changes[i], keys[i])
            is Some && lookup_like(after, changes[i], keys[i]) is None by {
            if i < last {
                assert(front[i] == changes[i]);
                assert(front_keys[i] == keys[i]);
                assert(front_ids[i] == ids[i]);
                assert(lookup_like(before, front[i], Key::Db(front_ids[i])) == lookup_like(
                    state,
                    front[i],
                    front_keys[i],
                ));
                assert(lookup_like(state, front[i], front_keys[i]) is Some);
                assert(lookup_like(before, front[i], front_keys[i]) is None);
                if same_kind(changes[i], changes[last]) {
                    assert(keys[i] != keys[last]);
                    assert(ids[i] != ids[last]);
                }
            }
        }
        assert forall|like: Change, key: Key|
            key is Tmp && (forall|j: int|
                0 <= j < changes.len() && same_kind(changes[j], like) ==> (#[trigger] keys[j])
                    != key) implies #[trigger] lookup_like(after, like, key) == lookup_like(
            state,
            like,
            key,
        ) by {
            assert forall|j: int| 0 <= j < front.len() && same_kind(front[j], like) implies (
            #[trigger] front_keys[j]) != key by {
                assert(front_keys[j] == keys[j]);
                assert(front[j] == changes[j]);
            }
            assert(lookup_like(before, like, key) == lookup_like(state, like, key));
            assert(same_kind(changes[last], like) ==> keys[last] != key);
        }
    }
}

/// What a save does to the values: each value that the log had made lives
/// under the id that the database gave it, and no longer under its
/// temporary key.
pub proof fn lemma_saved_is_found(store: StoreModel, ids: Seq<i64>, at: int)
    requires
        store.wf(),
        store.saved(ids) is Some,
        0 <= at < store.changes.len(),
    ensures
        ids.len() == store.changes.len(),
        lookup_like(store.saved(ids)->Some_0.current, store.changes[at], Key::Db(ids[at]))
            == Some(store.changes[at]),
        lookup_like(store.saved(ids)->Some_0.current, store.changes[at], store.pending_keys()[at])
            is None,
        store.saved(ids)->Some_0.initial == store.saved(ids)->Some_0.current,
        store.saved(ids)->Some_0.changes.len() == 0,
{
    lemma_replay_keeps_values(store.changes, store.initial);
    lemma_persist_all_moves_values(store.current, store.changes, store.pending_keys(), ids);
    assert(store.pending_keys()[at] is Tmp);
}

/// What the store holds in memory. The three belong together: `current`
/// is always `initial` with `changes` carried out.
#[derive(Debug)]
struct Staged {
    initial: AppState,
    current: AppState,
    changes: Log,
}

impl Staged {
    spec fn model(&self) -> StoreModel {
        StoreModel { initial: self.initial@, current: self.current@, changes: self.changes@ }
    }

    fn new() -> (staged: Self)
        ensures
            staged.model() == StoreModel::fresh(AppStateModel::empty()),
    {
        Self { initial: AppState::new(), current: AppState::new(), changes: ChangeList::new() }
    }

    /// Carries `change` out on the current state, then writes it down.
    fn record(&mut self, change: Change) -> (key: Key)
        requires
            <AppState as Apply<Change, Key>>::accepts(old(self).model().current, change),
        ensures
            final(self).model() == old(self).model().record(change),
            key == <AppState as Apply<Change, Key>>::index_of(old(self).model().current, change),
    {
        let key = self.current.apply(&change);
        self.changes.push(change);
        key
    }
}

/// A data store: the application state, and the way to the database that
/// the state is read from and written to.
///
/// The store keeps the state it started from and the state it is in, and
/// between the two the list of changes made: whoever carries these out on
/// the first arrives at the second.
#[derive(Debug)]
pub struct Store<Pool> {
    pool: Pool,
    staged: Staged,
}

/// The store of the application: a store on a pool of SQLite connections.
pub type SqliteStore = Store<SqlitePool>;

impl<Pool> View for Store<Pool> {
    type V = StoreModel;

    closed spec fn view(&self) -> StoreModel {
        self.staged.model()
    }
}

impl<Pool> Store<Pool> {
    #[verifier::type_invariant]
    spec fn inv(&self) -> bool {
        self.staged.model().wf()
    }

    /// A store on the database behind `pool`, with nothing in it yet.
    pub fn new(pool: Pool) -> (store: Self)
        ensures
            store@ == StoreModel::fresh(AppStateModel::empty()),
            store@.wf(),
            store.spec_pool() == pool,
    {
        Self { pool, staged: Staged::new() }
    }

    /// The way to the database.
    pub closed spec fn spec_pool(&self) -> Pool {
        self.pool
    }

    /// The way to the database.
    pub fn pool(&self) -> (pool: &Pool)
        ensures
            *pool == self.spec_pool(),
    {
        &self.pool
    }

    /// The state the store started from.
    pub fn initial(&self) -> (state: &AppState)
        ensures
            state@ == self@.initial,
            self@.wf(),
    {
        proof {
            use_type_invariant(self);
        }
        &self.staged.initial
    }

    /// The state the store is in.
    pub fn current(&self) -> (state: &AppState)
        ensures
            state@ == self@.current,
            self@.wf(),
    {
        proof {
            use_type_invariant(self);
        }
        &self.staged.current
    }

    /// The changes made since the store started, oldest first.
    pub fn changes(&self) -> (log: &Log)
        ensures
            log@ == self@.changes,
            self@.wf(),
    {
        proof {
            use_type_invariant(self);
        }
        &self.staged.changes
    }

    /// Whether the store has to refuse another value of some kind.
    pub fn is_full(&self) -> (full: bool)
        ensures
            full == !(self@.current.resume.has_room() && self@.current.contact.has_room()),
            self@.wf(),
    {
        proof {
            use_type_invariant(self);
        }
        self.staged.current.is_full()
    }

    /// Takes in a resume that was read from the database, under the id it
    /// has there: what a lookup that found nothing in memory leads to, once
    /// the database has answered.
    pub fn load_resume(&mut self, id: i64, value: Resume)
        ensures
            final(self)@ == old(self)@.load_resume(id, value),
            final(self)@.wf(),
            final(self).spec_pool() == old(self).spec_pool(),
    {
        proof {
            use_type_invariant(&*self);
            lemma_replay_after_load_resume(self@.changes, self@.initial, id, value);
        }
        let mut staged = Staged::new();
        std::mem::swap(&mut staged, &mut self.staged);
        staged.initial.load_resume(id, value.clone());
        staged.current.load_resume(id, value);
        self.staged = staged;
    }

    /// Takes in a contact that was read from the database, under the id it
    /// has there.
    pub fn load_contact(&mut self, id: i64, value: Contact)
        ensures
            final(self)@ == old(self)@.load_contact(id, value),
            final(self)@.wf(),
            final(self).spec_pool() == old(self).spec_pool(),
    {
        proof {
            use_type_invariant(&*self);
            lemma_replay_after_load_contact(self@.changes, self@.initial, id, value);
        }
        let mut staged = Staged::new();
        std::mem::swap(&mut staged, &mut self.staged);
        staged.initial.load_contact(id, value.clone());
        staged.current.load_contact(id, value);
        self.staged = staged;
    }

    /// Finishes a save, given what came of writing the log to the
    /// database: the id that the database gave to the value of each change,
    /// oldest first, or the error that kept it from doing so.
    ///
    /// With the ids, every value that the log made moves from its temporary
    /// key to its id, the state that results is the one to start from, and
    /// the log is empty. With an error, or with ids that do not fit,
    /// nothing changes at all, so the save can be tried again.
    pub fn save<E>(&mut self, written: Result<Vec<i64>, E>) -> (r: Result<(), SaveError<E>>)
        ensures
            written matches Err(e) ==> r == Err::<(), SaveError<E>>(SaveError::Storage(e))
                && final(self)@ == old(self)@,
            written matches Ok(ids) ==> match old(self)@.saved(ids@) {
                Some(after) => r is Ok && final(self)@ == after,
                None => r == Err::<(), SaveError<E>>(SaveError::Rejected) && final(self)@ == old(
                    self,
                )@,
            },
            final(self)@.wf(),
            final(self).spec_pool() == old(self).spec_pool(),
    {
        proof {
            use_type_invariant(&*self);
        }
        let ids = match written {
            Ok(ids) => ids,
            Err(e) => {
                return Err(SaveError::Storage(e));
            },
        };
        let ghost model = self@;
        proof {
            lemma_touched_len(model.changes, model.initial);
        }
        let count = self.staged.changes.len();
        if ids.len() != count {
            return Err(SaveError::Rejected);
        }
        let mut next = self.staged.initial.clone();
        let keys = self.staged.changes.apply_all(&mut next);
        let mut at: usize = 0;
        while at < count
            invariant
                *self == *old(self),
                self@ == model,
                model.wf(),
                written == Ok::<Vec<i64>, E>(ids),
                at <= count,
                count == model.changes.len(),
                ids@.len() == count,
                keys@.len() == count,
                keys@ == model.pending_keys(),
                self.staged.changes@ == model.changes,
                next@.wf(),
                persist_all(
                    model.current,
                    model.changes.take(at as int),
                    keys@.take(at as int),
                    ids@.take(at as int),
                ) == Some(next@),
            decreases count - at,
        {
            proof {
                assert(model.changes.take(at + 1).drop_last() == model.changes.take(at as int));
                assert(keys@.take(at + 1).drop_last() == keys@.take(at as int));
                assert(ids@.take(at + 1).drop_last() == ids@.take(at as int));
            }
            let done = match self.staged.changes.get(at) {
                Some(Change::Resume(_)) => next.persist_resume(&keys[at], ids[at]),
                Some(Change::Contact(_)) => next.persist_contact(&keys[at], ids[at]),
                None => false,
            };
            if !done {
                proof {
                    if persist_all(model.current, model.changes, keys@, ids@) is Some {
                        lemma_persist_all_prefix(
                            model.current,
                            model.changes,
                            keys@,
                            ids@,
                            at + 1,
                        );
                    }
                }
                return Err(SaveError::Rejected);
            }
            at += 1;
        }
        proof {
            assert(model.changes.take(at as int) == model.changes);
            assert(keys@.take(at as int) == keys@);
            assert(ids@.take(at as int) == ids@);
        }
        let staged = Staged { initial: next.clone(), current: next, changes: ChangeList::new() };
        self.staged = staged;
        Ok(())
    }

    /// Carries `change` out and writes it down, as one step.
    fn record(&mut self, change: Change) -> (key: Key)
        requires
            <AppState as Apply<Change, Key>>::accepts(old(self)@.current, change),
        ensures
            final(self)@ == old(self)@.record(change),
            key == <AppState as Apply<Change, Key>>::index_of(old(self)@.current, change),
            old(self)@.wf(),
            final(self)@.wf(),
            final(self).spec_pool() == old(self).spec_pool(),
    {
        proof {
            use_type_invariant(&*self);
            lemma_record_keeps_caught_up(self@, change);
        }
        let mut staged = Staged::new();
        std::mem::swap(&mut staged, &mut self.staged);
        let key = staged.record(change);
        self.staged = staged;
        key
    }
}

/// Add resumes to the store: the state takes the resume in, and the log
/// remembers that it did.
impl<Pool> AddNew<Resume, Key> for Store<Pool> {
    open spec fn held(&self) -> Map<Key, Resume> {
        self@.current.resume.entries
    }

    open spec fn next_index(&self) -> Key {
        self@.current.resume.next_key()
    }

    open spec fn has_room(&self) -> bool {
        self@.current.resume.has_room()
    }

    fn add_new(&mut self, value: Resume) -> (key: Key)
        ensures
            final(self)@ == old(self)@.record(Change::Resume(value)),
            old(self)@.wf(),
            final(self)@.wf(),
            final(self).spec_pool() == old(self).spec_pool(),
    {
        self.record(Change::Resume(value))
    }
}

/// Add contacts to the store, in the same way.
impl<Pool> AddNew<Contact, Key> for Store<Pool> {
    open spec fn held(&self) -> Map<Key, Contact> {
        self@.current.contact.entries
    }

    open spec fn next_index(&self) -> Key {
        self@.current.contact.next_key()
    }

    open spec fn has_room(&self) -> bool {
        self@.current.contact.has_room()
    }

    fn add_new(&mut self, value: Contact) -> (key: Key)
        ensures
            final(self)@ == old(self)@.record(Change::Contact(value)),
            old(self)@.wf(),
            final(self)@.wf(),
            final(self).spec_pool() == old(self).spec_pool(),
    {
        self.record(Change::Contact(value))
    }
}

impl<Pool> Get<Resume, Key> for Store<Pool> {
    open spec fn found(&self, key: Key) -> Option<Resume> {
        self@.current.resume.lookup(key)
    }

    fn get(&self, key: &Key) -> (r: Option<&Resume>) {
        self.staged.current.get(key)
    }
}

impl<Pool> Get<Contact, Key> for Store<Pool> {
    open spec fn found(&self, key: Key) -> Option<Contact> {
        self@.current.contact.lookup(key)
    }

    fn get(&self, key: &Key) -> (r: Option<&Contact>) {
        self.staged.current.get(key)
    }
}

} // verus!
