use res_gen::changelist::ChangeList;
use res_gen::model::{Contact, Resume};
use res_gen::state::{AddNew, AppState, Get, Key};
use res_gen::store::{Change, SaveError, SqliteStore, Store};
use sqlx::SqlitePool;

fn name_of(found: Option<&Resume>) -> Option<String> {
    found.map(|r| r.name().clone())
}

#[test]
fn a_new_store_is_empty() {
    let store = Store::new(());
    assert!(!store.is_full());
    assert_eq!(store.changes().len(), 0);
    assert_eq!(name_of(store.get(&Key::Tmp(0))), None);
    let contact: Option<&Contact> = store.get(&Key::Tmp(0));
    assert!(contact.is_none());
}

#[test]
fn a_store_carries_its_pool() {
    let runtime = tokio::runtime::Builder::new_current_thread()
        .build()
        .unwrap();
    let _context = runtime.enter();
    let pool = SqlitePool::connect_lazy("sqlite::memory:").unwrap();
    let mut store = SqliteStore::new(pool);
    let key = store.add_new(Resume::new("with a database".into()));
    assert_eq!(key, Key::Tmp(0));
    assert_eq!(name_of(store.get(&key)), Some("with a database".to_string()));
    assert!(!store.pool().is_closed());
}

#[test]
fn what_was_created_is_found_under_its_key() {
    let mut store = Store::new(());
    let first = store.add_new(Resume::new("first".into()));
    assert_eq!(first, Key::Tmp(0));
    assert_eq!(name_of(store.get(&first)), Some("first".to_string()));
    let second = store.add_new(Resume::new("second".into()));
    assert_eq!(second, Key::Tmp(1));
    assert_eq!(name_of(store.get(&second)), Some("second".to_string()));
    // the first is still where it was
    assert_eq!(name_of(store.get(&first)), Some("first".to_string()));
}

#[test]
fn contacts_and_resumes_have_keys_of_their_own() {
    let mut store = Store::new(());
    let resume = store.add_new(Resume::new("cv".into()));
    let contact = store.add_new(Contact::new("home".into(), "https://example.org".into()));
    assert_eq!(resume, Key::Tmp(0));
    assert_eq!(contact, Key::Tmp(0));
    let found: Option<&Contact> = store.get(&contact);
    assert_eq!(found.map(|c| c.href().as_str()), Some("https://example.org"));
    let none: Option<&Contact> = store.get(&Key::Tmp(1));
    assert!(none.is_none());
}

#[test]
fn keys_never_given_out_find_nothing() {
    let mut store = Store::new(());
    store.add_new(Resume::new("only".into()));
    assert_eq!(name_of(store.get(&Key::Tmp(1))), None);
    assert_eq!(name_of(store.get(&Key::Tmp(-5))), None);
    assert_eq!(name_of(store.get(&Key::Db(0))), None);
    assert_eq!(name_of(store.get(&Key::Db(i64::MAX))), None);
}

#[test]
fn getting_twice_gives_the_same() {
    let mut store = Store::new(());
    let key = store.add_new(Resume::new("stable".into()));
    let first = name_of(store.get(&key));
    let second = name_of(store.get(&key));
    assert_eq!(first, second);
    assert_eq!(first, Some("stable".to_string()));
}

#[test]
fn every_change_is_written_down() {
    let mut store = Store::new(());
    store.add_new(Resume::new("one".into()));
    store.add_new(Contact::new("two".into(), "tel:2".into()));
    store.add_new(Resume::new("three".into()));
    let log = store.changes();
    assert_eq!(log.len(), 3);
    assert!(matches!(log.get(0), Some(Change::Resume(r)) if r.name() == "one"));
    assert!(matches!(log.get(1), Some(Change::Contact(c)) if c.display() == "two"));
    assert!(matches!(log.get(2), Some(Change::Resume(r)) if r.name() == "three"));
    assert!(log.get(3).is_none());
}

#[test]
fn replaying_the_log_on_the_initial_state_gives_the_current_state() {
    let mut store = Store::new(());
    let mut keys = Vec::new();
    for name in ["a", "b", "c"] {
        keys.push(store.add_new(Resume::new(name.to_string())));
        let contact = store.add_new(Contact::new(name.to_string(), format!("mailto:{name}")));
        assert_eq!(Some(&contact), keys.last());

        // after each change: the log, replayed on a copy of the initial
        // state, arrives where the store is
        let mut replayed: AppState = store.initial().clone();
        let touched = store.changes().apply_all(&mut replayed);
        assert_eq!(touched.len(), store.changes().len());
        for key in &keys {
            let here: Option<&Resume> = store.current().get(key);
            let there: Option<&Resume> = replayed.get(key);
            assert_eq!(name_of(here), name_of(there));
            let here: Option<&Contact> = store.current().get(key);
            let there: Option<&Contact> = replayed.get(key);
            assert_eq!(here.map(|c| c.href().clone()), there.map(|c| c.href().clone()));
        }
        assert_eq!(replayed.is_full(), store.current().is_full());
        // and the next key it would give is the store's next key
        let next_here = store.current().clone().add_new(Resume::new("probe".into()));
        let next_there = replayed.add_new(Resume::new("probe".into()));
        assert_eq!(next_here, next_there);
    }
    assert_eq!(keys, vec![Key::Tmp(0), Key::Tmp(1), Key::Tmp(2)]);
}

#[test]
fn a_change_list_of_resumes_applies_to_a_state() {
    let mut log: ChangeList<AppState, Key, Resume> = ChangeList::new();
    log.push(Resume::new("x".into()));
    log.push(Resume::new("y".into()));
    let mut state = AppState::new();
    let touched = log.apply_all(&mut state);
    assert_eq!(touched, vec![Key::Tmp(0), Key::Tmp(1)]);
    let found: Option<&Resume> = state.get(&Key::Tmp(1));
    assert_eq!(name_of(found), Some("y".to_string()));
}

fn snapshot(store: &Store<()>) -> (Vec<Option<String>>, Vec<Option<String>>, Vec<String>) {
    let keys = [
        Key::Tmp(0),
        Key::Tmp(1),
        Key::Tmp(2),
        Key::Db(1),
        Key::Db(2),
        Key::Db(10),
        Key::Db(20),
    ];
    let resumes = keys.iter().map(|k| name_of(store.get(k))).collect();
    let contacts = keys
        .iter()
        .map(|k| {
            let found: Option<&Contact> = store.get(k);
            found.map(|c| format!("{} {}", c.display(), c.href()))
        })
        .collect();
    let mut log = Vec::new();
    for at in 0..store.changes().len() {
        log.push(format!("{:?}", store.changes().get(at).unwrap()));
    }
    (resumes, contacts, log)
}

#[test]
fn a_failed_save_changes_nothing() {
    let mut store = Store::new(());
    store.add_new(Resume::new("kept".into()));
    store.add_new(Contact::new("also".into(), "kept".into()));
    let before = snapshot(&store);
    let before_debug = format!("{store:?}");

    let outcome = store.save(Err("the database is unavailable"));
    assert!(matches!(
        outcome,
        Err(SaveError::Storage("the database is unavailable"))
    ));
    assert_eq!(snapshot(&store), before);
    assert_eq!(format!("{store:?}"), before_debug);
    assert_eq!(store.changes().len(), 2);

    // and the save can be tried again
    assert!(store.save::<&str>(Ok(vec![10, 20])).is_ok());
    assert_eq!(store.changes().len(), 0);
}

#[test]
fn a_save_moves_the_values_to_their_ids() {
    let mut store = Store::new(());
    let first = store.add_new(Resume::new("first".into()));
    let contact = store.add_new(Contact::new("mail".into(), "mailto:x".into()));
    let second = store.add_new(Resume::new("second".into()));
    assert_eq!((first, contact, second), (Key::Tmp(0), Key::Tmp(0), Key::Tmp(1)));

    assert!(store.save::<()>(Ok(vec![10, 1, 20])).is_ok());

    // the values live under the ids of the database now
    assert_eq!(name_of(store.get(&Key::Db(10))), Some("first".to_string()));
    assert_eq!(name_of(store.get(&Key::Db(20))), Some("second".to_string()));
    let found: Option<&Contact> = store.get(&Key::Db(1));
    assert_eq!(found.map(|c| c.display().as_str()), Some("mail"));
    // and no longer under the temporary keys
    assert_eq!(name_of(store.get(&first)), None);
    assert_eq!(name_of(store.get(&second)), None);
    let gone: Option<&Contact> = store.get(&contact);
    assert!(gone.is_none());
    // the log is empty, and the saved state is the one to start from
    assert_eq!(store.changes().len(), 0);
    let at_start: Option<&Resume> = store.initial().get(&Key::Db(10));
    assert_eq!(name_of(at_start), Some("first".to_string()));
    // a temporary key is never given out twice
    assert_eq!(store.add_new(Resume::new("third".into())), Key::Tmp(2));
    assert_eq!(store.changes().len(), 1);
}

#[test]
fn ids_that_do_not_fit_are_refused() {
    let mut store = Store::new(());
    store.add_new(Resume::new("a".into()));
    store.add_new(Resume::new("b".into()));
    let before = snapshot(&store);

    // too few, too many
    assert!(matches!(store.save::<()>(Ok(vec![1])), Err(SaveError::Rejected)));
    assert_eq!(snapshot(&store), before);
    assert!(matches!(store.save::<()>(Ok(vec![1, 2, 3])), Err(SaveError::Rejected)));
    assert_eq!(snapshot(&store), before);
    // the same id twice
    assert!(matches!(store.save::<()>(Ok(vec![2, 2])), Err(SaveError::Rejected)));
    assert_eq!(snapshot(&store), before);
    // an id that the store holds already
    store.load_resume(10, Resume::new("from the database".into()));
    let before = snapshot(&store);
    assert!(matches!(store.save::<()>(Ok(vec![1, 10])), Err(SaveError::Rejected)));
    assert_eq!(snapshot(&store), before);
    assert_eq!(store.changes().len(), 2);

    // ids of different kinds do not get in each other's way
    store.add_new(Contact::new("c".into(), "d".into()));
    assert!(store.save::<()>(Ok(vec![1, 2, 1])).is_ok());
    assert_eq!(name_of(store.get(&Key::Db(2))), Some("b".to_string()));
}

#[test]
fn an_empty_log_saves_to_nothing() {
    let mut store = Store::new(());
    assert!(store.save::<()>(Ok(vec![])).is_ok());
    assert_eq!(store.changes().len(), 0);
    assert!(matches!(
        store.save::<()>(Ok(vec![1])),
        Err(SaveError::Rejected)
    ));
}

#[test]
fn what_the_database_holds_can_be_loaded() {
    let mut store = Store::new(());
    let pending = store.add_new(Resume::new("pending".into()));
    assert_eq!(name_of(store.get(&Key::Db(7))), None);
    store.load_resume(7, Resume::new("seven".into()));
    store.load_contact(7, Contact::new("seven".into(), "tel:7".into()));
    assert_eq!(name_of(store.get(&Key::Db(7))), Some("seven".to_string()));
    let found: Option<&Contact> = store.get(&Key::Db(7));
    assert_eq!(found.map(|c| c.href().as_str()), Some("tel:7"));
    // what was pending still is, and the log has not grown
    assert_eq!(name_of(store.get(&pending)), Some("pending".to_string()));
    assert_eq!(store.changes().len(), 1);
    // the loaded value belongs to the initial state too
    let at_start: Option<&Resume> = store.initial().get(&Key::Db(7));
    assert_eq!(name_of(at_start), Some("seven".to_string()));
    let not_at_start: Option<&Resume> = store.initial().get(&pending);
    assert!(not_at_start.is_none());
}
