use coupe::session::Session;
use coupe::store::SessionStore;

const SEC: i128 = 1_000_000_000;

fn open(dir: &str) -> SessionStore {
    SessionStore::open(dir).expect("store must open")
}

#[test]
fn extend_or_create_creates_then_extends_monotonically() {
    let mut store = open("/tmp/coupe-test-extend");
    let name = String::from("echo-extend");
    store.delete_session(&name).expect("delete");
    let now: i128 = 100 * SEC;

    // Absent: the candidate is written.
    let eff = store.extend_or_create(&name, now + 5 * SEC, now).expect("create");
    assert_eq!(eff, now + 5 * SEC);

    // Live, later candidate: extended.
    let eff = store.extend_or_create(&name, now + 9 * SEC, now).expect("extend");
    assert_eq!(eff, now + 9 * SEC);

    // Live, earlier candidate: never regresses.
    let eff = store.extend_or_create(&name, now + 2 * SEC, now).expect("keep");
    assert_eq!(eff, now + 9 * SEC);

    // Expired record: replaced even by a lower candidate.
    let later: i128 = now + 100 * SEC;
    let eff = store.extend_or_create(&name, later + 1 * SEC, later).expect("replace");
    assert_eq!(eff, later + 1 * SEC);

    store.delete_session(&name).expect("cleanup");
}

#[test]
fn save_session_returns_the_effective_lease() {
    let mut store = open("/tmp/coupe-test-save");
    let name = String::from("echo-save");
    store.delete_session(&name).expect("delete");
    let now: i128 = 7_000 * SEC;

    let first = Session {
        function_name: name.clone(),
        ends_at: now + 30 * SEC,
    };
    let saved = store.save_session(&first, now).expect("save");
    assert_eq!(saved.function_name, name);
    assert_eq!(saved.ends_at, now + 30 * SEC);

    // A second request with a shorter bid sees the longer stored lease.
    let second = Session {
        function_name: name.clone(),
        ends_at: now + 10 * SEC,
    };
    let saved = store.save_session(&second, now).expect("save again");
    assert_eq!(saved.ends_at, now + 30 * SEC);

    let read = store.get_session(name.as_str()).expect("get").expect("present");
    assert_eq!(read.ends_at, now + 30 * SEC);
    store.delete_session(&name).expect("cleanup");
}

#[test]
fn delete_session_is_idempotent() {
    let mut store = open("/tmp/coupe-test-delete");
    let name = String::from("echo-delete");
    let now: i128 = 1;
    store.extend_or_create(&name, 60 * SEC, now).expect("create");
    store.delete_session(&name).expect("first delete");
    assert!(store.get_session(name.as_str()).expect("get").is_none());
    // Deleting an absent lease succeeds and changes nothing.
    store.delete_session(&name).expect("second delete");
    assert!(store.get_session(name.as_str()).expect("get").is_none());
}

#[test]
fn store_survives_a_restart() {
    let dir = "/tmp/coupe-test-restart";
    let name = String::from("echo-restart");
    let now: i128 = 50_000 * SEC;
    {
        let mut store = open(dir);
        store.delete_session(&name).expect("delete");
        store.extend_or_create(&name, now + 60 * SEC, now).expect("create");
    }
    // A new handle on the same directory recovers the committed lease.
    let store = open(dir);
    let read = store.get_session(name.as_str()).expect("get").expect("recovered");
    assert_eq!(read.function_name, name);
    assert_eq!(read.ends_at, now + 60 * SEC);

    // The reaper does not see it before its deadline.
    let expired = store.get_expired_sessions(now).expect("sweep");
    assert!(expired.iter().all(|s| s.function_name != name));
    let mut store = store;
    store.delete_session(&name).expect("cleanup");
}

#[test]
fn expired_leases_are_swept_and_live_ones_kept() {
    let mut store = open("/tmp/coupe-test-sweep");
    let hot = String::from("fn-hot");
    let cold = String::from("fn-cold");
    store.delete_session(&hot).expect("delete");
    store.delete_session(&cold).expect("delete");
    let now: i128 = 9_000 * SEC;
    store.extend_or_create(&hot, now + 60 * SEC, now).expect("create hot");
    store.extend_or_create(&cold, now + 1 * SEC, now).expect("create cold");

    let later = now + 3 * SEC;
    let expired = coupe::reaper::sweep_work(&store, later).expect("sweep");
    assert!(expired.iter().any(|s| s.function_name == cold));
    assert!(expired.iter().all(|s| s.function_name != hot));
    assert!(expired.iter().all(|s| s.ends_at < later));

    let all = store.get_all_sessions().expect("all");
    assert!(all.iter().any(|s| s.function_name == hot));
    assert!(all.iter().any(|s| s.function_name == cold));

    store.delete_session(&hot).expect("cleanup");
    store.delete_session(&cold).expect("cleanup");
}

#[test]
fn unstorable_names_are_rejected_before_the_medium() {
    let mut store = open("/tmp/coupe-test-name-bounds");
    // The store keys records by the name's UTF-8 bytes; the medium
    // refuses an empty key and keys over 65535 bytes, so the library
    // rejects such names instead of reaching it.
    let empty = String::new();
    assert!(matches!(
        store.extend_or_create(&empty, 1, 0),
        Err(coupe::SentinelError::InvalidInput(_))
    ));
    assert!(matches!(
        store.delete_session(""),
        Err(coupe::SentinelError::InvalidInput(_))
    ));
    let oversized = "x".repeat(65536);
    assert!(matches!(
        store.extend_or_create(&oversized, 1, 0),
        Err(coupe::SentinelError::InvalidInput(_))
    ));
    assert!(matches!(
        store.delete_session(&oversized),
        Err(coupe::SentinelError::InvalidInput(_))
    ));
    // A single-byte name is within bounds.
    let smallest = String::from("x");
    store.extend_or_create(&smallest, 60, 0).expect("smallest storable name");
    store.delete_session(&smallest).expect("cleanup");
}

#[test]
fn repeated_saves_keep_one_record_per_function() {
    let mut store = open("/tmp/coupe-test-one-record");
    let name = String::from("echo-one");
    store.delete_session(&name).expect("delete");
    let now: i128 = 100 * SEC;
    store.extend_or_create(&name, now + 5 * SEC, now).expect("create");
    store.extend_or_create(&name, now + 9 * SEC, now).expect("extend");
    store.extend_or_create(&name, now + 7 * SEC, now).expect("keep");
    let all = store.get_all_sessions().expect("all");
    assert_eq!(all.iter().filter(|s| s.function_name == name).count(), 1);
    store.delete_session(&name).expect("cleanup");
}
