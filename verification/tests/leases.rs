use coupe::session::Session;

const SEC: i128 = 1_000_000_000;

#[test]
fn new_session_ends_after_its_duration() {
    let now: i128 = 1_000 * SEC;
    let s = Session::new(String::from("echo"), 5, now);
    assert_eq!(s.function_name, "echo");
    assert_eq!(s.ends_at, 1_005 * SEC);
}

#[test]
fn expiry_is_strictly_before_now() {
    let s = Session {
        function_name: String::from("echo"),
        ends_at: 100,
    };
    assert!(!s.is_expired_at(99));
    assert!(!s.is_expired_at(100));
    assert!(s.is_expired_at(101));
}

#[test]
fn live_lease_is_never_shortened() {
    let now: i128 = 50;
    let live = Session {
        function_name: String::from("echo"),
        ends_at: 200,
    };
    // A lower candidate leaves the live deadline in place.
    assert_eq!(live.effective_ends_at(150, now), 200);
    // A higher candidate extends it.
    assert_eq!(live.effective_ends_at(250, now), 250);
}

#[test]
fn expired_lease_is_replaced_by_the_candidate() {
    let now: i128 = 300;
    let expired = Session {
        function_name: String::from("echo"),
        ends_at: 200,
    };
    assert_eq!(expired.effective_ends_at(310, now), 310);
    // Even a candidate below the stale deadline replaces it.
    assert_eq!(expired.effective_ends_at(250, now), 250);
}

#[test]
fn serial_extends_end_at_the_maximum() {
    // The monotone-lease law on concrete values: any order of extends
    // leaves the maximum candidate.
    let now: i128 = 10;
    let mut current = Session {
        function_name: String::from("echo"),
        ends_at: 40,
    };
    for candidate in [30i128, 90, 60, 45] {
        current.ends_at = current.effective_ends_at(candidate, now);
    }
    assert_eq!(current.ends_at, 90);
    let mut current2 = Session {
        function_name: String::from("echo"),
        ends_at: 40,
    };
    for candidate in [90i128, 45, 30, 60] {
        current2.ends_at = current2.effective_ends_at(candidate, now);
    }
    assert_eq!(current2.ends_at, 90);
}
