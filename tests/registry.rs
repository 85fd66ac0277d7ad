use listenwithme::{ListenerId, PresenceRegistry, PRESENCE_TTL_NANOS};

const SECOND: u64 = 1_000_000_000;

fn id(text: &str) -> ListenerId {
    ListenerId::parse(text).ok().expect("a well-formed identity")
}

const IDS: [&str; 5] = [
    "r9p_QLd_9CD63JqQaGQ9I",
    "0tY_GxufiwmAxvmHR7G0R",
    "vsB2sq2PfhCdU6WCXk37s",
    "AAAAAAAAAAAAAAAAAAAA-",
    "zzzzzzzzzzzzzzzzzzzz_",
];

#[test]
fn sweep_of_empty_registry_counts_zero() {
    let mut reg = PresenceRegistry::new();
    assert_eq!(reg.sweep(0), 0);
    assert_eq!(reg.sweep(100 * SECOND), 0);
}

#[test]
fn sweep_counts_listeners_seen_within_ttl() {
    let mut reg = PresenceRegistry::new();
    for (i, text) in IDS.iter().enumerate() {
        reg.touch(id(text), (i as u64) * SECOND);
    }
    // Ages at 6 s: 6, 5, 4, 3, 2 seconds; the first two have expired.
    assert_eq!(reg.sweep(6 * SECOND), 3);
    assert_eq!(reg.len(), 3);
    assert_eq!(reg.last_seen(&id(IDS[0])), None);
    assert_eq!(reg.last_seen(&id(IDS[1])), None);
    assert_eq!(reg.last_seen(&id(IDS[2])), Some(2 * SECOND));
}

#[test]
fn entry_is_kept_just_before_ttl_and_dropped_at_it() {
    let t = 10 * SECOND;
    let mut reg = PresenceRegistry::new();
    reg.touch(id(IDS[0]), t);
    assert_eq!(reg.sweep(t + PRESENCE_TTL_NANOS - 1), 1);
    assert_eq!(reg.sweep(t + PRESENCE_TTL_NANOS), 0);

    let mut reg = PresenceRegistry::new();
    reg.touch(id(IDS[0]), t);
    assert_eq!(reg.sweep(t + PRESENCE_TTL_NANOS + 1), 0);
    assert_eq!(reg.last_seen(&id(IDS[0])), None);
}

#[test]
fn ttl_is_five_seconds() {
    assert_eq!(PRESENCE_TTL_NANOS, 5 * SECOND);
}

#[test]
fn sweeping_twice_gives_the_same_count() {
    let mut reg = PresenceRegistry::new();
    reg.touch(id(IDS[0]), 0);
    reg.touch(id(IDS[1]), 3 * SECOND);
    reg.touch(id(IDS[2]), 4 * SECOND);
    let first = reg.sweep(7 * SECOND);
    let second = reg.sweep(7 * SECOND);
    assert_eq!(first, 2);
    assert_eq!(second, first);
}

#[test]
fn distinct_visits_in_any_order_are_all_counted() {
    let mut reg = PresenceRegistry::new();
    let order = [3usize, 0, 4, 1, 2];
    for (k, &i) in order.iter().enumerate() {
        reg.touch(id(IDS[i]), 20 * SECOND + (k as u64) * 100);
    }
    assert_eq!(reg.sweep(21 * SECOND), IDS.len());
}

#[test]
fn touching_again_refreshes_the_time() {
    let mut reg = PresenceRegistry::new();
    reg.touch(id(IDS[0]), 0);
    reg.touch(id(IDS[0]), 4 * SECOND);
    assert_eq!(reg.len(), 1);
    assert_eq!(reg.last_seen(&id(IDS[0])), Some(4 * SECOND));
    assert_eq!(reg.sweep(8 * SECOND), 1);
}

#[test]
fn entry_from_later_than_now_is_kept() {
    let mut reg = PresenceRegistry::new();
    reg.touch(id(IDS[0]), 9 * SECOND);
    assert_eq!(reg.sweep(SECOND), 1);
}

#[test]
fn visit_without_identity_only_sweeps() {
    let mut reg = PresenceRegistry::new();
    reg.touch(id(IDS[0]), 0);
    reg.touch(id(IDS[1]), 2 * SECOND);
    assert_eq!(reg.record_visit(None, 6 * SECOND), 1);
}

#[test]
fn visit_with_identity_counts_itself() {
    let mut reg = PresenceRegistry::new();
    assert_eq!(reg.record_visit(Some(id(IDS[0])), 0), 1);
    assert_eq!(reg.record_visit(Some(id(IDS[1])), SECOND), 2);
    assert_eq!(reg.record_visit(Some(id(IDS[0])), 5 * SECOND + 1), 2);
    assert_eq!(reg.record_visit(None, 6 * SECOND), 1);
}
