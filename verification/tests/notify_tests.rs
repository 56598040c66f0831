use riven::insert_only_map::InsertOnlyMap;
use riven::notify::Notify;

#[test]
fn memory_leak() {
    // A waiter future that is created and dropped (notified or not) always
    // frees its slot: after any such sequence the registry is empty, with
    // no footprint left.
    let mut notify = Notify::new();

    for _ in 0..100 {
        let (key, generation) = notify.register();
        notify.deregister(generation, key);
    }

    assert_eq!(0, notify.waiter_count());
    assert_eq!(0, notify.slot_count());
}

#[test]
fn notify_drains_all_waiters() {
    let mut notify = Notify::new();
    let (k0, _) = notify.register();
    let (k1, _) = notify.register();
    let (k2, _) = notify.register();
    assert_eq!(3, notify.waiter_count());

    let keys = notify.notify_waiters();
    assert_eq!(vec![k0, k1, k2], keys);
    assert_eq!(0, notify.waiter_count());
    assert_eq!(0, notify.slot_count());
}

#[test]
fn stale_drop_is_ignored() {
    let mut notify = Notify::new();
    let (k1, g1) = notify.register();
    let woken = notify.notify_waiters();
    assert_eq!(vec![k1], woken);

    // A new waiter reuses the drained slot under a new generation.
    let (k2, g2) = notify.register();
    assert_eq!(k1, k2);

    // The notified waiter is dropped late; its stale generation protects
    // the reused slot.
    notify.deregister(g1, k1);
    assert_eq!(1, notify.waiter_count());

    notify.deregister(g2, k2);
    assert_eq!(0, notify.waiter_count());
    assert_eq!(0, notify.slot_count());
}

#[test]
fn slots_are_reused_lowest_first() {
    let mut notify = Notify::new();
    let (k0, g0) = notify.register();
    let (k1, _g1) = notify.register();
    let (k2, _g2) = notify.register();
    assert_eq!(0, k0);
    assert_eq!(1, k1);
    assert_eq!(2, k2);

    notify.deregister(g0, k0);
    assert_eq!(2, notify.waiter_count());
    // The freed low slot is taken before any new one.
    let (k3, _g3) = notify.register();
    assert_eq!(0, k3);
    assert_eq!(3, notify.waiter_count());
    assert_eq!(3, notify.slot_count());
}

#[test]
fn map_is_insert_only() {
    // Entries are added but never removed or replaced; repeated lookups
    // return the same index.
    let mut map: InsertOnlyMap<u64> = InsertOnlyMap::new();
    let a = map.get_or_insert("summoner-v4.getBySummonerName", 11);
    let b = map.get_or_insert("match-v5.getMatch", 22);
    assert_ne!(a, b);
    assert_eq!(2, map.len());

    // A second lookup of the same key ignores the new value and lands on
    // the same entry.
    let a2 = map.get_or_insert("summoner-v4.getBySummonerName", 99);
    assert_eq!(a, a2);
    assert_eq!(2, map.len());
    assert_eq!(&11, map.get(a));
    assert_eq!(&22, map.get(b));

    assert_eq!(Some(a), map.index_of("summoner-v4.getBySummonerName"));
    assert_eq!(None, map.index_of("absent"));
}
