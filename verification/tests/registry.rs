use lidart::registry::ConnectionRegistry;

#[test]
fn registrations_get_increasing_numbers() {
    let mut r: ConnectionRegistry<&str> = ConnectionRegistry::new();
    assert_eq!(r.next_id(), 0);
    assert_eq!(r.register("a"), 0);
    assert_eq!(r.register("b"), 1);
    assert_eq!(r.len(), 2);
    assert_eq!(r.get(0), Some(&"a"));
    assert_eq!(r.get(1), Some(&"b"));
    assert_eq!(r.get(2), None);
}

#[test]
fn removed_numbers_are_not_reused() {
    let mut r: ConnectionRegistry<u8> = ConnectionRegistry::new();
    let a = r.register(1);
    assert_eq!(r.remove(a), Some(1));
    assert_eq!(r.remove(a), None);
    assert_eq!(r.len(), 0);
    let b = r.register(2);
    assert_eq!(b, 1);
    assert_eq!(r.next_id(), 2);
}

#[test]
fn ids_lists_each_open_connection_once() {
    let mut r: ConnectionRegistry<u8> = ConnectionRegistry::new();
    for v in 0..5u8 {
        r.register(v);
    }
    r.remove(2);
    let mut ids = r.ids();
    ids.sort();
    assert_eq!(ids, vec![0, 1, 3, 4]);
}
