use xhttp_tunnel::session::SessionTable;

#[test]
fn sessions_are_found_until_they_are_closed() {
    let mut table: SessionTable<u32> = SessionTable::new();
    assert_eq!(table.find("a"), None);
    let a = table.register("a".to_string(), 1);
    let b = table.register("b".to_string(), 2);
    assert_eq!((a, b), (0, 1));
    assert_eq!(table.find("a"), Some(&1));
    assert_eq!(table.find("b"), Some(&2));
    table.unregister("a", a);
    assert_eq!(table.find("a"), None);
    assert_eq!(table.find("b"), Some(&2));
    table.unregister("a", a);
    assert_eq!(table.find("b"), Some(&2));
}

#[test]
fn newest_session_is_found() {
    let mut table: SessionTable<u32> = SessionTable::new();
    table.register("a".to_string(), 1);
    let newer = table.register("a".to_string(), 2);
    assert_eq!(table.find("a"), Some(&2));
    table.unregister("a", newer);
    assert_eq!(table.find("a"), None);
}

#[test]
fn end_of_a_replaced_stream_leaves_the_newer_session() {
    let mut table: SessionTable<u32> = SessionTable::new();
    let older = table.register("a".to_string(), 1);
    let newer = table.register("a".to_string(), 2);
    assert_ne!(older, newer);
    table.unregister("a", older);
    assert_eq!(table.find("a"), Some(&2));
    table.unregister("a", newer);
    assert_eq!(table.find("a"), None);
}

#[test]
fn token_of_another_session_closes_nothing() {
    let mut table: SessionTable<u32> = SessionTable::new();
    let a = table.register("a".to_string(), 1);
    table.register("b".to_string(), 2);
    table.unregister("b", a);
    assert_eq!(table.find("b"), Some(&2));
    table.unregister("c", a);
    assert_eq!(table.find("a"), Some(&1));
}
