use aetheria::indexed_map::{IndexedMap, Unique};
use aetheria::server::{Addr, Connection};

fn conn(port: u16, user_id: i64) -> Connection {
    Connection { last_heartbeat: 0, addr: Addr { ip: 0x7f00_0001, port }, user_id, character_id: user_id }
}

fn key(port: u16) -> u64 {
    0x7f00_0001u64 * 65536 + port as u64
}

#[test]
fn connection_key_is_its_address() {
    assert_eq!(conn(9000, 1).get_unique_key(), key(9000));
    assert_eq!(Addr { ip: 1, port: 2 }.key(), 65538);
}

#[test]
fn insert_then_get() {
    let mut m: IndexedMap<Connection> = IndexedMap::new();
    m.insert(conn(7, 1));
    assert_eq!(m.get(&key(7)), Some(&conn(7, 1)));
    assert_eq!(m.get(&key(8)), None);
}

#[test]
fn insert_replaces_same_key() {
    let mut m: IndexedMap<Connection> = IndexedMap::new();
    m.insert(conn(7, 1));
    m.insert(conn(7, 2));
    assert_eq!(m.get(&key(7)), Some(&conn(7, 2)));
    assert_eq!(m.keys(), vec![key(7)]);
}

#[test]
fn get_mut_changes_in_place() {
    let mut m: IndexedMap<Connection> = IndexedMap::new();
    m.insert(conn(3, 1));
    if let Some(c) = m.get_mut(&key(3)) {
        c.last_heartbeat = 10;
    }
    assert_eq!(m.get(&key(3)).map(|c| c.last_heartbeat), Some(10));
    assert!(m.get_mut(&key(4)).is_none());
}

#[test]
fn take_hands_back_and_removes() {
    let mut m: IndexedMap<Connection> = IndexedMap::new();
    m.insert(conn(1, 5));
    assert_eq!(m.take(&key(1)), Some(conn(1, 5)));
    assert_eq!(m.get(&key(1)), None);
    assert_eq!(m.take(&key(1)), None);
}

#[test]
fn remove_drops_the_key() {
    let mut m: IndexedMap<Connection> = IndexedMap::default();
    m.insert(conn(1, 5));
    m.insert(conn(2, 6));
    m.remove(&key(1));
    m.remove(&key(9));
    assert_eq!(m.keys(), vec![key(2)]);
}

#[test]
fn keys_and_values_cover_the_map() {
    let mut m: IndexedMap<Connection> = IndexedMap::new();
    for port in 0..5u16 {
        m.insert(conn(port, port as i64 * 2));
    }
    let mut keys = m.keys();
    keys.sort();
    assert_eq!(keys, (0..5u16).map(key).collect::<Vec<u64>>());
    let mut values: Vec<i64> = m.values().iter().map(|c| c.user_id).collect();
    values.sort();
    assert_eq!(values, vec![0, 2, 4, 6, 8]);
}

#[test]
fn values_carry_distinct_keys_that_are_the_keys() {
    let mut m: IndexedMap<Connection> = IndexedMap::new();
    for port in [3u16, 1, 4, 1, 5] {
        m.insert(conn(port, port as i64));
    }
    let mut from_values: Vec<u64> = m.values().iter().map(|c| c.get_unique_key()).collect();
    from_values.sort();
    let mut keys = m.keys();
    keys.sort();
    assert_eq!(from_values, keys);
    assert_eq!(m.values().len(), 4);
}

#[test]
fn a_lookup_finds_the_value_last_filed_and_not_removed() {
    let mut m: IndexedMap<Connection> = IndexedMap::new();
    m.insert(conn(1, 1));
    m.insert(conn(2, 2));
    m.insert(conn(1, 3));
    if let Some(c) = m.get_mut(&key(2)) {
        c.character_id = 99;
    }
    m.remove(&key(2));
    assert!(m.get_mut(&key(2)).is_none());
    m.insert(conn(2, 4));
    assert_eq!(m.take(&key(1)), Some(conn(1, 3)));
    assert_eq!(m.get(&key(1)), None);
    assert_eq!(m.get(&key(2)), Some(&conn(2, 4)));
}
