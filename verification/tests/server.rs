use aetheria::indexed_map::{IndexedMap, Unique};
use aetheria::item::{Item, ItemStack};
use aetheria::server::{
    check_credentials, check_signup, connect, dead_connections, handle_heartbeat, heartbeat_check_due,
    heartbeat_timeout_reason, inventory_write, login_inventory, peers_except, Addr, Connection, InventoryWrite,
    ItemRow, LoginError, SignupError, UserRecord,
};

fn addr(ip: u32, port: u16) -> Addr {
    Addr { ip, port }
}

fn online_with(conns: &[Connection]) -> IndexedMap<Connection> {
    let mut m = IndexedMap::new();
    for c in conns {
        m.insert(*c);
    }
    m
}

fn conn(ip: u32, last: u64, user: i64) -> Connection {
    Connection { last_heartbeat: last, addr: addr(ip, 8000), user_id: user, character_id: user * 10 }
}

#[test]
fn address_keys_hold_ip_and_port() {
    assert_eq!(addr(0, 0).key(), 0);
    assert_eq!(addr(1, 2).key(), 65538);
    assert_eq!(addr(u32::MAX, u16::MAX).key(), (u32::MAX as u64) * 65536 + 65535);
    assert_ne!(addr(1, 0).key(), addr(0, 1).key());
    assert_eq!(conn(5, 0, 1).get_unique_key(), addr(5, 8000).key());
}

#[test]
fn heartbeat_refreshes_only_that_client() {
    let mut online = online_with(&[conn(1, 100, 1), conn(2, 100, 2)]);
    assert!(handle_heartbeat(&mut online, addr(1, 8000), 5000));
    assert_eq!(online.get(&addr(1, 8000).key()).unwrap().last_heartbeat, 5000);
    assert_eq!(online.get(&addr(2, 8000).key()).unwrap().last_heartbeat, 100);
    assert!(!handle_heartbeat(&mut online, addr(3, 8000), 5000));
}

#[test]
fn silent_clients_are_found() {
    let online = online_with(&[conn(1, 0, 1), conn(2, 10_000_000, 2), conn(3, 25_000_000, 3)]);
    let mut dead = dead_connections(&online, 30_000_001);
    dead.sort_by_key(|a| a.ip);
    assert_eq!(dead, vec![addr(1, 8000), addr(2, 8000)]);
    assert!(dead_connections(&online, 20_000_000).is_empty());
    assert_eq!(dead_connections(&online, 20_000_001), vec![addr(1, 8000)]);
}

#[test]
fn heartbeat_check_runs_each_second() {
    assert!(!heartbeat_check_due(0, 1_000_000));
    assert!(heartbeat_check_due(0, 1_000_001));
    assert!(!heartbeat_check_due(5000, 10));
}

#[test]
fn login_is_refused_without_account() {
    let r = check_credentials(&None, &"pw".to_string());
    assert_eq!(r, Err(LoginError::NoAccount));
    assert_eq!(LoginError::NoAccount.message(), "No account found for that username");
}

#[test]
fn login_is_refused_with_wrong_password() {
    let user = Some(UserRecord { id: 4, password: "secret".to_string() });
    assert_eq!(check_credentials(&user, &"guess".to_string()), Err(LoginError::WrongPassword));
    assert_eq!(LoginError::WrongPassword.message(), "Username or password is incorrect");
}

#[test]
fn login_succeeds_with_the_password() {
    let user = Some(UserRecord { id: 4, password: "secret".to_string() });
    assert_eq!(check_credentials(&user, &"secret".to_string()), Ok(4));
}

#[test]
fn connecting_lists_everyone_online() {
    let mut online = online_with(&[conn(1, 0, 1)]);
    let mut peers = connect(&mut online, addr(2, 9000), 2, 20, 77);
    peers.sort_by_key(|c| c.user_id);
    assert_eq!(peers.len(), 2);
    assert_eq!(peers[1], Connection { last_heartbeat: 77, addr: addr(2, 9000), user_id: 2, character_id: 20 });
    assert_eq!(online.get(&addr(2, 9000).key()), Some(&peers[1]));
}

#[test]
fn stored_rows_become_stacks() {
    let rows = [
        ItemRow { item: 0, quantity: 3 },
        ItemRow { item: 42, quantity: 1 },
        ItemRow { item: 5, quantity: (1i64 << 32) + 7 },
    ];
    assert_eq!(
        login_inventory(&rows),
        vec![ItemStack { item: Item::Wood, amount: 3 }, ItemStack { item: Item::CopperSword, amount: 7 }]
    );
}

#[test]
fn peers_exclude_the_mover() {
    let online = online_with(&[conn(1, 0, 1), conn(2, 0, 2), conn(3, 0, 3)]);
    let (me, mut peers) = peers_except(&online, addr(2, 8000)).expect("online");
    assert_eq!(me, conn(2, 0, 2));
    peers.sort_by_key(|c| c.user_id);
    assert_eq!(peers, vec![conn(1, 0, 1), conn(3, 0, 3)]);
    assert!(peers_except(&online, addr(9, 8000)).is_none());
}

#[test]
fn signup_decisions() {
    assert_eq!(check_signup(Ok(None)), Ok(()));
    assert_eq!(check_signup(Ok(Some(3))), Err(SignupError::UserExists));
    assert_eq!(check_signup(Err(())), Err(SignupError::ServerError));
    assert_eq!(SignupError::UserExists.message(), "User exists with that username");
    assert_eq!(SignupError::ServerError.message(), "Server error");
}

#[test]
fn stacks_are_updated_or_inserted() {
    assert_eq!(inventory_write(Some(1)), InventoryWrite::Update);
    assert_eq!(inventory_write(None), InventoryWrite::Insert);
    assert_eq!(heartbeat_timeout_reason(), "Heartbeat timeout");
}

#[test]
fn a_fresh_heartbeat_keeps_a_client_alive_until_the_timeout() {
    let mut online = online_with(&[conn(1, 0, 1), conn(2, 0, 2)]);
    assert!(handle_heartbeat(&mut online, addr(1, 8000), 40_000_000));
    assert_eq!(dead_connections(&online, 60_000_000), vec![addr(2, 8000)]);
    let mut dead = dead_connections(&online, 60_000_001);
    dead.sort_by_key(|a| a.ip);
    assert_eq!(dead, vec![addr(1, 8000), addr(2, 8000)]);
}
