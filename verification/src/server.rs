//! The server's table of connected players and the decisions its packet handlers make
//! between their database queries and network sends.
use vstd::prelude::*;
use crate::indexed_map::{IndexedMap, Unique, keys_match, lemma_values_have_distinct_keys};
use crate::item::{Item, ItemStack, item_from_id};

verus! {

broadcast use vstd::std_specs::hash::group_hash_axioms;

/// How long a client may stay silent before it is dropped, in microseconds.
pub const HEARTBEAT_TIMEOUT_US: u64 = 20000000;

/// How often the server looks for silent clients, in microseconds.
pub const HEARTBEAT_CHECK_INTERVAL_US: u64 = 1000000;

/// An IPv4 socket address.
#[derive(Clone, Copy, Debug, PartialEq, Eq, Structural)]
pub struct Addr {
    pub ip: u32,
    pub port: u16,
}

/// The key of an address: its IP address in the high bits, its port in the low 16.
pub open spec fn addr_key(a: Addr) -> u64 {
    (a.ip as u64 * 65536 + a.port as u64) as u64
}

impl Addr {
    /// The key under which a connection from this address is filed.
    pub fn key(&self) -> (k: u64)
        ensures
            k == addr_key(*self),
    {
        proof {
            assert(self.ip as u64 * 65536 + self.port as u64 <= u64::MAX) by (nonlinear_arith)
                requires
                    self.ip <= u32::MAX,
                    self.port <= u16::MAX,
            ;
        }
        self.ip as u64 * 65536 + self.port as u64
    }
}

/// Two addresses with the same key are the same address.
pub proof fn lemma_addr_key_injective(a: Addr, b: Addr)
    requires
        addr_key(a) == addr_key(b),
    ensures
        a == b,
{
    assert(a.ip as u64 * 65536 + a.port as u64 <= u64::MAX) by (nonlinear_arith)
        requires
            a.ip <= u32::MAX,
            a.port <= u16::MAX,
    ;
    assert(b.ip as u64 * 65536 + b.port as u64 <= u64::MAX) by (nonlinear_arith)
        requires
            b.ip <= u32::MAX,
            b.port <= u16::MAX,
    ;
    let x: int = a.ip as int;
    let y: int = b.ip as int;
    let p: int = a.port as int;
    let q: int = b.port as int;
    assert(x == y && p == q) by (nonlinear_arith)
        requires
            x * 65536 + p == y * 65536 + q,
            0 <= p < 65536,
            0 <= q < 65536,
    ;
}

/// A client that has logged in.
#[derive(Clone, Copy, Debug, PartialEq, Eq, Structural)]
pub struct Connection {
    /// When the client last sent a heartbeat, in microseconds on the server's monotonic clock.
    pub last_heartbeat: u64,
    pub addr: Addr,
    pub user_id: i64,
    pub character_id: i64,
}

impl Unique for Connection {
    open spec fn unique_key(&self) -> u64 {
        addr_key(self.addr)
    }

    fn get_unique_key(&self) -> (k: u64) {
        self.addr.key()
    }
}

/// Whether a client last heard from at `last` has been silent too long at `now`.
pub open spec fn timed_out(last: u64, now: u64) -> bool {
    now > last && now - last > HEARTBEAT_TIMEOUT_US
}

/// Whether the server, which last looked for silent clients at `last`, should look again at `now`.
pub fn heartbeat_check_due(last: u64, now: u64) -> (r: bool)
    ensures
        r == (now > last && now - last > HEARTBEAT_CHECK_INTERVAL_US),
{
    now > last && now - last > HEARTBEAT_CHECK_INTERVAL_US
}

/// Whether some client online at `a` has been silent too long at `now`.
pub open spec fn silent_at(online: Map<u64, Connection>, a: Addr, now: u64) -> bool {
    exists|c: Connection| #[trigger] online.values().contains(c) && c.addr == a && timed_out(c.last_heartbeat, now)
}

/// The addresses of the clients that have been silent too long at `now`, in no particular order.
pub fn dead_connections(online: &IndexedMap<Connection>, now: u64) -> (r: Vec<Addr>)
    ensures
        forall|i: int| 0 <= i < r@.len() ==> silent_at(online@, #[trigger] r@[i], now),
        forall|c: Connection| #[trigger] online@.values().contains(c) && timed_out(c.last_heartbeat, now)
            ==> r@.contains(c.addr),
        keys_match(online@) ==> r@.no_duplicates(),
{
    let values = online.values();
    let ghost vs = values@.unref();
    proof {
        if keys_match(online@) {
            lemma_values_have_distinct_keys(online@, vs);
        }
    }
    let mut r: Vec<Addr> = Vec::new();
    let ghost mut from: Seq<int> = Seq::empty();
    let mut i: usize = 0;
    while i < values.len()
        invariant
            i <= values@.len(),
            vs == values@.unref(),
            from.len() == r@.len(),
            vs.to_set() == online@.values(),
            forall|j: int| 0 <= j < r@.len() ==> silent_at(online@, #[trigger] r@[j], now),
            forall|j: int| 0 <= j < i && timed_out(vs[j].last_heartbeat, now) ==> r@.contains(#[trigger] vs[j].addr),
            forall|k: int| 0 <= k < r@.len() ==> 0 <= #[trigger] from[k] < i && vs[from[k]].addr == r@[k],
            keys_match(online@) ==> forall|a: int, b: int| 0 <= a < vs.len() && 0 <= b < vs.len() && a != b
                ==> #[trigger] vs[a].unique_key() != #[trigger] vs[b].unique_key(),
            keys_match(online@) ==> r@.no_duplicates(),
        decreases values.len() - i,
    {
        let c: Connection = *values[i];
        proof {
            assert(vs[i as int] == c);
            assert(vs.to_set().contains(c));
        }
        if now > c.last_heartbeat && now - c.last_heartbeat > HEARTBEAT_TIMEOUT_US {
            let ghost before = r@;
            proof {
                if keys_match(online@) {
                    assert forall|k: int| 0 <= k < before.len() implies before[k] != c.addr by {
                        let j = from[k];
                        assert(vs[j].unique_key() != vs[i as int].unique_key());
                    }
                }
            }
            r.push(c.addr);
            proof {
                let old_from = from;
                from = from.push(i as int);
                assert forall|k: int| 0 <= k < r@.len() implies 0 <= #[trigger] from[k] < i + 1 && vs[from[k]].addr == r@[k] by {
                    if k < before.len() {
                        assert(r@[k] == before[k]);
                        assert(from[k] == old_from[k]);
                    }
                }
                assert forall|j: int| 0 <= j < r@.len() implies silent_at(online@, #[trigger] r@[j], now) by {
                    if j < before.len() {
                        assert(r@[j] == before[j]);
                    } else {
                        assert(online@.values().contains(c));
                    }
                }
                assert forall|j: int| 0 <= j < i + 1 && timed_out(vs[j].last_heartbeat, now) implies r@.contains(#[trigger] vs[j].addr) by {
                    if j < i {
                        let k = choose|k: int| 0 <= k < before.len() && before[k] == vs[j].addr;
                        assert(r@[k] == before[k]);
                    } else {
                        assert(r@[before.len() as int] == c.addr);
                    }
                }
            }
        }
        i = i + 1;
    }
    proof {
        assert forall|c: Connection| #[trigger] online@.values().contains(c) && timed_out(c.last_heartbeat, now)
            implies r@.contains(c.addr) by {
            assert(vs.to_set().contains(c));
            let j = choose|j: int| 0 <= j < vs.len() && vs[j] == c;
            assert(vs[j] == c);
        }
    }
    r
}

/// Notes a heartbeat from `addr` at `now`; returns whether `addr` is online.
pub fn handle_heartbeat(online: &mut IndexedMap<Connection>, addr: Addr, now: u64) -> (r: bool)
    ensures
        r == old(online)@.contains_key(addr_key(addr)),
        r ==> final(online)@ == old(online)@.insert(
            addr_key(addr),
            Connection { last_heartbeat: now, ..old(online)@[addr_key(addr)] },
        ),
        !r ==> final(online)@ == old(online)@,
{
    let key = addr.key();
    match online.get_mut(&key) {
        Some(connection) => {
            connection.last_heartbeat = now;
            true
        },
        None => false,
    }
}

/// A client whose heartbeat was just noted is not silent at any time up to the timeout after
/// it, where every connection is filed under the key of its address.
pub proof fn lemma_heartbeat_keeps_alive(online: Map<u64, Connection>, addr: Addr, now: u64, later: u64)
    requires
        keys_match(online),
        online.contains_key(addr_key(addr)),
        later <= now + HEARTBEAT_TIMEOUT_US,
    ensures
        !silent_at(
            online.insert(addr_key(addr), Connection { last_heartbeat: now, ..online[addr_key(addr)] }),
            addr,
            later,
        ),
{
    let key = addr_key(addr);
    let after = online.insert(key, Connection { last_heartbeat: now, ..online[key] });
    assert forall|c: Connection| #[trigger] after.values().contains(c) && c.addr == addr implies !timed_out(c.last_heartbeat, later) by {
        let k = choose|k: u64| #[trigger] after.contains_key(k) && after[k] == c;
        if k != key {
            assert(online.contains_key(k) && online[k] == c);
            assert(c.unique_key() == k);
            assert(addr_key(c.addr) == k);
        }
    }
}

/// A user as the database holds it.
pub struct UserRecord {
    pub id: i64,
    pub password: String,
}

/// Why a login is refused.
#[derive(Clone, Copy, Debug, PartialEq, Eq, Structural)]
pub enum LoginError {
    /// No user has that name.
    NoAccount,
    /// The password does not match.
    WrongPassword,
}

/// The message shown to a player whose login is refused.
pub open spec fn login_error_text(e: LoginError) -> Seq<char> {
    match e {
        LoginError::NoAccount => "No account found for that username"@,
        LoginError::WrongPassword => "Username or password is incorrect"@,
    }
}

impl LoginError {
    /// The message shown to the player.
    pub fn message(&self) -> (r: String)
        ensures
            r@ == login_error_text(*self),
    {
        match self {
            LoginError::NoAccount => "No account found for that username".to_owned(),
            LoginError::WrongPassword => "Username or password is incorrect".to_owned(),
        }
    }
}

/// Decides a login from the user the database found under the name given: the user's id, or why it is refused.
pub fn check_credentials(user: &Option<UserRecord>, password: &String) -> (r: Result<i64, LoginError>)
    ensures
        match user {
            None => r == Err::<i64, LoginError>(LoginError::NoAccount),
            Some(u) => if u.password@ == password@ {
                r == Ok::<i64, LoginError>(u.id)
            } else {
                r == Err::<i64, LoginError>(LoginError::WrongPassword)
            },
        },
{
    match user {
        None => Err(LoginError::NoAccount),
        Some(u) => {
            if u.password != *password {
                Err(LoginError::WrongPassword)
            } else {
                Ok(u.id)
            }
        },
    }
}

/// The connections online, copied out, in no particular order.
fn all_connections(online: &IndexedMap<Connection>) -> (r: Vec<Connection>)
    ensures
        r@.to_set() == online@.values(),
        r@.len() == online@.dom().len(),
{
    let values = online.values();
    let mut r: Vec<Connection> = Vec::new();
    let mut i: usize = 0;
    while i < values.len()
        invariant
            i <= values@.len(),
            r@ == values@.unref().take(i as int),
        decreases values.len() - i,
    {
        r.push(*values[i]);
        assert(values@.unref().take(i + 1) == values@.unref().take(i as int).push(values@.unref()[i as int]));
        i = i + 1;
    }
    assert(values@.unref().take(values.len() as int) == values@.unref());
    r
}

/// Puts a player who has just logged in on the table; returns every connection online afterwards,
/// the new one among them: the players to tell of each other.
pub fn connect(online: &mut IndexedMap<Connection>, addr: Addr, user_id: i64, character_id: i64, now: u64) -> (r: Vec<Connection>)
    ensures
        final(online)@ == old(online)@.insert(
            addr_key(addr),
            Connection { last_heartbeat: now, addr, user_id, character_id },
        ),
        r@.to_set() == final(online)@.values(),
        r@.len() == final(online)@.dom().len(),
{
    online.insert(Connection { last_heartbeat: now, addr, user_id, character_id });
    all_connections(online)
}

/// A stored inventory row: an item's number and its quantity.
#[derive(Clone, Copy, Debug)]
pub struct ItemRow {
    pub item: i64,
    pub quantity: i64,
}

/// The stacks to send a player who logs in: one per row whose number names an item, the
/// quantity cut to its low 32 bits, in the order of the rows.
pub open spec fn stacks_of_rows(rows: Seq<ItemRow>) -> Seq<ItemStack>
    decreases rows.len(),
{
    if rows.len() == 0 {
        Seq::empty()
    } else {
        let rest = stacks_of_rows(rows.drop_last());
        match item_from_id(rows.last().item as int) {
            Some(item) => rest.push(ItemStack { item, amount: rows.last().quantity as u32 }),
            None => rest,
        }
    }
}

/// The stacks to send a player who logs in, from the rows stored for the character.
pub fn login_inventory(rows: &[ItemRow]) -> (r: Vec<ItemStack>)
    ensures
        r@ == stacks_of_rows(rows@),
{
    let mut r: Vec<ItemStack> = Vec::new();
    let mut i: usize = 0;
    while i < rows.len()
        invariant
            i <= rows@.len(),
            r@ == stacks_of_rows(rows@.take(i as int)),
        decreases rows.len() - i,
    {
        let row = rows[i];
        assert(rows@.take(i + 1).drop_last() == rows@.take(i as int));
        if let Some(item) = Item::from_i64(row.item) {
            r.push(ItemStack { item, amount: row.quantity as u32 });
        }
        i = i + 1;
    }
    assert(rows@.take(rows.len() as int) == rows@);
    r
}

/// The connection at `addr` and every other connection, the players to tell of what it does;
/// `None` where `addr` is not online.
pub fn peers_except(online: &IndexedMap<Connection>, addr: Addr) -> (r: Option<(Connection, Vec<Connection>)>)
    ensures
        r is None <==> !online@.contains_key(addr_key(addr)),
        r matches Some((c, peers)) ==> {
            &&& c == online@[addr_key(addr)]
            &&& peers@.to_set() == online@.values().filter(|v: Connection| v != c)
        },
{
    let key = addr.key();
    let connection: Connection = match online.get(&key) {
        Some(c) => *c,
        None => return None,
    };
    let all = online.keys();
    let mut peers: Vec<Connection> = Vec::new();
    let mut i: usize = 0;
    while i < all.len()
        invariant
            i <= all@.len(),
            all@.to_set() == online@.dom(),
            all@.no_duplicates(),
            online@.contains_key(key) && online@[key] == connection,
            forall|j: int| 0 <= j < peers@.len() ==> #[trigger] online@.values().contains(peers@[j]) && peers@[j] != connection,
            forall|j: int| 0 <= j < i && online@[all@[j]] != connection ==> peers@.contains(#[trigger] online@[all@[j]]),
        decreases all.len() - i,
    {
        let k = all[i];
        assert(all@.to_set().contains(k));
        let v: Connection = match online.get(&k) {
            Some(c) => *c,
            None => {
                assert(false);
                return None;
            },
        };
        if v != connection {
            let ghost before = peers@;
            proof {
                assert(online@.values().contains(v)) by {
                    assert(online@.contains_key(k) && online@[k] == v);
                }
            }
            peers.push(v);
            proof {
                assert forall|j: int| 0 <= j < peers@.len() implies #[trigger] online@.values().contains(peers@[j]) && peers@[j] != connection by {
                    if j < before.len() {
                        assert(peers@[j] == before[j]);
                    }
                }
                assert forall|j: int| 0 <= j < i + 1 && online@[all@[j]] != connection implies peers@.contains(#[trigger] online@[all@[j]]) by {
                    if j < i {
                        let m = choose|m: int| 0 <= m < before.len() && before[m] == online@[all@[j]];
                        assert(peers@[m] == before[m]);
                    } else {
                        assert(peers@[before.len() as int] == v);
                    }
                }
            }
        }
        i = i + 1;
    }
    proof {
        let want = online@.values().filter(|v: Connection| v != connection);
        assert forall|v: Connection| #[trigger] peers@.to_set().contains(v) implies want.contains(v) by {
            let j = choose|j: int| 0 <= j < peers@.len() && peers@[j] == v;
            assert(online@.values().contains(peers@[j]));
        }
        assert forall|v: Connection| #[trigger] want.contains(v) implies peers@.to_set().contains(v) by {
            assert(online@.values().contains(v));
            let k2 = choose|k2: u64| #[trigger] online@.contains_key(k2) && online@[k2] == v;
            assert(all@.to_set().contains(k2));
            let j = choose|j: int| 0 <= j < all@.len() && all@[j] == k2;
            assert(online@[all@[j]] == v);
            assert(peers@.contains(online@[all@[j]]));
        }
        assert(peers@.to_set() =~= want);
    }
    Some((connection, peers))
}

/// Why a signup is refused.
#[derive(Clone, Copy, Debug, PartialEq, Eq, Structural)]
pub enum SignupError {
    /// A user already has that name.
    UserExists,
    /// A query failed.
    ServerError,
}

/// The message shown to a player whose signup is refused.
pub open spec fn signup_error_text(e: SignupError) -> Seq<char> {
    match e {
        SignupError::UserExists => "User exists with that username"@,
        SignupError::ServerError => "Server error"@,
    }
}

impl SignupError {
    /// The message shown to the player.
    pub fn message(&self) -> (r: String)
        ensures
            r@ == signup_error_text(*self),
    {
        match self {
            SignupError::UserExists => "User exists with that username".to_owned(),
            SignupError::ServerError => "Server error".to_owned(),
        }
    }
}

/// Decides a signup from the lookup of the name asked for: `Err(())` where the lookup failed,
/// otherwise the id of a user that already has the name, if any.
pub fn check_signup(lookup: Result<Option<i64>, ()>) -> (r: Result<(), SignupError>)
    ensures
        match lookup {
            Err(_) => r == Err::<(), SignupError>(SignupError::ServerError),
            Ok(Some(_)) => r == Err::<(), SignupError>(SignupError::UserExists),
            Ok(None) => r == Ok::<(), SignupError>(()),
        },
{
    match lookup {
        Err(_) => Err(SignupError::ServerError),
        Ok(Some(_)) => Err(SignupError::UserExists),
        Ok(None) => Ok(()),
    }
}

/// How a reported stack is stored.
#[derive(Clone, Copy, Debug, PartialEq, Eq, Structural)]
pub enum InventoryWrite {
    /// A row for the item exists: its quantity is updated.
    Update,
    /// No row exists: one is inserted.
    Insert,
}

/// How to store a stack, given the id of the character's row for the item, if any.
pub fn inventory_write(existing: Option<i64>) -> (r: InventoryWrite)
    ensures
        r == (if existing is Some { InventoryWrite::Update } else { InventoryWrite::Insert }),
{
    match existing {
        Some(_) => InventoryWrite::Update,
        None => InventoryWrite::Insert,
    }
}

/// The message sent to a client dropped for silence.
pub fn heartbeat_timeout_reason() -> (r: String)
    ensures
        r@ == "Heartbeat timeout"@,
{
    "Heartbeat timeout".to_owned()
}

} // verus!
