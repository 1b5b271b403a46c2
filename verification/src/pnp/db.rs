//! The allocation table.
//!
//! The table lives in a SQLite database whose schema is compatible with yakut's
//! allocation table, so that databases can be shared between tools.
//!
//! Other programs may write to the database while it is open here. What each
//! statement does is therefore stated over the rows that it finds, and exactly
//! over the rows known before it as long as the connection is undisturbed.

use vstd::prelude::*;

use crate::text;

verus! {

// ─── the table ───────────────────────────────────────────────────────────────

/// What a row of the table holds beside its integer key, `node_id`.
#[verifier::ext_equal]
pub struct AllocationRow {
    /// The unique ID column, when it holds text.
    pub unique_id_hex: Option<Seq<char>>,
    /// The hash column, when it holds an integer (`Some(Some(_))`) or nothing
    /// (`Some(None)`).
    pub pseudo_unique_id: Option<Option<i64>>,
    /// The timestamp column, when it holds text.
    pub ts: Option<Seq<char>>,
}

/// A connection to a SQLite database.
#[verifier::external_type_specification]
#[verifier::external_body]
pub struct ExConnection(rusqlite::Connection);

/// An error of a SQLite statement.
#[verifier::external_type_specification]
#[verifier::external_body]
pub struct ExSqlError(rusqlite::Error);

/// The path that the connection was opened with.
pub uninterp spec fn database_path(conn: rusqlite::Connection) -> Seq<char>;

/// The rows of the table `allocation` whose key is an integer, as the last
/// statement on the connection found or left them; none where there is no such
/// table.
pub uninterp spec fn allocation_rows(conn: rusqlite::Connection) -> Map<i64, AllocationRow>;

/// The integer keys of the table `allocation` in the order in which their rows were
/// recorded, which is that of SQLite's row numbers; none where there is no such table.
pub uninterp spec fn recorded_keys(conn: rusqlite::Connection) -> Seq<i64>;

/// How many disturbances the connection has met: statements on it that failed
/// for another reason than the table's uniqueness constraint, new rows that SQLite
/// did not number behind all others (as happens once the highest number is taken),
/// and changes to the database that came from elsewhere.
pub uninterp spec fn disturbances(conn: rusqlite::Connection) -> nat;

/// Whether the table `allocation`, if there is one, has the columns and constraints
/// that it is created with here, and nothing besides, and every value in it that is
/// not null has the type of its column. A file made by another program may bring a
/// table of its own.
pub uninterp spec fn conforming(conn: rusqlite::Connection) -> bool;

/// What the table `allocation` holds.
#[verifier::ext_equal]
pub struct Table {
    /// The rows by their keys.
    pub rows: Map<i64, AllocationRow>,
    /// The keys in the order in which the rows were recorded.
    pub order: Seq<i64>,
}

/// What the table holds, as the last statement on the connection found or left it.
pub open spec fn table_of(conn: rusqlite::Connection) -> Table {
    Table { rows: allocation_rows(conn), order: recorded_keys(conn) }
}

/// A table without rows.
pub open spec fn empty_table() -> Table {
    Table { rows: Map::empty(), order: Seq::empty() }
}

/// Whether the table was as expected and nothing disturbed the connection from
/// one state of it to another.
pub open spec fn undisturbed(before: rusqlite::Connection, after: rusqlite::Connection) -> bool {
    &&& conforming(before)
    &&& disturbances(before) == disturbances(after)
}

/// What every statement keeps.
pub open spec fn later(before: rusqlite::Connection, after: rusqlite::Connection) -> bool {
    &&& database_path(before) == database_path(after)
    &&& disturbances(before) <= disturbances(after)
    &&& undisturbed(before, after) ==> conforming(after)
}

/// What every query keeps.
pub open spec fn queried(before: rusqlite::Connection, after: rusqlite::Connection) -> bool {
    &&& later(before, after)
    &&& undisturbed(before, after) ==> table_of(before) == table_of(after)
}

/// Whether the row with key `k` holds the unique ID written `hex`.
pub open spec fn holds_hex(rows: Map<i64, AllocationRow>, k: i64, hex: Seq<char>) -> bool {
    rows.contains_key(k) && rows[k].unique_id_hex == Some(hex)
}

/// Whether the row with key `k` holds the hash `hash`.
pub open spec fn holds_hash(rows: Map<i64, AllocationRow>, k: i64, hash: i64) -> bool {
    rows.contains_key(k) && rows[k].pseudo_unique_id == Some(Some(hash))
}

/// Whether the key `k` is a node ID, and not the one that is left out.
pub open spec fn is_other_id(except: Option<u16>, k: i64) -> bool {
    0 <= k <= u16::MAX && except != Some(k as u16)
}

/// Whether `id` is known as the ID of the node with the unique ID written `hex`,
/// leaving out one ID. The text of zeros is no node's unique ID: it stands in the
/// rows of nodes whose unique ID is not known.
pub open spec fn names_hex(
    rows: Map<i64, AllocationRow>,
    except: Option<u16>,
    id: u16,
    hex: Seq<char>,
) -> bool {
    &&& hex != zero_hex()
    &&& except != Some(id)
    &&& holds_hex(rows, id as i64, hex)
}

/// Whether `id` is known as the ID of the node with the hash `hash`, leaving out one
/// ID.
pub open spec fn names_hash(
    rows: Map<i64, AllocationRow>,
    except: Option<u16>,
    id: u16,
    hash: i64,
) -> bool {
    &&& except != Some(id)
    &&& holds_hash(rows, id as i64, hash)
}

/// Whether `found` is the first recorded ID known for the unique ID, if there is one.
pub open spec fn finds_hex(
    table: Table,
    except: Option<u16>,
    hex: Seq<char>,
    found: Option<u16>,
) -> bool {
    match found {
        Some(id) => hex != zero_hex() && exists|i: int| #[trigger]
            is_first_hex(table, except, hex, i) && table.order[i] == id,
        None => forall|id: u16| !names_hex(table.rows, except, id, hex),
    }
}

/// Whether the key at position `i` of the order of recording is a node ID other than
/// `except` whose row holds the unique ID, and no earlier key is one.
pub open spec fn is_first_hex(
    table: Table,
    except: Option<u16>,
    hex: Seq<char>,
    i: int,
) -> bool {
    &&& 0 <= i < table.order.len()
    &&& is_other_id(except, table.order[i])
    &&& holds_hex(table.rows, table.order[i], hex)
    &&& forall|j: int|
        0 <= j < i && is_other_id(except, #[trigger] table.order[j]) ==> !holds_hex(
            table.rows,
            table.order[j],
            hex,
        )
}

/// Whether `found` is the first recorded ID known for the hash, if there is one.
pub open spec fn finds_hash(
    table: Table,
    except: Option<u16>,
    hash: i64,
    found: Option<u16>,
) -> bool {
    match found {
        Some(id) => exists|i: int| #[trigger]
            is_first_hash(table, except, hash, i) && table.order[i] == id,
        None => forall|id: u16| !names_hash(table.rows, except, id, hash),
    }
}

/// Whether the key at position `i` of the order of recording is a node ID other than
/// `except` whose row holds the hash, and no earlier key is one.
pub open spec fn is_first_hash(
    table: Table,
    except: Option<u16>,
    hash: i64,
    i: int,
) -> bool {
    &&& 0 <= i < table.order.len()
    &&& is_other_id(except, table.order[i])
    &&& holds_hash(table.rows, table.order[i], hash)
    &&& forall|j: int|
        0 <= j < i && is_other_id(except, #[trigger] table.order[j]) ==> !holds_hash(
            table.rows,
            table.order[j],
            hash,
        )
}

/// Whether `row` was written with the given unique ID and hash.
pub open spec fn is_row(row: AllocationRow, hex: Seq<char>, hash: Option<i64>) -> bool {
    &&& row.unique_id_hex == Some(hex)
    &&& row.pseudo_unique_id == Some(hash)
    &&& row.ts is Some
}

/// Whether `after` is `before` with one new row, recorded after the others.
pub open spec fn inserted(
    before: Table,
    after: Table,
    k: i64,
    hex: Seq<char>,
    hash: Option<i64>,
) -> bool {
    &&& !before.rows.contains_key(k)
    &&& !before.order.contains(k)
    &&& after.rows.contains_key(k)
    &&& is_row(after.rows[k], hex, hash)
    &&& after.rows == before.rows.insert(k, after.rows[k])
    &&& after.order == before.order.push(k)
}

/// Whether `after` is `before` with a static row for `k`, unless there was a
/// row for `k` already.
pub open spec fn reserved_in(before: Table, after: Table, k: i64) -> bool {
    if before.rows.contains_key(k) {
        after == before
    } else {
        inserted(before, after, k, zero_hex(), None)
    }
}

/// The table after the unique ID of `k` has been set.
pub open spec fn with_unique_id(table: Table, k: i64, hex: Seq<char>) -> Table {
    if table.rows.contains_key(k) {
        Table {
            rows: table.rows.insert(
                k,
                AllocationRow { unique_id_hex: Some(hex), ..table.rows[k] },
            ),
            order: table.order,
        }
    } else {
        table
    }
}

// ─── statements ──────────────────────────────────────────────────────────────

/// The columns of a row: key, unique ID, hash and timestamp, each `None` when it
/// does not have the expected type.
pub type RawRow = (Option<i64>, Option<String>, Option<Option<i64>>, Option<String>);

/// The characters of an optional string.
pub open spec fn text_of(s: Option<String>) -> Option<Seq<char>> {
    match s {
        Some(t) => Some(t@),
        None => None,
    }
}

/// Whether the columns are those of the row with key `k`.
pub open spec fn shows(raw: RawRow, rows: Map<i64, AllocationRow>, k: i64) -> bool {
    &&& raw.0 == Some(k)
    &&& rows.contains_key(k)
    &&& text_of(raw.1) == rows[k].unique_id_hex
    &&& raw.2 == rows[k].pseudo_unique_id
    &&& text_of(raw.3) == rows[k].ts
}

/// `rusqlite::Connection::open` opens or creates the database at `path`, which must
/// not hold a NUL character. The path `:memory:` stands for a new, empty database
/// that no other connection can reach. A new connection has met no disturbance.
/// Whether a file can be opened, and what it holds, is up to the disk.
#[verifier::external_body]
fn open_connection(path: &str) -> (conn: Result<rusqlite::Connection, rusqlite::Error>)
    ensures
        path@.contains('\0') ==> conn is Err,
        conn matches Ok(c) ==> database_path(c) == path@ && disturbances(c) == 0,
        path@ == ":memory:"@ ==> (conn matches Ok(c) ==> conforming(c) && allocation_rows(c)
            == Map::<i64, AllocationRow>::empty() && recorded_keys(c) == Seq::<i64>::empty()),
{
    rusqlite::Connection::open(path)
}

/// `rusqlite::Connection::execute_batch` runs the statement that creates the
/// table where there is none, and leaves one that is there as it is. Nobody else
/// can change a database in memory meanwhile.
#[verifier::external_body]
fn create_table(conn: &mut rusqlite::Connection) -> (done: Result<(), rusqlite::Error>)
    ensures
        queried(*old(conn), *final(conn)),
        undisturbed(*old(conn), *final(conn)) ==> done is Ok,
        database_path(*old(conn)) == ":memory:"@ && conforming(*old(conn)) && done is Ok
            ==> conforming(*final(conn)) && table_of(*final(conn)) == table_of(*old(conn)),
{
    conn.execute_batch(
        "CREATE TABLE IF NOT EXISTS `allocation` (
            `node_id`          int not null unique check(node_id >= 0),
            `unique_id_hex`    varchar(32),
            `pseudo_unique_id` bigint,
            `ts`               time not null default current_timestamp,
            primary key(node_id)
        );",
    )
}

/// The text of a `rusqlite::Error`.
#[verifier::external_body]
fn error_text(e: &rusqlite::Error) -> (s: String) {
    e.to_string()
}

/// `rusqlite::Connection::query_row`, for the first recorded key that is a node ID
/// other than `except` and whose row has the given unique ID. SQLite's row numbers give
/// the order of recording.
#[verifier::external_body]
fn select_by_unique_id(conn: &mut rusqlite::Connection, hex: &str, except: Option<u16>) -> (found:
    Result<Option<i64>, rusqlite::Error>)
    ensures
        queried(*old(conn), *final(conn)),
        undisturbed(*old(conn), *final(conn)) ==> found is Ok,
        conforming(*final(conn)) ==> (found matches Ok(Some(k)) ==> exists|i: int| #[trigger]
            is_first_hex(table_of(*final(conn)), except, hex@, i) && recorded_keys(
                *final(conn),
            )[i] == k),
        conforming(*final(conn)) ==> (found matches Ok(None) ==> forall|k: i64|
            is_other_id(except, k) ==> !(#[trigger] holds_hex(
                allocation_rows(*final(conn)),
                k,
                hex@,
            ))),
{
    rusqlite::OptionalExtension::optional(
        conn.query_row(
            "SELECT node_id FROM allocation WHERE unique_id_hex = ?1
                AND node_id BETWEEN 0 AND 65535 AND node_id IS NOT ?2
                ORDER BY rowid LIMIT 1",
            (hex, except),
            |row| row.get::<_, i64>(0),
        ),
    )
}

/// `rusqlite::Connection::query_row`, for the first recorded key that is a node ID
/// other than `except` and whose row has the given hash. SQLite's row numbers give
/// the order of recording.
#[verifier::external_body]
fn select_by_hash(conn: &mut rusqlite::Connection, hash: i64, except: Option<u16>) -> (found:
    Result<Option<i64>, rusqlite::Error>)
    ensures
        queried(*old(conn), *final(conn)),
        undisturbed(*old(conn), *final(conn)) ==> found is Ok,
        conforming(*final(conn)) ==> (found matches Ok(Some(k)) ==> exists|i: int| #[trigger]
            is_first_hash(table_of(*final(conn)), except, hash, i) && recorded_keys(
                *final(conn),
            )[i] == k),
        conforming(*final(conn)) ==> (found matches Ok(None) ==> forall|k: i64|
            is_other_id(except, k) ==> !(#[trigger] holds_hash(
                allocation_rows(*final(conn)),
                k,
                hash,
            ))),
{
    rusqlite::OptionalExtension::optional(
        conn.query_row(
            "SELECT node_id FROM allocation WHERE pseudo_unique_id = ?1
                AND node_id BETWEEN 0 AND 65535 AND node_id IS NOT ?2
                ORDER BY rowid LIMIT 1",
            (hash, except),
            |row| row.get::<_, i64>(0),
        ),
    )
}

/// `rusqlite::Connection::query_row`, for the number of rows with key `k`, which
/// the table's uniqueness constraint keeps at one or none.
#[verifier::external_body]
fn count_rows(conn: &mut rusqlite::Connection, k: i64) -> (count: Result<i64, rusqlite::Error>)
    ensures
        queried(*old(conn), *final(conn)),
        undisturbed(*old(conn), *final(conn)) ==> count is Ok,
        conforming(*final(conn)) ==> (count matches Ok(n) ==> n == (if allocation_rows(*final(conn)).contains_key(k) {
            1int
        } else {
            0
        })),
{
    conn.query_row("SELECT COUNT(*) FROM allocation WHERE node_id = ?1", [k], |row| row.get(0))
}

/// `rusqlite::Connection::query_row`, for the columns of the row with key `k`.
#[verifier::external_body]
fn select_row(conn: &mut rusqlite::Connection, k: i64) -> (row: Result<
    Option<RawRow>,
    rusqlite::Error,
>)
    ensures
        queried(*old(conn), *final(conn)),
        undisturbed(*old(conn), *final(conn)) ==> row is Ok,
        conforming(*final(conn)) ==> (row matches Ok(Some(raw)) ==> shows(
            raw,
            allocation_rows(*final(conn)),
            k,
        )),
        conforming(*final(conn)) ==> (row matches Ok(None) ==> !allocation_rows(
            *final(conn),
        ).contains_key(k)),
{
    rusqlite::OptionalExtension::optional(
        conn.query_row(
            "SELECT node_id, unique_id_hex, pseudo_unique_id, ts FROM allocation WHERE node_id = ?1",
            [k],
            |row| Ok((row.get(0).ok(), row.get(1).ok(), row.get(2).ok(), row.get(3).ok())),
        ),
    )
}

/// Whether the keys of the rows that were read ascend.
pub open spec fn ascending(raws: Seq<Result<RawRow, rusqlite::Error>>) -> bool {
    forall|i: int, j: int, a: i64, b: i64|
        #![trigger key_at(raws, i, a), key_at(raws, j, b)]
        0 <= i < j < raws.len() && key_at(raws, i, a) && key_at(raws, j, b) ==> a < b
}

/// Whether the row read at position `i` has the integer key `k`.
pub open spec fn key_at(raws: Seq<Result<RawRow, rusqlite::Error>>, i: int, k: i64) -> bool {
    raws[i] matches Ok(raw) && raw.0 == Some(k)
}

/// `rusqlite::Statement::query_map`, for the columns of every row in the order
/// of the keys.
#[verifier::external_body]
fn select_all(conn: &mut rusqlite::Connection) -> (rows: Result<
    Vec<Result<RawRow, rusqlite::Error>>,
    rusqlite::Error,
>)
    ensures
        queried(*old(conn), *final(conn)),
        conforming(*final(conn)) ==> (rows matches Ok(raws) ==> {
            &&& ascending(raws@)
            &&& forall|i: int, k: i64|
                0 <= i < raws@.len() && #[trigger] key_at(raws@, i, k) ==> shows(
                    raws@[i]->Ok_0,
                    allocation_rows(*final(conn)),
                    k,
                )
        }),
        undisturbed(*old(conn), *final(conn)) ==> (rows matches Ok(raws) && {
            &&& forall|i: int| 0 <= i < raws@.len() ==> #[trigger] raws@[i] is Ok
            &&& forall|k: i64| #[trigger]
                allocation_rows(*final(conn)).contains_key(k) ==> exists|i: int|
                    0 <= i < raws@.len() && key_at(raws@, i, k)
        }),
{
    let mut stmt = conn.prepare(
        "SELECT node_id, unique_id_hex, pseudo_unique_id, ts FROM allocation ORDER BY node_id",
    )?;
    let rows = stmt.query_map(
        [],
        |row| Ok((row.get(0).ok(), row.get(1).ok(), row.get(2).ok(), row.get(3).ok())),
    )?;
    Ok(rows.collect())
}

/// `rusqlite::Connection::execute`, for a new row, which SQLite numbers behind all
/// others. The table's uniqueness constraint refuses a key that is present.
#[verifier::external_body]
fn insert_row(conn: &mut rusqlite::Connection, k: i64, hex: &str, hash: Option<i64>) -> (done:
    Result<usize, rusqlite::Error>)
    requires
        k >= 0,
    ensures
        later(*old(conn), *final(conn)),
        conforming(*final(conn)) && done is Ok ==> allocation_rows(*final(conn)).contains_key(k)
            && is_row(allocation_rows(*final(conn))[k], hex@, hash),
        undisturbed(*old(conn), *final(conn)) ==> if allocation_rows(*old(conn)).contains_key(k) {
            done is Err && table_of(*final(conn)) == table_of(*old(conn))
        } else {
            done is Ok && inserted(table_of(*old(conn)), table_of(*final(conn)), k, hex@, hash)
        },
{
    conn.execute(
        "INSERT INTO allocation (node_id, unique_id_hex, pseudo_unique_id) VALUES (?1, ?2, ?3)",
        (k, hex, hash),
    )
}

/// `rusqlite::Connection::execute`, for a new row without a hash, which SQLite numbers
/// behind all others, unless the key is present.
#[verifier::external_body]
fn insert_row_if_absent(conn: &mut rusqlite::Connection, k: i64, hex: &str) -> (done: Result<
    usize,
    rusqlite::Error,
>)
    requires
        k >= 0,
    ensures
        later(*old(conn), *final(conn)),
        conforming(*final(conn)) && done is Ok ==> allocation_rows(*final(conn)).contains_key(k),
        undisturbed(*old(conn), *final(conn)) ==> done is Ok && if allocation_rows(
            *old(conn),
        ).contains_key(k) {
            table_of(*final(conn)) == table_of(*old(conn))
        } else {
            inserted(table_of(*old(conn)), table_of(*final(conn)), k, hex@, None)
        },
{
    conn.execute(
        "INSERT OR IGNORE INTO allocation (node_id, unique_id_hex, pseudo_unique_id) VALUES (?1, ?2, NULL)",
        (k, hex),
    )
}

/// `rusqlite::Connection::execute`, for a new unique ID of the row with key `k`, which
/// keeps its number.
#[verifier::external_body]
fn update_row(conn: &mut rusqlite::Connection, k: i64, hex: &str) -> (done: Result<
    usize,
    rusqlite::Error,
>)
    ensures
        later(*old(conn), *final(conn)),
        conforming(*final(conn)) && done is Ok && allocation_rows(*final(conn)).contains_key(k)
            ==> holds_hex(allocation_rows(*final(conn)), k, hex@),
        undisturbed(*old(conn), *final(conn)) ==> done is Ok && table_of(*final(conn))
            == with_unique_id(table_of(*old(conn)), k, hex@),
{
    conn.execute("UPDATE allocation SET unique_id_hex = ?2 WHERE node_id = ?1", (k, hex))
}

// ─── unique IDs as text ──────────────────────────────────────────────────────

/// The text of sixteen zero bytes, which marks a static node.
pub open spec fn zero_hex() -> Seq<char> {
    Seq::new(32, |i: int| '0')
}

/// Encode `bytes` as lower-case hexadecimal text.
pub fn bytes_to_hex(bytes: &[u8]) -> (s: String)
    ensures
        s@ == text::hex(bytes@),
{
    let mut s = String::new();
    let mut i: usize = 0;
    assert(s@ =~= text::hex(bytes@.take(0)));
    while i < bytes.len()
        invariant
            i <= bytes@.len(),
            s@ == text::hex(bytes@.take(i as int)),
        decreases bytes@.len() - i,
    {
        let ghost before = s@;
        text::push_hex_byte(&mut s, bytes[i]);
        proof {
            let shorter = text::hex(bytes@.take(i as int));
            let longer = text::hex(bytes@.take(i + 1));
            let last = text::hex(seq![bytes@[i as int]]);
            assert forall|j: int| 0 <= j < longer.len() implies longer[j] == (shorter + last)[j] by {
                if j < 2 * i {
                    assert(bytes@.take(i + 1)[j / 2] == bytes@.take(i as int)[j / 2]);
                } else {
                    assert(bytes@.take(i + 1)[j / 2] == bytes@[i as int]);
                    assert(seq![bytes@[i as int]][(j - 2 * i) / 2] == bytes@[i as int]);
                    assert(j % 2 == (j - 2 * i) % 2);
                }
            }
            assert(longer =~= shorter + last);
        }
        i = i + 1;
    }
    assert(bytes@.take(i as int) =~= bytes@);
    s
}

/// The unique ID that stands for a node known only by a 48-bit hash: ten zero
/// bytes, then the six low bytes of the hash, most significant first.
pub open spec fn hash_bytes(hash: u64) -> Seq<u8> {
    seq![
        0u8,
        0u8,
        0u8,
        0u8,
        0u8,
        0u8,
        0u8,
        0u8,
        0u8,
        0u8,
        ((hash / 0x100_0000_0000) % 256) as u8,
        ((hash / 0x1_0000_0000) % 256) as u8,
        ((hash / 0x100_0000) % 256) as u8,
        ((hash / 0x1_0000) % 256) as u8,
        ((hash / 0x100) % 256) as u8,
        (hash % 256) as u8,
    ]
}

/// The text of the unique ID that stands for a hash.
pub fn hash_to_hex(hash: u64) -> (s: String)
    ensures
        s@ == text::hex(hash_bytes(hash)),
{
    let padded: [u8; 16] = [
        0,
        0,
        0,
        0,
        0,
        0,
        0,
        0,
        0,
        0,
        ((hash / 0x100_0000_0000) % 256) as u8,
        ((hash / 0x1_0000_0000) % 256) as u8,
        ((hash / 0x100_0000) % 256) as u8,
        ((hash / 0x1_0000) % 256) as u8,
        ((hash / 0x100) % 256) as u8,
        (hash % 256) as u8,
    ];
    assert(padded@ =~= hash_bytes(hash));
    bytes_to_hex(&padded)
}

fn zero_hex_string() -> (s: String)
    ensures
        s@ == zero_hex(),
{
    let mut s = String::new();
    let mut i: usize = 0;
    while i < 32
        invariant
            i <= 32,
            s@ =~= Seq::new(i as nat, |j: int| '0'),
        decreases 32 - i,
    {
        s.push('0');
        i = i + 1;
    }
    s
}

/// Whether `uid` is the unique ID of zeros.
pub fn is_zero_id(uid: &[u8; 16]) -> (zero: bool)
    ensures
        zero == (text::hex(uid@) == zero_hex()),
{
    let hex = bytes_to_hex(uid);
    let zeros = zero_hex_string();
    text::same_text(hex.as_str(), zeros.as_str())
}

/// A hash as the integer type of the table, bit for bit.
pub open spec fn signed(hash: u64) -> i64 {
    hash as i64
}

// ─── entries ─────────────────────────────────────────────────────────────────

/// A single row from the allocation table.
#[derive(Debug, Clone)]
pub struct AllocationEntry {
    /// Assigned Cyphal node ID.
    pub node_id: u16,
    /// Hex-encoded 128-bit unique ID (32 lower-case hex characters).
    pub unique_id_hex: String,
    /// 48-bit hash value stored for v1 allocations; `None` for v2 and static nodes.
    pub pseudo_unique_id: Option<i64>,
    /// Timestamp string as stored by SQLite (`current_timestamp`).
    pub ts: String,
}

/// Whether a unique ID is only a placeholder: all zeros for a static node, or
/// the padded hash for a v1 node.
pub open spec fn is_placeholder(hex: Seq<char>, hash: Option<i64>) -> bool {
    hex == zero_hex() || (hash matches Some(h) && hex == text::hex(hash_bytes(h as u64)))
}

impl AllocationEntry {
    /// Whether the node still has to be asked for its unique ID.
    pub fn needs_get_info(&self) -> (needed: bool)
        ensures
            needed == is_placeholder(self.unique_id_hex@, self.pseudo_unique_id),
    {
        let zeros = zero_hex_string();
        if text::same_text(self.unique_id_hex.as_str(), zeros.as_str()) {
            return true;
        }
        match self.pseudo_unique_id {
            Some(hash) => {
                let padded = hash_to_hex(hash as u64);
                text::same_text(self.unique_id_hex.as_str(), padded.as_str())
            },
            None => false,
        }
    }
}

/// The characters of a column, or none where it holds no text.
pub open spec fn text_or_empty(column: Option<Seq<char>>) -> Seq<char> {
    match column {
        Some(t) => t,
        None => Seq::empty(),
    }
}

/// Whether the row can be shown as an entry.
pub open spec fn is_readable(row: AllocationRow) -> bool {
    row.pseudo_unique_id is Some
}

/// Whether the entry shows the row with key `k`.
pub open spec fn is_entry(entry: AllocationEntry, k: i64, row: AllocationRow) -> bool {
    &&& entry.node_id == k as u16
    &&& entry.unique_id_hex@ == text_or_empty(row.unique_id_hex)
    &&& row.pseudo_unique_id == Some(entry.pseudo_unique_id)
    &&& entry.ts@ == text_or_empty(row.ts)
}

/// Whether the entries show rows with the given keys, in ascending order.
pub open spec fn is_listing(
    entries: Seq<AllocationEntry>,
    keys: Seq<i64>,
    rows: Map<i64, AllocationRow>,
) -> bool {
    &&& entries.len() == keys.len()
    &&& forall|i: int, j: int| 0 <= i < j < keys.len() ==> #[trigger] keys[i] < #[trigger] keys[j]
    &&& forall|i: int|
        0 <= i < keys.len() ==> rows.contains_key(#[trigger] keys[i]) && is_entry(
            entries[i],
            keys[i],
            rows[keys[i]],
        )
}

/// Whether the keys are those of all the rows that can be shown.
pub open spec fn is_complete(keys: Seq<i64>, rows: Map<i64, AllocationRow>) -> bool {
    forall|k: i64| #[trigger]
        rows.contains_key(k) && is_readable(rows[k]) ==> keys.contains(k)
}

/// Whether the entries show rows of the table in the order of their keys, and,
/// where `all` is asked, all that can be shown.
pub open spec fn lists(
    entries: Seq<AllocationEntry>,
    rows: Map<i64, AllocationRow>,
    all: bool,
) -> bool {
    exists|keys: Seq<i64>| #[trigger]
        is_listing(entries, keys, rows) && (all ==> is_complete(keys, rows))
}

fn string_or_empty(column: &Option<String>) -> (s: String)
    ensures
        s@ == text_or_empty(text_of(*column)),
{
    match column {
        Some(t) => t.clone(),
        None => String::new(),
    }
}

/// The entry that the columns of a row make, unless its key or hash cannot be
/// read.
fn entry_of(raw: &RawRow) -> (entry: Option<AllocationEntry>)
    ensures
        entry is Some <==> raw.0 is Some && raw.2 is Some,
        entry matches Some(e) ==> {
            &&& e.node_id == raw.0->0 as u16
            &&& e.unique_id_hex@ == text_or_empty(text_of(raw.1))
            &&& e.pseudo_unique_id == raw.2->0
            &&& e.ts@ == text_or_empty(text_of(raw.3))
        },
{
    match raw {
        (Some(key), hex, Some(hash), ts) => Some(
            AllocationEntry {
                node_id: *key as u16,
                unique_id_hex: string_or_empty(hex),
                pseudo_unique_id: *hash,
                ts: string_or_empty(ts),
            },
        ),
        _ => None,
    }
}

/// Whether the message is the context followed by the text of the error.
pub closed spec fn tells_error(
    message: Seq<char>,
    context: Seq<char>,
    e: rusqlite::Error,
) -> bool {
    exists|detail: String| #[trigger]
        call_ensures(error_text, (&e,), detail) && message == context + detail@
}

/// Whether the message is the context followed by the text of an error of the database.
pub closed spec fn tells_failure(message: Seq<char>, context: Seq<char>) -> bool {
    exists|e: rusqlite::Error| tells_error(message, context, e)
}

/// Whether the connection is one that was opened at the path, as it was then but for a
/// table created where there was none.
pub closed spec fn was_opened(path: &str, conn: rusqlite::Connection) -> bool {
    exists|fresh: rusqlite::Connection|
        call_ensures(open_connection, (path,), Ok(fresh)) && #[trigger] queried(fresh, conn)
}

/// Whether no database could be opened at the path, for the reason that the message
/// tells.
pub closed spec fn was_not_opened(path: &str, message: Seq<char>) -> bool {
    exists|e: rusqlite::Error|
        call_ensures(open_connection, (path,), Err(e)) && #[trigger] tells_error(
            message,
            "Cannot open DB at "@ + path@ + ": "@,
            e,
        )
}

fn failure(context: &str, e: &rusqlite::Error) -> (s: String)
    ensures
        context@.is_prefix_of(s@),
        tells_error(s@, context@, *e),
        tells_failure(s@, context@),
{
    let mut s = String::new();
    s.append(context);
    let detail = error_text(e);
    s.append(detail.as_str());
    assert(s@ == context@ + detail@);
    assert(tells_error(s@, context@, *e));
    s
}

// ─── the database ────────────────────────────────────────────────────────────

/// Thin wrapper around a SQLite connection providing the allocation table
/// operations.
pub struct AllocationDb {
    conn: rusqlite::Connection,
}

/// Whether node ID `id` may be handed out.
pub open spec fn is_free(rows: Map<i64, AllocationRow>, reserved: Seq<u16>, id: u16) -> bool {
    !reserved.contains(id) && !rows.contains_key(id as i64)
}

/// Whether `free` is the lowest node ID from 1 to `max_id` that may be handed
/// out, if there is one.
pub open spec fn is_next_free(
    rows: Map<i64, AllocationRow>,
    reserved: Seq<u16>,
    max_id: u16,
    free: Option<u16>,
) -> bool {
    match free {
        Some(id) => {
            &&& 1 <= id <= max_id
            &&& is_free(rows, reserved, id)
            &&& forall|lower: u16| 1 <= lower < id ==> !is_free(rows, reserved, lower)
        },
        None => forall|lower: u16| 1 <= lower <= max_id ==> !is_free(rows, reserved, lower),
    }
}

impl AllocationDb {
    /// The state of the connection.
    pub closed spec fn link(&self) -> rusqlite::Connection {
        self.conn
    }

    /// The rows of the allocation table.
    pub open spec fn rows(&self) -> Map<i64, AllocationRow> {
        allocation_rows(self.link())
    }

    /// What the allocation table holds.
    pub open spec fn table(&self) -> Table {
        table_of(self.link())
    }

    /// Whether the database holds the table that is expected.
    pub open spec fn is_conforming(&self) -> bool {
        conforming(self.link())
    }

    /// Whether nothing disturbed the database since it was `before`.
    pub open spec fn is_undisturbed_since(&self, before: &AllocationDb) -> bool {
        undisturbed(before.link(), self.link())
    }

    /// Whether `self` is a later state of `before`.
    pub open spec fn is_later_than(&self, before: &AllocationDb) -> bool {
        later(before.link(), self.link())
    }

    /// The path that the database was opened with.
    pub open spec fn path(&self) -> Seq<char> {
        database_path(self.link())
    }

    /// Open (or create) the SQLite allocation database at `path`, whose directory has
    /// to exist.
    ///
    /// A database in memory (`:memory:`) starts with an empty table. Whether a file
    /// can be opened, and what it holds, is up to the disk.
    pub fn open(path: &str) -> (db: Result<Self, String>)
        ensures
            db matches Ok(d) ==> d.path() == path@,
            path@ == ":memory:"@ ==> (db matches Ok(d) ==> d.is_conforming() && d.table()
                == empty_table()),
            path@.contains('\0') ==> (db matches Err(e) && ("Cannot open DB at "@ + path@
                + ": "@).is_prefix_of(e@)),
            db matches Err(e) ==> {
                ||| ("Cannot open DB at "@ + path@ + ": "@).is_prefix_of(e@)
                ||| "Cannot create allocation table: "@.is_prefix_of(e@)
            },
            match db {
                Ok(d) => was_opened(path, d.link()),
                Err(message) => was_not_opened(path, message@) || tells_failure(
                    message@,
                    "Cannot create allocation table: "@,
                ),
            },
    {
        let mut conn = match open_connection(path) {
            Ok(conn) => conn,
            Err(e) => {
                let mut context = String::new();
                context.append("Cannot open DB at ");
                context.append(path);
                context.append(": ");
                let message = failure(context.as_str(), &e);
                assert(was_not_opened(path, message@));
                return Err(message);
            },
        };
        let ghost fresh = conn;
        match create_table(&mut conn) {
            Ok(_) => {
                assert(queried(fresh, conn));
                assert(was_opened(path, conn));
                Ok(AllocationDb { conn })
            },
            Err(e) => Err(failure("Cannot create allocation table: ", &e)),
        }
    }

    /// Look up a node ID by the full 128-bit unique ID (v2 allocation).
    ///
    /// Returns the first recorded node ID that is known for this unique ID. None is known for
    /// the unique ID of zeros, which only marks nodes whose unique ID is not known.
    pub fn find_by_unique_id(&mut self, uid: &[u8; 16]) -> (found: Option<u16>)
        ensures
            final(self).is_later_than(old(self)),
            final(self).is_conforming() ==> (found matches Some(id) ==> names_hex(
                final(self).rows(),
                None,
                id,
                text::hex(uid@),
            )),
            final(self).is_undisturbed_since(old(self)) ==> {
                &&& final(self).table() == old(self).table()
                &&& finds_hex(old(self).table(), None, text::hex(uid@), found)
            },
    {
        self.lookup_hex(uid, None)
    }

    /// Look up a node ID by the full 128-bit unique ID, as
    /// [`find_by_unique_id`](AllocationDb::find_by_unique_id) does, but never find
    /// `except`.
    pub fn find_other_by_unique_id(&mut self, uid: &[u8; 16], except: u16) -> (found: Option<u16>)
        ensures
            final(self).is_later_than(old(self)),
            found != Some(except),
            final(self).is_conforming() ==> (found matches Some(id) ==> names_hex(
                final(self).rows(),
                Some(except),
                id,
                text::hex(uid@),
            )),
            final(self).is_undisturbed_since(old(self)) ==> {
                &&& final(self).table() == old(self).table()
                &&& finds_hex(old(self).table(), Some(except), text::hex(uid@), found)
            },
    {
        self.lookup_hex(uid, Some(except))
    }

    /// Look up a node ID by the 48-bit unique-ID hash (v1 allocation).
    ///
    /// Returns the first recorded node ID that is known for this hash.
    pub fn find_by_hash(&mut self, hash: u64) -> (found: Option<u16>)
        ensures
            final(self).is_later_than(old(self)),
            final(self).is_conforming() ==> (found matches Some(id) ==> names_hash(
                final(self).rows(),
                None,
                id,
                signed(hash),
            )),
            final(self).is_undisturbed_since(old(self)) ==> {
                &&& final(self).table() == old(self).table()
                &&& finds_hash(old(self).table(), None, signed(hash), found)
            },
    {
        self.lookup_hash(hash, None)
    }

    /// Look up a node ID by the 48-bit unique-ID hash, as
    /// [`find_by_hash`](AllocationDb::find_by_hash) does, but never find `except`.
    pub fn find_other_by_hash(&mut self, hash: u64, except: u16) -> (found: Option<u16>)
        ensures
            final(self).is_later_than(old(self)),
            found != Some(except),
            final(self).is_conforming() ==> (found matches Some(id) ==> names_hash(
                final(self).rows(),
                Some(except),
                id,
                signed(hash),
            )),
            final(self).is_undisturbed_since(old(self)) ==> {
                &&& final(self).table() == old(self).table()
                &&& finds_hash(old(self).table(), Some(except), signed(hash), found)
            },
    {
        self.lookup_hash(hash, Some(except))
    }

    fn lookup_hex(&mut self, uid: &[u8; 16], except: Option<u16>) -> (found: Option<u16>)
        ensures
            final(self).is_later_than(old(self)),
            found matches Some(id) ==> except != Some(id),
            final(self).is_conforming() ==> (found matches Some(id) ==> names_hex(
                final(self).rows(),
                except,
                id,
                text::hex(uid@),
            )),
            final(self).is_undisturbed_since(old(self)) ==> {
                &&& final(self).table() == old(self).table()
                &&& finds_hex(old(self).table(), except, text::hex(uid@), found)
            },
    {
        if is_zero_id(uid) {
            return None;
        }
        let hex = bytes_to_hex(uid);
        match select_by_unique_id(&mut self.conn, hex.as_str(), except) {
            Ok(Some(id)) => if is_other(except, id) {
                Some(id as u16)
            } else {
                None
            },
            _ => None,
        }
    }

    fn lookup_hash(&mut self, hash: u64, except: Option<u16>) -> (found: Option<u16>)
        ensures
            final(self).is_later_than(old(self)),
            found matches Some(id) ==> except != Some(id),
            final(self).is_conforming() ==> (found matches Some(id) ==> names_hash(
                final(self).rows(),
                except,
                id,
                signed(hash),
            )),
            final(self).is_undisturbed_since(old(self)) ==> {
                &&& final(self).table() == old(self).table()
                &&& finds_hash(old(self).table(), except, signed(hash), found)
            },
    {
        let hash_signed: i64 = hash as i64;
        match select_by_hash(&mut self.conn, hash_signed, except) {
            Ok(Some(id)) => if is_other(except, id) {
                Some(id as u16)
            } else {
                None
            },
            _ => None,
        }
    }

    /// Look up the row of a node ID.
    pub fn find_by_node_id(&mut self, node_id: u16) -> (found: Option<AllocationEntry>)
        ensures
            final(self).is_later_than(old(self)),
            final(self).is_conforming() ==> (found matches Some(e) ==> final(self).rows().contains_key(node_id as i64) && is_entry(
                e,
                node_id as i64,
                final(self).rows()[node_id as i64],
            )),
            final(self).is_undisturbed_since(old(self)) ==> {
                &&& final(self).table() == old(self).table()
                &&& found is Some <==> final(self).rows().contains_key(node_id as i64)
                    && is_readable(final(self).rows()[node_id as i64])
            },
    {
        match select_row(&mut self.conn, node_id as i64) {
            Ok(Some(raw)) => entry_of(&raw),
            _ => None,
        }
    }

    /// Find the lowest available node ID from 1 to `max_id` (inclusive).
    ///
    /// IDs already in the allocation table or in the `reserved` slice are skipped.
    /// Returns `None` if no free ID is available.
    pub fn next_free_id(&mut self, reserved: &[u16], max_id: u16) -> (free: Option<u16>)
        ensures
            final(self).is_later_than(old(self)),
            free matches Some(id) ==> 1 <= id <= max_id && !reserved@.contains(id),
            final(self).is_conforming() ==> (free matches Some(id) ==> is_free(
                final(self).rows(),
                reserved@,
                id,
            )),
            final(self).is_undisturbed_since(old(self)) ==> {
                &&& final(self).table() == old(self).table()
                &&& is_next_free(old(self).rows(), reserved@, max_id, free)
            },
    {
        let mut candidate: u32 = 1;
        while candidate <= max_id as u32
            invariant
                1 <= candidate <= max_id + 1,
                self.is_later_than(old(self)),
                self.is_undisturbed_since(old(self)) ==> {
                    &&& self.table() == old(self).table()
                    &&& forall|lower: u16|
                        1 <= lower < candidate ==> !is_free(old(self).rows(), reserved@, lower)
                },
            decreases max_id + 1 - candidate,
        {
            let id: u16 = candidate as u16;
            if !contains_id(reserved, id) {
                let count: i64 = match count_rows(&mut self.conn, id as i64) {
                    Ok(n) => n,
                    Err(_) => 1,
                };
                if count == 0 {
                    return Some(id);
                }
            }
            candidate = candidate + 1;
        }
        None
    }

    /// Record a v2 (full unique-ID) allocation.
    pub fn insert_v2(&mut self, node_id: u16, uid: &[u8; 16]) -> (done: Result<(), String>)
        ensures
            final(self).is_later_than(old(self)),
            final(self).is_conforming() && done is Ok ==> holds_hex(
                final(self).rows(),
                node_id as i64,
                text::hex(uid@),
            ),
            final(self).is_undisturbed_since(old(self)) ==> if old(self).rows().contains_key(
                node_id as i64,
            ) {
                done is Err && final(self).table() == old(self).table()
            } else {
                done is Ok && inserted(
                    old(self).table(),
                    final(self).table(),
                    node_id as i64,
                    text::hex(uid@),
                    None,
                )
            },
            done matches Err(e) ==> "DB insert_v2 failed: "@.is_prefix_of(e@),
            done matches Err(message) ==> tells_failure(message@, "DB insert_v2 failed: "@),
    {
        let hex = bytes_to_hex(uid);
        match insert_row(&mut self.conn, node_id as i64, hex.as_str(), None) {
            Ok(_) => Ok(()),
            Err(e) => Err(failure("DB insert_v2 failed: ", &e)),
        }
    }

    /// Record a v1 (48-bit hash) allocation.
    ///
    /// The unique ID is ten zero bytes and then the six bytes of the hash.
    pub fn insert_v1(&mut self, node_id: u16, hash: u64) -> (done: Result<(), String>)
        ensures
            final(self).is_later_than(old(self)),
            final(self).is_conforming() && done is Ok ==> holds_hash(
                final(self).rows(),
                node_id as i64,
                signed(hash),
            ),
            final(self).is_undisturbed_since(old(self)) ==> if old(self).rows().contains_key(
                node_id as i64,
            ) {
                done is Err && final(self).table() == old(self).table()
            } else {
                done is Ok && inserted(
                    old(self).table(),
                    final(self).table(),
                    node_id as i64,
                    text::hex(hash_bytes(hash)),
                    Some(signed(hash)),
                )
            },
            done matches Err(e) ==> "DB insert_v1 failed: "@.is_prefix_of(e@),
            done matches Err(message) ==> tells_failure(message@, "DB insert_v1 failed: "@),
    {
        let hex = hash_to_hex(hash);
        let hash_signed: i64 = hash as i64;
        match insert_row(&mut self.conn, node_id as i64, hex.as_str(), Some(hash_signed)) {
            Ok(_) => Ok(()),
            Err(e) => Err(failure("DB insert_v1 failed: ", &e)),
        }
    }

    /// Record a static node observed via heartbeat.
    ///
    /// An existing entry is never overwritten.
    pub fn record_static_node(&mut self, node_id: u16) -> (done: Result<(), String>)
        ensures
            final(self).is_later_than(old(self)),
            final(self).is_conforming() && done is Ok ==> final(self).rows().contains_key(
                node_id as i64,
            ),
            final(self).is_undisturbed_since(old(self)) ==> done is Ok && reserved_in(
                old(self).table(),
                final(self).table(),
                node_id as i64,
            ),
            done matches Err(e) ==> "DB record_static_node failed: "@.is_prefix_of(e@),
            done matches Err(message) ==> tells_failure(message@, "DB record_static_node failed: "@),
    {
        let zeros = zero_hex_string();
        match insert_row_if_absent(&mut self.conn, node_id as i64, zeros.as_str()) {
            Ok(_) => Ok(()),
            Err(e) => Err(failure("DB record_static_node failed: ", &e)),
        }
    }

    /// Set the unique ID of a node, where the table has a row for it.
    pub fn update_unique_id(&mut self, node_id: u16, uid: &[u8; 16]) -> (done: Result<(), String>)
        ensures
            final(self).is_later_than(old(self)),
            final(self).is_conforming() && done is Ok && final(self).rows().contains_key(
                node_id as i64,
            ) ==> holds_hex(final(self).rows(), node_id as i64, text::hex(uid@)),
            final(self).is_undisturbed_since(old(self)) ==> done is Ok && final(self).table()
                == with_unique_id(old(self).table(), node_id as i64, text::hex(uid@)),
            done matches Err(e) ==> "DB update_unique_id failed: "@.is_prefix_of(e@),
            done matches Err(message) ==> tells_failure(message@, "DB update_unique_id failed: "@),
    {
        let hex = bytes_to_hex(uid);
        match update_row(&mut self.conn, node_id as i64, hex.as_str()) {
            Ok(_) => Ok(()),
            Err(e) => Err(failure("DB update_unique_id failed: ", &e)),
        }
    }

    /// Return all rows in the allocation table, ordered by node ID.
    pub fn list_all(&mut self) -> (entries: Vec<AllocationEntry>)
        ensures
            final(self).is_later_than(old(self)),
            final(self).is_conforming() ==> lists(
                entries@,
                final(self).rows(),
                final(self).is_undisturbed_since(old(self)),
            ),
            final(self).is_undisturbed_since(old(self)) ==> final(self).table() == old(self).table(),
    {
        let mut entries: Vec<AllocationEntry> = Vec::new();
        let raws = match select_all(&mut self.conn) {
            Ok(raws) => raws,
            Err(_) => {
                assert(is_listing(entries@, Seq::<i64>::empty(), self.rows()));
                return entries;
            },
        };
        let ghost mut keys: Seq<i64> = Seq::empty();
        let ghost mut places: Seq<int> = Seq::empty();
        let mut i: usize = 0;
        while i < raws.len()
            invariant
                i <= raws@.len(),
                self.is_conforming() ==> {
                    &&& ascending(raws@)
                    &&& forall|j: int, k: i64|
                        0 <= j < raws@.len() && #[trigger] key_at(raws@, j, k) ==> shows(
                            raws@[j]->Ok_0,
                            self.rows(),
                            k,
                        )
                    &&& is_listing(entries@, keys, self.rows())
                },
                places.len() == keys.len(),
                forall|n: int| #![trigger places[n]]
                    0 <= n < keys.len() ==> 0 <= places[n] < i && key_at(raws@, places[n], keys[n]),
                self.is_conforming() ==> forall|j: int, k: i64|
                    0 <= j < i && #[trigger] key_at(raws@, j, k) && is_readable(self.rows()[k])
                        ==> keys.contains(k),
            decreases raws@.len() - i,
        {
            let ghost before = keys;
            if let Ok(raw) = &raws[i] {
                if let Some(entry) = entry_of(raw) {
                    proof {
                        let k = raw.0->0;
                        assert(key_at(raws@, i as int, k));
                        keys = keys.push(k);
                        places = places.push(i as int);
                        if self.is_conforming() {
                            assert forall|n: int| 0 <= n < before.len() implies before[n] < k by {
                                assert(before[n] == keys[n] && places[n] < i);
                            }
                            assert(keys[before.len() as int] == k);
                        }
                    }
                    entries.push(entry);
                }
            }
            proof {
                assert forall|k: i64| before.contains(k) implies keys.contains(k) by {
                    let n = choose|n: int| 0 <= n < before.len() && before[n] == k;
                    assert(keys[n] == k);
                }
                if self.is_conforming() && keys.len() > before.len() {
                    assert(keys[before.len() as int] == keys.last());
                }
            }
            i = i + 1;
        }
        assert(self.is_conforming() ==> is_listing(entries@, keys, self.rows()));
        entries
    }
}

fn is_other(except: Option<u16>, k: i64) -> (other: bool)
    ensures
        other == is_other_id(except, k),
{
    if k < 0 || k > 0xFFFF {
        return false;
    }
    match except {
        Some(id) => id != k as u16,
        None => true,
    }
}

fn contains_id(ids: &[u16], id: u16) -> (found: bool)
    ensures
        found == ids@.contains(id),
{
    let mut i: usize = 0;
    while i < ids.len()
        invariant
            i <= ids@.len(),
            forall|j: int| 0 <= j < i ==> ids@[j] != id,
        decreases ids@.len() - i,
    {
        if ids[i] == id {
            return true;
        }
        i = i + 1;
    }
    false
}

// ─── laws ────────────────────────────────────────────────────────────────────

/// The lowest free ID is found whenever there is one: no lower ID from 1 on is free, and
/// where none is found, every ID up to the highest is reserved or in the table.
pub proof fn free_ids_are_found(
    rows: Map<i64, AllocationRow>,
    reserved: Seq<u16>,
    max_id: u16,
    free: Option<u16>,
    id: u16,
)
    requires
        is_next_free(rows, reserved, max_id, free),
        1 <= id <= max_id,
        !reserved.contains(id),
        !rows.contains_key(id as i64),
    ensures
        free matches Some(lowest) && 1 <= lowest <= id && !reserved.contains(lowest)
            && !rows.contains_key(lowest as i64),
{
    assert(is_free(rows, reserved, id));
}

/// The unique ID that stands for a hash has ten zero bytes, and then the bytes of the low
/// 48 bits of the hash, most significant first. So hashes of 48 bits are told apart.
pub proof fn hashes_are_padded(hash: u64, i: int)
    ensures
        hash_bytes(hash).len() == 16,
        0 <= i < 10 ==> hash_bytes(hash)[i] == 0,
        ((((hash_bytes(hash)[10] * 256 + hash_bytes(hash)[11]) * 256 + hash_bytes(hash)[12]) * 256
            + hash_bytes(hash)[13]) * 256 + hash_bytes(hash)[14]) * 256 + hash_bytes(hash)[15]
            == hash % 0x1_0000_0000_0000,
{
    let b = hash_bytes(hash);
    let h = hash as int;
    let q1 = h / 256;
    let q2 = q1 / 256;
    let q3 = q2 / 256;
    let q4 = q3 / 256;
    let q5 = q4 / 256;
    let q6 = q5 / 256;
    assert(h / 0x1_0000 == q2);
    assert(h / 0x100_0000 == q3);
    assert(h / 0x1_0000_0000 == q4);
    assert(h / 0x100_0000_0000 == q5);
    assert(b[10] == q5 % 256);
    assert(b[11] == q4 % 256);
    assert(b[12] == q3 % 256);
    assert(b[13] == q2 % 256);
    assert(b[14] == q1 % 256);
    assert(b[15] == h % 256);
    let value = ((((b[10] * 256 + b[11]) * 256 + b[12]) * 256 + b[13]) * 256 + b[14]) * 256 + b[15];
    assert(h == q6 * 0x1_0000_0000_0000 + value);
    assert(0 <= value < 0x1_0000_0000_0000);
}

/// Setting the unique ID of a node leaves that unique ID in its row, the rest of the row
/// and all other rows as they were, and the order of recording too.
pub proof fn learned_ids_are_recorded(before: Table, node_id: u16, uid: Seq<u8>, other: i64)
    requires
        before.rows.contains_key(node_id as i64),
    ensures
        ({
            let after = with_unique_id(before, node_id as i64, text::hex(uid));
            let key = node_id as i64;
            &&& holds_hex(after.rows, key, text::hex(uid))
            &&& after.rows[key].pseudo_unique_id == before.rows[key].pseudo_unique_id
            &&& after.rows[key].ts == before.rows[key].ts
            &&& after.rows.contains_key(other) == before.rows.contains_key(other)
            &&& other != key ==> after.rows[other] == before.rows[other]
            &&& after.order == before.order
        }),
{
}

/// The listing of an undisturbed table shows each row that can be read exactly once, in
/// the order of the node IDs, and nothing else.
pub proof fn listings_are_complete(
    entries: Seq<AllocationEntry>,
    rows: Map<i64, AllocationRow>,
    k: u16,
)
    requires
        lists(entries, rows, true),
        forall|key: i64| #[trigger] rows.contains_key(key) ==> 0 <= key <= u16::MAX,
    ensures
        forall|i: int, j: int|
            0 <= i < j < entries.len() ==> (#[trigger] entries[i]).node_id < (
            #[trigger] entries[j]).node_id,
        rows.contains_key(k as i64) && rows[k as i64].pseudo_unique_id is Some ==> exists|i: int|
            0 <= i < entries.len() && (#[trigger] entries[i]).node_id == k,
        forall|i: int|
            0 <= i < entries.len() ==> {
                let entry = #[trigger] entries[i];
                let key = entry.node_id as i64;
                &&& rows.contains_key(key)
                &&& rows[key].pseudo_unique_id == Some(entry.pseudo_unique_id)
                &&& rows[key].unique_id_hex matches Some(hex) ==> entry.unique_id_hex@ == hex
                &&& rows[key].ts matches Some(ts) ==> entry.ts@ == ts
            },
{
    let keys = choose|keys: Seq<i64>| #[trigger]
        is_listing(entries, keys, rows) && is_complete(keys, rows);
    assert forall|i: int| 0 <= i < entries.len() implies (#[trigger] entries[i]).node_id as i64
        == keys[i] by {
        assert(rows.contains_key(keys[i]));
    }
    assert forall|i: int, j: int| 0 <= i < j < entries.len() implies (#[trigger] entries[i]).node_id
        < (#[trigger] entries[j]).node_id by {
        assert(keys[i] < keys[j]);
    }
    if rows.contains_key(k as i64) && rows[k as i64].pseudo_unique_id is Some {
        assert(keys.contains(k as i64));
        let i = choose|i: int| 0 <= i < keys.len() && keys[i] == k as i64;
        assert(entries[i].node_id == k);
    }
}

} // verus!
