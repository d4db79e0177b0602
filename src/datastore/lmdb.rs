//! The layout of a datastore file of the embedded transactional store, and
//! the transactions that read and change it.
//!
//! The unnamed database holds the metadata: the marker, the format version
//! and the counter of session ids. The `sessions` database maps the
//! big-endian id to the record's bytes, laid out as bincode lays out the
//! secret and a `SystemTime` (see `record_bytes`).

use vstd::prelude::*;

use crate::datastore::{DatastoreError, Record};
use crate::token::{
    SessionData, SessionId, SessionSecret,
};

verus! {

/// The marker that identifies a datastore file ("dumbauth" as a number).
pub const MARKER: u64 = 0x64756d6261757468;

/// The format version that this library reads and writes.
pub const VERSION: u64 = 1;

/// How many databases the environment must be opened with.
pub const NUM_DBS: u32 = 2;

/// The name of the database that holds the records.
pub const SESSIONS_DB_NAME: &'static str = "sessions";

/// The metadata key of the marker.
pub const MARKER_KEY: &'static str = "dumb-auth-datastore";

/// The metadata key of the format version.
pub const VERSION_KEY: &'static str = "version";

/// The metadata key of the next session id.
pub const SESSION_ID_COUNTER_KEY: &'static str = "session-id-counter";

/// Nanoseconds in a second.
pub const NANOS_PER_SEC: u128 = 1_000_000_000;

/// The eight bytes of `n`, least significant first.
pub open spec fn u64_le(n: u64) -> Seq<u8> {
    seq![
        n as u8,
        (n >> 8u64) as u8,
        (n >> 16u64) as u8,
        (n >> 24u64) as u8,
        (n >> 32u64) as u8,
        (n >> 40u64) as u8,
        (n >> 48u64) as u8,
        (n >> 56u64) as u8,
    ]
}

/// The four bytes of `n`, least significant first.
pub open spec fn u32_le(n: u32) -> Seq<u8> {
    seq![n as u8, (n >> 8u32) as u8, (n >> 16u32) as u8, (n >> 24u32) as u8]
}

/// The number whose little-endian bytes are the first eight of `b`.
pub open spec fn le_u64(b: Seq<u8>) -> u64
    recommends
        b.len() >= 8,
{
    (b[0] as u64) | (b[1] as u64) << 8u64 | (b[2] as u64) << 16u64 | (b[3] as u64) << 24u64 | (
    b[4] as u64) << 32u64 | (b[5] as u64) << 40u64 | (b[6] as u64) << 48u64 | (b[7] as u64)
        << 56u64
}

/// The number whose little-endian bytes are the first four of `b`.
pub open spec fn le_u32(b: Seq<u8>) -> u32
    recommends
        b.len() >= 4,
{
    (b[0] as u32) | (b[1] as u32) << 8u32 | (b[2] as u32) << 16u32 | (b[3] as u32) << 24u32
}

/// Reading back the little-endian bytes of a number gives the number.
pub proof fn lemma_le_u64_round_trip(n: u64)
    ensures
        le_u64(u64_le(n)) == n,
{
    let b0 = n as u8;
    let b1 = (n >> 8u64) as u8;
    let b2 = (n >> 16u64) as u8;
    let b3 = (n >> 24u64) as u8;
    let b4 = (n >> 32u64) as u8;
    let b5 = (n >> 40u64) as u8;
    let b6 = (n >> 48u64) as u8;
    let b7 = (n >> 56u64) as u8;
    assert((b0 as u64) | (b1 as u64) << 8u64 | (b2 as u64) << 16u64 | (b3 as u64) << 24u64 | (
    b4 as u64) << 32u64 | (b5 as u64) << 40u64 | (b6 as u64) << 48u64 | (b7 as u64) << 56u64
        == n) by (bit_vector)
        requires
            b0 == n as u8,
            b1 == (n >> 8u64) as u8,
            b2 == (n >> 16u64) as u8,
            b3 == (n >> 24u64) as u8,
            b4 == (n >> 32u64) as u8,
            b5 == (n >> 40u64) as u8,
            b6 == (n >> 48u64) as u8,
            b7 == (n >> 56u64) as u8,
    ;
}

/// Reading back the little-endian bytes of a number gives the number.
pub proof fn lemma_le_u32_round_trip(n: u32)
    ensures
        le_u32(u32_le(n)) == n,
{
    let b0 = n as u8;
    let b1 = (n >> 8u32) as u8;
    let b2 = (n >> 16u32) as u8;
    let b3 = (n >> 24u32) as u8;
    assert((b0 as u32) | (b1 as u32) << 8u32 | (b2 as u32) << 16u32 | (b3 as u32) << 24u32 == n)
        by (bit_vector)
        requires
            b0 == n as u8,
            b1 == (n >> 8u32) as u8,
            b2 == (n >> 16u32) as u8,
            b3 == (n >> 24u32) as u8,
    ;
}

/// Whether a record can be laid out: its creation time, in whole seconds,
/// fits in 64 bits.
pub open spec fn record_fits(r: Record) -> bool {
    r.1 / NANOS_PER_SEC <= u64::MAX
}

/// The bytes of a record, as bincode (fixed-width integers, little-endian)
/// lays out a secret and a `SystemTime`: the secret's length in eight bytes,
/// the secret, the whole seconds since the epoch in eight bytes, and the
/// remaining nanoseconds in four.
pub open spec fn record_bytes(r: Record) -> Seq<u8> {
    u64_le(r.0.len() as u64) + r.0 + u64_le((r.1 / NANOS_PER_SEC) as u64) + u32_le(
        (r.1 % NANOS_PER_SEC) as u32,
    )
}

/// The record that a byte string starts with, if it starts with one; bytes
/// after it are ignored. The nanoseconds carry into the seconds.
pub open spec fn record_of_bytes(b: Seq<u8>) -> Option<Record> {
    if b.len() >= 8 && b.len() >= 20 + le_u64(b) as int {
        let n = le_u64(b) as int;
        let secs = le_u64(b.subrange(8 + n, 16 + n));
        let nanos = le_u32(b.subrange(16 + n, 20 + n));
        Some((b.subrange(8, 8 + n), (secs as int * NANOS_PER_SEC + nanos as int) as u128))
    } else {
        None
    }
}

/// A record read back from its bytes is the record.
pub proof fn lemma_record_round_trip(r: Record)
    requires
        r.0.len() <= u64::MAX,
        record_fits(r),
    ensures
        record_of_bytes(record_bytes(r)) == Some(r),
{
    let (secret, created) = r;
    let n = secret.len() as int;
    let secs = (created / NANOS_PER_SEC) as u64;
    let nanos = (created % NANOS_PER_SEC) as u32;
    let b = record_bytes(r);
    lemma_le_u64_round_trip(n as u64);
    lemma_le_u64_round_trip(secs);
    lemma_le_u32_round_trip(nanos);
    assert(b.subrange(0, 8) =~= u64_le(n as u64));
    assert(le_u64(b) == le_u64(u64_le(n as u64)));
    assert(b.subrange(8, 8 + n) =~= secret);
    assert(b.subrange(8 + n, 16 + n) =~= u64_le(secs));
    assert(b.subrange(16 + n, 20 + n) =~= u32_le(nanos));
    assert(secs as int * NANOS_PER_SEC + nanos as int == created as int) by {
        vstd::arithmetic::div_mod::lemma_fundamental_div_mod(created as int, NANOS_PER_SEC as int);
    }
}

/// Appends the little-endian bytes of `n`.
fn push_u64_le(out: &mut Vec<u8>, n: u64)
    ensures
        final(out)@ == old(out)@ + u64_le(n),
{
    out.push(n as u8);
    out.push((n >> 8u64) as u8);
    out.push((n >> 16u64) as u8);
    out.push((n >> 24u64) as u8);
    out.push((n >> 32u64) as u8);
    out.push((n >> 40u64) as u8);
    out.push((n >> 48u64) as u8);
    out.push((n >> 56u64) as u8);
    assert(final(out)@ =~= old(out)@ + u64_le(n));
}

/// Appends the little-endian bytes of `n`.
fn push_u32_le(out: &mut Vec<u8>, n: u32)
    ensures
        final(out)@ == old(out)@ + u32_le(n),
{
    out.push(n as u8);
    out.push((n >> 8u32) as u8);
    out.push((n >> 16u32) as u8);
    out.push((n >> 24u32) as u8);
    assert(final(out)@ =~= old(out)@ + u32_le(n));
}

/// Reads eight little-endian bytes of `b` at `at`.
fn read_u64_le_at(b: &[u8], at: usize) -> (r: u64)
    requires
        at + 8 <= b@.len(),
    ensures
        r == le_u64(b@.subrange(at as int, at + 8)),
{
    let ghost s = b@.subrange(at as int, at + 8);
    assert(s[0] == b@[at as int] && s[1] == b@[at + 1] && s[2] == b@[at + 2] && s[3] == b@[at + 3]);
    assert(s[4] == b@[at + 4] && s[5] == b@[at + 5] && s[6] == b@[at + 6] && s[7] == b@[at + 7]);
    (b[at] as u64) | (b[at + 1] as u64) << 8u64 | (b[at + 2] as u64) << 16u64 | (b[at + 3] as u64)
        << 24u64 | (b[at + 4] as u64) << 32u64 | (b[at + 5] as u64) << 40u64 | (b[at + 6] as u64)
        << 48u64 | (b[at + 7] as u64) << 56u64
}

/// Reads four little-endian bytes of `b` at `at`.
fn read_u32_le_at(b: &[u8], at: usize) -> (r: u32)
    requires
        at + 4 <= b@.len(),
    ensures
        r == le_u32(b@.subrange(at as int, at + 4)),
{
    let ghost s = b@.subrange(at as int, at + 4);
    assert(s[0] == b@[at as int] && s[1] == b@[at + 1] && s[2] == b@[at + 2] && s[3] == b@[at + 3]);
    (b[at] as u32) | (b[at + 1] as u32) << 8u32 | (b[at + 2] as u32) << 16u32 | (b[at + 3] as u32)
        << 24u32
}

/// The bytes of a record; `None` when its creation time does not fit.
pub fn encode_record(data: &SessionData) -> (r: Option<Vec<u8>>)
    ensures
        record_fits(data@) ==> r is Some && r->Some_0@ == record_bytes(data@),
        !record_fits(data@) ==> r is None,
{
    let secs = data.created / NANOS_PER_SEC;
    if secs > u64::MAX as u128 {
        return None;
    }
    let mut out: Vec<u8> = Vec::new();
    push_u64_le(&mut out, data.secret.0.len() as u64);
    let mut i: usize = 0;
    while i < data.secret.0.len()
        invariant
            i <= data.secret@.len(),
            out@ == u64_le(data.secret@.len() as u64) + data.secret@.subrange(0, i as int),
        decreases data.secret@.len() - i,
    {
        out.push(data.secret.0[i]);
        i = i + 1;
        assert(out@ =~= u64_le(data.secret@.len() as u64) + data.secret@.subrange(0, i as int));
    }
    assert(data.secret@.subrange(0, i as int) =~= data.secret@);
    push_u64_le(&mut out, secs as u64);
    push_u32_le(&mut out, (data.created % NANOS_PER_SEC) as u32);
    Some(out)
}

/// The record that `b` starts with; `None` when it does not start with one.
pub fn decode_record(b: &[u8]) -> (r: Option<SessionData>)
    ensures
        match record_of_bytes(b@) {
            Some(rec) => r is Some && r->Some_0@ == rec,
            None => r is None,
        },
{
    let len = b.len();
    if len < 20 {
        return None;
    }
    let n = read_u64_le_at(b, 0);
    assert(b@.subrange(0, 8) =~= b@.subrange(0, 8));
    assert(le_u64(b@.subrange(0, 8)) == le_u64(b@));
    if ((len - 20) as u64) < n {
        return None;
    }
    let n = n as usize;
    let end = 8 + n;
    let mut secret: Vec<u8> = Vec::new();
    let mut i: usize = 8;
    while i < end
        invariant
            8 <= i <= end,
            end == 8 + n,
            end + 12 <= b@.len(),
            secret@ == b@.subrange(8, i as int),
        decreases end - i,
    {
        secret.push(b[i]);
        i = i + 1;
        assert(secret@ =~= b@.subrange(8, i as int));
    }
    let secs = read_u64_le_at(b, end);
    let nanos = read_u32_le_at(b, end + 8);
    let created = (secs as u128) * NANOS_PER_SEC + nanos as u128;
    Some(SessionData { secret: SessionSecret(secret), created })
}

/// Decides, from the metadata read from a datastore file, whether the file
/// can be used: the marker must be present and equal `MARKER`, the version
/// present and equal `VERSION`, the id counter present, and the sessions
/// database present.
pub fn check_metadata(
    marker: Option<u64>,
    version: Option<u64>,
    counter: Option<u64>,
    has_sessions: bool,
) -> (r: Result<(), DatastoreError>)
    ensures
        marker != Some(MARKER) ==> r is Err && r->Err_0 is UnrecognizedFormat,
        marker == Some(MARKER) && version is None ==> r is Err && r->Err_0 is Corrupt,
        marker == Some(MARKER) && version is Some && version != Some(VERSION) ==> r is Err
            && r->Err_0 == DatastoreError::UnknownVersion(version->Some_0),
        marker == Some(MARKER) && version == Some(VERSION) ==> (r is Ok <==> (counter is Some
            && has_sessions)),
        marker == Some(MARKER) && version == Some(VERSION) && r is Err ==> r->Err_0 is Corrupt,
{
    if marker != Some(MARKER) {
        return Err(DatastoreError::UnrecognizedFormat);
    }
    match version {
        Some(v) => {
            if v != VERSION {
                return Err(DatastoreError::UnknownVersion(v));
            }
        },
        None => {
            return Err(DatastoreError::Corrupt);
        },
    }
    if counter.is_none() || !has_sessions {
        return Err(DatastoreError::Corrupt);
    }
    Ok(())
}


#[verifier::external_type_specification]
#[verifier::external_body]
pub struct ExEnv(heed::Env);

/// The metadata database: text keys, native-endian numbers.
type MetaDb = heed::Database<heed::types::Str, heed::types::U64<heed::byteorder::NativeEndian>>;

/// The records database: big-endian ids, record bytes.
type SessionsDb = heed::Database<heed::types::U64<heed::byteorder::BigEndian>, heed::types::Bytes>;

/// An opened datastore file: the environment and its two databases, which
/// belong to it. Only `finish_setup` and `finish_inspect` make one.
#[verifier::external_body]
pub struct Schema {
    env: heed::Env,
    meta: MetaDb,
    sessions: SessionsDb,
}

/// The write transaction that lays out a new file, with the two databases
/// it created; all three belong to one environment. Only `begin_setup`
/// makes one.
#[verifier::external_body]
pub struct SetupTxn<'a> {
    env: &'a heed::Env,
    txn: heed::RwTxn<'a>,
    meta: MetaDb,
    sessions: SessionsDb,
}

/// The read transaction that inspects an existing file, with the databases
/// it found; all belong to one environment. Only `begin_inspect` makes one.
#[verifier::external_body]
pub struct InspectTxn<'a> {
    env: &'a heed::Env,
    txn: heed::RoTxn<'a>,
    meta: Option<MetaDb>,
    sessions: Option<SessionsDb>,
}

/// A read transaction on an opened file. Only `begin_read` makes one.
#[verifier::external_body]
pub struct ReadTxn<'a> {
    txn: heed::RoTxn<'a>,
    schema: &'a Schema,
}

/// A write transaction on an opened file. Only `begin_write` makes one.
#[verifier::external_body]
pub struct WriteTxn<'a> {
    txn: heed::RwTxn<'a>,
    schema: &'a Schema,
}

/// Relies on heed's `Env::write_txn` and `Env::create_database`: opens the
/// write transaction and, in it, the unnamed database and the one named
/// `sessions_name`, creating them if they are missing. heed unwraps the
/// name as a C string, so it must hold no NUL.
#[verifier::external_body]
fn begin_setup<'a>(env: &'a heed::Env, sessions_name: &str) -> (r: Result<SetupTxn<'a>, heed::Error>)
    requires
        !sessions_name@.contains('\0'),
{
    let mut txn = env.write_txn()?;
    let meta = env.create_database(&mut txn, None)?;
    let sessions = env.create_database(&mut txn, Some(sessions_name))?;
    Ok(SetupTxn { env, txn, meta, sessions })
}

/// Relies on heed's `Database::put` on the metadata of a file being laid out.
#[verifier::external_body]
fn setup_put_meta(t: &mut SetupTxn<'_>, key: &str, value: u64) -> (r: Result<(), heed::Error>) {
    t.meta.put(&mut t.txn, key, &value)
}

/// Relies on heed's `RwTxn::commit`: makes the layout durable, all of it or
/// none, and gives the opened file.
#[verifier::external_body]
fn finish_setup(t: SetupTxn<'_>) -> (r: Result<Schema, heed::Error>) {
    let SetupTxn { env, txn, meta, sessions } = t;
    txn.commit()?;
    Ok(Schema { env: env.clone(), meta, sessions })
}

/// Relies on heed's `Env::read_txn` and `Env::open_database`: opens a read
/// transaction and, in it, the unnamed database and the one named
/// `sessions_name`, if they exist. heed unwraps the name as a C string, so
/// it must hold no NUL.
#[verifier::external_body]
fn begin_inspect<'a>(env: &'a heed::Env, sessions_name: &str) -> (r: Result<
    InspectTxn<'a>,
    heed::Error,
>)
    requires
        !sessions_name@.contains('\0'),
{
    let txn = env.read_txn()?;
    let meta = env.open_database(&txn, None)?;
    let sessions = env.open_database(&txn, Some(sessions_name))?;
    Ok(InspectTxn { env, txn, meta, sessions })
}

/// Relies on heed's `Database::get` on the metadata of a file being
/// inspected; a file without the unnamed database holds no value.
#[verifier::external_body]
fn inspect_meta(t: &InspectTxn<'_>, key: &str) -> (r: Result<Option<u64>, heed::Error>) {
    match &t.meta {
        Some(db) => db.get(&t.txn, key),
        None => Ok(None),
    }
}

/// Whether the file being inspected has the records database.
#[verifier::external_body]
fn inspect_has_sessions(t: &InspectTxn<'_>) -> (r: bool) {
    t.sessions.is_some()
}

/// Relies on heed's `RoTxn::commit`: ends the inspection and gives the
/// opened file when both databases were found.
#[verifier::external_body]
fn finish_inspect(t: InspectTxn<'_>) -> (r: Result<Option<Schema>, heed::Error>) {
    let InspectTxn { env, txn, meta, sessions } = t;
    txn.commit()?;
    Ok(meta.zip(sessions).map(|(meta, sessions)| Schema { env: env.clone(), meta, sessions }))
}

/// Relies on heed's `Env::read_txn`: opens a read transaction on the file.
#[verifier::external_body]
fn begin_read(schema: &Schema) -> (r: Result<ReadTxn<'_>, heed::Error>) {
    schema.env.read_txn().map(|txn| ReadTxn { txn, schema })
}

/// Relies on heed's `Env::write_txn`: opens the write transaction on the
/// file, waiting while another one is open.
#[verifier::external_body]
fn begin_write(schema: &Schema) -> (r: Result<WriteTxn<'_>, heed::Error>) {
    schema.env.write_txn().map(|txn| WriteTxn { txn, schema })
}

/// Relies on heed's `RoTxn::commit`: ends a read transaction.
#[verifier::external_body]
fn end_read(t: ReadTxn<'_>) -> (r: Result<(), heed::Error>) {
    t.txn.commit()
}

/// Relies on heed's `RwTxn::commit`: makes the writes of the transaction
/// durable, all of them or none.
#[verifier::external_body]
fn end_write(t: WriteTxn<'_>) -> (r: Result<(), heed::Error>) {
    t.txn.commit()
}

/// Relies on heed's `Database::get` on the metadata, in the write
/// transaction.
#[verifier::external_body]
fn meta_get_for_update(t: &WriteTxn<'_>, key: &str) -> (r: Result<Option<u64>, heed::Error>) {
    t.schema.meta.get(&t.txn, key)
}

/// Relies on heed's `Database::put` on the metadata.
#[verifier::external_body]
fn meta_put(t: &mut WriteTxn<'_>, key: &str, value: u64) -> (r: Result<(), heed::Error>) {
    t.schema.meta.put(&mut t.txn, key, &value)
}

/// Relies on heed's `Database::get` on the records: the bytes stored under
/// the id, copied out of the transaction.
#[verifier::external_body]
fn record_get(t: &ReadTxn<'_>, id: u64) -> (r: Result<Option<Vec<u8>>, heed::Error>) {
    t.schema.sessions.get(&t.txn, &id).map(|found| found.map(|bytes| bytes.to_vec()))
}

/// Relies on heed's `Database::put` on the records.
#[verifier::external_body]
fn record_put(t: &mut WriteTxn<'_>, id: u64, bytes: &[u8]) -> (r: Result<(), heed::Error>) {
    t.schema.sessions.put(&mut t.txn, &id, bytes)
}

/// Relies on heed's `Database::delete` on the records: true when a record
/// was removed.
#[verifier::external_body]
fn record_delete(t: &mut WriteTxn<'_>, id: u64) -> (r: Result<bool, heed::Error>) {
    t.schema.sessions.delete(&mut t.txn, &id)
}

/// Maps an error of the storage engine to this library's.
fn engine<T>(r: Result<T, heed::Error>) -> (o: Result<T, DatastoreError>)
    ensures
        r is Ok ==> o is Ok && o->Ok_0 == r->Ok_0,
        r is Err ==> o is Err && o->Err_0 is HeedError,
{
    match r {
        Ok(v) => Ok(v),
        Err(e) => Err(DatastoreError::HeedError(e)),
    }
}

/// The name of the records database holds no NUL.
proof fn lemma_sessions_name_ok()
    ensures
        !SESSIONS_DB_NAME@.contains('\0'),
{
    reveal_strlit("sessions");
    assert(SESSIONS_DB_NAME@ =~= "sessions"@);
    assert forall|i: int| 0 <= i < SESSIONS_DB_NAME@.len() implies SESSIONS_DB_NAME@[i] != '\0' by {}
}

/// The errors that opening an existing file can give.
pub open spec fn is_open_error(e: DatastoreError) -> bool {
    e is HeedError || e is UnrecognizedFormat || e is UnknownVersion || e is Corrupt
}

/// The errors that storing a record can give.
pub open spec fn is_create_error(e: DatastoreError) -> bool {
    e is HeedError || e is Corrupt || e is IdsExhausted || e is TimeOutOfRange
}

/// The metadata that a new file starts with: the marker, the version and
/// the first session id.
pub fn initial_metadata() -> (r: (u64, u64, u64))
    ensures
        r == (MARKER, VERSION, 1u64),
{
    (MARKER, VERSION, 1)
}

/// Decides, from the id counter read in the write transaction, the id to
/// hand out and the counter to write back: a missing counter is `Corrupt`,
/// a counter at its largest value has no ids left.
pub fn next_session_id(counter: Option<u64>) -> (r: Result<(u64, u64), DatastoreError>)
    ensures
        match counter {
            None => r is Err && r->Err_0 is Corrupt,
            Some(c) => if c == u64::MAX {
                r is Err && r->Err_0 is IdsExhausted
            } else {
                r == Ok::<(u64, u64), DatastoreError>((c, (c + 1) as u64))
            },
        },
{
    match counter {
        None => Err(DatastoreError::Corrupt),
        Some(c) => {
            if c == u64::MAX {
                Err(DatastoreError::IdsExhausted)
            } else {
                Ok((c, c + 1))
            }
        },
    }
}

impl Schema {
    /// Lays out a new, empty file: creates both databases and writes the
    /// metadata of `initial_metadata`, in one write transaction. Only the
    /// engine can make it fail.
    pub fn init(env: heed::Env) -> (r: Result<Schema, DatastoreError>)
        ensures
            r is Err ==> r->Err_0 is HeedError,
    {
        let (marker, version, first_id) = initial_metadata();
        proof {
            lemma_sessions_name_ok();
        }
        let mut t = engine(begin_setup(&env, SESSIONS_DB_NAME))?;
        engine(setup_put_meta(&mut t, MARKER_KEY, marker))?;
        engine(setup_put_meta(&mut t, VERSION_KEY, version))?;
        engine(setup_put_meta(&mut t, SESSION_ID_COUNTER_KEY, first_id))?;
        engine(finish_setup(t))
    }

    /// Opens an existing file, in one read transaction. Apart from errors of
    /// the engine, it fails exactly as `check_metadata` decides on what was
    /// read (a file without the metadata database has no marker).
    pub fn check(env: heed::Env) -> (r: Result<Schema, DatastoreError>)
        ensures
            r is Err ==> is_open_error(r->Err_0),
    {
        proof {
            lemma_sessions_name_ok();
        }
        let t = engine(begin_inspect(&env, SESSIONS_DB_NAME))?;
        let marker = engine(inspect_meta(&t, MARKER_KEY))?;
        let version = engine(inspect_meta(&t, VERSION_KEY))?;
        let counter = engine(inspect_meta(&t, SESSION_ID_COUNTER_KEY))?;
        let has_sessions = inspect_has_sessions(&t);
        check_metadata(marker, version, counter, has_sessions)?;
        match engine(finish_inspect(t))? {
            Some(schema) => Ok(schema),
            None => Err(DatastoreError::Corrupt),
        }
    }

    /// Opens a datastore file: lays out a new, empty one (`is_new`) with
    /// `init`, checks an existing one with `check`.
    pub fn open(env: heed::Env, is_new: bool) -> (r: Result<Schema, DatastoreError>)
        ensures
            is_new && r is Err ==> r->Err_0 is HeedError,
            r is Err ==> is_open_error(r->Err_0),
    {
        if is_new {
            Schema::init(env)
        } else {
            Schema::check(env)
        }
    }

    /// Stores a record under a new id, in one write transaction: the id and
    /// the counter written back are those of `next_session_id` on the
    /// counter read, and the record's bytes those of `encode_record`. A
    /// creation time that cannot be laid out fails before anything is
    /// written.
    pub fn create_session(&self, data: &SessionData) -> (r: Result<SessionId, DatastoreError>)
        ensures
            r is Ok ==> r->Ok_0.0 < u64::MAX,
            r is Err ==> is_create_error(r->Err_0),
            !record_fits(data@) ==> r is Err && r->Err_0 is TimeOutOfRange,
            r is Err && r->Err_0 is TimeOutOfRange ==> !record_fits(data@),
    {
        let bytes = match encode_record(data) {
            Some(b) => b,
            None => {
                return Err(DatastoreError::TimeOutOfRange);
            },
        };
        let mut t = engine(begin_write(self))?;
        let counter = engine(meta_get_for_update(&t, SESSION_ID_COUNTER_KEY))?;
        let (id, next) = next_session_id(counter)?;
        engine(meta_put(&mut t, SESSION_ID_COUNTER_KEY, next))?;
        engine(record_put(&mut t, id, bytes.as_slice()))?;
        engine(end_write(t))?;
        Ok(SessionId(id))
    }

    /// The record stored under `id`, if any, read with `decode_record`;
    /// `Corrupt` when the stored bytes are not a record.
    pub fn read_session(&self, id: SessionId) -> (r: Result<Option<SessionData>, DatastoreError>)
        ensures
            r matches Ok(Some(d)) ==> exists|b: Seq<u8>| record_of_bytes(b) == Some(d@),
            r is Err ==> r->Err_0 is HeedError || r->Err_0 is Corrupt,
    {
        let t = engine(begin_read(self))?;
        let found = engine(record_get(&t, id.0))?;
        engine(end_read(t))?;
        match found {
            None => Ok(None),
            Some(bytes) => match decode_record(bytes.as_slice()) {
                Some(data) => Ok(Some(data)),
                None => Err(DatastoreError::Corrupt),
            },
        }
    }

    /// Removes the record stored under `id`; true when there was one. Only
    /// the engine can make it fail.
    pub fn delete_session(&self, id: SessionId) -> (r: Result<bool, DatastoreError>)
        ensures
            r is Err ==> r->Err_0 is HeedError,
    {
        let mut t = engine(begin_write(self))?;
        let deleted = engine(record_delete(&mut t, id.0))?;
        engine(end_write(t))?;
        Ok(deleted)
    }
}

} // verus!
