use vstd::prelude::*;

use rusqlite::types::Value;
use rusqlite::{Connection, Row, Statement, Transaction};

use crate::entities::{entity_from_token, entity_token, CodeEntity, EntityType};
use crate::memory::{
    has_id, in_file, lemma_filter_index, located_in, name_has, named_like, reversed, has_rel_key, id_at, link_all, set_all, unique_ids, unique_rel_keys, upsert_all, ProjectMemory,
};
use crate::pairs::{has_key, key_at, unique_keys};
use crate::relationships::{
    lemma_relation_token_round_trip, rel_key, relation_from_token, relation_token, RelationType,
    Relationship,
};
use crate::stamps::{instant_of, now, parse_rfc3339, rfc3339_of, rfc3339_text, Timestamp};
use crate::text::{occurs_in, same_text, text_contains};

verus! {

const CREATE_ENTITIES: &'static str = "CREATE TABLE IF NOT EXISTS entities (
    id TEXT PRIMARY KEY,
    name TEXT NOT NULL,
    entity_type TEXT NOT NULL,
    file_path TEXT NOT NULL,
    line_start INTEGER NOT NULL,
    line_end INTEGER NOT NULL,
    column_start INTEGER NOT NULL,
    column_end INTEGER NOT NULL,
    metadata TEXT,
    created_at TEXT NOT NULL,
    updated_at TEXT NOT NULL
)";

const CREATE_RELATIONSHIPS: &'static str = "CREATE TABLE IF NOT EXISTS relationships (
    id TEXT PRIMARY KEY,
    from_entity TEXT NOT NULL,
    to_entity TEXT NOT NULL,
    relationship_type TEXT NOT NULL,
    metadata TEXT,
    created_at TEXT NOT NULL,
    updated_at TEXT NOT NULL
)";

const CREATE_FILE_HASHES: &'static str = "CREATE TABLE IF NOT EXISTS file_hashes (
    file_path TEXT PRIMARY KEY,
    hash TEXT NOT NULL,
    updated_at TEXT NOT NULL
)";

const INDEX_ENTITIES_FILE: &'static str = "CREATE INDEX IF NOT EXISTS idx_entities_file ON entities(file_path)";
const INDEX_ENTITIES_TYPE: &'static str = "CREATE INDEX IF NOT EXISTS idx_entities_type ON entities(entity_type)";
const INDEX_ENTITIES_NAME: &'static str = "CREATE INDEX IF NOT EXISTS idx_entities_name ON entities(name)";
const INDEX_RELATIONSHIPS_FROM: &'static str = "CREATE INDEX IF NOT EXISTS idx_relationships_from ON relationships(from_entity)";
const INDEX_RELATIONSHIPS_TO: &'static str = "CREATE INDEX IF NOT EXISTS idx_relationships_to ON relationships(to_entity)";

const DELETE_ENTITIES: &'static str = "DELETE FROM entities";
const DELETE_RELATIONSHIPS: &'static str = "DELETE FROM relationships";
const DELETE_FILE_HASHES: &'static str = "DELETE FROM file_hashes";

const INSERT_ENTITY: &'static str = "INSERT OR REPLACE INTO entities (id, name, entity_type, file_path, line_start, line_end, column_start, column_end, metadata, created_at, updated_at) VALUES (?1, ?2, ?3, ?4, ?5, ?6, ?7, ?8, ?9, ?10, ?11)";
const INSERT_RELATIONSHIP: &'static str = "INSERT OR REPLACE INTO relationships (id, from_entity, to_entity, relationship_type, metadata, created_at, updated_at) VALUES (?1, ?2, ?3, ?4, ?5, ?6, ?7)";
const INSERT_FILE_HASH: &'static str = "INSERT INTO file_hashes (file_path, hash, updated_at) VALUES (?1, ?2, datetime('now'))";

const SELECT_ENTITIES: &'static str = "SELECT id, name, entity_type, file_path, line_start, line_end, column_start, column_end, metadata, created_at, updated_at FROM entities";
const SELECT_ENTITIES_IN_FILE: &'static str = "SELECT id, name, entity_type, file_path, line_start, line_end, column_start, column_end, metadata, created_at, updated_at FROM entities WHERE file_path = ?1 ORDER BY line_start";
const SELECT_ENTITIES_NAMED: &'static str = "SELECT id, name, entity_type, file_path, line_start, line_end, column_start, column_end, metadata, created_at, updated_at FROM entities WHERE instr(name, ?1) > 0 ORDER BY name";
const SELECT_RELATIONSHIPS: &'static str = "SELECT id, from_entity, to_entity, relationship_type, metadata, created_at, updated_at FROM relationships";
const SELECT_FILE_HASHES: &'static str = "SELECT file_path, hash FROM file_hashes";

const COUNT_ENTITIES: &'static str = "SELECT COUNT(*) FROM entities";
const COUNT_RELATIONSHIPS: &'static str = "SELECT COUNT(*) FROM relationships";
const COUNT_FILES: &'static str = "SELECT COUNT(DISTINCT file_path) FROM entities";

#[verifier::external_type_specification]
#[verifier::external_body]
pub struct ExConnection(Connection);

#[verifier::external_type_specification]
#[verifier::external_body]
pub struct ExTransaction<'conn>(Transaction<'conn>);

#[verifier::external_type_specification]
#[verifier::external_body]
pub struct ExStatement<'conn>(Statement<'conn>);

#[verifier::external_type_specification]
#[verifier::external_body]
pub struct ExRow<'stmt>(Row<'stmt>);

#[verifier::external_type_specification]
#[verifier::external_body]
pub struct ExSqlError(rusqlite::Error);

#[verifier::external_type_specification]
#[verifier::external_body]
pub struct ExJsonError(serde_json::Error);

/// One cell of a stored row, as the schema uses it.
#[derive(Debug, Clone)]
pub enum SqlValue {
    Null,
    Integer(i64),
    Text(String),
    /// A real or blob cell, which the schema never writes.
    Other,
}

/// What a cell holds, as a mathematical value.
pub enum Cell {
    Null,
    Integer(int),
    Text(Seq<char>),
    Other,
}

impl View for SqlValue {
    type V = Cell;

    open spec fn view(&self) -> Cell {
        match self {
            SqlValue::Null => Cell::Null,
            SqlValue::Integer(n) => Cell::Integer(*n as int),
            SqlValue::Text(s) => Cell::Text(s@),
            SqlValue::Other => Cell::Other,
        }
    }
}

/// The cells of a row.
pub open spec fn cells(row: Seq<SqlValue>) -> Seq<Cell> {
    row.map_values(|v: SqlValue| v@)
}

/// Why a store operation failed.
#[derive(Debug)]
pub enum StorageError {
    /// The database refused an operation.
    Database(rusqlite::Error),
    /// Metadata could not be encoded as text.
    Encoding(serde_json::Error),
    /// A stored row lacks the column types of the schema.
    MalformedRow,
}

/// The pairs of `s` as mathematical values.
pub open spec fn pairs_view(s: Seq<(String, String)>) -> Seq<(Seq<char>, Seq<char>)> {
    s.map_values(|p: (String, String)| (p.0@, p.1@))
}

/// The JSON object text of a string-to-string mapping, or `None` where the
/// encoder fails.
pub uninterp spec fn json_object_text(pairs: Seq<(Seq<char>, Seq<char>)>) -> Option<Seq<char>>;

/// The entries of a JSON object text whose values are all strings, or `None`
/// for any other text.
pub uninterp spec fn json_object_pairs(text: Seq<char>) -> Option<Seq<(Seq<char>, Seq<char>)>>;

/// Relies on serde_json::to_string of a `BTreeMap<String, String>`: the JSON
/// object text of the mapping, keys in sorted order.
#[verifier::external_body]
fn encode_metadata(pairs: &Vec<(String, String)>) -> (r: Result<String, serde_json::Error>)
    ensures
        match r {
            Ok(s) => json_object_text(pairs_view(pairs@)) == Some(s@),
            Err(_) => json_object_text(pairs_view(pairs@)) is None,
        },
{
    serde_json::to_string(&pairs.iter().cloned().collect::<std::collections::BTreeMap<String, String>>())
}

/// Relies on serde_json::from_str into a `BTreeMap<String, String>`: the
/// entries of a JSON object with string values; a map's keys are distinct.
#[verifier::external_body]
fn decode_metadata(text: &str) -> (r: Option<Vec<(String, String)>>)
    ensures
        match r {
            Some(v) => json_object_pairs(text@) == Some(pairs_view(v@)) && unique_keys(v@),
            None => json_object_pairs(text@) is None,
        },
{
    serde_json::from_str::<std::collections::BTreeMap<String, String>>(text).ok().map(
        |m| m.into_iter().collect(),
    )
}

/// Relies on rusqlite::Connection::open: opens or creates the database file.
#[verifier::external_body]
fn open_connection(path: &str) -> Result<Connection, rusqlite::Error> {
    Connection::open(path)
}

/// Relies on rusqlite::Connection::execute: runs one statement with
/// positional parameters, returning the number of rows changed.
#[verifier::external_body]
fn execute(conn: &Connection, sql: &str, params: &Vec<SqlValue>) -> Result<usize, rusqlite::Error> {
    conn.execute(
        sql,
        rusqlite::params_from_iter(
            params.iter().map(
                |v| match v {
                    SqlValue::Null | SqlValue::Other => Value::Null,
                    SqlValue::Integer(n) => Value::Integer(*n),
                    SqlValue::Text(s) => Value::Text(s.clone()),
                },
            ),
        ),
    )
}

/// Relies on rusqlite::Connection::unchecked_transaction: begins a
/// transaction that rolls back when dropped uncommitted.
#[verifier::external_body]
fn begin(conn: &Connection) -> Result<Transaction<'_>, rusqlite::Error> {
    conn.unchecked_transaction()
}

/// Relies on the `Deref` of rusqlite::Transaction to its connection.
#[verifier::external_body]
fn within<'a>(tx: &'a Transaction<'_>) -> &'a Connection {
    tx
}

/// Relies on rusqlite::Transaction::commit.
#[verifier::external_body]
fn commit(tx: Transaction<'_>) -> Result<(), rusqlite::Error> {
    tx.commit()
}

/// Relies on rusqlite::Connection::prepare: compiles one statement.
#[verifier::external_body]
fn prepare<'a>(conn: &'a Connection, sql: &str) -> Result<Statement<'a>, rusqlite::Error> {
    conn.prepare(sql)
}

/// Relies on rusqlite::Row::get read as a dynamically typed value: the cell at
/// column `i` of a result row.
#[verifier::external_body]
fn cell(row: &Row<'_>, i: usize) -> Result<SqlValue, rusqlite::Error> {
    row.get::<usize, Value>(i).map(
        |v| match v {
            Value::Null => SqlValue::Null,
            Value::Integer(n) => SqlValue::Integer(n),
            Value::Text(s) => SqlValue::Text(s),
            Value::Real(_) | Value::Blob(_) => SqlValue::Other,
        },
    )
}

/// The first `width` cells of a result row.
fn read_row(row: &Row<'_>, width: usize) -> (r: Result<Vec<SqlValue>, rusqlite::Error>)
    ensures
        r matches Ok(v) ==> v@.len() == width,
{
    let mut v: Vec<SqlValue> = Vec::new();
    let mut i: usize = 0;
    while i < width
        invariant
            i <= width,
            v@.len() == i,
        decreases width - i,
    {
        let c = cell(row, i)?;
        v.push(c);
        i = i + 1;
    }
    Ok(v)
}

/// Relies on rusqlite::Statement::query_map: runs the statement with the
/// given parameters and reads every result row with `read_row`.
#[verifier::external_body]
fn fetch(stmt: &mut Statement<'_>, params: &Vec<SqlValue>, width: usize) -> (r: Result<
    Vec<Vec<SqlValue>>,
    rusqlite::Error,
>)
    ensures
        r matches Ok(rows) ==> forall|i: int| 0 <= i < rows@.len() ==> (#[trigger] rows@[i])@.len() == width,
{
    let params = rusqlite::params_from_iter(params.iter().map(|v| match v {
        SqlValue::Null | SqlValue::Other => Value::Null,
        SqlValue::Integer(n) => Value::Integer(*n),
        SqlValue::Text(s) => Value::Text(s.clone()),
    }));
    stmt.query_map(params, |row| read_row(row, width))?.collect()
}

/// The stored text of an instant: its RFC 3339 form, or empty where it has
/// none.
pub open spec fn stamp_text(t: Timestamp) -> Seq<char> {
    match rfc3339_of(t) {
        Some(s) => s,
        None => Seq::empty(),
    }
}

/// The instant a stored text denotes, or `fallback` where it denotes none.
pub open spec fn stamp_or(text: Seq<char>, fallback: Timestamp) -> Timestamp {
    match instant_of(text) {
        Some(t) => t,
        None => fallback,
    }
}

/// The metadata a stored text denotes, or none where it is not a JSON object
/// of strings.
pub open spec fn meta_or_empty(text: Seq<char>) -> Seq<(Seq<char>, Seq<char>)> {
    match json_object_pairs(text) {
        Some(p) => p,
        None => Seq::empty(),
    }
}

/// The entity kind a stored token denotes; `Function` for an unknown token.
pub open spec fn entity_kind_or_default(t: Seq<char>) -> EntityType {
    match entity_from_token(t) {
        Some(k) => k,
        None => EntityType::Function,
    }
}

/// The relationship kind a stored token denotes; `Uses` for an unknown token.
pub open spec fn relation_kind_or_default(t: Seq<char>) -> RelationType {
    match relation_from_token(t) {
        Some(k) => k,
        None => RelationType::Uses,
    }
}

/// The text in cell `i`, if it holds text.
pub open spec fn text_at(c: Seq<Cell>, i: int) -> Option<Seq<char>> {
    match c[i] {
        Cell::Text(s) => Some(s),
        _ => None,
    }
}

/// The integer in cell `i`, if it holds one that fits in `u32`.
pub open spec fn u32_at(c: Seq<Cell>, i: int) -> Option<u32> {
    match c[i] {
        Cell::Integer(n) => if 0 <= n <= u32::MAX {
            Some(n as u32)
        } else {
            None
        },
        _ => None,
    }
}

/// The cells of the stored row of `e`, with `meta` its metadata text:
/// id, name, kind, file, four positions, metadata, created, updated.
pub open spec fn entity_cells(e: CodeEntity, meta: Seq<char>) -> Seq<Cell> {
    seq![
        Cell::Text(e.id@),
        Cell::Text(e.name@),
        Cell::Text(entity_token(e.entity_type)),
        Cell::Text(e.file_path@),
        Cell::Integer(e.line_start as int),
        Cell::Integer(e.line_end as int),
        Cell::Integer(e.column_start as int),
        Cell::Integer(e.column_end as int),
        Cell::Text(meta),
        Cell::Text(stamp_text(e.created_at)),
        Cell::Text(stamp_text(e.updated_at)),
    ]
}

/// The cells of the stored row of `r`, with `meta` its metadata text:
/// id, from, to, kind, metadata, created, updated.
pub open spec fn relationship_cells(r: Relationship, meta: Seq<char>) -> Seq<Cell> {
    seq![
        Cell::Text(r.id@),
        Cell::Text(r.from_entity@),
        Cell::Text(r.to_entity@),
        Cell::Text(relation_token(r.relationship_type)),
        Cell::Text(meta),
        Cell::Text(stamp_text(r.created_at)),
        Cell::Text(stamp_text(r.updated_at)),
    ]
}

/// `c` has the column types of a stored entity row.
pub open spec fn entity_row_ok(c: Seq<Cell>) -> bool {
    &&& c.len() == 11
    &&& text_at(c, 0) is Some
    &&& text_at(c, 1) is Some
    &&& text_at(c, 2) is Some
    &&& text_at(c, 3) is Some
    &&& u32_at(c, 4) is Some
    &&& u32_at(c, 5) is Some
    &&& u32_at(c, 6) is Some
    &&& u32_at(c, 7) is Some
    &&& text_at(c, 8) is Some
    &&& text_at(c, 9) is Some
    &&& text_at(c, 10) is Some
}

/// `e` is what the entity row `c` reads back as, with unreadable timestamps
/// replaced by `fallback`.
pub open spec fn decodes_entity(c: Seq<Cell>, e: CodeEntity, fallback: Timestamp) -> bool {
    &&& e.wf()
    &&& e.id@ == text_at(c, 0)->0
    &&& e.name@ == text_at(c, 1)->0
    &&& e.entity_type == entity_kind_or_default(text_at(c, 2)->0)
    &&& e.file_path@ == text_at(c, 3)->0
    &&& e.line_start == u32_at(c, 4)->0
    &&& e.line_end == u32_at(c, 5)->0
    &&& e.column_start == u32_at(c, 6)->0
    &&& e.column_end == u32_at(c, 7)->0
    &&& pairs_view(e.metadata@) == meta_or_empty(text_at(c, 8)->0)
    &&& e.created_at == stamp_or(text_at(c, 9)->0, fallback)
    &&& e.updated_at == stamp_or(text_at(c, 10)->0, fallback)
}

/// `c` has the column types of a stored relationship row.
pub open spec fn relationship_row_ok(c: Seq<Cell>) -> bool {
    &&& c.len() == 7
    &&& text_at(c, 0) is Some
    &&& text_at(c, 1) is Some
    &&& text_at(c, 2) is Some
    &&& text_at(c, 3) is Some
    &&& text_at(c, 4) is Some
    &&& text_at(c, 5) is Some
    &&& text_at(c, 6) is Some
}

/// `r` is what the relationship row `c` reads back as, with unreadable
/// timestamps replaced by `fallback`.
pub open spec fn decodes_relationship(c: Seq<Cell>, r: Relationship, fallback: Timestamp) -> bool {
    &&& r.wf()
    &&& r.id@ == text_at(c, 0)->0
    &&& r.from_entity@ == text_at(c, 1)->0
    &&& r.to_entity@ == text_at(c, 2)->0
    &&& r.relationship_type == relation_kind_or_default(text_at(c, 3)->0)
    &&& pairs_view(r.metadata@) == meta_or_empty(text_at(c, 4)->0)
    &&& r.created_at == stamp_or(text_at(c, 5)->0, fallback)
    &&& r.updated_at == stamp_or(text_at(c, 6)->0, fallback)
}

/// `c` has the column types of a stored file hash row: path, hash.
pub open spec fn hash_row_ok(c: Seq<Cell>) -> bool {
    c.len() == 2 && text_at(c, 0) is Some && text_at(c, 1) is Some
}

/// The text an instant is stored as.
fn stored_stamp(t: Timestamp) -> (r: String)
    ensures
        r@ == stamp_text(t),
{
    match rfc3339_text(t) {
        Some(s) => s,
        None => String::new(),
    }
}

/// The instant a stored text denotes, or `fallback`.
fn read_stamp(text: &str, fallback: Timestamp) -> (r: Timestamp)
    ensures
        r == stamp_or(text@, fallback),
{
    match parse_rfc3339(text) {
        Some(t) => t,
        None => fallback,
    }
}

/// The text in cell `i`, if it holds text.
fn text_cell(row: &Vec<SqlValue>, i: usize) -> (r: Option<String>)
    requires
        i < row@.len(),
    ensures
        match r {
            Some(s) => text_at(cells(row@), i as int) == Some(s@),
            None => text_at(cells(row@), i as int) is None,
        },
{
    match &row[i] {
        SqlValue::Text(s) => Some(s.clone()),
        _ => None,
    }
}

/// The integer in cell `i`, if it holds one that fits in `u32`.
fn u32_cell(row: &Vec<SqlValue>, i: usize) -> (r: Option<u32>)
    requires
        i < row@.len(),
    ensures
        r == u32_at(cells(row@), i as int),
{
    match &row[i] {
        SqlValue::Integer(n) => if 0 <= *n && *n <= u32::MAX as i64 {
            Some(*n as u32)
        } else {
            None
        },
        _ => None,
    }
}

/// The metadata a stored text denotes, empty where it is not a JSON object of
/// strings.
fn read_metadata(text: &str) -> (r: Vec<(String, String)>)
    ensures
        pairs_view(r@) == meta_or_empty(text@),
        unique_keys(r@),
{
    match decode_metadata(text) {
        Some(v) => v,
        None => {
            let v: Vec<(String, String)> = Vec::new();
            assert(pairs_view(v@) =~= Seq::empty());
            v
        },
    }
}

/// The stored row of `e`; fails only where its metadata cannot be encoded.
pub fn entity_row(e: &CodeEntity) -> (r: Result<Vec<SqlValue>, StorageError>)
    ensures
        match r {
            Ok(row) => json_object_text(pairs_view(e.metadata@)) is Some && cells(row@) == entity_cells(
                *e,
                json_object_text(pairs_view(e.metadata@))->0,
            ),
            Err(err) => json_object_text(pairs_view(e.metadata@)) is None && err is Encoding,
        },
{
    let meta = match encode_metadata(&e.metadata) {
        Ok(m) => m,
        Err(err) => return Err(StorageError::Encoding(err)),
    };
    let row = vec![
        SqlValue::Text(e.id.clone()),
        SqlValue::Text(e.name.clone()),
        SqlValue::Text(e.entity_type.as_str().to_owned()),
        SqlValue::Text(e.file_path.clone()),
        SqlValue::Integer(e.line_start as i64),
        SqlValue::Integer(e.line_end as i64),
        SqlValue::Integer(e.column_start as i64),
        SqlValue::Integer(e.column_end as i64),
        SqlValue::Text(meta),
        SqlValue::Text(stored_stamp(e.created_at)),
        SqlValue::Text(stored_stamp(e.updated_at)),
    ];
    assert(cells(row@) =~= entity_cells(*e, json_object_text(pairs_view(e.metadata@))->0));
    Ok(row)
}

/// The stored row of `r`; fails only where its metadata cannot be encoded.
pub fn relationship_row(r: &Relationship) -> (out: Result<Vec<SqlValue>, StorageError>)
    ensures
        match out {
            Ok(row) => json_object_text(pairs_view(r.metadata@)) is Some && cells(row@)
                == relationship_cells(*r, json_object_text(pairs_view(r.metadata@))->0),
            Err(err) => json_object_text(pairs_view(r.metadata@)) is None && err is Encoding,
        },
{
    let meta = match encode_metadata(&r.metadata) {
        Ok(m) => m,
        Err(err) => return Err(StorageError::Encoding(err)),
    };
    let row = vec![
        SqlValue::Text(r.id.clone()),
        SqlValue::Text(r.from_entity.clone()),
        SqlValue::Text(r.to_entity.clone()),
        SqlValue::Text(r.relationship_type.as_str().to_owned()),
        SqlValue::Text(meta),
        SqlValue::Text(stored_stamp(r.created_at)),
        SqlValue::Text(stored_stamp(r.updated_at)),
    ];
    assert(cells(row@) =~= relationship_cells(*r, json_object_text(pairs_view(r.metadata@))->0));
    Ok(row)
}

/// Reads an entity back from its stored row. An unknown kind token reads as
/// `Function`, unreadable metadata as none, and an unreadable timestamp as
/// `fallback`; a row without the schema's column types is refused.
pub fn decode_entity(row: &Vec<SqlValue>, fallback: Timestamp) -> (r: Result<CodeEntity, StorageError>)
    ensures
        match r {
            Ok(e) => entity_row_ok(cells(row@)) && decodes_entity(cells(row@), e, fallback),
            Err(err) => !entity_row_ok(cells(row@)) && err is MalformedRow,
        },
{
    if row.len() != 11 {
        return Err(StorageError::MalformedRow);
    }
    let (id, name, kind, file_path, meta, created, updated) = match (
        text_cell(row, 0),
        text_cell(row, 1),
        text_cell(row, 2),
        text_cell(row, 3),
        text_cell(row, 8),
        text_cell(row, 9),
        text_cell(row, 10),
    ) {
        (Some(a), Some(b), Some(c), Some(d), Some(m), Some(x), Some(y)) => (a, b, c, d, m, x, y),
        _ => return Err(StorageError::MalformedRow),
    };
    let (line_start, line_end, column_start, column_end) = match (
        u32_cell(row, 4),
        u32_cell(row, 5),
        u32_cell(row, 6),
        u32_cell(row, 7),
    ) {
        (Some(a), Some(b), Some(c), Some(d)) => (a, b, c, d),
        _ => return Err(StorageError::MalformedRow),
    };
    let entity_type = match EntityType::from_str(kind.as_str()) {
        Some(k) => k,
        None => EntityType::Function,
    };
    Ok(
        CodeEntity {
            id,
            name,
            entity_type,
            file_path,
            line_start,
            line_end,
            column_start,
            column_end,
            metadata: read_metadata(meta.as_str()),
            created_at: read_stamp(created.as_str(), fallback),
            updated_at: read_stamp(updated.as_str(), fallback),
        },
    )
}

/// Reads a relationship back from its stored row. An unknown kind token reads
/// as `Uses`, unreadable metadata as none, and an unreadable timestamp as
/// `fallback`; a row without the schema's column types is refused.
pub fn decode_relationship(row: &Vec<SqlValue>, fallback: Timestamp) -> (r: Result<
    Relationship,
    StorageError,
>)
    ensures
        match r {
            Ok(x) => relationship_row_ok(cells(row@)) && decodes_relationship(cells(row@), x, fallback),
            Err(err) => !relationship_row_ok(cells(row@)) && err is MalformedRow,
        },
{
    if row.len() != 7 {
        return Err(StorageError::MalformedRow);
    }
    match (
        text_cell(row, 0),
        text_cell(row, 1),
        text_cell(row, 2),
        text_cell(row, 3),
        text_cell(row, 4),
        text_cell(row, 5),
        text_cell(row, 6),
    ) {
        (Some(id), Some(from_entity), Some(to_entity), Some(kind), Some(meta), Some(created), Some(
            updated,
        )) => {
            let relationship_type = match RelationType::from_str(kind.as_str()) {
                Some(k) => k,
                None => RelationType::Uses,
            };
            Ok(
                Relationship {
                    id,
                    from_entity,
                    to_entity,
                    relationship_type,
                    metadata: read_metadata(meta.as_str()),
                    created_at: read_stamp(created.as_str(), fallback),
                    updated_at: read_stamp(updated.as_str(), fallback),
                },
            )
        },
        _ => Err(StorageError::MalformedRow),
    }
}

/// Reads a file hash back from its stored row: path and hash.
pub fn decode_hash(row: &Vec<SqlValue>) -> (r: Result<(String, String), StorageError>)
    ensures
        match r {
            Ok(p) => hash_row_ok(cells(row@)) && text_at(cells(row@), 0) == Some(p.0@) && text_at(
                cells(row@),
                1,
            ) == Some(p.1@),
            Err(err) => !hash_row_ok(cells(row@)) && err is MalformedRow,
        },
{
    if row.len() != 2 {
        return Err(StorageError::MalformedRow);
    }
    match (text_cell(row, 0), text_cell(row, 1)) {
        (Some(path), Some(hash)) => Ok((path, hash)),
        _ => Err(StorageError::MalformedRow),
    }
}

/// The cells of each row of `rows`.
pub open spec fn table_cells(rows: Seq<Vec<SqlValue>>) -> Seq<Seq<Cell>> {
    rows.map_values(|r: Vec<SqlValue>| cells(r@))
}

/// The metadata text of a stored entity or relationship, where it has one.
pub open spec fn meta_text(m: Seq<(String, String)>) -> Option<Seq<char>> {
    json_object_text(pairs_view(m))
}

/// Every entity and relationship of `m` has metadata that encodes.
pub open spec fn encodable(m: ProjectMemory) -> bool {
    &&& forall|i: int| 0 <= i < m.entities@.len() ==> meta_text(#[trigger] m.entities@[i].metadata@) is Some
    &&& forall|i: int|
        0 <= i < m.relationships@.len() ==> meta_text(#[trigger] m.relationships@[i].metadata@) is Some
}

/// The cells of a stored file hash row.
pub open spec fn hash_cells(p: (String, String)) -> Seq<Cell> {
    seq![Cell::Text(p.0@), Cell::Text(p.1@)]
}

/// `es`, `rs` and `hs` are the rows a full save of `m` writes, one per entity,
/// relationship and file hash, in the graph's order.
pub open spec fn is_snapshot(m: ProjectMemory, es: Seq<Seq<Cell>>, rs: Seq<Seq<Cell>>, hs: Seq<Seq<Cell>>) -> bool {
    &&& es.len() == m.entities@.len()
    &&& forall|i: int|
        0 <= i < es.len() ==> #[trigger] es[i] == entity_cells(m.entities@[i], meta_text(m.entities@[i].metadata@)->0)
    &&& rs.len() == m.relationships@.len()
    &&& forall|i: int|
        0 <= i < rs.len() ==> #[trigger] rs[i] == relationship_cells(
            m.relationships@[i],
            meta_text(m.relationships@[i].metadata@)->0,
        )
    &&& hs.len() == m.file_hashes@.len()
    &&& forall|i: int| 0 <= i < hs.len() ==> #[trigger] hs[i] == hash_cells(m.file_hashes@[i])
}

/// The rows of a full save.
pub struct Snapshot {
    pub entity_rows: Vec<Vec<SqlValue>>,
    pub relationship_rows: Vec<Vec<SqlValue>>,
    pub hash_rows: Vec<Vec<SqlValue>>,
}

/// The rows that a full save of `memory` writes; fails only where some
/// metadata cannot be encoded.
pub fn snapshot_rows(memory: &ProjectMemory) -> (r: Result<Snapshot, StorageError>)
    ensures
        match r {
            Ok(s) => encodable(*memory) && is_snapshot(
                *memory,
                table_cells(s.entity_rows@),
                table_cells(s.relationship_rows@),
                table_cells(s.hash_rows@),
            ),
            Err(e) => !encodable(*memory) && e is Encoding,
        },
{
    let mut entity_rows: Vec<Vec<SqlValue>> = Vec::new();
    let mut i: usize = 0;
    while i < memory.entities.len()
        invariant
            i <= memory.entities@.len(),
            entity_rows@.len() == i,
            forall|k: int| 0 <= k < i ==> meta_text(#[trigger] memory.entities@[k].metadata@) is Some,
            forall|k: int|
                0 <= k < i ==> #[trigger] cells(entity_rows@[k]@) == entity_cells(
                    memory.entities@[k],
                    meta_text(memory.entities@[k].metadata@)->0,
                ),
        decreases memory.entities@.len() - i,
    {
        let row = entity_row(&memory.entities[i])?;
        entity_rows.push(row);
        i = i + 1;
    }
    let mut relationship_rows: Vec<Vec<SqlValue>> = Vec::new();
    let mut j: usize = 0;
    while j < memory.relationships.len()
        invariant
            j <= memory.relationships@.len(),
            relationship_rows@.len() == j,
            forall|k: int| 0 <= k < memory.entities@.len() ==> meta_text(#[trigger] memory.entities@[k].metadata@) is Some,
            forall|k: int| 0 <= k < j ==> meta_text(#[trigger] memory.relationships@[k].metadata@) is Some,
            forall|k: int|
                0 <= k < j ==> #[trigger] cells(relationship_rows@[k]@) == relationship_cells(
                    memory.relationships@[k],
                    meta_text(memory.relationships@[k].metadata@)->0,
                ),
        decreases memory.relationships@.len() - j,
    {
        let row = relationship_row(&memory.relationships[j])?;
        relationship_rows.push(row);
        j = j + 1;
    }
    let mut hash_rows: Vec<Vec<SqlValue>> = Vec::new();
    let mut h: usize = 0;
    while h < memory.file_hashes.len()
        invariant
            h <= memory.file_hashes@.len(),
            hash_rows@.len() == h,
            forall|k: int| 0 <= k < h ==> #[trigger] cells(hash_rows@[k]@) == hash_cells(memory.file_hashes@[k]),
        decreases memory.file_hashes@.len() - h,
    {
        let pair = &memory.file_hashes[h];
        let row = vec![SqlValue::Text(pair.0.clone()), SqlValue::Text(pair.1.clone())];
        assert(cells(row@) =~= hash_cells(memory.file_hashes@[h as int]));
        hash_rows.push(row);
        h = h + 1;
    }
    let s = Snapshot { entity_rows, relationship_rows, hash_rows };
    assert(is_snapshot(
        *memory,
        table_cells(s.entity_rows@),
        table_cells(s.relationship_rows@),
        table_cells(s.hash_rows@),
    ));
    Ok(s)
}

/// Decodes every entity row, refusing the table at its first malformed row.
pub fn entities_from_rows(rows: &Vec<Vec<SqlValue>>, fallback: Timestamp) -> (r: Result<
    Vec<CodeEntity>,
    StorageError,
>)
    ensures
        match r {
            Ok(v) => v@.len() == rows@.len() && forall|i: int|
                0 <= i < rows@.len() ==> entity_row_ok(#[trigger] cells(rows@[i]@)) && decodes_entity(
                    cells(rows@[i]@),
                    v@[i],
                    fallback,
                ),
            Err(e) => e is MalformedRow && exists|i: int|
                0 <= i < rows@.len() && !entity_row_ok(#[trigger] cells(rows@[i]@)),
        },
{
    let mut v: Vec<CodeEntity> = Vec::new();
    let mut i: usize = 0;
    while i < rows.len()
        invariant
            i <= rows@.len(),
            v@.len() == i,
            forall|k: int|
                0 <= k < i ==> entity_row_ok(#[trigger] cells(rows@[k]@)) && decodes_entity(
                    cells(rows@[k]@),
                    v@[k],
                    fallback,
                ),
        decreases rows@.len() - i,
    {
        let e = decode_entity(&rows[i], fallback)?;
        v.push(e);
        i = i + 1;
    }
    Ok(v)
}

/// Decodes every relationship row, refusing the table at its first malformed
/// row.
pub fn relationships_from_rows(rows: &Vec<Vec<SqlValue>>, fallback: Timestamp) -> (r: Result<
    Vec<Relationship>,
    StorageError,
>)
    ensures
        match r {
            Ok(v) => v@.len() == rows@.len() && forall|i: int|
                0 <= i < rows@.len() ==> relationship_row_ok(#[trigger] cells(rows@[i]@))
                    && decodes_relationship(cells(rows@[i]@), v@[i], fallback),
            Err(e) => e is MalformedRow && exists|i: int|
                0 <= i < rows@.len() && !relationship_row_ok(#[trigger] cells(rows@[i]@)),
        },
{
    let mut v: Vec<Relationship> = Vec::new();
    let mut i: usize = 0;
    while i < rows.len()
        invariant
            i <= rows@.len(),
            v@.len() == i,
            forall|k: int|
                0 <= k < i ==> relationship_row_ok(#[trigger] cells(rows@[k]@)) && decodes_relationship(
                    cells(rows@[k]@),
                    v@[k],
                    fallback,
                ),
        decreases rows@.len() - i,
    {
        let x = decode_relationship(&rows[i], fallback)?;
        v.push(x);
        i = i + 1;
    }
    Ok(v)
}

/// Decodes every file hash row, refusing the table at its first malformed row.
pub fn hashes_from_rows(rows: &Vec<Vec<SqlValue>>) -> (r: Result<Vec<(String, String)>, StorageError>)
    ensures
        match r {
            Ok(v) => v@.len() == rows@.len() && forall|i: int|
                0 <= i < rows@.len() ==> hash_row_ok(#[trigger] cells(rows@[i]@)) && cells(rows@[i]@)
                    == hash_cells(v@[i]),
            Err(e) => e is MalformedRow && exists|i: int|
                0 <= i < rows@.len() && !hash_row_ok(#[trigger] cells(rows@[i]@)),
        },
{
    let mut v: Vec<(String, String)> = Vec::new();
    let mut i: usize = 0;
    while i < rows.len()
        invariant
            i <= rows@.len(),
            v@.len() == i,
            forall|k: int|
                0 <= k < i ==> hash_row_ok(#[trigger] cells(rows@[k]@)) && cells(rows@[k]@) == hash_cells(v@[k]),
        decreases rows@.len() - i,
    {
        let p = decode_hash(&rows[i])?;
        assert(cells(rows@[i as int]@) =~= hash_cells(p));
        v.push(p);
        i = i + 1;
    }
    Ok(v)
}

/// Every row of the three tables has the schema's column types.
pub open spec fn tables_ok(es: Seq<Seq<Cell>>, rs: Seq<Seq<Cell>>, hs: Seq<Seq<Cell>>) -> bool {
    &&& forall|i: int| 0 <= i < es.len() ==> entity_row_ok(#[trigger] es[i])
    &&& forall|i: int| 0 <= i < rs.len() ==> relationship_row_ok(#[trigger] rs[i])
    &&& forall|i: int| 0 <= i < hs.len() ==> hash_row_ok(#[trigger] hs[i])
}

/// `m` is the graph for `path` that the tables `es`, `rs` and `hs` read back
/// as, with `fallback` for unreadable timestamps: each row is decoded, then
/// the entities, relationships and hashes are inserted in row order through
/// the graph's own operations.
pub open spec fn loaded_from(
    m: ProjectMemory,
    path: Seq<char>,
    es: Seq<Seq<Cell>>,
    rs: Seq<Seq<Cell>>,
    hs: Seq<Seq<Cell>>,
    fallback: Timestamp,
) -> bool {
    &&& m.wf()
    &&& m.project_path@ == path
    &&& exists|ents: Seq<CodeEntity>|
        {
            &&& ents.len() == es.len()
            &&& forall|i: int| 0 <= i < es.len() ==> decodes_entity(#[trigger] es[i], ents[i], fallback)
            &&& m.entities@ == #[trigger] upsert_all(Seq::empty(), ents)
        }
    &&& exists|rels: Seq<Relationship>|
        {
            &&& rels.len() == rs.len()
            &&& forall|i: int| 0 <= i < rs.len() ==> decodes_relationship(#[trigger] rs[i], rels[i], fallback)
            &&& m.relationships@ == #[trigger] link_all(Seq::empty(), rels)
        }
    &&& exists|ps: Seq<(String, String)>|
        {
            &&& ps.len() == hs.len()
            &&& forall|i: int| 0 <= i < hs.len() ==> #[trigger] hs[i] == hash_cells(ps[i])
            &&& m.file_hashes@ == #[trigger] set_all(Seq::empty(), ps)
        }
}

/// The graph for `project_path` that three stored tables read back as; fails
/// exactly when some row lacks the schema's column types.
pub fn memory_from_rows(
    project_path: String,
    entity_rows: &Vec<Vec<SqlValue>>,
    relationship_rows: &Vec<Vec<SqlValue>>,
    hash_rows: &Vec<Vec<SqlValue>>,
    fallback: Timestamp,
) -> (r: Result<ProjectMemory, StorageError>)
    ensures
        match r {
            Ok(m) => tables_ok(
                table_cells(entity_rows@),
                table_cells(relationship_rows@),
                table_cells(hash_rows@),
            ) && loaded_from(
                m,
                project_path@,
                table_cells(entity_rows@),
                table_cells(relationship_rows@),
                table_cells(hash_rows@),
                fallback,
            ),
            Err(e) => e is MalformedRow && !tables_ok(
                table_cells(entity_rows@),
                table_cells(relationship_rows@),
                table_cells(hash_rows@),
            ),
        },
{
    let ghost es = table_cells(entity_rows@);
    let ghost rs = table_cells(relationship_rows@);
    let ghost hs = table_cells(hash_rows@);
    let ents = match entities_from_rows(entity_rows, fallback) {
        Ok(v) => v,
        Err(e) => {
            proof {
                let i = choose|i: int| 0 <= i < entity_rows@.len() && !entity_row_ok(#[trigger] cells(entity_rows@[i]@));
                assert(es[i] == cells(entity_rows@[i]@));
            }
            return Err(e);
        },
    };
    let rels = match relationships_from_rows(relationship_rows, fallback) {
        Ok(v) => v,
        Err(e) => {
            proof {
                let i = choose|i: int|
                    0 <= i < relationship_rows@.len() && !relationship_row_ok(#[trigger] cells(relationship_rows@[i]@));
                assert(rs[i] == cells(relationship_rows@[i]@));
            }
            return Err(e);
        },
    };
    let hashes = match hashes_from_rows(hash_rows) {
        Ok(v) => v,
        Err(e) => {
            proof {
                let i = choose|i: int| 0 <= i < hash_rows@.len() && !hash_row_ok(#[trigger] cells(hash_rows@[i]@));
                assert(hs[i] == cells(hash_rows@[i]@));
            }
            return Err(e);
        },
    };
    let ghost ev = ents@;
    let ghost rv = rels@;
    let ghost hv = hashes@;
    proof {
        assert forall|i: int| 0 <= i < es.len() implies entity_row_ok(#[trigger] es[i]) && decodes_entity(
            es[i],
            ev[i],
            fallback,
        ) by {
            assert(es[i] == cells(entity_rows@[i]@));
        }
        assert forall|i: int| 0 <= i < rs.len() implies relationship_row_ok(#[trigger] rs[i])
            && decodes_relationship(rs[i], rv[i], fallback) by {
            assert(rs[i] == cells(relationship_rows@[i]@));
        }
        assert forall|i: int| 0 <= i < hs.len() implies hash_row_ok(#[trigger] hs[i]) && hs[i] == hash_cells(
            hv[i],
        ) by {
            assert(hs[i] == cells(hash_rows@[i]@));
        }
    }
    let m = ProjectMemory::from_parts(project_path, ents, rels, hashes);
    proof {
        assert(m.entities@ == upsert_all(Seq::empty(), ev));
        assert(m.relationships@ == link_all(Seq::empty(), rv));
        assert(m.file_hashes@ == set_all(Seq::empty(), hv));
    }
    Ok(m)
}

/// The count held by the single-cell result of a counting query.
pub fn count_from_rows(rows: &Vec<Vec<SqlValue>>) -> (r: Result<usize, StorageError>)
    ensures
        match r {
            Ok(n) => rows@.len() == 1 && rows@[0]@.len() == 1 && cells(rows@[0]@)[0] == Cell::Integer(n as int),
            Err(e) => e is MalformedRow && !(rows@.len() == 1 && rows@[0]@.len() == 1 && (
            cells(rows@[0]@)[0] matches Cell::Integer(n) && 0 <= n <= usize::MAX)),
        },
{
    if rows.len() != 1 || rows[0].len() != 1 {
        return Err(StorageError::MalformedRow);
    }
    match &rows[0][0] {
        SqlValue::Integer(n) => if 0 <= *n && (*n as u64) <= (usize::MAX as u64) {
            Ok(*n as usize)
        } else {
            Err(StorageError::MalformedRow)
        },
        _ => Err(StorageError::MalformedRow),
    }
}

/// The entities of `v` whose name contains `pattern`, in order.
pub fn keep_named_like(v: Vec<CodeEntity>, pattern: &str) -> (r: Vec<CodeEntity>)
    ensures
        r@ == named_like(v@, pattern@),
{
    let ghost es = v@;
    let mut rev = reversed(v);
    let mut kept: Vec<CodeEntity> = Vec::new();
    while rev.len() > 0
        invariant
            rev@.len() <= es.len(),
            forall|k: int| 0 <= k < rev@.len() ==> #[trigger] rev@[k] == es[es.len() - 1 - k],
            kept@ == named_like(es.take(es.len() - rev@.len()), pattern@),
        decreases rev@.len(),
    {
        let ghost i = es.len() - rev@.len();
        let e = rev.pop().unwrap();
        proof {
            reveal(Seq::filter);
            assert(es.take(i + 1).drop_last() =~= es.take(i));
            assert(es.take(i + 1).last() == es[i]);
            assert(e == es[i]);
        }
        if text_contains(e.name.as_str(), pattern) {
            kept.push(e);
        }
    }
    assert(es.take(es.len() as int) =~= es);
    kept
}

/// The entities of `v` located in exactly `file_path`, in order.
pub fn keep_in_file(v: Vec<CodeEntity>, file_path: &str) -> (r: Vec<CodeEntity>)
    ensures
        r@ == located_in(v@, file_path@),
{
    let ghost es = v@;
    let mut rev = reversed(v);
    let mut kept: Vec<CodeEntity> = Vec::new();
    while rev.len() > 0
        invariant
            rev@.len() <= es.len(),
            forall|k: int| 0 <= k < rev@.len() ==> #[trigger] rev@[k] == es[es.len() - 1 - k],
            kept@ == located_in(es.take(es.len() - rev@.len()), file_path@),
        decreases rev@.len(),
    {
        let ghost i = es.len() - rev@.len();
        let e = rev.pop().unwrap();
        proof {
            reveal(Seq::filter);
            assert(es.take(i + 1).drop_last() =~= es.take(i));
            assert(es.take(i + 1).last() == es[i]);
            assert(e == es[i]);
        }
        if same_text(e.file_path.as_str(), file_path) {
            kept.push(e);
        }
    }
    assert(es.take(es.len() as int) =~= es);
    kept
}

/// A relational store holding one full snapshot of a graph.
pub struct MemoryStorage {
    conn: Connection,
}

impl MemoryStorage {
    /// Opens the store at `db_path`, creating its three tables and their
    /// indexes where they do not exist yet.
    pub fn new(db_path: &str) -> (r: Result<MemoryStorage, StorageError>)
        ensures
            r matches Err(e) ==> e is Database,
    {
        let conn = match open_connection(db_path) {
            Ok(c) => c,
            Err(e) => return Err(StorageError::Database(e)),
        };
        let schema = [
            CREATE_ENTITIES,
            CREATE_RELATIONSHIPS,
            CREATE_FILE_HASHES,
            INDEX_ENTITIES_FILE,
            INDEX_ENTITIES_TYPE,
            INDEX_ENTITIES_NAME,
            INDEX_RELATIONSHIPS_FROM,
            INDEX_RELATIONSHIPS_TO,
        ];
        let none: Vec<SqlValue> = Vec::new();
        let mut i: usize = 0;
        while i < 8
            invariant
                i <= 8,
            decreases 8 - i,
        {
            match execute(&conn, schema[i], &none) {
                Ok(_) => {},
                Err(e) => return Err(StorageError::Database(e)),
            }
            i = i + 1;
        }
        Ok(MemoryStorage { conn })
    }

    /// Replaces the stored snapshot with `memory` in one transaction: every
    /// row is deleted, then the rows of `snapshot_rows(memory)` are inserted.
    /// On any failure nothing is committed and the prior snapshot stays.
    pub fn save_memory(&self, memory: &ProjectMemory) -> (r: Result<(), StorageError>)
        ensures
            !encodable(*memory) ==> (r matches Err(e) && e is Encoding),
            encodable(*memory) ==> (r matches Err(e) ==> e is Database),
    {
        let snapshot = snapshot_rows(memory)?;
        let tx = match begin(&self.conn) {
            Ok(t) => t,
            Err(e) => return Err(StorageError::Database(e)),
        };
        let none: Vec<SqlValue> = Vec::new();
        let conn = within(&tx);
        match execute(conn, DELETE_ENTITIES, &none) {
            Ok(_) => {},
            Err(e) => return Err(StorageError::Database(e)),
        }
        match execute(conn, DELETE_RELATIONSHIPS, &none) {
            Ok(_) => {},
            Err(e) => return Err(StorageError::Database(e)),
        }
        match execute(conn, DELETE_FILE_HASHES, &none) {
            Ok(_) => {},
            Err(e) => return Err(StorageError::Database(e)),
        }
        match insert_rows(conn, INSERT_ENTITY, &snapshot.entity_rows) {
            Ok(_) => {},
            Err(e) => return Err(StorageError::Database(e)),
        }
        match insert_rows(conn, INSERT_RELATIONSHIP, &snapshot.relationship_rows) {
            Ok(_) => {},
            Err(e) => return Err(StorageError::Database(e)),
        }
        match insert_rows(conn, INSERT_FILE_HASH, &snapshot.hash_rows) {
            Ok(_) => {},
            Err(e) => return Err(StorageError::Database(e)),
        }
        match commit(tx) {
            Ok(_) => Ok(()),
            Err(e) => Err(StorageError::Database(e)),
        }
    }

    fn rows(&self, sql: &str, params: &Vec<SqlValue>, width: usize) -> (r: Result<
        Vec<Vec<SqlValue>>,
        StorageError,
    >)
        ensures
            r matches Ok(rows) ==> forall|i: int| 0 <= i < rows@.len() ==> (#[trigger] rows@[i])@.len() == width,
            r matches Err(e) ==> e is Database,
    {
        let mut stmt = match prepare(&self.conn, sql) {
            Ok(s) => s,
            Err(e) => return Err(StorageError::Database(e)),
        };
        match fetch(&mut stmt, params, width) {
            Ok(rows) => Ok(rows),
            Err(e) => Err(StorageError::Database(e)),
        }
    }

    /// Reads the whole stored snapshot back as a graph for `project_path`.
    /// Unknown kind tokens, unreadable metadata and unreadable timestamps
    /// degrade to defaults (the timestamp default is the time of loading);
    /// a row without the schema's column types fails the load.
    pub fn load_memory(&self, project_path: &str) -> (r: Result<ProjectMemory, StorageError>)
        ensures
            r matches Ok(m) ==> m.wf() && m.project_path@ == project_path@,
            r matches Ok(m) ==> exists|es: Seq<Seq<Cell>>, rs: Seq<Seq<Cell>>, hs: Seq<Seq<Cell>>, fb: Timestamp|
                #[trigger] loaded_from(m, project_path@, es, rs, hs, fb),
    {
        let none: Vec<SqlValue> = Vec::new();
        let fallback = now();
        let entity_rows = self.rows(SELECT_ENTITIES, &none, 11)?;
        let relationship_rows = self.rows(SELECT_RELATIONSHIPS, &none, 7)?;
        let hash_rows = self.rows(SELECT_FILE_HASHES, &none, 2)?;
        memory_from_rows(project_path.to_owned(), &entity_rows, &relationship_rows, &hash_rows, fallback)
    }

    /// The stored entities located in exactly `file_path`, by line.
    pub fn find_entities_by_file(&self, file_path: &str) -> (r: Result<Vec<CodeEntity>, StorageError>)
        ensures
            r matches Ok(v) ==> forall|i: int| 0 <= i < v@.len() ==> (#[trigger] v@[i]).wf(),
            r matches Ok(v) ==> forall|i: int| 0 <= i < v@.len() ==> (#[trigger] v@[i]).file_path@ == file_path@,
    {
        let params = vec![SqlValue::Text(file_path.to_owned())];
        let rows = self.rows(SELECT_ENTITIES_IN_FILE, &params, 11)?;
        let fallback = now();
        let v = entities_from_rows(&rows, fallback)?;
        assert forall|i: int| 0 <= i < v@.len() implies (#[trigger] v@[i]).wf() by {
            assert(decodes_entity(cells(rows@[i]@), v@[i], fallback));
        }
        let ghost decoded = v@;
        let kept = keep_in_file(v, file_path);
        proof {
            assert forall|i: int| 0 <= i < kept@.len() implies (#[trigger] kept@[i]).wf() && in_file(file_path@)(
                kept@[i],
            ) by {
                lemma_filter_index(decoded, in_file(file_path@), i);
                decoded.lemma_filter_pred(in_file(file_path@), i);
            }
        }
        Ok(kept)
    }

    /// The stored entities whose name contains `pattern` (case-sensitive
    /// substring), by name.
    pub fn find_entities_by_name(&self, pattern: &str) -> (r: Result<Vec<CodeEntity>, StorageError>)
        ensures
            r matches Ok(v) ==> forall|i: int| 0 <= i < v@.len() ==> (#[trigger] v@[i]).wf(),
            r matches Ok(v) ==> forall|i: int| 0 <= i < v@.len() ==> occurs_in(pattern@, (#[trigger] v@[i]).name@),
    {
        let params = vec![SqlValue::Text(pattern.to_owned())];
        let rows = self.rows(SELECT_ENTITIES_NAMED, &params, 11)?;
        let fallback = now();
        let v = entities_from_rows(&rows, fallback)?;
        assert forall|i: int| 0 <= i < v@.len() implies (#[trigger] v@[i]).wf() by {
            assert(decodes_entity(cells(rows@[i]@), v@[i], fallback));
        }
        let ghost decoded = v@;
        let kept = keep_named_like(v, pattern);
        proof {
            assert forall|i: int| 0 <= i < kept@.len() implies (#[trigger] kept@[i]).wf() && name_has(pattern@)(
                kept@[i],
            ) by {
                lemma_filter_index(decoded, name_has(pattern@), i);
                decoded.lemma_filter_pred(name_has(pattern@), i);
            }
        }
        Ok(kept)
    }

    /// The stored entity count, relationship count, and number of distinct
    /// files among the stored entities.
    pub fn get_stats(&self) -> (r: Result<(usize, usize, usize), StorageError>)
        ensures
            r matches Err(e) ==> e is Database || e is MalformedRow,
    {
        let none: Vec<SqlValue> = Vec::new();
        let entity_count = count_from_rows(&self.rows(COUNT_ENTITIES, &none, 1)?)?;
        let relationship_count = count_from_rows(&self.rows(COUNT_RELATIONSHIPS, &none, 1)?)?;
        let file_count = count_from_rows(&self.rows(COUNT_FILES, &none, 1)?)?;
        Ok((entity_count, relationship_count, file_count))
    }
}

/// Runs `sql` once per row of `rows`, with the row's cells as parameters.
fn insert_rows(conn: &Connection, sql: &str, rows: &Vec<Vec<SqlValue>>) -> Result<(), rusqlite::Error> {
    let mut i: usize = 0;
    while i < rows.len()
        invariant
            i <= rows@.len(),
        decreases rows@.len() - i,
    {
        execute(conn, sql, &rows[i])?;
        i = i + 1;
    }
    Ok(())
}

/// Every entity kind reads back from its own token.
pub proof fn lemma_entity_token_round_trip(k: EntityType)
    ensures
        entity_from_token(entity_token(k)) == Some(k),
        entity_kind_or_default(entity_token(k)) == k,
{
    reveal_strlit("function");
    reveal_strlit("class");
    reveal_strlit("module");
    reveal_strlit("variable");
    reveal_strlit("import");
    reveal_strlit("export");
    reveal_strlit("interface");
    reveal_strlit("type");
    reveal_strlit("constant");
    match k {
        EntityType::Function => {
        },
        EntityType::Class => {
            assert("class"@.len() != "function"@.len());
        },
        EntityType::Module => {
            assert("module"@.len() != "function"@.len());
            assert("module"@.len() != "class"@.len());
        },
        EntityType::Variable => {
            assert("variable"@[0] != "function"@[0]);
            assert("variable"@.len() != "class"@.len());
            assert("variable"@.len() != "module"@.len());
        },
        EntityType::Import => {
            assert("import"@.len() != "function"@.len());
            assert("import"@.len() != "class"@.len());
            assert("import"@[0] != "module"@[0]);
            assert("import"@.len() != "variable"@.len());
        },
        EntityType::Export => {
            assert("export"@.len() != "function"@.len());
            assert("export"@.len() != "class"@.len());
            assert("export"@[0] != "module"@[0]);
            assert("export"@.len() != "variable"@.len());
            assert("export"@[0] != "import"@[0]);
        },
        EntityType::Interface => {
            assert("interface"@.len() != "function"@.len());
            assert("interface"@.len() != "class"@.len());
            assert("interface"@.len() != "module"@.len());
            assert("interface"@.len() != "variable"@.len());
            assert("interface"@.len() != "import"@.len());
            assert("interface"@.len() != "export"@.len());
        },
        EntityType::Type => {
            assert("type"@.len() != "function"@.len());
            assert("type"@.len() != "class"@.len());
            assert("type"@.len() != "module"@.len());
            assert("type"@.len() != "variable"@.len());
            assert("type"@.len() != "import"@.len());
            assert("type"@.len() != "export"@.len());
            assert("type"@.len() != "interface"@.len());
        },
        EntityType::Constant => {
            assert("constant"@[0] != "function"@[0]);
            assert("constant"@.len() != "class"@.len());
            assert("constant"@.len() != "module"@.len());
            assert("constant"@[0] != "variable"@[0]);
            assert("constant"@.len() != "import"@.len());
            assert("constant"@.len() != "export"@.len());
            assert("constant"@.len() != "interface"@.len());
            assert("constant"@.len() != "type"@.len());
        },
    }
}

/// `a` and `b` agree on identifier, name, kind, file and position.
pub open spec fn same_placement(a: CodeEntity, b: CodeEntity) -> bool {
    &&& a.id@ == b.id@
    &&& a.name@ == b.name@
    &&& a.entity_type == b.entity_type
    &&& a.file_path@ == b.file_path@
    &&& a.line_start == b.line_start
    &&& a.line_end == b.line_end
    &&& a.column_start == b.column_start
    &&& a.column_end == b.column_end
}

proof fn lemma_upsert_all_distinct(es: Seq<CodeEntity>)
    requires
        unique_ids(es),
    ensures
        upsert_all(Seq::empty(), es) == es,
    decreases es.len(),
{
    if es.len() > 0 {
        let init = es.drop_last();
        assert(unique_ids(init)) by {
            assert forall|a: int, b: int|
                0 <= a < init.len() && 0 <= b < init.len() && #[trigger] init[a].id@ == #[trigger] init[b].id@
                implies a == b by {
                assert(init[a] == es[a] && init[b] == es[b]);
            }
        }
        lemma_upsert_all_distinct(init);
        if has_id(init, es.last().id@) {
            let k = choose|k: int| id_at(init, es.last().id@, k);
            assert(es[k].id@ == es[es.len() - 1].id@);
        }
        assert(init.push(es.last()) =~= es);
    }
}

proof fn lemma_link_all_distinct(rs: Seq<Relationship>)
    requires
        unique_rel_keys(rs),
    ensures
        link_all(Seq::empty(), rs) == rs,
    decreases rs.len(),
{
    if rs.len() > 0 {
        let init = rs.drop_last();
        assert(unique_rel_keys(init)) by {
            assert forall|a: int, b: int|
                0 <= a < init.len() && 0 <= b < init.len() && #[trigger] rel_key(init[a]) == #[trigger] rel_key(init[b])
                implies a == b by {
                assert(init[a] == rs[a] && init[b] == rs[b]);
            }
        }
        lemma_link_all_distinct(init);
        if has_rel_key(init, rs.last()) {
            let k = choose|k: int| 0 <= k < init.len() && rel_key(init[k]) == rel_key(rs.last());
            assert(rel_key(rs[k]) == rel_key(rs[rs.len() - 1]));
        }
        assert(init.push(rs.last()) =~= rs);
    }
}

proof fn lemma_set_all_distinct(ps: Seq<(String, String)>)
    requires
        unique_keys(ps),
    ensures
        set_all(Seq::empty(), ps) == ps,
    decreases ps.len(),
{
    if ps.len() > 0 {
        let init = ps.drop_last();
        assert(unique_keys(init)) by {
            assert forall|a: int, b: int|
                0 <= a < init.len() && 0 <= b < init.len() && #[trigger] init[a].0@ == #[trigger] init[b].0@
                implies a == b by {
                assert(init[a] == ps[a] && init[b] == ps[b]);
            }
        }
        lemma_set_all_distinct(init);
        let p = ps.last();
        if has_key(init, p.0@) {
            let k = choose|k: int| key_at(init, p.0@, k);
            assert(ps[k].0@ == ps[ps.len() - 1].0@);
        }
        assert(init.push((p.0, p.1)) =~= ps);
    }
}

proof fn lemma_round_trip_decoded(
    m: ProjectMemory,
    es: Seq<Seq<Cell>>,
    rs: Seq<Seq<Cell>>,
    hs: Seq<Seq<Cell>>,
    ents: Seq<CodeEntity>,
    rels: Seq<Relationship>,
    hashes: Seq<(String, String)>,
    fallback: Timestamp,
)
    requires
        m.wf(),
        encodable(m),
        is_snapshot(m, es, rs, hs),
        ents.len() == es.len(),
        forall|i: int| 0 <= i < es.len() ==> decodes_entity(#[trigger] es[i], ents[i], fallback),
        rels.len() == rs.len(),
        forall|i: int| 0 <= i < rs.len() ==> decodes_relationship(#[trigger] rs[i], rels[i], fallback),
        hashes.len() == hs.len(),
        forall|i: int| 0 <= i < hs.len() ==> #[trigger] hs[i] == hash_cells(hashes[i]),
    ensures
        forall|i: int| 0 <= i < es.len() ==> entity_row_ok(#[trigger] es[i]),
        forall|i: int| 0 <= i < rs.len() ==> relationship_row_ok(#[trigger] rs[i]),
        forall|i: int| 0 <= i < hs.len() ==> hash_row_ok(#[trigger] hs[i]),
        upsert_all(Seq::empty(), ents).len() == m.entities@.len(),
        forall|i: int|
            0 <= i < m.entities@.len() ==> same_placement(
                #[trigger] upsert_all(Seq::empty(), ents)[i],
                m.entities@[i],
            ),
        link_all(Seq::empty(), rels).len() == m.relationships@.len(),
        forall|i: int|
            0 <= i < m.relationships@.len() ==> {
                let l = #[trigger] link_all(Seq::empty(), rels)[i];
                l.id@ == m.relationships@[i].id@ && rel_key(l) == rel_key(m.relationships@[i])
            },
        pairs_view(set_all(Seq::empty(), hashes)) == pairs_view(m.file_hashes@),
{
    assert forall|i: int| 0 <= i < es.len() implies entity_row_ok(#[trigger] es[i]) && same_placement(
        ents[i],
        m.entities@[i],
    ) by {
        lemma_entity_token_round_trip(m.entities@[i].entity_type);
        assert(decodes_entity(es[i], ents[i], fallback));
    }
    assert forall|i: int| 0 <= i < rs.len() implies relationship_row_ok(#[trigger] rs[i]) && ({
        let l = rels[i];
        l.id@ == m.relationships@[i].id@ && rel_key(l) == rel_key(m.relationships@[i])
    }) by {
        lemma_relation_token_round_trip(m.relationships@[i].relationship_type);
        assert(decodes_relationship(rs[i], rels[i], fallback));
    }
    assert forall|i: int| 0 <= i < hs.len() implies hash_row_ok(#[trigger] hs[i]) && hashes[i].0@
        == m.file_hashes@[i].0@ && hashes[i].1@ == m.file_hashes@[i].1@ by {
        assert(hs[i] == hash_cells(m.file_hashes@[i]));
        assert(hash_cells(hashes[i])[0] == hash_cells(m.file_hashes@[i])[0]);
        assert(hash_cells(hashes[i])[1] == hash_cells(m.file_hashes@[i])[1]);
    }
    assert(unique_ids(ents)) by {
        assert forall|a: int, b: int|
            0 <= a < ents.len() && 0 <= b < ents.len() && #[trigger] ents[a].id@ == #[trigger] ents[b].id@
            implies a == b by {
            assert(entity_row_ok(es[a]) && entity_row_ok(es[b]));
            assert(same_placement(ents[a], m.entities@[a]));
            assert(same_placement(ents[b], m.entities@[b]));
        }
    }
    lemma_upsert_all_distinct(ents);
    assert(unique_rel_keys(rels)) by {
        assert forall|a: int, b: int|
            0 <= a < rels.len() && 0 <= b < rels.len() && #[trigger] rel_key(rels[a]) == #[trigger] rel_key(rels[b])
            implies a == b by {
            assert(relationship_row_ok(rs[a]) && relationship_row_ok(rs[b]));
            assert(rel_key(rels[a]) == rel_key(m.relationships@[a]));
            assert(rel_key(rels[b]) == rel_key(m.relationships@[b]));
        }
    }
    lemma_link_all_distinct(rels);
    assert(unique_keys(hashes)) by {
        assert forall|a: int, b: int|
            0 <= a < hashes.len() && 0 <= b < hashes.len() && #[trigger] hashes[a].0@ == #[trigger] hashes[b].0@
            implies a == b by {
            assert(hash_row_ok(hs[a]) && hash_row_ok(hs[b]));
            assert(hashes[a].0@ == m.file_hashes@[a].0@);
            assert(hashes[b].0@ == m.file_hashes@[b].0@);
        }
    }
    lemma_set_all_distinct(hashes);
    assert forall|i: int| 0 <= i < m.entities@.len() implies same_placement(
        #[trigger] upsert_all(Seq::empty(), ents)[i],
        m.entities@[i],
    ) by {
        assert(entity_row_ok(es[i]));
    }
    assert forall|i: int| 0 <= i < m.relationships@.len() implies {
        let l = #[trigger] link_all(Seq::empty(), rels)[i];
        l.id@ == m.relationships@[i].id@ && rel_key(l) == rel_key(m.relationships@[i])
    } by {
        assert(relationship_row_ok(rs[i]));
    }
    assert forall|i: int| 0 <= i < hashes.len() implies #[trigger] pairs_view(hashes)[i] == pairs_view(
        m.file_hashes@,
    )[i] by {
        assert(hash_row_ok(hs[i]));
    }
    assert(pairs_view(hashes) =~= pairs_view(m.file_hashes@));
}

/// Reading back the rows that a full save writes for a graph gives the graph
/// again: the same entities in the same order with the same identifier, name,
/// kind, file and position; the same relationships with the same identifier,
/// endpoints and kind; and the same file hashes. Every written row has the
/// schema's column types, so the read succeeds.
pub proof fn lemma_round_trip(
    m: ProjectMemory,
    l: ProjectMemory,
    es: Seq<Seq<Cell>>,
    rs: Seq<Seq<Cell>>,
    hs: Seq<Seq<Cell>>,
    fallback: Timestamp,
)
    requires
        m.wf(),
        encodable(m),
        is_snapshot(m, es, rs, hs),
        loaded_from(l, m.project_path@, es, rs, hs, fallback),
    ensures
        tables_ok(es, rs, hs),
        l.project_path@ == m.project_path@,
        l.entities@.len() == m.entities@.len(),
        forall|i: int| 0 <= i < m.entities@.len() ==> same_placement(#[trigger] l.entities@[i], m.entities@[i]),
        l.relationships@.len() == m.relationships@.len(),
        forall|i: int|
            0 <= i < m.relationships@.len() ==> {
                let x = #[trigger] l.relationships@[i];
                x.id@ == m.relationships@[i].id@ && rel_key(x) == rel_key(m.relationships@[i])
            },
        pairs_view(l.file_hashes@) == pairs_view(m.file_hashes@),
{
    let ents = choose|ents: Seq<CodeEntity>|
        {
            &&& ents.len() == es.len()
            &&& forall|i: int| 0 <= i < es.len() ==> decodes_entity(#[trigger] es[i], ents[i], fallback)
            &&& l.entities@ == #[trigger] upsert_all(Seq::empty(), ents)
        };
    let rels = choose|rels: Seq<Relationship>|
        {
            &&& rels.len() == rs.len()
            &&& forall|i: int| 0 <= i < rs.len() ==> decodes_relationship(#[trigger] rs[i], rels[i], fallback)
            &&& l.relationships@ == #[trigger] link_all(Seq::empty(), rels)
        };
    let ps = choose|ps: Seq<(String, String)>|
        {
            &&& ps.len() == hs.len()
            &&& forall|i: int| 0 <= i < hs.len() ==> #[trigger] hs[i] == hash_cells(ps[i])
            &&& l.file_hashes@ == #[trigger] set_all(Seq::empty(), ps)
        };
    lemma_round_trip_decoded(m, es, rs, hs, ents, rels, ps, fallback);
}

/// Saving an unchanged graph a second time writes exactly the rows of the
/// first save: the rows of a full save depend on the graph alone.
pub proof fn lemma_resave(
    m: ProjectMemory,
    es1: Seq<Seq<Cell>>,
    rs1: Seq<Seq<Cell>>,
    hs1: Seq<Seq<Cell>>,
    es2: Seq<Seq<Cell>>,
    rs2: Seq<Seq<Cell>>,
    hs2: Seq<Seq<Cell>>,
)
    requires
        is_snapshot(m, es1, rs1, hs1),
        is_snapshot(m, es2, rs2, hs2),
    ensures
        es1 == es2,
        rs1 == rs2,
        hs1 == hs2,
{
    assert(es1 =~= es2);
    assert(rs1 =~= rs2);
    assert(hs1 =~= hs2);
}

/// Loading after a second save of an unchanged graph gives what loading after
/// one save gives: two graphs read back from the rows of full saves of the same
/// graph agree on every entity's identifier, name, kind, file and position, on
/// every relationship's identifier and key, and on the file hashes.
pub proof fn lemma_resave_loads_alike(
    m: ProjectMemory,
    l1: ProjectMemory,
    l2: ProjectMemory,
    es1: Seq<Seq<Cell>>,
    rs1: Seq<Seq<Cell>>,
    hs1: Seq<Seq<Cell>>,
    es2: Seq<Seq<Cell>>,
    rs2: Seq<Seq<Cell>>,
    hs2: Seq<Seq<Cell>>,
    fb1: Timestamp,
    fb2: Timestamp,
)
    requires
        m.wf(),
        encodable(m),
        is_snapshot(m, es1, rs1, hs1),
        is_snapshot(m, es2, rs2, hs2),
        loaded_from(l1, m.project_path@, es1, rs1, hs1, fb1),
        loaded_from(l2, m.project_path@, es2, rs2, hs2, fb2),
    ensures
        l1.entities@.len() == l2.entities@.len(),
        forall|i: int| 0 <= i < l1.entities@.len() ==> same_placement(#[trigger] l1.entities@[i], l2.entities@[i]),
        l1.relationships@.len() == l2.relationships@.len(),
        forall|i: int|
            0 <= i < l1.relationships@.len() ==> {
                let x = #[trigger] l1.relationships@[i];
                x.id@ == l2.relationships@[i].id@ && rel_key(x) == rel_key(l2.relationships@[i])
            },
        pairs_view(l1.file_hashes@) == pairs_view(l2.file_hashes@),
        l1.project_path@ == l2.project_path@,
{
    lemma_resave(m, es1, rs1, hs1, es2, rs2, hs2);
    lemma_round_trip(m, l1, es1, rs1, hs1, fb1);
    lemma_round_trip(m, l2, es2, rs2, hs2, fb2);
    assert forall|i: int| 0 <= i < l1.entities@.len() implies same_placement(
        #[trigger] l1.entities@[i],
        l2.entities@[i],
    ) by {
        assert(same_placement(l1.entities@[i], m.entities@[i]));
        assert(same_placement(l2.entities@[i], m.entities@[i]));
    }
    assert forall|i: int| 0 <= i < l1.relationships@.len() implies {
        let x = #[trigger] l1.relationships@[i];
        x.id@ == l2.relationships@[i].id@ && rel_key(x) == rel_key(l2.relationships@[i])
    } by {
        let y = l2.relationships@[i];
        assert(rel_key(y) == rel_key(m.relationships@[i]));
    }
}

} // verus!
