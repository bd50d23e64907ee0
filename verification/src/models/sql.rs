//! The statements on the `breakpoint` table, and how a selected row is read.
use vstd::prelude::*;
use crate::models::ftp::Breakpoint;

verus! {

/// A value bound to a statement parameter.
#[derive(Debug, PartialEq, Eq)]
pub enum SqlValue {
    Text(String),
    Int(i64),
}

/// What a statement does to the `breakpoint` table.
#[derive(Debug, PartialEq, Eq, Structural)]
pub enum StatementKind {
    Insert,
    Update,
    Delete,
    Select,
}

/// A statement with its parameters `$1`, `$2`, ... in order.
#[derive(Debug)]
pub struct Statement {
    pub kind: StatementKind,
    pub sql: &'static str,
    pub params: Vec<SqlValue>,
}

/// The verb naming what a statement does, in failure messages.
pub open spec fn verb_of(kind: StatementKind) -> Seq<char> {
    match kind {
        StatementKind::Insert => "insert"@,
        StatementKind::Update => "update"@,
        StatementKind::Delete => "delete"@,
        StatementKind::Select => "select"@,
    }
}

fn verb(kind: &StatementKind) -> (v: &'static str)
    ensures
        v@ == verb_of(*kind),
{
    match kind {
        StatementKind::Insert => "insert",
        StatementKind::Update => "update",
        StatementKind::Delete => "delete",
        StatementKind::Select => "select",
    }
}

/// The message of a failed statement: what it did, then the database's
/// own description of the failure, `detail`.
pub fn failure_message(kind: &StatementKind, detail: &str) -> (s: String)
    ensures
        s@ == "Failed to "@ + verb_of(*kind) + " database.\nDatabase error: "@ + detail@,
        *kind == StatementKind::Insert ==> s@ == "Failed to "@ + "insert"@
            + " database.\nDatabase error: "@ + detail@,
        *kind == StatementKind::Update ==> s@ == "Failed to "@ + "update"@
            + " database.\nDatabase error: "@ + detail@,
        *kind == StatementKind::Delete ==> s@ == "Failed to "@ + "delete"@
            + " database.\nDatabase error: "@ + detail@,
        *kind == StatementKind::Select ==> s@ == "Failed to "@ + "select"@
            + " database.\nDatabase error: "@ + detail@,
{
    let mut s = String::from_str("Failed to ");
    s.append(verb(kind));
    s.append(" database.\nDatabase error: ");
    s.append(detail);
    s
}

pub open spec fn is_text(v: SqlValue, s: Seq<char>) -> bool {
    v matches SqlValue::Text(t) && t@ == s
}

pub open spec fn is_int(v: SqlValue, n: i64) -> bool {
    v matches SqlValue::Int(m) && m == n
}

pub open spec fn insert_sql() -> Seq<char> {
    "INSERT INTO breakpoint (mode, username, local_filepath, local_filename, remote_filedir, remote_filename, bytes) VALUES ($1, $2, $3, $4, $5, $6, $7)"@
}

pub open spec fn update_sql() -> Seq<char> {
    "UPDATE breakpoint SET bytes = $1 WHERE mode = $2 AND username = $3 AND local_filepath = $4 AND local_filename = $5"@
}

pub open spec fn delete_sql() -> Seq<char> {
    "DELETE FROM breakpoint WHERE mode = $1 AND username = $2 AND local_filepath = $3 AND local_filename = $4"@
}

pub open spec fn select_sql() -> Seq<char> {
    "SELECT mode, local_filepath, local_filename, remote_filedir, remote_filename, bytes FROM breakpoint WHERE username = $1 AND mode = 'stor'"@
}

/// `st` inserts the row for a transfer.
pub open spec fn is_insert(
    st: Statement,
    mode: Seq<char>,
    username: Seq<char>,
    local_filepath: Seq<char>,
    local_filename: Seq<char>,
    remote_filedir: Seq<char>,
    remote_filename: Seq<char>,
    bytes: i64,
) -> bool {
    &&& st.kind == StatementKind::Insert
    &&& st.sql@ == insert_sql()
    &&& st.params@.len() == 7
    &&& is_text(st.params@[0], mode)
    &&& is_text(st.params@[1], username)
    &&& is_text(st.params@[2], local_filepath)
    &&& is_text(st.params@[3], local_filename)
    &&& is_text(st.params@[4], remote_filedir)
    &&& is_text(st.params@[5], remote_filename)
    &&& is_int(st.params@[6], bytes)
}

/// `st` sets the recorded offset of the row of a transfer.
pub open spec fn is_update(
    st: Statement,
    mode: Seq<char>,
    username: Seq<char>,
    local_filepath: Seq<char>,
    local_filename: Seq<char>,
    bytes: i64,
) -> bool {
    &&& st.kind == StatementKind::Update
    &&& st.sql@ == update_sql()
    &&& st.params@.len() == 5
    &&& is_int(st.params@[0], bytes)
    &&& is_text(st.params@[1], mode)
    &&& is_text(st.params@[2], username)
    &&& is_text(st.params@[3], local_filepath)
    &&& is_text(st.params@[4], local_filename)
}

/// `st` deletes the row of a transfer.
pub open spec fn is_delete(
    st: Statement,
    mode: Seq<char>,
    username: Seq<char>,
    local_filepath: Seq<char>,
    local_filename: Seq<char>,
) -> bool {
    &&& st.kind == StatementKind::Delete
    &&& st.sql@ == delete_sql()
    &&& st.params@.len() == 4
    &&& is_text(st.params@[0], mode)
    &&& is_text(st.params@[1], username)
    &&& is_text(st.params@[2], local_filepath)
    &&& is_text(st.params@[3], local_filename)
}

/// `st` selects the unfinished uploads of a user.
pub open spec fn is_select(st: Statement, username: Seq<char>) -> bool {
    &&& st.kind == StatementKind::Select
    &&& st.sql@ == select_sql()
    &&& st.params@.len() == 1
    &&& is_text(st.params@[0], username)
}

fn text(s: &str) -> (v: SqlValue)
    ensures
        is_text(v, s@),
        v matches SqlValue::Text(t) && t@ == s@,
{
    SqlValue::Text(String::from_str(s))
}

/// The statement that records a new transfer.
pub fn insert(
    mode: &str,
    username: &str,
    local_filepath: &str,
    local_filename: &str,
    remote_filedir: &str,
    remote_filename: &str,
    bytes: i64,
) -> (st: Statement)
    ensures
        is_insert(
            st,
            mode@,
            username@,
            local_filepath@,
            local_filename@,
            remote_filedir@,
            remote_filename@,
            bytes,
        ),
        st.kind == StatementKind::Insert,
        st.sql@ == "INSERT INTO breakpoint (mode, username, local_filepath, local_filename, remote_filedir, remote_filename, bytes) VALUES ($1, $2, $3, $4, $5, $6, $7)"@,
        st.params@.len() == 7,
        st.params@[0] matches SqlValue::Text(t) && t@ == mode@,
        st.params@[1] matches SqlValue::Text(t) && t@ == username@,
        st.params@[2] matches SqlValue::Text(t) && t@ == local_filepath@,
        st.params@[3] matches SqlValue::Text(t) && t@ == local_filename@,
        st.params@[4] matches SqlValue::Text(t) && t@ == remote_filedir@,
        st.params@[5] matches SqlValue::Text(t) && t@ == remote_filename@,
        st.params@[6] == SqlValue::Int(bytes),
{
    let mut params: Vec<SqlValue> = Vec::new();
    params.push(text(mode));
    params.push(text(username));
    params.push(text(local_filepath));
    params.push(text(local_filename));
    params.push(text(remote_filedir));
    params.push(text(remote_filename));
    params.push(SqlValue::Int(bytes));
    Statement {
        kind: StatementKind::Insert,
        sql: "INSERT INTO breakpoint (mode, username, local_filepath, local_filename, remote_filedir, remote_filename, bytes) VALUES ($1, $2, $3, $4, $5, $6, $7)",
        params,
    }
}

/// The statement that records the offset a transfer has reached.
pub fn update(
    mode: &str,
    username: &str,
    local_filepath: &str,
    local_filename: &str,
    bytes: i64,
) -> (st: Statement)
    ensures
        is_update(st, mode@, username@, local_filepath@, local_filename@, bytes),
        st.kind == StatementKind::Update,
        st.sql@ == "UPDATE breakpoint SET bytes = $1 WHERE mode = $2 AND username = $3 AND local_filepath = $4 AND local_filename = $5"@,
        st.params@.len() == 5,
        st.params@[0] == SqlValue::Int(bytes),
        st.params@[1] matches SqlValue::Text(t) && t@ == mode@,
        st.params@[2] matches SqlValue::Text(t) && t@ == username@,
        st.params@[3] matches SqlValue::Text(t) && t@ == local_filepath@,
        st.params@[4] matches SqlValue::Text(t) && t@ == local_filename@,
{
    let mut params: Vec<SqlValue> = Vec::new();
    params.push(SqlValue::Int(bytes));
    params.push(text(mode));
    params.push(text(username));
    params.push(text(local_filepath));
    params.push(text(local_filename));
    Statement {
        kind: StatementKind::Update,
        sql: "UPDATE breakpoint SET bytes = $1 WHERE mode = $2 AND username = $3 AND local_filepath = $4 AND local_filename = $5",
        params,
    }
}

/// The statement that forgets a transfer.
pub fn delete(mode: &str, username: &str, local_filepath: &str, local_filename: &str) -> (st:
    Statement)
    ensures
        is_delete(st, mode@, username@, local_filepath@, local_filename@),
        st.kind == StatementKind::Delete,
        st.sql@ == "DELETE FROM breakpoint WHERE mode = $1 AND username = $2 AND local_filepath = $3 AND local_filename = $4"@,
        st.params@.len() == 4,
        st.params@[0] matches SqlValue::Text(t) && t@ == mode@,
        st.params@[1] matches SqlValue::Text(t) && t@ == username@,
        st.params@[2] matches SqlValue::Text(t) && t@ == local_filepath@,
        st.params@[3] matches SqlValue::Text(t) && t@ == local_filename@,
{
    let mut params: Vec<SqlValue> = Vec::new();
    params.push(text(mode));
    params.push(text(username));
    params.push(text(local_filepath));
    params.push(text(local_filename));
    Statement {
        kind: StatementKind::Delete,
        sql: "DELETE FROM breakpoint WHERE mode = $1 AND username = $2 AND local_filepath = $3 AND local_filename = $4",
        params,
    }
}

/// The statement that lists a user's unfinished uploads.
pub fn select(username: &str) -> (st: Statement)
    ensures
        is_select(st, username@),
        st.kind == StatementKind::Select,
        st.sql@ == "SELECT mode, local_filepath, local_filename, remote_filedir, remote_filename, bytes FROM breakpoint WHERE username = $1 AND mode = 'stor'"@,
        st.params@.len() == 1,
        st.params@[0] matches SqlValue::Text(t) && t@ == username@,
{
    let mut params: Vec<SqlValue> = Vec::new();
    params.push(text(username));
    Statement {
        kind: StatementKind::Select,
        sql: "SELECT mode, local_filepath, local_filename, remote_filedir, remote_filename, bytes FROM breakpoint WHERE username = $1 AND mode = 'stor'",
        params,
    }
}

pub open spec fn text_or_empty(v: Option<String>) -> Seq<char> {
    match v {
        Some(s) => s@,
        None => Seq::empty(),
    }
}

fn or_empty(v: Option<String>) -> (s: String)
    ensures
        s@ == text_or_empty(v),
        v matches Some(t) ==> s@ == t@,
        v is None ==> s@.len() == 0,
{
    match v {
        Some(s) => s,
        None => String::new(),
    }
}

/// A selected row as a `Breakpoint`: a missing column becomes the empty
/// string, or 0 for the offset.
pub fn breakpoint_from_row(
    mode: Option<String>,
    local_filepath: Option<String>,
    local_filename: Option<String>,
    remote_filedir: Option<String>,
    remote_filename: Option<String>,
    bytes: Option<i64>,
) -> (b: Breakpoint)
    ensures
        b.mode@ == text_or_empty(mode),
        b.local_filepath@ == text_or_empty(local_filepath),
        b.local_filename@ == text_or_empty(local_filename),
        b.remote_filedir@ == text_or_empty(remote_filedir),
        b.remote_filename@ == text_or_empty(remote_filename),
        mode matches Some(t) ==> b.mode@ == t@,
        mode is None ==> b.mode@.len() == 0,
        local_filepath matches Some(t) ==> b.local_filepath@ == t@,
        local_filepath is None ==> b.local_filepath@.len() == 0,
        local_filename matches Some(t) ==> b.local_filename@ == t@,
        local_filename is None ==> b.local_filename@.len() == 0,
        remote_filedir matches Some(t) ==> b.remote_filedir@ == t@,
        remote_filedir is None ==> b.remote_filedir@.len() == 0,
        remote_filename matches Some(t) ==> b.remote_filename@ == t@,
        remote_filename is None ==> b.remote_filename@.len() == 0,
        bytes matches Some(n) ==> b.bytes == n,
        bytes is None ==> b.bytes == 0,
        b.bytes == match bytes {
            Some(n) => n,
            None => 0i64,
        },
{
    Breakpoint {
        mode: or_empty(mode),
        local_filepath: or_empty(local_filepath),
        local_filename: or_empty(local_filename),
        remote_filedir: or_empty(remote_filedir),
        remote_filename: or_empty(remote_filename),
        bytes: match bytes {
            Some(n) => n,
            None => 0,
        },
    }
}

/// A column read back: a present column is its stored text, unchanged; a
/// missing one is empty.
pub proof fn law_present_column_read_back(t: String)
    ensures
        text_or_empty(Some(t)) == t@,
        text_or_empty(None).len() == 0,
{
}

} // verus!
