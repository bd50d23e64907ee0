use ftp_gateway::models::ftp::{Breakpoint, CHUNK_SIZE, REPLY_TIMEOUT_MS};
use ftp_gateway::models::sql::{
    breakpoint_from_row, delete, failure_message, insert, select, update, SqlValue, StatementKind,
};

fn text(s: &str) -> SqlValue {
    SqlValue::Text(s.to_string())
}

#[test]
fn insert_statement() {
    let st = insert("stor", "anna", "/tmp/a.txt", "a.txt", "/home/anna", "a.txt", 0);
    assert_eq!(st.kind, StatementKind::Insert);
    assert_eq!(
        st.sql,
        "INSERT INTO breakpoint (mode, username, local_filepath, local_filename, remote_filedir, remote_filename, bytes) VALUES ($1, $2, $3, $4, $5, $6, $7)"
    );
    assert_eq!(
        st.params,
        vec![
            text("stor"),
            text("anna"),
            text("/tmp/a.txt"),
            text("a.txt"),
            text("/home/anna"),
            text("a.txt"),
            SqlValue::Int(0)
        ]
    );
}

#[test]
fn update_statement() {
    let st = update("retr", "anna", "/tmp/b", "b", 65536);
    assert_eq!(st.kind, StatementKind::Update);
    assert_eq!(
        st.sql,
        "UPDATE breakpoint SET bytes = $1 WHERE mode = $2 AND username = $3 AND local_filepath = $4 AND local_filename = $5"
    );
    assert_eq!(
        st.params,
        vec![SqlValue::Int(65536), text("retr"), text("anna"), text("/tmp/b"), text("b")]
    );
}

#[test]
fn delete_statement() {
    let st = delete("stor", "anna", "/tmp/a.txt", "a.txt");
    assert_eq!(st.kind, StatementKind::Delete);
    assert_eq!(
        st.sql,
        "DELETE FROM breakpoint WHERE mode = $1 AND username = $2 AND local_filepath = $3 AND local_filename = $4"
    );
    assert_eq!(st.params, vec![text("stor"), text("anna"), text("/tmp/a.txt"), text("a.txt")]);
}

#[test]
fn select_statement_lists_uploads_only() {
    let st = select("anna");
    assert_eq!(st.kind, StatementKind::Select);
    assert_eq!(
        st.sql,
        "SELECT mode, local_filepath, local_filename, remote_filedir, remote_filename, bytes FROM breakpoint WHERE username = $1 AND mode = 'stor'"
    );
    assert_eq!(st.params, vec![text("anna")]);
}

#[test]
fn row_with_all_columns() {
    let b = breakpoint_from_row(
        Some("stor".to_string()),
        Some("/tmp/a.txt".to_string()),
        Some("a.txt".to_string()),
        Some("/home".to_string()),
        Some("a.txt".to_string()),
        Some(4096),
    );
    assert_eq!(
        b,
        Breakpoint {
            mode: "stor".to_string(),
            local_filepath: "/tmp/a.txt".to_string(),
            local_filename: "a.txt".to_string(),
            remote_filedir: "/home".to_string(),
            remote_filename: "a.txt".to_string(),
            bytes: 4096,
        }
    );
}

#[test]
fn row_with_missing_columns() {
    let b = breakpoint_from_row(None, Some("/x".to_string()), None, None, None, None);
    assert_eq!(b.mode, "");
    assert_eq!(b.local_filepath, "/x");
    assert_eq!(b.local_filename, "");
    assert_eq!(b.remote_filedir, "");
    assert_eq!(b.remote_filename, "");
    assert_eq!(b.bytes, 0);
}

#[test]
fn sizes() {
    assert_eq!(CHUNK_SIZE, 32768);
    assert_eq!(REPLY_TIMEOUT_MS, 500);
}

#[test]
fn failure_messages() {
    assert_eq!(
        failure_message(&StatementKind::Insert, "duplicate key"),
        "Failed to insert database.\nDatabase error: duplicate key"
    );
    assert_eq!(
        failure_message(&StatementKind::Update, "x"),
        "Failed to update database.\nDatabase error: x"
    );
    assert_eq!(
        failure_message(&StatementKind::Delete, ""),
        "Failed to delete database.\nDatabase error: "
    );
    assert_eq!(
        failure_message(&StatementKind::Select, "timeout"),
        "Failed to select database.\nDatabase error: timeout"
    );
}
