use meiqiu_dict::dict::{lookup_answer, lookup_conn, unescape_translation, QueryFailure};
use meiqiu_dict::error::AppError;
use rusqlite::Connection;

fn fixture() -> Connection {
    let conn = Connection::open_in_memory().expect("open mem");
    conn.execute_batch(
        "CREATE TABLE entries (
            word TEXT PRIMARY KEY,
            phonetic TEXT NOT NULL DEFAULT '',
            translation TEXT NOT NULL DEFAULT '',
            lang_src TEXT NOT NULL,
            lang_tgt TEXT NOT NULL
        ) WITHOUT ROWID;
        INSERT INTO entries VALUES ('hello', 'həˈləʊ', '你好', 'en', 'zh');
        INSERT INTO entries VALUES ('world', 'wɜːld', '世界', 'en', 'zh');",
    )
    .expect("seed");
    conn
}

#[test]
fn known_word_hits() {
    let conn = fixture();
    let entry = lookup_conn(&conn, "hello").unwrap().expect("found");
    assert_eq!(entry.word, "hello");
    assert_eq!(entry.translation, "你好");
    assert_eq!(entry.lang_pair, "en-zh");
}

#[test]
fn lookup_is_case_and_whitespace_insensitive() {
    let conn = fixture();
    let entry = lookup_conn(&conn, "  Hello  ").unwrap().expect("found");
    assert_eq!(entry.word, "hello");
}

#[test]
fn unknown_word_returns_none() {
    let conn = fixture();
    assert!(lookup_conn(&conn, "qzx").unwrap().is_none());
}

#[test]
fn empty_query_returns_none() {
    let conn = fixture();
    assert!(lookup_conn(&conn, "   ").unwrap().is_none());
}

#[test]
fn translation_newlines_are_unescaped() {
    let conn = Connection::open_in_memory().expect("open mem");
    conn.execute_batch(
        "CREATE TABLE entries (
            word TEXT PRIMARY KEY,
            phonetic TEXT NOT NULL DEFAULT '',
            translation TEXT NOT NULL DEFAULT '',
            lang_src TEXT NOT NULL,
            lang_tgt TEXT NOT NULL
        ) WITHOUT ROWID;
        INSERT INTO entries VALUES ('run', '', 'n. 跑\\nvt. 经营', 'en', 'zh');",
    )
    .expect("seed");
    let entry = lookup_conn(&conn, "run").unwrap().expect("found");
    assert_eq!(entry.translation, "n. 跑\nvt. 经营");
}

#[test]
fn phonetic_is_returned_as_stored() {
    let conn = fixture();
    let entry = lookup_conn(&conn, "WORLD").unwrap().expect("found");
    assert_eq!(entry.word, "world");
    assert_eq!(entry.phonetic, "wɜːld");
    assert_eq!(entry.translation, "世界");
}

#[test]
fn missing_table_is_a_prepare_error() {
    let conn = Connection::open_in_memory().expect("open mem");
    match lookup_conn(&conn, "hello") {
        Err(AppError::Dict(m)) => assert!(m.starts_with("prepare: "), "{m}"),
        other => panic!("unexpected {other:?}"),
    }
}

#[test]
fn empty_query_needs_no_table() {
    let conn = Connection::open_in_memory().expect("open mem");
    assert!(lookup_conn(&conn, " \t ").unwrap().is_none());
}

#[test]
fn non_text_column_is_a_query_error() {
    let conn = Connection::open_in_memory().expect("open mem");
    conn.execute_batch(
        "CREATE TABLE entries (word TEXT PRIMARY KEY, phonetic, translation, lang_src, lang_tgt);
        INSERT INTO entries VALUES ('odd', 42, 'x', 'en', 'zh');",
    )
    .expect("seed");
    match lookup_conn(&conn, "odd") {
        Err(AppError::Dict(m)) => assert!(m.starts_with("query: "), "{m}"),
        other => panic!("unexpected {other:?}"),
    }
}

#[test]
fn unescape_handles_backslash_runs() {
    assert_eq!(unescape_translation("a\\nb\\nc"), "a\nb\nc");
    assert_eq!(unescape_translation("\\\\n"), "\\\n");
    assert_eq!(unescape_translation("no escapes"), "no escapes");
    assert_eq!(unescape_translation("trailing\\"), "trailing\\");
    assert_eq!(unescape_translation(""), "");
}

#[test]
fn database_answers_map_to_results() {
    match lookup_answer("k".into(), Err(QueryFailure::Prepare("no such table: entries".into()))) {
        Err(AppError::Dict(m)) => assert_eq!(m, "prepare: no such table: entries"),
        other => panic!("unexpected {other:?}"),
    }
    match lookup_answer("k".into(), Err(QueryFailure::Query("bad column".into()))) {
        Err(AppError::Dict(m)) => assert_eq!(m, "query: bad column"),
        other => panic!("unexpected {other:?}"),
    }
    assert!(lookup_answer("k".into(), Ok(None)).unwrap().is_none());
    let row = ("p".to_string(), "a\\nb".to_string(), "en".to_string(), "zh".to_string());
    let e = lookup_answer("k".into(), Ok(Some(row))).unwrap().unwrap();
    assert_eq!(e.word, "k");
    assert_eq!(e.phonetic, "p");
    assert_eq!(e.translation, "a\nb");
    assert_eq!(e.lang_pair, "en-zh");
}
