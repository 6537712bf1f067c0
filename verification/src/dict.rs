//! Dictionary lookup against the bundled, read-only SQLite database.
//!
//! The schema is `entries(word PK, phonetic, translation, lang_src, lang_tgt)`.
//! `lookup_conn` is the lookup against one connection; the words are
//! matched trimmed and lowercased.
use vstd::prelude::*;
use vstd::string::*;
use rusqlite::Connection;
use crate::store::{KeyedAnswer, query_lookup};
use crate::error::AppError;
use crate::text::{chars_of, lemma_trimmed_idempotent, lowercase_of, push_char, to_lowercase, trim_str, trimmed};

verus! {

#[verifier::external_type_specification]
#[verifier::external_body]
pub struct ExConnection(rusqlite::Connection);

#[verifier::external_type_specification]
#[verifier::external_body]
pub struct ExCachedStatement<'conn>(rusqlite::CachedStatement<'conn>);

#[verifier::external_type_specification]
#[verifier::external_body]
pub struct ExSqlError(rusqlite::Error);

/// One dictionary entry.
#[derive(Debug, Clone, PartialEq, Eq)]
pub struct DictEntry {
    pub word: String,
    pub phonetic: String,
    pub translation: String,
    pub lang_pair: String,
}

/// An entry as plain values.
pub struct DictEntryView {
    pub word: Seq<char>,
    pub phonetic: Seq<char>,
    pub translation: Seq<char>,
    pub lang_pair: Seq<char>,
}

impl View for DictEntry {
    type V = DictEntryView;

    open spec fn view(&self) -> DictEntryView {
        DictEntryView {
            word: self.word@,
            phonetic: self.phonetic@,
            translation: self.translation@,
            lang_pair: self.lang_pair@,
        }
    }
}

/// The dictionary stores a line break as the two characters `\` `n`:
/// each such pair, read left to right, becomes one newline character.
pub open spec fn unescaped(s: Seq<char>) -> Seq<char>
    decreases s.len(),
{
    if s.len() == 0 {
        s
    } else if s.len() >= 2 && s[0] == '\\' && s[1] == 'n' {
        seq!['\n'] + unescaped(s.subrange(2, s.len() as int))
    } else {
        seq![s[0]] + unescaped(s.drop_first())
    }
}

/// Converts the stored two-character `\n` sequences to real newlines so
/// that multi-line entries render (see `unescaped`).
pub fn unescape_translation(raw: &str) -> (out: String)
    ensures
        out@ == unescaped(raw@),
{
    let v = chars_of(raw);
    let n = v.len();
    let mut out = String::new();
    let mut i: usize = 0;
    assert(v@.subrange(0, n as int) =~= v@);
    while i < n
        invariant
            v@ == raw@,
            n == v.len(),
            i <= n,
            out@ + unescaped(v@.subrange(i as int, n as int)) == unescaped(v@),
        decreases n - i,
    {
        let ghost rest = v@.subrange(i as int, n as int);
        if i + 1 < n && v[i] == '\\' && v[i + 1] == 'n' {
            assert(rest.subrange(2, rest.len() as int) =~= v@.subrange(i + 2, n as int));
            assert(out@.push('\n') + unescaped(v@.subrange(i + 2, n as int)) =~= out@ + unescaped(rest));
            push_char(&mut out, '\n');
            i = i + 2;
        } else {
            assert(rest.drop_first() =~= v@.subrange(i + 1, n as int));
            assert(out@.push(v@[i as int]) + unescaped(v@.subrange(i + 1, n as int)) =~= out@ + unescaped(rest));
            push_char(&mut out, v[i]);
            i = i + 1;
        }
    }
    assert(out@ + unescaped(v@.subrange(n as int, n as int)) =~= out@);
    out
}

/// The database key a looked-up word is matched by: the word trimmed,
/// then lowercased.
pub open spec fn lookup_key(word: Seq<char>) -> Seq<char> {
    lowercase_of(trimmed(word))
}

/// The key under which `word` is looked up (see `lookup_key`).
pub fn normalize_word(word: &str) -> (key: String)
    ensures
        key@ == lookup_key(word@),
{
    to_lowercase(trim_str(word))
}

/// The entry built from a matching row: the key as the word, the stored
/// phonetic, the translation with its line breaks restored, and the
/// language pair written `source-target`.
pub open spec fn entry_of_row(key: Seq<char>, phonetic: Seq<char>, translation: Seq<char>, src: Seq<char>, tgt: Seq<char>) -> DictEntryView {
    DictEntryView {
        word: key,
        phonetic: phonetic,
        translation: unescaped(translation),
        lang_pair: src + seq!['-'] + tgt,
    }
}

/// Builds the entry for `key` out of a row's four columns
/// (`phonetic`, `translation`, `lang_src`, `lang_tgt`; see `entry_of_row`).
pub fn entry_from_row(key: String, row: (String, String, String, String)) -> (e: DictEntry)
    ensures
        e@ == entry_of_row(key@, row.0@, row.1@, row.2@, row.3@),
{
    let (phonetic, translation, src, tgt) = row;
    let ghost src_chars = src@;
    let mut lang_pair = src;
    push_char(&mut lang_pair, '-');
    lang_pair.append(tgt.as_str());
    assert(lang_pair@ =~= src_chars + seq!['-'] + tgt@);
    DictEntry {
        word: key,
        phonetic,
        translation: unescape_translation(translation.as_str()),
        lang_pair,
    }
}

/// The lookup statement: the four columns of the entry whose word is `?1`.
pub const LOOKUP_SQL: &'static str = "SELECT phonetic, translation, lang_src, lang_tgt
             FROM entries WHERE word = ?1";

/// `prefix` followed by `detail`.
pub(crate) fn prefixed(prefix: &str, detail: String) -> (m: String)
    ensures
        m@ == prefix@ + detail@,
{
    let mut m = String::from_str(prefix);
    m.append(detail.as_str());
    m
}

/// What a lookup returns once the row query has answered `row`: the entry
/// built from the row (see `entry_of_row`), or `None` where there is no row.
pub fn lookup_outcome(key: String, row: Option<(String, String, String, String)>) -> (r: Option<DictEntry>)
    ensures
        row is None <==> r is None,
        row matches Some(c) ==> r matches Some(e) && e@ == entry_of_row(key@, c.0@, c.1@, c.2@, c.3@),
{
    match row {
        Some(c) => Some(entry_from_row(key, c)),
        None => None,
    }
}

/// Why the database gave no rows: preparing the lookup statement failed,
/// or running it did; each with the error's text.
#[derive(Debug, Clone)]
pub enum QueryFailure {
    Prepare(String),
    Query(String),
}

/// The four text columns of a matching row: phonetic, translation,
/// source language, target language.
pub type EntryRow = (String, String, String, String);

/// Whether `r` is what a lookup for `key` returns when the database
/// answered `answer`: no entry for no row, the entry built from the row
/// (see `entry_of_row`), or a `Dict` error whose message is `prepare: `
/// or `query: ` followed by the error's text.
pub open spec fn answer_gives(key: Seq<char>, answer: Result<Option<EntryRow>, QueryFailure>, r: Result<Option<DictEntry>, AppError>) -> bool {
    match answer {
        Ok(None) => r matches Ok(None),
        Ok(Some(c)) => r matches Ok(Some(e)) && e@ == entry_of_row(key, c.0@, c.1@, c.2@, c.3@),
        Err(QueryFailure::Prepare(m)) => r matches Err(AppError::Dict(msg)) && msg@ == "prepare: "@ + m@,
        Err(QueryFailure::Query(m)) => r matches Err(AppError::Dict(msg)) && msg@ == "query: "@ + m@,
    }
}

/// What a lookup for `key` returns once the database answered `answer`
/// (see `answer_gives`).
pub fn lookup_answer(key: String, answer: Result<Option<EntryRow>, QueryFailure>) -> (r: Result<Option<DictEntry>, AppError>)
    ensures
        answer_gives(key@, answer, r),
{
    match answer {
        Ok(row) => Ok(lookup_outcome(key, row)),
        Err(QueryFailure::Prepare(m)) => Err(AppError::Dict(prefixed("prepare: ", m))),
        Err(QueryFailure::Query(m)) => Err(AppError::Dict(prefixed("query: ", m))),
    }
}

/// Looks `word` up on `conn`. Words are matched trimmed and lowercased
/// (see `lookup_key`); a word that is blank, or empty after that, finds
/// nothing without a query. Otherwise the result is what `lookup_answer` makes of
/// the database's answer for that key: a found entry carries the key as
/// its word and is built from the row as `entry_of_row` says, and errors
/// come back as `AppError::Dict`, prefixed `prepare: ` or `query: `.
/// The database is asked for exactly that key (`query_lookup`); which row
/// it holds, and whether it fails, is not known here.
pub fn lookup_conn(conn: &Connection, word: &str) -> (r: Result<Option<DictEntry>, AppError>)
    ensures
        trimmed(word@).len() == 0 ==> r == Ok::<Option<DictEntry>, AppError>(None),
        lookup_key(word@).len() == 0 ==> r == Ok::<Option<DictEntry>, AppError>(None),
        lookup_key(word@).len() > 0 ==> exists|answer: Result<Option<EntryRow>, QueryFailure>|
            #[trigger] answer_gives(lookup_key(word@), answer, r),
        trimmed(word@).len() > 0 && lookup_key(word@).len() > 0 ==> exists|q: KeyedAnswer|
            q.key() == lookup_key(word@) && #[trigger] answer_gives(lookup_key(word@), q.answer(), r),
{
    let trimmed_word = trim_str(word);
    if trimmed_word.is_empty() {
        let r: Result<Option<DictEntry>, AppError> = Ok(None);
        assert(answer_gives(lookup_key(word@), Ok(None), r));
        return r;
    }
    let key = to_lowercase(trimmed_word);
    if key.as_str().is_empty() {
        return Ok(None);
    }
    let asked = query_lookup(conn, key.as_str());
    let ghost queried = asked;
    let answer = asked.into_answer();
    let ghost given = answer;
    let r = lookup_answer(key, answer);
    assert(answer_gives(lookup_key(word@), given, r));
    assert(queried.key() == lookup_key(word@) && answer_gives(lookup_key(word@), queried.answer(), r));
    r
}

/// What the database's answer makes of a lookup: a row found for the key
/// gives that entry, with the key as its word, the row's phonetic, its
/// translation with line breaks restored and the language pair
/// `source-target`; no row gives no entry; a failure gives a `Dict` error.
pub proof fn lemma_answer_decides_lookup(key: Seq<char>, answer: Result<Option<EntryRow>, QueryFailure>, r: Result<Option<DictEntry>, AppError>)
    requires
        answer_gives(key, answer, r),
    ensures
        answer matches Ok(Some(c)) ==> (r matches Ok(Some(e)) && e.word@ == key && e.phonetic@ == c.0@
            && e.translation@ == unescaped(c.1@) && e.lang_pair@ == c.2@ + seq!['-'] + c.3@),
        answer matches Ok(None) ==> r matches Ok(None),
        answer is Err ==> r matches Err(AppError::Dict(_)),
{
}

/// A lookup ignores whitespace around the word: the word and the word
/// trimmed are looked up under the same key.
pub proof fn lemma_lookup_key_ignores_surrounding_whitespace(word: Seq<char>)
    ensures
        lookup_key(trimmed(word)) == lookup_key(word),
{
    lemma_trimmed_idempotent(word);
}

/// Whether `s` holds a backslash directly followed by `n`.
pub open spec fn has_escaped_newline(s: Seq<char>) -> bool {
    exists|i: int| 0 <= i < s.len() - 1 && #[trigger] s[i] == '\\' && s[i + 1] == 'n'
}

proof fn lemma_unescaped_first(s: Seq<char>)
    ensures
        unescaped(s).len() == 0 <==> s.len() == 0,
        s.len() > 0 ==> unescaped(s)[0] == (if s.len() >= 2 && s[0] == '\\' && s[1] == 'n' {
            '\n'
        } else {
            s[0]
        }),
    decreases s.len(),
{
}

/// Unescaping leaves no backslash-`n` pair behind.
pub proof fn lemma_unescaped_has_no_escaped_newline(s: Seq<char>)
    ensures
        !has_escaped_newline(unescaped(s)),
    decreases s.len(),
{
    if s.len() == 0 {
    } else if s.len() >= 2 && s[0] == '\\' && s[1] == 'n' {
        let rest = s.subrange(2, s.len() as int);
        lemma_unescaped_has_no_escaped_newline(rest);
        let out = unescaped(s);
        assert(out == seq!['\n'] + unescaped(rest));
        assert forall|i: int| 0 <= i < out.len() - 1 && #[trigger] out[i] == '\\' implies out[i + 1] != 'n' by {
            assert(i != 0);
            assert(out[i] == unescaped(rest)[i - 1]);
            assert(out[i + 1] == unescaped(rest)[i]);
        }
    } else {
        let rest = s.drop_first();
        lemma_unescaped_has_no_escaped_newline(rest);
        lemma_unescaped_first(rest);
        let out = unescaped(s);
        assert(out == seq![s[0]] + unescaped(rest));
        assert forall|i: int| 0 <= i < out.len() - 1 && #[trigger] out[i] == '\\' implies out[i + 1] != 'n' by {
            if i == 0 {
                assert(out[1] == unescaped(rest)[0]);
            } else {
                assert(out[i] == unescaped(rest)[i - 1]);
                assert(out[i + 1] == unescaped(rest)[i]);
            }
        }
    }
}

/// A translation without any backslash-`n` pair is returned as it is.
pub proof fn lemma_unescaped_identity(s: Seq<char>)
    requires
        !has_escaped_newline(s),
    ensures
        unescaped(s) == s,
    decreases s.len(),
{
    if s.len() > 0 {
        if s.len() >= 2 && s[0] == '\\' && s[1] == 'n' {
            assert(s[0int] == '\\' && s[0int + 1] == 'n');
        }
        let rest = s.drop_first();
        assert forall|i: int| 0 <= i < rest.len() - 1 && #[trigger] rest[i] == '\\' implies rest[i + 1] != 'n' by {
            assert(s[i + 1] == '\\');
        }
        lemma_unescaped_identity(rest);
        assert(seq![s[0]] + rest =~= s);
    }
}

} // verus!
