//! Which captured selections are worth a dictionary lookup.
use vstd::prelude::*;
use vstd::utf8::encode_utf8;
use crate::text::{chars_of, lemma_trimmed_idempotent, trim_str, trimmed};

verus! {

/// What one capture method found at the cursor.
#[derive(Debug, Clone)]
pub enum SelectionOutcome {
    /// Selected text.
    Text(String),
    /// The method works here, and nothing is selected.
    NoSelection,
    /// The method cannot read a selection here; the next method may.
    Unsupported,
}

/// Unicode general category `Cc`, the set that `char::is_control` accepts.
pub open spec fn is_control_char(c: char) -> bool {
    c <= '\u{1f}' || ('\u{7f}' <= c && c <= '\u{9f}')
}

/// An ASCII letter.
pub open spec fn is_ascii_letter(c: char) -> bool {
    ('A' <= c && c <= 'Z') || ('a' <= c && c <= 'z')
}

/// An ASCII digit.
pub open spec fn is_ascii_digit_char(c: char) -> bool {
    '0' <= c && c <= '9'
}

/// A character that may appear in a looked-up word or phrase: an ASCII
/// letter or digit, a hyphen, an apostrophe or a space.
pub open spec fn is_word_char(c: char) -> bool {
    is_ascii_letter(c) || is_ascii_digit_char(c) || c == '-' || c == '\'' || c == ' '
}

/// The longest accepted selection, in UTF-8 bytes.
pub const MAX_SELECTION_BYTES: usize = 64;

/// A selection is accepted when, once trimmed, it is non-empty, at most
/// 64 bytes long, free of control characters, holds an ASCII letter, and
/// holds nothing but ASCII letters, digits, `-`, `'` and spaces.
pub open spec fn acceptable(s: Seq<char>) -> bool {
    let t = trimmed(s);
    &&& t.len() > 0
    &&& encode_utf8(t).len() <= MAX_SELECTION_BYTES
    &&& forall|i: int| 0 <= i < t.len() ==> !is_control_char(#[trigger] t[i])
    &&& exists|i: int| 0 <= i < t.len() && is_ascii_letter(#[trigger] t[i])
    &&& forall|i: int| 0 <= i < t.len() ==> is_word_char(#[trigger] t[i])
}

/// Whether the captured text `s` is worth looking up (see `acceptable`).
#[verifier::loop_isolation(false)]
pub fn is_acceptable_selection(s: &str) -> (ok: bool)
    ensures
        ok == acceptable(s@),
{
    let t = trim_str(s);
    if t.is_empty() || t.len() > MAX_SELECTION_BYTES {
        return false;
    }
    let v = chars_of(t);
    let n = v.len();
    let mut i: usize = 0;
    while i < n
        invariant
            v@ == t@,
            t@ == trimmed(s@),
            n == v.len(),
            i <= n,
            forall|k: int| 0 <= k < i ==> !is_control_char(#[trigger] v@[k]),
        decreases n - i,
    {
        let c = v[i];
        if c <= '\u{1f}' || ('\u{7f}' <= c && c <= '\u{9f}') {
            assert(is_control_char(t@[i as int]));
            return false;
        }
        i = i + 1;
    }
    let mut has_letter = false;
    let mut j: usize = 0;
    while j < n
        invariant
            v@ == t@,
            t@ == trimmed(s@),
            n == v.len(),
            j <= n,
            has_letter <==> exists|k: int| 0 <= k < j && is_ascii_letter(#[trigger] v@[k]),
        decreases n - j,
    {
        let c = v[j];
        if ('A' <= c && c <= 'Z') || ('a' <= c && c <= 'z') {
            has_letter = true;
        }
        j = j + 1;
    }
    if !has_letter {
        assert(!exists|k: int| 0 <= k < t@.len() && is_ascii_letter(#[trigger] t@[k]));
        return false;
    }
    let ghost w = choose|k: int| 0 <= k < j && is_ascii_letter(#[trigger] v@[k]);
    let mut m: usize = 0;
    while m < n
        invariant
            v@ == t@,
            t@ == trimmed(s@),
            n == v.len(),
            m <= n,
            forall|k: int| 0 <= k < m ==> is_word_char(#[trigger] v@[k]),
        decreases n - m,
    {
        let c = v[m];
        let letter = ('A' <= c && c <= 'Z') || ('a' <= c && c <= 'z');
        let digit = '0' <= c && c <= '9';
        if !(letter || digit || c == '-' || c == '\'' || c == ' ') {
            assert(!is_word_char(t@[m as int]));
            return false;
        }
        m = m + 1;
    }
    assert(is_ascii_letter(t@[w]));
    assert(t@.len() > 0);
    proof {
        assert forall|k: int| 0 <= k < t@.len() implies '\0' <= #[trigger] t@[k] <= '\u{7f}' by {
            assert(is_word_char(t@[k]));
        }
        assert(vstd::utf8::is_ascii_chars(t@));
        vstd::utf8::is_ascii_chars_encode_utf8(t@);
    }
    true
}

/// Surrounding whitespace does not change whether a selection is accepted.
pub proof fn lemma_acceptable_ignores_surrounding_whitespace(s: Seq<char>)
    ensures
        acceptable(trimmed(s)) == acceptable(s),
{
    lemma_trimmed_idempotent(s);
}

/// An accepted selection, once trimmed, is plain ASCII of 1 to 64
/// characters that holds a letter.
pub proof fn lemma_accepted_is_short_ascii(s: Seq<char>)
    requires
        acceptable(s),
    ensures
        vstd::utf8::is_ascii_chars(trimmed(s)),
        1 <= trimmed(s).len() <= MAX_SELECTION_BYTES,
{
    let t = trimmed(s);
    assert forall|k: int| 0 <= k < t.len() implies '\0' <= #[trigger] t[k] <= '\u{7f}' by {
        assert(is_word_char(t[k]));
    }
    vstd::utf8::is_ascii_chars_encode_utf8(t);
}

/// Which selections are accepted, character by character: once trimmed,
/// exactly the texts of 1 to 64 characters, each an ASCII letter of either
/// case, an ASCII digit, `-`, `'` or a space, with at least one letter.
pub proof fn lemma_acceptable_characterised(s: Seq<char>)
    ensures
        acceptable(s) <==> {
            let t = trimmed(s);
            &&& 1 <= t.len() <= 64
            &&& forall|i: int| 0 <= i < t.len() ==> ('a' <= #[trigger] t[i] <= 'z' || 'A' <= t[i] <= 'Z'
                || '0' <= t[i] <= '9' || t[i] == '-' || t[i] == '\'' || t[i] == ' ')
            &&& exists|i: int| 0 <= i < t.len() && ('a' <= #[trigger] t[i] <= 'z' || 'A' <= t[i] <= 'Z')
        },
{
    let t = trimmed(s);
    let shape = {
        &&& 1 <= t.len() <= 64
        &&& forall|i: int| 0 <= i < t.len() ==> ('a' <= #[trigger] t[i] <= 'z' || 'A' <= t[i] <= 'Z'
            || '0' <= t[i] <= '9' || t[i] == '-' || t[i] == '\'' || t[i] == ' ')
        &&& exists|i: int| 0 <= i < t.len() && ('a' <= #[trigger] t[i] <= 'z' || 'A' <= t[i] <= 'Z')
    };
    if acceptable(s) {
        lemma_accepted_is_short_ascii(s);
        assert forall|i: int| 0 <= i < t.len() implies ('a' <= #[trigger] t[i] <= 'z' || 'A' <= t[i] <= 'Z'
            || '0' <= t[i] <= '9' || t[i] == '-' || t[i] == '\'' || t[i] == ' ') by {
            assert(is_word_char(t[i]));
        }
        let w = choose|i: int| 0 <= i < t.len() && is_ascii_letter(#[trigger] t[i]);
        assert('a' <= t[w] <= 'z' || 'A' <= t[w] <= 'Z');
    }
    if shape {
        assert forall|i: int| 0 <= i < t.len() implies '\0' <= #[trigger] t[i] <= '\u{7f}' by {
            assert('a' <= t[i] <= 'z' || 'A' <= t[i] <= 'Z' || '0' <= t[i] <= '9' || t[i] == '-' || t[i]
                == '\'' || t[i] == ' ');
        }
        vstd::utf8::is_ascii_chars_encode_utf8(t);
        assert forall|i: int| 0 <= i < t.len() implies !is_control_char(#[trigger] t[i]) && is_word_char(t[i]) by {
            assert('a' <= t[i] <= 'z' || 'A' <= t[i] <= 'Z' || '0' <= t[i] <= '9' || t[i] == '-' || t[i]
                == '\'' || t[i] == ' ');
        }
        let w = choose|i: int| 0 <= i < t.len() && ('a' <= #[trigger] t[i] <= 'z' || 'A' <= t[i] <= 'Z');
        assert(is_ascii_letter(t[w]));
    }
}

} // verus!
