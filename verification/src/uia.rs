//! Reading the selection through UI Automation: how the texts of the
//! selected ranges of the focused element become a capture outcome. The
//! COM queries themselves are made by the caller, which reports what
//! they returned as a `UiaReading`.
use vstd::prelude::*;
use vstd::string::*;
use vstd::utf8::{encode_utf8, is_char_boundary, length_of_first_scalar, pop_first_scalar, valid_utf8};
use crate::selection::SelectionOutcome;
use crate::text::{trim_str, trimmed};

verus! {

/// The most text, in UTF-8 bytes, collected from the selected ranges.
/// Defends against providers that return whole-document content when
/// nothing is selected.
pub const MAX_TEXT: usize = 4096;

/// What the UI Automation queries on the focused element returned.
#[derive(Debug, Clone)]
pub enum UiaReading {
    /// UI Automation could not be initialised on this thread.
    Unavailable,
    /// The focused element, its text pattern or its selection could not be read.
    Failed,
    /// The selection's ranges, in order: the text of each range, or `None`
    /// where the range or its text could not be read.
    Ranges(Vec<Option<String>>),
}

/// The byte length of a text, as `str::len` reports it.
pub open spec fn byte_len(s: Seq<char>) -> usize {
    encode_utf8(s).len() as usize
}

/// The range texts collected from index `i` on, onto `acc`: each readable
/// text is appended, until `acc` holds at least `MAX_TEXT` bytes.
pub open spec fn collect_from(pieces: Seq<Option<Seq<char>>>, i: int, acc: Seq<char>) -> Seq<char>
    decreases pieces.len() - i,
{
    if i >= pieces.len() || byte_len(acc) >= MAX_TEXT || i < 0 {
        acc
    } else {
        collect_from(
            pieces,
            i + 1,
            match pieces[i] {
                Some(t) => acc + t,
                None => acc,
            },
        )
    }
}

/// The texts of the ranges as plain values.
pub open spec fn pieces_view(pieces: Seq<Option<String>>) -> Seq<Option<Seq<char>>> {
    pieces.map_values(|p: Option<String>| match p {
        Some(t) => Some(t@),
        None => None,
    })
}

/// The text collected from all the ranges.
pub open spec fn collected(pieces: Seq<Option<String>>) -> Seq<char> {
    collect_from(pieces_view(pieces), 0, Seq::empty())
}

/// `k` is where text longer than `MAX_TEXT` bytes is cut: the last
/// character boundary of its bytes at or before `MAX_TEXT`.
pub open spec fn is_cut_point(bytes: Seq<u8>, k: int) -> bool {
    &&& 0 <= k <= MAX_TEXT
    &&& is_char_boundary(bytes, k)
    &&& forall|j: int| k < j <= MAX_TEXT ==> !is_char_boundary(bytes, j)
}

/// The outcome for a reading: `Unsupported` where UI Automation could not
/// be read, so that the next capture method runs; `NoSelection` for no
/// ranges or only whitespace; otherwise the collected text, cut at the
/// last character boundary at or before `MAX_TEXT` bytes where it is longer.
pub open spec fn outcome_matches(reading: UiaReading, o: SelectionOutcome) -> bool {
    match reading {
        UiaReading::Unavailable => o is Unsupported,
        UiaReading::Failed => o is Unsupported,
        UiaReading::Ranges(pieces) => {
            let text = collected(pieces@);
            if pieces@.len() == 0 || trimmed(text).len() == 0 {
                o is NoSelection
            } else if byte_len(text) > MAX_TEXT {
                o matches SelectionOutcome::Text(t) && MAX_TEXT - 3 <= encode_utf8(t@).len() && exists|k: int|
                    #[trigger] is_cut_point(encode_utf8(text), k) && encode_utf8(t@) == encode_utf8(text).take(k)
            } else {
                o matches SelectionOutcome::Text(t) && t@ == text
            }
        },
    }
}

/// A character is at most four bytes long: of any four consecutive bytes
/// of valid UTF-8, one begins a character.
proof fn lemma_boundary_within_four(bytes: Seq<u8>, i: int)
    requires
        valid_utf8(bytes),
        0 <= i,
        i + 3 < bytes.len(),
    ensures
        exists|j: int| i <= j <= i + 3 && #[trigger] is_char_boundary(bytes, j),
    decreases bytes.len(),
{
    let l = length_of_first_scalar(bytes);
    let rest = pop_first_scalar(bytes);
    assert(1 <= l <= 4 && l <= bytes.len());
    assert(rest.len() == bytes.len() - l);
    if i == 0 {
        assert(is_char_boundary(bytes, 0));
    } else if i >= l {
        lemma_boundary_within_four(rest, i - l);
        let j = choose|j: int| i - l <= j <= i - l + 3 && #[trigger] is_char_boundary(rest, j);
        assert(is_char_boundary(bytes, j + l));
    } else {
        assert(is_char_boundary(rest, 0));
        assert(is_char_boundary(bytes, l));
    }
}

/// Concatenates the readable range texts, stopping once `MAX_TEXT` bytes
/// are collected (see `collected`).
pub fn collect_ranges(pieces: &Vec<Option<String>>) -> (acc: String)
    ensures
        acc@ == collected(pieces@),
{
    let mut acc = String::new();
    let n = pieces.len();
    let ghost pv = pieces_view(pieces@);
    let mut i: usize = 0;
    while i < n
        invariant
            n == pieces.len(),
            pv == pieces_view(pieces@),
            i <= n,
            collect_from(pv, 0, Seq::empty()) == collect_from(pv, i as int, acc@),
        ensures
            collect_from(pv, 0, Seq::empty()) == acc@,
        decreases n - i,
    {
        if acc.as_str().len() >= MAX_TEXT {
            break;
        }
        match &pieces[i] {
            Some(t) => {
                acc.append(t.as_str());
            },
            None => {},
        }
        i = i + 1;
    }
    acc
}

/// Turns what the UI Automation queries returned into the outcome of the
/// method (see `outcome_matches`).
pub fn try_get_selection(reading: UiaReading) -> (o: SelectionOutcome)
    ensures
        outcome_matches(reading, o),
{
    match reading {
        UiaReading::Unavailable => SelectionOutcome::Unsupported,
        UiaReading::Failed => SelectionOutcome::Unsupported,
        UiaReading::Ranges(pieces) => {
            if pieces.len() == 0 {
                return SelectionOutcome::NoSelection;
            }
            let acc = collect_ranges(&pieces);
            if trim_str(acc.as_str()).is_empty() {
                return SelectionOutcome::NoSelection;
            }
            if acc.as_str().len() > MAX_TEXT {
                let ghost bytes = encode_utf8(acc@);
                proof {
                    vstd::utf8::encode_utf8_valid_utf8(acc@);
                    vstd::utf8::is_char_boundary_start_end_of_seq(bytes);
                }
                let mut k: usize = MAX_TEXT;
                while k > 0 && !acc.as_str().is_char_boundary(k)
                    invariant
                        bytes == encode_utf8(acc@),
                        is_char_boundary(bytes, 0),
                        k <= MAX_TEXT,
                        forall|j: int| k < j <= MAX_TEXT ==> !is_char_boundary(bytes, j),
                    decreases k,
                {
                    k = k - 1;
                }
                proof {
                    lemma_boundary_within_four(bytes, MAX_TEXT - 3);
                }
                let (head, _) = acc.as_str().split_at(k);
                let t = head.to_owned();
                assert(is_cut_point(bytes, k as int));
                assert(encode_utf8(t@) =~= bytes.take(k as int));
                SelectionOutcome::Text(t)
            } else {
                SelectionOutcome::Text(acc)
            }
        },
    }
}

/// The text a reading yields is at most `MAX_TEXT` bytes long, however
/// much the provider returned.
pub proof fn lemma_selection_within_limit(reading: UiaReading, o: SelectionOutcome)
    requires
        outcome_matches(reading, o),
    ensures
        o matches SelectionOutcome::Text(t) ==> byte_len(t@) <= MAX_TEXT,
{
    if let UiaReading::Ranges(pieces) = reading {
        let text = collected(pieces@);
        if let SelectionOutcome::Text(t) = o {
            if pieces@.len() != 0 && trimmed(text).len() != 0 && byte_len(text) > MAX_TEXT {
                assert(encode_utf8(text).len() >= MAX_TEXT);
                let k = choose|k: int| #[trigger] is_cut_point(encode_utf8(text), k) && encode_utf8(t@) == encode_utf8(text).take(k);
                assert(encode_utf8(t@).len() == k);
            }
        }
    }
}

} // verus!
