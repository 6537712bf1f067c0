//! What is handed to the speech engine: the trimmed text, or an SSML
//! document that selects the accent.
use vstd::prelude::*;
use vstd::string::*;
use crate::error::AppError;
use crate::text::{chars_of, trim_str, trimmed};

verus! {

/// The accent to speak with.
#[derive(Debug, Clone, Copy, PartialEq, Eq, Structural)]
pub enum Accent {
    EnUs,
    EnGb,
}

/// The XML escape of one character: the five XML special characters
/// become entities, every other character stays.
pub open spec fn xml_escaped_char(c: char) -> Seq<char> {
    if c == '&' {
        seq!['&', 'a', 'm', 'p', ';']
    } else if c == '<' {
        seq!['&', 'l', 't', ';']
    } else if c == '>' {
        seq!['&', 'g', 't', ';']
    } else if c == '"' {
        seq!['&', 'q', 'u', 'o', 't', ';']
    } else if c == '\'' {
        seq!['&', 'a', 'p', 'o', 's', ';']
    } else {
        seq![c]
    }
}

/// Each character of `s` replaced by its XML escape.
pub open spec fn xml_escaped(s: Seq<char>) -> Seq<char>
    decreases s.len(),
{
    if s.len() == 0 {
        s
    } else {
        xml_escaped(s.drop_last()) + xml_escaped_char(s.last())
    }
}

/// `text` with `&`, `<`, `>`, `"` and `'` replaced by their XML entities
/// (see `xml_escaped`).
pub fn escape_xml(text: &str) -> (out: String)
    ensures
        out@ == xml_escaped(text@),
{
    let v = chars_of(text);
    let n = v.len();
    let mut out = String::new();
    for i in 0..n
        invariant
            n == v.len(),
            v@ == text@,
            out@ == xml_escaped(v@.take(i as int)),
    {
        let c = v[i];
        assert(v@.take(i + 1).drop_last() =~= v@.take(i as int));
        let ghost before = out@;
        if c == '&' {
            out.append("&amp;");
            proof { reveal_strlit("&amp;"); }
        } else if c == '<' {
            out.append("&lt;");
            proof { reveal_strlit("&lt;"); }
        } else if c == '>' {
            out.append("&gt;");
            proof { reveal_strlit("&gt;"); }
        } else if c == '"' {
            out.append("&quot;");
            proof { reveal_strlit("&quot;"); }
        } else if c == '\'' {
            out.append("&apos;");
            proof { reveal_strlit("&apos;"); }
        } else {
            crate::text::push_char(&mut out, c);
        }
        assert(out@ =~= before + xml_escaped_char(c));
    }
    assert(v@.take(n as int) =~= v@);
    out
}

/// The message of the error that empty speech text gives.
pub open spec fn empty_text_message() -> Seq<char> {
    "tts text is empty"@
}

/// The text to speak: `text` trimmed, or an `Other` error where nothing
/// is left after trimming.
pub fn speech_text(text: &str) -> (r: Result<&str, AppError>)
    ensures
        trimmed(text@).len() == 0 <==> r is Err,
        r matches Ok(t) ==> t@ == trimmed(text@),
        r matches Err(e) ==> e matches AppError::Other(m) && m@ == empty_text_message(),
{
    let plain = trim_str(text);
    if plain.is_empty() {
        return Err(AppError::Other(String::from_str("tts text is empty")));
    }
    Ok(plain)
}

/// The `xml:lang` tag of an accent.
pub open spec fn lang_tag_of(accent: Accent) -> Seq<char> {
    match accent {
        Accent::EnUs => "en-US"@,
        Accent::EnGb => "en-GB"@,
    }
}

/// The `xml:lang` tag of an accent: `en-US` or `en-GB`.
pub fn lang_tag(accent: Accent) -> (tag: &'static str)
    ensures
        tag@ == lang_tag_of(accent),
{
    match accent {
        Accent::EnUs => "en-US",
        Accent::EnGb => "en-GB",
    }
}

/// The SSML document that speaks `body` (already XML-escaped) in `lang`.
pub open spec fn ssml_of(lang: Seq<char>, body: Seq<char>) -> Seq<char> {
    "<speak version=\"1.0\" xml:lang=\""@ + lang + "\">"@ + body + "</speak>"@
}

/// The SSML document for speaking `text` with `accent`: the trimmed text,
/// XML-escaped, inside a `speak` element whose `xml:lang` names the
/// accent. Empty text is refused as `speech_text` refuses it.
pub fn ssml_request(text: &str, accent: Accent) -> (r: Result<String, AppError>)
    ensures
        trimmed(text@).len() == 0 <==> r is Err,
        r matches Ok(doc) ==> doc@ == ssml_of(lang_tag_of(accent), xml_escaped(trimmed(text@))),
        r matches Err(e) ==> e matches AppError::Other(m) && m@ == empty_text_message(),
{
    let plain = match speech_text(text) {
        Ok(p) => p,
        Err(e) => return Err(e),
    };
    let lang = lang_tag(accent);
    let escaped = escape_xml(plain);
    let mut doc = String::from_str("<speak version=\"1.0\" xml:lang=\"");
    doc.append(lang);
    doc.append("\">");
    doc.append(escaped.as_str());
    doc.append("</speak>");
    Ok(doc)
}

/// Whether `c` must not appear raw inside SSML text.
pub open spec fn is_markup_char(c: char) -> bool {
    c == '<' || c == '>' || c == '"' || c == '\''
}

/// Escaped text holds none of `<`, `>`, `"` and `'`, so it cannot break out
/// of the `speak` element it is put in.
pub proof fn lemma_escaped_has_no_markup(s: Seq<char>)
    ensures
        forall|i: int| 0 <= i < xml_escaped(s).len() ==> !is_markup_char(#[trigger] xml_escaped(s)[i]),
    decreases s.len(),
{
    if s.len() > 0 {
        lemma_escaped_has_no_markup(s.drop_last());
        let a = xml_escaped(s.drop_last());
        let b = xml_escaped_char(s.last());
        assert forall|i: int| 0 <= i < xml_escaped(s).len() implies !is_markup_char(#[trigger] xml_escaped(s)[i]) by {
            if i < a.len() {
                assert(xml_escaped(s)[i] == a[i]);
            } else {
                assert(xml_escaped(s)[i] == b[i - a.len()]);
            }
        }
    }
}

/// Text with no character to escape is left as it is.
pub proof fn lemma_escape_identity(s: Seq<char>)
    requires
        forall|i: int| 0 <= i < s.len() ==> !is_markup_char(#[trigger] s[i]) && s[i] != '&',
    ensures
        xml_escaped(s) == s,
    decreases s.len(),
{
    if s.len() > 0 {
        assert(!is_markup_char(s[s.len() - 1]) && s[s.len() - 1] != '&');
        lemma_escape_identity(s.drop_last());
        assert(s.drop_last() + seq![s.last()] =~= s);
    }
}

/// `xml_escaped` of two texts one after the other is the two escapes one
/// after the other.
pub proof fn lemma_escape_concat(a: Seq<char>, b: Seq<char>)
    ensures
        xml_escaped(a + b) == xml_escaped(a) + xml_escaped(b),
    decreases b.len(),
{
    if b.len() == 0 {
        assert(a + b =~= a);
        assert(xml_escaped(a) + xml_escaped(b) =~= xml_escaped(a));
    } else {
        assert((a + b).drop_last() =~= a + b.drop_last());
        assert((a + b).last() == b.last());
        lemma_escape_concat(a, b.drop_last());
        assert(xml_escaped(a) + xml_escaped(b.drop_last()) + xml_escaped_char(b.last()) =~= xml_escaped(a)
            + (xml_escaped(b.drop_last()) + xml_escaped_char(b.last())));
    }
}

/// Whether the entity `e` is written in `s` starting at index `i`.
pub open spec fn entity_at(s: Seq<char>, i: int, e: Seq<char>) -> bool {
    0 <= i && i + e.len() <= s.len() && s.subrange(i, i + e.len()) == e
}

/// Whether one of the five XML entities starts at index `i` of `s`.
pub open spec fn starts_entity(s: Seq<char>, i: int) -> bool {
    ||| entity_at(s, i, xml_escaped_char('&'))
    ||| entity_at(s, i, xml_escaped_char('<'))
    ||| entity_at(s, i, xml_escaped_char('>'))
    ||| entity_at(s, i, xml_escaped_char('"'))
    ||| entity_at(s, i, xml_escaped_char('\''))
}

/// Every `&` of an escaped text begins one of the five entities.
pub proof fn lemma_escaped_ampersands_begin_entities(s: Seq<char>)
    ensures
        forall|i: int| 0 <= i < xml_escaped(s).len() && #[trigger] xml_escaped(s)[i] == '&' ==> starts_entity(xml_escaped(s), i),
    decreases s.len(),
{
    if s.len() > 0 {
        let a = xml_escaped(s.drop_last());
        let b = xml_escaped_char(s.last());
        let out = xml_escaped(s);
        lemma_escaped_ampersands_begin_entities(s.drop_last());
        assert(out == a + b);
        assert forall|i: int| 0 <= i < out.len() && #[trigger] out[i] == '&' implies starts_entity(out, i) by {
            if i < a.len() {
                assert(a[i] == '&');
                assert(starts_entity(a, i));
                if entity_at(a, i, xml_escaped_char('&')) {
                    assert(out.subrange(i, i + 5) =~= a.subrange(i, i + 5));
                } else if entity_at(a, i, xml_escaped_char('<')) {
                    assert(out.subrange(i, i + 4) =~= a.subrange(i, i + 4));
                } else if entity_at(a, i, xml_escaped_char('>')) {
                    assert(out.subrange(i, i + 4) =~= a.subrange(i, i + 4));
                } else if entity_at(a, i, xml_escaped_char('"')) {
                    assert(out.subrange(i, i + 6) =~= a.subrange(i, i + 6));
                } else {
                    assert(out.subrange(i, i + 6) =~= a.subrange(i, i + 6));
                }
            } else {
                let c = s.last();
                assert(out[i] == b[i - a.len()]);
                assert(i == a.len());
                assert(out.subrange(i, i + b.len()) =~= b);
            }
        }
    }
}

/// Decodes the five XML entities back to their characters, reading left to
/// right; every other character stays.
pub open spec fn xml_decoded(s: Seq<char>) -> Seq<char>
    decreases s.len(),
{
    if s.len() == 0 {
        s
    } else if entity_at(s, 0, xml_escaped_char('&')) {
        seq!['&'] + xml_decoded(s.subrange(5, s.len() as int))
    } else if entity_at(s, 0, xml_escaped_char('<')) {
        seq!['<'] + xml_decoded(s.subrange(4, s.len() as int))
    } else if entity_at(s, 0, xml_escaped_char('>')) {
        seq!['>'] + xml_decoded(s.subrange(4, s.len() as int))
    } else if entity_at(s, 0, xml_escaped_char('"')) {
        seq!['"'] + xml_decoded(s.subrange(6, s.len() as int))
    } else if entity_at(s, 0, xml_escaped_char('\'')) {
        seq!['\''] + xml_decoded(s.subrange(6, s.len() as int))
    } else {
        seq![s[0]] + xml_decoded(s.drop_first())
    }
}

proof fn lemma_decode_escaped_char(c: char, rest: Seq<char>)
    ensures
        xml_decoded(xml_escaped_char(c) + rest) == seq![c] + xml_decoded(rest),
{
    let e = xml_escaped_char(c);
    let s = e + rest;
    assert(s.subrange(e.len() as int, s.len() as int) =~= rest);
    assert(s.subrange(0, e.len() as int) =~= e);
    if c == '&' {
    } else if c == '<' {
        assert(s[1] == 'l');
        assert(!entity_at(s, 0, xml_escaped_char('&'))) by {
            if s.len() >= 5 { assert(s.subrange(0, 5)[1] == 'l'); }
        }
    } else if c == '>' {
        assert(s[1] == 'g');
        assert(!entity_at(s, 0, xml_escaped_char('&'))) by {
            if s.len() >= 5 { assert(s.subrange(0, 5)[1] == 'g'); }
        }
        assert(!entity_at(s, 0, xml_escaped_char('<'))) by {
            assert(s.subrange(0, 4)[1] == 'g');
        }
    } else if c == '"' {
        assert(s[1] == 'q');
        assert(!entity_at(s, 0, xml_escaped_char('&'))) by {
            assert(s.subrange(0, 5)[1] == 'q');
        }
        assert(!entity_at(s, 0, xml_escaped_char('<'))) by {
            assert(s.subrange(0, 4)[1] == 'q');
        }
        assert(!entity_at(s, 0, xml_escaped_char('>'))) by {
            assert(s.subrange(0, 4)[1] == 'q');
        }
    } else if c == '\'' {
        assert(s[1] == 'a' && s[2] == 'p');
        assert(!entity_at(s, 0, xml_escaped_char('&'))) by {
            assert(s.subrange(0, 5)[2] == 'p');
        }
        assert(!entity_at(s, 0, xml_escaped_char('<'))) by {
            assert(s.subrange(0, 4)[1] == 'a');
        }
        assert(!entity_at(s, 0, xml_escaped_char('>'))) by {
            assert(s.subrange(0, 4)[1] == 'a');
        }
        assert(!entity_at(s, 0, xml_escaped_char('"'))) by {
            assert(s.subrange(0, 6)[1] == 'a');
        }
    } else {
        assert(s[0] == c);
        assert(!entity_at(s, 0, xml_escaped_char('&'))) by {
            if s.len() >= 5 { assert(s.subrange(0, 5)[0] == c); }
        }
        assert(!entity_at(s, 0, xml_escaped_char('<'))) by {
            if s.len() >= 4 { assert(s.subrange(0, 4)[0] == c); }
        }
        assert(!entity_at(s, 0, xml_escaped_char('>'))) by {
            if s.len() >= 4 { assert(s.subrange(0, 4)[0] == c); }
        }
        assert(!entity_at(s, 0, xml_escaped_char('"'))) by {
            if s.len() >= 6 { assert(s.subrange(0, 6)[0] == c); }
        }
        assert(!entity_at(s, 0, xml_escaped_char('\''))) by {
            if s.len() >= 6 { assert(s.subrange(0, 6)[0] == c); }
        }
        assert(s.drop_first() =~= rest);
    }
}

/// Decoding the entities of an escaped text gives the text back.
pub proof fn lemma_decode_escaped(s: Seq<char>)
    ensures
        xml_decoded(xml_escaped(s)) == s,
    decreases s.len(),
{
    if s.len() > 0 {
        let rest = s.drop_first();
        assert(seq![s[0]] + rest =~= s);
        lemma_escape_concat(seq![s[0]], rest);
        let one = seq![s[0]];
        assert(one.drop_last() =~= Seq::<char>::empty());
        assert(one.last() == s[0]);
        assert(xml_escaped(one.drop_last()) == one.drop_last());
        assert(xml_escaped(one) == xml_escaped(one.drop_last()) + xml_escaped_char(s[0]));
        assert(xml_escaped(one) =~= xml_escaped_char(s[0]));
        lemma_decode_escaped_char(s[0], xml_escaped(rest));
        lemma_decode_escaped(rest);
    }
}

} // verus!
