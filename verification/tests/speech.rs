use meiqiu_dict::commands::{accent_of, TtsAccent};
use meiqiu_dict::error::AppError;
use meiqiu_dict::tts::{escape_xml, lang_tag, speech_text, ssml_request, Accent};

#[test]
fn escape_xml_replaces_the_five_specials() {
    assert_eq!(escape_xml("a & b < c > d \" e ' f"), "a &amp; b &lt; c &gt; d &quot; e &apos; f");
    assert_eq!(escape_xml("&amp;"), "&amp;amp;");
    assert_eq!(escape_xml("plain"), "plain");
    assert_eq!(escape_xml(""), "");
}

#[test]
fn escaped_text_holds_no_markup() {
    let out = escape_xml("<speak>'x'\"y\"</speak>");
    assert!(!out.contains('<') && !out.contains('>') && !out.contains('"') && !out.contains('\''));
}

#[test]
fn ssml_wraps_trimmed_escaped_text() {
    let doc = ssml_request("  Tom & Jerry \n", Accent::EnGb).unwrap();
    assert_eq!(doc, "<speak version=\"1.0\" xml:lang=\"en-GB\">Tom &amp; Jerry</speak>");
    let doc = ssml_request("hello", accent_of(TtsAccent::EnUs)).unwrap();
    assert_eq!(doc, "<speak version=\"1.0\" xml:lang=\"en-US\">hello</speak>");
}

#[test]
fn empty_speech_is_refused() {
    match speech_text("  \t ") {
        Err(AppError::Other(m)) => assert_eq!(m, "tts text is empty"),
        other => panic!("unexpected {other:?}"),
    }
    match ssml_request("", Accent::EnUs) {
        Err(AppError::Other(m)) => assert_eq!(m, "tts text is empty"),
        other => panic!("unexpected {other:?}"),
    }
    assert_eq!(speech_text(" hi ").unwrap(), "hi");
}

#[test]
fn accents_map_to_language_tags() {
    assert_eq!(accent_of(TtsAccent::EnUs), Accent::EnUs);
    assert_eq!(accent_of(TtsAccent::EnGb), Accent::EnGb);
    assert_eq!(lang_tag(Accent::EnUs), "en-US");
    assert_eq!(lang_tag(Accent::EnGb), "en-GB");
}

#[test]
fn escaping_example() {
    assert_eq!(escape_xml("a<b & 'c'"), "a&lt;b &amp; &apos;c&apos;");
}
