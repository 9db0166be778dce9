//! Speech-markup construction with verified escaping contracts.
//!
//! The document layout is fixed: one root element declaring the synthesis
//! namespace and language, one voice element, one prosody element, and the
//! caller's text as character data.  Attribute values and character data are
//! escaped by the `xml` crate; the exact character-for-character effect of the
//! two escaping routines is stated here and proved invertible.

use vstd::prelude::*;

verus! {

/// Replacement for one character in XML attribute context.
pub open spec fn escape_attr_char(c: char) -> Seq<char> {
    if c == '<' {
        seq!['&', 'l', 't', ';']
    } else if c == '>' {
        seq!['&', 'g', 't', ';']
    } else if c == '"' {
        seq!['&', 'q', 'u', 'o', 't', ';']
    } else if c == '\'' {
        seq!['&', 'a', 'p', 'o', 's', ';']
    } else if c == '&' {
        seq!['&', 'a', 'm', 'p', ';']
    } else if c == '\n' {
        seq!['&', '#', 'x', 'A', ';']
    } else if c == '\r' {
        seq!['&', '#', 'x', 'D', ';']
    } else {
        seq![c]
    }
}

/// Attribute-context escaping of a whole string.
pub open spec fn escape_attr_chars(s: Seq<char>) -> Seq<char>
    decreases s.len(),
{
    if s.len() == 0 {
        Seq::empty()
    } else {
        escape_attr_char(s[0]) + escape_attr_chars(s.drop_first())
    }
}

/// Replacement for one character in XML character-data context.
pub open spec fn escape_pcdata_char(c: char) -> Seq<char> {
    if c == '<' {
        seq!['&', 'l', 't', ';']
    } else if c == '>' {
        seq!['&', 'g', 't', ';']
    } else if c == '&' {
        seq!['&', 'a', 'm', 'p', ';']
    } else {
        seq![c]
    }
}

/// Character-data escaping of a whole string.
pub open spec fn escape_pcdata_chars(s: Seq<char>) -> Seq<char>
    decreases s.len(),
{
    if s.len() == 0 {
        Seq::empty()
    } else {
        escape_pcdata_char(s[0]) + escape_pcdata_chars(s.drop_first())
    }
}

/// Relies on xml::escape::escape_str_attribute: replaces `<`, `>`, `"`, `'`,
/// `&`, `\n` and `\r` with their entities and keeps every other character.
#[verifier::external_body]
fn xml_escape_attribute(s: &str) -> (r: String)
    ensures
        r@ == escape_attr_chars(s@),
{
    xml::escape::escape_str_attribute(s).into_owned()
}

/// Relies on xml::escape::escape_str_pcdata: replaces `<`, `>` and `&` with
/// their entities and keeps every other character.
#[verifier::external_body]
fn xml_escape_pcdata(s: &str) -> (r: String)
    ensures
        r@ == escape_pcdata_chars(s@),
{
    xml::escape::escape_str_pcdata(s).into_owned()
}

/// The complete markup document for one synthesis request.
pub open spec fn ssml_chars(
    text: Seq<char>,
    voice: Seq<char>,
    pitch: Seq<char>,
    rate: Seq<char>,
    volume: Seq<char>,
) -> Seq<char> {
    "<speak version=\"1.0\" xmlns=\"http://www.w3.org/2001/10/synthesis\" xmlns:mstts=\"https://www.w3.org/2001/mstts\" xml:lang=\"en-US\"><voice name=\""@
        + escape_attr_chars(voice) + "\"><prosody pitch=\""@ + escape_attr_chars(pitch)
        + "\" rate=\""@ + escape_attr_chars(rate) + "\" volume=\""@ + escape_attr_chars(volume)
        + "\">"@ + escape_pcdata_chars(text) + "</prosody></voice></speak>"@
}

/// Builds the markup document: a fixed skeleton around the escaped voice
/// name, prosody attributes and text content.
pub fn build_ssml(text: &str, voice_short_name: &str, pitch: &str, rate: &str, volume: &str) -> (r:
    String)
    ensures
        r@ == ssml_chars(text@, voice_short_name@, pitch@, rate@, volume@),
{
    let mut s = String::from_str(
        "<speak version=\"1.0\" xmlns=\"http://www.w3.org/2001/10/synthesis\" xmlns:mstts=\"https://www.w3.org/2001/mstts\" xml:lang=\"en-US\"><voice name=\"",
    );
    s.append(xml_escape_attribute(voice_short_name).as_str());
    s.append("\"><prosody pitch=\"");
    s.append(xml_escape_attribute(pitch).as_str());
    s.append("\" rate=\"");
    s.append(xml_escape_attribute(rate).as_str());
    s.append("\" volume=\"");
    s.append(xml_escape_attribute(volume).as_str());
    s.append("\">");
    s.append(xml_escape_pcdata(text).as_str());
    s.append("</prosody></voice></speak>");
    s
}

/// Undoes character-data escaping: each entity written by
/// [`escape_pcdata_chars`] becomes its character again.
pub open spec fn unescape_pcdata_chars(s: Seq<char>) -> Seq<char>
    decreases s.len(),
{
    if s.len() == 0 {
        Seq::empty()
    } else if s.len() >= 4 && s.subrange(0, 4) == seq!['&', 'l', 't', ';'] {
        seq!['<'] + unescape_pcdata_chars(s.skip(4))
    } else if s.len() >= 4 && s.subrange(0, 4) == seq!['&', 'g', 't', ';'] {
        seq!['>'] + unescape_pcdata_chars(s.skip(4))
    } else if s.len() >= 5 && s.subrange(0, 5) == seq!['&', 'a', 'm', 'p', ';'] {
        seq!['&'] + unescape_pcdata_chars(s.skip(5))
    } else {
        seq![s[0]] + unescape_pcdata_chars(s.skip(1))
    }
}

/// Escaped character data never contains a raw `<` or a raw `&` outside an
/// entity start, so the document stays well-formed for any input text; here
/// the load-bearing half: no `<` survives escaping.
pub proof fn lemma_escape_pcdata_no_lt(s: Seq<char>)
    ensures
        forall|i: int|
            0 <= i < escape_pcdata_chars(s).len() ==> escape_pcdata_chars(s)[i] != '<',
    decreases s.len(),
{
    if s.len() > 0 {
        lemma_escape_pcdata_no_lt(s.drop_first());
        let head = escape_pcdata_char(s[0]);
        let tail = escape_pcdata_chars(s.drop_first());
        assert forall|i: int| 0 <= i < escape_pcdata_chars(s).len() implies escape_pcdata_chars(
            s,
        )[i] != '<' by {
            if i < head.len() {
                assert(escape_pcdata_chars(s)[i] == head[i]);
            } else {
                assert(escape_pcdata_chars(s)[i] == tail[i - head.len()]);
            }
        }
    }
}

/// Unescaping the escaped character data gives back the original text:
/// the element content of the built document, read back, is the input.
pub proof fn lemma_escape_pcdata_roundtrip(s: Seq<char>)
    ensures
        unescape_pcdata_chars(escape_pcdata_chars(s)) == s,
    decreases s.len(),
{
    if s.len() > 0 {
        lemma_escape_pcdata_roundtrip(s.drop_first());
        let c = s[0];
        let e = escape_pcdata_chars(s);
        let head = escape_pcdata_char(c);
        let tail = escape_pcdata_chars(s.drop_first());
        assert(e == head + tail);
        assert(e.len() >= head.len());
        assert(forall|i: int| 0 <= i < head.len() ==> e[i] == head[i]);
        if c == '<' || c == '>' {
            assert(e.subrange(0, 4) =~= head);
            if e.len() >= 4 && e.subrange(0, 4) == seq!['&', 'l', 't', ';'] {
                assert(e.skip(4) =~= tail);
                assert(unescape_pcdata_chars(e) == seq!['<'] + s.drop_first());
            } else {
                assert(e.subrange(0, 4) == seq!['&', 'g', 't', ';']);
                assert(e.skip(4) =~= tail);
                assert(unescape_pcdata_chars(e) == seq!['>'] + s.drop_first());
            }
            assert(unescape_pcdata_chars(e) =~= s);
        } else if c == '&' {
            assert(e.subrange(0, 5) =~= head);
            assert(e[1] == 'a');
            assert(e.len() >= 4 && e.subrange(0, 4) == seq!['&', 'l', 't', ';'] ==> false) by {
                if e.len() >= 4 && e.subrange(0, 4) == seq!['&', 'l', 't', ';'] {
                    assert(e.subrange(0, 4)[1] == 'l');
                }
            }
            assert(e.len() >= 4 && e.subrange(0, 4) == seq!['&', 'g', 't', ';'] ==> false) by {
                if e.len() >= 4 && e.subrange(0, 4) == seq!['&', 'g', 't', ';'] {
                    assert(e.subrange(0, 4)[1] == 'g');
                }
            }
            assert(e.skip(5) =~= tail);
            assert(unescape_pcdata_chars(e) == seq!['&'] + s.drop_first());
            assert(unescape_pcdata_chars(e) =~= s);
        } else {
            assert(e[0] == c);
            assert(c != '&');
            assert(e.len() >= 4 && e.subrange(0, 4) == seq!['&', 'l', 't', ';'] ==> false) by {
                if e.len() >= 4 && e.subrange(0, 4) == seq!['&', 'l', 't', ';'] {
                    assert(e.subrange(0, 4)[0] == '&');
                }
            }
            assert(e.len() >= 4 && e.subrange(0, 4) == seq!['&', 'g', 't', ';'] ==> false) by {
                if e.len() >= 4 && e.subrange(0, 4) == seq!['&', 'g', 't', ';'] {
                    assert(e.subrange(0, 4)[0] == '&');
                }
            }
            assert(e.len() >= 5 && e.subrange(0, 5) == seq!['&', 'a', 'm', 'p', ';'] ==> false)
                by {
                if e.len() >= 5 && e.subrange(0, 5) == seq!['&', 'a', 'm', 'p', ';'] {
                    assert(e.subrange(0, 5)[0] == '&');
                }
            }
            assert(e.skip(1) =~= tail);
            assert(unescape_pcdata_chars(e) == seq![c] + s.drop_first());
            assert(unescape_pcdata_chars(e) =~= s);
        }
    }
}

/// Undoes attribute escaping: each entity written by [`escape_attr_chars`]
/// becomes its character again.
pub open spec fn unescape_attr_chars(s: Seq<char>) -> Seq<char>
    decreases s.len(),
{
    if s.len() == 0 {
        Seq::empty()
    } else if s.len() >= 4 && s.subrange(0, 4) == seq!['&', 'l', 't', ';'] {
        seq!['<'] + unescape_attr_chars(s.skip(4))
    } else if s.len() >= 4 && s.subrange(0, 4) == seq!['&', 'g', 't', ';'] {
        seq!['>'] + unescape_attr_chars(s.skip(4))
    } else if s.len() >= 6 && s.subrange(0, 6) == seq!['&', 'q', 'u', 'o', 't', ';'] {
        seq!['"'] + unescape_attr_chars(s.skip(6))
    } else if s.len() >= 6 && s.subrange(0, 6) == seq!['&', 'a', 'p', 'o', 's', ';'] {
        seq!['\''] + unescape_attr_chars(s.skip(6))
    } else if s.len() >= 5 && s.subrange(0, 5) == seq!['&', 'a', 'm', 'p', ';'] {
        seq!['&'] + unescape_attr_chars(s.skip(5))
    } else if s.len() >= 5 && s.subrange(0, 5) == seq!['&', '#', 'x', 'A', ';'] {
        seq!['\n'] + unescape_attr_chars(s.skip(5))
    } else if s.len() >= 5 && s.subrange(0, 5) == seq!['&', '#', 'x', 'D', ';'] {
        seq!['\r'] + unescape_attr_chars(s.skip(5))
    } else {
        seq![s[0]] + unescape_attr_chars(s.skip(1))
    }
}

/// Unescaping an escaped attribute value gives back the original value: the
/// voice name and prosody attributes of the built document, read back, are
/// the inputs.
pub proof fn lemma_escape_attr_roundtrip(s: Seq<char>)
    ensures
        unescape_attr_chars(escape_attr_chars(s)) == s,
    decreases s.len(),
{
    if s.len() > 0 {
        lemma_escape_attr_roundtrip(s.drop_first());
        let c = s[0];
        let e = escape_attr_chars(s);
        let head = escape_attr_char(c);
        let tail = escape_attr_chars(s.drop_first());
        assert(e == head + tail);
        assert(e.len() >= head.len());
        assert(forall|i: int| 0 <= i < head.len() ==> e[i] == head[i]);
        let lt = seq!['&', 'l', 't', ';'];
        let gt = seq!['&', 'g', 't', ';'];
        let quot = seq!['&', 'q', 'u', 'o', 't', ';'];
        let apos = seq!['&', 'a', 'p', 'o', 's', ';'];
        let amp = seq!['&', 'a', 'm', 'p', ';'];
        let nl = seq!['&', '#', 'x', 'A', ';'];
        let cr = seq!['&', '#', 'x', 'D', ';'];
        if c == '<' || c == '>' {
            assert(e.subrange(0, 4) =~= head);
            if e.subrange(0, 4) == lt {
                assert(e.skip(4) =~= tail);
                assert(unescape_attr_chars(e) == seq!['<'] + s.drop_first());
            } else {
                assert(e.subrange(0, 4) == gt);
                assert(e.skip(4) =~= tail);
                assert(unescape_attr_chars(e) == seq!['>'] + s.drop_first());
            }
        } else if c == '"' || c == '\'' {
            assert(e.subrange(0, 6) =~= head);
            assert(e[1] == head[1]);
            assert(e.len() >= 4 && e.subrange(0, 4) == lt ==> false) by {
                if e.len() >= 4 && e.subrange(0, 4) == lt {
                    assert(e.subrange(0, 4)[1] == e[1]);
                }
            }
            assert(e.len() >= 4 && e.subrange(0, 4) == gt ==> false) by {
                if e.len() >= 4 && e.subrange(0, 4) == gt {
                    assert(e.subrange(0, 4)[1] == e[1]);
                }
            }
            if e.subrange(0, 6) == quot {
                assert(e.skip(6) =~= tail);
                assert(unescape_attr_chars(e) == seq!['"'] + s.drop_first());
            } else {
                assert(e.subrange(0, 6) == apos);
                assert(e.len() >= 6 && e.subrange(0, 6) == quot ==> false) by {
                    if e.len() >= 6 && e.subrange(0, 6) == quot {
                        assert(e.subrange(0, 6)[1] == e[1]);
                    }
                }
                assert(e.skip(6) =~= tail);
                assert(unescape_attr_chars(e) == seq!['\''] + s.drop_first());
            }
        } else if c == '&' || c == '\n' || c == '\r' {
            assert(e.subrange(0, 5) =~= head);
            assert(e[1] == head[1]);
            assert(e[2] == head[2]);
            assert(e[3] == head[3]);
            assert(e.len() >= 4 && e.subrange(0, 4) == lt ==> false) by {
                if e.len() >= 4 && e.subrange(0, 4) == lt {
                    assert(e.subrange(0, 4)[1] == e[1]);
                }
            }
            assert(e.len() >= 4 && e.subrange(0, 4) == gt ==> false) by {
                if e.len() >= 4 && e.subrange(0, 4) == gt {
                    assert(e.subrange(0, 4)[1] == e[1]);
                }
            }
            assert(e.len() >= 6 && e.subrange(0, 6) == quot ==> false) by {
                if e.len() >= 6 && e.subrange(0, 6) == quot {
                    assert(e.subrange(0, 6)[1] == e[1]);
                }
            }
            assert(e.len() >= 6 && e.subrange(0, 6) == apos ==> false) by {
                if e.len() >= 6 && e.subrange(0, 6) == apos {
                    assert(e.subrange(0, 6)[1] == e[1]);
                    assert(e.subrange(0, 6)[2] == e[2]);
                }
            }
            if c == '&' {
                assert(e.subrange(0, 5) == amp);
                assert(e.skip(5) =~= tail);
                assert(unescape_attr_chars(e) == seq!['&'] + s.drop_first());
            } else {
                assert(e.len() >= 5 && e.subrange(0, 5) == amp ==> false) by {
                    if e.len() >= 5 && e.subrange(0, 5) == amp {
                        assert(e.subrange(0, 5)[1] == e[1]);
                    }
                }
                if c == '\n' {
                    assert(e.subrange(0, 5) == nl);
                    assert(e.skip(5) =~= tail);
                    assert(unescape_attr_chars(e) == seq!['\n'] + s.drop_first());
                } else {
                    assert(e.subrange(0, 5) == cr);
                    assert(e.len() >= 5 && e.subrange(0, 5) == nl ==> false) by {
                        if e.len() >= 5 && e.subrange(0, 5) == nl {
                            assert(e.subrange(0, 5)[3] == e[3]);
                        }
                    }
                    assert(e.skip(5) =~= tail);
                    assert(unescape_attr_chars(e) == seq!['\r'] + s.drop_first());
                }
            }
        } else {
            assert(e[0] == c);
            assert(e.len() >= 4 && e.subrange(0, 4) == lt ==> false) by {
                if e.len() >= 4 && e.subrange(0, 4) == lt {
                    assert(e.subrange(0, 4)[0] == e[0]);
                }
            }
            assert(e.len() >= 4 && e.subrange(0, 4) == gt ==> false) by {
                if e.len() >= 4 && e.subrange(0, 4) == gt {
                    assert(e.subrange(0, 4)[0] == e[0]);
                }
            }
            assert(e.len() >= 6 && e.subrange(0, 6) == quot ==> false) by {
                if e.len() >= 6 && e.subrange(0, 6) == quot {
                    assert(e.subrange(0, 6)[0] == e[0]);
                }
            }
            assert(e.len() >= 6 && e.subrange(0, 6) == apos ==> false) by {
                if e.len() >= 6 && e.subrange(0, 6) == apos {
                    assert(e.subrange(0, 6)[0] == e[0]);
                }
            }
            assert(e.len() >= 5 && e.subrange(0, 5) == amp ==> false) by {
                if e.len() >= 5 && e.subrange(0, 5) == amp {
                    assert(e.subrange(0, 5)[0] == e[0]);
                }
            }
            assert(e.len() >= 5 && e.subrange(0, 5) == nl ==> false) by {
                if e.len() >= 5 && e.subrange(0, 5) == nl {
                    assert(e.subrange(0, 5)[0] == e[0]);
                }
            }
            assert(e.len() >= 5 && e.subrange(0, 5) == cr ==> false) by {
                if e.len() >= 5 && e.subrange(0, 5) == cr {
                    assert(e.subrange(0, 5)[0] == e[0]);
                }
            }
            assert(e.skip(1) =~= tail);
            assert(unescape_attr_chars(e) == seq![c] + s.drop_first());
        }
        assert(unescape_attr_chars(e) =~= s);
    }
}

/// Escaped attribute values never contain a raw `<` or a raw `"`, so the
/// surrounding double-quoted attribute syntax cannot be broken by any input.
pub proof fn lemma_escape_attr_no_lt_no_quote(s: Seq<char>)
    ensures
        forall|i: int|
            0 <= i < escape_attr_chars(s).len() ==> (escape_attr_chars(s)[i] != '<'
                && escape_attr_chars(s)[i] != '"'),
    decreases s.len(),
{
    if s.len() > 0 {
        lemma_escape_attr_no_lt_no_quote(s.drop_first());
        let head = escape_attr_char(s[0]);
        let tail = escape_attr_chars(s.drop_first());
        assert forall|i: int| 0 <= i < escape_attr_chars(s).len() implies (escape_attr_chars(s)[i]
            != '<' && escape_attr_chars(s)[i] != '"') by {
            if i < head.len() {
                assert(escape_attr_chars(s)[i] == head[i]);
            } else {
                assert(escape_attr_chars(s)[i] == tail[i - head.len()]);
            }
        }
    }
}

/// Building the markup twice from the same arguments yields byte-identical
/// output: the document is a function of its five inputs and nothing else.
pub proof fn lemma_build_ssml_deterministic(
    r1: Seq<char>,
    r2: Seq<char>,
    text: Seq<char>,
    voice: Seq<char>,
    pitch: Seq<char>,
    rate: Seq<char>,
    volume: Seq<char>,
)
    requires
        r1 == ssml_chars(text, voice, pitch, rate, volume),
        r2 == ssml_chars(text, voice, pitch, rate, volume),
    ensures
        r1 == r2,
{
}

} // verus!
