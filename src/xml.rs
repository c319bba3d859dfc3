//! XML text: escaping of character data and framing of elements.

use vstd::prelude::*;
use vstd::string::StringExecFns;

verus! {

/// `c` is one of the characters that escaping replaces.
pub open spec fn needs_escape(c: char) -> bool {
    c == '<' || c == '>' || c == '&' || c == '\'' || c == '"' || c == '\r'
}

/// What one character becomes in escaped XML text.
pub open spec fn escaped_char(c: char) -> Seq<char> {
    if c == '<' {
        seq!['&', 'l', 't', ';']
    } else if c == '>' {
        seq!['&', 'g', 't', ';']
    } else if c == '&' {
        seq!['&', 'a', 'm', 'p', ';']
    } else if c == '\'' {
        seq!['&', 'a', 'p', 'o', 's', ';']
    } else if c == '"' {
        seq!['&', 'q', 'u', 'o', 't', ';']
    } else if c == '\r' {
        seq!['&', '#', '1', '3', ';']
    } else {
        seq![c]
    }
}

/// `s` with each character replaced by its escaped form.
pub open spec fn xml_escape(s: Seq<char>) -> Seq<char>
    decreases s.len(),
{
    if s.len() == 0 {
        Seq::empty()
    } else {
        xml_escape(s.drop_last()) + escaped_char(s.last())
    }
}

/// Text without any character that escaping replaces is left as it is.
pub proof fn lemma_escape_plain(s: Seq<char>)
    requires
        forall|i: int| 0 <= i < s.len() ==> !needs_escape(#[trigger] s[i]),
    ensures
        xml_escape(s) == s,
    decreases s.len(),
{
    if s.len() > 0 {
        let t = s.drop_last();
        assert forall|i: int| 0 <= i < t.len() implies !needs_escape(#[trigger] t[i]) by {
            assert(t[i] == s[i]);
        }
        lemma_escape_plain(t);
        assert(!needs_escape(s[s.len() - 1]));
        assert(s =~= t + seq![s.last()]);
    }
}

/// An element named `name` whose content is the already escaped `body`.
pub open spec fn element(name: Seq<char>, body: Seq<char>) -> Seq<char> {
    "<"@ + name + ">"@ + body + "</"@ + name + ">"@
}

/// Relies on quick_xml::escape::escape: each of `<`, `>`, `&`, `'`, `"` and `\r` becomes
/// its entity or character reference, and every other character is kept as it is.
#[verifier::external_body]
fn escape_text(s: &str) -> (r: String)
    ensures
        r@ == xml_escape(s@),
{
    quick_xml::escape::escape(s).into_owned()
}

/// Appends to `out` the element `name` holding `text`, escaped.
pub fn push_element(out: &mut String, name: &str, text: &str)
    ensures
        final(out)@ == old(out)@ + element(name@, xml_escape(text@)),
{
    let body = escape_text(text);
    out.append("<");
    out.append(name);
    out.append(">");
    out.append(body.as_str());
    out.append("</");
    out.append(name);
    out.append(">");
    assert(out@ =~= old(out)@ + element(name@, xml_escape(text@)));
}

/// Appends to `out` the text `text`, escaped.
pub fn push_escaped(out: &mut String, text: &str)
    ensures
        final(out)@ == old(out)@ + xml_escape(text@),
{
    let body = escape_text(text);
    out.append(body.as_str());
}

} // verus!
