//! Wire-format helpers: the fixed-string trait of the closed enumerations,
//! and the text escaping that the serializer applies.

use vstd::prelude::*;

verus! {

/// A closed enumeration with a fixed wire string per variant.
pub trait OpdsEnumStr {
    /// The fixed wire string of this value.
    spec fn spec_str(&self) -> Seq<char>;

    /// Returns the fixed wire string.
    fn as_str(&self) -> (r: &'static str)
        ensures
            r@ == self.spec_str(),
    ;
}

/// One character escaped for XML text content.
pub open spec fn esc_text_char(c: char) -> Seq<char> {
    if c == '&' {
        "&amp;"@
    } else if c == '<' {
        "&lt;"@
    } else if c == '>' {
        "&gt;"@
    } else {
        seq![c]
    }
}

/// Text escaped for XML content.
pub open spec fn esc_text(s: Seq<char>) -> Seq<char>
    decreases s.len(),
{
    if s.len() == 0 {
        Seq::empty()
    } else {
        esc_text(s.drop_last()) + esc_text_char(s.last())
    }
}

/// One character escaped for an XML attribute value.
pub open spec fn esc_attr_char(c: char) -> Seq<char> {
    if c == '"' {
        "&quot;"@
    } else {
        esc_text_char(c)
    }
}

/// Text escaped for an XML attribute value.
pub open spec fn esc_attr(s: Seq<char>) -> Seq<char>
    decreases s.len(),
{
    if s.len() == 0 {
        Seq::empty()
    } else {
        esc_attr(s.drop_last()) + esc_attr_char(s.last())
    }
}

/// One character of a content body: escaped, with literal newlines rewritten
/// to explicit line-break markup.
pub open spec fn esc_content_char(c: char) -> Seq<char> {
    if c == '\n' {
        "<br/>"@
    } else {
        esc_text_char(c)
    }
}

/// A content body escaped for the wire: XML-escaped text whose newlines
/// become explicit line breaks.
pub open spec fn esc_content(s: Seq<char>) -> Seq<char>
    decreases s.len(),
{
    if s.len() == 0 {
        Seq::empty()
    } else {
        esc_content(s.drop_last()) + esc_content_char(s.last())
    }
}

/// One character with only the newline rewriting applied.
pub open spec fn br_char(c: char) -> Seq<char> {
    if c == '\n' {
        "<br/>"@
    } else {
        seq![c]
    }
}

/// Text with literal newlines rewritten to explicit line breaks, nothing else.
pub open spec fn br_sub(s: Seq<char>) -> Seq<char>
    decreases s.len(),
{
    if s.len() == 0 {
        Seq::empty()
    } else {
        br_sub(s.drop_last()) + br_char(s.last())
    }
}

/// Appends `s` escaped for XML text content.
pub fn append_text_escaped(out: &mut String, s: &str)
    ensures
        final(out)@ == old(out)@ + esc_text(s@),
{
    let n = s.unicode_len();
    let mut i: usize = 0;
    while i < n
        invariant
            0 <= i <= n,
            n == s@.len(),
            out@ == old(out)@ + esc_text(s@.take(i as int)),
        decreases n - i,
    {
        let c = s.get_char(i);
        proof {
            assert(s@.take(i + 1).drop_last() =~= s@.take(i as int));
            assert(s@.take(i + 1).last() == s@[i as int]);
        }
        if c == '&' {
            out.append("&amp;");
        } else if c == '<' {
            out.append("&lt;");
        } else if c == '>' {
            out.append("&gt;");
        } else {
            let piece = s.substring_char(i, i + 1);
            assert(piece@ =~= seq![s@[i as int]]);
            out.append(piece);
        }
        proof {
            assert(out@ =~= old(out)@ + esc_text(s@.take(i + 1)));
        }
        i += 1;
    }
    proof {
        assert(s@.take(n as int) =~= s@);
    }
}

/// The wire rendering of one simple element: a tag pair around escaped text.
pub open spec fn elem_xml(name: Seq<char>, value: Seq<char>) -> Seq<char> {
    "<"@ + name + ">"@ + esc_text(value) + "</"@ + name + ">"@
}

/// Appends one simple element: `value`, escaped, wrapped in `name` tags.
pub fn write_elem(name: &str, value: &str, out: &mut String)
    ensures
        final(out)@ == old(out)@ + elem_xml(name@, value@),
{
    out.append("<");
    out.append(name);
    out.append(">");
    append_text_escaped(out, value);
    out.append("</");
    out.append(name);
    out.append(">");
    proof {
        assert(out@ =~= old(out)@ + elem_xml(name@, value@));
    }
}

/// Appends `s` escaped for an XML attribute value.
pub fn append_attr_escaped(out: &mut String, s: &str)
    ensures
        final(out)@ == old(out)@ + esc_attr(s@),
{
    let n = s.unicode_len();
    let mut i: usize = 0;
    while i < n
        invariant
            0 <= i <= n,
            n == s@.len(),
            out@ == old(out)@ + esc_attr(s@.take(i as int)),
        decreases n - i,
    {
        let c = s.get_char(i);
        proof {
            assert(s@.take(i + 1).drop_last() =~= s@.take(i as int));
            assert(s@.take(i + 1).last() == s@[i as int]);
        }
        if c == '"' {
            out.append("&quot;");
        } else if c == '&' {
            out.append("&amp;");
        } else if c == '<' {
            out.append("&lt;");
        } else if c == '>' {
            out.append("&gt;");
        } else {
            let piece = s.substring_char(i, i + 1);
            assert(piece@ =~= seq![s@[i as int]]);
            out.append(piece);
        }
        proof {
            assert(out@ =~= old(out)@ + esc_attr(s@.take(i + 1)));
        }
        i += 1;
    }
    proof {
        assert(s@.take(n as int) =~= s@);
    }
}

/// Appends a content body: escaped, newlines rewritten to line breaks.
pub fn append_content_escaped(out: &mut String, s: &str)
    ensures
        final(out)@ == old(out)@ + esc_content(s@),
{
    let n = s.unicode_len();
    let mut i: usize = 0;
    while i < n
        invariant
            0 <= i <= n,
            n == s@.len(),
            out@ == old(out)@ + esc_content(s@.take(i as int)),
        decreases n - i,
    {
        let c = s.get_char(i);
        proof {
            assert(s@.take(i + 1).drop_last() =~= s@.take(i as int));
            assert(s@.take(i + 1).last() == s@[i as int]);
        }
        if c == '\n' {
            out.append("<br/>");
        } else if c == '&' {
            out.append("&amp;");
        } else if c == '<' {
            out.append("&lt;");
        } else if c == '>' {
            out.append("&gt;");
        } else {
            let piece = s.substring_char(i, i + 1);
            assert(piece@ =~= seq![s@[i as int]]);
            out.append(piece);
        }
        proof {
            assert(out@ =~= old(out)@ + esc_content(s@.take(i + 1)));
        }
        i += 1;
    }
    proof {
        assert(s@.take(n as int) =~= s@);
    }
}

/// Rewrites literal newlines to explicit line breaks, leaving the rest alone.
pub fn br_replace(s: &str) -> (r: String)
    ensures
        r@ == br_sub(s@),
{
    let n = s.unicode_len();
    let mut out = String::new();
    let mut i: usize = 0;
    while i < n
        invariant
            0 <= i <= n,
            n == s@.len(),
            out@ == br_sub(s@.take(i as int)),
        decreases n - i,
    {
        let c = s.get_char(i);
        proof {
            assert(s@.take(i + 1).drop_last() =~= s@.take(i as int));
            assert(s@.take(i + 1).last() == s@[i as int]);
        }
        if c == '\n' {
            out.append("<br/>");
        } else {
            let piece = s.substring_char(i, i + 1);
            assert(piece@ =~= seq![s@[i as int]]);
            out.append(piece);
        }
        proof {
            assert(out@ =~= br_sub(s@.take(i + 1)));
        }
        i += 1;
    }
    proof {
        assert(s@.take(n as int) =~= s@);
    }
    out
}

} // verus!
