//! Feed entry authors.

use vstd::prelude::*;

use crate::opds::util::esc_text;

verus! {

/// An author in a feed: a name and an optional profile URI.
#[derive(Debug)]
pub struct StumpAuthor {
    pub name: String,
    pub uri: Option<String>,
}

impl StumpAuthor {
    /// Builds an author record.
    pub fn new(name: String, uri: Option<String>) -> (r: StumpAuthor)
        ensures
            r.name == name,
            r.uri == uri,
    {
        StumpAuthor { name, uri }
    }

    /// The wire rendering of one author block.
    pub open spec fn xml(self) -> Seq<char> {
        "<author><name>"@ + esc_text(self.name@) + "</name>"@ + (match self.uri {
            Some(u) => "<uri>"@ + esc_text(u@) + "</uri>"@,
            None => Seq::<char>::empty(),
        }) + "</author>"@
    }

    /// Appends this author's wire rendering.
    pub fn append_xml(&self, out: &mut String)
        ensures
            final(out)@ == old(out)@ + self.xml(),
    {
        out.append("<author><name>");
        crate::opds::util::append_text_escaped(out, self.name.as_str());
        out.append("</name>");
        match &self.uri {
            Some(u) => {
                out.append("<uri>");
                crate::opds::util::append_text_escaped(out, u.as_str());
                out.append("</uri>");
            },
            None => {},
        }
        out.append("</author>");
        proof {
            assert(out@ =~= old(out)@ + self.xml());
        }
    }
}

/// The concatenated rendering of an author list.
pub open spec fn authors_xml(s: Seq<StumpAuthor>) -> Seq<char>
    decreases s.len(),
{
    if s.len() == 0 {
        Seq::empty()
    } else {
        authors_xml(s.drop_last()) + s.last().xml()
    }
}

/// One rendering step of `authors_xml`.
pub proof fn lemma_authors_xml_step(s: Seq<StumpAuthor>, i: int)
    requires
        0 <= i < s.len(),
    ensures
        authors_xml(s.take(i + 1)) == authors_xml(s.take(i)) + s[i].xml(),
{
    assert(s.take(i + 1).drop_last() =~= s.take(i));
    assert(s.take(i + 1).last() == s[i]);
}

/// Appends every author block in order.
pub fn append_authors_xml(authors: &Vec<StumpAuthor>, out: &mut String)
    ensures
        final(out)@ == old(out)@ + authors_xml(authors@),
{
    let n = authors.len();
    let mut i: usize = 0;
    while i < n
        invariant
            0 <= i <= n,
            n == authors@.len(),
            out@ == old(out)@ + authors_xml(authors@.take(i as int)),
        decreases n - i,
    {
        authors[i].append_xml(out);
        proof {
            lemma_authors_xml_step(authors@, i as int);
            assert(out@ =~= old(out)@ + authors_xml(authors@.take(i + 1)));
        }
        i += 1;
    }
    proof {
        assert(authors@.take(n as int) =~= authors@);
    }
}

} // verus!
