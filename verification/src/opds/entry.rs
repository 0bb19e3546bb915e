//! Feed entries and the conversion trait records implement.

use vstd::prelude::*;

use crate::dates::{rfc3339_of, AoDate};
use crate::opds::author::{authors_xml, StumpAuthor};
use crate::opds::link::{links_xml, OpdsLink};
use crate::opds::util::{br_sub, elem_xml, esc_content};

verus! {

/// One feed entry. The timestamp is held already rendered.
#[derive(Debug)]
pub struct OpdsEntry {
    pub id: String,
    pub updated: String,
    pub title: String,
    pub content: Option<String>,
    pub authors: Option<Vec<StumpAuthor>>,
    pub links: Vec<OpdsLink>,
}

impl OpdsEntry {
    /// Builds an entry; a missing link list becomes an empty one.
    pub fn new(
        id: String,
        updated: AoDate,
        title: String,
        content: Option<String>,
        authors: Option<Vec<StumpAuthor>>,
        links: Option<Vec<OpdsLink>>,
    ) -> (r: OpdsEntry)
        ensures
            r.id == id,
            r.updated@ == rfc3339_of(updated),
            r.title == title,
            r.content == content,
            r.authors == authors,
            (match links {
                Some(l) => r.links == l,
                None => r.links@.len() == 0,
            }),
    {
        let links = match links {
            Some(links) => links,
            None => Vec::new(),
        };
        OpdsEntry { id, updated: updated.to_rfc3339(), title, content, authors, links }
    }

    /// The content body with literal newlines rewritten to line breaks.
    pub fn get_content(&self) -> (r: Option<String>)
        ensures
            (match self.content {
                None => r is None,
                Some(c) => r matches Some(out) && out@ == br_sub(c@),
            }),
    {
        match &self.content {
            None => None,
            Some(c) => Some(crate::opds::util::br_replace(c.as_str())),
        }
    }

    /// The wire rendering of one entry element. A missing content body still
    /// renders an (empty) content element rather than omitting it.
    pub open spec fn xml(self) -> Seq<char> {
        "<entry>"@ + elem_xml("title"@, self.title@) + elem_xml("id"@, self.id@) + elem_xml(
            "updated"@,
            self.updated@,
        ) + "<content>"@ + (match self.content {
            Some(c) => esc_content(c@),
            None => Seq::<char>::empty(),
        }) + "</content>"@ + (match self.authors {
            Some(a) => authors_xml(a@),
            None => Seq::<char>::empty(),
        }) + links_xml(self.links@) + "</entry>"@
    }

    /// Appends this entry's wire rendering.
    pub fn append_xml(&self, out: &mut String)
        ensures
            final(out)@ == old(out)@ + self.xml(),
    {
        out.append("<entry>");
        crate::opds::util::write_elem("title", self.title.as_str(), out);
        crate::opds::util::write_elem("id", self.id.as_str(), out);
        crate::opds::util::write_elem("updated", self.updated.as_str(), out);
        out.append("<content>");
        match &self.content {
            Some(c) => crate::opds::util::append_content_escaped(out, c.as_str()),
            None => {},
        }
        out.append("</content>");
        match &self.authors {
            Some(a) => crate::opds::author::append_authors_xml(a, out),
            None => {},
        }
        crate::opds::link::append_links_xml(&self.links, out);
        out.append("</entry>");
        proof {
            assert(out@ =~= old(out)@ + self.xml());
        }
    }
}

/// The concatenated rendering of an entry list.
pub open spec fn entries_xml(s: Seq<OpdsEntry>) -> Seq<char>
    decreases s.len(),
{
    if s.len() == 0 {
        Seq::empty()
    } else {
        entries_xml(s.drop_last()) + s.last().xml()
    }
}

/// One rendering step of `entries_xml`.
pub proof fn lemma_entries_xml_step(s: Seq<OpdsEntry>, i: int)
    requires
        0 <= i < s.len(),
    ensures
        entries_xml(s.take(i + 1)) == entries_xml(s.take(i)) + s[i].xml(),
{
    assert(s.take(i + 1).drop_last() =~= s.take(i));
    assert(s.take(i + 1).last() == s[i]);
}

/// Appends every entry in order.
pub fn append_entries_xml(entries: &Vec<OpdsEntry>, out: &mut String)
    ensures
        final(out)@ == old(out)@ + entries_xml(entries@),
{
    let n = entries.len();
    let mut i: usize = 0;
    while i < n
        invariant
            0 <= i <= n,
            n == entries@.len(),
            out@ == old(out)@ + entries_xml(entries@.take(i as int)),
        decreases n - i,
    {
        entries[i].append_xml(out);
        proof {
            lemma_entries_xml_step(entries@, i as int);
            assert(out@ =~= old(out)@ + entries_xml(entries@.take(i + 1)));
        }
        i += 1;
    }
    proof {
        assert(entries@.take(n as int) =~= entries@);
    }
}

/// A record that can stand as one feed entry.
pub trait ToOpdsEntry: Sized {
    /// What the produced entry must look like for this record.
    spec fn entry_rel(self, e: OpdsEntry) -> bool;

    /// Converts this record into its feed entry.
    fn into_opds_entry(self) -> (r: OpdsEntry)
        ensures
            self.entry_rel(r),
    ;
}

} // verus!
