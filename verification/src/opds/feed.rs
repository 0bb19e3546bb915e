//! The feed document model: assembly with exact navigation-link order, and
//! the deterministic wire rendering.

use vstd::prelude::*;

use crate::dates::now_rfc3339;
use crate::opds::entry::{entries_xml, OpdsEntry, ToOpdsEntry};
use crate::opds::link::{is_link, links_xml, OpdsLink, OpdsLinkRel, OpdsLinkType};
use crate::opds::util::{elem_xml, esc_attr};
use crate::text::dec_digits;

verus! {

/// A feed document. `updated` holds the generation time, not content time.
#[derive(Debug)]
pub struct OpdsFeed {
    pub xmlns: String,
    pub xmlns_opds: String,
    pub updated: String,
    pub id: String,
    pub title: String,
    pub links: Option<Vec<OpdsLink>>,
    pub entries: Vec<OpdsEntry>,
}

/// The navigation links of a paginated feed, in their fixed order:
/// self, start, previous (only if one exists), next (only if one exists).
pub open spec fn nav_links_ok(
    ls: Seq<OpdsLink>,
    postfix: Seq<char>,
    page: int,
    has_next: bool,
    has_prev: bool,
) -> bool {
    let self_href = "/opds/v1.2/"@ + postfix;
    let n = 2 + (if has_prev {
        1int
    } else {
        0int
    }) + (if has_next {
        1int
    } else {
        0int
    });
    &&& ls.len() == n
    &&& is_link(ls[0], OpdsLinkType::Navigation, OpdsLinkRel::ItSelf, self_href)
    &&& is_link(ls[1], OpdsLinkType::Navigation, OpdsLinkRel::Start, "/opds/v1.2/catalog"@)
    &&& (has_prev ==> is_link(
        ls[2],
        OpdsLinkType::Navigation,
        OpdsLinkRel::Previous,
        self_href + "?page="@ + dec_digits(page - 1),
    ))
    &&& (has_next ==> is_link(
        ls[n - 1],
        OpdsLinkType::Navigation,
        OpdsLinkRel::Next,
        self_href + "?page="@ + dec_digits(page + 1),
    ))
}

impl OpdsFeed {
    /// Builds a feed; the `updated` stamp is drawn from the clock, so nothing
    /// is promised of it.
    pub fn new(id: String, title: String, links: Option<Vec<OpdsLink>>, entries: Vec<OpdsEntry>) -> (r:
        OpdsFeed)
        ensures
            r.xmlns@ == "http://www.w3.org/2005/Atom"@,
            r.xmlns_opds@ == "http://opds-spec.org/2010/catalog"@,
            r.id == id,
            r.title == title,
            r.links == links,
            r.entries == entries,
    {
        OpdsFeed {
            xmlns: "http://www.w3.org/2005/Atom".to_owned(),
            xmlns_opds: "http://opds-spec.org/2010/catalog".to_owned(),
            updated: now_rfc3339(),
            id,
            title,
            entries,
            links,
        }
    }

    /// Assembles one page of records into a feed: entries in source order,
    /// navigation links in the fixed order self, start, previous, next.
    pub fn paginated<T: ToOpdsEntry + Copy>(
        id: &str,
        title: &str,
        href_postfix: &str,
        data: Vec<T>,
        page: usize,
        has_next: bool,
        has_prev: bool,
    ) -> (r: OpdsFeed)
        requires
            1 <= page < usize::MAX,
        ensures
            r.id@ == id@,
            r.title@ == title@,
            r.xmlns@ == "http://www.w3.org/2005/Atom"@,
            r.xmlns_opds@ == "http://opds-spec.org/2010/catalog"@,
            r.links matches Some(ls) && nav_links_ok(
                ls@,
                href_postfix@,
                page as int,
                has_next,
                has_prev,
            ),
            r.entries@.len() == data@.len(),
            forall|i: int|
                0 <= i < data@.len() ==> data@[i].entry_rel(#[trigger] r.entries@[i]),
    {
        let mut entries: Vec<OpdsEntry> = Vec::new();
        let n = data.len();
        let mut i: usize = 0;
        while i < n
            invariant
                0 <= i <= n,
                n == data@.len(),
                entries@.len() == i,
                forall|j: int| 0 <= j < i ==> data@[j].entry_rel(#[trigger] entries@[j]),
            decreases n - i,
        {
            let item = data[i];
            entries.push(item.into_opds_entry());
            i += 1;
        }

        let mut self_href = String::new();
        self_href.append("/opds/v1.2/");
        self_href.append(href_postfix);

        let mut links: Vec<OpdsLink> = Vec::new();
        links.push(OpdsLink::new(OpdsLinkType::Navigation, OpdsLinkRel::ItSelf, self_href.clone()));
        links.push(
            OpdsLink::new(
                OpdsLinkType::Navigation,
                OpdsLinkRel::Start,
                "/opds/v1.2/catalog".to_owned(),
            ),
        );

        if has_prev {
            let mut href = self_href.clone();
            href.append("?page=");
            let num = crate::text::u64_to_string((page - 1) as u64);
            href.append(num.as_str());
            links.push(OpdsLink::new(OpdsLinkType::Navigation, OpdsLinkRel::Previous, href));
        }

        if has_next {
            let mut href = self_href.clone();
            href.append("?page=");
            let num = crate::text::u64_to_string((page + 1) as u64);
            href.append(num.as_str());
            links.push(OpdsLink::new(OpdsLinkType::Navigation, OpdsLinkRel::Next, href));
        }

        let r = OpdsFeed::new(id.to_owned(), title.to_owned(), Some(links), entries);
        proof {
            assert(r.links matches Some(ls) && nav_links_ok(
                ls@,
                href_postfix@,
                page as int,
                has_next,
                has_prev,
            ));
        }
        r
    }

    /// The wire rendering of the whole feed document, field by field in the
    /// fixed order: id, title, updated, links, entries.
    pub open spec fn xml(self) -> Seq<char> {
        "<feed xmlns=\""@ + esc_attr(self.xmlns@) + "\" xmlns:opds=\""@ + esc_attr(
            self.xmlns_opds@,
        ) + "\">"@ + elem_xml("id"@, self.id@) + elem_xml("title"@, self.title@) + elem_xml(
            "updated"@,
            self.updated@,
        ) + (match self.links {
            Some(ls) => links_xml(ls@),
            None => Seq::<char>::empty(),
        }) + entries_xml(self.entries@) + "</feed>"@
    }

    /// Renders the feed. The rendering is a function of the feed value alone,
    /// so rendering the same value twice gives byte-identical output.
    pub fn to_xml(&self) -> (r: String)
        ensures
            r@ == self.xml(),
    {
        let mut out = String::new();
        out.append("<feed xmlns=\"");
        crate::opds::util::append_attr_escaped(&mut out, self.xmlns.as_str());
        out.append("\" xmlns:opds=\"");
        crate::opds::util::append_attr_escaped(&mut out, self.xmlns_opds.as_str());
        out.append("\">");
        crate::opds::util::write_elem("id", self.id.as_str(), &mut out);
        crate::opds::util::write_elem("title", self.title.as_str(), &mut out);
        crate::opds::util::write_elem("updated", self.updated.as_str(), &mut out);
        match &self.links {
            Some(ls) => crate::opds::link::append_links_xml(ls, &mut out),
            None => {},
        }
        crate::opds::entry::append_entries_xml(&self.entries, &mut out);
        out.append("</feed>");
        proof {
            assert(out@ =~= self.xml());
        }
        out
    }
}

/// Serialization is deterministic: equal feed values render to equal bytes.
pub proof fn lemma_render_deterministic(a: OpdsFeed, b: OpdsFeed)
    requires
        a == b,
    ensures
        a.xml() == b.xml(),
{
}

} // verus!
