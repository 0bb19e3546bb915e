//! Typed feed links: closed media-type and relation enumerations with fixed
//! wire strings, and the link record itself.

use vstd::prelude::*;

use crate::opds::util::{esc_attr, OpdsEnumStr};

verus! {

/// The media type of a feed link.
#[derive(Debug, Clone, Copy, PartialEq, Eq, Structural)]
pub enum OpdsLinkType {
    Acquisition,
    Image,
    Navigation,
    OctetStream,
    Zip,
    Epub,
    Search,
}

impl OpdsEnumStr for OpdsLinkType {
    open spec fn spec_str(&self) -> Seq<char> {
        match self {
            OpdsLinkType::Acquisition => "application/atom+xml;profile=opds-catalog;kind=acquisition"@,
            OpdsLinkType::Image => "image/jpeg"@,
            OpdsLinkType::Navigation => "application/atom+xml;profile=opds-catalog;kind=navigation"@,
            OpdsLinkType::OctetStream => "application/octet-stream"@,
            OpdsLinkType::Zip => "application/zip"@,
            OpdsLinkType::Epub => "application/epub+zip"@,
            OpdsLinkType::Search => "application/opensearchdescription+xml"@,
        }
    }

    fn as_str(&self) -> (r: &'static str) {
        match self {
            OpdsLinkType::Acquisition => "application/atom+xml;profile=opds-catalog;kind=acquisition",
            OpdsLinkType::Image => "image/jpeg",
            OpdsLinkType::Navigation => "application/atom+xml;profile=opds-catalog;kind=navigation",
            OpdsLinkType::OctetStream => "application/octet-stream",
            OpdsLinkType::Zip => "application/zip",
            OpdsLinkType::Epub => "application/epub+zip",
            OpdsLinkType::Search => "application/opensearchdescription+xml",
        }
    }
}

impl OpdsLinkType {
    /// The wire string as an owned value.
    pub fn to_string(&self) -> (r: String)
        ensures
            r@ == self.spec_str(),
    {
        self.as_str().to_owned()
    }
}

/// The relation of a feed link.
#[derive(Debug, Clone, Copy, PartialEq, Eq, Structural)]
pub enum OpdsLinkRel {
    ItSelf,
    Subsection,
    Acquisition,
    Start,
    Next,
    Previous,
    Thumbnail,
    Image,
    PageStream,
    Search,
}

impl OpdsEnumStr for OpdsLinkRel {
    open spec fn spec_str(&self) -> Seq<char> {
        match self {
            OpdsLinkRel::ItSelf => "self"@,
            OpdsLinkRel::Subsection => "subsection"@,
            OpdsLinkRel::Acquisition => "http://opds-spec.org/acquisition"@,
            OpdsLinkRel::Start => "start"@,
            OpdsLinkRel::Next => "next"@,
            OpdsLinkRel::Previous => "previous"@,
            OpdsLinkRel::Thumbnail => "http://opds-spec.org/image/thumbnail"@,
            OpdsLinkRel::Image => "http://opds-spec.org/image"@,
            OpdsLinkRel::PageStream => "http://vaemendis.net/opds-pse/stream"@,
            OpdsLinkRel::Search => "search"@,
        }
    }

    fn as_str(&self) -> (r: &'static str) {
        match self {
            OpdsLinkRel::ItSelf => "self",
            OpdsLinkRel::Subsection => "subsection",
            OpdsLinkRel::Acquisition => "http://opds-spec.org/acquisition",
            OpdsLinkRel::Start => "start",
            OpdsLinkRel::Next => "next",
            OpdsLinkRel::Previous => "previous",
            OpdsLinkRel::Thumbnail => "http://opds-spec.org/image/thumbnail",
            OpdsLinkRel::Image => "http://opds-spec.org/image",
            OpdsLinkRel::PageStream => "http://vaemendis.net/opds-pse/stream",
            OpdsLinkRel::Search => "search",
        }
    }
}

impl OpdsLinkRel {
    /// The wire string as an owned value.
    pub fn to_string(&self) -> (r: String)
        ensures
            r@ == self.spec_str(),
    {
        self.as_str().to_owned()
    }
}

/// A feed link: media type and relation (already as wire strings) plus href.
#[derive(Debug)]
pub struct OpdsLink {
    pub link_type: String,
    pub rel: String,
    pub href: String,
}

/// Whether a link carries exactly this type, relation and href.
pub open spec fn is_link(l: OpdsLink, t: OpdsLinkType, rel: OpdsLinkRel, href: Seq<char>) -> bool {
    &&& l.link_type@ == t.spec_str()
    &&& l.rel@ == rel.spec_str()
    &&& l.href@ == href
}

impl OpdsLink {
    /// Builds a link from the typed enumerations.
    pub fn new(link_type: OpdsLinkType, rel: OpdsLinkRel, href: String) -> (r: OpdsLink)
        ensures
            is_link(r, link_type, rel, href@),
    {
        OpdsLink { link_type: link_type.to_string(), rel: rel.to_string(), href }
    }

    /// The wire rendering of one link element.
    pub open spec fn xml(self) -> Seq<char> {
        "<link type=\""@ + esc_attr(self.link_type@) + "\" rel=\""@ + esc_attr(self.rel@)
            + "\" href=\""@ + esc_attr(self.href@) + "\"/>"@
    }

    /// Appends this link's wire rendering.
    pub fn append_xml(&self, out: &mut String)
        ensures
            final(out)@ == old(out)@ + self.xml(),
    {
        out.append("<link type=\"");
        crate::opds::util::append_attr_escaped(out, self.link_type.as_str());
        out.append("\" rel=\"");
        crate::opds::util::append_attr_escaped(out, self.rel.as_str());
        out.append("\" href=\"");
        crate::opds::util::append_attr_escaped(out, self.href.as_str());
        out.append("\"/>");
        proof {
            assert(out@ =~= old(out)@ + self.xml());
        }
    }
}

/// The concatenated rendering of a list of links.
pub open spec fn links_xml(s: Seq<OpdsLink>) -> Seq<char>
    decreases s.len(),
{
    if s.len() == 0 {
        Seq::empty()
    } else {
        links_xml(s.drop_last()) + s.last().xml()
    }
}

/// One rendering step of `links_xml`.
pub proof fn lemma_links_xml_step(s: Seq<OpdsLink>, i: int)
    requires
        0 <= i < s.len(),
    ensures
        links_xml(s.take(i + 1)) == links_xml(s.take(i)) + s[i].xml(),
{
    assert(s.take(i + 1).drop_last() =~= s.take(i));
    assert(s.take(i + 1).last() == s[i]);
}

/// Appends every link in order.
pub fn append_links_xml(links: &Vec<OpdsLink>, out: &mut String)
    ensures
        final(out)@ == old(out)@ + links_xml(links@),
{
    let n = links.len();
    let mut i: usize = 0;
    while i < n
        invariant
            0 <= i <= n,
            n == links@.len(),
            out@ == old(out)@ + links_xml(links@.take(i as int)),
        decreases n - i,
    {
        links[i].append_xml(out);
        proof {
            lemma_links_xml_step(links@, i as int);
            assert(out@ =~= old(out)@ + links_xml(links@.take(i + 1)));
        }
        i += 1;
    }
    proof {
        assert(links@.take(n as int) =~= links@);
    }
}

} // verus!
