//! The syndication feed model and its wire rendering.

pub mod author;
pub mod entry;
pub mod feed;
pub mod link;
pub mod util;

pub use author::StumpAuthor;
pub use entry::{OpdsEntry, ToOpdsEntry};
pub use feed::OpdsFeed;
pub use link::{OpdsLink, OpdsLinkRel, OpdsLinkType};
pub use util::OpdsEnumStr;
