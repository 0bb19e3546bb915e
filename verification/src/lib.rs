//! Scrapes a fan-fiction archive reading-history page into typed records and
//! republishes them as a paginated Atom/OPDS catalog feed.
//!
//! The crate is organised as: text-level parsing primitives (`text`), the
//! archive-side record extractors (`select`, `work`, `history`, `dates`),
//! the feed model and serializer (`opds`), a page-level LRU cache (`cache`),
//! and the URL shapes of the upstream site (`urls`).

pub mod cache;
pub mod dates;
pub mod errors;
pub mod extract;
pub mod history;
pub mod opds;
pub mod select;
pub mod text;
pub mod urls;
pub mod work;

pub use cache::PageCache;
pub use dates::AoDate;
pub use errors::ExtractError;
pub use extract::authenticity_token_from_markup;
pub use history::{Changed, HistoryPage, HistoryWork};
pub use work::{Authors, Chapters, RawSeries, RawWork, SeriesRef, Tags, Work};
pub use opds::{OpdsEntry, OpdsEnumStr, OpdsFeed, OpdsLink, OpdsLinkRel, OpdsLinkType, StumpAuthor};
pub use text::u64_to_string;
