//! The URL shapes of the upstream site. The system repeats one known URL
//! shape per listing; these builders state each shape exactly.

use vstd::prelude::*;

use crate::text::{dec_digits, str_eq, u64_to_string};

verus! {

/// The root of the upstream site.
pub open spec fn base_url_text() -> Seq<char> {
    "https://archiveofourown.org"@
}

/// The login form URL.
pub open spec fn login_url_text() -> Seq<char> {
    base_url_text() + "/users/login"@
}

/// One user listing URL: `<base>/users/<user>/<section>?page=<page>`.
pub open spec fn user_listing_url_text(user: Seq<char>, section: Seq<char>, page: int) -> Seq<
    char,
> {
    base_url_text() + "/users/"@ + user + "/"@ + section + "?page="@ + dec_digits(page)
}

/// Builds the login form URL.
pub fn login_url() -> (r: String)
    ensures
        r@ == login_url_text(),
{
    let mut url = String::new();
    url.append("https://archiveofourown.org");
    url.append("/users/login");
    proof {
        assert(url@ =~= login_url_text());
    }
    url
}

/// Builds one user listing URL.
fn user_listing_url(user: &str, section: &str, page: usize) -> (r: String)
    ensures
        r@ == user_listing_url_text(user@, section@, page as int),
{
    let mut url = String::new();
    url.append("https://archiveofourown.org");
    url.append("/users/");
    url.append(user);
    url.append("/");
    url.append(section);
    url.append("?page=");
    let num = u64_to_string(page as u64);
    url.append(num.as_str());
    proof {
        assert(url@ =~= user_listing_url_text(user@, section@, page as int));
    }
    url
}

/// The subscriptions listing of one user.
pub fn subscriptions_url(user: &str, page: usize) -> (r: String)
    ensures
        r@ == user_listing_url_text(user@, "subscriptions"@, page as int),
{
    user_listing_url(user, "subscriptions", page)
}

/// The bookmarks listing of one user.
pub fn bookmarks_url(user: &str, page: usize) -> (r: String)
    ensures
        r@ == user_listing_url_text(user@, "bookmarks"@, page as int),
{
    user_listing_url(user, "bookmarks", page)
}

/// The reading-history listing of one user.
pub fn history_url(user: &str, page: usize) -> (r: String)
    ensures
        r@ == user_listing_url_text(user@, "readings"@, page as int),
{
    user_listing_url(user, "readings", page)
}

/// The login decision: a login that lands anywhere but back on the login
/// form succeeded.
pub fn login_succeeded(final_url: &str) -> (r: bool)
    ensures
        r == (final_url@ != login_url_text()),
{
    let expected = login_url();
    !str_eq(final_url, expected.as_str())
}

} // verus!
