//! Core vocabulary of the service: slugs, URLs, short links, statistics,
//! and the closed set of errors a command or query can return.

use vstd::prelude::*;

verus! {

/// All possible errors of the [`crate::UrlShortenerService`].
#[derive(Clone, Debug, PartialEq, Eq, Hash)]
pub enum ShortenerError {
    /// This error occurs when an invalid [`Url`] is provided for shortening.
    InvalidUrl,
    /// This error occurs when an attempt is made to use a slug (custom alias)
    /// that already exists.
    SlugAlreadyInUse,
    /// This error occurs when the provided [`Slug`] does not map to any
    /// existing short link.
    SlugNotFound,
}

/// A unique string (or alias) that represents the shortened version of the
/// URL.
#[derive(Clone, Debug, PartialEq, Eq, Hash)]
pub struct Slug(pub String);

/// The original URL that the short link points to.
#[derive(Clone, Debug, PartialEq)]
pub struct Url(pub String);

impl View for Slug {
    type V = Seq<char>;

    open spec fn view(&self) -> Seq<char> {
        self.0@
    }
}

impl View for Url {
    type V = Seq<char>;

    open spec fn view(&self) -> Seq<char> {
        self.0@
    }
}

impl Slug {
    /// A copy of this slug whose characters are known to be the same.
    pub fn duplicate(&self) -> (r: Slug)
        ensures
            r@ == self@,
    {
        Slug(self.0.clone())
    }

    /// Whether two slugs consist of the same characters.
    pub fn same_as(&self, other: &Slug) -> (b: bool)
        ensures
            b == (self@ == other@),
    {
        self.0 == other.0
    }
}

impl Url {
    /// A copy of this URL whose characters are known to be the same.
    pub fn duplicate(&self) -> (r: Url)
        ensures
            r@ == self@,
    {
        Url(self.0.clone())
    }
}

/// Shortened URL representation.
#[derive(Debug, Clone, PartialEq)]
pub struct ShortLink {
    /// A unique string (or alias) that represents the shortened version of
    /// the URL.
    pub slug: Slug,
    /// The original URL that the short link points to.
    pub url: Url,
}

/// Statistics of the [`ShortLink`].
#[derive(Debug, Clone, PartialEq)]
pub struct Stats {
    /// [`ShortLink`] to which this [`Stats`] are related.
    pub link: ShortLink,
    /// Count of redirects of the [`ShortLink`].
    pub redirects: u64,
}

/// Whether `c` is an ASCII letter or digit — the alphabet generated slugs
/// are drawn from.
pub open spec fn ascii_alphanumeric(c: char) -> bool {
    ('a' <= c && c <= 'z') || ('A' <= c && c <= 'Z') || ('0' <= c && c <= '9')
}

/// A URL is accepted when it is non-empty; any finer grammar belongs to a
/// pluggable validator and is deliberately not fixed here.
pub open spec fn valid_url(url: Seq<char>) -> bool {
    url.len() > 0
}

/// Runs the URL validator that guards every command which accepts a URL.
pub fn url_is_valid(url: &Url) -> (b: bool)
    ensures
        b == valid_url(url@),
{
    !url.0.as_str().is_empty()
}

} // verus!
