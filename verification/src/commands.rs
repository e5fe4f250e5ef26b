//! Commands for CQRS: the write surface.
//!
//! A command handler validates a command against the current read-models,
//! and on success appends exactly one event to the log and applies it.  No
//! command leaves the log and the read-models in divergent states: when a
//! command fails, nothing was appended.

use vstd::prelude::*;
use crate::domain::{valid_url, ShortLink, ShortenerError, Slug, Url};
use crate::events::EventV;
use crate::projections::project;

verus! {

/// What a successful creation did: the slug was free, exactly one
/// `LinkCreated` event was appended, and the returned short link carries
/// the new slug and its URL.
pub open spec fn created_ok(
    pre: Seq<EventV>,
    post: Seq<EventV>,
    slug: Seq<char>,
    url: Seq<char>,
    r: Result<ShortLink, ShortenerError>,
) -> bool {
    &&& !project(pre).dom().contains(slug)
    &&& post == pre.push((EventV::LinkCreated { slug, url }))
    &&& (r matches Ok(link) && link.slug@ == slug && link.url@ == url)
}

/// Everything a call of `handle_create_short_link` may do, as a relation
/// between the event stream before (`pre`) and after (`post`) the call and
/// its result: an invalid URL or a supplied slug already in the existence
/// index is rejected with nothing appended; a free slug — supplied, or
/// whichever one the generator produced — is committed with exactly one
/// `LinkCreated` event.  On the generated path, rejection is possible only
/// when the candidate collided, so it carries a witness: some six-character
/// slug already stood in the existence index.  In particular, on a fresh
/// service — or any state holding no six-character slug — success is owed.
pub open spec fn create_post(
    pre: Seq<EventV>,
    post: Seq<EventV>,
    url: Seq<char>,
    slug: Option<Slug>,
    r: Result<ShortLink, ShortenerError>,
) -> bool {
    if !valid_url(url) {
        post == pre && r == Err::<ShortLink, ShortenerError>(ShortenerError::InvalidUrl)
    } else {
        match slug {
            Some(s) => if project(pre).dom().contains(s@) {
                post == pre && r == Err::<ShortLink, ShortenerError>(
                    ShortenerError::SlugAlreadyInUse,
                )
            } else {
                created_ok(pre, post, s@, url, r)
            },
            None => (r matches Ok(link) && created_ok(pre, post, link.slug@, url, r)) || (post
                == pre && r == Err::<ShortLink, ShortenerError>(
                ShortenerError::SlugAlreadyInUse,
            ) && (exists|g: Seq<char>| project(pre).dom().contains(g) && g.len() == 6)),
        }
    }
}

/// Trait for command handlers.
pub trait CommandHandler: Sized {
    /// The canonical event stream the handler has appended so far.
    spec fn events(&self) -> Seq<EventV>;

    /// The handler's internal consistency: read-models agree with the log
    /// and the log satisfies the stream invariants.
    spec fn inv(&self) -> bool;

    /// Creates a new short link.  It accepts the original URL and an
    /// optional [`Slug`].  If a [`Slug`] is not provided, the service
    /// generates one and re-checks it against the slug existence index
    /// before committing: the handler is the final uniqueness gate, so a
    /// generated slug that collides is rejected, not retried.
    ///
    /// ## Errors
    ///
    /// See [`ShortenerError`].
    fn handle_create_short_link(&mut self, url: Url, slug: Option<Slug>) -> (r: Result<
        ShortLink,
        ShortenerError,
    >)
        requires
            old(self).inv(),
        ensures
            final(self).inv(),
            create_post(old(self).events(), final(self).events(), url@, slug, r),
    ;

    /// Processes a redirection by [`Slug`], returning the associated
    /// [`ShortLink`] or a [`ShortenerError`].  On success exactly one
    /// `RedirectRecorded` event is appended — counting accesses is a core
    /// requirement, so this read-like access mutates state by design; on
    /// failure nothing is appended.
    fn handle_redirect(&mut self, slug: Slug) -> (r: Result<ShortLink, ShortenerError>)
        requires
            old(self).inv(),
        ensures
            final(self).inv(),
            project(old(self).events()).dom().contains(slug@) ==> final(self).events() == old(self).events().push((EventV::RedirectRecorded { slug: slug@ })) && (r matches Ok(link)
                && link.slug@ == slug@ && link.url@ == project(old(self).events())[slug@].url),
            !project(old(self).events()).dom().contains(slug@) ==> final(self).events() == old(self).events() && r == Err::<ShortLink, ShortenerError>(ShortenerError::SlugNotFound),
    ;

    /// Changes the URL of a [`ShortLink`] with a provided [`Slug`].  The
    /// slug is checked first, then the URL; on success exactly one
    /// `LinkUrlChanged` event is appended, on failure nothing is.
    fn handle_change_short_link(&mut self, slug: Slug, new_url: Url) -> (r: Result<
        ShortLink,
        ShortenerError,
    >)
        requires
            old(self).inv(),
        ensures
            final(self).inv(),
            !project(old(self).events()).dom().contains(slug@) ==> final(self).events() == old(self).events() && r == Err::<ShortLink, ShortenerError>(ShortenerError::SlugNotFound),
            project(old(self).events()).dom().contains(slug@) && !valid_url(new_url@) ==> final(self).events() == old(self).events() && r == Err::<ShortLink, ShortenerError>(
                ShortenerError::InvalidUrl,
            ),
            project(old(self).events()).dom().contains(slug@) && valid_url(new_url@) ==> final(self).events() == old(self).events().push(
                (EventV::LinkUrlChanged { slug: slug@, new_url: new_url@ }),
            ) && (r matches Ok(link) && link.slug@ == slug@ && link.url@ == new_url@),
    ;
}

} // verus!
