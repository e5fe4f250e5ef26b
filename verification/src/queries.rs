//! Queries for CQRS: the read surface.
//!
//! A query handler reads from the current read-models only; it never
//! touches the event log and never mutates anything.

use vstd::prelude::*;
use crate::domain::{ShortenerError, Slug, Stats};
use crate::projections::LinkStateV;

verus! {

/// Trait for query handlers.
pub trait QueryHandler {
    /// The read-model the handler answers from: each known slug's current
    /// URL and click count.
    spec fn stats_model(&self) -> Map<Seq<char>, LinkStateV>;

    /// The handler's internal consistency.
    spec fn inv(&self) -> bool;

    /// Returns the [`Stats`] for a specific [`ShortLink`], such as the
    /// number of redirects (clicks).
    ///
    /// The result is a function of the handler's state and the slug alone,
    /// and the receiver is not mutated, so reading is idempotent: two calls
    /// with no intervening command return identical results.
    ///
    /// [`ShortLink`]: crate::domain::ShortLink
    fn get_stats(&self, slug: Slug) -> (r: Result<Stats, ShortenerError>)
        requires
            self.inv(),
        ensures
            self.stats_model().dom().contains(slug@) ==> (r matches Ok(st) && st.link.slug@
                == slug@ && st.link.url@ == self.stats_model()[slug@].url && st.redirects as nat
                == self.stats_model()[slug@].clicks),
            !self.stats_model().dom().contains(slug@) ==> r == Err::<Stats, ShortenerError>(
                ShortenerError::SlugNotFound,
            ),
    ;
}

} // verus!
