//! The CQRS and Event Sourcing-based service implementation.
//!
//! [`UrlShortenerService`] owns the event log and the projections and keeps
//! them consistent: every command validates against the projections,
//! appends exactly one event, and applies that event to the projections —
//! one indivisible unit of work behind `&mut self`.  Queries read the
//! projections only.

use vstd::prelude::*;
use rand::Rng;
use crate::commands::CommandHandler;
use crate::domain::{ascii_alphanumeric, url_is_valid, ShortLink, ShortenerError, Slug, Stats, Url};
use crate::events::{
    causally_ordered, count_redirects, creates, event_slug, slug_created_before,
    slug_created_in, unique_creation, Event, EventLog, EventV,
};
use crate::projections::{project, LinkStateV, Projections};
use crate::projections::{lemma_clicks_bounded, lemma_clicks_count_redirects, lemma_project_dom};
use crate::queries::QueryHandler;

verus! {

/// Appending a `LinkCreated` event for a slug never created before
/// preserves both stream invariants.
proof fn lemma_push_created(events: Seq<EventV>, slug: Seq<char>, url: Seq<char>)
    requires
        unique_creation(events),
        causally_ordered(events),
        !slug_created_in(events, slug),
    ensures
        unique_creation(events.push((EventV::LinkCreated { slug, url }))),
        causally_ordered(events.push((EventV::LinkCreated { slug, url }))),
{
    let e = EventV::LinkCreated { slug, url };
    let p = events.push(e);
    assert forall|i: int, j: int|
        0 <= i < j < p.len() && p[i] is LinkCreated implies !(creates(
        p[j],
        event_slug(p[i]),
    )) by {
        if j < events.len() {
            assert(p[i] == events[i]);
            assert(p[j] == events[j]);
        } else {
            assert(p[j] == e);
            assert(p[i] == events[i]);
            if creates(e, event_slug(events[i])) {
                assert(event_slug(events[i]) == slug);
                assert(creates(events[i], slug));
                assert(slug_created_in(events, slug));
            }
        }
    }
    assert forall|i: int| 0 <= i < p.len() implies (#[trigger] p[i] is LinkCreated
        || slug_created_before(p, i, event_slug(p[i]))) by {
        if i < events.len() {
            assert(p[i] == events[i]);
            if !(events[i] is LinkCreated) {
                let j = choose|j: int|
                    0 <= j < i && creates(#[trigger] events[j], event_slug(events[i]));
                assert(p[j] == events[j]);
                assert(creates(p[j], event_slug(p[i])));
            }
        } else {
            assert(p[i] == e);
        }
    }
}

/// Appending a `LinkUrlChanged` or `RedirectRecorded` event whose slug was
/// created earlier preserves both stream invariants.
proof fn lemma_push_noncreate(events: Seq<EventV>, e: EventV)
    requires
        unique_creation(events),
        causally_ordered(events),
        !(e is LinkCreated),
        slug_created_in(events, event_slug(e)),
    ensures
        unique_creation(events.push(e)),
        causally_ordered(events.push(e)),
{
    let p = events.push(e);
    assert forall|i: int, j: int|
        0 <= i < j < p.len() && p[i] is LinkCreated implies !(creates(
        p[j],
        event_slug(p[i]),
    )) by {
        if j < events.len() {
            assert(p[i] == events[i]);
            assert(p[j] == events[j]);
        } else {
            assert(p[j] == e);
        }
    }
    assert forall|i: int| 0 <= i < p.len() implies (#[trigger] p[i] is LinkCreated
        || slug_created_before(p, i, event_slug(p[i]))) by {
        if i < events.len() {
            assert(p[i] == events[i]);
            if !(events[i] is LinkCreated) {
                let j = choose|j: int|
                    0 <= j < i && creates(#[trigger] events[j], event_slug(events[i]));
                assert(p[j] == events[j]);
                assert(creates(p[j], event_slug(p[i])));
            }
        } else {
            assert(p[i] == e);
            let j = choose|j: int|
                0 <= j < events.len() && creates(#[trigger] events[j], event_slug(e));
            assert(p[j] == events[j]);
            assert(creates(p[j], event_slug(p[i])));
        }
    }
}

/// CQRS and Event Sourcing-based service implementation.
pub struct UrlShortenerService {
    log: EventLog,
    projections: Projections,
}

impl UrlShortenerService {
    /// Well-formedness: the projections are exactly the fold of the log,
    /// and the log satisfies the stream invariants — each slug is created
    /// at most once, and only after creation is it changed or redirected.
    pub closed spec fn wf(&self) -> bool {
        &&& self.projections.inv()
        &&& self.projections@ == project(self.log@)
        &&& unique_creation(self.log@)
        &&& causally_ordered(self.log@)
    }

    /// Creates a new instance of the service.
    pub fn new() -> (s: Self)
        ensures
            s.wf(),
            s.events() == Seq::<EventV>::empty(),
            s.stats_model() == Map::<Seq<char>, LinkStateV>::empty(),
    {
        let s = UrlShortenerService { log: EventLog::new(), projections: Projections::new() };
        proof {
            assert(project(s.log@) =~= Map::<Seq<char>, LinkStateV>::empty());
        }
        s
    }

    /// Generates a random slug (basic version).
    ///
    /// Relies on rand's `thread_rng` and `Rng::sample_iter` over the
    /// `Alphanumeric` distribution: the iterator yields one byte per
    /// sample, drawn from the 62 ASCII letters and digits, so taking six
    /// and converting each to `char` gives a string of exactly six ASCII
    /// alphanumeric characters.  Which six depends on the thread-local
    /// generator, so nothing more is claimed; the caller re-checks the
    /// result against the slug existence index.
    #[verifier::external_body]
    fn generate_random_slug() -> (slug: Slug)
        ensures
            slug@.len() == 6,
            forall|i: int| 0 <= i < slug@.len() ==> ascii_alphanumeric(#[trigger] slug@[i]),
    {
        let s: String = rand::thread_rng()
            .sample_iter(&rand::distributions::Alphanumeric)
            .take(6)
            .map(char::from)
            .collect();
        Slug(s)
    }

    /// How many events the log holds.
    pub fn event_count(&self) -> (n: usize)
        ensures
            n == self.events().len(),
    {
        self.log.len()
    }

    /// Drops the projections and rebuilds them by replaying the whole log
    /// from sequence number 0.  Projections are disposable caches: the
    /// rebuilt read-model is exactly the one incremental application had
    /// produced, so the observable state does not change.
    pub fn rebuild_projections(&mut self)
        requires
            old(self).wf(),
        ensures
            final(self).wf(),
            final(self).events() == old(self).events(),
            final(self).stats_model() == old(self).stats_model(),
    {
        let p = Projections::rebuild(&self.log);
        self.projections = p;
    }
}

impl CommandHandler for UrlShortenerService {
    closed spec fn events(&self) -> Seq<EventV> {
        self.log@
    }

    open spec fn inv(&self) -> bool {
        self.wf()
    }

    fn handle_create_short_link(&mut self, url: Url, slug: Option<Slug>) -> (r: Result<
        ShortLink,
        ShortenerError,
    >) {
        if !url_is_valid(&url) {
            return Err(ShortenerError::InvalidUrl);
        }
        let chosen = match slug {
            Some(s) => s,
            None => Self::generate_random_slug(),
        };
        // the final uniqueness gate, for supplied and generated slugs alike
        if self.projections.contains_slug(&chosen) {
            proof {
                // on the generated path the rejected candidate itself
                // witnesses a six-character slug already in the index
                assert(slug is None ==> project(old(self).events()).dom().contains(chosen@)
                    && chosen@.len() == 6);
            }
            return Err(ShortenerError::SlugAlreadyInUse);
        }
        let ghost pre_log = self.log@;
        proof {
            lemma_project_dom(pre_log, chosen@);
            lemma_push_created(pre_log, chosen@, url@);
        }
        let event = Event::LinkCreated { slug: chosen.duplicate(), url: url.duplicate() };
        let seq_no = self.log.append(event);
        let e = self.log.event_at(seq_no);
        self.projections.apply(e);
        proof {
            assert(self.log@.drop_last() =~= pre_log);
            assert(self.projections@ == project(self.log@));
        }
        Ok(ShortLink { slug: chosen, url })
    }

    fn handle_redirect(&mut self, slug: Slug) -> (r: Result<ShortLink, ShortenerError>) {
        match self.projections.link_of(&slug) {
            None => Err(ShortenerError::SlugNotFound),
            Some(link) => {
                let ghost pre_log = self.log@;
                proof {
                    self.log.lemma_len_bounded();
                    lemma_clicks_bounded(pre_log, slug@);
                    lemma_project_dom(pre_log, slug@);
                    lemma_push_noncreate(pre_log, (EventV::RedirectRecorded { slug: slug@ }));
                }
                let event = Event::RedirectRecorded { slug: slug.duplicate() };
                let seq_no = self.log.append(event);
                let e = self.log.event_at(seq_no);
                self.projections.apply(e);
                proof {
                    assert(self.log@.drop_last() =~= pre_log);
                    assert(self.projections@ == project(self.log@));
                }
                Ok(link)
            },
        }
    }

    fn handle_change_short_link(&mut self, slug: Slug, new_url: Url) -> (r: Result<
        ShortLink,
        ShortenerError,
    >) {
        match self.projections.link_of(&slug) {
            None => Err(ShortenerError::SlugNotFound),
            Some(_) => {
                if !url_is_valid(&new_url) {
                    return Err(ShortenerError::InvalidUrl);
                }
                let ghost pre_log = self.log@;
                proof {
                    lemma_project_dom(pre_log, slug@);
                    lemma_push_noncreate(
                        pre_log,
                        (EventV::LinkUrlChanged { slug: slug@, new_url: new_url@ }),
                    );
                }
                let event = Event::LinkUrlChanged {
                    slug: slug.duplicate(),
                    new_url: new_url.duplicate(),
                };
                let seq_no = self.log.append(event);
                let e = self.log.event_at(seq_no);
                self.projections.apply(e);
                proof {
                    assert(self.log@.drop_last() =~= pre_log);
                    assert(self.projections@ == project(self.log@));
                }
                Ok(ShortLink { slug, url: new_url })
            },
        }
    }
}

impl QueryHandler for UrlShortenerService {
    closed spec fn stats_model(&self) -> Map<Seq<char>, LinkStateV> {
        self.projections@
    }

    open spec fn inv(&self) -> bool {
        self.wf()
    }

    fn get_stats(&self, slug: Slug) -> (r: Result<Stats, ShortenerError>) {
        match self.projections.stats_of(&slug) {
            Some(st) => Ok(st),
            None => Err(ShortenerError::SlugNotFound),
        }
    }
}

/// The read surface answers from the fold of the write surface's log: on a
/// well-formed service, the query model and a full replay of the event
/// stream are the same map.
pub proof fn lemma_models_agree(s: &UrlShortenerService)
    requires
        s.wf(),
    ensures
        s.stats_model() == project(s.events()),
        CommandHandler::inv(s) == s.wf(),
        QueryHandler::inv(s) == s.wf(),
{
}

/// Uniqueness: for every slug, at most one `LinkCreated` event for it ever
/// appears in the event log of a well-formed service — the handlers
/// guarantee it by construction, validating against the slug existence
/// index before appending.
pub proof fn lemma_created_at_most_once(s: &UrlShortenerService)
    requires
        s.wf(),
    ensures
        unique_creation(s.events()),
{
}

/// Causal order: in the event log of a well-formed service, every
/// `LinkUrlChanged` and `RedirectRecorded` event is preceded by the
/// `LinkCreated` event for its slug — guaranteed by construction, since
/// every command validates against the projections strictly before
/// appending.
pub proof fn lemma_causally_ordered(s: &UrlShortenerService)
    requires
        s.wf(),
    ensures
        causally_ordered(s.events()),
{
}

/// Monotonic counting: the redirect count a query reports for a known slug
/// equals the number of `RedirectRecorded` events for it in the log —
/// 0 at creation, and each successful redirect appends exactly one.
pub proof fn lemma_stats_count_redirects(s: &UrlShortenerService, slug: Seq<char>)
    requires
        s.wf(),
        s.stats_model().dom().contains(slug),
    ensures
        s.stats_model()[slug].clicks == count_redirects(s.events(), slug),
{
    lemma_clicks_count_redirects(s.events(), slug);
}

} // verus!
