//! The event log: the only mutation primitive and the sole source of truth.
//!
//! An [`Event`] is an immutable fact describing one state transition.  The
//! [`EventLog`] owns the canonical append-only sequence of events; nothing
//! is ever removed or mutated after an append, and only the log produces
//! sequence numbers.

use vstd::prelude::*;
use crate::domain::{Slug, Url};

verus! {

/// One immutable domain event.
pub enum Event {
    /// Establishes the slug -> URL mapping; the click count starts at 0.
    LinkCreated { slug: Slug, url: Url },
    /// Rebinds an existing slug's target URL.
    LinkUrlChanged { slug: Slug, new_url: Url },
    /// Increments the click count for a slug by exactly 1.
    RedirectRecorded { slug: Slug },
}

/// The mathematical shadow of an [`Event`]: the same three variants over
/// character sequences instead of heap-allocated strings.
pub enum EventV {
    LinkCreated { slug: Seq<char>, url: Seq<char> },
    LinkUrlChanged { slug: Seq<char>, new_url: Seq<char> },
    RedirectRecorded { slug: Seq<char> },
}

impl View for Event {
    type V = EventV;

    open spec fn view(&self) -> EventV {
        match self {
            Event::LinkCreated { slug, url } => EventV::LinkCreated { slug: slug@, url: url@ },
            Event::LinkUrlChanged { slug, new_url } => EventV::LinkUrlChanged {
                slug: slug@,
                new_url: new_url@,
            },
            Event::RedirectRecorded { slug } => EventV::RedirectRecorded { slug: slug@ },
        }
    }
}

/// The slug an event is about.
pub open spec fn event_slug(e: EventV) -> Seq<char> {
    match e {
        EventV::LinkCreated { slug, .. } => slug,
        EventV::LinkUrlChanged { slug, .. } => slug,
        EventV::RedirectRecorded { slug } => slug,
    }
}

/// Whether `e` is a `LinkCreated` event for `slug`.
pub open spec fn creates(e: EventV, slug: Seq<char>) -> bool {
    match e {
        EventV::LinkCreated { slug: s, .. } => s == slug,
        _ => false,
    }
}

/// Whether `e` is a `RedirectRecorded` event for `slug`.
pub open spec fn is_redirect(e: EventV, slug: Seq<char>) -> bool {
    match e {
        EventV::RedirectRecorded { slug: s } => s == slug,
        _ => false,
    }
}

/// Whether some event of the stream creates `slug`.
pub open spec fn slug_created_in(events: Seq<EventV>, slug: Seq<char>) -> bool {
    exists|j: int| 0 <= j < events.len() && creates(#[trigger] events[j], slug)
}

/// Stream invariant: a `LinkCreated` event for a given slug occurs at most
/// once in the entire stream.
pub open spec fn unique_creation(events: Seq<EventV>) -> bool {
    forall|i: int, j: int|
        0 <= i < j < events.len() && events[i] is LinkCreated ==> !(#[trigger] creates(
            events[j],
            event_slug(events[i]),
        ))
}

/// Stream invariant: `LinkUrlChanged` and `RedirectRecorded` events are
/// preceded by the `LinkCreated` event for their slug.
pub open spec fn causally_ordered(events: Seq<EventV>) -> bool {
    forall|i: int|
        0 <= i < events.len() ==> (#[trigger] events[i] is LinkCreated || slug_created_before(
            events,
            i,
            event_slug(events[i]),
        ))
}

/// Whether `slug` is created by an event strictly before position `n`.
pub open spec fn slug_created_before(events: Seq<EventV>, n: int, slug: Seq<char>) -> bool {
    exists|j: int| 0 <= j < n && creates(#[trigger] events[j], slug)
}

/// How many `RedirectRecorded` events for `slug` the stream holds.
pub open spec fn count_redirects(events: Seq<EventV>, slug: Seq<char>) -> nat
    decreases events.len(),
{
    if events.len() == 0 {
        0
    } else {
        count_redirects(events.drop_last(), slug) + if is_redirect(events.last(), slug) {
            1nat
        } else {
            0nat
        }
    }
}

/// Appending one event changes the redirect count of `slug` by exactly one
/// when the event records a redirect of `slug`, and not at all otherwise.
pub proof fn lemma_count_redirects_push(events: Seq<EventV>, e: EventV, slug: Seq<char>)
    ensures
        count_redirects(events.push(e), slug) == count_redirects(events, slug) + if is_redirect(
            e,
            slug,
        ) {
            1nat
        } else {
            0nat
        },
{
    assert(events.push(e).drop_last() =~= events);
    assert(events.push(e).last() == e);
}

/// A stream without any `RedirectRecorded` event for `slug` counts zero
/// redirects of it.
pub proof fn lemma_count_redirects_zero(events: Seq<EventV>, slug: Seq<char>)
    requires
        forall|i: int| 0 <= i < events.len() ==> !is_redirect(#[trigger] events[i], slug),
    ensures
        count_redirects(events, slug) == 0,
    decreases events.len(),
{
    if events.len() > 0 {
        lemma_count_redirects_zero(events.drop_last(), slug);
    }
}

/// Append-only ordered sequence of domain events; the source of truth.
pub struct EventLog {
    events: Vec<Event>,
}

impl View for EventLog {
    type V = Seq<EventV>;

    closed spec fn view(&self) -> Seq<EventV> {
        self.events@.map_values(|e: Event| e@)
    }
}

impl EventLog {
    /// An empty log; a fresh iteration of it starts at sequence number 0.
    pub fn new() -> (log: EventLog)
        ensures
            log@ == Seq::<EventV>::empty(),
    {
        let log = EventLog { events: Vec::new() };
        proof {
            assert(log@ =~= Seq::<EventV>::empty());
        }
        log
    }

    /// How many events the log holds.
    pub fn len(&self) -> (n: usize)
        ensures
            n == self@.len(),
    {
        self.events.len()
    }

    /// Appends an event and returns its sequence number.  Appending never
    /// fails (short of resource exhaustion), never removes or mutates an
    /// earlier event, and numbers events consecutively from 0.
    pub fn append(&mut self, event: Event) -> (seq_no: usize)
        ensures
            final(self)@ == old(self)@.push(event@),
            seq_no == old(self)@.len(),
    {
        let seq_no = self.events.len();
        self.events.push(event);
        proof {
            assert(self@ =~= old(self)@.push(event@));
        }
        seq_no
    }

    /// The event at sequence number `i`.  Reading the log at successive
    /// indices from 0 replays it from the start, independently of any
    /// earlier reads.
    pub fn event_at(&self, i: usize) -> (e: &Event)
        requires
            i < self@.len(),
        ensures
            e@ == self@[i as int],
    {
        &self.events[i]
    }

    /// A log always fits in memory: its length is machine-bounded.
    pub proof fn lemma_len_bounded(&self)
        ensures
            self@.len() <= usize::MAX,
    {
        vstd::std_specs::vec::axiom_spec_len(&self.events);
    }
}

} // verus!
