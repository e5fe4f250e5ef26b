//! Derived read-models folded from the event log, and the replay engine.
//!
//! [`Projections`] materialises the three read-models — slug existence
//! index, slug directory (slug -> current URL) and click counter — as one
//! table updated atomically per event.  The mathematical model of all
//! three is one map from slug to [`LinkStateV`], and the model of replay
//! is the pure fold [`project`].  Projections are disposable caches: they
//! can be dropped and rebuilt from the log at any time, and rebuilding
//! yields exactly the state that incremental application produced.

use vstd::prelude::*;
use crate::domain::{ShortLink, Slug, Stats, Url};
use crate::events::{
    creates, causally_ordered, count_redirects, is_redirect, slug_created_before,
    slug_created_in, Event, EventLog, EventV,
};

verus! {

/// The state a projection holds for one slug: its current URL and how many
/// redirects have been recorded for it.
pub struct LinkStateV {
    pub url: Seq<char>,
    pub clicks: nat,
}

/// The pure replay step: how one event transforms the read-model map.
/// Events whose slug does not satisfy the stream's causal invariant
/// (a redirect or change before creation, or a second creation) leave the
/// map unchanged; the command handler never appends such an event.
pub open spec fn apply_event(
    m: Map<Seq<char>, LinkStateV>,
    e: EventV,
) -> Map<Seq<char>, LinkStateV> {
    match e {
        EventV::LinkCreated { slug, url } => if m.dom().contains(slug) {
            m
        } else {
            m.insert(slug, LinkStateV { url, clicks: 0 })
        },
        EventV::LinkUrlChanged { slug, new_url } => if m.dom().contains(slug) {
            m.insert(slug, LinkStateV { url: new_url, clicks: m[slug].clicks })
        } else {
            m
        },
        EventV::RedirectRecorded { slug } => if m.dom().contains(slug) {
            m.insert(slug, LinkStateV { url: m[slug].url, clicks: m[slug].clicks + 1 })
        } else {
            m
        },
    }
}

/// A full replay: the read-model map implied by an event stream, folded
/// from the empty map by [`apply_event`].
pub open spec fn project(events: Seq<EventV>) -> Map<Seq<char>, LinkStateV>
    decreases events.len(),
{
    if events.len() == 0 {
        Map::empty()
    } else {
        apply_event(project(events.drop_last()), events.last())
    }
}

/// The machine limit under which one more event can be applied: a recorded
/// redirect must not overflow the 64-bit click counter.  Any log that fits
/// in memory satisfies it (see [`lemma_clicks_bounded`]).
pub open spec fn click_fits(m: Map<Seq<char>, LinkStateV>, e: EventV) -> bool {
    match e {
        EventV::RedirectRecorded { slug } => m.dom().contains(slug) ==> m[slug].clicks
            < u64::MAX,
        _ => true,
    }
}

/// One row of the materialised read-models.
struct LinkEntry {
    slug: Slug,
    url: Url,
    clicks: u64,
}

/// The read-model map a table of rows stands for.
spec fn entries_map(s: Seq<LinkEntry>) -> Map<Seq<char>, LinkStateV>
    decreases s.len(),
{
    if s.len() == 0 {
        Map::empty()
    } else {
        entries_map(s.drop_last()).insert(
            s.last().slug@,
            LinkStateV { url: s.last().url@, clicks: s.last().clicks as nat },
        )
    }
}

/// No two rows describe the same slug.
spec fn distinct_slugs(s: Seq<LinkEntry>) -> bool {
    forall|i: int, j: int|
        0 <= i < j < s.len() ==> #[trigger] s[i].slug@ != #[trigger] s[j].slug@
}

proof fn lemma_entries_map_dom(s: Seq<LinkEntry>, slug: Seq<char>)
    ensures
        entries_map(s).dom().contains(slug) <==> exists|i: int|
            0 <= i < s.len() && (#[trigger] s[i]).slug@ == slug,
    decreases s.len(),
{
    if s.len() > 0 {
        let dl = s.drop_last();
        lemma_entries_map_dom(dl, slug);
        if s.last().slug@ == slug {
            assert(s[s.len() - 1].slug@ == slug);
        } else {
            if exists|i: int| 0 <= i < dl.len() && (#[trigger] dl[i]).slug@ == slug {
                let i = choose|i: int| 0 <= i < dl.len() && (#[trigger] dl[i]).slug@ == slug;
                assert(s[i].slug@ == slug);
            }
            if exists|i: int| 0 <= i < s.len() && (#[trigger] s[i]).slug@ == slug {
                let i = choose|i: int| 0 <= i < s.len() && (#[trigger] s[i]).slug@ == slug;
                assert(i < s.len() - 1);
                assert(dl[i].slug@ == slug);
            }
        }
    }
}

proof fn lemma_entries_map_lookup(s: Seq<LinkEntry>, i: int)
    requires
        distinct_slugs(s),
        0 <= i < s.len(),
    ensures
        entries_map(s).dom().contains(s[i].slug@),
        entries_map(s)[s[i].slug@] == (LinkStateV {
            url: s[i].url@,
            clicks: s[i].clicks as nat,
        }),
    decreases s.len(),
{
    if i < s.len() - 1 {
        let dl = s.drop_last();
        assert(distinct_slugs(dl)) by {
            assert(forall|p: int, q: int|
                0 <= p < q < dl.len() ==> #[trigger] dl[p].slug@ != #[trigger] dl[q].slug@)
                by {
                assert(forall|p: int| 0 <= p < dl.len() ==> dl[p] == s[p]);
            }
        }
        lemma_entries_map_lookup(dl, i);
        assert(dl[i] == s[i]);
        assert(s[i].slug@ != s.last().slug@);
    }
}

proof fn lemma_entries_map_update(s: Seq<LinkEntry>, i: int, e: LinkEntry)
    requires
        distinct_slugs(s),
        0 <= i < s.len(),
        e.slug@ == s[i].slug@,
    ensures
        entries_map(s.update(i, e)) == entries_map(s).insert(
            e.slug@,
            LinkStateV { url: e.url@, clicks: e.clicks as nat },
        ),
    decreases s.len(),
{
    let su = s.update(i, e);
    let st = LinkStateV { url: e.url@, clicks: e.clicks as nat };
    if i == s.len() - 1 {
        assert(su.drop_last() =~= s.drop_last());
        assert(su.last() == e);
        assert(entries_map(su) == entries_map(s.drop_last()).insert(e.slug@, st));
        assert(entries_map(s.drop_last()).insert(e.slug@, st) =~= entries_map(s).insert(
            e.slug@,
            st,
        ));
    } else {
        let dl = s.drop_last();
        assert(distinct_slugs(dl)) by {
            assert(forall|p: int| 0 <= p < dl.len() ==> dl[p] == s[p]);
        }
        assert(su.drop_last() =~= dl.update(i, e));
        assert(su.last() == s.last());
        lemma_entries_map_update(dl, i, e);
        assert(dl[i] == s[i]);
        // the updated slug differs from the untouched last row, so the two
        // inserts commute
        assert(e.slug@ != s.last().slug@);
        assert(entries_map(dl).insert(e.slug@, st).insert(
            s.last().slug@,
            LinkStateV { url: s.last().url@, clicks: s.last().clicks as nat },
        ) =~= entries_map(s).insert(e.slug@, st));
    }
}

/// The three read-models, materialised together: each row carries a slug's
/// existence (the row itself), its current URL, and its click count, so a
/// reader can never observe one of them updated without the others.
pub struct Projections {
    entries: Vec<LinkEntry>,
}

impl View for Projections {
    type V = Map<Seq<char>, LinkStateV>;

    closed spec fn view(&self) -> Map<Seq<char>, LinkStateV> {
        entries_map(self.entries@)
    }
}

impl Projections {
    /// Structural invariant: one row per slug.
    pub closed spec fn inv(&self) -> bool {
        distinct_slugs(self.entries@)
    }

    /// Empty read-models: the fold target before any event is applied.
    pub fn new() -> (p: Projections)
        ensures
            p.inv(),
            p@ == Map::<Seq<char>, LinkStateV>::empty(),
    {
        Projections { entries: Vec::new() }
    }

    /// The row index holding `slug`, if any.
    fn find(&self, slug: &Slug) -> (r: Option<usize>)
        ensures
            match r {
                Some(i) => i < self.entries@.len() && self.entries@[i as int].slug@ == slug@,
                None => forall|i: int|
                    0 <= i < self.entries@.len() ==> (#[trigger] self.entries@[i]).slug@
                        != slug@,
            },
    {
        let n = self.entries.len();
        let mut i: usize = 0;
        while i < n
            invariant
                i <= n,
                n == self.entries@.len(),
                forall|k: int| 0 <= k < i ==> (#[trigger] self.entries@[k]).slug@ != slug@,
            decreases n - i,
        {
            if self.entries[i].slug.same_as(slug) {
                return Some(i);
            }
            i += 1;
        }
        None
    }

    /// Whether the slug existence index holds `slug`.
    pub fn contains_slug(&self, slug: &Slug) -> (b: bool)
        ensures
            b == self@.dom().contains(slug@),
    {
        proof {
            lemma_entries_map_dom(self.entries@, slug@);
        }
        self.find(slug).is_some()
    }

    /// The current short link for `slug`: its entry in the slug directory,
    /// or `None` when the slug is unknown.
    pub fn link_of(&self, slug: &Slug) -> (r: Option<ShortLink>)
        requires
            self.inv(),
        ensures
            match r {
                Some(link) => self@.dom().contains(slug@) && link.slug@ == slug@ && link.url@
                    == self@[slug@].url,
                None => !self@.dom().contains(slug@),
            },
    {
        proof {
            lemma_entries_map_dom(self.entries@, slug@);
        }
        match self.find(slug) {
            Some(i) => {
                proof {
                    lemma_entries_map_lookup(self.entries@, i as int);
                }
                let row = &self.entries[i];
                Some(ShortLink { slug: row.slug.duplicate(), url: row.url.duplicate() })
            },
            None => None,
        }
    }

    /// The statistics for `slug`: its short link and click count, or `None`
    /// when the slug is unknown.
    pub fn stats_of(&self, slug: &Slug) -> (r: Option<Stats>)
        requires
            self.inv(),
        ensures
            match r {
                Some(st) => self@.dom().contains(slug@) && st.link.slug@ == slug@
                    && st.link.url@ == self@[slug@].url && st.redirects as nat
                    == self@[slug@].clicks,
                None => !self@.dom().contains(slug@),
            },
    {
        proof {
            lemma_entries_map_dom(self.entries@, slug@);
        }
        match self.find(slug) {
            Some(i) => {
                proof {
                    lemma_entries_map_lookup(self.entries@, i as int);
                }
                let row = &self.entries[i];
                Some(
                    Stats {
                        link: ShortLink {
                            slug: row.slug.duplicate(),
                            url: row.url.duplicate(),
                        },
                        redirects: row.clicks,
                    },
                )
            },
            None => None,
        }
    }

    /// The replay engine's incremental step: applies one event to the three
    /// read-models together, deterministically and atomically — the fold
    /// step [`apply_event`], exactly.
    pub fn apply(&mut self, event: &Event)
        requires
            old(self).inv(),
            click_fits(old(self)@, event@),
        ensures
            final(self).inv(),
            final(self)@ == apply_event(old(self)@, event@),
    {
        proof {
            lemma_entries_map_dom(self.entries@, crate::events::event_slug(event@));
        }
        match event {
            Event::LinkCreated { slug, url } => {
                match self.find(slug) {
                    Some(_) => {
                        // a row already exists: the fold leaves the map unchanged
                    },
                    None => {
                        let ghost pre = self.entries@;
                        let row = LinkEntry {
                            slug: slug.duplicate(),
                            url: url.duplicate(),
                            clicks: 0,
                        };
                        self.entries.push(row);
                        proof {
                            assert(self.entries@.drop_last() =~= pre);
                            assert(forall|i: int|
                                0 <= i < pre.len() ==> (#[trigger] self.entries@[i]) == pre[i]);
                        }
                    },
                }
            },
            Event::LinkUrlChanged { slug, new_url } => {
                match self.find(slug) {
                    Some(i) => {
                        let ghost pre = self.entries@;
                        let clicks = self.entries[i].clicks;
                        let row = LinkEntry {
                            slug: slug.duplicate(),
                            url: new_url.duplicate(),
                            clicks,
                        };
                        self.entries[i] = row;
                        proof {
                            lemma_entries_map_lookup(pre, i as int);
                            lemma_entries_map_update(
                                pre,
                                i as int,
                                self.entries@[i as int],
                            );
                            assert(forall|p: int, q: int|
                                0 <= p < q < self.entries@.len()
                                    ==> #[trigger] self.entries@[p].slug@
                                    != #[trigger] self.entries@[q].slug@) by {
                                assert(forall|p: int|
                                    0 <= p < pre.len() && p != i ==> self.entries@[p]
                                        == pre[p]);
                            }
                        }
                    },
                    None => {
                        // unknown slug: the fold leaves the map unchanged
                    },
                }
            },
            Event::RedirectRecorded { slug } => {
                match self.find(slug) {
                    Some(i) => {
                        let ghost pre = self.entries@;
                        proof {
                            lemma_entries_map_lookup(pre, i as int);
                        }
                        let clicks = self.entries[i].clicks;
                        let row = LinkEntry {
                            slug: slug.duplicate(),
                            url: self.entries[i].url.duplicate(),
                            clicks: clicks + 1,
                        };
                        self.entries[i] = row;
                        proof {
                            lemma_entries_map_update(
                                pre,
                                i as int,
                                self.entries@[i as int],
                            );
                            assert(forall|p: int, q: int|
                                0 <= p < q < self.entries@.len()
                                    ==> #[trigger] self.entries@[p].slug@
                                    != #[trigger] self.entries@[q].slug@) by {
                                assert(forall|p: int|
                                    0 <= p < pre.len() && p != i ==> self.entries@[p]
                                        == pre[p]);
                            }
                        }
                    },
                    None => {
                        // unknown slug: the fold leaves the map unchanged
                    },
                }
            },
        }
    }

    /// The replay engine's full rebuild: fresh read-models folded from every
    /// event of the log in sequence order.  The result is exactly
    /// [`project`] of the log — the same state that incremental
    /// application of the same events produced.
    pub fn rebuild(log: &EventLog) -> (p: Projections)
        ensures
            p.inv(),
            p@ == project(log@),
    {
        let mut p = Projections::new();
        let n = log.len();
        let mut i: usize = 0;
        proof {
            assert(log@.take(0) =~= Seq::<EventV>::empty());
        }
        while i < n
            invariant
                i <= n,
                n == log@.len(),
                p.inv(),
                p@ == project(log@.take(i as int)),
            decreases n - i,
        {
            let event = log.event_at(i);
            proof {
                let prefix = log@.take(i as int);
                if project(prefix).dom().contains(crate::events::event_slug(event@)) {
                    lemma_clicks_bounded(prefix, crate::events::event_slug(event@));
                }
                assert(log@.take(i + 1).drop_last() =~= prefix);
                assert(log@.take(i + 1).last() == log@[i as int]);
            }
            p.apply(event);
            i += 1;
        }
        proof {
            assert(log@.take(n as int) =~= log@);
        }
        p
    }
}

/// A slug is in the read-model exactly when some event of the stream
/// created it: the slug existence index is faithful to the log.
pub proof fn lemma_project_dom(events: Seq<EventV>, slug: Seq<char>)
    ensures
        project(events).dom().contains(slug) <==> slug_created_in(events, slug),
    decreases events.len(),
{
    if events.len() == 0 {
        assert(!slug_created_in(events, slug));
    } else {
        let dl = events.drop_last();
        let last = events.last();
        lemma_project_dom(dl, slug);
        assert(slug_created_in(dl, slug) ==> slug_created_in(events, slug)) by {
            if slug_created_in(dl, slug) {
                let j = choose|j: int| 0 <= j < dl.len() && creates(#[trigger] dl[j], slug);
                assert(events[j] == dl[j]);
                assert(creates(events[j], slug));
            }
        }
        assert(creates(last, slug) ==> slug_created_in(events, slug)) by {
            if creates(last, slug) {
                assert(creates(events[events.len() - 1], slug));
            }
        }
        assert(slug_created_in(events, slug) ==> slug_created_in(dl, slug) || creates(
            last,
            slug,
        )) by {
            if slug_created_in(events, slug) {
                let j = choose|j: int| 0 <= j < events.len() && creates(
                    #[trigger] events[j],
                    slug,
                );
                if j < events.len() - 1 {
                    assert(dl[j] == events[j]);
                    assert(creates(dl[j], slug));
                }
            }
        }
    }
}

/// A click counter never exceeds the number of events behind it; in
/// particular it stays strictly below the length of the stream, so the
/// 64-bit counter of the materialised read-model cannot overflow.
pub proof fn lemma_clicks_bounded(events: Seq<EventV>, slug: Seq<char>)
    requires
        project(events).dom().contains(slug),
    ensures
        project(events)[slug].clicks < events.len(),
    decreases events.len(),
{
    if events.len() == 0 {
        assert(project(events).dom() =~= Set::<Seq<char>>::empty());
    } else {
        let dl = events.drop_last();
        if project(dl).dom().contains(slug) {
            lemma_clicks_bounded(dl, slug);
        }
    }
}

/// Prefixes of a causally ordered stream are causally ordered.
proof fn lemma_causal_prefix(events: Seq<EventV>)
    requires
        causally_ordered(events),
        events.len() > 0,
    ensures
        causally_ordered(events.drop_last()),
{
    let dl = events.drop_last();
    assert forall|i: int| 0 <= i < dl.len() implies (#[trigger] dl[i] is LinkCreated
        || slug_created_before(dl, i, crate::events::event_slug(dl[i]))) by {
        assert(dl[i] == events[i]);
        if !(events[i] is LinkCreated) {
            let s = crate::events::event_slug(events[i]);
            let j = choose|j: int| 0 <= j < i && creates(#[trigger] events[j], s);
            assert(dl[j] == events[j]);
            assert(creates(dl[j], s));
        }
    }
}

/// Monotonic counting: on a causally ordered stream, the click counter of
/// every known slug equals the number of `RedirectRecorded` events for it —
/// starting from 0 at creation, each recorded redirect adds exactly 1.
pub proof fn lemma_clicks_count_redirects(events: Seq<EventV>, slug: Seq<char>)
    requires
        causally_ordered(events),
        project(events).dom().contains(slug),
    ensures
        project(events)[slug].clicks == count_redirects(events, slug),
    decreases events.len(),
{
    if events.len() == 0 {
        assert(project(events).dom() =~= Set::<Seq<char>>::empty());
    } else {
        let dl = events.drop_last();
        let last = events.last();
        let m = project(dl);
        lemma_causal_prefix(events);
        match last {
            EventV::LinkCreated { slug: s, url } => {
                if s == slug && !m.dom().contains(slug) {
                    // creation is the first event about this slug: causal order
                    // rules out any earlier redirect of it
                    lemma_project_dom(dl, slug);
                    assert forall|i: int| 0 <= i < dl.len() implies !is_redirect(
                        #[trigger] dl[i],
                        slug,
                    ) by {
                        if is_redirect(dl[i], slug) {
                            assert(events[i] == dl[i]);
                            assert(!(events[i] is LinkCreated));
                            let j = choose|j: int|
                                0 <= j < i && creates(#[trigger] events[j], slug);
                            assert(dl[j] == events[j]);
                            assert(slug_created_in(dl, slug));
                        }
                    }
                    crate::events::lemma_count_redirects_zero(dl, slug);
                } else {
                    if m.dom().contains(slug) {
                        lemma_clicks_count_redirects(dl, slug);
                    } else {
                        assert(project(events).dom().contains(slug));
                        assert(s != slug || m.dom().contains(slug));
                    }
                }
            },
            EventV::LinkUrlChanged { slug: s, new_url } => {
                assert(m.dom().contains(slug));
                lemma_clicks_count_redirects(dl, slug);
            },
            EventV::RedirectRecorded { slug: s } => {
                if s == slug {
                    // the redirect's own causal witness shows the slug was
                    // created earlier, hence is already in the read-model
                    assert(!(events[events.len() - 1] is LinkCreated));
                    let j = choose|j: int|
                        0 <= j < events.len() - 1 && creates(#[trigger] events[j], slug);
                    assert(dl[j] == events[j]);
                    assert(slug_created_in(dl, slug));
                    lemma_project_dom(dl, slug);
                    lemma_clicks_count_redirects(dl, slug);
                } else {
                    assert(m.dom().contains(slug));
                    lemma_clicks_count_redirects(dl, slug);
                }
            },
        }
    }
}

/// Replay equivalence: folding an event stream incrementally, one event at
/// a time in either formulation of the fold, yields exactly the read-model
/// of a full rebuild, for any finite stream.
pub proof fn lemma_replay_equivalence(events: Seq<EventV>)
    ensures
        events.fold_left(
            Map::<Seq<char>, LinkStateV>::empty(),
            |m: Map<Seq<char>, LinkStateV>, e: EventV| apply_event(m, e),
        ) == project(events),
        events.fold_left_alt(
            Map::<Seq<char>, LinkStateV>::empty(),
            |m: Map<Seq<char>, LinkStateV>, e: EventV| apply_event(m, e),
        ) == project(events),
    decreases events.len(),
{
    let f = |m: Map<Seq<char>, LinkStateV>, e: EventV| apply_event(m, e);
    if events.len() > 0 {
        lemma_replay_equivalence(events.drop_last());
    }
    events.lemma_fold_left_alt(Map::<Seq<char>, LinkStateV>::empty(), f);
}

} // verus!
