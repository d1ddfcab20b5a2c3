//! The cache of name lists: one slot for each sex, refreshed when a request finds it empty or
//! stale, and closed to other requests while a refresh is under way.
//!
//! The cache does no fetching of its own. A request either is answered at once, or tells the
//! caller to fetch a fresh list; the caller reports back with what it fetched. Between the two
//! the slot is taken, and every other request for the same sex is turned away.

use crate::name::{name_views, Name, NameView};
use crate::name_source::SourceError;
use crate::pi::GenNameError;
use crate::random::pick;
use crate::sex::Sex;
use vstd::prelude::*;

verus! {

/// How long a fetched list stays fresh: five seconds, in nanoseconds.
pub const STALE_AFTER: u64 = 5_000_000_000;

/// Time that has passed at `now` since `since`, in nanoseconds; none, if the clock stands
/// before `since`.
pub open spec fn age(since: u64, now: u64) -> int {
    if now >= since {
        now - since
    } else {
        0
    }
}

/// What a request finds when it comes to a slot.
#[derive(Clone, Copy, Debug, PartialEq, Eq, Structural)]
pub enum Decision {
    /// A refresh is under way: the request is turned away.
    Conflict,
    /// The list is fresh: the request is answered from it.
    Serve,
    /// There is no list, or it is stale: a fresh one is to be fetched.
    Refresh,
}

/// A fetched list and the time from which its freshness counts.
pub struct EntryView {
    pub fetched_at: u64,
    pub names: Seq<NameView>,
}

/// The state of one slot.
pub struct SlotView {
    pub entry: Option<EntryView>,
    /// The time of the request whose refresh is under way, if one is.
    pub fetching_since: Option<u64>,
}

/// The state of the cache.
pub struct NamesCacheView {
    pub female: SlotView,
    pub male: SlotView,
}

impl SlotView {
    /// A list that is held is never empty.
    pub open spec fn wf(self) -> bool {
        self.entry matches Some(entry) ==> entry.names.len() > 0
    }

    /// The slot holds names, and no more than [`STALE_AFTER`] has passed since the time from
    /// which their freshness counts.
    pub open spec fn is_fresh(self, now: u64) -> bool {
        self.entry matches Some(entry) && entry.names.len() > 0 && age(entry.fetched_at, now)
            <= STALE_AFTER
    }

    pub open spec fn decide(self, now: u64) -> Decision {
        if self.fetching_since is Some {
            Decision::Conflict
        } else if self.is_fresh(now) {
            Decision::Serve
        } else {
            Decision::Refresh
        }
    }

    /// The slot once a request made at `now` has set out to refresh it.
    pub open spec fn start_fetch(self, now: u64) -> SlotView {
        SlotView { fetching_since: Some(now), ..self }
    }

    /// The slot once a request made at `now` has come to it: taken, if the request set out to
    /// refresh it, and else as it was.
    pub open spec fn after_request(self, now: u64) -> SlotView {
        if self.decide(now) == Decision::Refresh {
            self.start_fetch(now)
        } else {
            self
        }
    }

    /// The slot once requests have come to it at the given times, one after the other.
    pub open spec fn after_requests(self, times: Seq<u64>) -> SlotView
        decreases times.len(),
    {
        if times.len() == 0 {
            self
        } else {
            self.after_requests(times.drop_last()).after_request(times.last())
        }
    }

    /// How many of the requests that come at the given times, one after the other, set out to
    /// fetch a list.
    pub open spec fn fetches(self, times: Seq<u64>) -> nat
        decreases times.len(),
    {
        if times.len() == 0 {
            0
        } else {
            let before = self.fetches(times.drop_last());
            if self.after_requests(times.drop_last()).decide(times.last()) == Decision::Refresh {
                before + 1
            } else {
                before
            }
        }
    }

    /// The slot once the refresh has ended. A list that came, and is not empty, takes the place
    /// of the old one. Otherwise the old list stays, if there was one. Either way freshness
    /// counts anew from the time of the request that set out to refresh.
    pub open spec fn finish_fetch(self, fetched: Option<Seq<NameView>>) -> SlotView {
        let since = self.fetching_since->0;
        SlotView {
            entry: if fetched is Some && fetched->0.len() > 0 {
                Some(EntryView { fetched_at: since, names: fetched->0 })
            } else if self.entry is Some {
                Some(EntryView { fetched_at: since, names: self.entry->0.names })
            } else {
                None
            },
            fetching_since: None,
        }
    }
}

impl NamesCacheView {
    pub open spec fn wf(self) -> bool {
        self.female.wf() && self.male.wf()
    }

    pub open spec fn slot(self, sex: Sex) -> SlotView {
        match sex {
            Sex::Female => self.female,
            Sex::Male => self.male,
        }
    }

    pub open spec fn with_slot(self, sex: Sex, slot: SlotView) -> NamesCacheView {
        match sex {
            Sex::Female => NamesCacheView { female: slot, ..self },
            Sex::Male => NamesCacheView { male: slot, ..self },
        }
    }

    /// The cache that holds nothing and fetches nothing.
    pub open spec fn empty() -> NamesCacheView {
        NamesCacheView {
            female: SlotView { entry: None, fetching_since: None },
            male: SlotView { entry: None, fetching_since: None },
        }
    }
}

/// What a fetch brought, as the cache sees it: the names, or nothing.
pub open spec fn fetched_names(fetched: Result<Vec<Name>, SourceError>) -> Option<Seq<NameView>> {
    match fetched {
        Ok(names) => Some(name_views(names@)),
        Err(_) => None,
    }
}

/// A fetched list and the time from which its freshness counts.
#[derive(Debug)]
struct CacheEntry {
    fetched_at: u64,
    names: Vec<Name>,
}

#[derive(Debug)]
struct Slot {
    entry: Option<CacheEntry>,
    fetching_since: Option<u64>,
}

/// The name cache. It is made once, when the process starts, and lives as long as the process.
#[derive(Debug)]
pub struct NamesCache {
    female_names: Slot,
    male_names: Slot,
}

impl Slot {
    spec fn view(&self) -> SlotView {
        SlotView {
            entry: match self.entry {
                Some(entry) => Some(
                    EntryView { fetched_at: entry.fetched_at, names: name_views(entry.names@) },
                ),
                None => None,
            },
            fetching_since: self.fetching_since,
        }
    }

    fn decide(&self, now: u64) -> (r: Decision)
        ensures
            r == self.view().decide(now),
    {
        if self.fetching_since.is_some() {
            return Decision::Conflict;
        }
        match &self.entry {
            Some(entry) => {
                let age = if now >= entry.fetched_at {
                    now - entry.fetched_at
                } else {
                    0
                };
                if entry.names.len() > 0 && age <= STALE_AFTER {
                    Decision::Serve
                } else {
                    Decision::Refresh
                }
            },
            None => Decision::Refresh,
        }
    }

    fn request(&mut self, now: u64) -> (r: Result<Option<Name>, GenNameError>)
        ensures
            old(self).view().wf() ==> final(self).view().wf(),
            match old(self).view().decide(now) {
                Decision::Conflict => {
                    &&& r == Err::<Option<Name>, GenNameError>(GenNameError::Conflict)
                    &&& final(self).view() == old(self).view()
                },
                Decision::Serve => {
                    &&& r is Ok
                    &&& r->Ok_0 is Some
                    &&& old(self).view().entry->0.names.contains(r->Ok_0->0@)
                    &&& final(self).view() == old(self).view()
                },
                Decision::Refresh => {
                    &&& r == Ok::<Option<Name>, GenNameError>(None)
                    &&& final(self).view() == old(self).view().start_fetch(now)
                },
            },
    {
        match self.decide(now) {
            Decision::Conflict => Err(GenNameError::Conflict),
            Decision::Serve => {
                let entry = self.entry.as_ref().unwrap();
                let picked = pick(entry.names.as_slice());
                let name = picked.clone();
                proof {
                    let i = choose|i: int|
                        0 <= i < entry.names@.len() && *picked == entry.names@[i];
                    assert(name_views(entry.names@)[i] == name@);
                }
                Ok(Some(name))
            },
            Decision::Refresh => {
                self.fetching_since = Some(now);
                Ok(None)
            },
        }
    }

    fn fetched(&mut self, fetched: Result<Vec<Name>, SourceError>) -> (r: Result<
        Name,
        GenNameError,
    >)
        requires
            old(self).view().fetching_since is Some,
        ensures
            old(self).view().wf() ==> final(self).view().wf(),
            final(self).view() == old(self).view().finish_fetch(fetched_names(fetched)),
            match fetched {
                Ok(names) if names@.len() > 0 => r is Ok && name_views(names@).contains(
                    r->Ok_0@,
                ),
                _ => r == Err::<Name, GenNameError>(GenNameError::RequestFailure),
            },
    {
        let since = self.fetching_since.unwrap();
        match fetched {
            Ok(names) if names.len() > 0 => {
                let picked = pick(names.as_slice());
                let name = picked.clone();
                proof {
                    let i = choose|i: int| 0 <= i < names@.len() && *picked == names@[i];
                    assert(name_views(names@)[i] == name@);
                }
                self.entry = Some(CacheEntry { fetched_at: since, names });
                self.fetching_since = None;
                Ok(name)
            },
            _ => {
                let held = self.entry.take();
                self.entry =
                match held {
                    Some(entry) => Some(CacheEntry { fetched_at: since, names: entry.names }),
                    None => None,
                };
                self.fetching_since = None;
                Err(GenNameError::RequestFailure)
            },
        }
    }
}

impl View for NamesCache {
    type V = NamesCacheView;

    closed spec fn view(&self) -> NamesCacheView {
        NamesCacheView { female: self.female_names.view(), male: self.male_names.view() }
    }
}

impl NamesCache {
    /// A cache that holds no list yet.
    pub fn new() -> (r: Self)
        ensures
            r@ == NamesCacheView::empty(),
            r@.wf(),
    {
        NamesCache {
            female_names: Slot { entry: None, fetching_since: None },
            male_names: Slot { entry: None, fetching_since: None },
        }
    }

    /// What a request for a name of `sex` would find at the time `now`.
    pub fn decide(&self, sex: Sex, now: u64) -> (r: Decision)
        ensures
            r == self@.slot(sex).decide(now),
    {
        match sex {
            Sex::Female => self.female_names.decide(now),
            Sex::Male => self.male_names.decide(now),
        }
    }

    /// Whether a refresh of the list of `sex` is under way.
    pub fn is_fetching(&self, sex: Sex) -> (r: bool)
        ensures
            r == self@.slot(sex).fetching_since is Some,
    {
        match sex {
            Sex::Female => self.female_names.fetching_since.is_some(),
            Sex::Male => self.male_names.fetching_since.is_some(),
        }
    }

    /// Asks for a name of `sex` at the time `now`, in nanoseconds on a clock that never runs
    /// backwards.
    ///
    /// While a refresh of that list is under way the request fails with a conflict. From a
    /// fresh list one of its names is picked at random. Otherwise the slot is taken and the
    /// answer is `None`: the caller is to fetch a fresh list and hand it to
    /// [`NamesCache::fetched`]. Only in that last case does the cache change.
    pub fn request(&mut self, sex: Sex, now: u64) -> (r: Result<Option<Name>, GenNameError>)
        ensures
            old(self)@.wf() ==> final(self)@.wf(),
            final(self)@ == old(self)@.with_slot(sex, old(self)@.slot(sex).after_request(now)),
            match old(self)@.slot(sex).decide(now) {
                Decision::Conflict => {
                    &&& r == Err::<Option<Name>, GenNameError>(GenNameError::Conflict)
                    &&& final(self)@ == old(self)@
                },
                Decision::Serve => {
                    &&& r is Ok
                    &&& r->Ok_0 is Some
                    &&& old(self)@.slot(sex).entry->0.names.contains(r->Ok_0->0@)
                    &&& final(self)@ == old(self)@
                },
                Decision::Refresh => {
                    &&& r == Ok::<Option<Name>, GenNameError>(None)
                    &&& final(self)@ == old(self)@.with_slot(
                        sex,
                        old(self)@.slot(sex).start_fetch(now),
                    )
                },
            },
    {
        match sex {
            Sex::Female => self.female_names.request(now),
            Sex::Male => self.male_names.request(now),
        }
    }

    /// Ends the refresh of the list of `sex` with what was fetched: a list, or the reason why
    /// there is none.
    ///
    /// A list that is not empty replaces the one that was held, and one of its names is picked
    /// at random. Otherwise the request fails, and the list that was held stays as it was.
    /// Either way the slot is free again, and freshness counts from the time of the request
    /// that took it.
    pub fn fetched(&mut self, sex: Sex, fetched: Result<Vec<Name>, SourceError>) -> (r: Result<
        Name,
        GenNameError,
    >)
        requires
            old(self)@.slot(sex).fetching_since is Some,
        ensures
            old(self)@.wf() ==> final(self)@.wf(),
            final(self)@ == old(self)@.with_slot(
                sex,
                old(self)@.slot(sex).finish_fetch(fetched_names(fetched)),
            ),
            match fetched {
                Ok(names) if names@.len() > 0 => r is Ok && name_views(names@).contains(
                    r->Ok_0@,
                ),
                _ => r == Err::<Name, GenNameError>(GenNameError::RequestFailure),
            },
    {
        match sex {
            Sex::Female => self.female_names.fetched(fetched),
            Sex::Male => self.male_names.fetched(fetched),
        }
    }
}

impl Default for NamesCache {
    fn default() -> (r: Self)
        ensures
            r@ == NamesCacheView::empty(),
    {
        NamesCache::new()
    }
}

/// The other sex of the two.
pub open spec fn other(sex: Sex) -> Sex {
    match sex {
        Sex::Female => Sex::Male,
        Sex::Male => Sex::Female,
    }
}

/// While a list is fresh it is served and nothing is fetched: a request that comes no later
/// than [`STALE_AFTER`] after the request that fetched the list finds it fresh, whatever the
/// slot held before.
pub proof fn lemma_fresh_list_is_served(
    cache: NamesCacheView,
    sex: Sex,
    names: Seq<NameView>,
    now: u64,
)
    requires
        cache.slot(sex).fetching_since is Some,
        names.len() > 0,
        age(cache.slot(sex).fetching_since->0, now) <= STALE_AFTER,
    ensures
        ({
            let after = cache.with_slot(sex, cache.slot(sex).finish_fetch(Some(names)));
            &&& after.slot(sex).entry->0.names == names
            &&& after.slot(sex).decide(now) == Decision::Serve
        }),
{
}

/// Once more than [`STALE_AFTER`] has passed, a request sets out to fetch a fresh list, and
/// until that fetch has ended no other request for the same sex does.
pub proof fn lemma_stale_list_is_refreshed_once(
    cache: NamesCacheView,
    sex: Sex,
    now: u64,
    later: u64,
)
    requires
        cache.slot(sex).fetching_since is None,
        cache.slot(sex).entry is Some,
        age(cache.slot(sex).entry->0.fetched_at, now) > STALE_AFTER,
    ensures
        cache.slot(sex).decide(now) == Decision::Refresh,
        cache.with_slot(sex, cache.slot(sex).start_fetch(now)).slot(sex).decide(later)
            == Decision::Conflict,
{
}

/// A refresh that fails loses nothing: the names that were held are still held, and they are
/// served to the requests of the next [`STALE_AFTER`], counted from the request whose fetch
/// failed.
pub proof fn lemma_failed_refresh_keeps_names(
    cache: NamesCacheView,
    sex: Sex,
    now: u64,
    later: u64,
)
    requires
        cache.wf(),
        cache.slot(sex).entry is Some,
        cache.slot(sex).decide(now) == Decision::Refresh,
        age(now, later) <= STALE_AFTER,
    ensures
        ({
            let fetching = cache.with_slot(sex, cache.slot(sex).start_fetch(now));
            let after = fetching.with_slot(sex, fetching.slot(sex).finish_fetch(None));
            &&& after.slot(sex).entry is Some
            &&& after.slot(sex).entry->0.names == cache.slot(sex).entry->0.names
            &&& after.slot(sex).fetching_since is None
            &&& after.slot(sex).decide(later) == Decision::Serve
        }),
{
}

/// A slot that never held names holds none after a refresh that failed, and the next request
/// sets out to fetch again.
pub proof fn lemma_failed_first_fetch_leaves_slot_empty(
    cache: NamesCacheView,
    sex: Sex,
    now: u64,
    later: u64,
)
    requires
        cache.slot(sex).entry is None,
        cache.slot(sex).fetching_since is None,
    ensures
        ({
            let fetching = cache.with_slot(sex, cache.slot(sex).start_fetch(now));
            let after = fetching.with_slot(sex, fetching.slot(sex).finish_fetch(None));
            &&& cache.slot(sex).decide(now) == Decision::Refresh
            &&& after.slot(sex) == cache.slot(sex)
            &&& after.slot(sex).decide(later) == Decision::Refresh
        }),
{
}

/// While the names of one sex are being fetched, every request for that sex is turned away,
/// whenever it comes; it neither waits nor fetches.
pub proof fn lemma_second_request_conflicts(cache: NamesCacheView, sex: Sex, now: u64, later: u64)
    requires
        cache.slot(sex).decide(now) == Decision::Refresh,
    ensures
        cache.with_slot(sex, cache.slot(sex).start_fetch(now)).slot(sex).decide(later)
            == Decision::Conflict,
{
}

/// The two slots are independent: what happens to the slot of one sex leaves the slot of the
/// other as it was, and so it leaves alone what a request for the other sex finds.
pub proof fn lemma_slots_are_independent(
    cache: NamesCacheView,
    sex: Sex,
    slot: SlotView,
    now: u64,
)
    ensures
        cache.with_slot(sex, slot).slot(other(sex)) == cache.slot(other(sex)),
        cache.with_slot(sex, slot).slot(other(sex)).decide(now) == cache.slot(other(sex)).decide(
            now,
        ),
        cache.with_slot(sex, slot).slot(sex) == slot,
{
}

/// The list that is held changes only when a fetch brings names: starting a fetch, and a
/// fetch that fails or brings nothing, leave the names that were held.
pub proof fn lemma_names_change_only_on_success(
    slot: SlotView,
    now: u64,
    fetched: Option<Seq<NameView>>,
)
    requires
        slot.entry is Some,
        slot.fetching_since is Some,
    ensures
        slot.start_fetch(now).entry == slot.entry,
        slot.finish_fetch(fetched).entry is Some,
        slot.finish_fetch(fetched).entry->0.names == if fetched is Some && fetched->0.len() > 0 {
            fetched->0
        } else {
            slot.entry->0.names
        },
{
}

/// One fetch serves every request of its window. A request that finds the slot empty sets
/// out to fetch. Once its fetch has brought names, all the requests that come no later than
/// [`STALE_AFTER`] after it, however many, are answered from these names: none of them sets
/// out to fetch, and none of them changes the slot.
pub proof fn lemma_one_fetch_serves_the_window(
    slot: SlotView,
    first: u64,
    names: Seq<NameView>,
    times: Seq<u64>,
)
    requires
        slot.entry is None,
        slot.fetching_since is None,
        names.len() > 0,
        forall|k: int| 0 <= k < times.len() ==> age(first, #[trigger] times[k]) <= STALE_AFTER,
    ensures
        slot.decide(first) == Decision::Refresh,
        slot.fetches(seq![first]) == 1,
        ({
            let populated = slot.after_request(first).finish_fetch(Some(names));
            &&& populated.entry->0.names == names
            &&& populated.fetches(times) == 0
            &&& populated.after_requests(times) == populated
            &&& forall|k: int|
                0 <= k < times.len() ==> populated.after_requests(times.take(k)).decide(
                    #[trigger] times[k],
                ) == Decision::Serve
        }),
{
    assert(seq![first].drop_last() =~= Seq::<u64>::empty());
    assert(slot.fetches(seq![first].drop_last()) == 0);
    assert(slot.after_requests(seq![first].drop_last()) == slot);
    let populated = slot.after_request(first).finish_fetch(Some(names));
    lemma_fresh_slot_serves(populated, first, times);
}

/// A slot whose names are fresh at each of the given times answers all the requests that come
/// at these times from its names: none of them sets out to fetch, and none changes the slot.
pub proof fn lemma_fresh_slot_serves(slot: SlotView, since: u64, times: Seq<u64>)
    requires
        slot.fetching_since is None,
        slot.entry is Some,
        slot.entry->0.names.len() > 0,
        slot.entry->0.fetched_at == since,
        forall|k: int| 0 <= k < times.len() ==> age(since, #[trigger] times[k]) <= STALE_AFTER,
    ensures
        slot.fetches(times) == 0,
        slot.after_requests(times) == slot,
        forall|k: int|
            0 <= k < times.len() ==> slot.after_requests(times.take(k)).decide(
                #[trigger] times[k],
            ) == Decision::Serve,
    decreases times.len(),
{
    if times.len() > 0 {
        let before = times.drop_last();
        assert forall|k: int| 0 <= k < before.len() implies age(since, #[trigger] before[k])
            <= STALE_AFTER by {
            assert(before[k] == times[k]);
        }
        lemma_fresh_slot_serves(slot, since, before);
        assert(slot.decide(times.last()) == Decision::Serve);
        assert forall|k: int| 0 <= k < times.len() implies slot.after_requests(
            times.take(k),
        ).decide(#[trigger] times[k]) == Decision::Serve by {
            lemma_fresh_slot_serves(slot, since, times.take(k));
        }
    }
}

} // verus!
