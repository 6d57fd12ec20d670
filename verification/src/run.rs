use crate::error::BotError;
use crate::feed::{
    candidates_spec, candidates_text, compose_message, feed_request, feed_request_is, feed_url,
    feed_url_spec, items_text,
    message_spec, parse_feed, rfc2822_writable, rss_channel_items, select_candidates, Candidate,
    CandidateText, FeedItem, ItemText,
};
use crate::http::HttpRequest;
use crate::kv::{pair_texts, pairs_written, texts, values_or_empty, written};
use crate::instant::{
    date_from_text, date_time_pattern, parse_date, rfc2822_text, strftime_text, to_date_time_text,
    utc_now, Instant,
};
use crate::posted::{
    last_run_key, last_run_key_string, link_recorded, posted_links_key, posted_links_key_string,
    stale_keys_spec, stale_link_keys, LINK_RETENTION_SECS,
};
use vstd::prelude::*;

verus! {

/// How far back an article may have been published and still be posted: two
/// hours, in seconds.
pub const FRESHNESS_SECS: i64 = 7200;

/// What the run waits for.
#[derive(Clone, Copy, Debug, PartialEq, Eq, Structural)]
pub enum Phase {
    /// The feed's bytes.
    AwaitFeed,
    /// The stored time of the last run.
    AwaitSavedDate,
    /// The links posted before, to tell whether the current candidate's
    /// link is among them.
    AwaitPublished,
    /// The outcome of posting the current candidate.
    AwaitPost,
    /// The outcome of recording the current candidate's link.
    AwaitRecord,
    /// The outcome of storing the time of this run.
    AwaitRunDateSaved,
    /// The stored entries.
    AwaitListing,
    /// The outcome of deleting the current stale link.
    AwaitDeletion,
    /// Nothing: the run is over.
    Finished,
}

/// What the outside world reports back to the run.
pub enum Event {
    /// The feed was fetched (its bytes), or the fetch failed.
    Fetched(Result<Vec<u8>, BotError>),
    /// The stored time of the last run, if any, or the failure to read it.
    SavedDate(Result<Option<String>, BotError>),
    /// Every link recorded as posted, or the failure to read them.
    PostedLinks(Result<Vec<String>, BotError>),
    /// The message was posted, or posting failed.
    Posted(Result<(), BotError>),
    /// The link was recorded, or recording failed.
    Recorded(Result<(), BotError>),
    /// The time of this run was stored, or storing it failed.
    RunDateSaved(Result<(), BotError>),
    /// Every stored entry, or the failure to list them.
    Listed(Result<Vec<(String, String)>, BotError>),
    /// The entry was deleted, or deleting it failed.
    Deleted(Result<(), BotError>),
}

/// What the run asks the outside world to do next.
pub enum Action {
    /// Send this request and report the body of the response.
    Fetch(HttpRequest),
    /// Read the value stored under `key`.
    ReadSavedDate { key: String },
    /// Read every value written under `key`: the links posted before.
    ReadPostedLinks { key: String },
    /// Post the message to Mastodon.
    Post { message: String },
    /// Write `value` under `key`, keeping the earlier values: record a
    /// posted link.
    RecordLink { key: String, value: String },
    /// Store `value` under `key` as the time of this run.
    SaveRunDate { key: String, value: String },
    /// List every stored entry.
    ListStore,
    /// Delete the entry `key`.
    DeleteKey { key: String },
    /// The run is over, with this outcome.
    Finish(Result<(), BotError>),
}

/// The state of a run, as texts.
pub struct RunView {
    pub dry_run: bool,
    pub phase: Phase,
    /// The feed's items, oldest first.
    pub items: Seq<ItemText>,
    /// The items chosen for posting, in the order of `items`.
    pub candidates: Seq<CandidateText>,
    /// The current candidate, or the current stale link.
    pub pos: nat,
    /// The keys of the stale links to delete.
    pub stale: Seq<Seq<char>>,
}

/// One run of the bot: fetch the feed, post each fresh article whose link is
/// not among the values of the `posted link` key, and (unless it is a dry
/// run) write each posted link as one more value of that key, store the time
/// of the run and delete the `link:` entries recorded more than seven days
/// ago.
pub struct BotRun {
    dry_run: bool,
    phase: Phase,
    items: Vec<FeedItem>,
    candidates: Vec<Candidate>,
    pos: usize,
    stale: Vec<String>,
}

/// The run ends with outcome `r`, its state otherwise kept.
pub open spec fn finishes(s: RunView, n: RunView, a: Action, r: Result<(), BotError>) -> bool {
    &&& n == RunView { phase: Phase::Finished, ..s }
    &&& a == Action::Finish(r)
}

/// The run goes on with candidate `p`: it asks for the links posted before;
/// past the last candidate it ends a dry run, or else stores the time `now`
/// as the time of this run.
pub open spec fn continues_posting(s: RunView, p: nat, now: Instant, n: RunView, a: Action) -> bool {
    if p < s.candidates.len() {
        &&& n == RunView { phase: Phase::AwaitPublished, pos: p, ..s }
        &&& a matches Action::ReadPostedLinks { key }
        &&& key@ == posted_links_key()
    } else if s.dry_run {
        finishes(RunView { pos: p, ..s }, n, a, Ok(()))
    } else {
        &&& n == RunView { phase: Phase::AwaitRunDateSaved, pos: p, ..s }
        &&& a matches Action::SaveRunDate { key, value }
        &&& key@ == last_run_key()
        &&& value@ == strftime_text(now.secs, now.nanos, date_time_pattern())
    }
}

/// The run goes on with stale link `p`: it asks to delete it; past the last
/// one the run ends well.
pub open spec fn continues_cleanup(s: RunView, p: nat, n: RunView, a: Action) -> bool {
    if p < s.stale.len() {
        &&& n == RunView { phase: Phase::AwaitDeletion, pos: p, ..s }
        &&& a matches Action::DeleteKey { key }
        &&& key@ == s.stale[p as int]
    } else {
        finishes(RunView { pos: p, ..s }, n, a, Ok(()))
    }
}

/// The links read back include `link`.
pub open spec fn already_posted(r: Result<Vec<String>, BotError>, link: Seq<char>) -> bool {
    r matches Ok(values) && texts(values@).contains(link)
}

/// The instant stored as the time of the last run, where one was read.
pub open spec fn saved_instant(r: Result<Option<String>, BotError>) -> Option<Instant> {
    match r {
        Ok(Some(t)) => match date_from_text(t@) {
            Some((secs, nanos)) => Some(Instant { secs, nanos }),
            None => None,
        },
        _ => None,
    }
}

/// The instant `secs` seconds before `now`.
pub open spec fn earlier(now: Instant, secs: int) -> Instant {
    Instant { secs: (now.secs - secs) as i64, nanos: now.nanos }
}

/// The event is the one the run waits for.
pub open spec fn awaited(phase: Phase, e: Event) -> bool {
    match phase {
        Phase::AwaitFeed => e is Fetched,
        Phase::AwaitSavedDate => e is SavedDate,
        Phase::AwaitPublished => e is PostedLinks,
        Phase::AwaitPost => e is Posted,
        Phase::AwaitRecord => e is Recorded,
        Phase::AwaitRunDateSaved => e is RunDateSaved,
        Phase::AwaitListing => e is Listed,
        Phase::AwaitDeletion => e is Deleted,
        Phase::Finished => false,
    }
}

/// One step of the run: from state `s`, on event `e`, at time `now`, the run
/// moves to state `n` and asks for action `a`.
pub open spec fn step_spec(s: RunView, e: Event, now: Instant, n: RunView, a: Action) -> bool {
    match e {
        Event::Fetched(r) => {
            &&& s.phase == Phase::AwaitFeed
            &&& match r {
                Err(err) => finishes(s, n, a, Err(err)),
                Ok(bytes) => match rss_channel_items(bytes@) {
                    None => finishes(s, n, a, Err(BotError::FeedUnreadable)),
                    Some(items) => {
                        &&& n == RunView { phase: Phase::AwaitSavedDate, items: items.reverse(), ..s }
                        &&& a matches Action::ReadSavedDate { key }
                        &&& key@ == last_run_key()
                    },
                },
            }
        },
        Event::SavedDate(r) => {
            &&& s.phase == Phase::AwaitSavedDate
            &&& continues_posting(
                RunView {
                    candidates: candidates_spec(
                        s.items,
                        earlier(now, FRESHNESS_SECS as int),
                        saved_instant(r),
                    ),
                    ..s
                },
                0,
                now,
                n,
                a,
            )
        },
        Event::PostedLinks(r) => {
            &&& s.phase == Phase::AwaitPublished
            &&& if already_posted(r, s.candidates[s.pos as int].0) {
                continues_posting(s, s.pos + 1, now, n, a)
            } else {
                let c = s.candidates[s.pos as int];
                if rfc2822_writable(c.3) {
                    &&& n == RunView { phase: Phase::AwaitPost, ..s }
                    &&& a matches Action::Post { message }
                    &&& message@ == message_spec(c, rfc2822_text(c.3.secs, c.3.nanos))
                } else {
                    finishes(s, n, a, Err(BotError::DateNotWritable))
                }
            }
        },
        Event::Posted(r) => {
            &&& s.phase == Phase::AwaitPost
            &&& match r {
                Err(err) => finishes(s, n, a, Err(err)),
                Ok(_) => if s.dry_run {
                    continues_posting(s, s.pos + 1, now, n, a)
                } else {
                    &&& n == RunView { phase: Phase::AwaitRecord, ..s }
                    &&& a matches Action::RecordLink { key, value }
                    &&& key@ == posted_links_key()
                    &&& value@ == s.candidates[s.pos as int].0
                },
            }
        },
        Event::Recorded(_) => {
            &&& s.phase == Phase::AwaitRecord
            &&& continues_posting(s, s.pos + 1, now, n, a)
        },
        Event::RunDateSaved(r) => {
            &&& s.phase == Phase::AwaitRunDateSaved
            &&& match r {
                Err(err) => finishes(s, n, a, Err(err)),
                Ok(_) => n == RunView { phase: Phase::AwaitListing, ..s } && a is ListStore,
            }
        },
        Event::Listed(r) => {
            &&& s.phase == Phase::AwaitListing
            &&& match r {
                Err(_) => finishes(s, n, a, Ok(())),
                Ok(entries) => continues_cleanup(
                    RunView {
                        stale: stale_keys_spec(
                            pair_texts(entries@),
                            earlier(now, LINK_RETENTION_SECS as int),
                        ),
                        ..s
                    },
                    0,
                    n,
                    a,
                ),
            }
        },
        Event::Deleted(_) => {
            &&& s.phase == Phase::AwaitDeletion
            &&& continues_cleanup(s, s.pos + 1, n, a)
        },
    }
}

/// The bounds a run keeps on its position.
pub open spec fn run_wf(s: RunView) -> bool {
    &&& (s.phase == Phase::AwaitPublished || s.phase == Phase::AwaitPost || s.phase
        == Phase::AwaitRecord) ==> s.pos < s.candidates.len()
    &&& s.phase == Phase::AwaitDeletion ==> s.pos < s.stale.len()
}

impl View for BotRun {
    type V = RunView;

    closed spec fn view(&self) -> RunView {
        RunView {
            dry_run: self.dry_run,
            phase: self.phase,
            items: items_text(self.items@),
            candidates: candidates_text(self.candidates@),
            pos: self.pos as nat,
            stale: texts(self.stale@),
        }
    }
}

impl BotRun {
    /// The bounds the run keeps, and the shapes of its lists.
    pub closed spec fn wf(&self) -> bool {
        &&& run_wf(self@)
        &&& forall|i: int|
            0 <= i < self.candidates@.len() ==> (#[trigger] self.candidates@[i]).published.in_range()
    }

    /// Starts a run: fetch the feed at the URL that `NEWSPENGUIN_RSS_URI`
    /// names (`feed_setting`), sending the user agent of
    /// `NEWSPENGUIN_USER_AGENT` (`user_agent`).
    pub fn start(dry_run: bool, feed_setting: Option<String>, user_agent: Option<String>) -> (r: (
        BotRun,
        Action,
    ))
        ensures
            r.0.wf(),
            r.0@.dry_run == dry_run,
            r.0@.phase == Phase::AwaitFeed,
            r.0@.items.len() == 0,
            r.0@.candidates.len() == 0,
            r.0@.stale.len() == 0,
            r.0@.pos == 0,
            r.1 matches Action::Fetch(q) && feed_request_is(q, feed_url_spec(feed_setting), user_agent),
    {
        let url = feed_url(feed_setting);
        let q = feed_request(url.as_str(), user_agent);
        let run = BotRun {
            dry_run,
            phase: Phase::AwaitFeed,
            items: Vec::new(),
            candidates: Vec::new(),
            pos: 0,
            stale: Vec::new(),
        };
        assert(items_text(run.items@) =~= Seq::<ItemText>::empty());
        assert(candidates_text(run.candidates@) =~= Seq::<CandidateText>::empty());
        assert(texts(run.stale@) =~= Seq::<Seq<char>>::empty());
        (run, Action::Fetch(q))
    }

    /// Goes on with candidate `p`.
    fn continue_posting(&mut self, p: usize, now: &Instant) -> (a: Action)
        requires
            forall|i: int|
                0 <= i < old(self).candidates@.len() ==> (#[trigger] old(
                    self,
                ).candidates@[i]).published.in_range(),
            p <= old(self).candidates@.len(),
            now.representable(),
        ensures
            continues_posting(old(self)@, p as nat, *now, final(self)@, a),
            final(self).wf(),
    {
        self.pos = p;
        if p < self.candidates.len() {
            self.phase = Phase::AwaitPublished;
            Action::ReadPostedLinks { key: posted_links_key_string() }
        } else if self.dry_run {
            self.phase = Phase::Finished;
            Action::Finish(Ok(()))
        } else {
            self.phase = Phase::AwaitRunDateSaved;
            let value = match to_date_time_text(now) {
                Some(t) => t,
                None => String::new(),
            };
            Action::SaveRunDate { key: last_run_key_string(), value }
        }
    }

    /// Goes on with stale link `p`.
    fn continue_cleanup(&mut self, p: usize) -> (a: Action)
        requires
            forall|i: int|
                0 <= i < old(self).candidates@.len() ==> (#[trigger] old(
                    self,
                ).candidates@[i]).published.in_range(),
            p <= old(self).stale@.len(),
        ensures
            continues_cleanup(old(self)@, p as nat, final(self)@, a),
            final(self).wf(),
    {
        self.pos = p;
        if p < self.stale.len() {
            self.phase = Phase::AwaitDeletion;
            Action::DeleteKey { key: self.stale[p].clone() }
        } else {
            self.phase = Phase::Finished;
            Action::Finish(Ok(()))
        }
    }

    /// Ends the run with outcome `r`.
    fn finish(&mut self, r: Result<(), BotError>) -> (a: Action)
        requires
            forall|i: int|
                0 <= i < old(self).candidates@.len() ==> (#[trigger] old(
                    self,
                ).candidates@[i]).published.in_range(),
        ensures
            finishes(old(self)@, final(self)@, a, r),
            final(self).wf(),
    {
        self.phase = Phase::Finished;
        Action::Finish(r)
    }

    /// Whether the run is over.
    pub fn is_finished(&self) -> (r: bool)
        ensures
            r == (self@.phase == Phase::Finished),
    {
        self.phase == Phase::Finished
    }

    /// Whether this is a dry run.
    pub fn is_dry_run(&self) -> (r: bool)
        ensures
            r == self@.dry_run,
    {
        self.dry_run
    }

    /// Takes one step on `event`, the time being `now`.
    pub fn step_at(&mut self, event: Event, now: Instant) -> (a: Action)
        requires
            old(self).wf(),
            awaited(old(self)@.phase, event),
            now.representable(),
        ensures
            final(self).wf(),
            step_spec(old(self)@, event, now, final(self)@, a),
    {
        match event {
            Event::Fetched(r) => match r {
                Err(err) => self.finish(Err(err)),
                Ok(bytes) => match parse_feed(bytes.as_slice()) {
                    Err(e) => self.finish(Err(e)),
                    Ok(items) => {
                        let rev = reversed(items);
                        assert(items_text(rev@) =~= items_text(items@).reverse());
                        self.items = rev;
                        self.phase = Phase::AwaitSavedDate;
                        Action::ReadSavedDate { key: last_run_key_string() }
                    },
                },
            },
            Event::SavedDate(r) => {
                let saved = match &r {
                    Ok(Some(t)) => parse_date(t.as_str()),
                    _ => None,
                };
                assert(saved == saved_instant(r));
                let cutoff = now.minus_seconds(FRESHNESS_SECS);
                let candidates = select_candidates(&self.items, &cutoff, &saved);
                self.candidates = candidates;
                self.continue_posting(0, &now)
            },
            Event::PostedLinks(r) => {
                proof {
                    assert(self@.candidates.len() == self.candidates@.len());
                    assert(self.candidates@.len() == self.candidates.len());
                }
                let seen = match &r {
                    Ok(values) => link_recorded(values, &self.candidates[self.pos].link),
                    Err(_) => false,
                };
                if seen {
                    let p = self.pos + 1;
                    self.continue_posting(p, &now)
                } else {
                    match compose_message(&self.candidates[self.pos]) {
                        Ok(message) => {
                            self.phase = Phase::AwaitPost;
                            Action::Post { message }
                        },
                        Err(e) => self.finish(Err(e)),
                    }
                }
            },
            Event::Posted(r) => match r {
                Err(err) => self.finish(Err(err)),
                Ok(_) => {
                    proof {
                        assert(self@.candidates.len() == self.candidates@.len());
                        assert(self.candidates@.len() == self.candidates.len());
                    }
                    if self.dry_run {
                        let p = self.pos + 1;
                        self.continue_posting(p, &now)
                    } else {
                        self.phase = Phase::AwaitRecord;
                        let value = self.candidates[self.pos].link.clone();
                        Action::RecordLink { key: posted_links_key_string(), value }
                    }
                },
            },
            Event::Recorded(_) => {
                proof {
                    assert(self@.candidates.len() == self.candidates@.len());
                    assert(self.candidates@.len() == self.candidates.len());
                }
                let p = self.pos + 1;
                self.continue_posting(p, &now)
            },
            Event::RunDateSaved(r) => match r {
                Err(err) => self.finish(Err(err)),
                Ok(_) => {
                    self.phase = Phase::AwaitListing;
                    Action::ListStore
                },
            },
            Event::Listed(r) => match r {
                Err(_) => self.finish(Ok(())),
                Ok(entries) => {
                    let cutoff = now.minus_seconds(LINK_RETENTION_SECS);
                    let stale = stale_link_keys(&entries, &cutoff);
                    self.stale = stale;
                    self.continue_cleanup(0)
                },
            },
            Event::Deleted(_) => {
                proof {
                    assert(self@.stale.len() == self.stale@.len());
                    assert(self.stale@.len() == self.stale.len());
                }
                let p = self.pos + 1;
                self.continue_cleanup(p)
            },
        }
    }

    /// Takes one step on `event`, reading the clock for the time.
    pub fn step(&mut self, event: Event) -> (a: Action)
        requires
            old(self).wf(),
            awaited(old(self)@.phase, event),
        ensures
            final(self).wf(),
            exists|now: Instant|
                now.representable() && #[trigger] step_spec(old(self)@, event, now, final(self)@, a),
    {
        let now = utc_now();
        let a = self.step_at(event, now);
        assert(step_spec(old(self)@, event, now, self@, a));
        a
    }
}

/// The items in the opposite order.
fn reversed(items: Vec<FeedItem>) -> (r: Vec<FeedItem>)
    ensures
        r@ == items@.reverse(),
{
    let mut rest = items;
    let ghost original = rest@;
    let mut out: Vec<FeedItem> = Vec::new();
    while rest.len() > 0
        invariant
            rest@.len() <= original.len(),
            rest@ == original.subrange(0, rest@.len() as int),
            out@ == original.subrange(rest@.len() as int, original.len() as int).reverse(),
        decreases rest@.len(),
    {
        let x = rest.pop().unwrap();
        proof {
            let k = rest@.len() as int;
            assert(x == original[k]);
            assert(original.subrange(k, original.len() as int).reverse() =~= original.subrange(
                k + 1,
                original.len() as int,
            ).reverse().push(x));
        }
        out.push(x);
    }
    assert(original.subrange(0, original.len() as int).reverse() =~= original.reverse());
    out
}

} // verus!

verus! {

/// In a dry run the run never waits on a write: it records no link, stores
/// no run time, and lists and deletes nothing.
pub open spec fn dry_run_inv(s: RunView) -> bool {
    s.dry_run ==> !(s.phase == Phase::AwaitRecord || s.phase == Phase::AwaitRunDateSaved || s.phase
        == Phase::AwaitListing || s.phase == Phase::AwaitDeletion)
}

/// The action writes to the store.
pub open spec fn writes(a: Action) -> bool {
    ||| a is RecordLink
    ||| a is SaveRunDate
    ||| a is DeleteKey
}

/// A dry run writes nothing: from a state that keeps `dry_run_inv`, a step
/// keeps it, keeps the dry-run flag, and in a dry run asks for no write and no
/// listing.
pub proof fn law_dry_run_writes_nothing(s: RunView, e: Event, now: Instant, n: RunView, a: Action)
    requires
        dry_run_inv(s),
        step_spec(s, e, now, n, a),
    ensures
        dry_run_inv(n),
        n.dry_run == s.dry_run,
        s.dry_run ==> !writes(a) && !(a is ListStore),
{
}

/// A message is posted only for the current candidate, right after the
/// posted links were read and its link was not among them (or they could not
/// be read), and it is that candidate's message.
pub proof fn law_post_follows_check(s: RunView, e: Event, now: Instant, n: RunView, a: Action)
    requires
        step_spec(s, e, now, n, a),
        a is Post,
    ensures
        s.phase == Phase::AwaitPublished,
        e matches Event::PostedLinks(r) && !already_posted(r, s.candidates[s.pos as int].0),
        n.pos == s.pos,
        a->message@ == message_spec(
            s.candidates[s.pos as int],
            rfc2822_text(s.candidates[s.pos as int].3.secs, s.candidates[s.pos as int].3.nanos),
        ),
{
}

/// A link among the posted links is not posted again: the run moves on to
/// the next candidate.
pub proof fn law_recorded_link_not_reposted(s: RunView, values: Vec<String>, now: Instant, n: RunView, a: Action)
    requires
        step_spec(s, Event::PostedLinks(Ok(values)), now, n, a),
        texts(values@).contains(s.candidates[s.pos as int].0),
    ensures
        !(a is Post),
        n.pos == s.pos + 1 || n.phase == Phase::Finished,
{
}

/// A failed post ends the run with that error: no later article is posted,
/// and the time of the run is not stored.
pub proof fn law_failed_post_ends_run(s: RunView, err: BotError, now: Instant, n: RunView, a: Action)
    requires
        step_spec(s, Event::Posted(Err(err)), now, n, a),
    ensures
        n.phase == Phase::Finished,
        a == Action::Finish(Err(err)),
{
}

/// A posted link is written under the posted-links key, unless it is a dry
/// run.
pub proof fn law_posted_link_recorded(s: RunView, now: Instant, n: RunView, a: Action)
    requires
        step_spec(s, Event::Posted(Ok(())), now, n, a),
        !s.dry_run,
    ensures
        a matches Action::RecordLink { key, value } && key@ == posted_links_key() && value@
            == s.candidates[s.pos as int].0,
{
}

/// The feed's items are taken oldest first: in the reverse of document
/// order.
pub proof fn law_items_oldest_first(s: RunView, bytes: Vec<u8>, now: Instant, n: RunView, a: Action)
    requires
        step_spec(s, Event::Fetched(Ok(bytes)), now, n, a),
        rss_channel_items(bytes@) is Some,
    ensures
        n.items == rss_channel_items(bytes@)->0.reverse(),
{
}

/// The stale keys are `link:` entries whose recorded time, read as RFC 3339,
/// lies before the cutoff.
pub proof fn law_stale_keys_are_old_links(entries: Seq<(Seq<char>, Seq<char>)>, cutoff: Instant, i: int)
    requires
        0 <= i < stale_keys_spec(entries, cutoff).len(),
    ensures
        exists|j: int|
            0 <= j < entries.len() && (#[trigger] entries[j]).0 == stale_keys_spec(entries, cutoff)[i]
                && crate::posted::stale_spec(entries[j].0, crate::instant::rfc3339_parse(entries[j].1), cutoff),
    decreases entries.len(),
{
    let p = entries.drop_last();
    if i < stale_keys_spec(p, cutoff).len() {
        law_stale_keys_are_old_links(p, cutoff, i);
        let j = choose|j: int|
            0 <= j < p.len() && (#[trigger] p[j]).0 == stale_keys_spec(p, cutoff)[i]
                && crate::posted::stale_spec(p[j].0, crate::instant::rfc3339_parse(p[j].1), cutoff);
        assert(entries[j] == p[j]);
    } else {
        let j = entries.len() - 1;
        assert(entries[j] == entries.last());
    }
}

/// The keys the weekly cleanup deletes when the store lists `entries` at
/// time `now`: the `link:` entries recorded more than seven days before.
pub open spec fn cleanup_keys(entries: Vec<(String, String)>, now: Instant) -> Seq<Seq<char>> {
    stale_keys_spec(pair_texts(entries@), earlier(now, LINK_RETENTION_SECS as int))
}

/// The cleanup starts at the first stale key: after the listing, the run asks
/// to delete the first key it found stale, or ends well where there is none.
pub proof fn law_cleanup_starts_at_first_key(
    s: RunView,
    entries: Vec<(String, String)>,
    now: Instant,
    n: RunView,
    a: Action,
)
    requires
        step_spec(s, Event::Listed(Ok(entries)), now, n, a),
    ensures
        n.stale == cleanup_keys(entries, now),
        n.pos == 0,
        n.stale.len() > 0 ==> n.phase == Phase::AwaitDeletion && (a matches Action::DeleteKey { key }
            && key@ == n.stale[0]),
        n.stale.len() == 0 ==> n.phase == Phase::Finished && a == Action::Finish(Ok(())),
{
}

/// After a deletion, whether it succeeded or not, the run moves to the next
/// stale key, one place on: it asks to delete that key, or, past the last
/// one, ends well. No key is skipped.
pub proof fn law_deletion_moves_to_next_key(
    s: RunView,
    r: Result<(), BotError>,
    now: Instant,
    n: RunView,
    a: Action,
)
    requires
        step_spec(s, Event::Deleted(r), now, n, a),
    ensures
        n.pos == s.pos + 1,
        n.stale == s.stale,
        s.pos + 1 < s.stale.len() ==> n.phase == Phase::AwaitDeletion && (a matches Action::DeleteKey {
            key,
        } && key@ == s.stale[s.pos + 1int]),
        s.pos + 1 >= s.stale.len() ==> n.phase == Phase::Finished && a == Action::Finish(Ok(())),
{
}

/// The `k`-th step of a cleanup, counting the listing as step 0.
proof fn lemma_cleanup_step(
    states: Seq<RunView>,
    events: Seq<Event>,
    times: Seq<Instant>,
    actions: Seq<Action>,
    entries: Vec<(String, String)>,
    k: int,
)
    requires
        states.len() == events.len() + 1,
        times.len() == events.len(),
        actions.len() == events.len(),
        events.len() >= 1,
        events[0] == Event::Listed(Ok(entries)),
        forall|i: int| 1 <= i < events.len() ==> (#[trigger] events[i]) is Deleted,
        forall|i: int|
            0 <= i < events.len() ==> #[trigger] step_spec(
                states[i],
                events[i],
                times[i],
                states[i + 1],
                actions[i],
            ),
        0 <= k < events.len(),
    ensures
        states[k + 1].stale == cleanup_keys(entries, times[0]),
        states[k + 1].pos == k,
        k <= cleanup_keys(entries, times[0]).len(),
        k < cleanup_keys(entries, times[0]).len() ==> states[k + 1].phase == Phase::AwaitDeletion
            && (actions[k] matches Action::DeleteKey { key } && key@ == cleanup_keys(entries, times[0])[k]),
        k == cleanup_keys(entries, times[0]).len() ==> states[k + 1].phase == Phase::Finished
            && actions[k] == Action::Finish(Ok(())),
    decreases k,
{
    assert(step_spec(states[k], events[k], times[k], states[k + 1], actions[k]));
    if k == 0 {
        law_cleanup_starts_at_first_key(states[0], entries, times[0], states[1], actions[0]);
    } else {
        lemma_cleanup_step(states, events, times, actions, entries, k - 1);
        assert(events[k] is Deleted);
        let r = events[k]->Deleted_0;
        assert(events[k] == Event::Deleted(r));
        law_deletion_moves_to_next_key(states[k], r, times[k], states[k + 1], actions[k]);
    }
}

/// The weekly cleanup deletes every stale key, each once and in order: in a
/// run of steps that starts with the listing and goes on with deletions, the
/// `i`-th action asks to delete the `i`-th stale key, and the action after
/// the last of them ends the run well; the run takes no deletion step more.
pub proof fn law_cleanup_deletes_each_stale_key_in_turn(
    states: Seq<RunView>,
    events: Seq<Event>,
    times: Seq<Instant>,
    actions: Seq<Action>,
    entries: Vec<(String, String)>,
)
    requires
        states.len() == events.len() + 1,
        times.len() == events.len(),
        actions.len() == events.len(),
        events.len() >= 1,
        events[0] == Event::Listed(Ok(entries)),
        forall|i: int| 1 <= i < events.len() ==> (#[trigger] events[i]) is Deleted,
        forall|i: int|
            0 <= i < events.len() ==> #[trigger] step_spec(
                states[i],
                events[i],
                times[i],
                states[i + 1],
                actions[i],
            ),
    ensures
        forall|i: int|
            0 <= i < actions.len() && i < cleanup_keys(entries, times[0]).len() ==> ((
            #[trigger] actions[i]) matches Action::DeleteKey { key } && key@ == cleanup_keys(
                entries,
                times[0],
            )[i]),
        actions.len() > cleanup_keys(entries, times[0]).len() ==> actions[cleanup_keys(
            entries,
            times[0],
        ).len() as int] == Action::Finish(Ok(())),
        actions.len() <= cleanup_keys(entries, times[0]).len() + 1,
{
    let keys = cleanup_keys(entries, times[0]);
    assert forall|i: int| 0 <= i < actions.len() && i < keys.len() implies ((
    #[trigger] actions[i]) matches Action::DeleteKey { key } && key@ == keys[i]) by {
        lemma_cleanup_step(states, events, times, actions, entries, i);
    }
    if actions.len() > keys.len() {
        lemma_cleanup_step(states, events, times, actions, entries, keys.len() as int);
    }
    lemma_cleanup_step(states, events, times, actions, entries, actions.len() - 1);
}

/// How far a run has got: the stage it is in, the candidate or stale link it
/// is at, and the step within that candidate.
pub open spec fn progress(s: RunView) -> (int, int, int) {
    match s.phase {
        Phase::AwaitFeed => (0, 0, 0),
        Phase::AwaitSavedDate => (1, 0, 0),
        Phase::AwaitPublished => (2, s.pos as int, 0),
        Phase::AwaitPost => (2, s.pos as int, 1),
        Phase::AwaitRecord => (2, s.pos as int, 2),
        Phase::AwaitRunDateSaved => (3, 0, 0),
        Phase::AwaitListing => (4, 0, 0),
        Phase::AwaitDeletion => (5, s.pos as int, 0),
        Phase::Finished => (6, 0, 0),
    }
}

/// `p` comes strictly before `q` in lexicographic order.
pub open spec fn lex_before(p: (int, int, int), q: (int, int, int)) -> bool {
    ||| p.0 < q.0
    ||| (p.0 == q.0 && p.1 < q.1)
    ||| (p.0 == q.0 && p.1 == q.1 && p.2 < q.2)
}

/// Every step moves the run forward, and within a stage the position stays
/// within its list, so a run ends after finitely many steps.
pub proof fn law_steps_make_progress(s: RunView, e: Event, now: Instant, n: RunView, a: Action)
    requires
        run_wf(s),
        step_spec(s, e, now, n, a),
    ensures
        lex_before(progress(s), progress(n)),
        run_wf(n),
        (a is Finish) <==> n.phase == Phase::Finished,
{
}

/// The app id of a run, for display: `APP_ID` read as an `i64`, 0 where it is
/// not set or not a number.
pub open spec fn app_id_spec(setting: Option<String>) -> i64 {
    match setting {
        Some(t) => match crate::text::i64_from_text(t@) {
            Some(v) => v,
            None => 0,
        },
        None => 0,
    }
}

/// The app id of a run: `APP_ID` read as an `i64`, 0 where it is not set or
/// not a number.
pub fn app_id_from_setting(setting: Option<String>) -> (r: i64)
    ensures
        r == app_id_spec(setting),
{
    match setting {
        Some(t) => match crate::text::parse_i64(t.as_str()) {
            Some(v) => v,
            None => 0,
        },
        None => 0,
    }
}

/// Whether the command line asks for a dry run: some argument is `--dryrun`.
pub fn dry_run_requested(args: &Vec<String>) -> (r: bool)
    ensures
        r == exists|i: int| 0 <= i < args@.len() && (#[trigger] args@[i])@ == "--dryrun"@,
{
    let flag = "--dryrun".to_owned();
    let mut i: usize = 0;
    while i < args.len()
        invariant
            i <= args@.len(),
            flag@ == "--dryrun"@,
            forall|j: int| 0 <= j < i ==> (#[trigger] args@[j])@ != "--dryrun"@,
        decreases args@.len() - i,
    {
        if args[i] == flag {
            return true;
        }
        i = i + 1;
    }
    false
}

/// A link posted once is not posted again. After the run asks to write the
/// posted link, the store holds it under the posted-links key; whatever is
/// written afterwards, a later look at the same link (in this run or a later
/// one) reads it back among the posted links and moves on without posting.
pub proof fn law_posted_link_never_posted_again(
    s: RunView,
    now: Instant,
    n: RunView,
    a: Action,
    store: Map<Seq<char>, Seq<Seq<char>>>,
    later_writes: Seq<(Seq<char>, Seq<char>)>,
    s2: RunView,
    values: Vec<String>,
    now2: Instant,
    n2: RunView,
    a2: Action,
)
    requires
        step_spec(s, Event::Posted(Ok(())), now, n, a),
        !s.dry_run,
        a matches Action::RecordLink { key, value } && texts(values@) == values_or_empty(
            pairs_written(written(store, key@, value@), later_writes),
            posted_links_key(),
        ),
        s2.candidates[s2.pos as int].0 == s.candidates[s.pos as int].0,
        step_spec(s2, Event::PostedLinks(Ok(values)), now2, n2, a2),
    ensures
        !(a2 is Post),
{
    let link = s.candidates[s.pos as int].0;
    let key = a->RecordLink_key@;
    let value = a->RecordLink_value@;
    assert(key == posted_links_key() && value == link);
    let m = written(store, key, value);
    crate::kv::law_write_keeps_earlier_values(store, key, value, key);
    let before = values_or_empty(m, key);
    assert(before.last() == link);
    crate::kv::law_writes_only_add(m, later_writes, key);
    assert(texts(values@)[before.len() - 1] == link);
    assert(texts(values@).contains(link));
    assert(already_posted(Ok(values), s2.candidates[s2.pos as int].0));
}

/// The weekly cleanup never deletes the posted links: every key it deletes
/// begins with `link:`, and the posted-links key does not.
pub proof fn law_cleanup_keeps_posted_links(entries: Seq<(Seq<char>, Seq<char>)>, cutoff: Instant)
    ensures
        !stale_keys_spec(entries, cutoff).contains(posted_links_key()),
{
    let stale = stale_keys_spec(entries, cutoff);
    if stale.contains(posted_links_key()) {
        let i = choose|i: int| 0 <= i < stale.len() && stale[i] == posted_links_key();
        law_stale_keys_are_old_links(entries, cutoff, i);
        let j = choose|j: int|
            0 <= j < entries.len() && (#[trigger] entries[j]).0 == stale[i]
                && crate::posted::stale_spec(entries[j].0, crate::instant::rfc3339_parse(entries[j].1), cutoff);
        reveal_strlit("posted link");
        reveal_strlit("link:");
        assert(posted_links_key().subrange(0, 5)[0] != crate::posted::link_prefix()[0]);
    }
}

} // verus!
