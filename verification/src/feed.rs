use crate::error::BotError;
use crate::http::{header_texts, HttpMethod, HttpRequest};
use crate::instant::{feed_date_from_text, parse_rss_date, rfc2822_text, to_rfc2822, Instant};
use crate::text::{shorten, shorten_spec, trim, trim_spec};
use vstd::prelude::*;

verus! {

/// The parts of an RSS item the bot reads.
pub struct FeedItem {
    pub title: Option<String>,
    pub link: Option<String>,
    pub description: Option<String>,
    pub pub_date: Option<String>,
}

/// The text of an optional string.
pub open spec fn opt_text(o: Option<String>) -> Option<Seq<char>> {
    match o {
        Some(s) => Some(s@),
        None => None,
    }
}

/// The text of an optional string, empty where there is none (what
/// `unwrap_or_default` gives).
pub open spec fn text_or_empty(o: Option<Seq<char>>) -> Seq<char> {
    match o {
        Some(s) => s,
        None => Seq::empty(),
    }
}

/// The texts of an item's title, link, description and publication date.
pub type ItemText = (Option<Seq<char>>, Option<Seq<char>>, Option<Seq<char>>, Option<Seq<char>>);

impl FeedItem {
    /// The texts of the item.
    pub open spec fn text(self) -> ItemText {
        (opt_text(self.title), opt_text(self.link), opt_text(self.description), opt_text(self.pub_date))
    }
}

/// The texts of a list of items.
pub open spec fn items_text(items: Seq<FeedItem>) -> Seq<ItemText> {
    items.map_values(|i: FeedItem| i.text())
}

/// What `rss::Channel::read_from` reads in `bytes`: the title, link,
/// description and publication date of each item of the channel, in document
/// order; `None` where it reports an error.
pub uninterp spec fn rss_channel_items(bytes: Seq<u8>) -> Option<Seq<ItemText>>;

#[verifier::external_type_specification]
#[verifier::external_body]
pub struct ExRssError(rss::Error);

/// Calls `rss::Channel::read_from` on the bytes and keeps, of each item, its
/// title, link, description and publication date. Claimed: it succeeds
/// exactly when the named `rss_channel_items` is present, and the items are
/// those it names.
#[verifier::external_body]
fn rss_read_items(bytes: &[u8]) -> (r: Result<Vec<FeedItem>, rss::Error>)
    ensures
        r is Ok <==> rss_channel_items(bytes@) is Some,
        r matches Ok(items) ==> items_text(items@) == rss_channel_items(bytes@)->0,
{
    match rss::Channel::read_from(bytes) {
        Ok(channel) => Ok(
            channel.items.into_iter().map(
                |i| FeedItem { title: i.title, link: i.link, description: i.description, pub_date: i.pub_date },
            ).collect(),
        ),
        Err(e) => Err(e),
    }
}

/// Reads the items of an RSS document, in document order.
pub fn parse_feed(bytes: &[u8]) -> (r: Result<Vec<FeedItem>, BotError>)
    ensures
        r is Ok <==> rss_channel_items(bytes@) is Some,
        r matches Ok(items) ==> items_text(items@) == rss_channel_items(bytes@)->0,
        r matches Err(e) ==> e == BotError::FeedUnreadable,
{
    match rss_read_items(bytes) {
        Ok(items) => Ok(items),
        Err(_) => Err(BotError::FeedUnreadable),
    }
}

/// The feed the bot reads when `NEWSPENGUIN_RSS_URI` is not set.
pub open spec fn default_feed_url() -> Seq<char> {
    "https://www.newspenguin.com/rss/allArticle.xml"@
}

/// The URL of the feed: the value of `NEWSPENGUIN_RSS_URI`, or the
/// NewsPenguin feed, trimmed.
pub open spec fn feed_url_spec(setting: Option<String>) -> Seq<char> {
    match setting {
        Some(s) => trim_spec(s@),
        None => trim_spec(default_feed_url()),
    }
}

/// The URL of the feed: the value of `NEWSPENGUIN_RSS_URI`, or the
/// NewsPenguin feed, trimmed.
pub fn feed_url(setting: Option<String>) -> (r: String)
    ensures
        r@ == feed_url_spec(setting),
{
    match setting {
        Some(s) => trim(s.as_str()).to_owned(),
        None => trim("https://www.newspenguin.com/rss/allArticle.xml").to_owned(),
    }
}

/// The user agent the bot sends when `NEWSPENGUIN_USER_AGENT` is not set.
pub open spec fn default_user_agent() -> Seq<char> {
    "Mozilla/5.0 (Windows NT 10.0; Win64; x64; rv:125.0) Gecko/20100101 Firefox/125.0"@
}

/// The headers of the feed request, with the given user agent.
pub open spec fn feed_headers(user_agent: Seq<char>) -> Seq<(Seq<char>, Seq<char>)> {
    seq![
        ("User-Agent"@, user_agent),
        (
            "Accept"@,
            "text/html,application/xhtml+xml,application/xml;q=0.9,image/avif,image/webp,image/apng,*/*;q=0.8"@,
        ),
        ("Accept-Language"@, "en-US,en;q=0.9"@),
        ("Cache-Control"@, "max-age=0"@),
        ("Upgrade-Insecure-Requests"@, "1"@),
    ]
}

/// `q` is the GET request for the feed at `url`, sent with the value of
/// `NEWSPENGUIN_USER_AGENT` as user agent, or a browser's user agent where it
/// is not set.
pub open spec fn feed_request_is(q: HttpRequest, url: Seq<char>, user_agent: Option<String>) -> bool {
    &&& q.method == HttpMethod::Get
    &&& q.url@ == url
    &&& q.body is None
    &&& header_texts(q.headers@) == feed_headers(
        match user_agent {
            Some(ua) => ua@,
            None => default_user_agent(),
        },
    )
}

/// The GET request for the feed at `url`, sent with the value of
/// `NEWSPENGUIN_USER_AGENT` as user agent, or a browser's user agent where it
/// is not set.
pub fn feed_request(url: &str, user_agent: Option<String>) -> (r: HttpRequest)
    ensures
        feed_request_is(r, url@, user_agent),
{
    let agent = match user_agent {
        Some(ua) => ua,
        None => "Mozilla/5.0 (Windows NT 10.0; Win64; x64; rv:125.0) Gecko/20100101 Firefox/125.0".to_owned(),
    };
    let headers = vec![
        ("User-Agent".to_owned(), agent),
        (
            "Accept".to_owned(),
            "text/html,application/xhtml+xml,application/xml;q=0.9,image/avif,image/webp,image/apng,*/*;q=0.8".to_owned(),
        ),
        ("Accept-Language".to_owned(), "en-US,en;q=0.9".to_owned()),
        ("Cache-Control".to_owned(), "max-age=0".to_owned()),
        ("Upgrade-Insecure-Requests".to_owned(), "1".to_owned()),
    ];
    assert(header_texts(headers@) =~= feed_headers(agent@));
    HttpRequest { method: HttpMethod::Get, url: url.to_owned(), headers, body: None }
}


/// The publication instant of an item that is worth posting: it has a
/// non-empty link and a readable publication date that is not before
/// `cutoff` and, where a previous run left its time, after that time.
pub open spec fn screen_spec(item: ItemText, cutoff: Instant, saved: Option<Instant>) -> Option<Instant> {
    let link = text_or_empty(item.1);
    if link.len() == 0 {
        None
    } else {
        match item.3 {
            None => None,
            Some(d) => match feed_date_from_text(d) {
                None => None,
                Some(p) => {
                    let published = Instant { secs: p.0, nanos: p.1 };
                    if published.before(cutoff) {
                        None
                    } else if saved is Some && !saved->0.before(published) {
                        None
                    } else {
                        Some(published)
                    }
                },
            },
        }
    }
}

/// An item chosen for posting.
pub struct Candidate {
    pub link: String,
    pub title: String,
    pub description: String,
    pub published: Instant,
}

/// The texts of a candidate: link, title, description, and its publication
/// instant.
pub type CandidateText = (Seq<char>, Seq<char>, Seq<char>, Instant);

impl Candidate {
    /// The texts of the candidate.
    pub open spec fn text(self) -> CandidateText {
        (self.link@, self.title@, self.description@, self.published)
    }
}

/// The candidate an item gives, where it passes the screen.
pub open spec fn candidate_of(item: ItemText, cutoff: Instant, saved: Option<Instant>) -> Option<CandidateText> {
    match screen_spec(item, cutoff, saved) {
        Some(p) => Some((text_or_empty(item.1), text_or_empty(item.0), text_or_empty(item.2), p)),
        None => None,
    }
}

/// The candidates of `items`, in the order of `items`.
pub open spec fn candidates_spec(items: Seq<ItemText>, cutoff: Instant, saved: Option<Instant>) -> Seq<CandidateText>
    decreases items.len(),
{
    if items.len() == 0 {
        Seq::empty()
    } else {
        let before = candidates_spec(items.drop_last(), cutoff, saved);
        match candidate_of(items.last(), cutoff, saved) {
            Some(c) => before.push(c),
            None => before,
        }
    }
}

/// The texts of a list of candidates.
pub open spec fn candidates_text(cs: Seq<Candidate>) -> Seq<CandidateText> {
    cs.map_values(|c: Candidate| c.text())
}

/// The text of an optional string, empty where there is none.
fn string_or_empty(o: &Option<String>) -> (r: String)
    ensures
        r@ == text_or_empty(opt_text(*o)),
{
    match o {
        Some(s) => s.clone(),
        None => String::new(),
    }
}

/// Screens one item: its publication instant, where it is worth posting.
pub fn screen_item(item: &FeedItem, cutoff: &Instant, saved: &Option<Instant>) -> (r: Option<Instant>)
    ensures
        r == screen_spec(item.text(), *cutoff, *saved),
        r matches Some(p) ==> p.in_range(),
{
    let link_empty = match &item.link {
        Some(l) => l.unicode_len() == 0,
        None => true,
    };
    if link_empty {
        return None;
    }
    let published = match &item.pub_date {
        Some(d) => parse_rss_date(d.as_str()),
        None => None,
    };
    match published {
        None => None,
        Some(p) => {
            if p.is_before(cutoff) {
                None
            } else {
                match saved {
                    Some(s) => {
                        if s.is_before(&p) {
                            Some(p)
                        } else {
                            None
                        }
                    },
                    None => Some(p),
                }
            }
        },
    }
}

/// The items worth posting, in the order given, each with the texts the
/// message needs.
pub fn select_candidates(items: &Vec<FeedItem>, cutoff: &Instant, saved: &Option<Instant>) -> (r: Vec<Candidate>)
    ensures
        candidates_text(r@) == candidates_spec(items_text(items@), *cutoff, *saved),
        forall|i: int| 0 <= i < r@.len() ==> (#[trigger] r@[i]).published.in_range(),
{
    let mut out: Vec<Candidate> = Vec::new();
    let mut i: usize = 0;
    while i < items.len()
        invariant
            i <= items@.len(),
            candidates_text(out@) == candidates_spec(items_text(items@.subrange(0, i as int)), *cutoff, *saved),
            forall|j: int| 0 <= j < out@.len() ==> (#[trigger] out@[j]).published.in_range(),
        decreases items@.len() - i,
    {
        let ghost prefix = items_text(items@.subrange(0, i as int));
        let ghost next = items_text(items@.subrange(0, i as int + 1));
        assert(next.drop_last() =~= prefix);
        assert(next.last() == items@[i as int].text());
        let item = &items[i];
        match screen_item(item, cutoff, saved) {
            Some(p) => {
                let c = Candidate {
                    link: string_or_empty(&item.link),
                    title: string_or_empty(&item.title),
                    description: string_or_empty(&item.description),
                    published: p,
                };
                out.push(c);
                assert(candidates_text(out@) =~= candidates_text(out@.drop_last()).push(c.text()));
            },
            None => {},
        }
        i = i + 1;
    }
    assert(items@.subrange(0, items@.len() as int) =~= items@);
    out
}

/// The longest description a message carries before it is cut.
pub const DESCRIPTION_LIMIT: usize = 300;

/// The message posted for a candidate whose publication instant RFC 2822
/// writes as `date`: `title:`, the description cut to 300 characters, the
/// link, and the date in brackets, on four lines.
pub open spec fn message_spec(c: CandidateText, date: Seq<char>) -> Seq<char> {
    c.1 + ":\n"@ + shorten_spec(c.2, DESCRIPTION_LIMIT as nat) + "\n"@ + c.0 + "\n("@ + date + ")"@
}

/// Whether RFC 2822 can write the instant (chrono writes years 0 to 9999 only).
pub open spec fn rfc2822_writable(at: Instant) -> bool {
    at.representable() && crate::instant::YEAR_0_TIMESTAMP <= at.secs <= crate::instant::YEAR_9999_END_TIMESTAMP
}

/// The message posted for a candidate; an error where the publication instant
/// cannot be written in RFC 2822.
pub fn compose_message(c: &Candidate) -> (r: Result<String, BotError>)
    ensures
        r is Ok <==> rfc2822_writable(c.published),
        r matches Ok(m) ==> m@ == message_spec(c.text(), rfc2822_text(c.published.secs, c.published.nanos)),
        r matches Err(e) ==> e == BotError::DateNotWritable,
{
    let date = match to_rfc2822(&c.published) {
        Some(d) => d,
        None => return Err(BotError::DateNotWritable),
    };
    let description = shorten(c.description.as_str(), DESCRIPTION_LIMIT);
    let m = c.title.clone().concat(":\n").concat(description.as_str()).concat("\n").concat(
        c.link.as_str(),
    ).concat("\n(").concat(date.as_str()).concat(")");
    Ok(m)
}

} // verus!

verus! {

/// Every candidate has a link, and was published no earlier than `cutoff`
/// and after the last run (when there was one).
pub proof fn law_candidates_are_fresh(items: Seq<ItemText>, cutoff: Instant, saved: Option<Instant>, i: int)
    requires
        0 <= i < candidates_spec(items, cutoff, saved).len(),
    ensures
        candidates_spec(items, cutoff, saved)[i].0.len() > 0,
        !candidates_spec(items, cutoff, saved)[i].3.before(cutoff),
        saved matches Some(sd) ==> sd.before(candidates_spec(items, cutoff, saved)[i].3),
    decreases items.len(),
{
    let before = candidates_spec(items.drop_last(), cutoff, saved);
    if i < before.len() {
        law_candidates_are_fresh(items.drop_last(), cutoff, saved, i);
    }
}

/// The candidates are exactly the items that pass the screen: each candidate
/// comes from an item, and each item that passes gives a candidate.
pub proof fn law_candidates_are_the_passing_items(items: Seq<ItemText>, cutoff: Instant, saved: Option<Instant>)
    ensures
        forall|i: int|
            #![trigger candidates_spec(items, cutoff, saved)[i]]
            0 <= i < candidates_spec(items, cutoff, saved).len() ==> exists|j: int|
                0 <= j < items.len() && candidate_of(#[trigger] items[j], cutoff, saved) == Some(
                    candidates_spec(items, cutoff, saved)[i],
                ),
        forall|j: int|
            0 <= j < items.len() && #[trigger] candidate_of(items[j], cutoff, saved) is Some ==> candidates_spec(
                items,
                cutoff,
                saved,
            ).contains(candidate_of(items[j], cutoff, saved)->0),
    decreases items.len(),
{
    if items.len() > 0 {
        let p = items.drop_last();
        law_candidates_are_the_passing_items(p, cutoff, saved);
        let before = candidates_spec(p, cutoff, saved);
        let all = candidates_spec(items, cutoff, saved);
        assert forall|i: int| #![trigger all[i]] 0 <= i < all.len() implies exists|j: int|
            0 <= j < items.len() && candidate_of(#[trigger] items[j], cutoff, saved) == Some(all[i]) by {
            if i < before.len() {
                let j = choose|j: int|
                    0 <= j < p.len() && candidate_of(#[trigger] p[j], cutoff, saved) == Some(before[i]);
                assert(items[j] == p[j]);
            } else {
                assert(candidate_of(items[items.len() - 1], cutoff, saved) == Some(all[i]));
            }
        }
        assert forall|j: int|
            0 <= j < items.len() && #[trigger] candidate_of(items[j], cutoff, saved) is Some implies all.contains(
                candidate_of(items[j], cutoff, saved)->0,
            ) by {
            let c = candidate_of(items[j], cutoff, saved)->0;
            if j < p.len() {
                assert(items[j] == p[j]);
                let i = choose|i: int| 0 <= i < before.len() && before[i] == c;
                assert(all[i] == c);
            } else {
                assert(all[all.len() - 1] == c);
            }
        }
    }
}

/// An item passes the screen, with publication instant `p`, exactly when it
/// has a non-empty link (whatever the link holds), its publication date reads
/// as `p`, `p` is not before the cutoff and, where a previous run left its
/// time, `p` comes after that time.
pub proof fn law_screen_passes_exactly_fresh_items(
    item: ItemText,
    cutoff: Instant,
    saved: Option<Instant>,
    p: Instant,
)
    ensures
        screen_spec(item, cutoff, saved) == Some(p) <==> ((item.1 matches Some(l) && l.len() > 0) && (
        item.3 matches Some(d) && feed_date_from_text(d) == Some((p.secs, p.nanos))) && !p.before(
            cutoff,
        ) && (saved matches Some(sd) ==> sd.before(p))),
{
}

/// The message of a candidate: the title and `:`, the description (cut to
/// `DESCRIPTION_LIMIT` characters and marked `...` where it is longer, whatever
/// the title), the link, and the date in brackets, each on a line of its own.
pub proof fn law_message_layout(c: CandidateText, date: Seq<char>)
    ensures
        message_spec(c, date) == c.1 + ":\n"@ + (if c.2.len() > DESCRIPTION_LIMIT {
            c.2.subrange(0, DESCRIPTION_LIMIT as int) + "..."@
        } else {
            c.2
        }) + "\n"@ + c.0 + "\n("@ + date + ")"@,
        message_spec(c, date).len() == c.1.len() + c.0.len() + date.len() + 6 + (
        if c.2.len() > DESCRIPTION_LIMIT {
            DESCRIPTION_LIMIT + 3
        } else {
            c.2.len() as int
        }),
        message_spec(c, date).len() <= c.1.len() + c.0.len() + date.len() + DESCRIPTION_LIMIT + 9,
        forall|i: int| 0 <= i < c.1.len() ==> message_spec(c, date)[i] == #[trigger] c.1[i],
        message_spec(c, date)[c.1.len() as int] == ':',
        message_spec(c, date)[c.1.len() + 1int] == '\n',
        forall|i: int|
            0 <= i < c.2.len() && i < DESCRIPTION_LIMIT ==> message_spec(c, date)[c.1.len() + 2 + i]
                == #[trigger] c.2[i],
        c.2.len() > DESCRIPTION_LIMIT ==> message_spec(c, date)[c.1.len() + 2 + DESCRIPTION_LIMIT] == '.'
            && message_spec(c, date)[c.1.len() + 3 + DESCRIPTION_LIMIT] == '.' && message_spec(c, date)[c.1.len()
            + 4 + DESCRIPTION_LIMIT] == '.',
{
    reveal_strlit(":\n");
    reveal_strlit("...");
    reveal_strlit("\n");
    reveal_strlit("\n(");
    reveal_strlit(")");
    let m = message_spec(c, date);
    let d = shorten_spec(c.2, DESCRIPTION_LIMIT as nat);
    let head = c.1 + ":\n"@;
    assert(head.len() == c.1.len() + 2);
    assert(m == head + d + "\n"@ + c.0 + "\n("@ + date + ")"@);
    assert forall|i: int| 0 <= i < c.1.len() implies m[i] == #[trigger] c.1[i] by {
        assert(m[i] == head[i]);
    }
    assert(m[c.1.len() as int] == head[c.1.len() as int]);
    assert(m[c.1.len() + 1int] == head[c.1.len() + 1int]);
    assert forall|i: int| 0 <= i < c.2.len() && i < DESCRIPTION_LIMIT implies m[c.1.len() + 2 + i]
        == #[trigger] c.2[i] by {
        assert(m[c.1.len() + 2 + i] == (head + d)[c.1.len() + 2 + i]);
        assert(d[i] == c.2[i]);
    }
    if c.2.len() > DESCRIPTION_LIMIT {
        let k = c.1.len() + 2 + DESCRIPTION_LIMIT;
        assert(m[k] == (head + d)[k]);
        assert(m[k + 1] == (head + d)[k + 1]);
        assert(m[k + 2] == (head + d)[k + 2]);
    }
}

/// The candidates are the items that pass the screen, in the order of the
/// items, each once: the link, title and description of the item (empty where
/// it has none) with the instant the screen gives.
pub proof fn law_candidates_keep_item_order(items: Seq<ItemText>, cutoff: Instant, saved: Option<Instant>)
    ensures
        candidates_spec(items, cutoff, saved) == items.filter(
            |it: ItemText| screen_spec(it, cutoff, saved) is Some,
        ).map_values(
            |it: ItemText|
                (
                    text_or_empty(it.1),
                    text_or_empty(it.0),
                    text_or_empty(it.2),
                    screen_spec(it, cutoff, saved)->0,
                ),
        ),
    decreases items.len(),
{
    reveal(Seq::filter);
    let pred = |it: ItemText| screen_spec(it, cutoff, saved) is Some;
    let cand = |it: ItemText|
        (
            text_or_empty(it.1),
            text_or_empty(it.0),
            text_or_empty(it.2),
            screen_spec(it, cutoff, saved)->0,
        );
    if items.len() > 0 {
        let p = items.drop_last();
        law_candidates_keep_item_order(p, cutoff, saved);
        let f = p.filter(pred);
        let e = items.last();
        assert(items.filter(pred) == if pred(e) {
            f.push(e)
        } else {
            f
        });
        if pred(e) {
            assert(f.push(e).map_values(cand) =~= f.map_values(cand).push(cand(e)));
        }
    } else {
        assert(items.filter(pred).map_values(cand) =~= Seq::<CandidateText>::empty());
    }
}

/// There are no more candidates than items.
pub proof fn law_candidates_at_most_items(items: Seq<ItemText>, cutoff: Instant, saved: Option<Instant>)
    ensures
        candidates_spec(items, cutoff, saved).len() <= items.len(),
    decreases items.len(),
{
    if items.len() > 0 {
        law_candidates_at_most_items(items.drop_last(), cutoff, saved);
    }
}

} // verus!
