use crate::instant::{instant_pair, parse_rfc3339, rfc3339_parse, Instant};
use crate::kv::{pair_texts, texts};
use crate::text::{starts_with, starts_with_spec};
use vstd::prelude::*;

verus! {

/// The prefix of the keys under which earlier versions of the bot recorded
/// each posted link with its time; the weekly cleanup removes such entries.
pub open spec fn link_prefix() -> Seq<char> {
    "link:"@
}

/// The key under which every posted link is written, one value per link.
pub open spec fn posted_links_key() -> Seq<char> {
    "posted link"@
}

/// The key under which every posted link is written.
pub fn posted_links_key_string() -> (r: String)
    ensures
        r@ == posted_links_key(),
{
    "posted link".to_owned()
}

/// Whether `link` is among the posted links `values`.
pub fn link_recorded(values: &Vec<String>, link: &String) -> (r: bool)
    ensures
        r == texts(values@).contains(link@),
{
    let mut i: usize = 0;
    while i < values.len()
        invariant
            i <= values@.len(),
            forall|j: int| 0 <= j < i ==> (#[trigger] values@[j])@ != link@,
        decreases values@.len() - i,
    {
        if values[i] == *link {
            assert(texts(values@)[i as int] == link@);
            return true;
        }
        i = i + 1;
    }
    assert forall|j: int| 0 <= j < texts(values@).len() implies texts(values@)[j] != link@ by {
        assert(texts(values@)[j] == values@[j]@);
    }
    false
}

/// The key under which the time of the last run is stored.
pub open spec fn last_run_key() -> Seq<char> {
    "newspenguin-rss.last_build_date"@
}

/// The key under which the time of the last run is stored.
pub fn last_run_key_string() -> (r: String)
    ensures
        r@ == last_run_key(),
{
    "newspenguin-rss.last_build_date".to_owned()
}

/// How long a posted link stays recorded: seven days, in seconds.
pub const LINK_RETENTION_SECS: i64 = 604800;

/// Whether the entry with key `key`, whose value was read as an RFC 3339
/// date-time giving `recorded`, is a posted link recorded before `cutoff`.
pub open spec fn stale_spec(key: Seq<char>, recorded: Option<(i64, u32)>, cutoff: Instant) -> bool {
    &&& starts_with_spec(key, link_prefix())
    &&& match recorded {
        Some((secs, nanos)) => (Instant { secs, nanos }).before(cutoff),
        None => false,
    }
}

/// An entry is stale exactly when its key begins with `link:` and its value,
/// read as an RFC 3339 date-time, gives an instant strictly before the
/// cutoff; an entry whose value cannot be read is never stale.
pub proof fn law_stale_means_old_link(key: Seq<char>, value: Seq<char>, cutoff: Instant)
    ensures
        stale_spec(key, rfc3339_parse(value), cutoff) <==> ("link:"@.len() <= key.len() && key.subrange(
            0,
            "link:"@.len() as int,
        ) == "link:"@ && (rfc3339_parse(value) matches Some((secs, nanos)) && (secs < cutoff.secs || (
        secs == cutoff.secs && nanos < cutoff.nanos)))),
{
}

/// Whether an entry is a posted link recorded before `cutoff`, given what
/// reading its value as RFC 3339 gave.
pub fn is_stale_link(key: &str, recorded: Option<Instant>, cutoff: &Instant) -> (r: bool)
    ensures
        r == stale_spec(key@, instant_pair(recorded), *cutoff),
{
    let prefix = "link:";
    proof {
        reveal_strlit("link:");
    }
    if !starts_with(key, prefix) {
        return false;
    }
    match recorded {
        Some(t) => t.is_before(cutoff),
        None => false,
    }
}

/// The keys of the entries that are posted links recorded before `cutoff`,
/// in the order of `entries`.
pub open spec fn stale_keys_spec(entries: Seq<(Seq<char>, Seq<char>)>, cutoff: Instant) -> Seq<
    Seq<char>,
>
    decreases entries.len(),
{
    if entries.len() == 0 {
        Seq::empty()
    } else {
        let before = stale_keys_spec(entries.drop_last(), cutoff);
        let e = entries.last();
        if stale_spec(e.0, rfc3339_parse(e.1), cutoff) {
            before.push(e.0)
        } else {
            before
        }
    }
}

/// The stale keys are the keys of the stale entries, in order: every entry
/// that is a posted link recorded before the cutoff has its key among them,
/// whatever entries stand before or after it, and none other is there.
pub proof fn law_stale_keys_are_all_old_links(entries: Seq<(Seq<char>, Seq<char>)>, cutoff: Instant)
    ensures
        stale_keys_spec(entries, cutoff) == entries.filter(
            |e: (Seq<char>, Seq<char>)| stale_spec(e.0, rfc3339_parse(e.1), cutoff),
        ).map_values(|e: (Seq<char>, Seq<char>)| e.0),
        forall|j: int|
            0 <= j < entries.len() && stale_spec(
                #[trigger] entries[j].0,
                rfc3339_parse(entries[j].1),
                cutoff,
            ) ==> stale_keys_spec(entries, cutoff).contains(entries[j].0),
    decreases entries.len(),
{
    reveal(Seq::filter);
    let pred = |e: (Seq<char>, Seq<char>)| stale_spec(e.0, rfc3339_parse(e.1), cutoff);
    let key = |e: (Seq<char>, Seq<char>)| e.0;
    if entries.len() > 0 {
        let p = entries.drop_last();
        law_stale_keys_are_all_old_links(p, cutoff);
        let f = p.filter(pred);
        let e = entries.last();
        assert(entries.filter(pred) == if pred(e) {
            f.push(e)
        } else {
            f
        });
        if pred(e) {
            assert(f.push(e).map_values(key) =~= f.map_values(key).push(e.0));
        }
        let all = stale_keys_spec(entries, cutoff);
        let before = stale_keys_spec(p, cutoff);
        assert forall|j: int|
            0 <= j < entries.len() && stale_spec(
                #[trigger] entries[j].0,
                rfc3339_parse(entries[j].1),
                cutoff,
            ) implies all.contains(entries[j].0) by {
            if j < p.len() {
                assert(entries[j] == p[j]);
                let i = choose|i: int| 0 <= i < before.len() && before[i] == p[j].0;
                assert(all[i] == before[i]);
            } else {
                assert(entries[j] == e);
                assert(all[all.len() - 1] == e.0);
            }
        }
    } else {
        assert(entries.filter(pred).map_values(key) =~= Seq::<Seq<char>>::empty());
    }
}

/// The keys of the posted links recorded before `cutoff`.
pub fn stale_link_keys(entries: &Vec<(String, String)>, cutoff: &Instant) -> (r: Vec<String>)
    ensures
        texts(r@) == stale_keys_spec(pair_texts(entries@), *cutoff),
        forall|j: int|
            0 <= j < entries@.len() && stale_spec(
                (#[trigger] entries@[j]).0@,
                rfc3339_parse(entries@[j].1@),
                *cutoff,
            ) ==> texts(r@).contains(entries@[j].0@),
{
    let mut out: Vec<String> = Vec::new();
    let mut i: usize = 0;
    while i < entries.len()
        invariant
            i <= entries@.len(),
            texts(out@) == stale_keys_spec(pair_texts(entries@.subrange(0, i as int)), *cutoff),
        decreases entries@.len() - i,
    {
        let ghost prefix = pair_texts(entries@.subrange(0, i as int));
        let ghost next = pair_texts(entries@.subrange(0, i as int + 1));
        assert(next.drop_last() =~= prefix);
        let recorded = parse_rfc3339(entries[i].1.as_str());
        if is_stale_link(entries[i].0.as_str(), recorded, cutoff) {
            out.push(entries[i].0.clone());
            assert(texts(out@) =~= texts(out@.drop_last()).push(entries@[i as int].0@));
        }
        i = i + 1;
    }
    assert(entries@.subrange(0, entries@.len() as int) =~= entries@);
    proof {
        let pairs = pair_texts(entries@);
        law_stale_keys_are_all_old_links(pairs, *cutoff);
        assert forall|j: int|
            0 <= j < entries@.len() && stale_spec(
                (#[trigger] entries@[j]).0@,
                rfc3339_parse(entries@[j].1@),
                *cutoff,
            ) implies texts(out@).contains(entries@[j].0@) by {
            assert(pairs[j] == (entries@[j].0@, entries@[j].1@));
            assert(pairs[j].0 == entries@[j].0@ && pairs[j].1 == entries@[j].1@);
            assert(stale_keys_spec(pairs, *cutoff).contains(pairs[j].0));
        }
    }
    out
}

} // verus!
