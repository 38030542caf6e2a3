//! Merging a freshly fetched queue with the one that is cached.
//!
//! A provider answers with a few upcoming items at most, and often with
//! none. The cached queue knows the long tail of a playing context, so a
//! fetched queue is completed from it before it replaces it.

use vstd::prelude::*;
use vstd::string::*;

use crate::media::{MediaItem, MediaItemModel, Queue, QueueModel, item_uris, uris_of};
use crate::queueing::{added_items_are_new, dedup_queue_items, kept_items_stand_in_order, unqueued};
use crate::text::{
    lemma_seq_view_push, lemma_texts_push, list_has, opt_str, opt_text, same_text, seq_view, texts,
};

verus! {

broadcast use {lemma_seq_view_push, lemma_texts_push};

/// How fresh a cached queue must be to survive a fetch that it has nothing
/// in common with.
pub const ANCHOR_MISS_PRESERVE_WINDOW_MS: i64 = 10_000;

/// The first item of that URI, by its position; the length where there is
/// none.
pub open spec fn first_of_uri(items: Seq<MediaItemModel>, uri: Seq<char>) -> int
    decreases items.len(),
{
    if items.len() == 0 || items[0].uri == uri {
        0
    } else {
        1 + first_of_uri(items.skip(1), uri)
    }
}

/// What `first_of_uri` says.
pub proof fn lemma_first_of_uri(items: Seq<MediaItemModel>, uri: Seq<char>, i: int)
    requires
        0 <= i <= items.len(),
        forall|k: int| 0 <= k < i ==> (#[trigger] items[k]).uri != uri,
        i < items.len() ==> items[i].uri == uri,
    ensures
        first_of_uri(items, uri) == i,
    decreases i,
{
    if i > 0 {
        assert forall|k: int| 0 <= k < i - 1 implies (#[trigger] items.skip(1)[k]).uri != uri by {
            assert(items.skip(1)[k] == items[k + 1]);
        }
        lemma_first_of_uri(items.skip(1), uri, i - 1);
    }
}

/// The position of the first item of that URI, or the length.
pub fn find_uri(items: &[MediaItem], uri: &str) -> (r: usize)
    ensures
        r <= items@.len(),
        r == first_of_uri(seq_view(items@), uri@),
        r < items@.len() ==> items@[r as int].uri@ == uri@,
        forall|k: int| 0 <= k < r ==> (#[trigger] items@[k]).uri@ != uri@,
{
    let mut i: usize = 0;
    while i < items.len() && !same_text(items[i].uri.as_str(), uri)
        invariant
            i <= items@.len(),
            forall|k: int| 0 <= k < i ==> (#[trigger] items@[k]).uri@ != uri@,
        decreases items@.len() - i,
    {
        i = i + 1;
    }
    proof {
        let models = seq_view(items@);
        assert forall|k: int| 0 <= k < i implies (#[trigger] models[k]).uri != uri@ by {
            assert(models[k].uri == items@[k].uri@);
        }
        lemma_first_of_uri(models, uri@, i as int);
    }
    i
}

/// Where the cached tail begins behind an anchor: at the start, where the
/// anchor is what plays, else behind the first item of its URI.
pub open spec fn tail_start(cached: QueueModel, anchor: Seq<char>) -> Option<int> {
    if cached.currently_playing is Some && cached.currently_playing->0.uri == anchor {
        Some(0)
    } else if first_of_uri(cached.items, anchor) < cached.items.len() {
        Some(first_of_uri(cached.items, anchor) + 1)
    } else {
        None
    }
}

/// The items whose URI is not among the given ones, in order.
pub open spec fn items_not_in(items: Seq<MediaItemModel>, uris: Seq<Seq<char>>) -> Seq<
    MediaItemModel,
> {
    items.filter(|item: MediaItemModel| !uris.contains(item.uri))
}

/// The URI of what plays, as a list of at most one.
pub open spec fn current_uris(queue: QueueModel) -> Seq<Seq<char>> {
    match queue.currently_playing {
        Some(item) => seq![item.uri],
        None => Seq::empty(),
    }
}

/// Whether an empty fetch, whose anchor the cache does not know, keeps the
/// items of a cache that is fresh and has some.
pub open spec fn keeps_cached_list(
    queue: QueueModel,
    anchor: Seq<char>,
    cached: QueueModel,
    now_ms: i64,
) -> bool {
    &&& tail_start(cached, anchor) is None
    &&& queue.items.len() == 0
    &&& now_ms - cached.as_of_ms < ANCHOR_MISS_PRESERVE_WINDOW_MS
    &&& cached.items.len() > 0
}

/// A fetched queue completed from the cached one. What is appended is neither
/// fetched nor appended already: the queue is a set.
pub open spec fn reattached(
    queue: QueueModel,
    anchor: Option<Seq<char>>,
    cached: QueueModel,
    shuffle: bool,
    now_ms: i64,
) -> QueueModel {
    if shuffle || anchor is None {
        queue
    } else {
        match tail_start(cached, anchor->0) {
            Some(start) => QueueModel {
                items: queue.items + unqueued(cached.items.skip(start), item_uris(queue.items)),
                as_of_ms: now_ms,
                ..queue
            },
            None => if keeps_cached_list(queue, anchor->0, cached, now_ms) {
                QueueModel {
                    items: items_not_in(cached.items, current_uris(queue)),
                    session_active: true,
                    as_of_ms: now_ms,
                    ..queue
                }
            } else {
                queue
            },
        }
    }
}

/// The items whose URI is not among the given ones.
fn items_without(items: &[MediaItem], uris: &[String]) -> (r: Vec<MediaItem>)
    ensures
        seq_view(r@) == items_not_in(seq_view(items@), texts(uris@)),
{
    let ghost wanted = |item: MediaItemModel| !texts(uris@).contains(item.uri);
    let ghost all = seq_view(items@);
    let mut out: Vec<MediaItem> = Vec::new();
    let mut i: usize = 0;
    proof {
        reveal(Seq::filter);
        assert(all.take(0) =~= Seq::<MediaItemModel>::empty());
        assert(seq_view(out@) =~= Seq::<MediaItemModel>::empty());
    }
    while i < items.len()
        invariant
            i <= items@.len(),
            all == seq_view(items@),
            wanted == (|item: MediaItemModel| !texts(uris@).contains(item.uri)),
            seq_view(out@) =~= all.take(i as int).filter(wanted),
        decreases items@.len() - i,
    {
        proof {
            reveal(Seq::filter);
            assert(all.take(i as int + 1).drop_last() =~= all.take(i as int));
            assert(all.take(i as int + 1).last() == items@[i as int]@);
        }
        if !list_has(uris, items[i].uri.as_str()) {
            out.push(items[i].clone());
        }
        i = i + 1;
    }
    assert(all.take(all.len() as int) =~= all);
    out
}

/// The items from a position on.
fn items_from(items: &[MediaItem], from: usize) -> (r: Vec<MediaItem>)
    requires
        from <= items@.len(),
    ensures
        seq_view(r@) == seq_view(items@).skip(from as int),
{
    let ghost rest = seq_view(items@).skip(from as int);
    let mut out: Vec<MediaItem> = Vec::new();
    let mut i: usize = from;
    while i < items.len()
        invariant
            from <= i <= items@.len(),
            rest == seq_view(items@).skip(from as int),
            seq_view(out@) =~= rest.take(i - from),
        decreases items@.len() - i,
    {
        out.push(items[i].clone());
        i = i + 1;
    }
    assert(rest.take(rest.len() as int) =~= rest);
    out
}

/// Completes a fetched queue from the cached one. `anchor_uri` is the anchor
/// of the fetch before anything was added to it: see `queue_tail_anchor`.
///
/// Under shuffle the cached order predicts nothing, so the fetch stands.
/// Where the cache knows the anchor, what follows it there is appended, each
/// URI once, and none that the fetch holds already. Where it does not, an
/// empty fetch keeps a fresh cache's items under what plays now.
pub fn reattach_cached_queue_tail(
    queue: Queue,
    anchor_uri: Option<&str>,
    cached: &Queue,
    shuffle: bool,
    now_ms: i64,
) -> (r: Queue)
    ensures
        r@ == reattached(queue@, opt_str(anchor_uri), cached@, shuffle, now_ms),
{
    if shuffle {
        return queue;
    }
    let anchor = match anchor_uri {
        Some(anchor) => anchor,
        None => return queue,
    };
    let mut queue = queue;
    let anchor_plays = match &cached.currently_playing {
        Some(item) => same_text(item.uri.as_str(), anchor),
        None => false,
    };
    let start: usize = if anchor_plays {
        0
    } else {
        let at: usize = find_uri(cached.items.as_slice(), anchor);
        if at == cached.items.len() {
            let fresh = (now_ms as i128) - (cached.as_of_ms as i128)
                < ANCHOR_MISS_PRESERVE_WINDOW_MS as i128;
            if queue.items.len() == 0 && fresh && cached.items.len() > 0 {
                let mut current: Vec<String> = Vec::new();
                if let Some(item) = &queue.currently_playing {
                    current.push(item.uri.clone());
                }
                assert(texts(current@) =~= current_uris(queue@));
                queue.items = items_without(cached.items.as_slice(), current.as_slice());
                queue.session_active = true;
                queue.as_of_ms = now_ms;
            }
            return queue;
        }
        at + 1
    };
    let existing = uris_of(queue.items.as_slice());
    let rest = items_from(cached.items.as_slice(), start);
    let (tail, _) = dedup_queue_items(rest, existing.as_slice());
    let ghost fetched = seq_view(queue.items@);
    let ghost added = seq_view(tail@);
    let mut tail = tail;
    queue.items.append(&mut tail);
    assert(seq_view(queue.items@) =~= fetched + added);
    queue.as_of_ms = now_ms;
    queue
}

/// The anchor of a fetched queue: its last upcoming item, or else what plays.
pub open spec fn tail_anchor(queue: QueueModel) -> Option<Seq<char>> {
    if queue.items.len() > 0 {
        Some(queue.items.last().uri)
    } else {
        match queue.currently_playing {
            Some(item) => Some(item.uri),
            None => None,
        }
    }
}

/// The anchor of a fetched queue.
pub fn queue_tail_anchor(raw_fetched: &Queue) -> (r: Option<String>)
    ensures
        opt_text(r) == tail_anchor(raw_fetched@),
{
    let n: usize = raw_fetched.items.len();
    if n > 0 {
        Some(raw_fetched.items[n - 1].uri.clone())
    } else {
        match &raw_fetched.currently_playing {
            Some(item) => Some(item.uri.clone()),
            None => None,
        }
    }
}

// ---------------------------------------------------------------------------
// Laws
// ---------------------------------------------------------------------------

/// Whether no URI stands twice in a list of items.
pub open spec fn no_uri_twice(items: Seq<MediaItemModel>) -> bool {
    forall|i: int, j: int| 0 <= i < j < items.len() ==> items[i].uri != items[j].uri
}

proof fn lemma_filter_members(items: Seq<MediaItemModel>, uris: Seq<Seq<char>>)
    ensures
        forall|i: int|
            0 <= i < items_not_in(items, uris).len() ==> !uris.contains(
                (#[trigger] items_not_in(items, uris)[i]).uri,
            ) && items.contains(items_not_in(items, uris)[i]),
    decreases items.len(),
{
    reveal(Seq::filter);
    if items.len() > 0 {
        lemma_filter_members(items.drop_last(), uris);
        let sub = items_not_in(items.drop_last(), uris);
        let all = items_not_in(items, uris);
        assert forall|i: int| 0 <= i < all.len() implies !uris.contains((#[trigger] all[i]).uri)
            && items.contains(all[i]) by {
            if i < sub.len() {
                assert(all[i] == sub[i]);
                let k = choose|k: int|
                    0 <= k < items.drop_last().len() && items.drop_last()[k] == sub[i];
                assert(items[k] == sub[i]);
            } else {
                assert(items[items.len() - 1] == all[i]);
            }
        }
    }
}

proof fn lemma_filter_keeps_distinct(items: Seq<MediaItemModel>, uris: Seq<Seq<char>>)
    requires
        no_uri_twice(items),
    ensures
        no_uri_twice(items_not_in(items, uris)),
    decreases items.len(),
{
    reveal(Seq::filter);
    if items.len() > 0 {
        let init = items.drop_last();
        let sub = items_not_in(init, uris);
        let all = items_not_in(items, uris);
        assert(no_uri_twice(init)) by {
            assert forall|i: int, j: int| 0 <= i < j < init.len() implies init[i].uri
                != init[j].uri by {
                assert(init[i] == items[i] && init[j] == items[j]);
            }
        }
        lemma_filter_keeps_distinct(init, uris);
        lemma_filter_members(init, uris);
        assert forall|i: int, j: int| 0 <= i < j < all.len() implies all[i].uri != all[j].uri by {
            assert(all[i] == sub[i]);
            if j < sub.len() {
                assert(all[j] == sub[j]);
            } else {
                assert(all[j] == items.last());
                let k = choose|k: int| 0 <= k < init.len() && init[k] == sub[i];
                assert(items[k] == sub[i]);
                assert(items[k].uri != items[items.len() - 1].uri);
            }
        }
    }
}

/// What was fetched stays at the head of the queue, in its order, and what
/// plays is what the fetch says.
pub proof fn merging_keeps_the_fetch(
    queue: QueueModel,
    anchor: Option<Seq<char>>,
    cached: QueueModel,
    shuffle: bool,
    now_ms: i64,
)
    ensures
        ({
            let merged = reattached(queue, anchor, cached, shuffle, now_ms);
            &&& merged.currently_playing == queue.currently_playing
            &&& merged.items.len() >= queue.items.len()
            &&& merged.items.take(queue.items.len() as int) == queue.items
        }),
{
    let merged = reattached(queue, anchor, cached, shuffle, now_ms);
    assert(merged.items.take(queue.items.len() as int) =~= queue.items);
}

/// Shuffled, the fetched queue is the queue.
pub proof fn shuffle_leaves_the_fetch_alone(
    queue: QueueModel,
    anchor: Option<Seq<char>>,
    cached: QueueModel,
    now_ms: i64,
)
    ensures
        reattached(queue, anchor, cached, true, now_ms) == queue,
{
}

/// Nothing is invented: every item behind the fetched ones comes from the
/// cache.
pub proof fn merged_items_come_from_the_cache(
    queue: QueueModel,
    anchor: Option<Seq<char>>,
    cached: QueueModel,
    shuffle: bool,
    now_ms: i64,
    i: int,
)
    requires
        queue.items.len() <= i < reattached(queue, anchor, cached, shuffle, now_ms).items.len(),
    ensures
        cached.items.contains(reattached(queue, anchor, cached, shuffle, now_ms).items[i]),
{
    if !shuffle && anchor is Some {
        match tail_start(cached, anchor->0) {
            Some(start) => {
                lemma_tail_start_bounds(cached, anchor->0);
                let rest = cached.items.skip(start);
                added_items_are_new(rest, item_uris(queue.items));
                let tail = unqueued(rest, item_uris(queue.items));
                let x = tail[i - queue.items.len()];
                let k = choose|k: int| 0 <= k < rest.len() && rest[k] == x;
                assert(cached.items[k + start] == x);
            },
            None => {
                lemma_filter_members(cached.items, current_uris(queue));
            },
        }
    }
}

proof fn lemma_tail_start_bounds(cached: QueueModel, anchor: Seq<char>)
    ensures
        tail_start(cached, anchor) matches Some(start) ==> 0 <= start <= cached.items.len(),
{
    lemma_first_bounds(cached.items, anchor);
}

proof fn lemma_first_bounds(items: Seq<MediaItemModel>, uri: Seq<char>)
    ensures
        0 <= first_of_uri(items, uri) <= items.len(),
    decreases items.len(),
{
    if items.len() > 0 && items[0].uri != uri {
        lemma_first_bounds(items.skip(1), uri);
    }
}

/// The merge never duplicates an entry: where the fetch holds no URI twice,
/// the merged queue does not either, whatever the cache holds. Only where a
/// cached list is kept as it is does it depend on that list.
pub proof fn merging_never_duplicates(
    queue: QueueModel,
    anchor: Option<Seq<char>>,
    cached: QueueModel,
    shuffle: bool,
    now_ms: i64,
)
    requires
        no_uri_twice(queue.items),
        !shuffle && anchor is Some && keeps_cached_list(queue, anchor->0, cached, now_ms)
            ==> no_uri_twice(cached.items),
    ensures
        no_uri_twice(reattached(queue, anchor, cached, shuffle, now_ms).items),
{
    if !shuffle && anchor is Some {
        match tail_start(cached, anchor->0) {
            Some(start) => {
                let uris = item_uris(queue.items);
                let tail = unqueued(cached.items.skip(start), uris);
                added_items_are_new(cached.items.skip(start), uris);
                let all = queue.items + tail;
                assert forall|i: int, j: int| 0 <= i < j < all.len() implies all[i].uri
                    != all[j].uri by {
                    let n = queue.items.len();
                    if i < n && j >= n {
                        assert(all[j] == tail[j - n]);
                        assert(uris[i] == all[i].uri);
                    } else if i >= n {
                        assert(all[i] == tail[i - n] && all[j] == tail[j - n]);
                    }
                }
            },
            None => {
                if keeps_cached_list(queue, anchor->0, cached, now_ms) {
                    lemma_filter_keeps_distinct(cached.items, current_uris(queue));
                }
            },
        }
    }
}

proof fn lemma_nothing_unqueued(items: Seq<MediaItemModel>, queued: Seq<Seq<char>>)
    requires
        forall|i: int| 0 <= i < items.len() ==> queued.contains((#[trigger] items[i]).uri),
    ensures
        unqueued(items, queued) == Seq::<MediaItemModel>::empty(),
    decreases items.len(),
{
    if items.len() > 0 {
        let init = items.drop_last();
        assert forall|i: int| 0 <= i < init.len() implies queued.contains(
            (#[trigger] init[i]).uri,
        ) by {
            assert(init[i] == items[i]);
        }
        lemma_nothing_unqueued(init, queued);
        assert(queued.contains(items[items.len() - 1].uri));
    }
}

/// Merging what was merged already changes nothing.
pub proof fn merging_twice_adds_nothing(
    queue: QueueModel,
    anchor: Option<Seq<char>>,
    cached: QueueModel,
    shuffle: bool,
    now_ms: i64,
)
    ensures
        ({
            let merged = reattached(queue, anchor, cached, shuffle, now_ms);
            reattached(merged, anchor, cached, shuffle, now_ms) == merged
        }),
{
    let merged = reattached(queue, anchor, cached, shuffle, now_ms);
    if !shuffle && anchor is Some {
        if let Some(start) = tail_start(cached, anchor->0) {
            let rest = cached.items.skip(start);
            let fetched = item_uris(queue.items);
            let tail = unqueued(rest, fetched);
            let known = item_uris(merged.items);
            added_items_are_new(rest, fetched);
            assert forall|i: int| 0 <= i < rest.len() implies known.contains(
                (#[trigger] rest[i]).uri,
            ) by {
                let u = rest[i].uri;
                if fetched.contains(u) {
                    let k = choose|k: int| 0 <= k < fetched.len() && fetched[k] == u;
                    assert(known[k] == u);
                } else {
                    assert(item_uris(tail).contains(u));
                    let k = choose|k: int| 0 <= k < item_uris(tail).len() && item_uris(tail)[k]
                        == u;
                    assert(known[queue.items.len() + k] == u);
                }
            }
            lemma_nothing_unqueued(rest, known);
            assert(merged.items + Seq::<MediaItemModel>::empty() =~= merged.items);
        }
    }
}

/// No appended item has a URI that the fetch holds, whatever the cache holds.
pub proof fn appended_items_are_new(
    queue: QueueModel,
    anchor: Option<Seq<char>>,
    cached: QueueModel,
    shuffle: bool,
    now_ms: i64,
    i: int,
    j: int,
)
    requires
        0 <= i < queue.items.len() <= j < reattached(
            queue,
            anchor,
            cached,
            shuffle,
            now_ms,
        ).items.len(),
    ensures
        reattached(queue, anchor, cached, shuffle, now_ms).items[j].uri != queue.items[i].uri,
{
    if !shuffle && anchor is Some {
        match tail_start(cached, anchor->0) {
            Some(start) => {
                let uris = item_uris(queue.items);
                added_items_are_new(cached.items.skip(start), uris);
                assert(uris[i] == queue.items[i].uri);
                let tail = unqueued(cached.items.skip(start), uris);
                assert(!uris.contains(tail[j - queue.items.len()].uri));
            },
            None => {},
        }
    }
}

/// A fetch that the cache has no anchor for is a new context: it replaces the
/// cache at once where it is not empty, and else once the cache is stale.
pub proof fn unknown_context_replaces_the_cache(
    queue: QueueModel,
    anchor: Seq<char>,
    cached: QueueModel,
    now_ms: i64,
)
    requires
        tail_start(cached, anchor) is None,
        queue.items.len() > 0 || now_ms - cached.as_of_ms >= ANCHOR_MISS_PRESERVE_WINDOW_MS,
    ensures
        reattached(queue, Some(anchor), cached, false, now_ms) == queue,
{
}

/// Without shuffle, a fetch whose anchor is what the cache plays, or stands
/// among the cached items, loses nothing of what follows the anchor there,
/// however old the cache is: every cached item behind the anchor has its URI in
/// the merged queue. `from` is the place behind the anchor.
pub proof fn the_cached_tail_survives(
    queue: QueueModel,
    anchor: Seq<char>,
    cached: QueueModel,
    now_ms: i64,
    from: int,
    k: int,
)
    requires
        0 <= from <= cached.items.len(),
        from <= k < cached.items.len(),
        if cached.currently_playing is Some && cached.currently_playing->0.uri == anchor {
            from == 0
        } else {
            from > 0 && cached.items[from - 1].uri == anchor && forall|j: int|
                0 <= j < from - 1 ==> (#[trigger] cached.items[j]).uri != anchor
        },
    ensures
        ({
            let merged = reattached(queue, Some(anchor), cached, false, now_ms);
            &&& exists|m: int|
                0 <= m < merged.items.len() && (#[trigger] merged.items[m]).uri
                    == cached.items[k].uri
            &&& merged.as_of_ms == now_ms
            &&& merged.session_active == queue.session_active
            &&& merged.currently_playing == queue.currently_playing
        }),
{
    lemma_known_anchor(anchor, cached, from);
    let rest = cached.items.skip(from);
    let fetched = item_uris(queue.items);
    let tail = unqueued(rest, fetched);
    let merged = reattached(queue, Some(anchor), cached, false, now_ms);
    added_items_are_new(rest, fetched);
    assert(rest[k - from] == cached.items[k]);
    let u = cached.items[k].uri;
    if fetched.contains(u) {
        let m = choose|m: int| 0 <= m < fetched.len() && fetched[m] == u;
        assert(merged.items[m].uri == u);
    } else {
        assert(item_uris(tail).contains(rest[k - from].uri));
        let m = choose|m: int| 0 <= m < item_uris(tail).len() && item_uris(tail)[m] == u;
        assert(merged.items[queue.items.len() + m].uri == u);
    }
}

proof fn lemma_known_anchor(anchor: Seq<char>, cached: QueueModel, from: int)
    requires
        0 <= from <= cached.items.len(),
        if cached.currently_playing is Some && cached.currently_playing->0.uri == anchor {
            from == 0
        } else {
            from > 0 && cached.items[from - 1].uri == anchor && forall|j: int|
                0 <= j < from - 1 ==> (#[trigger] cached.items[j]).uri != anchor
        },
    ensures
        tail_start(cached, anchor) == Some(from),
{
    if from > 0 {
        lemma_first_of_uri(cached.items, anchor, from - 1);
    }
}

/// What is appended behind a known anchor stands in the order of the cache, and
/// is what the cache holds there: `at` gives its places, each behind the anchor.
pub proof fn the_cached_tail_keeps_its_order(
    queue: QueueModel,
    anchor: Seq<char>,
    cached: QueueModel,
    now_ms: i64,
    from: int,
) -> (at: Seq<int>)
    requires
        0 <= from <= cached.items.len(),
        if cached.currently_playing is Some && cached.currently_playing->0.uri == anchor {
            from == 0
        } else {
            from > 0 && cached.items[from - 1].uri == anchor && forall|j: int|
                0 <= j < from - 1 ==> (#[trigger] cached.items[j]).uri != anchor
        },
    ensures
        ({
            let merged = reattached(queue, Some(anchor), cached, false, now_ms);
            let n = queue.items.len();
            &&& merged.items.len() == n + at.len()
            &&& forall|i: int| 0 <= i < n ==> (#[trigger] merged.items[i]) == queue.items[i]
            &&& forall|i: int|
                0 <= i < at.len() ==> from <= #[trigger] at[i] < cached.items.len()
                    && merged.items[n + i] == cached.items[at[i]]
            &&& forall|i: int, j: int| 0 <= i < j < at.len() ==> at[i] < at[j]
        }),
{
    lemma_known_anchor(anchor, cached, from);
    let rest = cached.items.skip(from);
    let places = kept_items_stand_in_order(rest, item_uris(queue.items));
    let at = Seq::new(places.len(), |i: int| places[i] + from);
    let tail = unqueued(rest, item_uris(queue.items));
    let merged = reattached(queue, Some(anchor), cached, false, now_ms);
    assert forall|i: int| 0 <= i < at.len() implies from <= #[trigger] at[i] < cached.items.len()
        && merged.items[queue.items.len() + i] == cached.items[at[i]] by {
        assert(0 <= places[i] < rest.len());
        assert(tail[i] == rest[places[i]]);
        assert(merged.items[queue.items.len() + i] == tail[i]);
    }
    at
}

/// An empty fetch that the cache has no anchor for keeps a cache that is less
/// than ten seconds old: every cached item but one of what plays now stays, and
/// nothing else is there.
pub proof fn a_fresh_cache_survives_an_empty_fetch(
    queue: QueueModel,
    anchor: Seq<char>,
    cached: QueueModel,
    now_ms: i64,
    k: int,
)
    requires
        queue.items.len() == 0,
        cached.currently_playing is Some ==> cached.currently_playing->0.uri != anchor,
        forall|j: int| 0 <= j < cached.items.len() ==> (#[trigger] cached.items[j]).uri != anchor,
        now_ms - cached.as_of_ms < 10_000,
        0 <= k < cached.items.len(),
    ensures
        ({
            let merged = reattached(queue, Some(anchor), cached, false, now_ms);
            let current = queue.currently_playing;
            &&& current is Some && current->0.uri == cached.items[k].uri || merged.items.contains(
                cached.items[k],
            )
            &&& forall|m: int|
                0 <= m < merged.items.len() ==> cached.items.contains(#[trigger] merged.items[m])
                    && (current is Some ==> merged.items[m].uri != current->0.uri)
            &&& (forall|j: int|
                0 <= j < cached.items.len() && current is Some ==> (
                #[trigger] cached.items[j]).uri != current->0.uri) ==> merged.items == cached.items
            &&& merged.session_active
            &&& merged.as_of_ms == now_ms
            &&& merged.currently_playing == current
        }),
{
    lemma_first_of_uri(cached.items, anchor, cached.items.len() as int);
    assert(keeps_cached_list(queue, anchor, cached, now_ms));
    lemma_filter_members(cached.items, current_uris(queue));
    lemma_filter_holds(cached.items, current_uris(queue), k);
    let current = queue.currently_playing;
    let merged = reattached(queue, Some(anchor), cached, false, now_ms);
    let uris = current_uris(queue);
    if current is Some {
        assert(uris[0] == current->0.uri);
        assert forall|m: int| 0 <= m < merged.items.len() implies merged.items[m].uri
            != current->0.uri by {
            assert(!uris.contains((#[trigger] merged.items[m]).uri));
        }
    }
    if forall|j: int|
        0 <= j < cached.items.len() && current is Some ==> (#[trigger] cached.items[j]).uri
            != current->0.uri {
        lemma_filter_all(cached.items, uris);
    }
}

proof fn lemma_filter_holds(items: Seq<MediaItemModel>, uris: Seq<Seq<char>>, k: int)
    requires
        0 <= k < items.len(),
    ensures
        uris.contains(items[k].uri) || items_not_in(items, uris).contains(items[k]),
    decreases items.len(),
{
    reveal(Seq::filter);
    let init = items.drop_last();
    let sub = items_not_in(init, uris);
    let all = items_not_in(items, uris);
    if k < init.len() {
        lemma_filter_holds(init, uris, k);
        assert(init[k] == items[k]);
        if sub.contains(items[k]) {
            let m = choose|m: int| 0 <= m < sub.len() && sub[m] == items[k];
            assert(all[m] == items[k]);
        }
    } else if !uris.contains(items[k].uri) {
        assert(all[sub.len() as int] == items[k]);
    }
}

proof fn lemma_filter_all(items: Seq<MediaItemModel>, uris: Seq<Seq<char>>)
    requires
        forall|j: int| 0 <= j < items.len() ==> !uris.contains((#[trigger] items[j]).uri),
    ensures
        items_not_in(items, uris) == items,
    decreases items.len(),
{
    reveal(Seq::filter);
    if items.len() > 0 {
        let init = items.drop_last();
        assert forall|j: int| 0 <= j < init.len() implies !uris.contains(
            (#[trigger] init[j]).uri,
        ) by {
            assert(init[j] == items[j]);
        }
        lemma_filter_all(init, uris);
        assert(!uris.contains(items[items.len() - 1].uri));
        assert(init.push(items.last()) =~= items);
    } else {
        assert(items_not_in(items, uris) =~= items);
    }
}

/// A fetch without an anchor, or one that holds items which the cache has no
/// anchor for, or an empty one beside a cache of ten seconds or more, stands as
/// it is.
pub proof fn a_fetch_of_a_new_context_stands(
    queue: QueueModel,
    anchor: Option<Seq<char>>,
    cached: QueueModel,
    now_ms: i64,
)
    requires
        anchor is Some ==> (cached.currently_playing is Some ==> cached.currently_playing->0.uri
            != anchor->0) && (forall|j: int|
            0 <= j < cached.items.len() ==> (#[trigger] cached.items[j]).uri != anchor->0) && (
        queue.items.len() > 0 || cached.items.len() == 0 || now_ms - cached.as_of_ms >= 10_000),
    ensures
        reattached(queue, anchor, cached, false, now_ms) == queue,
{
    if anchor is Some {
        lemma_first_of_uri(cached.items, anchor->0, cached.items.len() as int);
    }
}

/// The anchor is the last upcoming item, or else what plays.
pub proof fn anchors_are_the_last_of_the_fetch(queue: QueueModel)
    ensures
        queue.items.len() > 0 ==> tail_anchor(queue) == Some(
            queue.items[queue.items.len() - 1].uri,
        ),
        queue.items.len() == 0 && queue.currently_playing is Some ==> tail_anchor(queue) == Some(
            queue.currently_playing->0.uri,
        ),
        queue.items.len() == 0 && queue.currently_playing is None ==> tail_anchor(queue) is None,
{
}

/// What a call that merges a queue answers with, where it is not shuffled and
/// the anchor is what the cache plays or stands among its items: every cached
/// item behind the anchor is there, however old the cache is, the fetched ones
/// stand first, and what plays is what the fetch says.
pub proof fn merged_queues_hold_the_cached_tail(
    queue: Queue,
    anchor: &str,
    cached: &Queue,
    now_ms: i64,
    answer: Queue,
    from: int,
    k: int,
)
    requires
        call_ensures(reattach_cached_queue_tail, (queue, Some(anchor), cached, false, now_ms), answer),
        0 <= from <= k < cached@.items.len(),
        if cached@.currently_playing is Some && cached@.currently_playing->0.uri == anchor@ {
            from == 0
        } else {
            from > 0 && cached@.items[from - 1].uri == anchor@ && forall|j: int|
                0 <= j < from - 1 ==> (#[trigger] cached@.items[j]).uri != anchor@
        },
    ensures
        exists|m: int|
            0 <= m < answer@.items.len() && (#[trigger] answer@.items[m]).uri
                == cached@.items[k].uri,
        answer@.items.len() >= queue@.items.len(),
        answer@.items.take(queue@.items.len() as int) == queue@.items,
        answer@.currently_playing == queue@.currently_playing,
{
    the_cached_tail_survives(queue@, anchor@, cached@, now_ms, from, k);
    merging_keeps_the_fetch(queue@, Some(anchor@), cached@, false, now_ms);
}

/// A merge of queues answers with what is told of it, and so does a look for
/// the anchor.
pub proof fn merges_are_answered_as_told()
    ensures
        forall|
            queue: Queue,
            anchor_uri: Option<&str>,
            cached: &Queue,
            shuffle: bool,
            now_ms: i64,
            answer: Queue,
        |
            #[trigger] call_ensures(
                reattach_cached_queue_tail,
                (queue, anchor_uri, cached, shuffle, now_ms),
                answer,
            ) ==> {
                &&& answer@ == reattached(queue@, opt_str(anchor_uri), cached@, shuffle, now_ms)
            },
        forall|raw_fetched: &Queue, answer: Option<String>|
            #[trigger] call_ensures(queue_tail_anchor, (raw_fetched,), answer) ==> {
                &&& opt_text(answer) == tail_anchor(raw_fetched@)
            },
{
}

} // verus!
