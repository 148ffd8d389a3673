//! Properties of the adapter that span calls or hold for every state,
//! stated over the spec functions that the operations' contracts use.

use crate::adapter::{backoff_after, is_group_chat, token_at, token_expiry, QqBotAdapter, INITIAL_BACKOFF_MS, MAX_BACKOFF_MS, TOKEN_EXPIRY_MARGIN_SECS, DEFAULT_TOKEN_LIFETIME_SECS};
use crate::notice::{elapsed, notice_step, within_window, NOTICE_MAX_IN_WINDOW, NOTICE_MIN_GAP_MS, NOTICE_WINDOW_MS};
use crate::progress::{cards_after, progress_scan, unread};
use crate::footer::{footer_text, meta_for};
use crate::state::{C2cStreamState, TurnMetadata};
use crate::stream::{advanced_stream, fresh_stream, stream_entry};
use vstd::prelude::*;

verus! {

/// A token cached at `now` is served at every instant from `now` up to,
/// but not including, its expiry, and not afterwards.
pub proof fn law_token_served_until_expiry(now: u64, t: String, expires_in: Option<u64>, later: u64)
    requires
        now <= later,
    ensures
        later < token_expiry(now, expires_in) ==> token_at(
            Some((t, token_expiry(now, expires_in))),
            later,
        ) == Some(t),
        later >= token_expiry(now, expires_in) ==> token_at(
            Some((t, token_expiry(now, expires_in))),
            later,
        ) is None,
{
}

/// A token whose lifetime exceeds the expiry margin is usable as soon as
/// it is cached.
pub proof fn law_fresh_token_usable(now: u64, t: String, expires_in: Option<u64>)
    requires
        now < u64::MAX,
        match expires_in {
            Some(e) => e > TOKEN_EXPIRY_MARGIN_SECS,
            None => true,
        },
    ensures
        token_at(Some((t, token_expiry(now, expires_in))), now) == Some(t),
{
    assert(DEFAULT_TOKEN_LIFETIME_SECS > TOKEN_EXPIRY_MARGIN_SECS);
}

/// The reconnect delay stays between the initial and the longest delay,
/// never shrinks after a failure, and returns to the initial delay after a
/// clean disconnect.
pub proof fn law_backoff_bounded(current: u64, succeeded: bool)
    requires
        INITIAL_BACKOFF_MS <= current <= MAX_BACKOFF_MS,
    ensures
        INITIAL_BACKOFF_MS <= backoff_after(current, succeeded) <= MAX_BACKOFF_MS,
        !succeeded ==> backoff_after(current, succeeded) >= current,
        succeeded ==> backoff_after(current, succeeded) == INITIAL_BACKOFF_MS,
{
}

proof fn lemma_window_shrinks(s: Seq<u64>, now: u64)
    ensures
        within_window(s, now).len() <= s.len(),
        forall|i: int|
            0 <= i < within_window(s, now).len() ==> elapsed(now, #[trigger] within_window(s, now)[i])
                < NOTICE_WINDOW_MS,
    decreases s.len(),
{
    if s.len() > 0 {
        lemma_window_shrinks(s.drop_last(), now);
    }
}

/// The notice limiter never remembers more than `NOTICE_MAX_IN_WINDOW`
/// notices, whatever the requests.
pub proof fn law_notice_memory_bounded(enabled: bool, last_sent: Option<u64>, recent: Seq<u64>, now: u64)
    requires
        recent.len() <= NOTICE_MAX_IN_WINDOW,
    ensures
        notice_step(enabled, last_sent, recent, now).recent.len() <= NOTICE_MAX_IN_WINDOW,
{
    lemma_window_shrinks(recent, now);
}

/// An admitted notice comes at least `NOTICE_MIN_GAP_MS` after the
/// previous one, fewer than `NOTICE_MAX_IN_WINDOW` remembered notices lie
/// within the window before it, and afterwards every remembered notice
/// lies within the window ending at it.
pub proof fn law_notice_rate_limited(enabled: bool, last_sent: Option<u64>, recent: Seq<u64>, now: u64)
    ensures
        notice_step(enabled, last_sent, recent, now).admitted ==> {
            &&& enabled
            &&& (last_sent matches Some(l) ==> elapsed(now, l) >= NOTICE_MIN_GAP_MS)
            &&& within_window(recent, now).len() < NOTICE_MAX_IN_WINDOW
            &&& forall|i: int|
                0 <= i < notice_step(enabled, last_sent, recent, now).recent.len() ==> elapsed(
                    now,
                    #[trigger] notice_step(enabled, last_sent, recent, now).recent[i],
                ) < NOTICE_WINDOW_MS
        },
{
    lemma_window_shrinks(recent, now);
    let o = notice_step(enabled, last_sent, recent, now);
    if o.admitted {
        let kept = within_window(recent, now);
        assert forall|i: int| 0 <= i < o.recent.len() implies elapsed(now, #[trigger] o.recent[i])
            < NOTICE_WINDOW_MS by {
            if i < kept.len() {
                assert(o.recent[i] == kept[i]);
            } else {
                assert(o.recent[i] == now);
            }
        }
    }
}

/// Fresh progress lines are never blank, none repeats the line sent just
/// before it, the last one becomes the last line sent, and every line
/// read is consumed.
pub proof fn law_progress_no_repeats(items: Seq<Seq<char>>, consumed: int, last: Option<Seq<char>>)
    ensures
        ({
            let s = progress_scan(items, consumed, last);
            &&& forall|i: int| 0 <= i < s.fresh.len() ==> #[trigger] s.fresh[i].len() > 0
            &&& forall|i: int| 0 <= i < s.fresh.len() - 1 ==> #[trigger] s.fresh[i] != s.fresh[i + 1]
            &&& s.fresh.len() > 0 ==> last != Some(s.fresh[0])
            &&& s.fresh.len() > 0 ==> s.last == Some(s.fresh.last())
            &&& s.fresh.len() == 0 ==> s.last == last
            &&& s.consumed == consumed + items.len()
        }),
    decreases items.len(),
{
    if items.len() > 0 {
        law_progress_no_repeats(items.drop_last(), consumed, last);
        let s0 = progress_scan(items.drop_last(), consumed, last);
        let s = progress_scan(items, consumed, last);
        if s.fresh.len() > s0.fresh.len() {
            assert(s.fresh == s0.fresh.push(s.fresh.last()));
            assert forall|i: int| 0 <= i < s.fresh.len() - 1 implies #[trigger] s.fresh[i] != s.fresh[i
                + 1] by {
                if i + 1 < s0.fresh.len() {
                    assert(s.fresh[i] == s0.fresh[i]);
                    assert(s.fresh[i + 1] == s0.fresh[i + 1]);
                } else {
                    assert(s.fresh[i] == s0.fresh.last());
                }
            }
            assert forall|i: int| 0 <= i < s.fresh.len() implies #[trigger] s.fresh[i].len() > 0 by {
                if i < s0.fresh.len() {
                    assert(s.fresh[i] == s0.fresh[i]);
                }
            }
            if s0.fresh.len() > 0 {
                assert(s.fresh[0] == s0.fresh[0]);
            }
        }
    }
}

/// A chat never gets more progress cards in a turn than the configured
/// limit.
pub proof fn law_progress_card_limit(sent: int, max: int, found: bool)
    requires
        sent <= max,
    ensures
        cards_after(sent, max, found) <= max,
        cards_after(sent, max, found) >= sent,
{
}

/// Each delivered intermediate chunk advances its stream's index by one,
/// until the counter saturates, so the chunks of a stream are numbered
/// 0, 1, 2, ...; and the stream stays active and keeps its id and type.
pub proof fn law_stream_index_advances(e: C2cStreamState, msg_type: i64, id: String)
    ensures
        e.index < u64::MAX ==> advanced_stream(e, msg_type, id).index == e.index + 1,
        advanced_stream(e, msg_type, id).active,
        advanced_stream(e, msg_type, id).id == Some(id),
        advanced_stream(e, msg_type, id).msg_type == Some(msg_type),
{
}

/// After a final chunk the chat's stream state is gone, so its next
/// stream starts afresh at index 0 with no id and no locked type.
pub proof fn law_stream_restarts_after_final(m: Map<Seq<char>, C2cStreamState>, chat: Seq<char>)
    ensures
        stream_entry(m.remove(chat), chat) == fresh_stream(),
        stream_entry(m.remove(chat), chat).index == 0,
{
}

/// Once a stream fell back to plain text it stays plain: the lock, and
/// every chunk later delivered as plain text, leave the stream locked,
/// and a locked stream's chunks are never markdown.
pub proof fn law_plain_lock_sticks(
    m: Map<Seq<char>, C2cStreamState>,
    chat: Seq<char>,
    markdown_support: bool,
    id: String,
)
    ensures
        ({
            let locked = m.insert(
                chat,
                C2cStreamState { msg_type: Some(0i64), ..stream_entry(m, chat) },
            );
            &&& stream_entry(locked, chat).msg_type == Some(0i64)
            &&& !(markdown_support && stream_entry(locked, chat).msg_type != Some(0i64))
            &&& advanced_stream(stream_entry(locked, chat), 0, id).msg_type == Some(0i64)
        }),
{
}

/// Metadata recorded for a chat is what its footer shows until the turn
/// state is cleared; other chats are unaffected, and a cleared chat's
/// footer is empty.
pub proof fn law_metadata_read_after_write(
    m: Map<Seq<char>, TurnMetadata>,
    chat: Seq<char>,
    other: Seq<char>,
    meta: TurnMetadata,
    enabled: bool,
)
    requires
        other != chat,
    ensures
        footer_text(enabled, meta_for(m.insert(chat, meta), chat)) == footer_text(enabled, Some(meta)),
        meta_for(m.insert(chat, meta), other) == meta_for(m, other),
        meta_for(m.remove(chat), other) == meta_for(m, other),
        footer_text(enabled, meta_for(m.remove(chat), chat)).len() == 0,
{
}

/// Replies to group chats are never streamed natively.
pub proof fn law_group_chats_not_streamed(
    a: QqBotAdapter,
    chat_id: Seq<char>,
    text: Seq<char>,
    final_chunk: bool,
)
    requires
        is_group_chat(chat_id),
    ensures
        a.stream_skipped(chat_id, text, final_chunk),
{
}

/// Progress requests on lists that only grow read each line once: a
/// request that starts at or before the end of its list consumes the whole
/// list, and the next request, on that list with lines appended, reads
/// exactly the appended lines.
pub proof fn law_progress_reads_each_line_once(
    first: Seq<Seq<char>>,
    appended: Seq<Seq<char>>,
    consumed: int,
    last: Option<Seq<char>>,
)
    requires
        0 <= consumed <= first.len(),
    ensures
        progress_scan(unread(first, consumed), consumed, last).consumed == first.len(),
        unread(first + appended, first.len() as int) == appended,
{
    law_progress_no_repeats(unread(first, consumed), consumed, last);
    assert((first + appended).skip(first.len() as int) == appended);
}

/// Cards counted for a turn after requests that found fresh lines or not,
/// from a fresh turn.
pub open spec fn cards_run(max: int, found: Seq<bool>) -> int
    decreases found.len(),
{
    if found.len() == 0 {
        0
    } else {
        cards_after(cards_run(max, found.drop_last()), max, found.last())
    }
}

/// Cards sent for a turn by requests that found fresh lines or not: a
/// request sends a card when the turn is below the limit and it found
/// fresh lines.
pub open spec fn cards_sent(max: int, found: Seq<bool>) -> int
    decreases found.len(),
{
    if found.len() == 0 {
        0
    } else {
        cards_sent(max, found.drop_last()) + (if cards_run(max, found.drop_last()) < max
            && found.last() {
            1int
        } else {
            0int
        })
    }
}

/// Over any sequence of progress requests in one turn, the cards sent are
/// the cards counted, and never more than the limit (none when it is 0).
pub proof fn law_progress_cards_per_turn(max: int, found: Seq<bool>)
    requires
        max >= 0,
    ensures
        cards_sent(max, found) == cards_run(max, found),
        cards_run(max, found) <= max,
    decreases found.len(),
{
    if found.len() > 0 {
        law_progress_cards_per_turn(max, found.drop_last());
    }
}

/// The stream map after the intermediate chunks `deliveries` (message
/// type, stream id) of `chat`'s stream are delivered in order, each
/// recorded as `advance_stream` records it.
pub open spec fn streams_after(
    m: Map<Seq<char>, C2cStreamState>,
    chat: Seq<char>,
    deliveries: Seq<(i64, String)>,
) -> Map<Seq<char>, C2cStreamState>
    decreases deliveries.len(),
{
    if deliveries.len() == 0 {
        m
    } else {
        let m0 = streams_after(m, chat, deliveries.drop_last());
        m0.insert(
            chat,
            advanced_stream(stream_entry(m0, chat), deliveries.last().0, deliveries.last().1),
        )
    }
}

/// A stream that starts with no state (a new chat, or after its final
/// chunk) numbers its chunks 0, 1, 2, ...: after `k` delivered chunks the
/// next chunk carries index `k` and the id of the last delivery, and
/// before any delivery it carries index 0 and no id.
pub proof fn law_stream_numbering(
    m: Map<Seq<char>, C2cStreamState>,
    chat: Seq<char>,
    deliveries: Seq<(i64, String)>,
)
    requires
        !m.contains_key(chat),
        deliveries.len() < u64::MAX,
    ensures
        stream_entry(streams_after(m, chat, deliveries), chat).index == deliveries.len(),
        deliveries.len() == 0 ==> stream_entry(streams_after(m, chat, deliveries), chat)
            == fresh_stream(),
        deliveries.len() > 0 ==> stream_entry(streams_after(m, chat, deliveries), chat).id == Some(
            deliveries.last().1,
        ),
        deliveries.len() > 0 ==> stream_entry(streams_after(m, chat, deliveries), chat).active,
    decreases deliveries.len(),
{
    if deliveries.len() > 0 {
        law_stream_numbering(m, chat, deliveries.drop_last());
    }
}

/// The message type a chunk is planned with: markdown (2) when markdown is
/// on and the stream is not locked to plain text, plain (0) otherwise.
pub open spec fn planned_type(markdown_support: bool, e: C2cStreamState) -> i64 {
    if markdown_support && e.msg_type != Some(0i64) {
        2
    } else {
        0
    }
}

/// Once a stream is locked to plain text, every later chunk of it is
/// planned as plain text and, delivered as planned, keeps it locked, until
/// the final chunk drops the stream.
pub proof fn law_plain_lock_whole_stream(
    m: Map<Seq<char>, C2cStreamState>,
    chat: Seq<char>,
    markdown_support: bool,
    deliveries: Seq<(i64, String)>,
)
    requires
        stream_entry(m, chat).msg_type == Some(0i64),
        forall|i: int|
            0 <= i < deliveries.len() ==> #[trigger] deliveries[i].0 == planned_type(
                markdown_support,
                stream_entry(streams_after(m, chat, deliveries.take(i)), chat),
            ),
    ensures
        forall|i: int|
            0 <= i <= deliveries.len() ==> {
                &&& stream_entry(streams_after(m, chat, #[trigger] deliveries.take(i)), chat).msg_type
                    == Some(0i64)
                &&& planned_type(
                    markdown_support,
                    stream_entry(streams_after(m, chat, deliveries.take(i)), chat),
                ) == 0
            },
    decreases deliveries.len(),
{
    if deliveries.len() > 0 {
        let d0 = deliveries.drop_last();
        assert forall|i: int| 0 <= i < d0.len() implies #[trigger] d0[i].0 == planned_type(
            markdown_support,
            stream_entry(streams_after(m, chat, d0.take(i)), chat),
        ) by {
            assert(d0.take(i) == deliveries.take(i));
            assert(d0[i] == deliveries[i]);
        }
        law_plain_lock_whole_stream(m, chat, markdown_support, d0);
        assert forall|i: int| 0 <= i <= deliveries.len() implies {
            &&& stream_entry(streams_after(m, chat, #[trigger] deliveries.take(i)), chat).msg_type
                == Some(0i64)
            &&& planned_type(
                markdown_support,
                stream_entry(streams_after(m, chat, deliveries.take(i)), chat),
            ) == 0
        } by {
            if i < deliveries.len() {
                assert(d0.take(i) == deliveries.take(i));
            } else {
                let n = deliveries.len() - 1;
                assert(deliveries.take(i) == deliveries);
                assert(deliveries.drop_last() == deliveries.take(n));
                assert(d0.take(n) == d0);
                assert(deliveries.last() == deliveries[n]);
            }
        }
    } else {
        assert(deliveries.take(0) == deliveries);
    }
}

/// `2` raised to `j`.
pub open spec fn two_pow(j: nat) -> nat
    decreases j,
{
    if j == 0 {
        1
    } else {
        2 * two_pow((j - 1) as nat)
    }
}

/// The reconnect delay after connection attempts with the given outcomes,
/// starting from the initial delay.
pub open spec fn backoff_run(outcomes: Seq<bool>) -> u64
    decreases outcomes.len(),
{
    if outcomes.len() == 0 {
        INITIAL_BACKOFF_MS
    } else {
        backoff_after(backoff_run(outcomes.drop_last()), outcomes.last())
    }
}

/// `j` failed attempts.
pub open spec fn failures(j: nat) -> Seq<bool> {
    Seq::new(j, |i: int| false)
}

/// After a clean disconnect (or at the start) followed by `j` failed
/// attempts, the delay is `min(2 s * 2^j, 60 s)`; since the supervisor
/// sleeps the current delay after a failure and then updates it, the
/// sleeps after consecutive failures run 2, 4, 8, 16, 32, 60, 60, ... s.
pub proof fn law_backoff_sequence(prefix: Seq<bool>, j: nat)
    requires
        prefix.len() == 0 || prefix.last(),
    ensures
        backoff_run(prefix + failures(j)) == (if INITIAL_BACKOFF_MS * two_pow(j) < MAX_BACKOFF_MS {
            INITIAL_BACKOFF_MS * two_pow(j)
        } else {
            MAX_BACKOFF_MS as int
        }),
    decreases j,
{
    if j == 0 {
        assert(prefix + failures(0) == prefix);
        if prefix.len() > 0 {
            assert(backoff_run(prefix) == INITIAL_BACKOFF_MS);
        }
    } else {
        let jm = (j - 1) as nat;
        law_backoff_sequence(prefix, jm);
        assert((prefix + failures(j)).drop_last() == prefix + failures(jm));
        assert((prefix + failures(j)).last() == false);
    }
}

/// The limiter's answers to requests at `times`, from the initial state.
pub struct NoticeRun {
    pub admitted: Seq<bool>,
    pub last_sent: Option<u64>,
    pub recent: Seq<u64>,
}

/// Runs the stream-end notice limiter over requests at `times`, from the
/// state of a new adapter.
pub open spec fn notice_run(enabled: bool, times: Seq<u64>) -> NoticeRun
    decreases times.len(),
{
    if times.len() == 0 {
        NoticeRun { admitted: Seq::empty(), last_sent: None, recent: Seq::empty() }
    } else {
        let r = notice_run(enabled, times.drop_last());
        let o = notice_step(enabled, r.last_sent, r.recent, times.last());
        NoticeRun { admitted: r.admitted.push(o.admitted), last_sent: o.last_sent, recent: o.recent }
    }
}

proof fn lemma_window_keeps(s: Seq<u64>, now: u64, x: u64)
    requires
        s.contains(x),
        elapsed(now, x) < NOTICE_WINDOW_MS,
    ensures
        within_window(s, now).contains(x),
    decreases s.len(),
{
    if s.last() == x {
        assert(within_window(s, now).last() == x);
    } else {
        let k = choose|k: int| 0 <= k < s.len() && s[k] == x;
        assert(s.drop_last()[k] == x);
        lemma_window_keeps(s.drop_last(), now, x);
        let w0 = within_window(s.drop_last(), now);
        let k2 = choose|k2: int| 0 <= k2 < w0.len() && w0[k2] == x;
        if elapsed(now, s.last()) < NOTICE_WINDOW_MS {
            assert(within_window(s, now)[k2] == x);
        }
    }
}

proof fn lemma_three_distinct(s: Seq<u64>, a: u64, b: u64, c: u64)
    requires
        s.contains(a),
        s.contains(b),
        s.contains(c),
        a != b,
        b != c,
        a != c,
    ensures
        s.len() >= 3,
{
    let ia = choose|i: int| 0 <= i < s.len() && s[i] == a;
    let ib = choose|i: int| 0 <= i < s.len() && s[i] == b;
    let ic = choose|i: int| 0 <= i < s.len() && s[i] == c;
    assert(ia != ib && ib != ic && ia != ic);
}

/// What a run of the limiter keeps true after requests at `times`.
pub open spec fn notice_run_ok(enabled: bool, times: Seq<u64>) -> bool {
    let r = notice_run(enabled, times);
    &&& r.admitted.len() == times.len()
    &&& (times.len() == 0 ==> r.last_sent is None)
    &&& (r.last_sent matches Some(l) ==> times.len() > 0 && l <= times.last())
    &&& forall|i: int|
        0 <= i < times.len() && #[trigger] r.admitted[i] ==> (r.last_sent matches Some(l)
            && times[i] <= l)
    &&& forall|i: int|
        0 <= i < times.len() && #[trigger] r.admitted[i] && elapsed(times.last(), times[i])
            < NOTICE_WINDOW_MS ==> r.recent.contains(times[i])
    &&& forall|i: int, j: int|
        0 <= i < j < times.len() && #[trigger] r.admitted[i] && #[trigger] r.admitted[j] ==> times[j]
            - times[i] >= NOTICE_MIN_GAP_MS
    &&& forall|i1: int, i2: int, i3: int, i4: int|
        0 <= i1 < i2 < i3 < i4 < times.len() && #[trigger] r.admitted[i1] && #[trigger] r.admitted[i2]
            && #[trigger] r.admitted[i3] && #[trigger] r.admitted[i4] ==> times[i4] - times[i1]
            >= NOTICE_WINDOW_MS
}

/// Over any sequence of stream-end notice requests at non-decreasing
/// instants, on any chats, admitted notices are at least
/// `NOTICE_MIN_GAP_MS` apart, and any four admitted notices span at least
/// `NOTICE_WINDOW_MS`: at most `NOTICE_MAX_IN_WINDOW` fall in any window.
pub proof fn law_notice_sequence(enabled: bool, times: Seq<u64>)
    requires
        forall|i: int, j: int| 0 <= i < j < times.len() ==> times[i] <= times[j],
    ensures
        notice_run_ok(enabled, times),
    decreases times.len(),
{
    if times.len() > 0 {
        let n = times.len() - 1;
        let t0 = times.drop_last();
        assert forall|i: int, j: int| 0 <= i < j < t0.len() implies t0[i] <= t0[j] by {
            assert(t0[i] == times[i] && t0[j] == times[j]);
        }
        law_notice_sequence(enabled, t0);
        let r = notice_run(enabled, t0);
        let now = times.last();
        let o = notice_step(enabled, r.last_sent, r.recent, now);
        let rr = notice_run(enabled, times);
        let kept = within_window(r.recent, now);
        assert(rr.admitted == r.admitted.push(o.admitted));
        assert(forall|i: int| 0 <= i < n ==> times[i] == t0[i]);
        assert(n > 0 ==> t0.last() == times[n - 1]);
        assert(n > 0 ==> t0.last() <= now);
        // Admitted requests before this one, still within the window, are remembered.
        assert forall|i: int|
            0 <= i < n && r.admitted[i] && elapsed(now, times[i]) < NOTICE_WINDOW_MS implies kept.contains(
            times[i],
        ) by {
            assert(times[i] <= t0.last());
            assert(elapsed(t0.last(), t0[i]) < NOTICE_WINDOW_MS);
            lemma_window_keeps(r.recent, now, times[i]);
        }
        assert forall|i: int|
            0 <= i < times.len() && #[trigger] rr.admitted[i] && elapsed(times.last(), times[i])
                < NOTICE_WINDOW_MS implies rr.recent.contains(times[i]) by {
            if i < n {
                assert(rr.admitted[i] == r.admitted[i]);
                assert(times[i] <= t0.last());
                assert(elapsed(t0.last(), t0[i]) < NOTICE_WINDOW_MS);
                if o.recent == r.recent {
                } else if o.recent == kept {
                    lemma_window_keeps(r.recent, now, times[i]);
                } else {
                    lemma_window_keeps(r.recent, now, times[i]);
                    let k = choose|k: int| 0 <= k < kept.len() && kept[k] == times[i];
                    assert(o.recent[k] == times[i]);
                }
            } else {
                assert(o.recent.last() == now);
            }
        }
        assert forall|i: int|
            0 <= i < times.len() && #[trigger] rr.admitted[i] implies (rr.last_sent matches Some(l)
            && times[i] <= l) by {
            if i < n {
                assert(rr.admitted[i] == r.admitted[i]);
                assert(times[i] <= t0.last());
            }
        }
        assert forall|i: int, j: int|
            0 <= i < j < times.len() && #[trigger] rr.admitted[i] && #[trigger] rr.admitted[j] implies times[j]
            - times[i] >= NOTICE_MIN_GAP_MS by {
            assert(rr.admitted[i] == r.admitted[i]);
            if j < n {
                assert(rr.admitted[j] == r.admitted[j]);
            } else {
                assert(r.last_sent matches Some(l) && times[i] <= l);
            }
        }
        assert forall|i1: int, i2: int, i3: int, i4: int|
            0 <= i1 < i2 < i3 < i4 < times.len() && #[trigger] rr.admitted[i1] && #[trigger] rr.admitted[i2]
                && #[trigger] rr.admitted[i3] && #[trigger] rr.admitted[i4] implies times[i4]
            - times[i1] >= NOTICE_WINDOW_MS by {
            assert(rr.admitted[i1] == r.admitted[i1]);
            assert(rr.admitted[i2] == r.admitted[i2]);
            assert(rr.admitted[i3] == r.admitted[i3]);
            if i4 < n {
                assert(rr.admitted[i4] == r.admitted[i4]);
            } else if times[i4] - times[i1] < NOTICE_WINDOW_MS {
                assert(times[i2] - times[i1] >= NOTICE_MIN_GAP_MS);
                assert(times[i3] - times[i2] >= NOTICE_MIN_GAP_MS);
                assert(kept.contains(times[i1]));
                assert(kept.contains(times[i2]));
                assert(kept.contains(times[i3]));
                lemma_three_distinct(kept, times[i1], times[i2], times[i3]);
                assert(false);
            }
        }
    }
}

} // verus!
