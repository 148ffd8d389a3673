//! Stream-end notices: a rate limiter (a minimum gap, and a cap per
//! window) and the notice text.

use crate::adapter::QqBotAdapter;
use crate::text::{chars_of, matches_at, string_from, trim, trimmed};
use vstd::prelude::*;

verus! {

/// Least time between two notices, in milliseconds.
pub const NOTICE_MIN_GAP_MS: u64 = 3000;

/// Length of the window over which notices are counted, in milliseconds.
pub const NOTICE_WINDOW_MS: u64 = 300000;

/// Most notices within one window.
pub const NOTICE_MAX_IN_WINDOW: usize = 3;

/// Time elapsed from `t` to `now`, zero when `t` is later.
pub open spec fn elapsed(now: u64, t: u64) -> int {
    if now >= t {
        now - t
    } else {
        0
    }
}

/// The instants of `s` that lie within the window ending at `now`, in order.
pub open spec fn within_window(s: Seq<u64>, now: u64) -> Seq<u64>
    decreases s.len(),
{
    if s.len() == 0 {
        Seq::empty()
    } else {
        let r = within_window(s.drop_last(), now);
        if elapsed(now, s.last()) < NOTICE_WINDOW_MS {
            r.push(s.last())
        } else {
            r
        }
    }
}

/// The limiter's answer and state after a request at `now`.
pub struct NoticeOutcome {
    pub admitted: bool,
    pub last_sent: Option<u64>,
    pub recent: Seq<u64>,
}

/// The stream-end notice limiter: with notices `enabled`, a request at
/// `now` is admitted when it comes at least `NOTICE_MIN_GAP_MS` after the
/// last notice and fewer than `NOTICE_MAX_IN_WINDOW` remembered notices lie
/// within the window; past the gap test the remembered instants are pruned
/// to the window, and an admitted request is remembered.
pub open spec fn notice_step(enabled: bool, last_sent: Option<u64>, recent: Seq<u64>, now: u64) -> NoticeOutcome {
    if !enabled || (last_sent matches Some(l) && elapsed(now, l) < NOTICE_MIN_GAP_MS) {
        NoticeOutcome { admitted: false, last_sent, recent }
    } else {
        let kept = within_window(recent, now);
        if kept.len() >= NOTICE_MAX_IN_WINDOW {
            NoticeOutcome { admitted: false, last_sent, recent: kept }
        } else {
            NoticeOutcome { admitted: true, last_sent: Some(now), recent: kept.push(now) }
        }
    }
}

/// The footer with newlines turned into spaces.
pub open spec fn newlines_to_spaces(s: Seq<char>) -> Seq<char> {
    Seq::new(s.len(), |i: int| if (s[i] as u32) == 10 { ' ' } else { s[i] })
}

/// The text with every `---` removed, scanning from the left.
pub open spec fn strip_rules(s: Seq<char>) -> Seq<char>
    decreases s.len(),
{
    if s.len() == 0 {
        s
    } else if s.len() >= 3 && s.take(3) == "---"@ {
        strip_rules(s.skip(3))
    } else {
        seq![s[0]] + strip_rules(s.drop_first())
    }
}

/// The notice sent when a stream ends: `completed`, followed by the
/// footer flattened onto one line when there is one.
pub open spec fn notice_text(footer: Seq<char>) -> Seq<char> {
    if footer.len() == 0 {
        "completed"@
    } else {
        "completed "@ + trim(strip_rules(newlines_to_spaces(footer)))
    }
}

/// The footer with newlines turned into spaces.
fn flatten_newlines(s: &Vec<char>) -> (r: Vec<char>)
    ensures
        r@ == newlines_to_spaces(s@),
{
    let mut out: Vec<char> = Vec::new();
    let mut i: usize = 0;
    while i < s.len()
        invariant
            i <= s.len(),
            out@ == newlines_to_spaces(s@).take(i as int),
        decreases s.len() - i,
    {
        let c = s[i];
        if (c as u32) == 10u32 {
            out.push(' ');
        } else {
            out.push(c);
        }
        assert(newlines_to_spaces(s@).take(i + 1) == newlines_to_spaces(s@).take(i as int).push(
            newlines_to_spaces(s@)[i as int],
        ));
        i = i + 1;
    }
    assert(newlines_to_spaces(s@).take(s.len() as int) == newlines_to_spaces(s@));
    out
}

/// The text with every `---` removed.
fn remove_rules(s: &Vec<char>) -> (r: Vec<char>)
    ensures
        r@ == strip_rules(s@),
{
    let dashes = chars_of("---");
    let mut out: Vec<char> = Vec::new();
    let mut i: usize = 0;
    assert(s@.skip(0) == s@);
    while i < s.len()
        invariant
            i <= s.len(),
            dashes@ == "---"@,
            out@ + strip_rules(s@.skip(i as int)) == strip_rules(s@),
        decreases s.len() - i,
    {
        let ghost rest = s@.skip(i as int);
        if matches_at(s, &dashes, i) {
            proof {
                reveal_strlit("---");
                assert(rest.take(3) == s@.subrange(i as int, i + 3));
                assert(rest.skip(3) == s@.skip(i + 3));
            }
            i = i + 3;
        } else {
            proof {
                reveal_strlit("---");
                if rest.len() >= 3 && rest.take(3) == "---"@ {
                    assert(s@.subrange(i as int, i + 3) == rest.take(3));
                }
                assert(rest.drop_first() == s@.skip(i + 1));
                assert(out@.push(s@[i as int]) + strip_rules(s@.skip(i + 1)) == out@ + (seq![
                    s@[i as int],
                ] + strip_rules(s@.skip(i + 1))));
            }
            out.push(s[i]);
            i = i + 1;
        }
    }
    proof {
        assert(s@.skip(i as int) =~= Seq::<char>::empty());
        assert(out@ + Seq::<char>::empty() == out@);
    }
    out
}

/// The notice sent when a stream ends, given the turn's footer.
pub fn stream_end_line(footer: &str) -> (r: String)
    ensures
        r@ == notice_text(footer@),
{
    let f = chars_of(footer);
    if f.len() == 0 {
        return "completed".to_owned();
    }
    let mut out = chars_of("completed ");
    let rest = trimmed(&remove_rules(&flatten_newlines(&f)));
    crate::text::extend_chars(&mut out, &rest);
    string_from(&out)
}

impl QqBotAdapter {
    /// Decides at instant `now` whether a stream-end notice may be sent.
    /// Notices must be enabled, at least `NOTICE_MIN_GAP_MS` after the
    /// previous one, and fewer than `NOTICE_MAX_IN_WINDOW` may have been
    /// sent within the last `NOTICE_WINDOW_MS`; the remembered instants
    /// are pruned to that window, and an admitted notice is recorded.
    pub fn admit_stream_end_notice(&mut self, now: u64) -> (r: bool)
        ensures
            final(self).config == old(self).config,
            final(self).turn_metadata == old(self).turn_metadata,
            final(self).progress_state == old(self).progress_state,
            final(self).c2c_stream_state == old(self).c2c_stream_state,
            final(self).ws_state == old(self).ws_state,
            final(self).access_token == old(self).access_token,
            ({
                let o = notice_step(
                    old(self).config.notify_on_stream_end,
                    old(self).notice_state.last_sent,
                    old(self).notice_state.recent_sent@,
                    now,
                );
                &&& r == o.admitted
                &&& final(self).notice_state.last_sent == o.last_sent
                &&& final(self).notice_state.recent_sent@ == o.recent
            }),
    {
        if !self.config.notify_on_stream_end {
            return false;
        }
        if let Some(l) = self.notice_state.last_sent {
            if now.saturating_sub(l) < NOTICE_MIN_GAP_MS {
                return false;
            }
        }
        let ghost old_recent = self.notice_state.recent_sent@;
        let mut kept: Vec<u64> = Vec::new();
        let mut i: usize = 0;
        while i < self.notice_state.recent_sent.len()
            invariant
                i <= old_recent.len(),
                self.notice_state.recent_sent@ == old_recent,
                kept@ == within_window(old_recent.take(i as int), now),
            decreases old_recent.len() - i,
        {
            let t = self.notice_state.recent_sent[i];
            proof {
                assert(old_recent.take(i + 1).drop_last() == old_recent.take(i as int));
            }
            if now.saturating_sub(t) < NOTICE_WINDOW_MS {
                kept.push(t);
            }
            i = i + 1;
        }
        assert(old_recent.take(old_recent.len() as int) == old_recent);
        if kept.len() >= NOTICE_MAX_IN_WINDOW {
            self.notice_state.recent_sent = kept;
            return false;
        }
        kept.push(now);
        self.notice_state.recent_sent = kept;
        self.notice_state.last_sent = Some(now);
        true
    }
}

} // verus!
