//! Progress cards: tool progress lines coalesced into a bounded number of
//! messages per turn, skipping blank lines and immediate repeats.

use crate::adapter::QqBotAdapter;
use crate::footer::{join, join_chars, part_views};
use crate::state::ProgressState;
use crate::stream::opt_view;
use crate::text::{chars_of, extend_chars, same_chars, string_from, trim, trimmed};
use vstd::prelude::*;

verus! {

/// The result of reading progress lines: the fresh lines to send, the
/// number of lines consumed, and the last line sent.
pub struct ProgressScan {
    pub fresh: Seq<Seq<char>>,
    pub consumed: int,
    pub last: Option<Seq<char>>,
}

/// Reads `items` in order, starting with `consumed` lines consumed and
/// `last` as the last line sent. Every line read is counted as consumed,
/// so no line is read twice by later requests; a blank line and a line
/// equal (once trimmed) to the last one sent are not sent, and any other
/// line is sent in its trimmed form.
pub open spec fn progress_scan(items: Seq<Seq<char>>, consumed: int, last: Option<Seq<char>>) -> ProgressScan
    decreases items.len(),
{
    if items.len() == 0 {
        ProgressScan { fresh: Seq::empty(), consumed, last }
    } else {
        let s = progress_scan(items.drop_last(), consumed, last);
        let t = trim(items.last());
        if t.len() == 0 {
            ProgressScan { consumed: s.consumed + 1, ..s }
        } else if s.last == Some(t) {
            ProgressScan { consumed: s.consumed + 1, ..s }
        } else {
            ProgressScan { fresh: s.fresh.push(t), consumed: s.consumed + 1, last: Some(t) }
        }
    }
}

/// The text of each line.
pub open spec fn line_views(lines: Seq<String>) -> Seq<Seq<char>> {
    lines.map_values(|l: String| l@)
}

/// The lines not consumed yet.
pub open spec fn unread(lines: Seq<Seq<char>>, consumed: int) -> Seq<Seq<char>> {
    if consumed <= lines.len() {
        lines.skip(consumed)
    } else {
        Seq::empty()
    }
}

/// The progress state held for `chat`, or the initial one.
pub open spec fn progress_entry(m: Map<Seq<char>, ProgressState>, chat: Seq<char>) -> ProgressState {
    if m.contains_key(chat) {
        m[chat]
    } else {
        ProgressState { sent_count: 0, last_sent_idx: 0, last_line: None }
    }
}

/// Cards counted for a turn after a request that found fresh lines or not.
pub open spec fn cards_after(sent: int, max: int, found: bool) -> int {
    if sent >= max {
        sent
    } else if found {
        sent + 1
    } else {
        sent
    }
}

/// The text of a progress card showing `fresh`.
pub open spec fn progress_body(fresh: Seq<Seq<char>>) -> Seq<char> {
    "**Progress**\n"@ + join(fresh, "\n"@)
}

fn opt_chars_of(o: &Option<String>) -> (r: Option<Vec<char>>)
    ensures
        match r {
            Some(v) => opt_view(*o) == Some(v@),
            None => o is None,
        },
{
    match o {
        Some(s) => Some(chars_of(s.as_str())),
        None => None,
    }
}

impl QqBotAdapter {
    /// Reads `lines` for `chat_id`'s progress card. Nothing is sent when
    /// coalescing is off or there are no lines; otherwise the chat gets a
    /// progress state, and once it has sent `max_progress_messages` cards
    /// nothing more is read. The unread lines are scanned as
    /// `progress_scan` says; a card is returned when fresh lines remain,
    /// and counts against the limit.
    pub fn progress_card(&mut self, chat_id: &str, lines: &Vec<String>) -> (r: Option<String>)
        ensures
            !old(self).config.progress_coalesce || lines@.len() == 0 ==> r is None && *final(self)
                == *old(self),
            old(self).config.progress_coalesce && lines@.len() > 0 ==> {
                let p = progress_entry(old(self).progress_state.view(), chat_id@);
                let np = final(self).progress_state.view()[chat_id@];
                let scan = progress_scan(
                    unread(line_views(lines@), p.last_sent_idx as int),
                    p.last_sent_idx as int,
                    opt_view(p.last_line),
                );
                &&& final(self).progress_state.view() == old(self).progress_state.view().insert(
                    chat_id@,
                    np,
                )
                &&& final(self).config == old(self).config
                &&& final(self).turn_metadata == old(self).turn_metadata
                &&& final(self).c2c_stream_state == old(self).c2c_stream_state
                &&& final(self).ws_state == old(self).ws_state
                &&& final(self).access_token == old(self).access_token
                &&& final(self).notice_state == old(self).notice_state
                &&& if p.sent_count >= old(self).config.max_progress_messages {
                    &&& r is None
                    &&& np == p
                } else {
                    &&& np.last_sent_idx == scan.consumed
                    &&& opt_view(np.last_line) == scan.last
                    &&& np.sent_count == cards_after(
                        p.sent_count as int,
                        old(self).config.max_progress_messages as int,
                        scan.fresh.len() > 0,
                    )
                    &&& (r is Some <==> scan.fresh.len() > 0)
                    &&& (r matches Some(b) ==> b@ == progress_body(scan.fresh))
                }
            },
    {
        if !self.config.progress_coalesce || lines.len() == 0 {
            return None;
        }
        let key = chat_id.to_owned();
        let p = match self.progress_state.take(&key) {
            Some(p) => p,
            None => ProgressState::default(),
        };
        if p.sent_count >= self.config.max_progress_messages {
            self.progress_state.insert(key, p);
            return None;
        }
        let ghost lv = line_views(lines@);
        let start = p.last_sent_idx;
        let ghost items = unread(lv, start as int);
        let ghost init_last = opt_view(p.last_line);
        let mut fresh: Vec<Vec<char>> = Vec::new();
        let mut last: Option<Vec<char>> = opt_chars_of(&p.last_line);
        let mut last_text: Option<String> = p.last_line;
        let mut k: usize = start;
        proof {
            if start <= lv.len() {
                assert(items.take(0) == Seq::<Seq<char>>::empty());
            }
        }
        while k < lines.len()
            invariant
                start <= k,
                start <= lines@.len() ==> k <= lines@.len(),
                start > lines@.len() ==> k == start,
                lv == line_views(lines@),
                items == unread(lv, start as int),
                ({
                    let s = progress_scan(
                        items.take(k - start),
                        start as int,
                        init_last,
                    );
                    &&& part_views(fresh@) == s.fresh
                    &&& k == s.consumed
                    &&& match last {
                        Some(v) => s.last == Some(v@),
                        None => s.last is None,
                    }
                    &&& opt_view(last_text) == s.last
                }),
            decreases lines.len() - k,
        {
            let t = trimmed(&chars_of(lines[k].as_str()));
            proof {
                assert(start <= lines@.len());
                assert(items.take(k + 1 - start).drop_last() == items.take(k - start));
                assert(items.take(k + 1 - start).last() == lv[k as int]);
            }
            if t.len() == 0 {
            } else {
                let repeat = match &last {
                    Some(v) => same_chars(v, &t),
                    None => false,
                };
                if !repeat {
                    last_text = Some(string_from(&t));
                    let t2 = trimmed(&chars_of(lines[k].as_str()));
                    last = Some(t);
                    fresh.push(t2);
                }
            }
            k = k + 1;
        }
        proof {
            if start <= lv.len() {
                assert(items.take(k - start) == items);
            } else {
                assert(items =~= Seq::<Seq<char>>::empty());
                assert(items.take(k - start) == items);
            }
        }
        let found = fresh.len() > 0;
        let np = ProgressState {
            sent_count: if found {
                p.sent_count + 1
            } else {
                p.sent_count
            },
            last_sent_idx: k,
            last_line: last_text,
        };
        self.progress_state.insert(key, np);
        if found {
            let mut body = chars_of("**Progress**\n");
            extend_chars(&mut body, &join_chars(&fresh, &chars_of("\n")));
            Some(string_from(&body))
        } else {
            None
        }
    }
}

} // verus!
