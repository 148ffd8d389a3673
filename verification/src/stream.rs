//! Native C2C streaming: which chunks are streamed, what each chunk carries,
//! the markdown-to-plain fallback, and the stream state after a chunk.

use crate::adapter::{is_group_chat, QqBotAdapter};
use crate::footer::{footer_text, meta_for};
use crate::outbound::{endpoint, endpoint_for, footer_appended, with_footer, MessageBody, OutgoingMessage, StreamPayload};
use crate::state::C2cStreamState;
use crate::text::{blank, chars_of, contains, has_substring, is_blank, lower, lowered, slice_chars, string_from};
use vstd::prelude::*;

verus! {

/// Most characters of a reply streamed in one chunk.
pub const STREAM_CHUNK_CHARS: usize = 4096;

/// Stream `state` of an intermediate chunk.
pub const STREAM_STATE_CONTINUE: i64 = 1;

/// Stream `state` of the final chunk.
pub const STREAM_STATE_FINAL: i64 = 10;

/// The initial stream state.
pub open spec fn fresh_stream() -> C2cStreamState {
    C2cStreamState { id: None, index: 0, active: false, msg_type: None }
}

/// The stream state held for `chat`, or the initial one.
pub open spec fn stream_entry(m: Map<Seq<char>, C2cStreamState>, chat: Seq<char>) -> C2cStreamState {
    if m.contains_key(chat) {
        m[chat]
    } else {
        fresh_stream()
    }
}

/// The map with `chat` present, holding the initial state if it was absent.
pub open spec fn with_stream_entry(m: Map<Seq<char>, C2cStreamState>, chat: Seq<char>) -> Map<
    Seq<char>,
    C2cStreamState,
> {
    m.insert(chat, stream_entry(m, chat))
}

/// The text of a chunk: at most `STREAM_CHUNK_CHARS` characters of the
/// reply; a final chunk also gets the footer and ends with a newline.
pub open spec fn chunk_text(text: Seq<char>, final_chunk: bool, footer: Seq<char>) -> Seq<char> {
    let c = if text.len() <= STREAM_CHUNK_CHARS {
        text
    } else {
        text.take(STREAM_CHUNK_CHARS as int)
    };
    if final_chunk {
        let c2 = with_footer(c, footer);
        if c2.len() > 0 && (c2.last() as u32) == 10 {
            c2
        } else {
            c2.push('\n')
        }
    } else {
        c
    }
}

/// Whether an API error text says that markdown was refused.
pub open spec fn markdown_refused(t: Seq<char>) -> bool {
    let l = lower(t);
    ||| contains(l, "markdown"@)
    ||| contains(l, "md"@)
    ||| contains(l, "not allowed"@)
    ||| contains(t, "markdown"@)
    ||| contains(t, "消息类型"@)
}

/// The optional reply target, when present and not blank.
pub open spec fn reply_target(reply_to: Option<Seq<char>>) -> Option<Seq<char>> {
    match reply_to {
        Some(r) => if is_blank(r) {
            None
        } else {
            Some(r)
        },
        None => None,
    }
}

/// The text of an optional string.
pub open spec fn opt_view(o: Option<String>) -> Option<Seq<char>> {
    match o {
        Some(s) => Some(s@),
        None => None,
    }
}

/// The state after a delivered intermediate chunk of type `msg_type` in
/// the stream with id `id`.
pub open spec fn advanced_stream(e: C2cStreamState, msg_type: i64, id: String) -> C2cStreamState {
    C2cStreamState {
        id: Some(id),
        index: if e.index == u64::MAX {
            u64::MAX
        } else {
            (e.index + 1) as u64
        },
        active: true,
        msg_type: Some(msg_type),
    }
}

/// A fresh stream id: `uuid::Uuid::new_v4().to_string()`, a random UUID
/// in its 36-character hyphenated form.
#[verifier::external_body]
fn new_stream_id() -> (r: String)
    ensures
        r@.len() == 36,
{
    uuid::Uuid::new_v4().to_string()
}

/// The chunk text for `text`.
pub fn chunk_content(text: &str, final_chunk: bool, footer: &Vec<char>) -> (r: Vec<char>)
    ensures
        r@ == chunk_text(text@, final_chunk, footer@),
{
    let all = chars_of(text);
    let n = if all.len() <= STREAM_CHUNK_CHARS {
        all.len()
    } else {
        STREAM_CHUNK_CHARS
    };
    let c = slice_chars(&all, 0, n);
    assert(all@.len() <= STREAM_CHUNK_CHARS ==> all@.subrange(0, n as int) == all@);
    assert(all@.len() > STREAM_CHUNK_CHARS ==> all@.subrange(0, n as int) == all@.take(
        STREAM_CHUNK_CHARS as int,
    ));
    if final_chunk {
        let mut c2 = footer_appended(&c, footer);
        if !(c2.len() > 0 && (c2[c2.len() - 1] as u32) == 10u32) {
            c2.push('\n');
        }
        c2
    } else {
        c
    }
}

/// Whether an API error text says that markdown was refused.
pub fn markdown_rejected(error_text: &str) -> (r: bool)
    ensures
        r == markdown_refused(error_text@),
{
    let t = chars_of(error_text);
    let l = lowered(&t);
    has_substring(&l, &chars_of("markdown")) || has_substring(&l, &chars_of("md"))
        || has_substring(&l, &chars_of("not allowed")) || has_substring(&t, &chars_of("markdown"))
        || has_substring(&t, &chars_of("消息类型"))
}

/// The same message sent as plain text.
pub fn as_plain(m: OutgoingMessage) -> (r: OutgoingMessage)
    ensures
        r.endpoint == m.endpoint,
        !r.body.markdown,
        r.body.content == m.body.content,
        r.body.msg_seq == m.body.msg_seq,
        r.body.stream == m.body.stream,
        r.body.msg_id == m.body.msg_id,
{
    let OutgoingMessage { endpoint, body } = m;
    OutgoingMessage { endpoint, body: MessageBody { markdown: false, ..body } }
}

fn clone_opt_string(o: &Option<String>) -> (r: Option<String>)
    ensures
        r == *o,
{
    match o {
        Some(s) => Some(s.clone()),
        None => None,
    }
}

impl QqBotAdapter {
    /// Whether a chunk for `chat_id` is skipped: streaming is off, the chat
    /// is a group, or an intermediate chunk would be blank.
    pub open spec fn stream_skipped(&self, chat_id: Seq<char>, text: Seq<char>, final_chunk: bool) -> bool {
        ||| !self.config.c2c_streaming
        ||| is_group_chat(chat_id)
        ||| (!final_chunk && is_blank(chunk_text(text, false, Seq::empty())))
    }

    /// Plans the next native stream chunk of a reply to `chat_id`, or
    /// `None` when the chunk is not streamed. A planned chunk makes sure
    /// the chat has a stream state, and carries that state's index and id;
    /// it is markdown unless markdown is off or the stream fell back to
    /// plain text.
    pub fn prepare_stream_chunk(
        &mut self,
        chat_id: &str,
        text: &str,
        reply_to: Option<&str>,
        final_chunk: bool,
        msg_seq: i64,
    ) -> (r: Option<OutgoingMessage>)
        ensures
            old(self).stream_skipped(chat_id@, text@, final_chunk) ==> r is None && *final(self)
                == *old(self),
            !old(self).stream_skipped(chat_id@, text@, final_chunk) ==> {
                let e = stream_entry(old(self).c2c_stream_state.view(), chat_id@);
                &&& final(self).c2c_stream_state.view() == with_stream_entry(
                    old(self).c2c_stream_state.view(),
                    chat_id@,
                )
                &&& final(self).config == old(self).config
                &&& final(self).turn_metadata == old(self).turn_metadata
                &&& final(self).progress_state == old(self).progress_state
                &&& final(self).ws_state == old(self).ws_state
                &&& final(self).access_token == old(self).access_token
                &&& final(self).notice_state == old(self).notice_state
                &&& r matches Some(m)
                &&& m.endpoint@ == endpoint_for(false, chat_id@)
                &&& m.body.content@ == chunk_text(
                    text@,
                    final_chunk,
                    footer_text(
                        old(self).config.metadata_footer,
                        meta_for(old(self).turn_metadata.view(), chat_id@),
                    ),
                )
                &&& m.body.markdown == (old(self).config.markdown_support && e.msg_type != Some(
                    0i64,
                ))
                &&& m.body.msg_seq == msg_seq
                &&& m.body.stream == Some(
                    StreamPayload {
                        state: if final_chunk {
                            STREAM_STATE_FINAL
                        } else {
                            STREAM_STATE_CONTINUE
                        },
                        index: e.index,
                        reset: false,
                        id: e.id,
                    },
                )
                &&& opt_view(m.body.msg_id) == reply_target(
                    match reply_to {
                        Some(x) => Some(x@),
                        None => None,
                    },
                )
            },
    {
        if !self.config.c2c_streaming || Self::looks_like_group_chat(chat_id) {
            return None;
        }
        let key = chat_id.to_owned();
        let footer = if final_chunk {
            self.footer_chars(&key)
        } else {
            Vec::new()
        };
        let content = chunk_content(text, final_chunk, &footer);
        if !final_chunk && blank(&content) {
            return None;
        }
        let (index, id, locked_plain) = match self.c2c_stream_state.get(&key) {
            Some(e) => (e.index, clone_opt_string(&e.id), e.msg_type == Some(0i64)),
            None => {
                self.c2c_stream_state.insert(key.clone(), C2cStreamState::default());
                (0u64, None, false)
            },
        };
        proof {
            assert(self.c2c_stream_state.view() == with_stream_entry(
                old(self).c2c_stream_state.view(),
                chat_id@,
            ));
        }
        let msg_id = match reply_to {
            Some(r) => if blank(&chars_of(r)) {
                None
            } else {
                Some(r.to_owned())
            },
            None => None,
        };
        Some(
            OutgoingMessage {
                endpoint: endpoint(false, chat_id),
                body: MessageBody {
                    markdown: self.config.markdown_support && !locked_plain,
                    content: string_from(&content),
                    msg_seq,
                    stream: Some(
                        StreamPayload {
                            state: if final_chunk {
                                STREAM_STATE_FINAL
                            } else {
                                STREAM_STATE_CONTINUE
                            },
                            index,
                            reset: false,
                            id,
                        },
                    ),
                    msg_id,
                },
            },
        )
    }

    /// Locks `chat_id`'s stream to plain text after markdown was refused.
    pub fn lock_stream_plain(&mut self, chat_id: &str)
        ensures
            final(self).c2c_stream_state.view() == old(self).c2c_stream_state.view().insert(
                chat_id@,
                C2cStreamState {
                    msg_type: Some(0i64),
                    ..stream_entry(old(self).c2c_stream_state.view(), chat_id@)
                },
            ),
            final(self).config == old(self).config,
            final(self).turn_metadata == old(self).turn_metadata,
            final(self).progress_state == old(self).progress_state,
            final(self).ws_state == old(self).ws_state,
            final(self).access_token == old(self).access_token,
            final(self).notice_state == old(self).notice_state,
    {
        let key = chat_id.to_owned();
        let e = match self.c2c_stream_state.take(&key) {
            Some(e) => e,
            None => C2cStreamState::default(),
        };
        self.c2c_stream_state.insert(key, C2cStreamState { msg_type: Some(0i64), ..e });
    }

    /// Records a delivered intermediate chunk of type `msg_type` in the
    /// stream with id `id`: the id and type are kept, the index advances
    /// (saturating) and the stream is active.
    pub fn advance_stream(&mut self, chat_id: &str, msg_type: i64, id: String)
        ensures
            final(self).c2c_stream_state.view() == old(self).c2c_stream_state.view().insert(
                chat_id@,
                advanced_stream(stream_entry(old(self).c2c_stream_state.view(), chat_id@), msg_type, id),
            ),
            final(self).config == old(self).config,
            final(self).turn_metadata == old(self).turn_metadata,
            final(self).progress_state == old(self).progress_state,
            final(self).ws_state == old(self).ws_state,
            final(self).access_token == old(self).access_token,
            final(self).notice_state == old(self).notice_state,
    {
        let key = chat_id.to_owned();
        let e = match self.c2c_stream_state.take(&key) {
            Some(e) => e,
            None => C2cStreamState::default(),
        };
        let next = C2cStreamState {
            id: Some(id),
            index: e.index.saturating_add(1),
            active: true,
            msg_type: Some(msg_type),
        };
        self.c2c_stream_state.insert(key, next);
    }

    /// Records a delivered final chunk: the stream and progress state of
    /// the chat are dropped, and its metadata too unless a stream-end
    /// notice will still show it.
    pub fn end_stream(&mut self, chat_id: &str)
        ensures
            final(self).c2c_stream_state.view() == old(self).c2c_stream_state.view().remove(
                chat_id@,
            ),
            final(self).progress_state.view() == old(self).progress_state.view().remove(chat_id@),
            final(self).turn_metadata.view() == (if old(self).config.notify_on_stream_end {
                old(self).turn_metadata.view()
            } else {
                old(self).turn_metadata.view().remove(chat_id@)
            }),
            final(self).config == old(self).config,
            final(self).ws_state == old(self).ws_state,
            final(self).access_token == old(self).access_token,
            final(self).notice_state == old(self).notice_state,
    {
        self.clear_stream_progress_state(chat_id);
        if !self.config.notify_on_stream_end {
            self.clear_metadata_state(chat_id);
        }
    }

    /// Records a delivered chunk of type `msg_type`; an intermediate chunk
    /// takes the stream id from the response, or a fresh one when the
    /// response has none.
    pub fn complete_stream_chunk(
        &mut self,
        chat_id: &str,
        final_chunk: bool,
        msg_type: i64,
        response_id: Option<String>,
    )
        ensures
            final_chunk ==> {
                &&& final(self).c2c_stream_state.view() == old(self).c2c_stream_state.view().remove(
                    chat_id@,
                )
                &&& final(self).progress_state.view() == old(self).progress_state.view().remove(
                    chat_id@,
                )
                &&& final(self).turn_metadata.view() == (if old(self).config.notify_on_stream_end {
                    old(self).turn_metadata.view()
                } else {
                    old(self).turn_metadata.view().remove(chat_id@)
                })
            },
            !final_chunk ==> exists|id: String|
                #![trigger advanced_stream(stream_entry(old(self).c2c_stream_state.view(), chat_id@), msg_type, id)]
                {
                    &&& (response_id matches Some(rid) ==> id == rid)
                    &&& (response_id is None ==> id@.len() == 36)
                    &&& final(self).c2c_stream_state.view() == old(
                        self,
                    ).c2c_stream_state.view().insert(
                        chat_id@,
                        advanced_stream(
                            stream_entry(old(self).c2c_stream_state.view(), chat_id@),
                            msg_type,
                            id,
                        ),
                    )
                },
            !final_chunk ==> final(self).progress_state == old(self).progress_state
                && final(self).turn_metadata == old(self).turn_metadata,
            final(self).config == old(self).config,
            final(self).ws_state == old(self).ws_state,
            final(self).access_token == old(self).access_token,
            final(self).notice_state == old(self).notice_state,
    {
        if final_chunk {
            self.end_stream(chat_id);
        } else {
            let id = match response_id {
                Some(i) => i,
                None => new_stream_id(),
            };
            let ghost g = id;
            self.advance_stream(chat_id, msg_type, id);
            assert(response_id matches Some(rid) ==> g == rid);
            assert(response_id is None ==> g@.len() == 36);
            assert(self.c2c_stream_state.view() == old(self).c2c_stream_state.view().insert(
                chat_id@,
                advanced_stream(stream_entry(old(self).c2c_stream_state.view(), chat_id@), msg_type, g),
            ));
        }
    }
}

} // verus!
