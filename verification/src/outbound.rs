//! Outgoing messages: endpoints, message bodies, plain text replies and
//! attachment captions, and the per-chat housekeeping done around them.

use crate::adapter::{owned, QqBotAdapter, MAX_TRACKED_CHATS};
use crate::footer::{footer_text, meta_for};
use crate::state::TurnMetadata;
use crate::text::{blank, chars_of, extend_chars, is_blank, string_from, trim_end, trimmed_end};
use vstd::prelude::*;

verus! {

/// The stream fields of a streamed chunk.
#[derive(Debug, Clone)]
pub struct StreamPayload {
    /// 1 for an intermediate chunk, 10 for the final one.
    pub state: i64,
    /// Index of this chunk in its stream.
    pub index: u64,
    /// Whether the stream restarts (never set).
    pub reset: bool,
    /// Stream id, once the first chunk assigned one.
    pub id: Option<String>,
}

/// Body of a message sent to the QQ API.
#[derive(Debug, Clone)]
pub struct MessageBody {
    /// Markdown (`msg_type` 2, text under `markdown.content`) or plain
    /// text (`msg_type` 0, text under `content`).
    pub markdown: bool,
    /// The text.
    pub content: String,
    /// Message sequence number.
    pub msg_seq: i64,
    /// Stream fields, for native stream chunks.
    pub stream: Option<StreamPayload>,
    /// Message replied to.
    pub msg_id: Option<String>,
}

/// A message to post: where, and what.
#[derive(Debug, Clone)]
pub struct OutgoingMessage {
    /// Full URL of the messages endpoint.
    pub endpoint: String,
    /// The body.
    pub body: MessageBody,
}

impl MessageBody {
    /// The QQ `msg_type` of the body: 2 for markdown, 0 for plain text.
    pub fn msg_type(&self) -> (r: i64)
        ensures
            r == (if self.markdown {
                2i64
            } else {
                0i64
            }),
    {
        if self.markdown {
            2
        } else {
            0
        }
    }
}

/// The messages endpoint for a chat: the group endpoint for group chats,
/// the user endpoint otherwise.
pub open spec fn endpoint_for(group: bool, chat: Seq<char>) -> Seq<char> {
    "https://api.sgroup.qq.com"@ + (if group {
        "/v2/groups/"@
    } else {
        "/v2/users/"@
    }) + chat + "/messages"@
}

/// The text with a footer appended: unchanged when the footer is empty,
/// otherwise its trailing whitespace is dropped and the footer follows.
pub open spec fn with_footer(text: Seq<char>, footer: Seq<char>) -> Seq<char> {
    if footer.len() == 0 {
        text
    } else {
        trim_end(text) + footer
    }
}

/// The caption of a file sent as text.
pub open spec fn attachment_caption(file_name: Seq<char>, caption: Option<Seq<char>>) -> Seq<char> {
    let head = "[Attachment: "@ + file_name + "]"@;
    match caption {
        Some(c) => if is_blank(c) {
            head
        } else {
            head + " "@ + c
        },
        None => head,
    }
}

/// The file name that `std::path::Path::file_name` gives for a path, as
/// text, when it has one that is valid UTF-8.
pub uninterp spec fn path_file_name(path: Seq<char>) -> Option<Seq<char>>;

/// The last component of `path` (`Path::file_name`, then `OsStr::to_str`);
/// the result is named by `path_file_name`.
#[verifier::external_body]
fn file_name_of(path: &str) -> (r: Option<String>)
    ensures
        match r {
            Some(n) => path_file_name(path@) == Some(n@),
            None => path_file_name(path@) is None,
        },
{
    match std::path::Path::new(path).file_name() {
        Some(n) => match n.to_str() {
            Some(t) => Some(t.to_owned()),
            None => None,
        },
        None => None,
    }
}

/// The messages endpoint for `chat_id`.
pub fn endpoint(group: bool, chat_id: &str) -> (r: String)
    ensures
        r@ == endpoint_for(group, chat_id@),
{
    let mut e = chars_of("https://api.sgroup.qq.com");
    if group {
        extend_chars(&mut e, &chars_of("/v2/groups/"));
    } else {
        extend_chars(&mut e, &chars_of("/v2/users/"));
    }
    extend_chars(&mut e, &chars_of(chat_id));
    extend_chars(&mut e, &chars_of("/messages"));
    string_from(&e)
}

/// `text` with `footer` appended as replies carry it.
pub fn footer_appended(text: &Vec<char>, footer: &Vec<char>) -> (r: Vec<char>)
    ensures
        r@ == with_footer(text@, footer@),
{
    if footer.len() == 0 {
        let mut out: Vec<char> = Vec::new();
        extend_chars(&mut out, text);
        out
    } else {
        let mut out = trimmed_end(text);
        extend_chars(&mut out, footer);
        out
    }
}

/// The text that stands for a file: its name in brackets, then the
/// caption when it is not blank.
pub fn attachment_label(file_name: &str, caption: Option<&str>) -> (r: String)
    ensures
        r@ == attachment_caption(
            file_name@,
            match caption {
                Some(c) => Some(c@),
                None => None,
            },
        ),
{
    let mut t = chars_of("[Attachment: ");
    extend_chars(&mut t, &chars_of(file_name));
    extend_chars(&mut t, &chars_of("]"));
    match caption {
        Some(c) => {
            let cs = chars_of(c);
            if !blank(&cs) {
                extend_chars(&mut t, &chars_of(" "));
                extend_chars(&mut t, &cs);
            }
        },
        None => {},
    }
    string_from(&t)
}

/// The text sent in place of the file at `file_path`: its file name, or
/// `file` when the path has none, with the caption.
pub fn attachment_text(file_path: &str, caption: Option<&str>) -> (r: String)
    ensures
        r@ == attachment_caption(
            match path_file_name(file_path@) {
                Some(n) => n,
                None => "file"@,
            },
            match caption {
                Some(c) => Some(c@),
                None => None,
            },
        ),
{
    match file_name_of(file_path) {
        Some(n) => attachment_label(n.as_str(), caption),
        None => attachment_label("file", caption),
    }
}

impl QqBotAdapter {
    /// The platform's name.
    pub fn platform_name(&self) -> (r: &'static str)
        ensures
            r@ == "qqbot"@,
    {
        "qqbot"
    }

    /// Whether replies to direct chats may be streamed natively.
    pub fn supports_native_streaming(&self) -> (r: bool)
        ensures
            r == self.config.c2c_streaming,
    {
        self.config.c2c_streaming
    }

    /// Whether progress can be shown without editing messages.
    pub fn supports_progress_without_edit(&self) -> (r: bool)
        ensures
            r == self.config.progress_coalesce,
    {
        self.config.progress_coalesce
    }

    /// A plain reply to `chat_id`: the group or user endpoint, the text
    /// with the turn's footer when `append_footer`, markdown as configured.
    pub fn text_message(&self, chat_id: &str, text: &str, append_footer: bool, msg_seq: i64) -> (r:
        OutgoingMessage)
        ensures
            r.endpoint@ == endpoint_for(crate::adapter::is_group_chat(chat_id@), chat_id@),
            r.body.content@ == with_footer(
                text@,
                if append_footer {
                    footer_text(
                        self.config.metadata_footer,
                        meta_for(self.turn_metadata.view(), chat_id@),
                    )
                } else {
                    Seq::empty()
                },
            ),
            r.body.markdown == self.config.markdown_support,
            r.body.msg_seq == msg_seq,
            r.body.stream is None,
            r.body.msg_id is None,
    {
        let group = Self::looks_like_group_chat(chat_id);
        let ep = endpoint(group, chat_id);
        let footer = if append_footer {
            self.footer_chars(&chat_id.to_owned())
        } else {
            Vec::new()
        };
        let content = footer_appended(&chars_of(text), &footer);
        OutgoingMessage {
            endpoint: ep,
            body: MessageBody {
                markdown: self.config.markdown_support,
                content: string_from(&content),
                msg_seq,
                stream: None,
                msg_id: None,
            },
        }
    }

    /// Records the metadata of `chat_id`'s current turn.
    pub fn set_turn_metadata(&mut self, chat_id: &str, meta: TurnMetadata)
        ensures
            final(self).turn_metadata.view() == old(self).turn_metadata.view().insert(chat_id@, meta),
            final(self).c2c_stream_state == old(self).c2c_stream_state,
            final(self).progress_state == old(self).progress_state,
            final(self).config == old(self).config,
    {
        self.turn_metadata.insert(chat_id.to_owned(), meta);
    }

    /// Forgets `chat_id`'s stream and progress state.
    pub fn clear_stream_progress_state(&mut self, chat_id: &str)
        ensures
            final(self).progress_state.view() == old(self).progress_state.view().remove(chat_id@),
            final(self).c2c_stream_state.view() == old(self).c2c_stream_state.view().remove(
                chat_id@,
            ),
            final(self).turn_metadata == old(self).turn_metadata,
            final(self).config == old(self).config,
            final(self).ws_state == old(self).ws_state,
            final(self).access_token == old(self).access_token,
            final(self).notice_state == old(self).notice_state,
    {
        let key = chat_id.to_owned();
        let _ = self.progress_state.take(&key);
        let _ = self.c2c_stream_state.take(&key);
    }

    /// Forgets `chat_id`'s turn metadata.
    pub fn clear_metadata_state(&mut self, chat_id: &str)
        ensures
            final(self).turn_metadata.view() == old(self).turn_metadata.view().remove(chat_id@),
            final(self).progress_state == old(self).progress_state,
            final(self).c2c_stream_state == old(self).c2c_stream_state,
            final(self).config == old(self).config,
            final(self).ws_state == old(self).ws_state,
            final(self).access_token == old(self).access_token,
            final(self).notice_state == old(self).notice_state,
    {
        let key = chat_id.to_owned();
        let _ = self.turn_metadata.take(&key);
    }

    /// Forgets everything held about `chat_id`'s turn.
    pub fn clear_turn_state(&mut self, chat_id: &str)
        ensures
            final(self).turn_metadata.view() == old(self).turn_metadata.view().remove(chat_id@),
            final(self).progress_state.view() == old(self).progress_state.view().remove(chat_id@),
            final(self).c2c_stream_state.view() == old(self).c2c_stream_state.view().remove(
                chat_id@,
            ),
            final(self).config == old(self).config,
            final(self).ws_state == old(self).ws_state,
            final(self).access_token == old(self).access_token,
            final(self).notice_state == old(self).notice_state,
    {
        self.clear_stream_progress_state(chat_id);
        self.clear_metadata_state(chat_id);
    }

    /// Drops a per-chat map entirely once it tracks more than
    /// `MAX_TRACKED_CHATS` chats.
    pub fn maintenance_prune(&mut self)
        ensures
            final(self).progress_state.view() == (if old(self).progress_state.view().len()
                > MAX_TRACKED_CHATS {
                Map::empty()
            } else {
                old(self).progress_state.view()
            }),
            final(self).c2c_stream_state.view() == (if old(self).c2c_stream_state.view().len()
                > MAX_TRACKED_CHATS {
                Map::empty()
            } else {
                old(self).c2c_stream_state.view()
            }),
            final(self).turn_metadata.view() == (if old(self).turn_metadata.view().len()
                > MAX_TRACKED_CHATS {
                Map::empty()
            } else {
                old(self).turn_metadata.view()
            }),
            final(self).progress_state.view().len() <= MAX_TRACKED_CHATS,
            final(self).c2c_stream_state.view().len() <= MAX_TRACKED_CHATS,
            final(self).turn_metadata.view().len() <= MAX_TRACKED_CHATS,
            final(self).config == old(self).config,
            final(self).ws_state == old(self).ws_state,
            final(self).access_token == old(self).access_token,
            final(self).notice_state == old(self).notice_state,
    {
        if self.progress_state.len() > MAX_TRACKED_CHATS {
            self.progress_state.clear();
        }
        if self.c2c_stream_state.len() > MAX_TRACKED_CHATS {
            self.c2c_stream_state.clear();
        }
        if self.turn_metadata.len() > MAX_TRACKED_CHATS {
            self.turn_metadata.clear();
        }
        proof {
            assert(Map::<Seq<char>, crate::state::ProgressState>::empty().len() == 0);
            assert(Map::<Seq<char>, crate::state::C2cStreamState>::empty().len() == 0);
            assert(Map::<Seq<char>, TurnMetadata>::empty().len() == 0);
        }
    }
}

} // verus!
