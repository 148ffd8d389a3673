//! Per-connection and per-chat state the adapter keeps between calls.
//! Instants are milliseconds on a monotonic clock chosen by the caller.

use vstd::prelude::*;

verus! {

/// Websocket session state used to resume a dropped connection.
#[derive(Debug, Clone)]
pub struct QqWsState {
    /// Session id announced by the `READY` event.
    pub session_id: Option<String>,
    /// Last sequence number seen on the gateway.
    pub last_seq: Option<i64>,
}

impl Default for QqWsState {
    fn default() -> (r: Self)
        ensures
            r.session_id is None,
            r.last_seq is None,
    {
        QqWsState { session_id: None, last_seq: None }
    }
}

/// State of a native C2C stream towards one chat.
#[derive(Debug, Clone)]
pub struct C2cStreamState {
    /// Stream id assigned by the first chunk's response.
    pub id: Option<String>,
    /// Index of the next chunk.
    pub index: u64,
    /// Whether a chunk of this stream has been delivered.
    pub active: bool,
    /// Message type the stream is locked to (0 plain, 2 markdown).
    pub msg_type: Option<i64>,
}

/// Whether a stream state is the initial one.
pub open spec fn stream_is_fresh(s: C2cStreamState) -> bool {
    &&& s.id is None
    &&& s.index == 0
    &&& !s.active
    &&& s.msg_type is None
}

impl Default for C2cStreamState {
    fn default() -> (r: Self)
        ensures
            stream_is_fresh(r),
    {
        C2cStreamState { id: None, index: 0, active: false, msg_type: None }
    }
}

/// Progress-card bookkeeping for one chat turn.
#[derive(Debug, Clone)]
pub struct ProgressState {
    /// Number of progress cards sent this turn.
    pub sent_count: usize,
    /// Number of progress lines already consumed.
    pub last_sent_idx: usize,
    /// Last line sent, to drop immediate repeats.
    pub last_line: Option<String>,
}

/// Whether a progress state is the initial one.
pub open spec fn progress_is_fresh(p: ProgressState) -> bool {
    &&& p.sent_count == 0
    &&& p.last_sent_idx == 0
    &&& p.last_line is None
}

impl Default for ProgressState {
    fn default() -> (r: Self)
        ensures
            progress_is_fresh(r),
    {
        ProgressState { sent_count: 0, last_sent_idx: 0, last_line: None }
    }
}

/// Rate-limiting state for stream-end notices.
#[derive(Debug, Clone)]
pub struct StreamNoticeState {
    /// When the last notice was sent.
    pub last_sent: Option<u64>,
    /// When recent notices were sent, oldest first.
    pub recent_sent: Vec<u64>,
}

impl Default for StreamNoticeState {
    fn default() -> (r: Self)
        ensures
            r.last_sent is None,
            r.recent_sent@.len() == 0,
    {
        StreamNoticeState { last_sent: None, recent_sent: Vec::new() }
    }
}

/// Per-turn metadata shown in the reply footer.
#[derive(Debug, Clone)]
pub struct TurnMetadata {
    /// Model that produced the reply.
    pub model: Option<String>,
    /// Provider that served the model.
    pub provider: Option<String>,
    /// Time to first token, in milliseconds.
    pub ttft_ms: Option<u64>,
    /// Total turn time in seconds, already rendered with one decimal.
    pub total_secs: Option<String>,
    /// Number of tool calls made during the turn.
    pub tool_count: Option<u64>,
}

} // verus!
