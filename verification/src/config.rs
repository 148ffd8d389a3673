//! Adapter configuration, its defaults, and the gateway error type.

use vstd::prelude::*;

verus! {

/// Errors the adapter reports to the gateway.
#[derive(Debug, Clone)]
pub enum GatewayError {
    /// The platform itself is misconfigured or sent something unusable.
    Platform(String),
    /// Obtaining an access token failed.
    Auth(String),
    /// Sending a message failed.
    SendFailed(String),
    /// The gateway connection failed or must be re-established.
    ConnectionFailed(String),
}

/// Configuration of the QQ Bot adapter.
#[derive(Debug, Clone)]
pub struct QqBotConfig {
    /// Bot application id.
    pub app_id: String,
    /// Bot client secret.
    pub client_secret: String,
    /// Send replies as markdown (`msg_type` 2) rather than plain text.
    pub markdown_support: bool,
    /// Use the native C2C streaming protocol for direct chats.
    pub c2c_streaming: bool,
    /// Coalesce tool progress lines into progress cards.
    pub progress_coalesce: bool,
    /// Append a model/provider/timing footer to final replies.
    pub metadata_footer: bool,
    /// Send a short notice when a stream ends.
    pub notify_on_stream_end: bool,
    /// Most progress cards sent per chat turn.
    pub max_progress_messages: usize,
}

/// Default for the boolean options that are on unless configured off.
pub fn default_true() -> (r: bool)
    ensures
        r == true,
{
    true
}

/// Default number of progress cards per turn.
pub fn default_max_progress_messages() -> (r: usize)
    ensures
        r == 2,
{
    2
}

impl QqBotConfig {
    /// A configuration with the given credentials and every other option
    /// at its default: markdown off, streaming, progress coalescing,
    /// metadata footer and stream-end notices on, two progress cards.
    pub fn new(app_id: String, client_secret: String) -> (r: QqBotConfig)
        ensures
            r.app_id == app_id,
            r.client_secret == client_secret,
            !r.markdown_support,
            r.c2c_streaming,
            r.progress_coalesce,
            r.metadata_footer,
            r.notify_on_stream_end,
            r.max_progress_messages == 2,
    {
        QqBotConfig {
            app_id,
            client_secret,
            markdown_support: false,
            c2c_streaming: default_true(),
            progress_coalesce: default_true(),
            metadata_footer: default_true(),
            notify_on_stream_end: default_true(),
            max_progress_messages: default_max_progress_messages(),
        }
    }
}

} // verus!
