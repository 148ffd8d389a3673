//! The adapter's state and the decisions it takes on it: construction,
//! the access-token cache, chat classification, message sequence numbers,
//! reconnect backoff, and per-chat state housekeeping.

use crate::chat_map::ChatMap;
use crate::config::{GatewayError, QqBotConfig};
use crate::state::{C2cStreamState, ProgressState, QqWsState, StreamNoticeState, TurnMetadata};
use crate::text::{blank, chars_of, has_prefix, is_blank, lower, lowered, starts_with, trim, trimmed};
use vstd::prelude::*;
use vstd::wrapping::i64_specs;

verus! {

/// Most chats tracked per map before `maintenance_prune` drops them all.
pub const MAX_TRACKED_CHATS: usize = 512;

/// Reconnect delay after a clean disconnect, and the first delay.
pub const INITIAL_BACKOFF_MS: u64 = 2000;

/// Longest reconnect delay.
pub const MAX_BACKOFF_MS: u64 = 60000;

/// Token lifetime assumed when the token endpoint does not give one, in seconds.
pub const DEFAULT_TOKEN_LIFETIME_SECS: u64 = 7200;

/// Seconds before the announced expiry at which a token is no longer used.
pub const TOKEN_EXPIRY_MARGIN_SECS: u64 = 60;

/// State of one QQ Bot adapter.
pub struct QqBotAdapter {
    /// The configuration it was built with.
    pub config: QqBotConfig,
    /// Cached access token and the instant it stops being used.
    pub access_token: Option<(String, u64)>,
    /// Gateway session state.
    pub ws_state: QqWsState,
    /// Native stream state per chat.
    pub c2c_stream_state: ChatMap<C2cStreamState>,
    /// Turn metadata per chat.
    pub turn_metadata: ChatMap<TurnMetadata>,
    /// Progress-card state per chat.
    pub progress_state: ChatMap<ProgressState>,
    /// Stream-end notice rate limiting.
    pub notice_state: StreamNoticeState,
}

/// Whether a chat id names a group chat: its trimmed, ASCII lower-cased
/// form starts with `group_`, `grp_` or `qqgroup_`.
pub open spec fn is_group_chat(chat_id: Seq<char>) -> bool {
    let id = lower(trim(chat_id));
    starts_with(id, "group_"@) || starts_with(id, "grp_"@) || starts_with(id, "qqgroup_"@)
}

/// Rolling hash of the seed bytes: `acc * 31 + byte`, wrapping in `i64`.
pub open spec fn seed_salt(bytes: Seq<u8>) -> i64
    decreases bytes.len(),
{
    if bytes.len() == 0 {
        0
    } else {
        i64_specs::wrapping_add(
            i64_specs::wrapping_mul(seed_salt(bytes.drop_last()), 31),
            bytes.last() as i64,
        )
    }
}

/// Message sequence number for a clock reading `base` and a seed text:
/// `(base + salt)` wrapping, reduced modulo 65535, and at least 1.
pub open spec fn msg_seq_value(base: i64, seed: Seq<char>) -> i64 {
    let r = (i64_specs::wrapping_add(base, seed_salt(vstd::utf8::encode_utf8(seed))) as int)
        % 65535;
    if r < 1 {
        1
    } else {
        r as i64
    }
}

/// Instant at which a token fetched at `now`, announced to live
/// `expires_in` seconds, stops being used: the margin before its expiry is
/// cut off, and the sum saturates at `u64::MAX`.
pub open spec fn token_expiry(now: u64, expires_in: Option<u64>) -> u64 {
    let secs = match expires_in {
        Some(e) => e,
        None => DEFAULT_TOKEN_LIFETIME_SECS,
    };
    let usable = if secs > TOKEN_EXPIRY_MARGIN_SECS {
        secs - TOKEN_EXPIRY_MARGIN_SECS
    } else {
        0
    };
    let t = now + usable * 1000;
    if t > u64::MAX {
        u64::MAX
    } else {
        t as u64
    }
}

/// The token usable at instant `now` from the cache `cache`.
pub open spec fn token_at(cache: Option<(String, u64)>, now: u64) -> Option<String> {
    match cache {
        Some((t, exp)) => if now < exp {
            Some(t)
        } else {
            None
        },
        None => None,
    }
}

/// Reconnect delay after a connection attempt that ended with `succeeded`.
pub open spec fn backoff_after(current: u64, succeeded: bool) -> u64 {
    if succeeded {
        INITIAL_BACKOFF_MS
    } else if 2 * current < MAX_BACKOFF_MS {
        (2 * current) as u64
    } else {
        MAX_BACKOFF_MS
    }
}

/// The current time in milliseconds since the Unix epoch
/// (`chrono::Utc::now().timestamp_millis()`); the clock is read, so
/// nothing is promised of the value.
#[verifier::external_body]
fn utc_now_millis() -> i64 {
    chrono::Utc::now().timestamp_millis()
}

/// A `String` with the text of a literal.
pub fn owned(s: &str) -> (r: String)
    ensures
        r@ == s@,
{
    s.to_owned()
}

impl QqBotAdapter {
    /// Whether the adapter holds no per-chat or session state yet.
    pub open spec fn is_fresh(&self) -> bool {
        &&& self.access_token is None
        &&& self.ws_state.session_id is None
        &&& self.ws_state.last_seq is None
        &&& self.c2c_stream_state.view() == Map::<Seq<char>, C2cStreamState>::empty()
        &&& self.turn_metadata.view() == Map::<Seq<char>, TurnMetadata>::empty()
        &&& self.progress_state.view() == Map::<Seq<char>, ProgressState>::empty()
        &&& self.notice_state.last_sent is None
        &&& self.notice_state.recent_sent@.len() == 0
    }

    /// Builds the adapter state; the app id and the client secret must
    /// both be non-blank.
    pub fn new(config: QqBotConfig) -> (r: Result<QqBotAdapter, GatewayError>)
        ensures
            is_blank(config.app_id@) ==> (r matches Err(GatewayError::Platform(m))
                && m@ == "QQBot requires app_id (platforms.qqbot.extra.app_id)"@),
            !is_blank(config.app_id@) && is_blank(config.client_secret@) ==> (r matches Err(
                GatewayError::Platform(m),
            ) && m@ == "QQBot requires client_secret (platforms.qqbot.extra.client_secret)"@),
            !is_blank(config.app_id@) && !is_blank(config.client_secret@) ==> (r matches Ok(a)
                && a.config == config && a.is_fresh()),
    {
        if blank(&chars_of(config.app_id.as_str())) {
            return Err(
                GatewayError::Platform(owned("QQBot requires app_id (platforms.qqbot.extra.app_id)")),
            );
        }
        if blank(&chars_of(config.client_secret.as_str())) {
            return Err(
                GatewayError::Platform(
                    owned("QQBot requires client_secret (platforms.qqbot.extra.client_secret)"),
                ),
            );
        }
        Ok(
            QqBotAdapter {
                config,
                access_token: None,
                ws_state: QqWsState::default(),
                c2c_stream_state: ChatMap::new(),
                turn_metadata: ChatMap::new(),
                progress_state: ChatMap::new(),
                notice_state: StreamNoticeState::default(),
            },
        )
    }

    /// The cached access token, if one is held and `now` is before its expiry.
    pub fn cached_token(&self, now: u64) -> (r: Option<String>)
        ensures
            r == token_at(self.access_token, now),
    {
        match &self.access_token {
            Some((tok, exp)) => {
                if now < *exp {
                    Some(tok.clone())
                } else {
                    None
                }
            },
            None => None,
        }
    }

    /// Takes the token endpoint's answer at instant `now`: a non-blank
    /// `access_token` is cached until its expiry less a margin and
    /// returned; otherwise the answer is refused and the cache is unchanged.
    pub fn store_token(&mut self, now: u64, access_token: Option<String>, expires_in: Option<u64>) -> (r:
        Result<String, GatewayError>)
        ensures
            match access_token {
                Some(t) if !is_blank(t@) => {
                    &&& r == Ok::<String, GatewayError>(t)
                    &&& final(self).access_token == Some((t, token_expiry(now, expires_in)))
                },
                _ => {
                    &&& r matches Err(GatewayError::Auth(m))
                    &&& m@ == "QQBot token response missing access_token"@
                    &&& final(self).access_token == old(self).access_token
                },
            },
            final(self).config == old(self).config,
            final(self).ws_state == old(self).ws_state,
            final(self).c2c_stream_state == old(self).c2c_stream_state,
            final(self).turn_metadata == old(self).turn_metadata,
            final(self).progress_state == old(self).progress_state,
            final(self).notice_state == old(self).notice_state,
    {
        let missing = GatewayError::Auth(owned("QQBot token response missing access_token"));
        match access_token {
            Some(t) => {
                if blank(&chars_of(t.as_str())) {
                    return Err(missing);
                }
                let secs = match expires_in {
                    Some(e) => e,
                    None => DEFAULT_TOKEN_LIFETIME_SECS,
                };
                let usable = secs.saturating_sub(TOKEN_EXPIRY_MARGIN_SECS);
                let expiry = match usable.checked_mul(1000) {
                    Some(ms) => now.saturating_add(ms),
                    None => u64::MAX,
                };
                self.access_token = Some((t.clone(), expiry));
                Ok(t)
            },
            None => Err(missing),
        }
    }

    /// Whether `chat_id` names a group chat.
    pub fn looks_like_group_chat(chat_id: &str) -> (r: bool)
        ensures
            r == is_group_chat(chat_id@),
    {
        let id = lowered(&trimmed(&chars_of(chat_id)));
        has_prefix(&id, &chars_of("group_")) || has_prefix(&id, &chars_of("grp_")) || has_prefix(
            &id,
            &chars_of("qqgroup_"),
        )
    }

    /// Message sequence number for clock reading `base` and `seed`.
    pub fn msg_seq_for(base: i64, seed: &str) -> (r: i64)
        ensures
            r == msg_seq_value(base, seed@),
            1 <= r < 65535,
    {
        let bytes = seed.as_bytes();
        let ghost bs = bytes@;
        let mut salt: i64 = 0;
        let mut i: usize = 0;
        while i < bytes.len()
            invariant
                i <= bs.len(),
                bs == bytes@,
                bs == vstd::utf8::encode_utf8(seed@),
                salt == seed_salt(bs.take(i as int)),
            decreases bytes.len() - i,
        {
            let b = bytes[i];
            proof {
                assert(bs.take(i + 1).drop_last() == bs.take(i as int));
            }
            salt = salt.wrapping_mul(31).wrapping_add(b as i64);
            i = i + 1;
        }
        assert(bs.take(bs.len() as int) == bs);
        let sum = base.wrapping_add(salt);
        let m: i64 = match sum.checked_rem_euclid(65535) {
            Some(v) => v,
            None => 0,
        };
        if m < 1 {
            1
        } else {
            m
        }
    }

    /// A fresh message sequence number for replies to `seed`, derived from
    /// the wall clock.
    pub fn next_msg_seq(seed: &str) -> (r: i64)
        ensures
            1 <= r < 65535,
            exists|base: i64| r == msg_seq_value(base, seed@),
    {
        let base = utc_now_millis();
        Self::msg_seq_for(base, seed)
    }

    /// Reconnect delay after a connection attempt.
    pub fn next_backoff_ms(current: u64, succeeded: bool) -> (r: u64)
        ensures
            r == backoff_after(current, succeeded),
    {
        if succeeded {
            INITIAL_BACKOFF_MS
        } else {
            if current < MAX_BACKOFF_MS / 2 {
                current * 2
            } else {
                MAX_BACKOFF_MS
            }
        }
    }

    /// The gateway url from the gateway endpoint's answer.
    pub fn gateway_url_from(url: Option<String>) -> (r: Result<String, GatewayError>)
        ensures
            match url {
                Some(u) if !is_blank(u@) => r == Ok::<String, GatewayError>(u),
                _ => r matches Err(GatewayError::ConnectionFailed(m)) && m@
                    == "QQ gateway response missing url"@,
            },
    {
        match url {
            Some(u) => {
                if blank(&chars_of(u.as_str())) {
                    Err(GatewayError::ConnectionFailed(owned("QQ gateway response missing url")))
                } else {
                    Ok(u)
                }
            },
            None => Err(GatewayError::ConnectionFailed(owned("QQ gateway response missing url"))),
        }
    }
}

} // verus!
