//! The metadata footer appended to final replies.

use crate::adapter::QqBotAdapter;
use crate::state::TurnMetadata;
use crate::text::{blank, chars_of, decimal, decimal_of, extend_chars, is_blank, string_from};
use vstd::prelude::*;

verus! {

/// `parts` joined with `sep` between consecutive parts.
pub open spec fn join(parts: Seq<Seq<char>>, sep: Seq<char>) -> Seq<char>
    decreases parts.len(),
{
    if parts.len() == 0 {
        Seq::empty()
    } else if parts.len() == 1 {
        parts[0]
    } else {
        join(parts.drop_last(), sep) + sep + parts.last()
    }
}

/// `label` followed by the text, when the text is present and not blank.
pub open spec fn text_part(label: Seq<char>, v: Option<String>) -> Seq<Seq<char>> {
    match v {
        Some(x) => if !is_blank(x@) {
            seq![label + x@]
        } else {
            Seq::empty()
        },
        None => Seq::empty(),
    }
}

/// The footer's parts, in order: model, provider, time to first token,
/// total time, and the tool count when it is positive.
pub open spec fn footer_parts(m: TurnMetadata) -> Seq<Seq<char>> {
    let ttft = match m.ttft_ms {
        Some(t) => seq!["ttft "@ + decimal(t as nat) + "ms"@],
        None => Seq::empty(),
    };
    let total = match m.total_secs {
        Some(t) => seq!["time "@ + t@ + "s"@],
        None => Seq::empty(),
    };
    let tools = match m.tool_count {
        Some(n) => if n > 0 {
            seq!["tools "@ + decimal(n as nat)]
        } else {
            Seq::empty()
        },
        None => Seq::empty(),
    };
    text_part("model "@, m.model) + text_part("provider "@, m.provider) + ttft + total + tools
}

/// The footer for a chat whose turn metadata is `meta`: empty when footers
/// are off, no metadata is held, or no part applies; otherwise a rule line
/// followed by the parts joined with ` | ` in backquotes.
pub open spec fn footer_text(enabled: bool, meta: Option<TurnMetadata>) -> Seq<char> {
    if !enabled {
        Seq::empty()
    } else {
        match meta {
            None => Seq::empty(),
            Some(m) => {
                let ps = footer_parts(m);
                if ps.len() == 0 {
                    Seq::empty()
                } else {
                    "\n\n---\n`"@ + join(ps, " | "@) + "`"@
                }
            },
        }
    }
}

/// The metadata stored for `chat`, if any.
pub open spec fn meta_for(m: Map<Seq<char>, TurnMetadata>, chat: Seq<char>) -> Option<
    TurnMetadata,
> {
    if m.contains_key(chat) {
        Some(m[chat])
    } else {
        None
    }
}

/// The text of each part.
pub open spec fn part_views(parts: Seq<Vec<char>>) -> Seq<Seq<char>> {
    parts.map_values(|p: Vec<char>| p@)
}

/// `parts` joined with `sep`.
pub fn join_chars(parts: &Vec<Vec<char>>, sep: &Vec<char>) -> (r: Vec<char>)
    ensures
        r@ == join(part_views(parts@), sep@),
{
    let ghost pv = part_views(parts@);
    let mut out: Vec<char> = Vec::new();
    let mut i: usize = 0;
    while i < parts.len()
        invariant
            i <= parts@.len(),
            pv == part_views(parts@),
            out@ == join(pv.take(i as int), sep@),
        decreases parts.len() - i,
    {
        proof {
            assert(pv.take(i + 1).drop_last() == pv.take(i as int));
        }
        if i > 0 {
            extend_chars(&mut out, sep);
        }
        extend_chars(&mut out, &parts[i]);
        proof {
            if i == 0 {
                assert(out@ == pv.take(1)[0]);
            }
        }
        i = i + 1;
    }
    assert(pv.take(parts@.len() as int) == pv);
    out
}

/// Appends `label + text` to `parts` when the text is present and not blank.
fn push_text_part(parts: &mut Vec<Vec<char>>, label: &str, v: &Option<String>)
    ensures
        part_views(final(parts)@) == part_views(old(parts)@) + text_part(label@, *v),
{
    let ghost before = part_views(parts@);
    match v {
        Some(x) => {
            let xs = chars_of(x.as_str());
            if !blank(&xs) {
                let mut p = chars_of(label);
                extend_chars(&mut p, &xs);
                parts.push(p);
                assert(part_views(parts@) == before.push(label@ + x@));
            } else {
                assert(part_views(parts@) == before);
            }
        },
        None => {
            assert(part_views(parts@) == before);
        },
    }
}

/// The footer parts for `m`.
pub fn footer_parts_of(m: &TurnMetadata) -> (r: Vec<Vec<char>>)
    ensures
        part_views(r@) == footer_parts(*m),
{
    let mut parts: Vec<Vec<char>> = Vec::new();
    assert(part_views(parts@) == Seq::<Seq<char>>::empty());
    push_text_part(&mut parts, "model ", &m.model);
    push_text_part(&mut parts, "provider ", &m.provider);
    let ghost a = part_views(parts@);
    match m.ttft_ms {
        Some(t) => {
            let mut p = chars_of("ttft ");
            extend_chars(&mut p, &decimal_of(t));
            extend_chars(&mut p, &chars_of("ms"));
            parts.push(p);
            assert(part_views(parts@) == a.push("ttft "@ + decimal(t as nat) + "ms"@));
        },
        None => {},
    }
    let ghost b = part_views(parts@);
    match &m.total_secs {
        Some(t) => {
            let mut p = chars_of("time ");
            extend_chars(&mut p, &chars_of(t.as_str()));
            extend_chars(&mut p, &chars_of("s"));
            parts.push(p);
            assert(part_views(parts@) == b.push("time "@ + t@ + "s"@));
        },
        None => {},
    }
    let ghost c = part_views(parts@);
    match m.tool_count {
        Some(n) => {
            if n > 0 {
                let mut p = chars_of("tools ");
                extend_chars(&mut p, &decimal_of(n));
                parts.push(p);
                assert(part_views(parts@) == c.push("tools "@ + decimal(n as nat)));
            }
        },
        None => {},
    }
    parts
}

/// The footer text for metadata `meta` when footers are `enabled`.
pub fn footer_for(enabled: bool, meta: Option<&TurnMetadata>) -> (r: Vec<char>)
    ensures
        r@ == footer_text(
            enabled,
            match meta {
                Some(m) => Some(*m),
                None => None,
            },
        ),
{
    if !enabled {
        return Vec::new();
    }
    match meta {
        None => Vec::new(),
        Some(m) => {
            let parts = footer_parts_of(m);
            if parts.len() == 0 {
                Vec::new()
            } else {
                let mut out = chars_of("\n\n---\n`");
                extend_chars(&mut out, &join_chars(&parts, &chars_of(" | ")));
                extend_chars(&mut out, &chars_of("`"));
                out
            }
        },
    }
}

impl QqBotAdapter {
    /// The footer for `chat_id`'s current turn.
    pub fn footer_chars(&self, chat_id: &String) -> (r: Vec<char>)
        ensures
            r@ == footer_text(
                self.config.metadata_footer,
                meta_for(self.turn_metadata.view(), chat_id@),
            ),
    {
        footer_for(self.config.metadata_footer, self.turn_metadata.get(chat_id))
    }

    /// The metadata footer for `chat_id`'s current turn, or an empty string.
    pub fn format_metadata_footer(&self, chat_id: &str) -> (r: String)
        ensures
            r@ == footer_text(
                self.config.metadata_footer,
                meta_for(self.turn_metadata.view(), chat_id@),
            ),
    {
        let key = chat_id.to_owned();
        string_from(&self.footer_chars(&key))
    }
}

} // verus!
