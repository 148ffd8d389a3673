//! Properties of what the adapter writes, stated over all inputs: which
//! parts a footer shows, which progress lines a card carries, how much of
//! a reply a stream chunk carries, and how chat ids are classified.

use crate::adapter::is_group_chat;
use crate::footer::{footer_parts, footer_text, join};
use crate::progress::{progress_body, progress_scan};
use crate::state::TurnMetadata;
use crate::stream::{chunk_text, STREAM_CHUNK_CHARS};
use crate::text::{contains, decimal, is_blank, is_ws, lower, lower_char, occurs_at, starts_with, trim, trim_end, trim_start};
use vstd::prelude::*;

verus! {

proof fn lemma_occurs_in_prefix(a: Seq<char>, b: Seq<char>, p: Seq<char>, k: int)
    requires
        occurs_at(a, p, k),
    ensures
        occurs_at(a + b, p, k),
{
    assert((a + b).subrange(k, k + p.len()) == a.subrange(k, k + p.len()));
}

proof fn lemma_occurs_in_suffix(a: Seq<char>, b: Seq<char>, p: Seq<char>, k: int)
    requires
        occurs_at(b, p, k),
    ensures
        occurs_at(a + b, p, k + a.len()),
{
    assert((a + b).subrange(k + a.len(), k + a.len() + p.len()) == b.subrange(k, k + p.len()));
}

/// Every part occurs in the parts joined with a separator.
proof fn lemma_join_contains(parts: Seq<Seq<char>>, sep: Seq<char>, i: int)
    requires
        0 <= i < parts.len(),
    ensures
        contains(join(parts, sep), parts[i]),
    decreases parts.len(),
{
    let j = join(parts, sep);
    if parts.len() == 1 {
        assert(j.subrange(0, parts[0].len() as int) == parts[0]);
        assert(occurs_at(j, parts[i], 0));
    } else {
        let j0 = join(parts.drop_last(), sep);
        if i == parts.len() - 1 {
            assert(occurs_at(parts.last(), parts.last(), 0)) by {
                assert(parts.last().subrange(0, parts.last().len() as int) == parts.last());
            }
            lemma_occurs_in_suffix(j0 + sep, parts.last(), parts.last(), 0);
        } else {
            lemma_join_contains(parts.drop_last(), sep, i);
            let k = choose|k: int| occurs_at(j0, parts[i], k);
            lemma_occurs_in_prefix(j0, sep, parts[i], k);
            lemma_occurs_in_prefix(j0 + sep, parts.last(), parts[i], k);
        }
    }
}

/// Every part of a non-empty footer occurs in the footer text.
proof fn lemma_footer_shows_parts(m: TurnMetadata, i: int)
    requires
        0 <= i < footer_parts(m).len(),
    ensures
        contains(footer_text(true, Some(m)), footer_parts(m)[i]),
{
    let ps = footer_parts(m);
    lemma_join_contains(ps, " | "@, i);
    let j = join(ps, " | "@);
    let k = choose|k: int| occurs_at(j, ps[i], k);
    lemma_occurs_in_suffix("\n\n---\n`"@, j, ps[i], k);
    lemma_occurs_in_prefix("\n\n---\n`"@ + j, "`"@, ps[i], k + "\n\n---\n`"@.len());
}

/// Whether the metadata names a model worth showing.
pub open spec fn shows_model(m: TurnMetadata) -> bool {
    m.model matches Some(x) && !is_blank(x@)
}

/// A footer lists, in order: the model when it is named, the provider when
/// it is named, the time to first token, the total time, and the tool count
/// when it is positive; nothing else. In particular a named provider shows
/// as `provider p`, right after the model part and before the timing parts,
/// and occurs in the footer text.
pub proof fn law_footer_shows_provider(m: TurnMetadata, p: String)
    requires
        m.provider == Some(p),
        !is_blank(p@),
    ensures
        ({
            let ps = footer_parts(m);
            let k: int = if shows_model(m) { 1 } else { 0 };
            &&& shows_model(m) ==> ps[0] == "model "@ + m.model->0@
            &&& ps[k] == "provider "@ + p@
            &&& ps.len() == k + 1 + (if m.ttft_ms is Some { 1int } else { 0int }) + (
            if m.total_secs is Some {
                1int
            } else {
                0int
            }) + (if m.tool_count matches Some(n) && n > 0 {
                1int
            } else {
                0int
            })
            &&& (m.ttft_ms matches Some(t) ==> ps[k + 1] == "ttft "@ + decimal(t as nat) + "ms"@)
            &&& contains(footer_text(true, Some(m)), "provider "@ + p@)
        }),
{
    let ps = footer_parts(m);
    let k: int = if shows_model(m) { 1 } else { 0 };
    assert(ps[k] == "provider "@ + p@);
    lemma_footer_shows_parts(m, k);
}

/// A positive tool count `n` shows as the last part, `tools n`, and
/// occurs in the footer text; a zero or absent count shows no part
/// starting with `tools `.
pub proof fn law_footer_shows_tools(m: TurnMetadata)
    ensures
        m.tool_count matches Some(n) ==> (n > 0 ==> footer_parts(m).last() == "tools "@ + decimal(
            n as nat,
        ) && contains(footer_text(true, Some(m)), "tools "@ + decimal(n as nat))),
        !(m.tool_count matches Some(n) && n > 0) ==> forall|i: int|
            0 <= i < footer_parts(m).len() ==> !starts_with(#[trigger] footer_parts(m)[i], "tools "@),
{
    let ps = footer_parts(m);
    reveal_strlit("tools ");
    reveal_strlit("model ");
    reveal_strlit("provider ");
    reveal_strlit("ttft ");
    reveal_strlit("time ");
    if m.tool_count matches Some(n) && n > 0 {
        lemma_footer_shows_parts(m, ps.len() - 1);
    } else {
        assert forall|i: int| 0 <= i < ps.len() implies !starts_with(#[trigger] ps[i], "tools "@) by {
            if starts_with(ps[i], "tools "@) {
                assert(ps[i][0] == "tools "@[0]);
                assert(ps[i].take(6)[1] == 'o');
                assert(ps[i][1] == 'o');
            }
        }
    }
}

/// Whether the metadata names a provider worth showing.
pub open spec fn shows_provider(m: TurnMetadata) -> bool {
    m.provider matches Some(x) && !is_blank(x@)
}

/// A footer's parts are, in this order and with nothing else: `model x`
/// for a named model, `provider p` for a named provider, `ttft Nms` for a
/// time to first token, `time Ts` for a total time, and `tools n` for a
/// positive tool count. Every part occurs in the footer text; with footers
/// off, or no metadata, or no part, the footer is empty, and otherwise it
/// is not.
pub proof fn law_footer_layout(m: TurnMetadata)
    ensures
        ({
            let ps = footer_parts(m);
            let a: int = if shows_model(m) { 1 } else { 0 };
            let b: int = a + if shows_provider(m) { 1int } else { 0int };
            let c: int = b + if m.ttft_ms is Some { 1int } else { 0int };
            let d: int = c + if m.total_secs is Some { 1int } else { 0int };
            let e: int = d + if m.tool_count matches Some(n) && n > 0 { 1int } else { 0int };
            &&& ps.len() == e
            &&& (shows_model(m) ==> ps[0] == "model "@ + m.model->0@)
            &&& (shows_provider(m) ==> ps[a] == "provider "@ + m.provider->0@)
            &&& (m.ttft_ms matches Some(t) ==> ps[b] == "ttft "@ + decimal(t as nat) + "ms"@)
            &&& (m.total_secs matches Some(t) ==> ps[c] == "time "@ + t@ + "s"@)
            &&& (m.tool_count matches Some(n) ==> (n > 0 ==> ps[d] == "tools "@ + decimal(n as nat)))
            &&& forall|i: int| 0 <= i < ps.len() ==> contains(footer_text(true, Some(m)), #[trigger] ps[i])
            &&& (footer_text(true, Some(m)).len() == 0 <==> ps.len() == 0)
            &&& footer_text(false, Some(m)).len() == 0
            &&& footer_text(true, None).len() == 0
        }),
{
    let ps = footer_parts(m);
    reveal_strlit("`");
    assert("`"@.len() == 1);
    assert forall|i: int| 0 <= i < ps.len() implies contains(footer_text(true, Some(m)), #[trigger] ps[i]) by {
        lemma_footer_shows_parts(m, i);
    }
}

/// A progress card starts with `**Progress**` and a newline, and shows
/// every fresh line.
pub proof fn law_progress_body_shows_lines(fresh: Seq<Seq<char>>)
    ensures
        starts_with(progress_body(fresh), "**Progress**\n"@),
        forall|i: int| 0 <= i < fresh.len() ==> contains(progress_body(fresh), #[trigger] fresh[i]),
{
    let b = progress_body(fresh);
    assert(b.take("**Progress**\n"@.len() as int) == "**Progress**\n"@);
    assert forall|i: int| 0 <= i < fresh.len() implies contains(progress_body(fresh), #[trigger] fresh[i]) by {
        lemma_join_contains(fresh, "\n"@, i);
        let k = choose|k: int| occurs_at(join(fresh, "\n"@), fresh[i], k);
        lemma_occurs_in_suffix("**Progress**\n"@, join(fresh, "\n"@), fresh[i], k);
    }
}

/// Reading one more progress line: a blank line changes nothing sent; a
/// non-blank line is sent, trimmed, unless it equals the line sent just
/// before it, and in either case becomes the last line. So a line that
/// comes back after a different line is sent again.
pub proof fn law_progress_next_line(
    items: Seq<Seq<char>>,
    consumed: int,
    last: Option<Seq<char>>,
    line: Seq<char>,
)
    ensures
        ({
            let s = progress_scan(items, consumed, last);
            let s2 = progress_scan(items.push(line), consumed, last);
            let t = trim(line);
            &&& s2.consumed == s.consumed + 1
            &&& t.len() == 0 ==> s2.fresh == s.fresh && s2.last == s.last
            &&& t.len() > 0 && s.last != Some(t) ==> s2.fresh == s.fresh.push(t)
            &&& t.len() > 0 && s.last == Some(t) ==> s2.fresh == s.fresh
            &&& t.len() > 0 ==> s2.last == Some(t)
        }),
{
    assert(items.push(line).drop_last() == items);
}

/// Two different non-blank lines, then the first again, are all sent:
/// progress is deduplicated only against the line sent just before.
pub proof fn law_progress_recurring_line_sent(
    consumed: int,
    a: Seq<char>,
    b: Seq<char>,
)
    requires
        trim(a).len() > 0,
        trim(b).len() > 0,
        trim(a) != trim(b),
    ensures
        progress_scan(seq![a, b, a], consumed, None).fresh == seq![trim(a), trim(b), trim(a)],
{
    let s0 = Seq::<Seq<char>>::empty();
    law_progress_next_line(s0, consumed, None, a);
    law_progress_next_line(seq![a], consumed, None, b);
    law_progress_next_line(seq![a, b], consumed, None, a);
    assert(s0.push(a) == seq![a]);
    assert(seq![a].push(b) == seq![a, b]);
    assert(seq![a, b].push(a) == seq![a, b, a]);
}

/// Every stream chunk carries at most the first `STREAM_CHUNK_CHARS`
/// characters of the reply: an intermediate chunk is exactly that prefix;
/// a final chunk is that prefix (with trailing whitespace dropped when a
/// footer follows), then the footer, then a newline unless it already ends
/// with one.
pub proof fn law_chunk_carries_prefix(text: Seq<char>, final_chunk: bool, footer: Seq<char>)
    ensures
        ({
            let n: int = if text.len() <= STREAM_CHUNK_CHARS {
                text.len() as int
            } else {
                STREAM_CHUNK_CHARS as int
            };
            let prefix = text.take(n);
            let core = if footer.len() == 0 {
                prefix
            } else {
                trim_end(prefix) + footer
            };
            let c = chunk_text(text, final_chunk, footer);
            &&& !final_chunk ==> c == prefix
            &&& final_chunk ==> (c == core || c == core.push('\n'))
            &&& final_chunk ==> c.len() > 0 && (c.last() as u32) == 10
            &&& c.len() <= n + footer.len() + 1
        }),
{
    let n: int = if text.len() <= STREAM_CHUNK_CHARS {
        text.len() as int
    } else {
        STREAM_CHUNK_CHARS as int
    };
    assert(text.len() <= STREAM_CHUNK_CHARS ==> text.take(n) == text);
    lemma_trim_end_shorter(text.take(n));
}

proof fn lemma_trim_end_shorter(s: Seq<char>)
    ensures
        trim_end(s).len() <= s.len(),
    decreases s.len(),
{
    if s.len() > 0 && is_ws(s.last()) {
        lemma_trim_end_shorter(s.drop_last());
    }
}

proof fn lemma_lower_char_idempotent(c: char)
    ensures
        lower_char(lower_char(c)) == lower_char(c),
        is_ws(lower_char(c)) == is_ws(c),
{
    let u = c as u32;
    if 65 <= u <= 90 {
        let d = (u + 32) as char;
        assert((d as u32) == u + 32);
    }
}

proof fn lemma_trim_end_lower(s: Seq<char>)
    ensures
        trim_end(lower(s)) == lower(trim_end(s)),
    decreases s.len(),
{
    if s.len() > 0 {
        lemma_lower_char_idempotent(s.last());
        assert(lower(s).drop_last() == lower(s.drop_last()));
        lemma_trim_end_lower(s.drop_last());
    } else {
        assert(lower(s) == s);
    }
}

proof fn lemma_trim_start_lower(s: Seq<char>)
    ensures
        trim_start(lower(s)) == lower(trim_start(s)),
    decreases s.len(),
{
    if s.len() > 0 {
        lemma_lower_char_idempotent(s[0]);
        assert(lower(s).drop_first() == lower(s.drop_first()));
        lemma_trim_start_lower(s.drop_first());
    } else {
        assert(lower(s) == s);
    }
}

/// Group detection ignores ASCII letter case: a chat id and its ASCII
/// lower-cased form are classified alike, so any two ids that differ only
/// in the case of ASCII letters are.
pub proof fn law_group_detection_ignores_case(chat_id: Seq<char>, other: Seq<char>)
    ensures
        is_group_chat(lower(chat_id)) == is_group_chat(chat_id),
        lower(chat_id) == lower(other) ==> is_group_chat(chat_id) == is_group_chat(other),
{
    lemma_trim_end_lower(chat_id);
    lemma_trim_start_lower(trim_end(chat_id));
    let t = trim(chat_id);
    assert(trim(lower(chat_id)) == lower(t));
    assert forall|i: int| 0 <= i < t.len() implies lower(lower(t))[i] == lower(t)[i] by {
        lemma_lower_char_idempotent(t[i]);
    }
    assert(lower(lower(t)) == lower(t));
    lemma_trim_end_lower(other);
    lemma_trim_start_lower(trim_end(other));
    let t2 = trim(other);
    assert(trim(lower(other)) == lower(t2));
    assert forall|i: int| 0 <= i < t2.len() implies lower(lower(t2))[i] == lower(t2)[i] by {
        lemma_lower_char_idempotent(t2[i]);
    }
    assert(lower(lower(t2)) == lower(t2));
}

/// Every chat id whose trimmed form starts with `group_`, `grp_` or
/// `qqgroup_`, in any ASCII letter case, is a group chat.
pub proof fn law_group_prefixes(chat_id: Seq<char>)
    ensures
        starts_with(lower(trim(chat_id)), "group_"@) ==> is_group_chat(chat_id),
        starts_with(lower(trim(chat_id)), "grp_"@) ==> is_group_chat(chat_id),
        starts_with(lower(trim(chat_id)), "qqgroup_"@) ==> is_group_chat(chat_id),
{
}

} // verus!
