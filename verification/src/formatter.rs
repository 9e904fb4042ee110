//! Assembly of the outbound alert text. Nothing is reordered: the kinds
//! appear as they were detected.

use vstd::prelude::*;
use crate::location::Proximity;
use crate::threat_kind::ThreatKind;

verus! {

/// The longest part of a message that an alert repeats, in
/// characters.
pub const MAX_QUOTED_CHARS: usize = 3200;

/// Icon and label of one kind.
pub open spec fn kind_text(kind: ThreatKind) -> Seq<char> {
    kind.emoji_text() + " "@ + kind.label_text()
}

/// Icon and label of every kind, joined by " + ".
pub open spec fn threat_line(threats: Seq<ThreatKind>) -> Seq<char>
    decreases threats.len(),
{
    if threats.len() == 0 {
        Seq::empty()
    } else if threats.len() == 1 {
        kind_text(threats[0])
    } else {
        threat_line(threats.drop_last()) + " + "@ + kind_text(threats.last())
    }
}

/// The tag behind the header: the one for the whole country where it
/// applies, else the one of the level.
pub open spec fn scope_tag(proximity: Proximity, nationwide: bool) -> Seq<char> {
    if nationwide {
        "🟣 ВСЯ УКРАЇНА"@
    } else {
        proximity.tag_text()
    }
}

/// The header line: the subject, then the tag if there is one.
pub open spec fn header_line(subject: Seq<char>, tag: Seq<char>) -> Seq<char> {
    if tag.len() == 0 {
        subject + "\n"@
    } else {
        subject + " · "@ + tag + "\n"@
    }
}

/// The first [`MAX_QUOTED_CHARS`] characters of the message.
pub open spec fn quoted(text: Seq<char>) -> Seq<char> {
    if text.len() > MAX_QUOTED_CHARS {
        text.subrange(0, MAX_QUOTED_CHARS as int)
    } else {
        text
    }
}

/// The banner line of an urgent alert.
pub open spec fn banner(urgent: bool) -> Seq<char> {
    if urgent {
        "🔁 ПОВТОРНО\n"@
    } else {
        Seq::empty()
    }
}

/// The text of an alert: banner, header, separator, the message, and the
/// line that names the source.
pub open spec fn alert_text(
    threats: Seq<ThreatKind>,
    proximity: Proximity,
    title: Seq<char>,
    text: Seq<char>,
    urgent: bool,
    nationwide: bool,
) -> Seq<char> {
    banner(urgent) + header_line(threat_line(threats), scope_tag(proximity, nationwide))
        + "———\n"@ + quoted(text) + "\n"@ + "— 📡 "@ + title
}

/// The text of a status update: as an alert, under the fixed header
/// "Status" and with the whole message.
pub open spec fn status_text(
    proximity: Proximity,
    nationwide: bool,
    title: Seq<char>,
    text: Seq<char>,
) -> Seq<char> {
    header_line("ℹ️ Статус"@, scope_tag(proximity, nationwide)) + "———\n"@ + text
        + "\n— 📡 "@ + title
}

/// Icon and label of every kind, joined by " + ".
pub fn join_threats(threats: &[ThreatKind]) -> (line: String)
    ensures
        line@ == threat_line(threats@),
{
    let mut line = String::new();
    let mut i: usize = 0;
    while i < threats.len()
        invariant
            i <= threats.len(),
            line@ == threat_line(threats@.take(i as int)),
        decreases threats.len() - i,
    {
        proof {
            assert(threats@.take(i + 1).drop_last() =~= threats@.take(i as int));
        }
        if i > 0 {
            line.append(" + ");
        }
        line.append(threats[i].emoji());
        line.append(" ");
        line.append(threats[i].label());
        i += 1;
    }
    proof {
        assert(threats@.take(threats@.len() as int) =~= threats@);
    }
    line
}

/// The tag of the level, or the one for the whole country.
pub fn tag_for(proximity: Proximity, nationwide: bool) -> (tag: &'static str)
    ensures
        tag@ == scope_tag(proximity, nationwide),
{
    if nationwide {
        "🟣 ВСЯ УКРАЇНА"
    } else {
        proximity.tag()
    }
}

/// Appends the header line for `subject` and `tag` to `out`.
pub fn push_header(out: &mut String, subject: &str, tag: &str)
    ensures
        final(out)@ == old(out)@ + header_line(subject@, tag@),
{
    out.append(subject);
    if !tag.is_empty() {
        out.append(" · ");
        out.append(tag);
    }
    out.append("\n");
}

/// Formats an alert.
pub fn format_alert(
    threats: &[ThreatKind],
    proximity: Proximity,
    channel_title: &str,
    text: &str,
    urgent: bool,
    nationwide: bool,
) -> (out: String)
    ensures
        out@ == alert_text(threats@, proximity, channel_title@, text@, urgent, nationwide),
{
    let line = join_threats(threats);
    let tag = tag_for(proximity, nationwide);
    let mut out = String::new();
    if urgent {
        out.append("🔁 ПОВТОРНО\n");
    }
    push_header(&mut out, line.as_str(), tag);
    out.append("———\n");
    let shown = if text.unicode_len() > MAX_QUOTED_CHARS {
        text.substring_char(0, MAX_QUOTED_CHARS)
    } else {
        text
    };
    out.append(shown);
    out.append("\n");
    out.append("— 📡 ");
    out.append(channel_title);
    proof {
        assert(out@ =~= alert_text(
            threats@,
            proximity,
            channel_title@,
            text@,
            urgent,
            nationwide,
        ));
    }
    out
}

/// Formats a status update.
pub fn format_negative_status(
    proximity: Proximity,
    nationwide: bool,
    channel_title: &str,
    text: &str,
) -> (out: String)
    ensures
        out@ == status_text(proximity, nationwide, channel_title@, text@),
{
    let tag = tag_for(proximity, nationwide);
    let mut out = String::new();
    push_header(&mut out, "ℹ️ Статус", tag);
    out.append("———\n");
    out.append(text);
    out.append("\n— 📡 ");
    out.append(channel_title);
    out
}

} // verus!
