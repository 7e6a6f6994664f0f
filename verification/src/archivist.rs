//! Archivist - nightly archive summarizer bot
//!
//! Writes markdown summaries of chat activity into the hall chest: activity
//! statistics, highlights, open questions and decisions. The highlights are
//! ranked by a floating-point score that the app computes; everything else
//! is decided here.

use vstd::prelude::*;
use crate::archive::{spec_should_run, should_run, window_name, ArchiveConfig};
use crate::bot::{BotAction, BotCapability, BotManifest};
use crate::models::MessageDisplay;
use crate::summary::{
    all_decisions, all_questions, calculate_stats, extract_decisions, extract_questions,
    is_top_contributors, item_cap, take_at_most,
};
use crate::text::{decimal, pad_left, push_decimal, zero_padded4};
use crate::time::{chrono_ok, format_utc, ts_le, utc_format_text, Timestamp};

verus! {

/// A list of (speaker, text) items as markdown bullets.
pub open spec fn speaker_bullets(items: Seq<(Seq<char>, Seq<char>)>) -> Seq<char>
    decreases items.len(),
{
    if items.len() == 0 {
        Seq::empty()
    } else {
        speaker_bullets(items.drop_last()) + "- **"@ + items.last().0 + ":** "@ + items.last().1 + "\n"@
    }
}

/// A markdown section with a heading and bullets; nothing when there are no items.
pub open spec fn bullet_section(title: Seq<char>, items: Seq<(Seq<char>, Seq<char>)>) -> Seq<char> {
    if items.len() == 0 {
        Seq::empty()
    } else {
        "## "@ + title + "\n\n"@ + speaker_bullets(items) + "\n"@
    }
}

/// The lines listing the top contributors.
pub open spec fn contributor_lines(top: Seq<(Seq<char>, nat)>) -> Seq<char>
    decreases top.len(),
{
    if top.len() == 0 {
        Seq::empty()
    } else {
        contributor_lines(top.drop_last()) + "  - "@ + top.last().0 + ": "@ + decimal(top.last().1)
            + " messages\n"@
    }
}

/// How many different values `s` holds.
pub open spec fn distinct_count(s: Seq<Seq<char>>) -> nat
    decreases s.len(),
{
    if s.len() == 0 {
        0
    } else {
        distinct_count(s.drop_last()) + if s.drop_last().contains(s.last()) {
            0nat
        } else {
            1nat
        }
    }
}

/// The senders of the messages, in order.
pub open spec fn senders(msgs: Seq<MessageDisplay>) -> Seq<Seq<char>> {
    msgs.map_values(|m: MessageDisplay| m.sender_username@)
}

/// A time as the archive writes it.
pub open spec fn archive_time_text(t: Timestamp) -> Seq<char> {
    utc_format_text(t, "%Y-%m-%d %H:%M UTC"@)
}

/// The activity summary section.
pub open spec fn stats_section(msgs: Seq<MessageDisplay>, top: Seq<(Seq<char>, nat)>) -> Seq<char> {
    "## Activity Summary\n\n"@ + "- **Total messages:** "@ + decimal(msgs.len()) + "\n"@
        + "- **Unique participants:** "@ + decimal(distinct_count(senders(msgs))) + "\n"@ + (if top.len()
        == 0 {
        Seq::empty()
    } else {
        "- **Top contributors:**\n"@ + contributor_lines(top)
    }) + "\n"@
}

/// The archive of `msgs` for `hall` over `start`..`end`, with the given top
/// contributors and highlights, generated at `generated`.
pub open spec fn archive_markdown(
    hall: Seq<char>,
    start: Timestamp,
    end: Timestamp,
    msgs: Seq<MessageDisplay>,
    top: Seq<(Seq<char>, nat)>,
    highlights: Seq<(Seq<char>, Seq<char>)>,
    generated: Timestamp,
) -> Seq<char> {
    "# Archive: "@ + hall + "\n\n"@ + "**Period:** "@ + archive_time_text(start) + " to "@
        + archive_time_text(end) + "\n\n"@ + stats_section(msgs, top) + bullet_section(
        "Highlights"@,
        highlights,
    ) + bullet_section("Open Questions"@, take_at_most(all_questions(msgs), item_cap(10)))
        + bullet_section(
        "Decisions and Action Items"@,
        take_at_most(all_decisions(msgs), item_cap(15)),
    ) + "---\n"@ + "*Generated by Archivist at "@ + archive_time_text(generated) + "*\n"@
}

/// The texts of (speaker, text) pairs.
pub open spec fn pair_texts(v: Seq<(String, String)>) -> Seq<(Seq<char>, Seq<char>)> {
    v.map_values(|p: (String, String)| (p.0@, p.1@))
}

fn push_bullets(md: &mut String, items: &Vec<(String, String)>)
    ensures
        final(md)@ == old(md)@ + speaker_bullets(pair_texts(items@)),
{
    proof {
        reveal_strlit("- **");
        reveal_strlit(":** ");
        reveal_strlit("\n");
    }
    let mut i: usize = 0;
    while i < items.len()
        invariant
            i <= items.len(),
            md@ == old(md)@ + speaker_bullets(pair_texts(items@.take(i as int))),
        decreases items.len() - i,
    {
        let ghost before = md@;
        md.append("- **");
        md.append(items[i].0.as_str());
        md.append(":** ");
        md.append(items[i].1.as_str());
        md.append("\n");
        proof {
            assert(pair_texts(items@.take(i + 1)).drop_last() =~= pair_texts(items@.take(i as int)));
            assert(pair_texts(items@.take(i + 1)).last() == (items@[i as int].0@, items@[i as int].1@));
            assert(md@ =~= old(md)@ + speaker_bullets(pair_texts(items@.take(i + 1))));
        }
        i = i + 1;
    }
    assert(items@.take(i as int) =~= items@);
}

fn push_section(md: &mut String, title: &str, items: &Vec<(String, String)>)
    ensures
        final(md)@ == old(md)@ + bullet_section(title@, pair_texts(items@)),
{
    if items.len() == 0 {
        assert(old(md)@ + Seq::<char>::empty() =~= old(md)@);
        return;
    }
    let ghost start = md@;
    md.append("## ");
    md.append(title);
    md.append("\n\n");
    push_bullets(md, items);
    md.append("\n");
    assert(md@ =~= start + bullet_section(title@, pair_texts(items@)));
}

/// The number of different senders.
fn count_senders(messages: &[MessageDisplay]) -> (n: usize)
    ensures
        n == distinct_count(senders(messages@)),
{
    let ghost s = senders(messages@);
    let mut n: usize = 0;
    let mut i: usize = 0;
    while i < messages.len()
        invariant
            i <= messages.len(),
            s == senders(messages@),
            n == distinct_count(s.take(i as int)),
            n <= i,
        decreases messages.len() - i,
    {
        let mut seen = false;
        let mut j: usize = 0;
        while j < i
            invariant
                j <= i,
                i < messages.len(),
                s == senders(messages@),
                seen == exists|k: int| 0 <= k < j && s[k] == s[i as int],
            decreases i - j,
        {
            assert(s[j as int] == messages@[j as int].sender_username@);
            assert(s[i as int] == messages@[i as int].sender_username@);
            let ghost seen_before = seen;
            if crate::text::str_equals(messages[j].sender_username.as_str(), messages[i].sender_username.as_str()) {
                seen = true;
            }
            proof {
                if seen && !seen_before {
                    assert(0 <= j < j + 1 && s[j as int] == s[i as int]);
                }
                if !seen {
                    assert forall|k: int| 0 <= k < j + 1 implies s[k] != s[i as int] by {
                        if k == j {
                        }
                    }
                }
            }
            j = j + 1;
        }
        proof {
            let t = s.take(i + 1);
            assert(t.drop_last() =~= s.take(i as int));
            assert(t.last() == s[i as int]);
            if seen {
                let k = choose|k: int| 0 <= k < i && s[k] == s[i as int];
                assert(s.take(i as int)[k] == s[i as int]);
            } else {
                assert forall|k: int| 0 <= k < i implies s.take(i as int)[k] != s[i as int] by {
                    assert(s.take(i as int)[k] == s[k]);
                }
            }
        }
        if !seen {
            n = n + 1;
        }
        i = i + 1;
    }
    assert(s.take(i as int) =~= s);
    n
}

/// Generate the archive markdown for `hall_name` over `start_time` to
/// `end_time`: activity summary, the given highlights, open questions (ten
/// at most), decisions and action items (fifteen at most), and a footer
/// stamped with the current time.
pub fn generate_archive_markdown(
    hall_name: &str,
    start_time: Timestamp,
    end_time: Timestamp,
    messages: &[MessageDisplay],
    highlights: &Vec<(String, String)>,
) -> (md: String)
    requires
        chrono_ok(start_time),
        chrono_ok(end_time),
    ensures
        exists|top: Seq<(Seq<char>, nat)>, generated: Timestamp|
            is_top_contributors(messages@, top) && chrono_ok(generated) && md@ == archive_markdown(
                hall_name@,
                start_time,
                end_time,
                messages@,
                top,
                pair_texts(highlights@),
                generated,
            ),
{
    proof {
        reveal_strlit("%Y-%m-%d %H:%M UTC");
        reveal_strlit("\n");
    }
    let mut md = String::from_str("# Archive: ");
    md.append(hall_name);
    md.append("\n\n");
    md.append("**Period:** ");
    let s = format_utc(start_time, "%Y-%m-%d %H:%M UTC");
    md.append(s.as_str());
    md.append(" to ");
    let e = format_utc(end_time, "%Y-%m-%d %H:%M UTC");
    md.append(e.as_str());
    md.append("\n\n");
    let ghost after_header = md@;
    let (total, top_users) = calculate_stats(messages);
    let ghost top = top_users@.map_values(|p: (String, usize)| (p.0@, p.1 as nat));
    md.append("## Activity Summary\n\n");
    md.append("- **Total messages:** ");
    push_decimal(&mut md, total as u64);
    md.append("\n");
    md.append("- **Unique participants:** ");
    let uniq = count_senders(messages);
    push_decimal(&mut md, uniq as u64);
    md.append("\n");
    if top_users.len() > 0 {
        md.append("- **Top contributors:**\n");
        let mut i: usize = 0;
        let ghost before_lines = md@;
        while i < top_users.len()
            invariant
                i <= top_users.len(),
                top == top_users@.map_values(|p: (String, usize)| (p.0@, p.1 as nat)),
                md@ == before_lines + contributor_lines(top.take(i as int)),
            decreases top_users.len() - i,
        {
            md.append("  - ");
            md.append(top_users[i].0.as_str());
            md.append(": ");
            push_decimal(&mut md, top_users[i].1 as u64);
            md.append(" messages\n");
            proof {
                assert(top.take(i + 1).drop_last() =~= top.take(i as int));
                assert(top.take(i + 1).last() == top[i as int]);
                assert(md@ =~= before_lines + contributor_lines(top.take(i + 1)));
            }
            i = i + 1;
        }
        assert(top.take(i as int) =~= top);
    }
    md.append("\n");
    proof {
        assert(md@ =~= after_header + stats_section(messages@, top));
    }
    let ghost after_stats = md@;
    push_section(&mut md, "Highlights", highlights);
    let questions = extract_questions(messages, 10);
    push_section(&mut md, "Open Questions", &questions);
    let decisions = extract_decisions(messages, 15);
    push_section(&mut md, "Decisions and Action Items", &decisions);
    md.append("---\n");
    md.append("*Generated by Archivist at ");
    let generated = crate::time::now();
    let g = format_utc(generated, "%Y-%m-%d %H:%M UTC");
    md.append(g.as_str());
    md.append("*\n");
    proof {
        assert(md@ =~= archive_markdown(
            hall_name@,
            start_time,
            end_time,
            messages@,
            top,
            pair_texts(highlights@),
            generated,
        ));
    }
    md
}

/// The messages sent within `start`..`end` (both included), in order.
pub fn messages_in_window(messages: Vec<MessageDisplay>, start: Timestamp, end: Timestamp) -> (r: Vec<MessageDisplay>)
    ensures
        r@ == messages@.filter(|m: MessageDisplay| ts_le(start, m.timestamp) && ts_le(m.timestamp, end)),
{
    let ghost orig = messages@;
    let ghost keep = |m: MessageDisplay| ts_le(start, m.timestamp) && ts_le(m.timestamp, end);
    let total = messages.len();
    let mut rest = messages;
    let mut kept: Vec<MessageDisplay> = Vec::new();
    assert(orig.take(0).filter(keep) =~= Seq::<MessageDisplay>::empty()) by {
        reveal(Seq::filter);
    }
    while rest.len() > 0
        invariant
            orig.len() == total,
            rest.len() <= total,
            keep == (|m: MessageDisplay| ts_le(start, m.timestamp) && ts_le(m.timestamp, end)),
            rest@ == orig.skip(total - rest.len()),
            kept@ == orig.take(total - rest.len()).filter(keep),
        decreases rest.len(),
    {
        let ghost i = total - rest.len();
        let m = rest.remove(0);
        assert(m == orig[i]);
        assert(rest@ =~= orig.skip(i + 1));
        assert(orig.take(i + 1).drop_last() =~= orig.take(i));
        assert(orig.take(i + 1).last() == orig[i]);
        if start.le(&m.timestamp) && m.timestamp.le(&end) {
            kept.push(m);
        }
        proof {
            reveal(Seq::filter);
        }
    }
    assert(orig.take(total as int) =~= orig);
    kept
}

/// The action is the system message `text` to `hall`.
pub open spec fn says(a: BotAction, hall: u128, text: Seq<char>) -> bool {
    match a {
        BotAction::EmitSystem { hall_id, content } => hall_id == hall && content@ == text,
        _ => false,
    }
}

/// The action writes `contents` to `path` in the chest of `hall`.
pub open spec fn writes(a: BotAction, hall: u128, path: Seq<char>, contents: String) -> bool {
    match a {
        BotAction::WriteFileToChest { hall_id, path: p, contents: c } => hall_id == hall && p@ == path
            && c == contents,
        _ => false,
    }
}

/// What an archive run does: with no messages in the window it only says
/// so; otherwise it writes the markdown to `path` in the chest and says where.
pub fn run_actions(hall_id: u128, no_messages: bool, path: String, markdown: String) -> (r: Vec<BotAction>)
    ensures
        no_messages ==> r@.len() == 1 && says(r@[0], hall_id, "Archive skipped: no messages in time window."@),
        !no_messages ==> r@.len() == 2 && writes(r@[0], hall_id, path@, markdown) && says(
            r@[1],
            hall_id,
            "Archive saved to "@ + path@,
        ),
{
    if no_messages {
        return vec![
            BotAction::EmitSystem {
                hall_id,
                content: String::from_str("Archive skipped: no messages in time window."),
            },
        ];
    }
    let mut note = String::from_str("Archive saved to ");
    note.append(path.as_str());
    vec![
        BotAction::WriteFileToChest { hall_id, path, contents: markdown },
        BotAction::EmitSystem { hall_id, content: note },
    ]
}

/// The reply to `/archive-now`: the first action of the run, or a failure
/// notice when the run did nothing (no configuration).
pub fn archive_now_action(hall_id: u128, actions: Vec<BotAction>) -> (a: BotAction)
    ensures
        actions@.len() > 0 ==> a == actions@[0],
        actions@.len() == 0 ==> says(a, hall_id, "Archive failed: no configuration found."@),
{
    let mut actions = actions;
    if actions.len() == 0 {
        BotAction::EmitSystem {
            hall_id,
            content: String::from_str("Archive failed: no configuration found."),
        }
    } else {
        actions.remove(0)
    }
}

/// The reply to `/archive-status`.
pub open spec fn spec_status_reply(config: Option<ArchiveConfig>) -> Seq<char> {
    match config {
        None => "Archivist: not configured"@,
        Some(c) => "Archivist: "@ + (if c.enabled {
            "enabled"@
        } else {
            "disabled"@
        }) + ", time: "@ + pad_left(decimal(c.archive_time as nat), 4, '0') + ", window: "@
            + window_name(c.archive_window) + ", last run: "@ + match c.last_run_at {
            Some(t) => utc_format_text(t, "%Y-%m-%d %H:%M"@),
            None => "never"@,
        },
    }
}

/// The reply to `/archive-status` for a hall's configuration.
pub fn status_reply(config: Option<&ArchiveConfig>) -> (s: String)
    requires
        config matches Some(c) ==> (c.last_run_at matches Some(t) ==> chrono_ok(t)),
    ensures
        s@ == spec_status_reply(
            match config {
                Some(c) => Some(*c),
                None => None,
            },
        ),
{
    match config {
        None => String::from_str("Archivist: not configured"),
        Some(c) => {
            proof {
                reveal_strlit("%Y-%m-%d %H:%M");
            }
            let mut s = String::from_str("Archivist: ");
            if c.enabled {
                s.append("enabled");
            } else {
                s.append("disabled");
            }
            s.append(", time: ");
            let t = zero_padded4(c.archive_time);
            s.append(t.as_str());
            s.append(", window: ");
            s.append(c.archive_window.as_str());
            s.append(", last run: ");
            match c.last_run_at {
                Some(t) => {
                    let lr = format_utc(t, "%Y-%m-%d %H:%M");
                    s.append(lr.as_str());
                },
                None => s.append("never"),
            }
            s
        },
    }
}

/// Archivist bot: its manifest and, per hall, the time of the last
/// scheduled run.
#[derive(Debug)]
pub struct Archivist {
    pub manifest: BotManifest,
    /// Last tick time per hall (to avoid duplicate runs)
    pub last_tick: Vec<(u128, u16)>,
}

/// The time of the last run recorded for `hall`, from the first entry naming it.
pub open spec fn last_tick_of(s: Seq<(u128, u16)>, hall: u128) -> Option<u16>
    decreases s.len(),
{
    if s.len() == 0 {
        None
    } else if s[0].0 == hall {
        Some(s[0].1)
    } else {
        last_tick_of(s.drop_first(), hall)
    }
}

proof fn lemma_last_tick_at(s: Seq<(u128, u16)>, hall: u128, k: int, t: u16)
    requires
        0 <= k < s.len(),
        s[k].0 == hall,
        forall|j: int| 0 <= j < k ==> (#[trigger] s[j]).0 != hall,
    ensures
        last_tick_of(s, hall) == Some(s[k].1),
        last_tick_of(s.update(k, (hall, t)), hall) == Some(t),
    decreases k,
{
    if k > 0 {
        assert(s[0].0 != hall);
        assert forall|j: int| 0 <= j < k - 1 implies (#[trigger] s.drop_first()[j]).0 != hall by {
            assert(s.drop_first()[j] == s[j + 1]);
        }
        assert(s.update(k, (hall, t)).drop_first() =~= s.drop_first().update(k - 1, (hall, t)));
        assert(s.update(k, (hall, t))[0] == s[0]);
        lemma_last_tick_at(s.drop_first(), hall, k - 1, t);
    } else {
        assert(s.update(k, (hall, t)).drop_first() =~= s.drop_first());
        assert(s.update(k, (hall, t))[0] == (hall, t));
    }
}

proof fn lemma_last_tick_none(s: Seq<(u128, u16)>, hall: u128, t: u16)
    requires
        forall|j: int| 0 <= j < s.len() ==> (#[trigger] s[j]).0 != hall,
    ensures
        last_tick_of(s, hall) is None,
        last_tick_of(s.push((hall, t)), hall) == Some(t),
    decreases s.len(),
{
    if s.len() > 0 {
        assert(s[0].0 != hall);
        assert forall|j: int| 0 <= j < s.len() - 1 implies (#[trigger] s.drop_first()[j]).0 != hall by {
            assert(s.drop_first()[j] == s[j + 1]);
        }
        assert(s.push((hall, t)).drop_first() =~= s.drop_first().push((hall, t)));
        assert(s.push((hall, t))[0] == s[0]);
        lemma_last_tick_none(s.drop_first(), hall, t);
    } else {
        assert(s.push((hall, t))[0] == (hall, t));
        assert(s.push((hall, t)).drop_first() =~= Seq::<(u128, u16)>::empty());
        assert(last_tick_of(Seq::<(u128, u16)>::empty(), hall) is None);
    }
}

proof fn lemma_last_tick_other_update(s: Seq<(u128, u16)>, k: int, hall: u128, t: u16, h: u128)
    requires
        0 <= k < s.len(),
        s[k].0 == hall,
        h != hall,
    ensures
        last_tick_of(s.update(k, (hall, t)), h) == last_tick_of(s, h),
    decreases s.len(),
{
    if k == 0 {
        assert(s.update(k, (hall, t)).drop_first() =~= s.drop_first());
    } else {
        assert(s.update(k, (hall, t)).drop_first() =~= s.drop_first().update(k - 1, (hall, t)));
        lemma_last_tick_other_update(s.drop_first(), k - 1, hall, t, h);
    }
}

proof fn lemma_last_tick_other_push(s: Seq<(u128, u16)>, hall: u128, t: u16, h: u128)
    requires
        h != hall,
    ensures
        last_tick_of(s.push((hall, t)), h) == last_tick_of(s, h),
    decreases s.len(),
{
    if s.len() > 0 {
        assert(s.push((hall, t)).drop_first() =~= s.drop_first().push((hall, t)));
        lemma_last_tick_other_push(s.drop_first(), hall, t, h);
    } else {
        assert(s.push((hall, t)).drop_first() =~= Seq::<(u128, u16)>::empty());
        assert(last_tick_of(Seq::<(u128, u16)>::empty(), h) is None);
    }
}

impl Archivist {
    pub fn new() -> (a: Self)
        ensures
            a.manifest.id@ == "archivist"@,
            a.manifest.name@ == "Archivist"@,
            a.manifest.version@ == "1.0.0"@,
            a.manifest.capabilities@ == seq![
                BotCapability::EmitSystem,
                BotCapability::ReadChatHistory,
                BotCapability::WriteChest,
                BotCapability::ReceiveScheduledTick,
            ],
            a.last_tick@.len() == 0,
    {
        Archivist {
            manifest: BotManifest {
                id: String::from_str("archivist"),
                name: String::from_str("Archivist"),
                version: String::from_str("1.0.0"),
                capabilities: vec![
                    BotCapability::EmitSystem,
                    BotCapability::ReadChatHistory,
                    BotCapability::WriteChest,
                    BotCapability::ReceiveScheduledTick,
                ],
            },
            last_tick: Vec::new(),
        }
    }

    /// A scheduled tick at `current_time` (HHMM) for a hall with the given
    /// configuration: whether the archive runs now. A run is recorded so that
    /// the same minute does not run twice.
    pub fn on_tick(&mut self, hall_id: u128, current_time: u16, config: Option<&ArchiveConfig>) -> (run: bool)
        ensures
            run == spec_should_run(
                match config {
                    Some(c) => Some(*c),
                    None => None,
                },
                last_tick_of(old(self).last_tick@, hall_id),
                current_time,
            ),
            run ==> last_tick_of(final(self).last_tick@, hall_id) == Some(current_time),
            !run ==> final(self).last_tick@ == old(self).last_tick@,
            forall|h: u128| h != hall_id ==> #[trigger] last_tick_of(final(self).last_tick@, h) == last_tick_of(
                old(self).last_tick@,
                h,
            ),
            final(self).manifest == old(self).manifest,
    {
        let ghost before = self.last_tick@;
        let mut i: usize = 0;
        while i < self.last_tick.len()
            invariant
                i <= self.last_tick.len(),
                before == self.last_tick@,
                forall|j: int| 0 <= j < i ==> (#[trigger] before[j]).0 != hall_id,
            ensures
                i <= self.last_tick.len(),
                before == self.last_tick@,
                forall|j: int| 0 <= j < i ==> (#[trigger] before[j]).0 != hall_id,
                i < self.last_tick.len() ==> before[i as int].0 == hall_id,
            decreases self.last_tick.len() - i,
        {
            if self.last_tick[i].0 == hall_id {
                break;
            }
            i = i + 1;
        }
        let last = if i < self.last_tick.len() {
            proof {
                lemma_last_tick_at(before, hall_id, i as int, current_time);
            }
            Some(self.last_tick[i].1)
        } else {
            proof {
                lemma_last_tick_none(before, hall_id, current_time);
            }
            None
        };
        if !should_run(config, last, current_time) {
            return false;
        }
        if i < self.last_tick.len() {
            self.last_tick.set(i, (hall_id, current_time));
            proof {
                assert forall|h: u128| h != hall_id implies #[trigger] last_tick_of(self.last_tick@, h)
                    == last_tick_of(before, h) by {
                    lemma_last_tick_other_update(before, i as int, hall_id, current_time, h);
                }
            }
        } else {
            self.last_tick.push((hall_id, current_time));
            proof {
                assert forall|h: u128| h != hall_id implies #[trigger] last_tick_of(self.last_tick@, h)
                    == last_tick_of(before, h) by {
                    lemma_last_tick_other_push(before, hall_id, current_time, h);
                }
            }
        }
        true
    }
}

/// Whether a scheduled tick at `hhmm` on day `day` of the year is new: ticks
/// within one minute are delivered once. A new tick is remembered.
pub fn tick_is_new(last: &mut Option<(u16, u16)>, hhmm: u16, day: u16) -> (b: bool)
    ensures
        b == (*old(last) != Some((hhmm, day))),
        b ==> *final(last) == Some((hhmm, day)),
        !b ==> *final(last) == *old(last),
{
    match *last {
        Some((h, d)) => {
            if h == hhmm && d == day {
                return false;
            }
        },
        None => {},
    }
    *last = Some((hhmm, day));
    true
}

/// An archive run was missed when more than 25 whole hours have passed
/// since the last one.
pub fn missed_run(last_run: Timestamp, now: Timestamp) -> (b: bool)
    ensures
        b == ({
            let diff = (now.secs - last_run.secs) * 1_000_000_000 + now.nanos - last_run.nanos;
            let hours = if diff >= 0 {
                diff / 3_600_000_000_000
            } else {
                -((-diff) / 3_600_000_000_000)
            };
            hours > 25
        }),
{
    let secs = now.seconds_since(&last_run);
    let hours: i128 = if secs >= 0 {
        secs / 3600
    } else {
        -((-secs) / 3600)
    };
    proof {
        let diff = (now.secs - last_run.secs) * 1_000_000_000 + now.nanos - last_run.nanos;
        if diff >= 0 {
            assert(diff / 1_000_000_000 / 3600 == diff / 3_600_000_000_000) by (nonlinear_arith)
                requires diff >= 0;
        } else {
            assert((-diff) / 1_000_000_000 / 3600 == (-diff) / 3_600_000_000_000) by (nonlinear_arith)
                requires -diff > 0;
        }
    }
    hours > 25
}


/// More than 25 whole hours from `last_run` to `now` (see `missed_run`).
pub open spec fn run_overdue(last_run: Timestamp, now: Timestamp) -> bool {
    let diff = (now.secs - last_run.secs) * 1_000_000_000 + now.nanos - last_run.nanos;
    let hours = if diff >= 0 {
        diff / 3_600_000_000_000
    } else {
        -((-diff) / 3_600_000_000_000)
    };
    hours > 25
}

/// Whether a hall's archive has to catch up at start-up: archiving is
/// enabled, has run before, and its last run was missed.
pub fn needs_catch_up(config: Option<&ArchiveConfig>, now: Timestamp) -> (b: bool)
    ensures
        b == match config {
            Some(c) => c.enabled && match c.last_run_at {
                Some(t) => run_overdue(t, now),
                None => false,
            },
            None => false,
        },
{
    match config {
        Some(c) => {
            if !c.enabled {
                return false;
            }
            match c.last_run_at {
                Some(t) => missed_run(t, now),
                None => false,
            }
        },
        None => false,
    }
}

} // verus!
