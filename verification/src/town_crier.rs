//! Town Crier - presence announcer bot
//!
//! Announces when members join or leave the hall with calm, neutral
//! messages, at most once per member every ten seconds. Times are
//! nanoseconds on the app's monotonic clock, handed in by the app.

use vstd::prelude::*;
use crate::bot::{BotAction, BotCapability, BotEvent, BotManifest, spec_event_capability};
use crate::format::{format_duration, spec_format_duration};
use crate::time::Timestamp;

verus! {

/// Seconds between two announcements about one member.
pub const RATE_LIMIT_SECS: u64 = 10;

/// The messages the crier may say when `u` joins: for a first visit, for a
/// return after `last_seen` seconds, or (with no record) the plain ones.
pub open spec fn join_templates(u: Seq<char>, is_first_time: bool, last_seen: Option<u64>) -> Seq<Seq<char>> {
    if is_first_time {
        seq![
            u + " joined the hall."@,
            u + " is here."@,
            "Welcome, "@ + u + "."@,
            u + " entered the space."@,
            "First time in this hall: "@ + u + "."@,
        ]
    } else {
        match last_seen {
            Some(secs) => {
                let d = spec_format_duration(secs as nat);
                seq![
                    u + " is back. Last seen "@ + d + " ago."@,
                    u + " returned after "@ + d + "."@,
                    "Welcome back, "@ + u + ". "@ + d + " since last visit."@,
                ]
            },
            None => seq![u + " joined the hall."@, u + " is here."@, "Welcome, "@ + u + "."@],
        }
    }
}

/// The messages the crier may say when `u` leaves.
pub open spec fn leave_templates(u: Seq<char>) -> Seq<Seq<char>> {
    seq![
        u + " stepped out."@,
        u + " left the hall."@,
        u + " disconnected."@,
        u + " is away."@,
        u + " signed off."@,
        u + " left for now."@,
        u + " has gone offline."@,
    ]
}

/// One of the options, picked at random.
///
/// Trusted: calls rand's `SliceRandom::choose` on the options with the
/// thread-local generator and returns a copy of the element it picked. It
/// picks one element of a non-empty slice; which one is chance.
#[verifier::external_body]
fn pick_random(options: &Vec<String>) -> (r: String)
    requires
        options.len() > 0,
    ensures
        string_texts(options@).contains(r@),
{
    rand::seq::SliceRandom::choose(options.as_slice(), &mut rand::thread_rng()).unwrap().clone()
}

fn text2(a: &str, b: &str) -> (s: String)
    ensures
        s@ == a@ + b@,
{
    let mut s = String::from_str(a);
    s.append(b);
    s
}

fn text3(a: &str, b: &str, c: &str) -> (s: String)
    ensures
        s@ == a@ + b@ + c@,
{
    let mut s = String::from_str(a);
    s.append(b);
    s.append(c);
    s
}

fn text5(a: &str, b: &str, c: &str, d: &str, e: &str) -> (s: String)
    ensures
        s@ == a@ + b@ + c@ + d@ + e@,
{
    let mut s = String::from_str(a);
    s.append(b);
    s.append(c);
    s.append(d);
    s.append(e);
    s
}

/// The texts of some strings.
pub open spec fn string_texts(v: Seq<String>) -> Seq<Seq<char>> {
    v.map_values(|s: String| s@)
}

/// Generate a join message for `username`.
pub fn join_message(username: &str, is_first_time: bool, last_seen: Option<u64>) -> (m: String)
    ensures
        join_templates(username@, is_first_time, last_seen).contains(m@),
{
    let ghost t = join_templates(username@, is_first_time, last_seen);
    let options: Vec<String> = if is_first_time {
        vec![
            text2(username, " joined the hall."),
            text2(username, " is here."),
            text3("Welcome, ", username, "."),
            text2(username, " entered the space."),
            text3("First time in this hall: ", username, "."),
        ]
    } else {
        match last_seen {
            Some(secs) => {
                let d = format_duration(secs);
                vec![
                    text5(username, " is back. Last seen ", d.as_str(), " ago.", ""),
                    text5(username, " returned after ", d.as_str(), ".", ""),
                    text5("Welcome back, ", username, ". ", d.as_str(), " since last visit."),
                ]
            },
            None => vec![
                text2(username, " joined the hall."),
                text2(username, " is here."),
                text3("Welcome, ", username, "."),
            ],
        }
    };
    proof {
        reveal_strlit("");
        assert(string_texts(options@) =~= t);
    }
    let m = pick_random(&options);
    m
}

/// Generate a leave message for `username`.
pub fn leave_message(username: &str) -> (m: String)
    ensures
        leave_templates(username@).contains(m@),
{
    let options: Vec<String> = vec![
        text2(username, " stepped out."),
        text2(username, " left the hall."),
        text2(username, " disconnected."),
        text2(username, " is away."),
        text2(username, " signed off."),
        text2(username, " left for now."),
        text2(username, " has gone offline."),
    ];
    assert(string_texts(options@) =~= leave_templates(username@));
    let m = pick_random(&options);
    m
}

/// The crier may announce `user` at `now`: it has not announced them, or
/// at least ten seconds have passed since it last did (a time from the
/// future counts as just now).
pub open spec fn may_announce(last: Option<u128>, now: u128) -> bool {
    match last {
        None => true,
        Some(t) => now >= t && now - t >= RATE_LIMIT_SECS * 1_000_000_000,
    }
}

/// When the crier last announced `user`, from the first entry naming them.
pub open spec fn last_announced(s: Seq<(u128, u128)>, user: u128) -> Option<u128>
    decreases s.len(),
{
    if s.len() == 0 {
        None
    } else if s[0].0 == user {
        Some(s[0].1)
    } else {
        last_announced(s.drop_first(), user)
    }
}

proof fn lemma_last_announced_at(s: Seq<(u128, u128)>, user: u128, k: int)
    requires
        0 <= k < s.len(),
        s[k].0 == user,
        forall|j: int| 0 <= j < k ==> (#[trigger] s[j]).0 != user,
    ensures
        last_announced(s, user) == Some(s[k].1),
        forall|t: u128| #[trigger] last_announced(s.update(k, (user, t)), user) == Some(t),
    decreases k,
{
    if k > 0 {
        assert(s[0].0 != user);
        assert forall|j: int| 0 <= j < k - 1 implies (#[trigger] s.drop_first()[j]).0 != user by {
            assert(s.drop_first()[j] == s[j + 1]);
        }
        lemma_last_announced_at(s.drop_first(), user, k - 1);
        assert forall|t: u128| #[trigger] last_announced(s.update(k, (user, t)), user) == Some(t) by {
            assert(s.update(k, (user, t))[0] == s[0]);
            assert(s.update(k, (user, t)).drop_first() =~= s.drop_first().update(k - 1, (user, t)));
            assert(last_announced(s.drop_first().update(k - 1, (user, t)), user) == Some(t));
        }
    } else {
        assert forall|t: u128| #[trigger] last_announced(s.update(k, (user, t)), user) == Some(t) by {
            assert(s.update(k, (user, t))[0] == (user, t));
        }
    }
}

proof fn lemma_last_announced_none(s: Seq<(u128, u128)>, user: u128)
    requires
        forall|j: int| 0 <= j < s.len() ==> (#[trigger] s[j]).0 != user,
    ensures
        last_announced(s, user) is None,
        forall|t: u128| #[trigger] last_announced(s.push((user, t)), user) == Some(t),
    decreases s.len(),
{
    if s.len() > 0 {
        assert(s[0].0 != user);
        assert forall|j: int| 0 <= j < s.len() - 1 implies (#[trigger] s.drop_first()[j]).0 != user by {
            assert(s.drop_first()[j] == s[j + 1]);
        }
        lemma_last_announced_none(s.drop_first(), user);
        assert forall|t: u128| #[trigger] last_announced(s.push((user, t)), user) == Some(t) by {
            assert(s.push((user, t))[0] == s[0]);
            assert(s.push((user, t)).drop_first() =~= s.drop_first().push((user, t)));
            assert(last_announced(s.drop_first().push((user, t)), user) == Some(t));
        }
    } else {
        assert forall|t: u128| #[trigger] last_announced(s.push((user, t)), user) == Some(t) by {
            assert(s.push((user, t))[0] == (user, t));
        }
    }
}

/// The actions are a single system message to `hall` saying one of `texts`.
pub open spec fn announces(actions: Seq<BotAction>, hall: u128, texts: Seq<Seq<char>>) -> bool {
    &&& actions.len() == 1
    &&& match actions[0] {
        BotAction::EmitSystem { hall_id, content } => hall_id == hall && texts.contains(content@),
        _ => false,
    }
}

/// Town Crier bot - announces presence changes
#[derive(Debug)]
pub struct TownCrier {
    pub manifest: BotManifest,
    /// Rate limiting: (user, last announcement time)
    pub rate_limit: Vec<(u128, u128)>,
}

/// What the crier makes of an event: the actions to carry out, and the
/// member whose last-seen time is to be recorded as now (hall, user).
#[derive(Debug)]
pub struct CrierOutcome {
    pub actions: Vec<BotAction>,
    pub touch_last_seen: Option<(u128, u128)>,
}

impl TownCrier {
    /// Create a new Town Crier bot
    pub fn new() -> (c: Self)
        ensures
            c.manifest.id@ == "town-crier"@,
            c.manifest.name@ == "Town Crier"@,
            c.manifest.version@ == "1.0.0"@,
            c.manifest.capabilities@ == seq![BotCapability::ListenPresence, BotCapability::EmitSystem],
            c.rate_limit@.len() == 0,
    {
        TownCrier {
            manifest: BotManifest {
                id: String::from_str("town-crier"),
                name: String::from_str("Town Crier"),
                version: String::from_str("1.0.0"),
                capabilities: vec![BotCapability::ListenPresence, BotCapability::EmitSystem],
            },
            rate_limit: Vec::new(),
        }
    }

    /// Rate limiting: whether to announce `user_id` at `now`; if so, `now`
    /// becomes the time they were last announced.
    pub fn should_announce(&mut self, user_id: u128, now: u128) -> (b: bool)
        ensures
            b == may_announce(last_announced(old(self).rate_limit@, user_id), now),
            b ==> last_announced(final(self).rate_limit@, user_id) == Some(now),
            !b ==> final(self).rate_limit == old(self).rate_limit,
            forall|u: u128| u != user_id ==> last_announced(final(self).rate_limit@, u) == last_announced(
                old(self).rate_limit@,
                u,
            ),
            final(self).manifest == old(self).manifest,
    {
        let ghost before = self.rate_limit@;
        let mut i: usize = 0;
        while i < self.rate_limit.len()
            invariant
                i <= self.rate_limit.len(),
                before == self.rate_limit@,
                forall|j: int| 0 <= j < i ==> (#[trigger] before[j]).0 != user_id,
            ensures
                i <= self.rate_limit.len(),
                before == self.rate_limit@,
                forall|j: int| 0 <= j < i ==> (#[trigger] before[j]).0 != user_id,
                i < self.rate_limit.len() ==> before[i as int].0 == user_id,
            decreases self.rate_limit.len() - i,
        {
            if self.rate_limit[i].0 == user_id {
                break;
            }
            i = i + 1;
        }
        if i < self.rate_limit.len() {
            let last = self.rate_limit[i].1;
            proof {
                lemma_last_announced_at(before, user_id, i as int);
            }
            if now >= last && now - last >= (RATE_LIMIT_SECS as u128) * 1_000_000_000 {
                self.rate_limit.set(i, (user_id, now));
                proof {
                    assert forall|u: u128| u != user_id implies last_announced(self.rate_limit@, u)
                        == last_announced(before, u) by {
                        lemma_last_announced_other_update(before, i as int, user_id, now, u);
                    }
                }
                true
            } else {
                false
            }
        } else {
            proof {
                lemma_last_announced_none(before, user_id);
            }
            self.rate_limit.push((user_id, now));
            proof {
                assert forall|u: u128| u != user_id implies last_announced(self.rate_limit@, u)
                    == last_announced(before, u) by {
                    lemma_last_announced_other_push(before, user_id, now, u);
                }
            }
            true
        }
    }

    /// Handle an event at `now`: joins and leaves are announced (rate
    /// limited) and the member's last-seen time is to be recorded; every
    /// other event, and every event the crier has no capability for, is
    /// ignored.
    pub fn on_event(&mut self, event: &BotEvent, now: u128) -> (r: CrierOutcome)
        ensures
            !old(self).manifest.capabilities@.contains(spec_event_capability(*event)) ==> (r.actions@.len()
                == 0 && r.touch_last_seen is None),
            match *event {
                BotEvent::MemberJoined { hall_id, user_id, username, is_first_time, last_seen_duration } => {
                    let announce = old(self).manifest.capabilities@.contains(BotCapability::ListenPresence)
                        && may_announce(last_announced(old(self).rate_limit@, user_id), now);
                    &&& announce ==> (announces(
                        r.actions@,
                        hall_id,
                        join_templates(username@, is_first_time, last_seen_duration),
                    ) && r.touch_last_seen == Some((hall_id, user_id)))
                    &&& !announce ==> (r.actions@.len() == 0 && r.touch_last_seen is None)
                    &&& announce ==> last_announced(final(self).rate_limit@, user_id) == Some(now)
                    &&& !announce ==> final(self).rate_limit == old(self).rate_limit
                    &&& forall|u: u128|
                        u != user_id ==> #[trigger] last_announced(final(self).rate_limit@, u)
                            == last_announced(old(self).rate_limit@, u)
                },
                BotEvent::MemberLeft { hall_id, user_id, username } => {
                    let announce = old(self).manifest.capabilities@.contains(BotCapability::ListenPresence)
                        && may_announce(last_announced(old(self).rate_limit@, user_id), now);
                    &&& announce ==> (announces(r.actions@, hall_id, leave_templates(username@))
                        && r.touch_last_seen == Some((hall_id, user_id)))
                    &&& !announce ==> (r.actions@.len() == 0 && r.touch_last_seen is None)
                    &&& announce ==> last_announced(final(self).rate_limit@, user_id) == Some(now)
                    &&& !announce ==> final(self).rate_limit == old(self).rate_limit
                    &&& forall|u: u128|
                        u != user_id ==> #[trigger] last_announced(final(self).rate_limit@, u)
                            == last_announced(old(self).rate_limit@, u)
                },
                BotEvent::ScheduledTick { .. } => r.actions@.len() == 0 && r.touch_last_seen is None
                    && final(self).rate_limit == old(self).rate_limit,
            },
            final(self).manifest == old(self).manifest,
    {
        if !self.manifest.should_receive(event) {
            return CrierOutcome { actions: Vec::new(), touch_last_seen: None };
        }
        match event {
            BotEvent::MemberJoined { hall_id, user_id, username, is_first_time, last_seen_duration } => {
                if !self.should_announce(*user_id, now) {
                    return CrierOutcome { actions: Vec::new(), touch_last_seen: None };
                }
                let message = join_message(username.as_str(), *is_first_time, *last_seen_duration);
                CrierOutcome {
                    actions: vec![BotAction::EmitSystem { hall_id: *hall_id, content: message }],
                    touch_last_seen: Some((*hall_id, *user_id)),
                }
            },
            BotEvent::MemberLeft { hall_id, user_id, username } => {
                if !self.should_announce(*user_id, now) {
                    return CrierOutcome { actions: Vec::new(), touch_last_seen: None };
                }
                let message = leave_message(username.as_str());
                CrierOutcome {
                    actions: vec![BotAction::EmitSystem { hall_id: *hall_id, content: message }],
                    touch_last_seen: Some((*hall_id, *user_id)),
                }
            },
            BotEvent::ScheduledTick { .. } => CrierOutcome { actions: Vec::new(), touch_last_seen: None },
        }
    }
}

proof fn lemma_last_announced_other_update(s: Seq<(u128, u128)>, k: int, user: u128, t: u128, u: u128)
    requires
        0 <= k < s.len(),
        s[k].0 == user,
        u != user,
    ensures
        last_announced(s.update(k, (user, t)), u) == last_announced(s, u),
    decreases s.len(),
{
    if s.len() > 0 {
        if k == 0 {
            assert(s.update(k, (user, t)).drop_first() =~= s.drop_first());
        } else {
            assert(s.update(k, (user, t)).drop_first() =~= s.drop_first().update(k - 1, (user, t)));
            lemma_last_announced_other_update(s.drop_first(), k - 1, user, t, u);
        }
    }
}

proof fn lemma_last_announced_other_push(s: Seq<(u128, u128)>, user: u128, t: u128, u: u128)
    requires
        u != user,
    ensures
        last_announced(s.push((user, t)), u) == last_announced(s, u),
    decreases s.len(),
{
    if s.len() > 0 {
        assert(s.push((user, t)).drop_first() =~= s.drop_first().push((user, t)));
        lemma_last_announced_other_push(s.drop_first(), user, t, u);
    } else {
        assert(s.push((user, t)).drop_first() =~= Seq::<(u128, u128)>::empty());
        assert(last_announced(Seq::<(u128, u128)>::empty(), u) is None);
    }
}


/// A member is announced at most once per rate-limit interval: once the crier
/// has announced them at `t1`, it announces them again no sooner than ten
/// seconds later.
pub proof fn lemma_announcements_spaced(rate_limit: Seq<(u128, u128)>, user: u128, t1: u128, t2: u128)
    requires
        last_announced(rate_limit, user) == Some(t1),
        may_announce(last_announced(rate_limit, user), t2),
    ensures
        t2 >= t1 + RATE_LIMIT_SECS * 1_000_000_000,
{
}


/// Whole seconds from `then` to `now`, zero when `now` is not later, and at
/// most `u64::MAX`.
pub open spec fn seen_secs_ago(then: Timestamp, now: Timestamp) -> int {
    let diff = (now.secs - then.secs) * 1_000_000_000 + now.nanos - then.nanos;
    if diff <= 0 {
        0
    } else if diff / 1_000_000_000 > u64::MAX {
        u64::MAX as int
    } else {
        diff / 1_000_000_000
    }
}

/// How long ago a member was last seen, in whole seconds, for the join
/// announcement.
pub fn last_seen_duration(then: Timestamp, now: Timestamp) -> (s: u64)
    ensures
        s == seen_secs_ago(then, now),
{
    let d = now.seconds_since(&then);
    if d <= 0 {
        0
    } else if d > u64::MAX as i128 {
        u64::MAX
    } else {
        d as u64
    }
}

} // verus!
