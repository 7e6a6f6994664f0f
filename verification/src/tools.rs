//! External tools: their status, how they are described, and the launchers
//! pinned in each hall.
//!
//! Tools run as separate OS windows - there is no embedding. The processes
//! themselves are started, watched and stopped by the app; here is what
//! each observation means for a tool's status.

use vstd::prelude::*;
use crate::ids::new_id;
use crate::text::{push_char, push_str};

verus! {

/// Status of an external tool
#[derive(Debug, Clone, Copy, PartialEq, Eq, Structural)]
pub enum ToolStatus {
    /// Process is running
    Running,
    /// Process has exited normally
    Exited,
    /// Process was killed by user/bot
    Stopped,
    /// Failed to start
    Failed,
}

impl ToolStatus {
    pub fn as_str(&self) -> (s: &'static str)
        ensures
            s@ == match *self {
                ToolStatus::Running => "Running"@,
                ToolStatus::Exited => "Exited"@,
                ToolStatus::Stopped => "Stopped"@,
                ToolStatus::Failed => "Failed"@,
            },
    {
        match self {
            ToolStatus::Running => "Running",
            ToolStatus::Exited => "Exited",
            ToolStatus::Stopped => "Stopped",
            ToolStatus::Failed => "Failed",
        }
    }

    pub fn is_alive(&self) -> (b: bool)
        ensures
            b == (*self == ToolStatus::Running),
    {
        match self {
            ToolStatus::Running => true,
            _ => false,
        }
    }
}

/// What asking a tool's process whether it has finished showed.
#[derive(Debug, Clone, Copy, PartialEq, Eq, Structural)]
pub enum ChildProbe {
    /// There is no process handle
    NoChild,
    /// The process is still running
    StillRunning,
    /// The process has exited
    Finished,
    /// The process could not be asked
    ProbeFailed,
}

/// A tool's status after a probe, and whether its process handle is kept.
pub open spec fn spec_refresh(status: ToolStatus, probe: ChildProbe) -> (ToolStatus, bool) {
    if status != ToolStatus::Running {
        (status, probe != ChildProbe::NoChild)
    } else {
        match probe {
            ChildProbe::NoChild => (ToolStatus::Exited, false),
            ChildProbe::StillRunning => (ToolStatus::Running, true),
            ChildProbe::Finished => (ToolStatus::Exited, false),
            ChildProbe::ProbeFailed => (ToolStatus::Failed, false),
        }
    }
}

/// Update a tool's status from a probe of its process (only a running tool
/// is probed): a finished process makes it Exited, a failed probe Failed, a
/// missing handle Exited. The flag says whether the handle is kept.
pub fn refresh_status(status: ToolStatus, probe: ChildProbe) -> (r: (ToolStatus, bool))
    ensures
        r == spec_refresh(status, probe),
{
    if status != ToolStatus::Running {
        return (status, probe != ChildProbe::NoChild);
    }
    match probe {
        ChildProbe::NoChild => (ToolStatus::Exited, false),
        ChildProbe::StillRunning => (ToolStatus::Running, true),
        ChildProbe::Finished => (ToolStatus::Exited, false),
        ChildProbe::ProbeFailed => (ToolStatus::Failed, false),
    }
}

/// The outcome of stopping a tool: its new status and whether it was
/// stopped. Only a tool with a process handle whose kill succeeded stops.
pub fn stop_outcome(status: ToolStatus, has_child: bool, kill_ok: bool) -> (r: (ToolStatus, bool))
    ensures
        r == if has_child && kill_ok {
            (ToolStatus::Stopped, true)
        } else {
            (status, false)
        },
{
    if has_child && kill_ok {
        (ToolStatus::Stopped, true)
    } else {
        (status, false)
    }
}

/// The arguments joined with single spaces.
pub open spec fn joined_args(args: Seq<Seq<char>>) -> Seq<char>
    decreases args.len(),
{
    if args.len() == 0 {
        Seq::empty()
    } else if args.len() == 1 {
        args[0]
    } else {
        joined_args(args.drop_last()) + " "@ + args.last()
    }
}

/// The texts of some strings.
pub open spec fn texts_of(v: Seq<String>) -> Seq<Seq<char>> {
    v.map_values(|s: String| s@)
}

/// Get a display-friendly summary: the command, then its arguments, separated by spaces.
pub fn display_command(command: &str, args: &[String]) -> (s: String)
    ensures
        s@ == if args.len() == 0 {
            command@
        } else {
            command@ + " "@ + joined_args(texts_of(args@))
        },
{
    let mut s = String::from_str(command);
    if args.len() == 0 {
        return s;
    }
    proof {
        reveal_strlit(" ");
    }
    push_char(&mut s, ' ');
    let mut i: usize = 0;
    while i < args.len()
        invariant
            i <= args.len(),
            args.len() > 0,
            s@ == command@ + " "@ + joined_args(texts_of(args@.take(i as int))),
        decreases args.len() - i,
    {
        let ghost sb = s@;
        proof {
            assert(texts_of(args@.take(i + 1)).drop_last() =~= texts_of(args@.take(i as int)));
            assert(texts_of(args@.take(i + 1)).last() == args@[i as int]@);
        }
        if i > 0 {
            push_char(&mut s, ' ');
        }
        push_str(&mut s, args[i].as_str());
        proof {
            if i == 0 {
                assert(texts_of(args@.take(1)) =~= seq![args@[0]@]);
                assert(joined_args(texts_of(args@.take(1))) == args@[0]@);
                assert(texts_of(args@.take(0)) =~= Seq::<Seq<char>>::empty());
                assert(s@ =~= command@ + " "@ + joined_args(texts_of(args@.take(i + 1))));
            } else {
                reveal_strlit(" ");
                assert(joined_args(texts_of(args@.take(i + 1))) == joined_args(texts_of(args@.take(i as int)))
                    + " "@ + args@[i as int]@);
                assert(s@ =~= sb + " "@ + args@[i as int]@);
                assert(s@ =~= command@ + " "@ + joined_args(texts_of(args@.take(i + 1))));
            }
        }
        i = i + 1;
    }
    assert(args@.take(i as int) =~= args@);
    s
}

/// Pinned launcher configuration
#[derive(Debug, Clone)]
pub struct PinnedLauncher {
    pub id: u128,
    pub name: String,
    pub command: String,
    pub args: Vec<String>,
    pub icon: Option<String>,
}

/// A pinned launcher as plain values.
pub open spec fn launcher_view(l: PinnedLauncher) -> (u128, Seq<char>, Seq<char>, Seq<Seq<char>>, Option<Seq<char>>) {
    (
        l.id,
        l.name@,
        l.command@,
        texts_of(l.args@),
        match l.icon {
            Some(i) => Some(i@),
            None => None,
        },
    )
}

fn copy_strings(v: &Vec<String>) -> (r: Vec<String>)
    ensures
        texts_of(r@) == texts_of(v@),
{
    let mut r: Vec<String> = Vec::new();
    let mut i: usize = 0;
    while i < v.len()
        invariant
            i <= v.len(),
            texts_of(r@) == texts_of(v@.take(i as int)),
        decreases v.len() - i,
    {
        let ghost before = r@;
        r.push(v[i].clone());
        proof {
            assert(texts_of(r@) =~= texts_of(before).push(v@[i as int]@));
            assert(texts_of(v@.take(i + 1)) =~= texts_of(v@.take(i as int)).push(v@[i as int]@));
        }
        i = i + 1;
    }
    assert(v@.take(i as int) =~= v@);
    r
}

/// A copy of a pinned launcher.
pub fn copy_launcher(l: &PinnedLauncher) -> (r: PinnedLauncher)
    ensures
        launcher_view(r) == launcher_view(*l),
{
    PinnedLauncher {
        id: l.id,
        name: l.name.clone(),
        command: l.command.clone(),
        args: copy_strings(&l.args),
        icon: match &l.icon {
            Some(i) => Some(i.clone()),
            None => None,
        },
    }
}

impl PinnedLauncher {
    /// A new launcher with a fresh identifier and no icon.
    pub fn new(name: String, command: String, args: Vec<String>) -> (l: Self)
        ensures
            l.name == name,
            l.command == command,
            l.args == args,
            l.icon is None,
    {
        PinnedLauncher { id: new_id(), name, command, args, icon: None }
    }
}

/// Pinned launchers of every hall.
#[derive(Debug)]
pub struct PinnedLaunchers {
    /// Each hall with its launchers, in the order pinned
    pub halls: Vec<(u128, Vec<PinnedLauncher>)>,
}

/// The launchers pinned in `hall` (none when the hall has no entry).
pub open spec fn pinned_in(halls: Seq<(u128, Vec<PinnedLauncher>)>, hall: u128) -> Seq<PinnedLauncher>
    decreases halls.len(),
{
    if halls.len() == 0 {
        Seq::empty()
    } else if halls[0].0 == hall {
        halls[0].1@
    } else {
        pinned_in(halls.drop_first(), hall)
    }
}

/// The hall has an entry (possibly with no launchers left).
pub open spec fn has_hall(halls: Seq<(u128, Vec<PinnedLauncher>)>, hall: u128) -> bool {
    exists|k: int| 0 <= k < halls.len() && (#[trigger] halls[k]).0 == hall
}

proof fn lemma_pinned_at(halls: Seq<(u128, Vec<PinnedLauncher>)>, hall: u128, k: int)
    requires
        0 <= k < halls.len(),
        halls[k].0 == hall,
        forall|j: int| 0 <= j < k ==> (#[trigger] halls[j]).0 != hall,
    ensures
        pinned_in(halls, hall) == halls[k].1@,
    decreases k,
{
    if k > 0 {
        assert forall|j: int| 0 <= j < k - 1 implies (#[trigger] halls.drop_first()[j]).0 != hall by {
            assert(halls.drop_first()[j] == halls[j + 1]);
        }
        assert(halls[0].0 != hall);
        lemma_pinned_at(halls.drop_first(), hall, k - 1);
    }
}

proof fn lemma_pinned_none(halls: Seq<(u128, Vec<PinnedLauncher>)>, hall: u128)
    requires
        forall|j: int| 0 <= j < halls.len() ==> (#[trigger] halls[j]).0 != hall,
    ensures
        pinned_in(halls, hall) == Seq::<PinnedLauncher>::empty(),
    decreases halls.len(),
{
    if halls.len() > 0 {
        assert(halls[0].0 != hall);
        assert forall|j: int| 0 <= j < halls.len() - 1 implies (#[trigger] halls.drop_first()[j]).0 != hall by {
            assert(halls.drop_first()[j] == halls[j + 1]);
        }
        lemma_pinned_none(halls.drop_first(), hall);
    }
}

proof fn lemma_pinned_other(halls: Seq<(u128, Vec<PinnedLauncher>)>, k: int, v: Vec<PinnedLauncher>, hall: u128)
    requires
        0 <= k < halls.len(),
        halls[k].0 != hall,
    ensures
        pinned_in(halls.update(k, (halls[k].0, v)), hall) == pinned_in(halls, hall),
    decreases halls.len(),
{
    if k == 0 {
        assert(halls.update(k, (halls[k].0, v)).drop_first() =~= halls.drop_first());
    } else if halls.len() > 0 && k > 0 {
        assert(halls.update(k, (halls[k].0, v)).drop_first() =~= halls.drop_first().update(
            k - 1,
            (halls[k].0, v),
        ));
        lemma_pinned_other(halls.drop_first(), k - 1, v, hall);
    }
}

proof fn lemma_pinned_push_other(halls: Seq<(u128, Vec<PinnedLauncher>)>, e: (u128, Vec<PinnedLauncher>), hall: u128)
    requires
        e.0 != hall,
    ensures
        pinned_in(halls.push(e), hall) == pinned_in(halls, hall),
    decreases halls.len(),
{
    if halls.len() > 0 {
        assert(halls.push(e).drop_first() =~= halls.drop_first().push(e));
        lemma_pinned_push_other(halls.drop_first(), e, hall);
    } else {
        assert(halls.push(e).drop_first() =~= Seq::<(u128, Vec<PinnedLauncher>)>::empty());
        assert(pinned_in(Seq::<(u128, Vec<PinnedLauncher>)>::empty(), hall) == Seq::<PinnedLauncher>::empty());
    }
}

impl PinnedLaunchers {
    pub fn new() -> (p: Self)
        ensures
            p.halls@.len() == 0,
    {
        PinnedLaunchers { halls: Vec::new() }
    }

    fn position(&self, hall: u128) -> (r: Option<usize>)
        ensures
            match r {
                Some(k) => k < self.halls.len() && self.halls@[k as int].0 == hall && forall|j: int|
                    0 <= j < k ==> (#[trigger] self.halls@[j]).0 != hall,
                None => forall|j: int| 0 <= j < self.halls.len() ==> (#[trigger] self.halls@[j]).0 != hall,
            },
    {
        let mut i: usize = 0;
        while i < self.halls.len()
            invariant
                i <= self.halls.len(),
                forall|j: int| 0 <= j < i ==> (#[trigger] self.halls@[j]).0 != hall,
            decreases self.halls.len() - i,
        {
            if self.halls[i].0 == hall {
                return Some(i);
            }
            i = i + 1;
        }
        None
    }

    /// Whether the hall has an entry.
    pub fn contains_hall(&self, hall: u128) -> (b: bool)
        ensures
            b == has_hall(self.halls@, hall),
    {
        self.position(hall).is_some()
    }

    /// Add a pinned launcher for a hall, after those already there.
    pub fn add_pinned(&mut self, hall: u128, launcher: PinnedLauncher)
        ensures
            pinned_in(final(self).halls@, hall) == pinned_in(old(self).halls@, hall).push(launcher),
            forall|h: u128| h != hall ==> pinned_in(final(self).halls@, h) == pinned_in(old(self).halls@, h),
            has_hall(final(self).halls@, hall),
            forall|h: u128| #[trigger] has_hall(old(self).halls@, h) ==> has_hall(final(self).halls@, h),
    {
        let ghost before = self.halls@;
        match self.position(hall) {
            Some(k) => {
                let mut entry: (u128, Vec<PinnedLauncher>) = (hall, Vec::new());
                std::mem::swap(&mut entry, &mut self.halls[k]);
                entry.1.push(launcher);
                self.halls.set(k, entry);
                proof {
                    lemma_pinned_at(before, hall, k as int);
                    lemma_pinned_at(self.halls@, hall, k as int);
                    assert forall|h: u128| h != hall implies pinned_in(self.halls@, h) == pinned_in(before, h) by {
                        assert(self.halls@ == before.update(k as int, (before[k as int].0, self.halls@[k as int].1)));
                        lemma_pinned_other(before, k as int, self.halls@[k as int].1, h);
                    }
                    assert(has_hall(self.halls@, hall)) by {
                        assert(self.halls@[k as int].0 == hall);
                    }
                    assert forall|h: u128| #[trigger] has_hall(before, h) implies has_hall(self.halls@, h) by {
                        let j = choose|j: int| 0 <= j < before.len() && (#[trigger] before[j]).0 == h;
                        assert(self.halls@[j].0 == h);
                    }
                }
            },
            None => {
                let v = vec![launcher];
                self.halls.push((hall, v));
                proof {
                    lemma_pinned_none(before, hall);
                    let n = before.len() as int;
                    assert forall|j: int| 0 <= j < n implies (#[trigger] self.halls@[j]).0 != hall by {
                        assert(self.halls@[j] == before[j]);
                    }
                    lemma_pinned_at(self.halls@, hall, n);
                    assert(pinned_in(self.halls@, hall) =~= Seq::<PinnedLauncher>::empty().push(launcher));
                    assert forall|h: u128| h != hall implies pinned_in(self.halls@, h) == pinned_in(before, h) by {
                        lemma_pinned_push_other(before, (hall, v), h);
                    }
                    assert(has_hall(self.halls@, hall)) by {
                        assert(self.halls@[n].0 == hall);
                    }
                    assert forall|h: u128| #[trigger] has_hall(before, h) implies has_hall(self.halls@, h) by {
                        let j = choose|j: int| 0 <= j < before.len() && (#[trigger] before[j]).0 == h;
                        assert(self.halls@[j].0 == h);
                    }
                }
            },
        }
    }

    /// Get pinned launchers for a hall (copies, in the order pinned).
    pub fn get_pinned(&self, hall: u128) -> (r: Vec<PinnedLauncher>)
        ensures
            r@.map_values(|l: PinnedLauncher| launcher_view(l)) == pinned_in(self.halls@, hall).map_values(
                |l: PinnedLauncher| launcher_view(l),
            ),
    {
        match self.position(hall) {
            Some(k) => {
                proof {
                    lemma_pinned_at(self.halls@, hall, k as int);
                }
                let src = &self.halls[k].1;
                let mut r: Vec<PinnedLauncher> = Vec::new();
                let mut i: usize = 0;
                while i < src.len()
                    invariant
                        i <= src.len(),
                        r@.map_values(|l: PinnedLauncher| launcher_view(l)) == src@.take(i as int).map_values(
                            |l: PinnedLauncher| launcher_view(l),
                        ),
                    decreases src.len() - i,
                {
                    let ghost before = r@;
                    r.push(copy_launcher(&src[i]));
                    proof {
                        let f = |l: PinnedLauncher| launcher_view(l);
                        assert(r@.map_values(f) =~= before.map_values(f).push(launcher_view(src@[i as int])));
                        assert(src@.take(i + 1).map_values(f) =~= src@.take(i as int).map_values(f).push(
                            launcher_view(src@[i as int]),
                        ));
                    }
                    i = i + 1;
                }
                assert(src@.take(i as int) =~= src@);
                r
            },
            None => {
                proof {
                    lemma_pinned_none(self.halls@, hall);
                }
                assert(Seq::<PinnedLauncher>::empty().map_values(|l: PinnedLauncher| launcher_view(l))
                    =~= Seq::<(u128, Seq<char>, Seq<char>, Seq<Seq<char>>, Option<Seq<char>>)>::empty());
                Vec::new()
            },
        }
    }

    /// Remove a pinned launcher; whether one was removed.
    pub fn remove_pinned(&mut self, hall: u128, launcher_id: u128) -> (removed: bool)
        ensures
            pinned_in(final(self).halls@, hall) == pinned_in(old(self).halls@, hall).filter(
                |l: PinnedLauncher| l.id != launcher_id,
            ),
            forall|h: u128| h != hall ==> pinned_in(final(self).halls@, h) == pinned_in(old(self).halls@, h),
            removed == (pinned_in(final(self).halls@, hall).len() < pinned_in(old(self).halls@, hall).len()),
    {
        let ghost before = self.halls@;
        match self.position(hall) {
            Some(k) => {
                let mut entry: (u128, Vec<PinnedLauncher>) = (hall, Vec::new());
                std::mem::swap(&mut entry, &mut self.halls[k]);
                let ghost old_list = entry.1@;
                let len_before = entry.1.len();
                let ghost keep = |l: PinnedLauncher| l.id != launcher_id;
                let mut rest: Vec<PinnedLauncher> = Vec::new();
                std::mem::swap(&mut rest, &mut entry.1);
                let total = rest.len();
                let mut kept: Vec<PinnedLauncher> = Vec::new();
                assert(old_list.take(0).filter(keep) =~= Seq::<PinnedLauncher>::empty()) by {
                    reveal(Seq::filter);
                }
                while rest.len() > 0
                    invariant
                        old_list.len() == total,
                        rest.len() <= total,
                        keep == (|l: PinnedLauncher| l.id != launcher_id),
                        rest@ == old_list.skip(total - rest.len()),
                        kept@ == old_list.take(total - rest.len()).filter(keep),
                    decreases rest.len(),
                {
                    let ghost i = total - rest.len();
                    let l = rest.remove(0);
                    assert(l == old_list[i]);
                    assert(rest@ =~= old_list.skip(i + 1));
                    assert(old_list.take(i + 1).drop_last() =~= old_list.take(i));
                    assert(old_list.take(i + 1).last() == old_list[i]);
                    if l.id != launcher_id {
                        kept.push(l);
                    }
                    proof {
                        reveal(Seq::filter);
                    }
                }
                assert(old_list.take(total as int) =~= old_list);
                let removed = kept.len() < len_before;
                entry.1 = kept;
                self.halls.set(k, entry);
                proof {
                    lemma_pinned_at(before, hall, k as int);
                    lemma_pinned_at(self.halls@, hall, k as int);
                    assert forall|h: u128| h != hall implies pinned_in(self.halls@, h) == pinned_in(before, h) by {
                        assert(self.halls@ == before.update(k as int, (before[k as int].0, self.halls@[k as int].1)));
                        lemma_pinned_other(before, k as int, self.halls@[k as int].1, h);
                    }
                }
                removed
            },
            None => {
                proof {
                    lemma_pinned_none(before, hall);
                    reveal(Seq::filter);
                }
                false
            },
        }
    }

    /// Find a pinned launcher of a hall by identifier (a copy).
    pub fn find_pinned(&self, hall: u128, launcher_id: u128) -> (r: Option<PinnedLauncher>)
        ensures
            match r {
                Some(l) => l.id == launcher_id && exists|k: int|
                    0 <= k < pinned_in(self.halls@, hall).len() && launcher_view(l) == launcher_view(
                        #[trigger] pinned_in(self.halls@, hall)[k],
                    ),
                None => forall|k: int|
                    0 <= k < pinned_in(self.halls@, hall).len() ==> (#[trigger] pinned_in(
                        self.halls@,
                        hall,
                    )[k]).id != launcher_id,
            },
    {
        match self.position(hall) {
            Some(k) => {
                proof {
                    lemma_pinned_at(self.halls@, hall, k as int);
                }
                let list = &self.halls[k].1;
                let mut i: usize = 0;
                while i < list.len()
                    invariant
                        i <= list.len(),
                        pinned_in(self.halls@, hall) == list@,
                        forall|j: int| 0 <= j < i ==> (#[trigger] list@[j]).id != launcher_id,
                    decreases list.len() - i,
                {
                    if list[i].id == launcher_id {
                        let c = copy_launcher(&list[i]);
                        assert(launcher_view(c) == launcher_view(list@[i as int]));
                        assert(pinned_in(self.halls@, hall)[i as int] == list@[i as int]);
                        return Some(c);
                    }
                    i = i + 1;
                }
                None
            },
            None => {
                proof {
                    lemma_pinned_none(self.halls@, hall);
                }
                None
            },
        }
    }
}

/// The default launchers, in order of preference: a terminal and a file manager.
pub open spec fn default_launcher_table() -> Seq<(Seq<char>, Seq<char>)> {
    seq![
        ("Terminal"@, "kitty"@),
        ("Terminal"@, "alacritty"@),
        ("Terminal"@, "gnome-terminal"@),
        ("Files"@, "nautilus"@),
        ("Files"@, "dolphin"@),
    ]
}

/// The default launchers to pin, given which of the candidate commands
/// exist: for each name, the first candidate that exists.
pub fn default_launchers(available: &[bool; 5]) -> (r: Vec<(&'static str, &'static str)>)
    ensures
        r@.map_values(|p: (&'static str, &'static str)| (p.0@, p.1@)) == default_choice(available@),
{
    let table: [(&'static str, &'static str); 5] = [
        ("Terminal", "kitty"),
        ("Terminal", "alacritty"),
        ("Terminal", "gnome-terminal"),
        ("Files", "nautilus"),
        ("Files", "dolphin"),
    ];
    let mut r: Vec<(&'static str, &'static str)> = Vec::new();
    let mut have_terminal = false;
    let mut have_files = false;
    let mut i: usize = 0;
    while i < 5
        invariant
            i <= 5,
            table@ == seq![
                ("Terminal", "kitty"),
                ("Terminal", "alacritty"),
                ("Terminal", "gnome-terminal"),
                ("Files", "nautilus"),
                ("Files", "dolphin"),
            ],
            have_terminal == (exists|j: int| 0 <= j < i && j < 3 && available@[j]),
            have_files == (exists|j: int| 3 <= j < i && available@[j]),
            r@.map_values(|p: (&'static str, &'static str)| (p.0@, p.1@)) == default_choice(
                available@.take(i as int),
            ),
        decreases 5 - i,
    {
        let is_terminal = i < 3;
        let taken = if is_terminal { have_terminal } else { have_files };
        let ghost before = r@;
        proof {
            let t = available@.take(i + 1);
            assert(t.drop_last() =~= available@.take(i as int));
            assert(t.len() - 1 == i);
            if i < 3 {
                assert((exists|j: int| 0 <= j < i && t[j]) == have_terminal) by {
                    if have_terminal {
                        let j = choose|j: int| 0 <= j < i && j < 3 && available@[j];
                        assert(t[j]);
                    }
                    if exists|j: int| 0 <= j < i && t[j] {
                        let j = choose|j: int| 0 <= j < i && t[j];
                        assert(available@[j]);
                    }
                }
            } else {
                assert((exists|j: int| 3 <= j < i && t[j]) == have_files) by {
                    if have_files {
                        let j = choose|j: int| 3 <= j < i && available@[j];
                        assert(t[j]);
                    }
                    if exists|j: int| 3 <= j < i && t[j] {
                        let j = choose|j: int| 3 <= j < i && t[j];
                        assert(available@[j]);
                    }
                }
            }
        }
        if available[i] && !taken {
            r.push(table[i]);
            if is_terminal {
                have_terminal = true;
            } else {
                have_files = true;
            }
        }
        proof {
            let t = available@.take(i + 1);
            assert(t[i as int] == available@[i as int]);
            let f = |p: (&'static str, &'static str)| (p.0@, p.1@);
            if available@[i as int] && !taken {
                assert(r@.map_values(f) =~= before.map_values(f).push(f(table@[i as int])));
            }
        }
        i = i + 1;
    }
    assert(available@.take(5) =~= available@);
    r
}

/// Which default launchers the availability flags choose, in order: a
/// candidate is chosen when it exists and no earlier candidate of its name was.
pub open spec fn default_choice(available: Seq<bool>) -> Seq<(Seq<char>, Seq<char>)>
    decreases available.len(),
{
    if available.len() == 0 {
        Seq::empty()
    } else {
        let i = available.len() - 1;
        let prev = default_choice(available.drop_last());
        let same_name_before = if i < 3 {
            exists|j: int| 0 <= j < i && available[j]
        } else {
            exists|j: int| 3 <= j < i && available[j]
        };
        if i < 5 && available[i] && !same_name_before {
            prev.push(default_launcher_table()[i])
        } else {
            prev
        }
    }
}


// ---------------------------------------------------------------------------
// Launched tools

/// A launched external tool as the runtime tracks it. The process handle
/// stays with the app, which reports what it observes of it.
#[derive(Debug, Clone)]
pub struct LaunchedTool {
    /// Unique ID for this tool instance
    pub id: u128,
    /// Hall this tool was launched from
    pub hall_id: u128,
    /// Bot or user that launched it (None = user)
    pub launched_by: Option<String>,
    /// Display name
    pub name: String,
    /// Command that was run
    pub command: String,
    /// Arguments
    pub args: Vec<String>,
    /// When it was launched
    pub launched_at: crate::time::Timestamp,
    /// Current status
    pub status: ToolStatus,
    /// Whether the app still holds a process handle for it
    pub has_child: bool,
    /// Process ID (for display only - not for control)
    pub pid: Option<u32>,
}

/// Snapshot of a tool for UI display (no process handle)
#[derive(Debug, Clone)]
pub struct ToolSnapshot {
    pub id: u128,
    pub hall_id: u128,
    pub name: String,
    pub command: String,
    pub launched_by: Option<String>,
    pub launched_at: crate::time::Timestamp,
    pub status: ToolStatus,
    pub pid: Option<u32>,
}

/// The text of an optional string.
pub open spec fn opt_text(o: Option<String>) -> Option<Seq<char>> {
    match o {
        Some(s) => Some(s@),
        None => None,
    }
}

/// The command line shown for a tool.
pub open spec fn command_line(t: LaunchedTool) -> Seq<char> {
    if t.args@.len() == 0 {
        t.command@
    } else {
        t.command@ + " "@ + joined_args(texts_of(t.args@))
    }
}

/// `s` shows the tool `t`.
pub open spec fn snapshot_of(t: LaunchedTool, s: ToolSnapshot) -> bool {
    &&& s.id == t.id
    &&& s.hall_id == t.hall_id
    &&& s.name@ == t.name@
    &&& s.command@ == command_line(t)
    &&& opt_text(s.launched_by) == opt_text(t.launched_by)
    &&& s.launched_at == t.launched_at
    &&& s.status == t.status
    &&& s.pid == t.pid
}

/// The first tool with identifier `id`, if any.
pub open spec fn first_tool(s: Seq<LaunchedTool>, id: u128) -> Option<int> {
    if exists|k: int| is_first_tool(s, id, k) {
        Some(choose|k: int| is_first_tool(s, id, k))
    } else {
        None
    }
}

/// `k` is the first position of a tool with identifier `id`.
pub open spec fn is_first_tool(s: Seq<LaunchedTool>, id: u128, k: int) -> bool {
    &&& 0 <= k < s.len()
    &&& s[k].id == id
    &&& forall|j: int| 0 <= j < k ==> (#[trigger] s[j]).id != id
}

proof fn lemma_first_tool_unique(s: Seq<LaunchedTool>, id: u128, k: int)
    requires
        is_first_tool(s, id, k),
    ensures
        first_tool(s, id) == Some(k),
{
    let c = choose|c: int| is_first_tool(s, id, c);
    if c < k {
        assert(s[c].id != id);
    } else if k < c {
        assert(s[k].id != id);
    }
}

/// The tool after a probe of its process (see `spec_refresh`).
pub open spec fn refreshed(t: LaunchedTool, probe: ChildProbe) -> LaunchedTool {
    LaunchedTool { status: spec_refresh(t.status, probe).0, has_child: spec_refresh(t.status, probe).1, ..t }
}

/// A tool of `hall`, and running when `running_only`.
pub open spec fn listed(t: LaunchedTool, hall: u128, running_only: bool) -> bool {
    t.hall_id == hall && (!running_only || t.status == ToolStatus::Running)
}

/// A tool kept by a clean-up of `hall` (every hall when `hall` is `None`):
/// one of another hall, or one still running.
pub open spec fn kept_by_cleanup(t: LaunchedTool, hall: Option<u128>) -> bool {
    t.status == ToolStatus::Running || (hall matches Some(h) && t.hall_id != h)
}

/// A snapshot of a tool.
pub fn snapshot(t: &LaunchedTool) -> (s: ToolSnapshot)
    ensures
        snapshot_of(*t, s),
{
    ToolSnapshot {
        id: t.id,
        hall_id: t.hall_id,
        name: t.name.clone(),
        command: display_command(t.command.as_str(), t.args.as_slice()),
        launched_by: match &t.launched_by {
            Some(b) => Some(b.clone()),
            None => None,
        },
        launched_at: t.launched_at,
        status: t.status,
        pid: t.pid,
    }
}

/// The message of a failed launch.
pub fn launch_error(command: &str, error: &str) -> (s: String)
    ensures
        s@ == "Failed to launch "@ + command@ + ": "@ + error@,
{
    let mut s = String::from_str("Failed to launch ");
    s.append(command);
    s.append(": ");
    s.append(error);
    s
}

/// Reads a tool identifier from its text.
pub fn parse_tool_id(text: &str) -> (r: Result<u128, String>)
    ensures
        match crate::ids::uuid_from_text(text@) {
            None => r matches Err(m) && m@ == "Invalid tool ID"@,
            Some(x) => r == Ok::<u128, String>(x),
        },
{
    match crate::ids::parse_id(text) {
        Some(x) => Ok(x),
        None => Err(String::from_str("Invalid tool ID")),
    }
}

/// External tool runtime: the tools launched from each hall and the
/// launchers pinned in each. Tools run as separate OS windows.
pub struct ExternalToolRuntime {
    /// Launched tools, in order of launch
    pub tools: Vec<LaunchedTool>,
    /// Pinned launchers per hall
    pub pinned: PinnedLaunchers,
}

impl ExternalToolRuntime {
    pub fn new() -> (r: Self)
        ensures
            r.tools@.len() == 0,
            r.pinned.halls@.len() == 0,
    {
        ExternalToolRuntime { tools: Vec::new(), pinned: PinnedLaunchers::new() }
    }

    fn position(&self, id: u128) -> (r: Option<usize>)
        ensures
            match r {
                Some(k) => is_first_tool(self.tools@, id, k as int) && first_tool(self.tools@, id) == Some(
                    k as int,
                ),
                None => first_tool(self.tools@, id) is None && forall|j: int|
                    0 <= j < self.tools@.len() ==> (#[trigger] self.tools@[j]).id != id,
            },
    {
        let mut i: usize = 0;
        while i < self.tools.len()
            invariant
                i <= self.tools.len(),
                forall|j: int| 0 <= j < i ==> (#[trigger] self.tools@[j]).id != id,
            decreases self.tools.len() - i,
        {
            if self.tools[i].id == id {
                proof {
                    lemma_first_tool_unique(self.tools@, id, i as int);
                }
                return Some(i);
            }
            i = i + 1;
        }
        None
    }

    /// Record a tool the app has just started as process `pid`: it gets a
    /// fresh identifier and is running, launched now. Returns its identifier.
    pub fn launched(
        &mut self,
        hall_id: u128,
        name: String,
        command: String,
        args: Vec<String>,
        launched_by: Option<String>,
        pid: u32,
    ) -> (id: u128)
        ensures
            ({
                let t = final(self).tools@[first_tool(final(self).tools@, id)->0];
                &&& first_tool(final(self).tools@, id) is Some
                &&& t.hall_id == hall_id && t.name == name && t.command == command && t.args == args
                &&& t.launched_by == launched_by && t.status == ToolStatus::Running && t.has_child
                &&& t.pid == Some(pid) && crate::time::chrono_ok(t.launched_at)
            }),
            match first_tool(old(self).tools@, id) {
                Some(k) => final(self).tools@.len() == old(self).tools@.len() && forall|j: int|
                    0 <= j < old(self).tools@.len() && j != k ==> final(self).tools@[j] == old(
                        self,
                    ).tools@[j],
                None => final(self).tools@.len() == old(self).tools@.len() + 1 && forall|j: int|
                    0 <= j < old(self).tools@.len() ==> final(self).tools@[j] == old(self).tools@[j],
            },
            final(self).pinned == old(self).pinned,
    {
        let id = new_id();
        let tool = LaunchedTool {
            id,
            hall_id,
            launched_by,
            name,
            command,
            args,
            launched_at: crate::time::now(),
            status: ToolStatus::Running,
            has_child: true,
            pid: Some(pid),
        };
        match self.position(id) {
            Some(k) => {
                self.tools.set(k, tool);
                proof {
                    assert(is_first_tool(self.tools@, id, k as int));
                    lemma_first_tool_unique(self.tools@, id, k as int);
                }
            },
            None => {
                self.tools.push(tool);
                proof {
                    let n = self.tools@.len() - 1;
                    assert(is_first_tool(self.tools@, id, n));
                    lemma_first_tool_unique(self.tools@, id, n);
                }
            },
        }
        id
    }

    /// Apply what the app observed of a tool's process (`probe`); a tool that
    /// is not known is ignored.
    pub fn refresh(&mut self, tool_id: u128, probe: ChildProbe)
        ensures
            match first_tool(old(self).tools@, tool_id) {
                None => final(self).tools@ == old(self).tools@,
                Some(k) => final(self).tools@ == old(self).tools@.update(
                    k,
                    refreshed(old(self).tools@[k], probe),
                ),
            },
            final(self).pinned == old(self).pinned,
    {
        match self.position(tool_id) {
            None => {},
            Some(k) => {
                let ghost before = self.tools@;
                let mut t = self.tools.remove(k);
                let (status, keep) = refresh_status(t.status, probe);
                t.status = status;
                t.has_child = keep;
                self.tools.insert(k, t);
                assert(self.tools@ =~= before.update(k as int, refreshed(before[k as int], probe)));
            },
        }
    }
}


impl ExternalToolRuntime {
    fn collect(&self, hall: u128, running_only: bool) -> (r: Vec<ToolSnapshot>)
        ensures
            r@.len() == self.tools@.filter(|t: LaunchedTool| listed(t, hall, running_only)).len(),
            forall|k: int|
                0 <= k < r@.len() ==> snapshot_of(
                    self.tools@.filter(|t: LaunchedTool| listed(t, hall, running_only))[k],
                    #[trigger] r@[k],
                ),
    {
        let ghost keep = |t: LaunchedTool| listed(t, hall, running_only);
        let ghost f = self.tools@;
        let mut r: Vec<ToolSnapshot> = Vec::new();
        let mut i: usize = 0;
        assert(f.take(0).filter(keep) =~= Seq::<LaunchedTool>::empty()) by {
            reveal(Seq::filter);
        }
        while i < self.tools.len()
            invariant
                i <= self.tools.len(),
                f == self.tools@,
                keep == (|t: LaunchedTool| listed(t, hall, running_only)),
                r@.len() == f.take(i as int).filter(keep).len(),
                forall|k: int| 0 <= k < r@.len() ==> snapshot_of(f.take(i as int).filter(keep)[k], #[trigger] r@[k]),
            decreases self.tools.len() - i,
        {
            let ghost before = f.take(i as int).filter(keep);
            assert(f.take(i + 1).drop_last() =~= f.take(i as int));
            assert(f.take(i + 1).last() == f[i as int]);
            proof {
                reveal(Seq::filter);
            }
            let t = &self.tools[i];
            if t.hall_id == hall && (!running_only || t.status == ToolStatus::Running) {
                let snap = snapshot(t);
                r.push(snap);
                proof {
                    assert(f.take(i + 1).filter(keep) == before.push(f[i as int]));
                    assert forall|k: int| 0 <= k < r@.len() implies snapshot_of(
                        f.take(i + 1).filter(keep)[k],
                        #[trigger] r@[k],
                    ) by {}
                }
            } else {
                proof {
                    assert(f.take(i + 1).filter(keep) == before);
                }
            }
            i = i + 1;
        }
        assert(f.take(self.tools.len() as int) =~= f);
        r
    }

    /// The tools of a hall, in order of launch (statuses as last observed).
    pub fn list_for_hall(&self, hall_id: u128) -> (r: Vec<ToolSnapshot>)
        ensures
            r@.len() == self.tools@.filter(|t: LaunchedTool| listed(t, hall_id, false)).len(),
            forall|k: int|
                0 <= k < r@.len() ==> snapshot_of(
                    self.tools@.filter(|t: LaunchedTool| listed(t, hall_id, false))[k],
                    #[trigger] r@[k],
                ),
    {
        self.collect(hall_id, false)
    }

    /// The running tools of a hall, in order of launch.
    pub fn list_running_for_hall(&self, hall_id: u128) -> (r: Vec<ToolSnapshot>)
        ensures
            r@.len() == self.tools@.filter(|t: LaunchedTool| listed(t, hall_id, true)).len(),
            forall|k: int|
                0 <= k < r@.len() ==> snapshot_of(
                    self.tools@.filter(|t: LaunchedTool| listed(t, hall_id, true))[k],
                    #[trigger] r@[k],
                ),
    {
        self.collect(hall_id, true)
    }

    /// How many tools of a hall are running.
    pub fn running_count(&self, hall_id: u128) -> (n: usize)
        ensures
            n == self.tools@.filter(|t: LaunchedTool| listed(t, hall_id, true)).len(),
    {
        self.collect(hall_id, true).len()
    }

    fn cleanup(&mut self, hall: Option<u128>) -> (removed: Vec<u128>)
        ensures
            final(self).tools@ == old(self).tools@.filter(|t: LaunchedTool| kept_by_cleanup(t, hall)),
            removed@ == old(self).tools@.filter(|t: LaunchedTool| !kept_by_cleanup(t, hall)).map_values(
                |t: LaunchedTool| t.id,
            ),
            final(self).pinned == old(self).pinned,
    {
        let ghost keep = |t: LaunchedTool| kept_by_cleanup(t, hall);
        let ghost drop = |t: LaunchedTool| !kept_by_cleanup(t, hall);
        let ghost id_of = |t: LaunchedTool| t.id;
        let ghost orig = self.tools@;
        let total = self.tools.len();
        let mut rest: Vec<LaunchedTool> = Vec::new();
        std::mem::swap(&mut rest, &mut self.tools);
        let mut kept: Vec<LaunchedTool> = Vec::new();
        let mut removed: Vec<u128> = Vec::new();
        let mut i: usize = 0;
        assert(orig.take(0).filter(keep) =~= Seq::<LaunchedTool>::empty()) by {
            reveal(Seq::filter);
        }
        assert(orig.take(0).filter(drop) =~= Seq::<LaunchedTool>::empty()) by {
            reveal(Seq::filter);
        }
        assert(rest@ =~= orig.skip(0));
        while rest.len() > 0
            invariant
                i <= orig.len(),
                orig.len() == total,
                rest@ == orig.skip(i as int),
                keep == (|t: LaunchedTool| kept_by_cleanup(t, hall)),
                drop == (|t: LaunchedTool| !kept_by_cleanup(t, hall)),
                id_of == (|t: LaunchedTool| t.id),
                kept@ == orig.take(i as int).filter(keep),
                removed@ == orig.take(i as int).filter(drop).map_values(id_of),
                self.tools@.len() == 0,
                self.pinned == old(self).pinned,
            decreases rest.len(),
        {
            let ghost before_k = kept@;
            let ghost before_r = orig.take(i as int).filter(drop);
            assert(orig.take(i + 1).drop_last() =~= orig.take(i as int));
            assert(orig.take(i + 1).last() == orig[i as int]);
            let t = rest.remove(0);
            assert(t == orig[i as int]);
            assert(rest@ =~= orig.skip(i + 1));
            proof {
                reveal(Seq::filter);
            }
            if t.status == ToolStatus::Running || (match hall {
                Some(h) => t.hall_id != h,
                None => false,
            }) {
                kept.push(t);
                proof {
                    assert(orig.take(i + 1).filter(drop) == before_r);
                }
            } else {
                let id = t.id;
                removed.push(id);
                proof {
                    assert(orig.take(i + 1).filter(drop) == before_r.push(orig[i as int]));
                    assert(before_r.push(orig[i as int]).map_values(id_of) =~= before_r.map_values(id_of).push(id));
                    assert(orig.take(i + 1).filter(keep) == before_k);
                }
            }
            i = i + 1;
        }
        assert(orig.take(i as int) =~= orig) by {
            assert(orig.skip(i as int).len() == 0);
        }
        self.tools = kept;
        removed
    }

    /// Forget the tools that are no longer running; returns their identifiers
    /// (the app drops their process handles).
    pub fn cleanup_exited(&mut self) -> (removed: Vec<u128>)
        ensures
            final(self).tools@ == old(self).tools@.filter(|t: LaunchedTool| kept_by_cleanup(t, None)),
            removed@ == old(self).tools@.filter(|t: LaunchedTool| !kept_by_cleanup(t, None)).map_values(
                |t: LaunchedTool| t.id,
            ),
            final(self).pinned == old(self).pinned,
    {
        self.cleanup(None)
    }

    /// Forget the tools of a hall that are no longer running; returns their
    /// identifiers.
    pub fn cleanup_hall(&mut self, hall_id: u128) -> (removed: Vec<u128>)
        ensures
            final(self).tools@ == old(self).tools@.filter(|t: LaunchedTool| kept_by_cleanup(t, Some(hall_id))),
            removed@ == old(self).tools@.filter(|t: LaunchedTool| !kept_by_cleanup(t, Some(hall_id))).map_values(
                |t: LaunchedTool| t.id,
            ),
            final(self).pinned == old(self).pinned,
    {
        self.cleanup(Some(hall_id))
    }

    /// Stop a tool. The app has tried to kill the tool's process when it
    /// holds one, and `kill_ok` says whether that worked; only then is the
    /// tool stopped.
    pub fn stop(&mut self, tool_id: u128, kill_ok: bool) -> (r: Result<(), String>)
        ensures
            match first_tool(old(self).tools@, tool_id) {
                None => r matches Err(m) && m@ == "Tool not found"@ && final(self).tools@ == old(self).tools@,
                Some(k) => if old(self).tools@[k].has_child && kill_ok {
                    r is Ok && final(self).tools@ == old(self).tools@.update(
                        k,
                        LaunchedTool { status: ToolStatus::Stopped, has_child: false, ..old(self).tools@[k] },
                    )
                } else {
                    r matches Err(m) && m@ == "Tool is not running"@ && final(self).tools@ == old(self).tools@
                },
            },
            final(self).pinned == old(self).pinned,
    {
        match self.position(tool_id) {
            None => Err(String::from_str("Tool not found")),
            Some(k) => {
                let (status, stopped) = stop_outcome(self.tools[k].status, self.tools[k].has_child, kill_ok);
                if !stopped {
                    return Err(String::from_str("Tool is not running"));
                }
                let ghost before = self.tools@;
                let mut t = self.tools.remove(k);
                t.status = status;
                t.has_child = false;
                self.tools.insert(k, t);
                assert(self.tools@ =~= before.update(
                    k as int,
                    LaunchedTool { status: ToolStatus::Stopped, has_child: false, ..before[k as int] },
                ));
                Ok(())
            },
        }
    }

    /// Add a pinned launcher for a hall, after those already there.
    pub fn add_pinned(&mut self, hall_id: u128, launcher: PinnedLauncher)
        ensures
            pinned_in(final(self).pinned.halls@, hall_id) == pinned_in(old(self).pinned.halls@, hall_id).push(
                launcher,
            ),
            forall|h: u128| h != hall_id ==> pinned_in(final(self).pinned.halls@, h) == pinned_in(
                old(self).pinned.halls@,
                h,
            ),
            final(self).tools == old(self).tools,
    {
        self.pinned.add_pinned(hall_id, launcher);
    }

    /// Remove a pinned launcher; whether one was removed.
    pub fn remove_pinned(&mut self, hall_id: u128, launcher_id: u128) -> (removed: bool)
        ensures
            pinned_in(final(self).pinned.halls@, hall_id) == pinned_in(old(self).pinned.halls@, hall_id).filter(
                |l: PinnedLauncher| l.id != launcher_id,
            ),
            forall|h: u128| h != hall_id ==> pinned_in(final(self).pinned.halls@, h) == pinned_in(
                old(self).pinned.halls@,
                h,
            ),
            removed == (pinned_in(final(self).pinned.halls@, hall_id).len() < pinned_in(
                old(self).pinned.halls@,
                hall_id,
            ).len()),
            final(self).tools == old(self).tools,
    {
        self.pinned.remove_pinned(hall_id, launcher_id)
    }

    /// The pinned launchers of a hall (copies, in the order pinned).
    pub fn get_pinned(&self, hall_id: u128) -> (r: Vec<PinnedLauncher>)
        ensures
            r@.map_values(|l: PinnedLauncher| launcher_view(l)) == pinned_in(self.pinned.halls@, hall_id).map_values(
                |l: PinnedLauncher| launcher_view(l),
            ),
    {
        self.pinned.get_pinned(hall_id)
    }

    /// The launcher to start for `launch_pinned`: the hall's pinned launcher
    /// with that identifier, or the error the launch reports.
    pub fn launch_target(&self, hall_id: u128, launcher_id: u128) -> (r: Result<PinnedLauncher, String>)
        ensures
            match r {
                Ok(l) => l.id == launcher_id && exists|k: int|
                    0 <= k < pinned_in(self.pinned.halls@, hall_id).len() && launcher_view(l) == launcher_view(
                        #[trigger] pinned_in(self.pinned.halls@, hall_id)[k],
                    ),
                Err(m) => m@ == "Pinned launcher not found"@ && forall|k: int|
                    0 <= k < pinned_in(self.pinned.halls@, hall_id).len() ==> (#[trigger] pinned_in(
                        self.pinned.halls@,
                        hall_id,
                    )[k]).id != launcher_id,
            },
    {
        match self.pinned.find_pinned(hall_id, launcher_id) {
            Some(l) => Ok(l),
            None => Err(String::from_str("Pinned launcher not found")),
        }
    }

    /// Whether a hall still needs its default launchers: it has no entry yet.
    pub fn needs_default_pinned(&self, hall_id: u128) -> (b: bool)
        ensures
            b == !has_hall(self.pinned.halls@, hall_id),
    {
        !self.pinned.contains_hall(hall_id)
    }
}


proof fn lemma_filter_keeps_all(s: Seq<PinnedLauncher>, p: spec_fn(PinnedLauncher) -> bool)
    requires
        forall|k: int| 0 <= k < s.len() ==> p(#[trigger] s[k]),
    ensures
        s.filter(p) == s,
    decreases s.len(),
{
    reveal(Seq::filter);
    if s.len() > 0 {
        lemma_filter_keeps_all(s.drop_last(), p);
        assert(s.drop_last().push(s.last()) =~= s);
    }
}

/// Unpinning a launcher just pinned gives back the hall's launchers as they
/// were, when no launcher of the hall had its identifier.
pub proof fn lemma_unpin_undoes_pin(before: Seq<PinnedLauncher>, l: PinnedLauncher)
    requires
        forall|k: int| 0 <= k < before.len() ==> (#[trigger] before[k]).id != l.id,
    ensures
        before.push(l).filter(|x: PinnedLauncher| x.id != l.id) == before,
{
    let p = |x: PinnedLauncher| x.id != l.id;
    reveal(Seq::filter);
    assert(before.push(l).drop_last() =~= before);
    lemma_filter_keeps_all(before, p);
}

} // verus!
