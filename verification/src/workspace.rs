//! Workspace tabs and the file browser of a hall.
//!
//! A workspace always has exactly one Chat tab, first among its tabs; Files
//! and Tools tabs are opened and closed around it. External tools open in
//! windows of their own, so a Tools tab only lists them.

use vstd::prelude::*;
use crate::format::{format_size, spec_format_size};
use crate::ids::{id_to_string, new_id, parse_id, uuid_from_text, uuid_text};
use vstd::set_lib::{lemma_int_range, lemma_len_subset, set_int_range};
use vstd::seq_lib::seq_to_set_is_finite;
use crate::order::{entry_lt, listing_order, sort_listing};
use crate::paths::{extension_of, join_path, joined_path, path_extension};
use crate::text::{lowercase_text, str_equals, to_lowercase, chars_of};

verus! {

/// Tool types available in the workspace
#[derive(Debug, Clone, Copy, PartialEq, Eq, Structural)]
pub enum ToolType {
    Chat,
    /// Launched external tools (they open in windows of their own)
    Tools,
    Files,
}

/// The label of a tool type.
pub open spec fn tool_label(t: ToolType) -> Seq<char> {
    match t {
        ToolType::Chat => "Chat"@,
        ToolType::Tools => "Tools"@,
        ToolType::Files => "Files"@,
    }
}

impl ToolType {
    pub fn label(&self) -> (s: &'static str)
        ensures
            s@ == tool_label(*self),
    {
        match self {
            ToolType::Chat => "Chat",
            ToolType::Tools => "Tools",
            ToolType::Files => "Files",
        }
    }
}

/// A workspace tab
#[derive(Debug, Clone)]
pub struct Tab {
    pub id: u128,
    pub tool_type: ToolType,
    pub title: String,
}

/// File entry in the chest browser
#[derive(Debug, Clone)]
pub struct FileEntry {
    pub name: String,
    pub is_directory: bool,
    pub size: u64,
    pub path: String,
}

/// Extensions of files shown as text.
pub open spec fn is_text_extension(e: Seq<char>) -> bool {
    e == "txt"@ || e == "md"@ || e == "rs"@ || e == "py"@ || e == "js"@ || e == "ts"@
        || e == "json"@ || e == "toml"@ || e == "yaml"@ || e == "yml"@ || e == "xml"@
        || e == "html"@ || e == "css"@ || e == "sh"@ || e == "bash"@ || e == "zsh"@
        || e == "fish"@ || e == "conf"@ || e == "cfg"@ || e == "ini"@ || e == "log"@
        || e == "csv"@ || e == "sql"@ || e == "c"@ || e == "cpp"@ || e == "h"@ || e == "hpp"@
        || e == "java"@ || e == "go"@
}

/// Extensions of media files (video, audio, images, documents).
pub open spec fn is_media_extension(e: Seq<char>) -> bool {
    e == "mp4"@ || e == "mkv"@ || e == "avi"@ || e == "mov"@ || e == "webm"@ || e == "mp3"@
        || e == "wav"@ || e == "flac"@ || e == "ogg"@ || e == "png"@ || e == "jpg"@
        || e == "jpeg"@ || e == "gif"@ || e == "webp"@ || e == "bmp"@ || e == "svg"@
        || e == "pdf"@
}

fn text_extension(e: &str) -> (b: bool)
    ensures
        b == is_text_extension(e@),
{
    str_equals(e, "txt") || str_equals(e, "md") || str_equals(e, "rs") || str_equals(e, "py")
        || str_equals(e, "js") || str_equals(e, "ts") || str_equals(e, "json") || str_equals(
        e,
        "toml",
    ) || str_equals(e, "yaml") || str_equals(e, "yml") || str_equals(e, "xml") || str_equals(
        e,
        "html",
    ) || str_equals(e, "css") || str_equals(e, "sh") || str_equals(e, "bash") || str_equals(
        e,
        "zsh",
    ) || str_equals(e, "fish") || str_equals(e, "conf") || str_equals(e, "cfg") || str_equals(
        e,
        "ini",
    ) || str_equals(e, "log") || str_equals(e, "csv") || str_equals(e, "sql") || str_equals(
        e,
        "c",
    ) || str_equals(e, "cpp") || str_equals(e, "h") || str_equals(e, "hpp") || str_equals(
        e,
        "java",
    ) || str_equals(e, "go")
}

fn media_extension(e: &str) -> (b: bool)
    ensures
        b == is_media_extension(e@),
{
    str_equals(e, "mp4") || str_equals(e, "mkv") || str_equals(e, "avi") || str_equals(e, "mov")
        || str_equals(e, "webm") || str_equals(e, "mp3") || str_equals(e, "wav") || str_equals(
        e,
        "flac",
    ) || str_equals(e, "ogg") || str_equals(e, "png") || str_equals(e, "jpg") || str_equals(
        e,
        "jpeg",
    ) || str_equals(e, "gif") || str_equals(e, "webp") || str_equals(e, "bmp") || str_equals(
        e,
        "svg",
    ) || str_equals(e, "pdf")
}

/// The path's extension, lower-cased, is a text extension.
pub open spec fn has_text_extension(path: Seq<char>) -> bool {
    match path_extension(path) {
        Some(e) => is_text_extension(lowercase_text(e)),
        None => false,
    }
}

/// The path's extension, lower-cased, is a media extension.
pub open spec fn has_media_extension(path: Seq<char>) -> bool {
    match path_extension(path) {
        Some(e) => is_media_extension(lowercase_text(e)),
        None => false,
    }
}

impl FileEntry {
    /// Get human-readable size (empty for a directory)
    pub fn size_string(&self) -> (s: String)
        ensures
            s@ == if self.is_directory {
                Seq::<char>::empty()
            } else {
                spec_format_size(self.size as nat)
            },
    {
        if self.is_directory {
            return String::new();
        }
        format_size(self.size)
    }

    /// Determine if this is a text file based on extension
    pub fn is_text(&self) -> (b: bool)
        ensures
            b == (!self.is_directory && has_text_extension(self.path@)),
    {
        if self.is_directory {
            return false;
        }
        match extension_of(self.path.as_str()) {
            Some(e) => {
                let lower = to_lowercase(e.as_str());
                text_extension(lower.as_str())
            },
            None => false,
        }
    }

    /// Determine if this is a media file
    pub fn is_media(&self) -> (b: bool)
        ensures
            b == (!self.is_directory && has_media_extension(self.path@)),
    {
        if self.is_directory {
            return false;
        }
        match extension_of(self.path.as_str()) {
            Some(e) => {
                let lower = to_lowercase(e.as_str());
                media_extension(lower.as_str())
            },
            None => false,
        }
    }
}

/// Listing key of a browser entry: directory or not, and the lower-cased name.
pub open spec fn file_entry_key(e: FileEntry) -> (bool, Seq<char>) {
    (e.is_directory, lowercase_text(e.name@))
}

/// Puts browser entries in listing order: directories first, then by name
/// compared without regard to case.
pub fn sort_file_entries(entries: Vec<FileEntry>) -> (r: Vec<FileEntry>)
    ensures
        r@ == listing_order(entries@, |e: FileEntry| file_entry_key(e)),
        r@.to_multiset() == entries@.to_multiset(),
        forall|i: int, j: int|
            0 <= i < j < r.len() ==> !entry_lt(
                file_entry_key(#[trigger] r[j]),
                file_entry_key(#[trigger] r[i]),
            ),
{
    let mut dirs: Vec<bool> = Vec::new();
    let mut keys: Vec<Vec<char>> = Vec::new();
    let mut i: usize = 0;
    while i < entries.len()
        invariant
            i <= entries.len(),
            dirs.len() == i,
            keys.len() == i,
            forall|j: int| 0 <= j < i ==> dirs[j] == (#[trigger] entries[j]).is_directory,
            forall|j: int| 0 <= j < i ==> keys[j]@ == lowercase_text((#[trigger] entries[j]).name@),
        decreases entries.len() - i,
    {
        dirs.push(entries[i].is_directory);
        let lower = to_lowercase(entries[i].name.as_str());
        keys.push(chars_of(lower.as_str()));
        i = i + 1;
    }
    let ghost orig = entries@;
    let ghost dirf = |e: FileEntry| e.is_directory;
    let ghost keyf = |e: FileEntry| lowercase_text(e.name@);
    let r = sort_listing(entries, dirs, keys, Ghost(dirf), Ghost(keyf));
    assert((|t: FileEntry| (dirf(t), keyf(t))) =~= (|e: FileEntry| file_entry_key(e)));
    r
}

/// Launcher action
#[derive(Debug, Clone, Copy, PartialEq, Eq, Structural)]
pub enum LauncherAction {
    /// Open the Launched Tools panel (external tools open in new windows)
    OpenTools,
    OpenFiles,
    OpenChat,
}

impl LauncherAction {
    pub fn label(&self) -> (s: &'static str)
        ensures
            s@ == match *self {
                LauncherAction::OpenTools => "Launched Tools (new window)"@,
                LauncherAction::OpenFiles => "Open Hall Chest (Files)"@,
                LauncherAction::OpenChat => "Open Chat"@,
            },
    {
        match self {
            LauncherAction::OpenTools => "Launched Tools (new window)",
            LauncherAction::OpenFiles => "Open Hall Chest (Files)",
            LauncherAction::OpenChat => "Open Chat",
        }
    }

    pub fn to_tool_type(self) -> (t: ToolType)
        ensures
            t == match self {
                LauncherAction::OpenTools => ToolType::Tools,
                LauncherAction::OpenFiles => ToolType::Files,
                LauncherAction::OpenChat => ToolType::Chat,
            },
    {
        match self {
            LauncherAction::OpenTools => ToolType::Tools,
            LauncherAction::OpenFiles => ToolType::Files,
            LauncherAction::OpenChat => ToolType::Chat,
        }
    }
}

/// All available launcher actions, in menu order.
pub fn launcher_actions() -> (v: Vec<LauncherAction>)
    ensures
        v@ == seq![LauncherAction::OpenTools, LauncherAction::OpenFiles, LauncherAction::OpenChat],
{
    vec![LauncherAction::OpenTools, LauncherAction::OpenFiles, LauncherAction::OpenChat]
}

} // verus!

verus! {

/// Persisted tab information
#[derive(Debug, Clone)]
pub struct PersistedTab {
    pub id: String,
    /// "Chat", "Tools" (formerly "Terminal") or "Files"
    pub tool_type: String,
    pub title: String,
}

/// Persisted workspace state
#[derive(Debug, Clone)]
pub struct PersistedWorkspace {
    pub hall_id: u128,
    pub user_id: u128,
    pub tabs: Vec<PersistedTab>,
    pub active_tab_id: Option<String>,
    pub terminal_cwd: Option<String>,
}

/// Workspace state for a single hall
pub struct WorkspaceState {
    pub hall_id: u128,
    /// The tabs, Chat first (see `wf`)
    pub tabs: Vec<Tab>,
    pub active_tab_id: Option<u128>,
    /// Current path in file browser
    pub files_current_path: String,
    /// Cached file entries
    pub files_entries: Vec<FileEntry>,
}

/// `k` is the first position of a tab of type `t`.
pub open spec fn first_of_type(s: Seq<Tab>, t: ToolType, k: int) -> bool {
    &&& 0 <= k < s.len()
    &&& s[k].tool_type == t
    &&& forall|j: int| 0 <= j < k ==> (#[trigger] s[j]).tool_type != t
}

/// Some tab has type `t`.
pub open spec fn has_type(s: Seq<Tab>, t: ToolType) -> bool {
    exists|k: int| 0 <= k < s.len() && (#[trigger] s[k]).tool_type == t
}

/// `k` is the first position of a tab with identifier `id`.
pub open spec fn first_with_id(s: Seq<Tab>, id: u128, k: int) -> bool {
    &&& 0 <= k < s.len()
    &&& s[k].id == id
    &&& forall|j: int| 0 <= j < k ==> (#[trigger] s[j]).id != id
}

/// Some tab has identifier `id`.
pub open spec fn has_id(s: Seq<Tab>, id: u128) -> bool {
    exists|k: int| 0 <= k < s.len() && (#[trigger] s[k]).id == id
}

/// Among the numbers `0..=s.len()` one names no tab (there are more numbers
/// than tabs).
proof fn lemma_small_id_free(s: Seq<Tab>)
    requires
        s.len() < u128::MAX,
    ensures
        exists|c: u128| c <= s.len() && !#[trigger] has_id(s, c),
{
    if forall|c: u128| c <= s.len() ==> #[trigger] has_id(s, c) {
        let ids = s.map_values(|t: Tab| t.id as int);
        let range = set_int_range(0, s.len() as int + 1);
        assert forall|c: int| range.contains(c) implies ids.to_set().contains(c) by {
            assert(has_id(s, c as u128));
            let k = choose|k: int| 0 <= k < s.len() && (#[trigger] s[k]).id == c as u128;
            assert(ids[k] == c);
            assert(ids.contains(c));
        }
        seq_to_set_is_finite(ids);
        ids.lemma_cardinality_of_set();
        lemma_len_subset(range, ids.to_set());
        lemma_int_range(0, s.len() as int + 1);
        assert(false);
    }
}

/// Whether some tab has this identifier.
fn tabs_have_id(tabs: &[Tab], id: u128) -> (b: bool)
    ensures
        b == has_id(tabs@, id),
{
    let mut i: usize = 0;
    while i < tabs.len()
        invariant
            i <= tabs.len(),
            forall|j: int| 0 <= j < i ==> (#[trigger] tabs@[j]).id != id,
        decreases tabs.len() - i,
    {
        if tabs[i].id == id {
            assert(tabs@[i as int].id == id);
            return true;
        }
        i = i + 1;
    }
    false
}

/// An identifier for a new tab that no tab has yet: a fresh random one, or,
/// should that be taken, the first free number from zero up.
fn fresh_tab_id(tabs: &[Tab]) -> (id: u128)
    ensures
        !has_id(tabs@, id),
{
    let r = new_id();
    if !tabs_have_id(tabs, r) {
        return r;
    }
    let n = tabs.len() as u128;
    proof {
        assert(tabs@.len() == n);
        lemma_small_id_free(tabs@);
    }
    let mut c: u128 = 0;
    while c <= n
        invariant
            n == tabs@.len(),
            c <= n + 1,
            forall|d: u128| d < c ==> #[trigger] has_id(tabs@, d),
            exists|d: u128| d <= n && !#[trigger] has_id(tabs@, d),
        decreases n + 1 - c,
    {
        if !tabs_have_id(tabs, c) {
            return c;
        }
        c = c + 1;
    }
    proof {
        let d = choose|d: u128| d <= n && !#[trigger] has_id(tabs@, d);
        assert(has_id(tabs@, d));
    }
    0
}

/// The chest folder a workspace browses first: `<data_dir>/halls/<hall id>/chest`.
pub open spec fn workspace_chest_dir(data_dir: Seq<char>, hall_id: u128) -> Seq<char> {
    joined_path(joined_path(joined_path(data_dir, "halls"@), uuid_text(hall_id)), "chest"@)
}

/// The tool type a persisted tab is restored as; Chat tabs and unknown kinds are skipped.
pub open spec fn restored_type(s: Seq<char>) -> Option<ToolType> {
    if s == "Tools"@ || s == "Terminal"@ {
        Some(ToolType::Tools)
    } else if s == "Files"@ {
        Some(ToolType::Files)
    } else {
        None
    }
}

/// The persisted tabs that are restored, in order.
pub open spec fn restorable(p: Seq<PersistedTab>) -> Seq<PersistedTab> {
    p.filter(|t: PersistedTab| restored_type(t.tool_type@) is Some)
}

/// The title a restored tab gets: Tools tabs are always titled "Tools".
pub open spec fn restored_title(p: PersistedTab) -> Seq<char> {
    if restored_type(p.tool_type@) == Some(ToolType::Tools) {
        "Tools"@
    } else {
        p.title@
    }
}

/// Tabs well formed: the Chat tab first and only there, Tools tabs titled "Tools".
pub open spec fn tabs_ok(s: Seq<Tab>) -> bool {
    &&& s.len() >= 1
    &&& s[0].tool_type == ToolType::Chat
    &&& forall|j: int| 1 <= j < s.len() ==> (#[trigger] s[j]).tool_type != ToolType::Chat
    &&& forall|j: int|
        0 <= j < s.len() && (#[trigger] s[j]).tool_type == ToolType::Tools ==> s[j].title@
            == "Tools"@
}

/// `t` is the tab restored from `pt`: its tool type and title, and its
/// identifier wherever the persisted text parses.
pub open spec fn restored_tab(pt: PersistedTab, t: Tab) -> bool {
    &&& Some(t.tool_type) == restored_type(pt.tool_type@)
    &&& t.title@ == restored_title(pt)
    &&& (uuid_from_text(pt.id@) matches Some(x) ==> t.id == x)
    &&& forall|x: u128| pt.id@ == uuid_text(x) ==> t.id == x
}

/// `new_tabs` and `new_active` are what restoring `p` onto `old_tabs` and
/// `old_active` gives.
pub open spec fn restored_state(
    old_tabs: Seq<Tab>,
    old_active: Option<u128>,
    p: PersistedWorkspace,
    new_tabs: Seq<Tab>,
    new_active: Option<u128>,
) -> bool {
    let r = restorable(p.tabs@);
    &&& new_tabs.len() == 1 + r.len()
    &&& new_tabs[0] == old_tabs[0]
    &&& forall|j: int| 0 <= j < r.len() ==> restored_tab(r[j], #[trigger] new_tabs[j + 1])
    &&& forall|j: int|
        0 <= j < r.len() && uuid_from_text(r[j].id@) is None ==> !has_id(
            new_tabs.take(j + 1),
            (#[trigger] new_tabs[j + 1]).id,
        )
    &&& match p.active_tab_id {
        None => new_active == old_active,
        Some(a) => {
            &&& match uuid_from_text(a@) {
                Some(id) => new_active == if has_id(new_tabs, id) {
                    Some(id)
                } else {
                    old_active
                },
                None => new_active == old_active,
            }
            &&& forall|x: u128|
                a@ == uuid_text(x) ==> new_active == if has_id(new_tabs, x) {
                    Some(x)
                } else {
                    old_active
                }
        },
    }
}

/// `pt` is the persisted form of tab `t`.
pub open spec fn persisted_tab(t: Tab, pt: PersistedTab) -> bool {
    &&& pt.id@ == uuid_text(t.id)
    &&& pt.tool_type@ == tool_label(t.tool_type)
    &&& pt.title@ == t.title@
}

/// `p` is the persisted form of the given tabs, active tab and files path.
pub open spec fn persisted_form(
    hall_id: u128,
    user_id: u128,
    tabs: Seq<Tab>,
    active: Option<u128>,
    files_path: Seq<char>,
    p: PersistedWorkspace,
) -> bool {
    &&& p.hall_id == hall_id
    &&& p.user_id == user_id
    &&& p.tabs@.len() == tabs.len()
    &&& forall|j: int| 0 <= j < tabs.len() ==> persisted_tab(tabs[j], #[trigger] p.tabs@[j])
    &&& match active {
        None => p.active_tab_id is None,
        Some(id) => p.active_tab_id matches Some(a) && a@ == uuid_text(id),
    }
    &&& p.terminal_cwd matches Some(c) && c@ == files_path
}

/// Opening a tool of type `t` on `old` gives `new` and returns `id`: the
/// first tab of that type is reused, or a new one, with an identifier no tab
/// has, is added at the end.
pub open spec fn opened(old: Seq<Tab>, t: ToolType, new: Seq<Tab>, id: u128) -> bool {
    if has_type(old, t) {
        &&& new == old
        &&& exists|k: int| first_of_type(old, t, k) && old[k].id == id
    } else {
        &&& new.len() == old.len() + 1
        &&& new.subrange(0, old.len() as int) == old
        &&& new[old.len() as int].id == id
        &&& !has_id(old, id)
        &&& new[old.len() as int].tool_type == t
        &&& new[old.len() as int].title@ == tool_label(t)
    }
}

/// Closing the tab `id` on `old` gives `new`: nothing happens when it names the
/// Chat tab (always first); otherwise every tab with that identifier goes.
pub open spec fn closed_tab(old: Seq<Tab>, id: u128, new: Seq<Tab>) -> bool {
    if old[0].id == id {
        new == old
    } else {
        new == old.filter(|t: Tab| t.id != id)
    }
}

impl WorkspaceState {
    /// The tabs, in order.
    pub open spec fn tab_seq(&self) -> Seq<Tab> {
        self.tabs@
    }

    /// The identifier of the active tab.
    pub open spec fn active(&self) -> Option<u128> {
        self.active_tab_id
    }

    /// Exactly one Chat tab, first; Tools tabs titled "Tools".
    pub open spec fn wf(&self) -> bool {
        tabs_ok(self.tab_seq())
    }

    /// The active tab, if any, is one of the tabs.
    pub open spec fn active_ok(&self) -> bool {
        match self.active() {
            None => true,
            Some(id) => has_id(self.tab_seq(), id),
        }
    }

    /// Create new workspace state for a hall: one Chat tab, active, and the
    /// file browser at the hall's chest folder.
    pub fn new(hall_id: u128, data_dir: &str) -> (w: Self)
        ensures
            w.wf(),
            w.active_ok(),
            w.tab_seq().len() == 1,
            w.tab_seq()[0].tool_type == ToolType::Chat,
            w.tab_seq()[0].title@ == "Chat"@,
            w.active() == Some(w.tab_seq()[0].id),
            w.hall_id == hall_id,
            w.files_current_path@ == workspace_chest_dir(data_dir@, hall_id),
            w.files_entries@.len() == 0,
    {
        let chat_tab = Tab { id: new_id(), tool_type: ToolType::Chat, title: String::from_str("Chat") };
        let chat_id = chat_tab.id;
        let halls = join_path(data_dir, "halls");
        let hall_dir = join_path(halls.as_str(), id_to_string(hall_id).as_str());
        let chest_path = join_path(hall_dir.as_str(), "chest");
        let w = WorkspaceState {
            hall_id,
            tabs: vec![chat_tab],
            active_tab_id: Some(chat_id),
            files_current_path: chest_path,
            files_entries: Vec::new(),
        };
        assert(w.tabs@[0].id == chat_id);
        w
    }

    /// Get all tabs
    pub fn tabs(&self) -> (r: &[Tab])
        ensures
            r@ == self.tab_seq(),
    {
        self.tabs.as_slice()
    }

    /// Get the active tab: the first tab with the active identifier, if any.
    pub fn active_tab(&self) -> (r: Option<&Tab>)
        ensures
            match self.active() {
                None => r is None,
                Some(id) => match r {
                    None => !has_id(self.tab_seq(), id),
                    Some(t) => exists|k: int|
                        first_with_id(self.tab_seq(), id, k) && *t == self.tab_seq()[k],
                },
            },
    {
        match self.active_tab_id {
            None => None,
            Some(id) => {
                let mut i: usize = 0;
                while i < self.tabs.len()
                    invariant
                        i <= self.tabs.len(),
                        self.active() == Some(id),
                        forall|j: int| 0 <= j < i ==> (#[trigger] self.tabs@[j]).id != id,
                    decreases self.tabs.len() - i,
                {
                    if self.tabs[i].id == id {
                        assert(first_with_id(self.tab_seq(), id, i as int));
                        return Some(&self.tabs[i]);
                    }
                    i = i + 1;
                }
                None
            },
        }
    }

    /// Get active tab ID
    pub fn active_tab_id(&self) -> (r: Option<u128>)
        ensures
            r == self.active(),
    {
        self.active_tab_id
    }

    /// Set active tab, if a tab has that identifier; otherwise nothing changes.
    pub fn set_active_tab(&mut self, tab_id: u128)
        ensures
            final(self).tab_seq() == old(self).tab_seq(),
            final(self).active() == if has_id(old(self).tab_seq(), tab_id) {
                Some(tab_id)
            } else {
                old(self).active()
            },
            final(self).hall_id == old(self).hall_id,
            final(self).files_current_path == old(self).files_current_path,
            final(self).files_entries == old(self).files_entries,
    {
        if self.position_of_id(tab_id).is_some() {
            self.active_tab_id = Some(tab_id);
        }
    }

    /// The first position of a tab with the given identifier.
    fn position_of_id(&self, id: u128) -> (r: Option<usize>)
        ensures
            match r {
                Some(k) => first_with_id(self.tab_seq(), id, k as int),
                None => !has_id(self.tab_seq(), id),
            },
    {
        let mut i: usize = 0;
        while i < self.tabs.len()
            invariant
                i <= self.tabs.len(),
                forall|j: int| 0 <= j < i ==> (#[trigger] self.tabs@[j]).id != id,
            decreases self.tabs.len() - i,
        {
            if self.tabs[i].id == id {
                return Some(i);
            }
            i = i + 1;
        }
        None
    }

    /// The first position of a tab of the given type.
    fn position_of_type(&self, t: ToolType) -> (r: Option<usize>)
        ensures
            match r {
                Some(k) => first_of_type(self.tab_seq(), t, k as int),
                None => !has_type(self.tab_seq(), t),
            },
    {
        let mut i: usize = 0;
        while i < self.tabs.len()
            invariant
                i <= self.tabs.len(),
                forall|j: int| 0 <= j < i ==> (#[trigger] self.tabs@[j]).tool_type != t,
            decreases self.tabs.len() - i,
        {
            if self.tabs[i].tool_type == t {
                return Some(i);
            }
            i = i + 1;
        }
        None
    }

    /// Open a tool: the first tab of that type is reused if there is one,
    /// otherwise a new tab is added at the end. Either way it becomes active.
    pub fn open_tool(&mut self, tool_type: ToolType) -> (id: u128)
        requires
            old(self).wf(),
        ensures
            final(self).wf(),
            final(self).active_ok(),
            final(self).active() == Some(id),
            opened(old(self).tab_seq(), tool_type, final(self).tab_seq(), id),
            final(self).hall_id == old(self).hall_id,
            final(self).files_current_path == old(self).files_current_path,
            final(self).files_entries == old(self).files_entries,
    {
        match self.position_of_type(tool_type) {
            Some(k) => {
                let id = self.tabs[k].id;
                self.active_tab_id = Some(id);
                assert(has_id(self.tab_seq(), id)) by {
                    assert(self.tabs@[k as int].id == id);
                }
                id
            },
            None => {
                let tab = Tab {
                    id: fresh_tab_id(self.tabs.as_slice()),
                    tool_type,
                    title: String::from_str(tool_type.label()),
                };
                let id = tab.id;
                let ghost before = self.tabs@;
                self.tabs.push(tab);
                self.active_tab_id = Some(id);
                proof {
                    let n = before.len();
                    assert(self.tabs@[n as int].id == id);
                    assert(self.tabs@.subrange(0, n as int) =~= before);
                    assert forall|j: int| 1 <= j < self.tabs@.len() implies (
                    #[trigger] self.tabs@[j]).tool_type != ToolType::Chat by {
                        if j < n {
                            assert(self.tabs@[j] == before[j]);
                        } else {
                            assert(before[0].tool_type == ToolType::Chat);
                        }
                    }
                    assert forall|j: int|
                        0 <= j < self.tabs@.len() && (#[trigger] self.tabs@[j]).tool_type
                            == ToolType::Tools implies self.tabs@[j].title@ == "Tools"@ by {
                        if j < n {
                            assert(self.tabs@[j] == before[j]);
                        }
                    }
                }
                id
            },
        }
    }
}


impl WorkspaceState {
    /// Close a tab. The Chat tab cannot be closed; closing the active tab
    /// makes the first tab active.
    pub fn close_tab(&mut self, tab_id: u128)
        requires
            old(self).wf(),
        ensures
            final(self).wf(),
            closed_tab(old(self).tab_seq(), tab_id, final(self).tab_seq()),
            final(self).active() == if old(self).tab_seq()[0].id != tab_id && old(self).active()
                == Some(tab_id) {
                Some(final(self).tab_seq()[0].id)
            } else {
                old(self).active()
            },
            old(self).active_ok() ==> final(self).active_ok(),
            final(self).hall_id == old(self).hall_id,
            final(self).files_current_path == old(self).files_current_path,
            final(self).files_entries == old(self).files_entries,
    {
        if let Some(k) = self.position_of_id(tab_id) {
            if self.tabs[k].tool_type == ToolType::Chat {
                assert(k == 0);
                return;
            }
        }
        let ghost orig = self.tabs@;
        let ghost keep = |t: Tab| t.id != tab_id;
        let total = self.tabs.len();
        let mut rest: Vec<Tab> = Vec::new();
        std::mem::swap(&mut rest, &mut self.tabs);
        let mut kept: Vec<Tab> = Vec::new();
        assert(orig.take(0).filter(keep) =~= Seq::<Tab>::empty()) by {
            reveal(Seq::filter);
        }
        while rest.len() > 0
            invariant
                orig.len() == total,
                rest.len() <= total,
                orig[0].id != tab_id,
                tabs_ok(orig),
                keep == (|t: Tab| t.id != tab_id),
                rest@ == orig.skip(total - rest.len()),
                kept@ == orig.take(total - rest.len()).filter(keep),
                rest.len() < total ==> kept.len() >= 1 && kept@[0] == orig[0],
                forall|j: int| 1 <= j < kept.len() ==> (#[trigger] kept@[j]).tool_type != ToolType::Chat,
                forall|j: int|
                    0 <= j < kept.len() && (#[trigger] kept@[j]).tool_type == ToolType::Tools ==> kept@[j].title@
                        == "Tools"@,
            decreases rest.len(),
        {
            let ghost i = total - rest.len();
            let ghost kept_before = kept@;
            let t = rest.remove(0);
            assert(t == orig[i]);
            assert(rest@ =~= orig.skip(i + 1));
            assert(orig.take(i + 1).drop_last() =~= orig.take(i));
            assert(orig.take(i + 1).last() == orig[i]);
            if t.id != tab_id {
                kept.push(t);
            }
            proof {
                reveal(Seq::filter);
                assert(kept@ == orig.take(i + 1).filter(keep));
                if i == 0 {
                    assert(kept_before.len() == 0) by {
                        assert(orig.take(0) =~= Seq::<Tab>::empty());
                    }
                }
                assert forall|j: int| 1 <= j < kept.len() implies (#[trigger] kept@[j]).tool_type
                    != ToolType::Chat by {
                    if j < kept_before.len() {
                        assert(kept@[j] == kept_before[j]);
                    }
                }
                assert forall|j: int|
                    0 <= j < kept.len() && (#[trigger] kept@[j]).tool_type == ToolType::Tools implies kept@[j].title@
                        == "Tools"@ by {
                    if j < kept_before.len() {
                        assert(kept@[j] == kept_before[j]);
                    }
                }
            }
        }
        assert(orig.take(total as int) =~= orig);
        self.tabs = kept;
        if self.active_tab_id == Some(tab_id) {
            self.active_tab_id = Some(self.tabs[0].id);
        }
        proof {
            if old(self).active_ok() && old(self).active() is Some && old(self).active() != Some(tab_id) {
                let a = old(self).active().unwrap();
                assert(orig == old(self).tab_seq());
                assert(has_id(orig, a));
                let k = choose|k: int| 0 <= k < orig.len() && (#[trigger] orig[k]).id == a;
                assert(orig[k].id != tab_id);
                assert(keep(orig[k]));
                orig.lemma_filter_contains(keep, k);
                assert(self.tabs@.contains(orig[k]));
                let m = choose|m: int| 0 <= m < self.tabs@.len() && self.tabs@[m] == orig[k];
                assert(self.tabs@[m].id == a);
            }
            if self.active_tab_id == Some(self.tabs@[0].id) {
                assert(has_id(self.tab_seq(), self.tabs@[0].id)) by {
                    assert(self.tabs@[0].id == self.tabs@[0].id);
                }
            }
        }
    }

    /// The persisted form of this workspace: tab identifiers as text, tool
    /// types by label, and the file browser's path.
    pub fn to_persisted(&self, user_id: u128) -> (p: PersistedWorkspace)
        ensures
            persisted_form(
                self.hall_id,
                user_id,
                self.tab_seq(),
                self.active(),
                self.files_current_path@,
                p,
            ),
    {
        let mut tabs: Vec<PersistedTab> = Vec::new();
        let mut i: usize = 0;
        while i < self.tabs.len()
            invariant
                i <= self.tabs.len(),
                tabs.len() == i,
                forall|j: int| 0 <= j < i ==> persisted_tab(self.tabs@[j], #[trigger] tabs@[j]),
            decreases self.tabs.len() - i,
        {
            let tab = &self.tabs[i];
            tabs.push(
                PersistedTab {
                    id: id_to_string(tab.id),
                    tool_type: String::from_str(tab.tool_type.label()),
                    title: tab.title.clone(),
                },
            );
            i = i + 1;
        }
        let active_tab_id = match self.active_tab_id {
            Some(id) => Some(id_to_string(id)),
            None => None,
        };
        PersistedWorkspace {
            hall_id: self.hall_id,
            user_id,
            tabs,
            active_tab_id,
            terminal_cwd: Some(self.files_current_path.clone()),
        }
    }

    /// Restore tabs, active tab and file browser path from a persisted form.
    ///
    /// Every tab but Chat is replaced by the persisted Tools and Files tabs
    /// ("Terminal" is read as Tools); a tab whose identifier does not parse
    /// gets a fresh one. The persisted active tab is taken when it names a
    /// tab. The path is taken when `cwd_exists`, which says whether the
    /// persisted path exists on disk.
    pub fn restore_from_persisted(&mut self, persisted: &PersistedWorkspace, cwd_exists: bool)
        requires
            old(self).wf(),
        ensures
            final(self).wf(),
            restored_state(
                old(self).tab_seq(),
                old(self).active(),
                *persisted,
                final(self).tab_seq(),
                final(self).active(),
            ),
            final(self).files_current_path@ == match persisted.terminal_cwd {
                Some(c) => if cwd_exists {
                    c@
                } else {
                    old(self).files_current_path@
                },
                None => old(self).files_current_path@,
            },
            final(self).hall_id == old(self).hall_id,
            final(self).files_entries == old(self).files_entries,
    {
        let ghost old_tabs = self.tabs@;
        let ghost p = persisted.tabs@;
        let ghost ok = |t: PersistedTab| restored_type(t.tool_type@) is Some;
        self.tabs.truncate(1);
        let n = persisted.tabs.len();
        let mut i: usize = 0;
        assert(p.take(0).filter(ok) =~= Seq::<PersistedTab>::empty()) by {
            reveal(Seq::filter);
        }
        while i < n
            invariant
                n == p.len(),
                p == persisted.tabs@,
                i <= n,
                ok == (|t: PersistedTab| restored_type(t.tool_type@) is Some),
                tabs_ok(old_tabs),
                self.hall_id == old(self).hall_id,
                self.active_tab_id == old(self).active_tab_id,
                self.files_current_path == old(self).files_current_path,
                self.files_entries == old(self).files_entries,
                self.tabs@.len() == 1 + p.take(i as int).filter(ok).len(),
                self.tabs@[0] == old_tabs[0],
                forall|j: int|
                    0 <= j < p.take(i as int).filter(ok).len() ==> restored_tab(
                        p.take(i as int).filter(ok)[j],
                        #[trigger] self.tabs@[j + 1],
                    ),
                forall|j: int|
                    0 <= j < p.take(i as int).filter(ok).len() && uuid_from_text(
                        p.take(i as int).filter(ok)[j].id@,
                    ) is None ==> !has_id(self.tabs@.take(j + 1), (#[trigger] self.tabs@[j + 1]).id),
            decreases n - i,
        {
            let pt = &persisted.tabs[i];
            let kind = pt.tool_type.as_str();
            let ty: Option<ToolType> = if str_equals(kind, "Tools") || str_equals(kind, "Terminal") {
                Some(ToolType::Tools)
            } else if str_equals(kind, "Files") {
                Some(ToolType::Files)
            } else {
                None
            };
            assert(ty == restored_type(pt.tool_type@));
            let ghost before = self.tabs@;
            let ghost r0 = p.take(i as int).filter(ok);
            if let Some(t) = ty {
                let id = match parse_id(pt.id.as_str()) {
                    Some(x) => x,
                    None => fresh_tab_id(self.tabs.as_slice()),
                };
                let title = if t == ToolType::Tools {
                    String::from_str("Tools")
                } else {
                    pt.title.clone()
                };
                self.tabs.push(Tab { id, tool_type: t, title });
            }
            proof {
                assert(p.take(i + 1).drop_last() =~= p.take(i as int));
                assert(p.take(i + 1).last() == p[i as int]);
                reveal(Seq::filter);
                let r1 = p.take(i + 1).filter(ok);
                assert forall|j: int| 0 <= j < r1.len() implies restored_tab(
                    r1[j],
                    #[trigger] self.tabs@[j + 1],
                ) by {
                    if j < r0.len() {
                        assert(self.tabs@[j + 1] == before[j + 1]);
                        assert(r1[j] == r0[j]);
                    }
                }
                assert forall|j: int|
                    0 <= j < r1.len() && uuid_from_text(r1[j].id@) is None implies !has_id(
                        self.tabs@.take(j + 1),
                        (#[trigger] self.tabs@[j + 1]).id,
                    ) by {
                    if j < r0.len() {
                        assert(self.tabs@[j + 1] == before[j + 1]);
                        assert(r1[j] == r0[j]);
                        assert(self.tabs@.take(j + 1) =~= before.take(j + 1));
                    } else {
                        assert(self.tabs@.take(j + 1) =~= before);
                    }
                }
            }
            i = i + 1;
        }
        assert(p.take(n as int) =~= p);
        proof {
            let r = restorable(p);
            assert(r == p.filter(ok));
            assert forall|j: int| 1 <= j < self.tabs@.len() implies (#[trigger] self.tabs@[j]).tool_type
                != ToolType::Chat by {
                assert(Some(self.tabs@[(j - 1) + 1].tool_type) == restored_type(r[j - 1].tool_type@));
            }
            assert forall|j: int|
                0 <= j < self.tabs@.len() && (#[trigger] self.tabs@[j]).tool_type == ToolType::Tools implies self.tabs@[j].title@
                    == "Tools"@ by {
                if j >= 1 {
                    assert(Some(self.tabs@[(j - 1) + 1].tool_type) == restored_type(r[j - 1].tool_type@));
                }
            }
        }
        if let Some(active_id) = &persisted.active_tab_id {
            if let Some(id) = parse_id(active_id.as_str()) {
                if self.position_of_id(id).is_some() {
                    self.active_tab_id = Some(id);
                }
            }
        }
        match &persisted.terminal_cwd {
            Some(cwd) => {
                if cwd_exists {
                    self.files_current_path = cwd.clone();
                }
            },
            None => {},
        }
    }

    /// Replace the cached file listing by `entries` in listing order:
    /// directories first, then by name without regard to case.
    pub fn set_files_entries(&mut self, entries: Vec<FileEntry>)
        ensures
            final(self).files_entries@ == listing_order(entries@, |e: FileEntry| file_entry_key(e)),
            final(self).files_entries@.to_multiset() == entries@.to_multiset(),
            forall|i: int, j: int|
                0 <= i < j < final(self).files_entries.len() ==> !entry_lt(
                    file_entry_key(#[trigger] final(self).files_entries@[j]),
                    file_entry_key(#[trigger] final(self).files_entries@[i]),
                ),
            final(self).hall_id == old(self).hall_id,
            final(self).tab_seq() == old(self).tab_seq(),
            final(self).active() == old(self).active(),
            final(self).files_current_path == old(self).files_current_path,
    {
        self.files_entries = sort_file_entries(entries);
    }

    /// Navigate the file browser to `path` when it is a directory
    /// (`is_dir`); returns whether it moved (the app then lists the folder).
    pub fn navigate_to(&mut self, path: String, is_dir: bool) -> (moved: bool)
        ensures
            moved == is_dir,
            final(self).files_current_path@ == if is_dir {
                path@
            } else {
                old(self).files_current_path@
            },
            final(self).hall_id == old(self).hall_id,
            final(self).tabs == old(self).tabs,
            final(self).active_tab_id == old(self).active_tab_id,
            final(self).files_entries == old(self).files_entries,
    {
        if is_dir {
            self.files_current_path = path;
        }
        is_dir
    }
}

/// The `..` entry of the file browser: present below the chest's root folder
/// (`chest_root`, the nearest enclosing folder named `chest`), pointing at
/// the parent folder.
pub fn parent_entry(current: &str, chest_root: Option<&str>, parent: Option<String>) -> (r: Option<FileEntry>)
    ensures
        r is Some <==> (chest_root matches Some(root) && current@ != root@ && parent is Some),
        r matches Some(e) ==> (e.name@ == ".."@ && e.is_directory && e.size == 0 && parent == Some(e.path)),
{
    match chest_root {
        Some(root) => {
            if crate::text::str_equals(current, root) {
                None
            } else {
                match parent {
                    Some(p) => Some(FileEntry { name: String::from_str(".."), is_directory: true, size: 0, path: p }),
                    None => None,
                }
            }
        },
        None => None,
    }
}

/// What opening a browser entry does: a folder is entered, a file is handed
/// to the desktop's opener in a new window.
#[derive(Debug, Clone)]
pub enum OpenAction {
    /// Enter this folder
    Navigate(String),
    /// Open this file with the system's default application
    Launch(String),
}

/// The action for opening an entry.
pub fn open_action(entry: &FileEntry) -> (a: OpenAction)
    ensures
        entry.is_directory ==> (a matches OpenAction::Navigate(p) && p == entry.path),
        !entry.is_directory ==> (a matches OpenAction::Launch(p) && p == entry.path),
{
    if entry.is_directory {
        OpenAction::Navigate(entry.path.clone())
    } else {
        OpenAction::Launch(entry.path.clone())
    }
}


/// Two tab lists agree tab by tab: identifiers, tool types and titles.
pub open spec fn same_tabs(a: Seq<Tab>, b: Seq<Tab>) -> bool {
    &&& a.len() == b.len()
    &&& forall|j: int|
        0 <= j < a.len() ==> {
            &&& (#[trigger] a[j]).id == b[j].id
            &&& a[j].tool_type == b[j].tool_type
            &&& a[j].title@ == b[j].title@
        }
}

/// Opening the same tool twice in a row: the second call changes nothing and
/// returns the tab the first call returned.
pub proof fn lemma_open_tool_idempotent(
    s0: Seq<Tab>,
    t: ToolType,
    s1: Seq<Tab>,
    id1: u128,
    s2: Seq<Tab>,
    id2: u128,
)
    requires
        opened(s0, t, s1, id1),
        opened(s1, t, s2, id2),
    ensures
        s2 == s1,
        id2 == id1,
{
    if has_type(s0, t) {
        let k1 = choose|k: int| first_of_type(s0, t, k) && s0[k].id == id1;
        let k2 = choose|k: int| first_of_type(s1, t, k) && s1[k].id == id2;
        if k1 < k2 {
            assert(s1[k1].tool_type == t);
        } else if k2 < k1 {
            assert(s0[k2].tool_type == t);
        }
    } else {
        let n = s0.len() as int;
        assert(s1[n].tool_type == t);
        assert(has_type(s1, t));
        let k2 = choose|k: int| first_of_type(s1, t, k) && s1[k].id == id2;
        if k2 < n {
            assert(s1[k2] == s1.subrange(0, n)[k2]);
            assert(s0[k2].tool_type == t);
        } else if k2 > n {
            assert(s1[n].tool_type == t);
        }
    }
}

/// Closing the tab that opening a new tool added gives back the tabs as they
/// were before the opening.
pub proof fn lemma_close_undoes_open(s0: Seq<Tab>, t: ToolType, s1: Seq<Tab>, id: u128, s2: Seq<Tab>)
    requires
        tabs_ok(s0),
        !has_type(s0, t),
        opened(s0, t, s1, id),
        closed_tab(s1, id, s2),
    ensures
        s2 == s0,
{
    let n = s0.len() as int;
    let keep = |x: Tab| x.id != id;
    assert(s1 =~= s0.push(s1[n]));
    assert(s0[0].id != id);
    assert(s1[0] == s0[0]);
    s0.lemma_filter_push(s1[n], keep);
    assert forall|i: int| 0 <= i < s0.len() implies keep(#[trigger] s0[i]) by {
        if s0[i].id == id {
            assert(has_id(s0, id));
        }
    }
    lemma_filter_keeps_all(s0, keep);
}

/// The Chat tab survives every close, and stays first.
pub proof fn lemma_chat_never_closed(s: Seq<Tab>, id: u128, s2: Seq<Tab>)
    requires
        tabs_ok(s),
        closed_tab(s, id, s2),
    ensures
        s2.len() >= 1,
        s2[0] == s[0],
        s2[0].tool_type == ToolType::Chat,
{
    if s[0].id != id {
        let keep = |t: Tab| t.id != id;
        assert(s == seq![s[0]] + s.skip(1));
        Seq::filter_distributes_over_add(seq![s[0]], s.skip(1), keep);
        assert(seq![s[0]].filter(keep) == seq![s[0]]) by {
            reveal(Seq::filter);
            assert(seq![s[0]].drop_last() =~= Seq::<Tab>::empty());
        }
        assert(s2 == seq![s[0]] + s.skip(1).filter(keep));
        assert(s2[0] == s[0]);
    }
}

/// After closing a tab other than Chat, no tab has its identifier.
pub proof fn lemma_closed_tab_gone(s: Seq<Tab>, id: u128, s2: Seq<Tab>)
    requires
        closed_tab(s, id, s2),
        s[0].id != id,
    ensures
        !has_id(s2, id),
{
    let keep = |t: Tab| t.id != id;
    if has_id(s2, id) {
        let k = choose|k: int| 0 <= k < s2.len() && (#[trigger] s2[k]).id == id;
        s.lemma_filter_pred(keep, k);
    }
}

proof fn lemma_filter_keeps_all<A>(s: Seq<A>, pred: spec_fn(A) -> bool)
    requires
        forall|i: int| 0 <= i < s.len() ==> pred(#[trigger] s[i]),
    ensures
        s.filter(pred) == s,
    decreases s.len(),
{
    reveal(Seq::filter);
    if s.len() > 0 {
        lemma_filter_keeps_all(s.drop_last(), pred);
        assert(s.drop_last().push(s.last()) =~= s);
    }
}

proof fn lemma_restored_tab_inverts(t: Tab, pt: PersistedTab, t2: Tab)
    requires
        t.tool_type != ToolType::Chat,
        t.tool_type == ToolType::Tools ==> t.title@ == "Tools"@,
        persisted_tab(t, pt),
        restored_tab(pt, t2),
    ensures
        t2.id == t.id,
        t2.tool_type == t.tool_type,
        t2.title@ == t.title@,
{
    reveal_strlit("Tools");
    reveal_strlit("Terminal");
    reveal_strlit("Files");
    assert("Files"@ != "Tools"@) by {
        assert("Files"@[0] != "Tools"@[0]);
    }
    assert("Files"@ != "Terminal"@) by {
        assert("Files"@[0] != "Terminal"@[0]);
    }
}

/// Restoring a well-formed workspace from its own persisted form gives back
/// the same tabs and the same active tab.
pub proof fn lemma_restore_own_persisted(
    hall_id: u128,
    user_id: u128,
    tabs: Seq<Tab>,
    active: Option<u128>,
    files_path: Seq<char>,
    p: PersistedWorkspace,
    new_tabs: Seq<Tab>,
    new_active: Option<u128>,
)
    requires
        tabs_ok(tabs),
        persisted_form(hall_id, user_id, tabs, active, files_path, p),
        restored_state(tabs, active, p, new_tabs, new_active),
    ensures
        same_tabs(new_tabs, tabs),
        new_tabs[0] == tabs[0],
        new_active == active,
{
    let ps = p.tabs@;
    let ok = |t: PersistedTab| restored_type(t.tool_type@) is Some;
    assert(ps[0].tool_type@ == "Chat"@);
    assert(restored_type("Chat"@) is None) by {
        reveal_strlit("Chat");
        reveal_strlit("Tools");
        reveal_strlit("Terminal");
        reveal_strlit("Files");
        assert("Chat"@[0] != "Tools"@[0]);
        assert("Chat"@[0] != "Terminal"@[0]);
        assert("Chat"@[0] != "Files"@[0]);
    }
    assert forall|i: int| 0 <= i < ps.skip(1).len() implies ok(#[trigger] ps.skip(1)[i]) by {
        assert(ps.skip(1)[i] == ps[i + 1]);
        assert(tabs[i + 1].tool_type != ToolType::Chat);
    }
    lemma_filter_keeps_all(ps.skip(1), ok);
    assert(ps == seq![ps[0]] + ps.skip(1));
    Seq::filter_distributes_over_add(seq![ps[0]], ps.skip(1), ok);
    assert(!ok(ps[0]));
    assert(seq![ps[0]].filter(ok) =~= Seq::<PersistedTab>::empty()) by {
        reveal(Seq::filter);
        assert(seq![ps[0]].last() == ps[0]);
        assert(seq![ps[0]].drop_last() =~= Seq::<PersistedTab>::empty());
        assert(Seq::<PersistedTab>::empty().filter(ok) =~= Seq::<PersistedTab>::empty());
    }
    let r = restorable(ps);
    assert(r =~= ps.skip(1));
    assert forall|j: int| 0 <= j < new_tabs.len() implies {
        &&& (#[trigger] new_tabs[j]).id == tabs[j].id
        &&& new_tabs[j].tool_type == tabs[j].tool_type
        &&& new_tabs[j].title@ == tabs[j].title@
    } by {
        if j >= 1 {
            assert(r[j - 1] == ps[j]);
            assert(restored_tab(r[j - 1], new_tabs[(j - 1) + 1]));
            assert(persisted_tab(tabs[j], ps[j]));
            lemma_restored_tab_inverts(tabs[j], ps[j], new_tabs[j]);
        }
    }
    match active {
        None => {},
        Some(id) => {
            let a = p.active_tab_id.unwrap();
            assert(a@ == uuid_text(id));
        },
    }
}

} // verus!
