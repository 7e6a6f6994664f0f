//! Hall Chest - local folders for Hall files
//!
//! When a user joins a Hall as Agent or higher, local folders are created
//! (by the app, which does the file work). Sync is not implemented yet, but
//! the interface is designed for it.

use vstd::prelude::*;
use crate::error::Error;
use crate::ids::{id_to_string, uuid_text};
use crate::order::{entry_lt, listing_order, sort_listing};
use crate::paths::{join_path, joined_path};
use crate::roles::{role_at_least, HallRole};
use crate::text::{chars_of, is_prefix, str_starts_with};

verus! {

/// Manages local Hall Chest folders
#[derive(Debug)]
pub struct HallChest {
    base_path: String,
}

/// A file entry in the Hall Chest
#[derive(Debug, Clone)]
pub struct ChestEntry {
    pub name: String,
    pub path: String,
    pub is_directory: bool,
    pub size_bytes: u64,
    /// Sync status - always "local_only" for now
    pub sync_status: SyncStatus,
}

/// Sync status for chest files
#[derive(Debug, Clone, Copy, PartialEq, Eq, Structural)]
pub enum SyncStatus {
    /// File exists locally only (sync not implemented)
    LocalOnly,
    /// File is synced (future)
    Synced,
    /// File is being uploaded (future)
    Uploading,
    /// File is being downloaded (future)
    Downloading,
    /// Sync conflict (future)
    Conflict,
}

impl SyncStatus {
    pub fn display(&self) -> (s: &'static str)
        ensures
            s@ == match *self {
                SyncStatus::LocalOnly => "Local only - sync coming later"@,
                SyncStatus::Synced => "Synced"@,
                SyncStatus::Uploading => "Uploading..."@,
                SyncStatus::Downloading => "Downloading..."@,
                SyncStatus::Conflict => "Conflict"@,
            },
    {
        match self {
            SyncStatus::LocalOnly => "Local only - sync coming later",
            SyncStatus::Synced => "Synced",
            SyncStatus::Uploading => "Uploading...",
            SyncStatus::Downloading => "Downloading...",
            SyncStatus::Conflict => "Conflict",
        }
    }
}

/// The folder of a Hall's chest under `base`.
pub open spec fn hall_dir(base: Seq<char>, hall_id: u128) -> Seq<char> {
    joined_path(base, uuid_text(hall_id))
}

/// The standard subfolders of a Hall's chest.
pub open spec fn chest_subfolders() -> Seq<Seq<char>> {
    seq!["shared"@, "personal"@, "downloads"@]
}

/// The data folder that `directories::ProjectDirs` finds for an application,
/// named by its qualifier, organisation and application name.
///
/// Trusted: calls `ProjectDirs::from` and `data_dir` on the result. The
/// folder depends on the user's environment, so nothing is promised of it.
#[verifier::external_body]
fn project_data_dir(qualifier: &str, organization: &str, application: &str) -> (d: Option<String>) {
    directories::ProjectDirs::from(qualifier, organization, application).map(
        |p| p.data_dir().to_string_lossy().into_owned(),
    )
}

/// An I/O error of kind `NotFound` with the given message.
///
/// Trusted: calls `std::io::Error::new`; nothing is stated of the value.
#[verifier::external_body]
pub(crate) fn not_found_error(message: &str) -> (e: std::io::Error) {
    std::io::Error::new(std::io::ErrorKind::NotFound, message.to_string())
}

/// The chest entries that are not hidden (their name does not start with a dot).
pub open spec fn visible(e: ChestEntry) -> bool {
    !is_prefix("."@, e.name@)
}

/// Listing key of a chest entry: directory or not, and the name as written.
pub open spec fn chest_entry_key(e: ChestEntry) -> (bool, Seq<char>) {
    (e.is_directory, e.name@)
}

impl HallChest {
    /// Get default base path for Hall Chests: `<data dir>/chests`.
    pub fn default_base_path() -> (r: Result<String, Error>)
        ensures
            r matches Err(e) ==> e is Io,
            r matches Ok(p) ==> exists|d: Seq<char>| p@ == #[trigger] joined_path(d, "chests"@),
    {
        match project_data_dir("dev", "onyx", "exom") {
            Some(d) => Ok(join_path(d.as_str(), "chests")),
            None => Err(Error::Io(not_found_error("Could not determine config directory"))),
        }
    }

    /// A chest manager rooted at `base_path` (the app creates the folder).
    pub fn with_base_path(base_path: String) -> (c: Self)
        ensures
            c.base() == base_path@,
    {
        HallChest { base_path }
    }

    /// The base folder.
    pub closed spec fn base(&self) -> Seq<char> {
        self.base_path@
    }

    /// Get path for a Hall's chest
    pub fn hall_path(&self, hall_id: u128) -> (p: String)
        ensures
            p@ == hall_dir(self.base(), hall_id),
    {
        join_path(self.base_path.as_str(), id_to_string(hall_id).as_str())
    }

    /// The metadata file of a Hall's chest.
    pub fn meta_path(&self, hall_id: u128) -> (p: String)
        ensures
            p@ == joined_path(hall_dir(self.base(), hall_id), ".hall_meta.json"@),
    {
        join_path(self.hall_path(hall_id).as_str(), ".hall_meta.json")
    }

    /// The folders to create when a member joins: the Hall's folder and its
    /// standard subfolders. Fellows get no chest.
    pub fn init_folders(&self, hall_id: u128, role: HallRole) -> (r: Result<Vec<String>, Error>)
        ensures
            !role_at_least(role, HallRole::HallAgent) ==> (r matches Err(Error::PermissionDenied(m))
                && m@ == "Fellows do not have Hall Chest access"@),
            role_at_least(role, HallRole::HallAgent) ==> (r matches Ok(v) && v@.len() == 4
                && v@[0]@ == hall_dir(self.base(), hall_id) && forall|k: int|
                0 <= k < 3 ==> (#[trigger] v@[k + 1])@ == joined_path(
                    hall_dir(self.base(), hall_id),
                    chest_subfolders()[k],
                )),
    {
        if role.hosting_priority() < 2 {
            return Err(Error::PermissionDenied(String::from_str("Fellows do not have Hall Chest access")));
        }
        let hall = self.hall_path(hall_id);
        let shared = join_path(hall.as_str(), "shared");
        let personal = join_path(hall.as_str(), "personal");
        let downloads = join_path(hall.as_str(), "downloads");
        let v = vec![hall, shared, personal, downloads];
        assert(v@[1]@ == joined_path(hall_dir(self.base(), hall_id), chest_subfolders()[0]));
        assert(v@[2]@ == joined_path(hall_dir(self.base(), hall_id), chest_subfolders()[1]));
        assert(v@[3]@ == joined_path(hall_dir(self.base(), hall_id), chest_subfolders()[2]));
        Ok(v)
    }

    /// The listing of a chest folder: hidden entries left out, directories
    /// first, then by name.
    pub fn listing(entries: Vec<ChestEntry>) -> (r: Vec<ChestEntry>)
        ensures
            r@ == listing_order(
                entries@.filter(|e: ChestEntry| visible(e)),
                |e: ChestEntry| chest_entry_key(e),
            ),
            r@.to_multiset() == entries@.filter(|e: ChestEntry| visible(e)).to_multiset(),
            forall|i: int, j: int|
                0 <= i < j < r.len() ==> !entry_lt(
                    chest_entry_key(#[trigger] r[j]),
                    chest_entry_key(#[trigger] r[i]),
                ),
    {
        let ghost orig = entries@;
        let ghost keep = |e: ChestEntry| visible(e);
        let total = entries.len();
        let mut rest = entries;
        let mut kept: Vec<ChestEntry> = Vec::new();
        let mut dirs: Vec<bool> = Vec::new();
        let mut keys: Vec<Vec<char>> = Vec::new();
        assert(orig.take(0).filter(keep) =~= Seq::<ChestEntry>::empty()) by {
            reveal(Seq::filter);
        }
        while rest.len() > 0
            invariant
                orig.len() == total,
                rest.len() <= total,
                keep == (|e: ChestEntry| visible(e)),
                rest@ == orig.skip(total - rest.len()),
                kept@ == orig.take(total - rest.len()).filter(keep),
                dirs.len() == kept.len(),
                keys.len() == kept.len(),
                forall|j: int| 0 <= j < kept.len() ==> dirs[j] == (#[trigger] kept@[j]).is_directory,
                forall|j: int| 0 <= j < kept.len() ==> keys[j]@ == (#[trigger] kept@[j]).name@,
            decreases rest.len(),
        {
            let ghost i = total - rest.len();
            let e = rest.remove(0);
            assert(e == orig[i]);
            assert(rest@ =~= orig.skip(i + 1));
            assert(orig.take(i + 1).drop_last() =~= orig.take(i));
            assert(orig.take(i + 1).last() == orig[i]);
            if !str_starts_with(e.name.as_str(), ".") {
                dirs.push(e.is_directory);
                keys.push(chars_of(e.name.as_str()));
                kept.push(e);
            }
            proof {
                reveal(Seq::filter);
            }
        }
        assert(orig.take(total as int) =~= orig);
        let ghost dirf = |e: ChestEntry| e.is_directory;
        let ghost keyf = |e: ChestEntry| e.name@;
        let r = sort_listing(kept, dirs, keys, Ghost(dirf), Ghost(keyf));
        assert((|t: ChestEntry| (dirf(t), keyf(t))) =~= (|e: ChestEntry| chest_entry_key(e)));
        r
    }

    /// Get the base path for display
    pub fn base_path(&self) -> (p: &str)
        ensures
            p@ == self.base(),
    {
        self.base_path.as_str()
    }
}

} // verus!
