//! Bot manifests and the registry of bots found on disk.
//!
//! A manifest is read from `bots/<bot_id>/<bot_id>.toml` by the app (TOML
//! decoding happens there); here it is checked against its folder, kept in
//! the registry, and looked up by identifier, capability or command.

use vstd::prelude::*;
use crate::bot::{caps_contain, BotCapability};
use crate::text::{is_prefix, str_equals, str_starts_with};
use crate::paths::{join_path, joined_path};

verus! {

#[verifier::external_type_specification]
#[verifier::external_body]
pub struct ExTomlValue(toml::Value);


/// Bot metadata section
#[derive(Debug, Clone)]
pub struct BotMeta {
    /// Unique identifier (must match folder name)
    pub id: String,
    /// Display name
    pub name: String,
    /// Semantic version
    pub version: String,
    /// Author name or organization
    pub author: Option<String>,
    /// Short description
    pub description: Option<String>,
    /// Bot category for UI grouping
    pub category: Option<BotCategory>,
    /// Required capabilities
    pub capabilities: Vec<BotCapability>,
}

/// Bot categories for UI organization
#[derive(Debug, Clone, Copy, PartialEq, Eq, Structural)]
pub enum BotCategory {
    /// System/utility bots
    Utility,
    /// Presence and announcement bots
    Presence,
    /// Moderation bots
    Moderation,
    /// Integration bots (external services)
    Integration,
    /// Entertainment/fun bots
    Entertainment,
}

impl Default for BotCategory {
    fn default() -> (c: Self)
        ensures
            c == BotCategory::Utility,
    {
        BotCategory::Utility
    }
}

/// Configuration field definition
#[derive(Debug, Clone)]
pub struct ConfigField {
    /// Field type
    pub field_type: ConfigFieldType,
    /// Default value, as written in the manifest
    pub default: Option<toml::Value>,
    /// Human-readable description
    pub description: Option<String>,
    /// Whether this field is required
    pub required: bool,
    /// Allowed values for enum types
    pub options: Vec<String>,
}

/// Configuration field types
#[derive(Debug, Clone, Copy, PartialEq, Eq, Structural)]
pub enum ConfigFieldType {
    String,
    Integer,
    Float,
    Boolean,
    /// One of predefined options
    Enum,
    /// Time in HH:MM format
    Time,
    /// Duration in seconds
    Duration,
}

/// Slash command definition
#[derive(Debug, Clone)]
pub struct CommandDef {
    /// Command prefix (e.g., "/archive")
    pub prefix: String,
    /// Short description for help
    pub description: String,
    /// Usage pattern (e.g., "/archive-set-time <HH:MM>")
    pub usage: Option<String>,
    /// Required capability to use this command
    pub requires_capability: Option<BotCapability>,
}

/// Bot manifest loaded from TOML
#[derive(Debug, Clone)]
pub struct BotManifestToml {
    /// Bot package metadata (includes capabilities)
    pub bot: BotMeta,
    /// Configuration schema (default values and types), by field name
    pub config: Vec<(String, ConfigField)>,
    /// Slash commands this bot handles
    pub commands: Vec<CommandDef>,
    /// Asset paths (relative to bot folder)
    pub assets: Vec<String>,
}

/// Error type for manifest loading
#[derive(Debug)]
pub enum ManifestError {
    /// Failed to read manifest file
    IoError(std::io::Error),
    /// Failed to parse manifest TOML (the parser's message)
    ParseError(String),
    /// Manifest ID does not match folder name
    IdMismatch { expected: String, found: String },
    /// Bot folder not found
    FolderNotFound(String),
    /// Manifest file not found
    ManifestNotFound(String),
}

/// The command prefixes of a list of commands, in order.
pub open spec fn prefixes_of(commands: Seq<CommandDef>) -> Seq<Seq<char>> {
    commands.map_values(|c: CommandDef| c.prefix@)
}

/// The text `prefix` starts with one of the commands' prefixes.
pub open spec fn handles_prefix(commands: Seq<CommandDef>, prefix: Seq<char>) -> bool {
    exists|k: int| 0 <= k < commands.len() && is_prefix((#[trigger] commands[k]).prefix@, prefix)
}

impl BotManifestToml {
    /// Get capabilities (delegates to BotMeta)
    pub fn capabilities(&self) -> (r: &[BotCapability])
        ensures
            r@ == self.bot.capabilities@,
    {
        self.bot.capabilities.as_slice()
    }

    /// Get command prefixes for routing
    pub fn command_prefixes(&self) -> (r: Vec<String>)
        ensures
            r@.map_values(|s: String| s@) == prefixes_of(self.commands@),
    {
        let mut r: Vec<String> = Vec::new();
        let mut i: usize = 0;
        while i < self.commands.len()
            invariant
                i <= self.commands.len(),
                r@.map_values(|s: String| s@) == prefixes_of(self.commands@.take(i as int)),
            decreases self.commands.len() - i,
        {
            let ghost before = r@;
            r.push(self.commands[i].prefix.clone());
            proof {
                let f = |s: String| s@;
                let g = |c: CommandDef| c.prefix@;
                assert(r@.map_values(f) =~= before.map_values(f).push(self.commands@[i as int].prefix@));
                assert(self.commands@.take(i + 1).map_values(g) =~= self.commands@.take(i as int).map_values(
                    g,
                ).push(self.commands@[i as int].prefix@));
            }
            i = i + 1;
        }
        assert(self.commands@.take(i as int) =~= self.commands@);
        r
    }

    /// Check if bot has a capability
    pub fn has_capability(&self, cap: BotCapability) -> (b: bool)
        ensures
            b == self.bot.capabilities@.contains(cap),
    {
        caps_contain(self.bot.capabilities.as_slice(), cap)
    }

    /// Whether one of this bot's commands is a prefix of `prefix`.
    pub fn handles_command(&self, prefix: &str) -> (b: bool)
        ensures
            b == handles_prefix(self.commands@, prefix@),
    {
        let mut i: usize = 0;
        while i < self.commands.len()
            invariant
                i <= self.commands.len(),
                forall|k: int| 0 <= k < i ==> !is_prefix((#[trigger] self.commands@[k]).prefix@, prefix@),
            decreases self.commands.len() - i,
        {
            if str_starts_with(prefix, self.commands[i].prefix.as_str()) {
                return true;
            }
            i = i + 1;
        }
        false
    }

    /// Check a manifest read from the folder named `folder_name`: its
    /// identifier must be that name.
    pub fn check_folder(self, folder_name: &str) -> (r: Result<BotManifestToml, ManifestError>)
        ensures
            self.bot.id@ == folder_name@ ==> (r matches Ok(m) && m == self),
            self.bot.id@ != folder_name@ ==> (r matches Err(ManifestError::IdMismatch { expected, found })
                && expected@ == folder_name@ && found@ == self.bot.id@),
    {
        if str_equals(self.bot.id.as_str(), folder_name) {
            Ok(self)
        } else {
            Err(
                ManifestError::IdMismatch {
                    expected: String::from_str(folder_name),
                    found: self.bot.id.clone(),
                },
            )
        }
    }
}

/// Bot registry - central store of available bot manifests
#[derive(Debug)]
pub struct BotRegistry {
    /// Directory containing bot packages
    pub bots_dir: String,
    /// Loaded manifests, at most one per bot identifier
    pub manifests: Vec<BotManifestToml>,
    /// Load errors for diagnostics: the path concerned and the error
    pub load_errors: Vec<(String, ManifestError)>,
}

/// The manifests have distinct identifiers.
pub open spec fn distinct_bot_ids(m: Seq<BotManifestToml>) -> bool {
    forall|i: int, j: int| 0 <= i < j < m.len() ==> (#[trigger] m[i]).bot.id@ != (#[trigger] m[j]).bot.id@
}

/// The scan result is a manifest with identifier `id`.
pub open spec fn ok_with_id(r: Result<BotManifestToml, ManifestError>, id: Seq<char>) -> bool {
    r matches Ok(m) && m.bot.id@ == id
}

/// Some manifest has identifier `id`.
pub open spec fn has_bot(m: Seq<BotManifestToml>, id: Seq<char>) -> bool {
    exists|k: int| 0 <= k < m.len() && (#[trigger] m[k]).bot.id@ == id
}

/// The path recorded for a load error: the folder or file it names, else "unknown".
pub open spec fn error_path(e: ManifestError) -> Seq<char> {
    match e {
        ManifestError::FolderNotFound(p) => p@,
        ManifestError::ManifestNotFound(p) => p@,
        _ => "unknown"@,
    }
}

impl BotRegistry {
    /// Create an empty registry
    pub fn new(bots_dir: String) -> (r: Self)
        ensures
            r.bots_dir == bots_dir,
            r.manifests@.len() == 0,
            r.load_errors@.len() == 0,
    {
        BotRegistry { bots_dir, manifests: Vec::new(), load_errors: Vec::new() }
    }

    /// The position of the manifest with identifier `id`.
    fn position(&self, id: &str) -> (r: Option<usize>)
        ensures
            match r {
                Some(k) => k < self.manifests.len() && self.manifests@[k as int].bot.id@ == id@,
                None => !has_bot(self.manifests@, id@),
            },
    {
        let mut i: usize = 0;
        while i < self.manifests.len()
            invariant
                i <= self.manifests.len(),
                forall|k: int| 0 <= k < i ==> (#[trigger] self.manifests@[k]).bot.id@ != id@,
            decreases self.manifests.len() - i,
        {
            if str_equals(self.manifests[i].bot.id.as_str(), id) {
                return Some(i);
            }
            i = i + 1;
        }
        None
    }

    /// Take in what a scan of the bots directory gave, replacing what was
    /// there: each manifest is registered under its identifier (a later one
    /// replacing an earlier one), each error kept with its path.
    pub fn register_scan(&mut self, results: Vec<Result<BotManifestToml, ManifestError>>)
        ensures
            distinct_bot_ids(final(self).manifests@),
            final(self).bots_dir == old(self).bots_dir,
            forall|id: Seq<char>|
                has_bot(final(self).manifests@, id) <==> exists|k: int|
                    0 <= k < results.len() && ok_with_id(#[trigger] results@[k], id),
            forall|k: int|
                0 <= k < final(self).manifests.len() ==> exists|j: int|
                    0 <= j < results.len() && results@[j] == Ok::<BotManifestToml, ManifestError>(
                        #[trigger] final(self).manifests@[k],
                    ) && forall|l: int|
                        j < l < results.len() ==> !ok_with_id(
                            #[trigger] results@[l],
                            final(self).manifests@[k].bot.id@,
                        ),
            final(self).load_errors@.len() == results@.filter(
                |r: Result<BotManifestToml, ManifestError>| r is Err,
            ).len(),
            forall|k: int|
                0 <= k < final(self).load_errors.len() ==> (#[trigger] final(self).load_errors@[k]).0@
                    == error_path(final(self).load_errors@[k].1),
            forall|k: int|
                0 <= k < final(self).load_errors.len() ==> Err::<BotManifestToml, ManifestError>(
                    (#[trigger] final(self).load_errors@[k]).1,
                ) == results@.filter(|r: Result<BotManifestToml, ManifestError>| r is Err)[k],
    {
        self.manifests = Vec::new();
        self.load_errors = Vec::new();
        let ghost rs = results@;
        let ghost is_err = |r: Result<BotManifestToml, ManifestError>| r is Err;
        let total = results.len();
        let mut rest = results;
        assert(rs.take(0).filter(is_err) =~= Seq::<Result<BotManifestToml, ManifestError>>::empty()) by {
            reveal(Seq::filter);
        }
        while rest.len() > 0
            invariant
                rs.len() == total,
                rest.len() <= total,
                rest@ == rs.skip(total - rest.len()),
                self.bots_dir == old(self).bots_dir,
                is_err == (|r: Result<BotManifestToml, ManifestError>| r is Err),
                distinct_bot_ids(self.manifests@),
                forall|id: Seq<char>|
                    has_bot(self.manifests@, id) <==> exists|k: int|
                        0 <= k < total - rest.len() && ok_with_id(#[trigger] rs[k], id),
                forall|k: int|
                    0 <= k < self.manifests.len() ==> exists|j: int|
                        0 <= j < total - rest.len() && rs[j] == Ok::<BotManifestToml, ManifestError>(
                            #[trigger] self.manifests@[k],
                        ) && forall|l: int|
                            j < l < total - rest.len() ==> !ok_with_id(#[trigger] rs[l], self.manifests@[k].bot.id@),
                self.load_errors@.len() == rs.take(total - rest.len()).filter(is_err).len(),
                forall|k: int|
                    0 <= k < self.load_errors.len() ==> (#[trigger] self.load_errors@[k]).0@ == error_path(
                        self.load_errors@[k].1,
                    ),
                forall|k: int|
                    0 <= k < self.load_errors.len() ==> Err::<BotManifestToml, ManifestError>(
                        (#[trigger] self.load_errors@[k]).1,
                    ) == rs.take(total - rest.len()).filter(is_err)[k],
            decreases rest.len(),
        {
            let ghost i = total - rest.len();
            let ghost ms0 = self.manifests@;
            let r = rest.remove(0);
            assert(r == rs[i]);
            assert(rest@ =~= rs.skip(i + 1));
            assert(rs.take(i + 1).drop_last() =~= rs.take(i));
            assert(rs.take(i + 1).last() == rs[i]);
            match r {
                Ok(manifest) => {
                    match self.position(manifest.bot.id.as_str()) {
                        Some(k) => {
                            let ghost old_m = self.manifests@[k as int];
                            self.manifests.set(k, manifest);
                            proof {
                                lemma_registry_replace(ms0, self.manifests@, k as int, rs, i);
                            }
                        },
                        None => {
                            self.manifests.push(manifest);
                            proof {
                                lemma_registry_add(ms0, self.manifests@, rs, i);
                            }
                        },
                    }
                },
                Err(e) => {
                    let path = match &e {
                        ManifestError::FolderNotFound(p) => p.clone(),
                        ManifestError::ManifestNotFound(p) => p.clone(),
                        _ => String::from_str("unknown"),
                    };
                    self.load_errors.push((path, e));
                    proof {
                        lemma_registry_skip_err(ms0, rs, i);
                    }
                },
            }
            proof {
                reveal(Seq::filter);
            }
        }
        assert(rs.take(total as int) =~= rs);
    }

    /// Get a manifest by bot ID
    pub fn get(&self, bot_id: &str) -> (r: Option<&BotManifestToml>)
        ensures
            match r {
                Some(m) => m.bot.id@ == bot_id@ && self.manifests@.contains(*m),
                None => !has_bot(self.manifests@, bot_id@),
            },
    {
        match self.position(bot_id) {
            Some(k) => {
                assert(self.manifests@[k as int] == self.manifests@[k as int]);
                Some(&self.manifests[k])
            },
            None => None,
        }
    }

    /// Check if a bot is registered
    pub fn contains(&self, bot_id: &str) -> (b: bool)
        ensures
            b == has_bot(self.manifests@, bot_id@),
    {
        self.position(bot_id).is_some()
    }

    /// Get number of registered bots
    pub fn len(&self) -> (n: usize)
        ensures
            n == self.manifests@.len(),
    {
        self.manifests.len()
    }

    /// Check if registry is empty
    pub fn is_empty(&self) -> (b: bool)
        ensures
            b == (self.manifests@.len() == 0),
    {
        self.manifests.len() == 0
    }

    /// The identifiers of the registered bots.
    pub fn bot_ids(&self) -> (r: Vec<String>)
        ensures
            r@.map_values(|s: String| s@) == self.manifests@.map_values(|m: BotManifestToml| m.bot.id@),
    {
        let mut r: Vec<String> = Vec::new();
        let mut i: usize = 0;
        while i < self.manifests.len()
            invariant
                i <= self.manifests.len(),
                r@.map_values(|s: String| s@) == self.manifests@.take(i as int).map_values(
                    |m: BotManifestToml| m.bot.id@,
                ),
            decreases self.manifests.len() - i,
        {
            let ghost before = r@;
            r.push(self.manifests[i].bot.id.clone());
            proof {
                let f = |s: String| s@;
                let g = |m: BotManifestToml| m.bot.id@;
                assert(r@.map_values(f) =~= before.map_values(f).push(self.manifests@[i as int].bot.id@));
                assert(self.manifests@.take(i + 1).map_values(g) =~= self.manifests@.take(i as int).map_values(
                    g,
                ).push(self.manifests@[i as int].bot.id@));
            }
            i = i + 1;
        }
        assert(self.manifests@.take(i as int) =~= self.manifests@);
        r
    }

    /// The registered bots that have a specific capability, in registry order.
    pub fn with_capability(&self, cap: BotCapability) -> (r: Vec<&BotManifestToml>)
        ensures
            r@.len() == self.manifests@.filter(|m: BotManifestToml| m.bot.capabilities@.contains(cap)).len(),
            forall|k: int|
                0 <= k < r@.len() ==> *r@[k] == self.manifests@.filter(
                    |m: BotManifestToml| m.bot.capabilities@.contains(cap),
                )[k],
    {
        let ghost keep = |m: BotManifestToml| m.bot.capabilities@.contains(cap);
        let ghost f = self.manifests@;
        let mut r: Vec<&BotManifestToml> = Vec::new();
        let mut i: usize = 0;
        assert(f.take(0).filter(keep) =~= Seq::<BotManifestToml>::empty()) by {
            reveal(Seq::filter);
        }
        while i < self.manifests.len()
            invariant
                i <= self.manifests.len(),
                f == self.manifests@,
                keep == (|m: BotManifestToml| m.bot.capabilities@.contains(cap)),
                r@.len() == f.take(i as int).filter(keep).len(),
                forall|k: int| 0 <= k < r@.len() ==> *r@[k] == f.take(i as int).filter(keep)[k],
            decreases self.manifests.len() - i,
        {
            let ghost before = f.take(i as int).filter(keep);
            assert(f.take(i + 1).drop_last() =~= f.take(i as int));
            assert(f.take(i + 1).last() == f[i as int]);
            proof {
                reveal(Seq::filter);
            }
            if self.manifests[i].has_capability(cap) {
                r.push(&self.manifests[i]);
                proof {
                    assert(f.take(i + 1).filter(keep) == before.push(f[i as int]));
                }
            } else {
                proof {
                    assert(f.take(i + 1).filter(keep) == before);
                }
            }
            i = i + 1;
        }
        assert(f.take(self.manifests.len() as int) =~= f);
        r
    }

    /// The folder of a bot package: the bots directory joined with the bot's identifier.
    pub fn bot_folder(&self, bot_id: &str) -> (p: String)
        ensures
            p@ == joined_path(self.bots_dir@, bot_id@),
    {
        join_path(self.bots_dir.as_str(), bot_id)
    }

    /// The first registered bot with a command that `prefix` starts with.
    pub fn with_command_prefix(&self, prefix: &str) -> (r: Option<&BotManifestToml>)
        ensures
            match r {
                Some(m) => self.manifests@.contains(*m) && handles_prefix(m.commands@, prefix@),
                None => forall|k: int|
                    0 <= k < self.manifests.len() ==> !handles_prefix(
                        (#[trigger] self.manifests@[k]).commands@,
                        prefix@,
                    ),
            },
    {
        let mut i: usize = 0;
        while i < self.manifests.len()
            invariant
                i <= self.manifests.len(),
                forall|k: int|
                    0 <= k < i ==> !handles_prefix((#[trigger] self.manifests@[k]).commands@, prefix@),
            decreases self.manifests.len() - i,
        {
            if self.manifests[i].handles_command(prefix) {
                assert(self.manifests@[i as int] == self.manifests@[i as int]);
                return Some(&self.manifests[i]);
            }
            i = i + 1;
        }
        None
    }
}

proof fn lemma_registry_replace(
    ms0: Seq<BotManifestToml>,
    ms1: Seq<BotManifestToml>,
    k: int,
    rs: Seq<Result<BotManifestToml, ManifestError>>,
    i: int,
)
    requires
        0 <= i < rs.len(),
        rs[i] matches Ok(m) && ms1 == ms0.update(k, m) && 0 <= k < ms0.len() && ms0[k].bot.id@ == m.bot.id@,
        distinct_bot_ids(ms0),
        forall|id: Seq<char>|
            has_bot(ms0, id) <==> exists|j: int| 0 <= j < i && ok_with_id(#[trigger] rs[j], id),
        forall|q: int|
            0 <= q < ms0.len() ==> exists|j: int|
                0 <= j < i && rs[j] == Ok::<BotManifestToml, ManifestError>(#[trigger] ms0[q]) && forall|l: int|
                    j < l < i ==> !ok_with_id(#[trigger] rs[l], ms0[q].bot.id@),
    ensures
        distinct_bot_ids(ms1),
        forall|id: Seq<char>|
            has_bot(ms1, id) <==> exists|j: int| 0 <= j < i + 1 && ok_with_id(#[trigger] rs[j], id),
        forall|q: int|
            0 <= q < ms1.len() ==> exists|j: int|
                0 <= j < i + 1 && rs[j] == Ok::<BotManifestToml, ManifestError>(#[trigger] ms1[q]) && forall|l: int|
                    j < l < i + 1 ==> !ok_with_id(#[trigger] rs[l], ms1[q].bot.id@),
{
    let m = rs[i]->Ok_0;
    assert forall|a: int, b: int| 0 <= a < b < ms1.len() implies (#[trigger] ms1[a]).bot.id@ != (#[trigger] ms1[b]).bot.id@ by {
        assert(ms0[a].bot.id@ != ms0[b].bot.id@);
    }
    assert forall|id: Seq<char>|
        has_bot(ms1, id) <==> exists|j: int| 0 <= j < i + 1 && ok_with_id(#[trigger] rs[j], id) by {
        if has_bot(ms1, id) {
            let q = choose|q: int| 0 <= q < ms1.len() && (#[trigger] ms1[q]).bot.id@ == id;
            if q == k {
                assert(rs[i] matches Ok(mm) && mm.bot.id@ == id);
            } else {
                assert(ms0[q].bot.id@ == id);
                assert(has_bot(ms0, id));
            }
        }
        if exists|j: int| 0 <= j < i + 1 && ok_with_id(#[trigger] rs[j], id) {
            let j = choose|j: int| 0 <= j < i + 1 && ok_with_id(#[trigger] rs[j], id);
            if j == i {
                assert(ms1[k].bot.id@ == id);
            } else {
                assert(has_bot(ms0, id));
                let q = choose|q: int| 0 <= q < ms0.len() && (#[trigger] ms0[q]).bot.id@ == id;
                if q == k {
                    assert(ms1[k].bot.id@ == id);
                } else {
                    assert(ms1[q].bot.id@ == id);
                }
            }
        }
    }
    assert forall|q: int| 0 <= q < ms1.len() implies exists|j: int|
        0 <= j < i + 1 && rs[j] == Ok::<BotManifestToml, ManifestError>(#[trigger] ms1[q]) && forall|l: int|
            j < l < i + 1 ==> !ok_with_id(#[trigger] rs[l], ms1[q].bot.id@) by {
        if q == k {
            assert(rs[i] == Ok::<BotManifestToml, ManifestError>(ms1[q]));
        } else {
            let j = choose|j: int|
                0 <= j < i && rs[j] == Ok::<BotManifestToml, ManifestError>(#[trigger] ms0[q]) && forall|l: int|
                    j < l < i ==> !ok_with_id(#[trigger] rs[l], ms0[q].bot.id@);
            assert(ms1[q] == ms0[q]);
            assert(ms0[q].bot.id@ != ms0[k].bot.id@);
        }
    }
}

proof fn lemma_registry_add(
    ms0: Seq<BotManifestToml>,
    ms1: Seq<BotManifestToml>,
    rs: Seq<Result<BotManifestToml, ManifestError>>,
    i: int,
)
    requires
        0 <= i < rs.len(),
        rs[i] matches Ok(m) && ms1 == ms0.push(m) && !has_bot(ms0, m.bot.id@),
        distinct_bot_ids(ms0),
        forall|id: Seq<char>|
            has_bot(ms0, id) <==> exists|j: int| 0 <= j < i && ok_with_id(#[trigger] rs[j], id),
        forall|q: int|
            0 <= q < ms0.len() ==> exists|j: int|
                0 <= j < i && rs[j] == Ok::<BotManifestToml, ManifestError>(#[trigger] ms0[q]) && forall|l: int|
                    j < l < i ==> !ok_with_id(#[trigger] rs[l], ms0[q].bot.id@),
    ensures
        distinct_bot_ids(ms1),
        forall|id: Seq<char>|
            has_bot(ms1, id) <==> exists|j: int| 0 <= j < i + 1 && ok_with_id(#[trigger] rs[j], id),
        forall|q: int|
            0 <= q < ms1.len() ==> exists|j: int|
                0 <= j < i + 1 && rs[j] == Ok::<BotManifestToml, ManifestError>(#[trigger] ms1[q]) && forall|l: int|
                    j < l < i + 1 ==> !ok_with_id(#[trigger] rs[l], ms1[q].bot.id@),
{
    let m = rs[i]->Ok_0;
    let n = ms0.len() as int;
    assert forall|a: int, b: int| 0 <= a < b < ms1.len() implies (#[trigger] ms1[a]).bot.id@ != (#[trigger] ms1[b]).bot.id@ by {
        if b == n {
            assert(ms1[a] == ms0[a]);
            if ms0[a].bot.id@ == m.bot.id@ {
                assert(has_bot(ms0, m.bot.id@));
            }
        } else {
            assert(ms0[a].bot.id@ != ms0[b].bot.id@);
        }
    }
    assert forall|id: Seq<char>|
        has_bot(ms1, id) <==> exists|j: int| 0 <= j < i + 1 && ok_with_id(#[trigger] rs[j], id) by {
        if has_bot(ms1, id) {
            let q = choose|q: int| 0 <= q < ms1.len() && (#[trigger] ms1[q]).bot.id@ == id;
            if q == n {
                assert(rs[i] matches Ok(mm) && mm.bot.id@ == id);
            } else {
                assert(ms0[q].bot.id@ == id);
                assert(has_bot(ms0, id));
            }
        }
        if exists|j: int| 0 <= j < i + 1 && ok_with_id(#[trigger] rs[j], id) {
            let j = choose|j: int| 0 <= j < i + 1 && ok_with_id(#[trigger] rs[j], id);
            if j == i {
                assert(ms1[n].bot.id@ == id);
            } else {
                assert(has_bot(ms0, id));
                let q = choose|q: int| 0 <= q < ms0.len() && (#[trigger] ms0[q]).bot.id@ == id;
                assert(ms1[q].bot.id@ == id);
            }
        }
    }
    assert forall|q: int| 0 <= q < ms1.len() implies exists|j: int|
        0 <= j < i + 1 && rs[j] == Ok::<BotManifestToml, ManifestError>(#[trigger] ms1[q]) && forall|l: int|
            j < l < i + 1 ==> !ok_with_id(#[trigger] rs[l], ms1[q].bot.id@) by {
        if q == n {
            assert(rs[i] == Ok::<BotManifestToml, ManifestError>(ms1[q]));
        } else {
            let j = choose|j: int|
                0 <= j < i && rs[j] == Ok::<BotManifestToml, ManifestError>(#[trigger] ms0[q]) && forall|l: int|
                    j < l < i ==> !ok_with_id(#[trigger] rs[l], ms0[q].bot.id@);
            assert(ms1[q] == ms0[q]);
            if ms0[q].bot.id@ == m.bot.id@ {
                assert(has_bot(ms0, m.bot.id@));
            }
        }
    }
}

proof fn lemma_registry_skip_err(
    ms0: Seq<BotManifestToml>,
    rs: Seq<Result<BotManifestToml, ManifestError>>,
    i: int,
)
    requires
        0 <= i < rs.len(),
        rs[i] is Err,
        forall|id: Seq<char>|
            has_bot(ms0, id) <==> exists|j: int| 0 <= j < i && ok_with_id(#[trigger] rs[j], id),
        forall|q: int|
            0 <= q < ms0.len() ==> exists|j: int|
                0 <= j < i && rs[j] == Ok::<BotManifestToml, ManifestError>(#[trigger] ms0[q]) && forall|l: int|
                    j < l < i ==> !ok_with_id(#[trigger] rs[l], ms0[q].bot.id@),
    ensures
        forall|id: Seq<char>|
            has_bot(ms0, id) <==> exists|j: int| 0 <= j < i + 1 && ok_with_id(#[trigger] rs[j], id),
        forall|q: int|
            0 <= q < ms0.len() ==> exists|j: int|
                0 <= j < i + 1 && rs[j] == Ok::<BotManifestToml, ManifestError>(#[trigger] ms0[q]) && forall|l: int|
                    j < l < i + 1 ==> !ok_with_id(#[trigger] rs[l], ms0[q].bot.id@),
{
    assert forall|id: Seq<char>|
        has_bot(ms0, id) <==> exists|j: int| 0 <= j < i + 1 && ok_with_id(#[trigger] rs[j], id) by {
        if exists|j: int| 0 <= j < i + 1 && ok_with_id(#[trigger] rs[j], id) {
            let j = choose|j: int| 0 <= j < i + 1 && ok_with_id(#[trigger] rs[j], id);
            assert(j < i);
        }
    }
    assert forall|q: int| 0 <= q < ms0.len() implies exists|j: int|
        0 <= j < i + 1 && rs[j] == Ok::<BotManifestToml, ManifestError>(#[trigger] ms0[q]) && forall|l: int|
            j < l < i + 1 ==> !ok_with_id(#[trigger] rs[l], ms0[q].bot.id@) by {
        let j = choose|j: int|
            0 <= j < i && rs[j] == Ok::<BotManifestToml, ManifestError>(#[trigger] ms0[q]) && forall|l: int|
                j < l < i ==> !ok_with_id(#[trigger] rs[l], ms0[q].bot.id@);
        assert forall|l: int| j < l < i + 1 implies !ok_with_id(#[trigger] rs[l], ms0[q].bot.id@) by {
            if l == i {
            }
        }
    }
}

} // verus!
