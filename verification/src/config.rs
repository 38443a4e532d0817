//! The user configuration read from `stowaway.yaml`.
use vstd::prelude::*;

use crate::error::StowawayError;
use crate::paths::{join_path, join_spec};
use crate::text::str_eq;

verus! {

/// The directory, under the home directory, that holds stowaway's state.
pub const STOWAWAY_DIR: &'static str = ".stowaway";

/// The name of the configuration file at the root of a source tree.
pub const STOWAWAY_CONFIG: &'static str = "stowaway.yaml";

/// The path fragment that every store file's path contains.
pub const STOWAWAY_STORE_PATH: &'static str = ".stowaway/store/";

/// Variable names mapped to their values, each name held once.
///
/// Lookups and interpolation visit the entries in insertion order.
pub struct VariableMap {
    entries: Vec<(String, String)>,
}

/// The names of a list of entries.
pub open spec fn entry_keys(entries: Seq<(Seq<char>, Seq<char>)>) -> Seq<Seq<char>> {
    entries.map_values(|e: (Seq<char>, Seq<char>)| e.0)
}

/// No name occurs twice.
pub open spec fn keys_distinct(entries: Seq<(Seq<char>, Seq<char>)>) -> bool {
    forall|i: int, j: int|
        0 <= i < entries.len() && 0 <= j < entries.len() && i != j ==> entries[i].0 != entries[j].0
}

/// The entries as a map from name to value.
pub open spec fn entries_map(entries: Seq<(Seq<char>, Seq<char>)>) -> Map<Seq<char>, Seq<char>>
    decreases entries.len(),
{
    if entries.len() == 0 {
        Map::empty()
    } else {
        entries_map(entries.drop_last()).insert(entries.last().0, entries.last().1)
    }
}

impl View for VariableMap {
    type V = Seq<(Seq<char>, Seq<char>)>;

    /// The entries, in insertion order.
    closed spec fn view(&self) -> Seq<(Seq<char>, Seq<char>)> {
        self.entries@.map_values(|e: (String, String)| (e.0@, e.1@))
    }
}

impl VariableMap {
    #[verifier::type_invariant]
    spec fn names_unique(self) -> bool {
        keys_distinct(self@)
    }

    /// The variables as a map from name to value.
    pub open spec fn as_map(&self) -> Map<Seq<char>, Seq<char>> {
        entries_map(self@)
    }

    /// An empty map.
    pub fn new() -> (r: VariableMap)
        ensures
            r@ == Seq::<(Seq<char>, Seq<char>)>::empty(),
    {
        let r = VariableMap { entries: Vec::new() };
        assert(r@ =~= Seq::<(Seq<char>, Seq<char>)>::empty());
        r
    }

    /// The number of variables.
    pub fn len(&self) -> (r: usize)
        ensures
            r == self@.len(),
    {
        self.entries.len()
    }

    /// Whether there is no variable.
    pub fn is_empty(&self) -> (r: bool)
        ensures
            r == (self@.len() == 0),
    {
        self.entries.len() == 0
    }

    /// The position of the entry named `key`, if any.
    fn position(&self, key: &str) -> (r: Option<usize>)
        ensures
            r matches Some(i) ==> i < self@.len() && self@[i as int].0 == key@,
            r is None ==> forall|i: int| 0 <= i < self@.len() ==> self@[i].0 != key@,
    {
        let mut i: usize = 0;
        while i < self.entries.len()
            invariant
                i <= self.entries.len(),
                forall|k: int| 0 <= k < i ==> self@[k].0 != key@,
            decreases self.entries.len() - i,
        {
            if str_eq(self.entries[i].0.as_str(), key) {
                return Some(i);
            }
            i = i + 1;
        }
        None
    }

    /// The value of the variable named `key`, if any.
    pub fn get(&self, key: &str) -> (r: Option<&String>)
        ensures
            r is Some <==> self.as_map().dom().contains(key@),
            r matches Some(v) ==> v@ == self.as_map()[key@],
    {
        proof {
            use_type_invariant(self);
            lemma_entries_map(self@);
        }
        match self.position(key) {
            Some(i) => Some(&self.entries[i].1),
            None => None,
        }
    }

    /// The entries, in insertion order.
    pub fn entries(&self) -> (r: &Vec<(String, String)>)
        ensures
            r@.map_values(|e: (String, String)| (e.0@, e.1@)) == self@,
    {
        &self.entries
    }

    /// Sets the variable `key` to `value`: the value of an existing entry is
    /// replaced in place, and a new name is appended.
    pub fn insert(&mut self, key: String, value: String)
        ensures
            final(self).as_map() == old(self).as_map().insert(key@, value@),
            old(self).as_map().dom().contains(key@) ==> final(self)@.len() == old(self)@.len(),
            !old(self).as_map().dom().contains(key@) ==> final(self)@ == old(self)@.push(
                (key@, value@),
            ),
    {
        proof {
            use_type_invariant(&*self);
            lemma_entries_map(self@);
        }
        let ghost before = self@;
        match self.position(key.as_str()) {
            Some(i) => {
                let mut entries: Vec<(String, String)> = Vec::new();
                std::mem::swap(&mut entries, &mut self.entries);
                let ghost old_entries = entries@;
                entries.set(i, (key, value));
                proof {
                    let after = entries@.map_values(|e: (String, String)| (e.0@, e.1@));
                    assert(after =~= before.update(i as int, (key@, value@)));
                    assert(keys_distinct(after));
                    lemma_entries_map_update(before, i as int, value@);
                }
                self.entries = entries;
            },
            None => {
                let mut entries: Vec<(String, String)> = Vec::new();
                std::mem::swap(&mut entries, &mut self.entries);
                entries.push((key, value));
                proof {
                    let after = entries@.map_values(|e: (String, String)| (e.0@, e.1@));
                    assert(after =~= before.push((key@, value@)));
                    assert(after.drop_last() =~= before);
                }
                self.entries = entries;
            },
        }
    }
}

/// A name lies in the map's domain exactly when some entry holds it, and
/// with distinct names the map gives that entry's value.
pub proof fn lemma_entries_map(entries: Seq<(Seq<char>, Seq<char>)>)
    ensures
        forall|k: Seq<char>|
            entries_map(entries).dom().contains(k) <==> exists|i: int|
                0 <= i < entries.len() && #[trigger] entries[i].0 == k,
        keys_distinct(entries) ==> forall|i: int|
            0 <= i < entries.len() ==> entries_map(entries)[#[trigger] entries[i].0]
                == entries[i].1,
    decreases entries.len(),
{
    if entries.len() > 0 {
        let init = entries.drop_last();
        lemma_entries_map(init);
        assert forall|k: Seq<char>|
            entries_map(entries).dom().contains(k) <==> exists|i: int|
                0 <= i < entries.len() && #[trigger] entries[i].0 == k by {
            if entries_map(init).dom().contains(k) {
                let i = choose|i: int| 0 <= i < init.len() && #[trigger] init[i].0 == k;
                assert(entries[i].0 == k);
            }
            if exists|i: int| 0 <= i < entries.len() && #[trigger] entries[i].0 == k {
                let i = choose|i: int| 0 <= i < entries.len() && #[trigger] entries[i].0 == k;
                if i < entries.len() - 1 {
                    assert(init[i].0 == k);
                }
            }
        }
        if keys_distinct(entries) {
            assert(keys_distinct(init));
            assert forall|i: int| 0 <= i < entries.len() implies entries_map(
                entries,
            )[#[trigger] entries[i].0] == entries[i].1 by {
                if i < entries.len() - 1 {
                    assert(init[i] == entries[i]);
                    assert(entries[i].0 != entries.last().0);
                }
            }
        }
    }
}

/// Replacing the value of entry `i` replaces that name's value in the map.
proof fn lemma_entries_map_update(entries: Seq<(Seq<char>, Seq<char>)>, i: int, v: Seq<char>)
    requires
        0 <= i < entries.len(),
        keys_distinct(entries),
    ensures
        entries_map(entries.update(i, (entries[i].0, v))) == entries_map(entries).insert(
            entries[i].0,
            v,
        ),
    decreases entries.len(),
{
    let k = entries[i].0;
    let updated = entries.update(i, (k, v));
    if i == entries.len() - 1 {
        assert(updated.drop_last() =~= entries.drop_last());
        assert(entries_map(updated) =~= entries_map(entries).insert(k, v));
    } else {
        lemma_entries_map_update(entries.drop_last(), i, v);
        assert(updated.drop_last() =~= entries.drop_last().update(i, (k, v)));
        assert(entries.last().0 != k);
        assert(entries_map(updated) =~= entries_map(entries).insert(k, v));
    }
}

/// Which files are interpolated, as glob patterns over paths relative to the source root.
pub struct InterpolationConfig {
    pub include_patterns: Vec<String>,
    pub exclude_patterns: Vec<String>,
}

/// The user configuration of a source tree.
pub struct StowawayConfig {
    pub variables: VariableMap,
    pub interpolation: InterpolationConfig,
}

/// The text of each string of a list.
pub open spec fn strings_view(v: Seq<String>) -> Seq<Seq<char>> {
    v.map_values(|s: String| s@)
}

impl Default for InterpolationConfig {
    /// Interpolates every file except the configuration file itself.
    fn default() -> (r: Self)
        ensures
            strings_view(r.include_patterns@) == seq!["**/*"@],
            strings_view(r.exclude_patterns@) == seq!["**/stowaway.yaml"@],
    {
        let mut include_patterns: Vec<String> = Vec::new();
        include_patterns.push("**/*".to_owned());
        let mut exclude_patterns: Vec<String> = Vec::new();
        exclude_patterns.push(crate::text::concat("**/", STOWAWAY_CONFIG));
        proof {
            reveal_strlit("**/");
            reveal_strlit("stowaway.yaml");
            reveal_strlit("**/stowaway.yaml");
            assert(STOWAWAY_CONFIG@ == "stowaway.yaml"@);
            assert(("**/"@ + "stowaway.yaml"@) =~= "**/stowaway.yaml"@);
            assert(strings_view(include_patterns@) =~= seq!["**/*"@]);
            assert(strings_view(exclude_patterns@) =~= seq!["**/stowaway.yaml"@]);
        }
        InterpolationConfig { include_patterns, exclude_patterns }
    }
}

impl Default for StowawayConfig {
    /// No variables, and the default interpolation patterns.
    fn default() -> (r: Self)
        ensures
            r.variables@.len() == 0,
            strings_view(r.interpolation.include_patterns@) == seq!["**/*"@],
            strings_view(r.interpolation.exclude_patterns@) == seq!["**/stowaway.yaml"@],
    {
        StowawayConfig { variables: VariableMap::new(), interpolation: InterpolationConfig::default() }
    }
}

/// What reading the configuration file of a source tree gave.
pub enum ConfigFile {
    /// There is no configuration file.
    Missing,
    /// The file could not be read; holds the operating system's message.
    Unreadable(String),
    /// The file is not a valid configuration; holds the parser's message.
    Malformed(String),
    /// The file parsed into this configuration.
    Parsed(StowawayConfig),
}

/// Finds and interprets the configuration of a source tree.
pub trait ConfigLoader {
    /// Where the configuration file of `source_dir` lies.
    fn config_path(&self, source_dir: &str) -> String;

    /// The configuration, given what reading the configuration file gave.
    fn load_config(&self, file: ConfigFile) -> Result<StowawayConfig, StowawayError>;
}

/// Loads `stowaway.yaml` from the root of the source tree.
pub struct YamlConfigLoader;

impl ConfigLoader for YamlConfigLoader {
    /// `stowaway.yaml` directly under `source_dir`.
    fn config_path(&self, source_dir: &str) -> (r: String)
        ensures
            r@ == join_spec(source_dir@, "stowaway.yaml"@),
    {
        proof {
            reveal_strlit("stowaway.yaml");
        }
        join_path(source_dir, STOWAWAY_CONFIG)
    }

    /// A missing file gives the default configuration; an unreadable one an
    /// I/O error, a malformed one a YAML error.
    fn load_config(&self, file: ConfigFile) -> (r: Result<StowawayConfig, StowawayError>)
        ensures
            file is Missing ==> (r matches Ok(c) && c.variables@.len() == 0 && strings_view(
                c.interpolation.include_patterns@,
            ) == seq!["**/*"@] && strings_view(c.interpolation.exclude_patterns@)
                == seq!["**/stowaway.yaml"@]),
            file matches ConfigFile::Unreadable(m) ==> r == Err::<StowawayConfig, StowawayError>(
                StowawayError::Io(m),
            ),
            file matches ConfigFile::Malformed(m) ==> r == Err::<StowawayConfig, StowawayError>(
                StowawayError::Yaml(m),
            ),
            file matches ConfigFile::Parsed(c) ==> r == Ok::<StowawayConfig, StowawayError>(c),
    {
        match file {
            ConfigFile::Missing => Ok(StowawayConfig::default()),
            ConfigFile::Unreadable(m) => Err(StowawayError::Io(m)),
            ConfigFile::Malformed(m) => Err(StowawayError::Yaml(m)),
            ConfigFile::Parsed(c) => Ok(c),
        }
    }
}

} // verus!
