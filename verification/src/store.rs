//! The versioned store under `~/.stowaway`, and content hashing.
use vstd::prelude::*;

use crate::error::StowawayError;
use crate::paths::{join_path, join_spec};
use crate::text::{hex_digit_char, hex_digit_char_exec, push_char};
use vstd::utf8::encode_utf8;

verus! {

/// A stowed version of a source tree: its content hash, when it was made, and
/// the directories it came from and was linked into.
pub struct StoreVersion {
    pub hash: String,
    pub timestamp: u64,
    pub source_dir: String,
    pub target_dir: String,
}

impl StoreVersion {
    /// A copy of the version.
    pub fn duplicate(&self) -> (r: StoreVersion)
        ensures
            r == *self,
    {
        StoreVersion {
            hash: self.hash.clone(),
            timestamp: self.timestamp,
            source_dir: self.source_dir.clone(),
            target_dir: self.target_dir.clone(),
        }
    }
}

/// The SHA-256 digest of `data`.
pub uninterp spec fn sha256_digest(data: Seq<u8>) -> Seq<u8>;

/// The SHA-256 digest of `data`.
///
/// Wraps `sha2::Sha256::digest`; the claim is that the result is
/// `sha256_digest` of the bytes, and that it is 32 bytes long (the output
/// size of SHA-256 in the `sha2` crate).
#[verifier::external_body]
fn sha256(data: &[u8]) -> (r: Vec<u8>)
    ensures
        r@ == sha256_digest(data@),
        r@.len() == 32,
{
    <sha2::Sha256 as sha2::Digest>::digest(data).to_vec()
}

/// Two lower-case hexadecimal digits per byte, most significant first.
pub open spec fn hex_lower(bytes: Seq<u8>) -> Seq<char>
    decreases bytes.len(),
{
    if bytes.len() == 0 {
        Seq::empty()
    } else {
        hex_lower(bytes.drop_last()) + seq![
            hex_digit_char((bytes.last() / 16) as nat),
            hex_digit_char((bytes.last() % 16) as nat),
        ]
    }
}

/// The content hash of a text: the lower-case hex SHA-256 digest of its UTF-8 bytes.
pub open spec fn content_hash(text: Seq<char>) -> Seq<char> {
    hex_lower(sha256_digest(encode_utf8(text)))
}

/// A content hash is 64 characters long.
pub proof fn lemma_content_hash_len(text: Seq<char>)
    requires
        sha256_digest(encode_utf8(text)).len() == 32,
    ensures
        content_hash(text).len() == 64,
{
    lemma_hex_lower_len(sha256_digest(encode_utf8(text)));
}

/// Each byte gives two characters.
pub proof fn lemma_hex_lower_len(bytes: Seq<u8>)
    ensures
        hex_lower(bytes).len() == 2 * bytes.len(),
    decreases bytes.len(),
{
    if bytes.len() > 0 {
        lemma_hex_lower_len(bytes.drop_last());
    }
}

/// The lower-case hexadecimal form of `bytes`.
pub fn to_hex_lower(bytes: &Vec<u8>) -> (r: String)
    ensures
        r@ == hex_lower(bytes@),
{
    let mut r = String::new();
    let mut i: usize = 0;
    while i < bytes.len()
        invariant
            i <= bytes.len(),
            r@ == hex_lower(bytes@.take(i as int)),
        decreases bytes.len() - i,
    {
        let b = bytes[i];
        push_char(&mut r, hex_digit_char_exec(b / 16));
        push_char(&mut r, hex_digit_char_exec(b % 16));
        proof {
            let t = bytes@.take(i + 1);
            assert(t.drop_last() =~= bytes@.take(i as int));
            assert(t.last() == b);
        }
        i = i + 1;
    }
    assert(bytes@.take(bytes.len() as int) =~= bytes@);
    r
}

/// The content hash of `content`: 64 lower-case hexadecimal characters.
pub fn calculate_content_hash(content: &str) -> (r: String)
    ensures
        r@ == content_hash(content@),
        r@.len() == 64,
{
    let digest = sha256(content.as_bytes());
    proof {
        lemma_content_hash_len(content@);
    }
    to_hex_lower(&digest)
}

/// A directory found in the store, as listed for cleanup.
pub struct VersionDir {
    /// The directory's path.
    pub path: String,
    /// Whether the entry is a directory.
    pub is_dir: bool,
    /// Whether the entry's name is valid Unicode.
    pub has_unicode_name: bool,
    /// When the directory was created, in nanoseconds since the Unix epoch,
    /// where the platform reports it.
    pub created: Option<u128>,
}

/// Whether an entry of the store takes part in cleanup: a directory with a
/// Unicode name and a known creation time.
pub open spec fn is_cleanup_candidate(v: VersionDir) -> bool {
    v.is_dir && v.has_unicode_name && v.created is Some
}

/// Entry `a` comes before entry `b` when ordering newest first: it was created
/// later, or at the same time and was listed earlier.
pub open spec fn newer_first(dirs: Seq<VersionDir>, a: int, b: int) -> bool {
    let ca = dirs[a].created->0;
    let cb = dirs[b].created->0;
    ca > cb || (ca == cb && a < b)
}

/// `order` lists exactly the cleanup candidates of `dirs`, once each, newest first.
pub open spec fn ordered_newest_first(dirs: Seq<VersionDir>, order: Seq<usize>) -> bool {
    &&& forall|k: int| 0 <= k < order.len() ==> #[trigger] order[k] < dirs.len()
        && is_cleanup_candidate(dirs[order[k] as int])
    &&& forall|i: int| 0 <= i < dirs.len() && is_cleanup_candidate(dirs[i]) ==> #[trigger] order.contains(
        i as usize,
    )
    &&& forall|k: int, l: int|
        0 <= k < l < order.len() ==> newer_first(dirs, #[trigger] order[k] as int, #[trigger] order[l] as int)
}

/// The paths of the candidate directories that cleanup removes, newest first:
/// all but the `keep_count` newest.
pub open spec fn removed_versions(dirs: Seq<VersionDir>, order: Seq<usize>, keep_count: nat) -> Seq<Seq<char>> {
    if keep_count >= order.len() {
        Seq::empty()
    } else {
        order.skip(keep_count as int).map_values(|i: usize| dirs[i as int].path@)
    }
}

/// The creation time of candidate `idx`.
fn created_at(dirs: &Vec<VersionDir>, idx: usize) -> (r: u128)
    requires
        idx < dirs.len(),
        dirs@[idx as int].created is Some,
    ensures
        r == dirs@[idx as int].created->0,
{
    match dirs[idx].created {
        Some(t) => t,
        None => 0,
    }
}

/// The indices of the cleanup candidates of `dirs`, newest first (a stable
/// insertion sort on creation time).
pub fn order_newest_first(dirs: &Vec<VersionDir>) -> (order: Vec<usize>)
    ensures
        ordered_newest_first(dirs@, order@),
{
    let mut order: Vec<usize> = Vec::new();
    let mut i: usize = 0;
    while i < dirs.len()
        invariant
            i <= dirs.len(),
            forall|k: int| 0 <= k < order.len() ==> #[trigger] order@[k] < i && is_cleanup_candidate(dirs@[order@[k] as int]),
            forall|j: int| 0 <= j < i && is_cleanup_candidate(dirs@[j]) ==> #[trigger] order@.contains(j as usize),
            forall|k: int, l: int|
                0 <= k < l < order.len() ==> newer_first(dirs@, #[trigger] order@[k] as int, #[trigger] order@[l] as int),
        decreases dirs.len() - i,
    {
        let is_candidate = dirs[i].is_dir && dirs[i].has_unicode_name && dirs[i].created.is_some();
        if is_candidate {
            let c: u128 = match dirs[i].created {
                Some(t) => t,
                None => 0,
            };
            // Insert after every entry created at the same time or later.
            let mut pos: usize = 0;
            while pos < order.len() && created_at(dirs, order[pos]) >= c
                invariant
                    pos <= order.len(),
                    i < dirs.len(),
                    dirs@[i as int].created == Some(c),
                    forall|k: int| 0 <= k < order.len() ==> #[trigger] order@[k] < i && is_cleanup_candidate(dirs@[order@[k] as int]),
                    forall|k: int| 0 <= k < pos ==> dirs@[#[trigger] order@[k] as int].created->0 >= c,
                    forall|k: int, l: int|
                        0 <= k < l < order.len() ==> newer_first(dirs@, #[trigger] order@[k] as int, #[trigger] order@[l] as int),
                decreases order.len() - pos,
            {
                pos = pos + 1;
            }
            let ghost before = order@;
            order.insert(pos, i);
            proof {
                assert forall|k: int| 0 <= k < order.len() implies #[trigger] order@[k] < i + 1
                    && is_cleanup_candidate(dirs@[order@[k] as int]) by {
                    if k < pos {
                        assert(order@[k] == before[k]);
                    } else if k > pos {
                        assert(order@[k] == before[k - 1]);
                    }
                }
                assert forall|j: int| 0 <= j < i + 1 && is_cleanup_candidate(dirs@[j]) implies #[trigger] order@.contains(
                    j as usize,
                ) by {
                    if j == i {
                        assert(order@[pos as int] == i);
                    } else {
                        assert(before.contains(j as usize));
                        let k = choose|k: int| 0 <= k < before.len() && before[k] == j as usize;
                        if k < pos {
                            assert(order@[k] == before[k]);
                        } else {
                            assert(order@[k + 1] == before[k]);
                        }
                    }
                }
                assert forall|k: int, l: int|
                    0 <= k < l < order.len() implies newer_first(dirs@, #[trigger] order@[k] as int, #[trigger] order@[l] as int) by {
                    if l < pos {
                        assert(order@[k] == before[k] && order@[l] == before[l]);
                    } else if l == pos {
                        assert(order@[k] == before[k]);
                    } else if k == pos {
                        assert(order@[l] == before[l - 1]);
                        if pos < before.len() {
                            // the entry that followed the insertion point was created earlier
                            if l - 1 > pos {
                                assert(newer_first(dirs@, before[pos as int] as int, before[l - 1] as int));
                            }
                        }
                    } else if k < pos {
                        assert(order@[k] == before[k] && order@[l] == before[l - 1]);
                    } else {
                        assert(order@[k] == before[k - 1] && order@[l] == before[l - 1]);
                    }
                }
            }
        }
        i = i + 1;
    }
    order
}

/// What reading the session file, which records the current version, gave.
pub enum SessionFile {
    /// There is no session file.
    Missing,
    /// The file could not be read; holds the operating system's message.
    Unreadable(String),
    /// The file is not a valid record of a version; holds the parser's message.
    Malformed(String),
    /// The file records this version.
    Parsed(StoreVersion),
}

/// The message of a session file that does not parse.
pub open spec fn session_parse_message(detail: Seq<char>) -> Seq<char> {
    "Failed to parse session file: "@ + detail
}

/// Cleanup keeps the newest versions: every kept version is newer than every
/// removed one, the newest version is never removed when at least one is
/// kept, and all but the `keep_count` newest are removed.
pub proof fn lemma_cleanup_keeps_newest(dirs: Seq<VersionDir>, order: Seq<usize>, keep_count: nat)
    requires
        ordered_newest_first(dirs, order),
    ensures
        forall|k: int, l: int|
            0 <= l < keep_count && keep_count <= k < order.len() ==> newer_first(dirs, #[trigger] order[l] as int, #[trigger] order[k] as int),
        keep_count >= 1 ==> forall|k: int| keep_count <= k < order.len() ==> #[trigger] order[k] != order[0],
        removed_versions(dirs, order, keep_count).len() == if keep_count >= order.len() { 0 } else { order.len() - keep_count },
{
    if keep_count >= 1 {
        assert forall|k: int| keep_count <= k < order.len() implies #[trigger] order[k] != order[0] by {
            assert(newer_first(dirs, order[0] as int, order[k] as int));
        }
    }
}

/// Where the store lies: an explicit store directory (set by the caller, for
/// example from the `STOWAWAY_STORE_DIR` environment variable) takes the place
/// of `.stowaway` under the home directory.
pub struct StoreLocation {
    /// The home directory, where it is known.
    pub home_dir: Option<String>,
    /// The store directory to use instead, if one is given.
    pub store_dir: Option<String>,
}

/// The root directory of the store at `location`, where one can be had.
pub open spec fn store_root_of(location: StoreLocation) -> Option<Seq<char>> {
    match location.store_dir {
        Some(d) => Some(d@),
        None => match location.home_dir {
            Some(h) => Some(join_spec(h@, ".stowaway"@)),
            None => None,
        },
    }
}

/// The message of a home directory that cannot be determined.
pub open spec fn no_home_message() -> Seq<char> {
    "Could not determine home directory"@
}

/// Maintains the store of versions under a root directory.
pub trait StoreManager {
    /// The directory that holds the files of the version with hash `hash`.
    fn get_store_path(&self, hash: &str) -> String;

    /// The directory to create for `version`.
    fn create_version(&self, version: &StoreVersion) -> String;

    /// The directories to remove so that only the `keep_count` newest versions
    /// remain, in the order of removal.
    fn cleanup_old_versions(&self, keep_count: usize, versions: &Vec<VersionDir>) -> Vec<String>;
}

/// The store kept under `~/.stowaway`.
pub struct FileSystemStoreManager {
    store_root: String,
}

impl FileSystemStoreManager {
    /// The root directory of the store.
    pub closed spec fn root(&self) -> Seq<char> {
        self.store_root@
    }

    /// The store at `location`: the given store directory when there is one,
    /// and otherwise `.stowaway` under the home directory; fails when neither
    /// is known.
    pub fn new(location: StoreLocation) -> (r: Result<FileSystemStoreManager, StowawayError>)
        ensures
            store_root_of(location) matches Some(root) ==> (r matches Ok(m) && m.root() == root),
            store_root_of(location) is None ==> (r matches Err(StowawayError::Store(msg)) && msg@ == no_home_message()),
    {
        match location.store_dir {
            Some(d) => Ok(FileSystemStoreManager { store_root: d }),
            None => match location.home_dir {
                Some(h) => {
                    proof {
                        reveal_strlit(".stowaway");
                    }
                    Ok(FileSystemStoreManager { store_root: join_path(h.as_str(), crate::config::STOWAWAY_DIR) })
                },
                None => {
                    proof {
                        reveal_strlit("Could not determine home directory");
                    }
                    let msg = "Could not determine home directory".to_owned();
                    Err(StowawayError::Store(msg))
                },
            },
        }
    }

    /// The root directory of the store.
    pub fn store_root(&self) -> (r: &String)
        ensures
            r@ == self.root(),
    {
        &self.store_root
    }

    /// The file that records the current version.
    pub fn session_file_path(&self) -> (r: String)
        ensures
            r@ == join_spec(self.root(), "session.json"@),
    {
        join_path(self.store_root.as_str(), "session.json")
    }

    /// The current version, given what reading the session file gave: none
    /// without a session file, an I/O error for an unreadable file, a store
    /// error for a malformed one.
    pub fn get_current_version(&self, file: SessionFile) -> (r: Result<Option<StoreVersion>, StowawayError>)
        ensures
            file is Missing ==> r == Ok::<Option<StoreVersion>, StowawayError>(None),
            file matches SessionFile::Unreadable(m) ==> r == Err::<Option<StoreVersion>, StowawayError>(StowawayError::Io(m)),
            file matches SessionFile::Malformed(m) ==> (r matches Err(StowawayError::Store(msg)) && msg@ == session_parse_message(m@)),
            file matches SessionFile::Parsed(v) ==> r == Ok::<Option<StoreVersion>, StowawayError>(Some(v)),
    {
        match file {
            SessionFile::Missing => Ok(None),
            SessionFile::Unreadable(m) => Err(StowawayError::Io(m)),
            SessionFile::Malformed(m) => {
                proof {
                    reveal_strlit("Failed to parse session file: ");
                }
                Err(StowawayError::Store(crate::text::concat("Failed to parse session file: ", m.as_str())))
            },
            SessionFile::Parsed(v) => Ok(Some(v)),
        }
    }

    /// The directory that holds all versions.
    pub fn versions_dir(&self) -> (r: String)
        ensures
            r@ == join_spec(self.root(), "store"@),
    {
        join_path(self.store_root.as_str(), "store")
    }
}

impl StoreManager for FileSystemStoreManager {
    /// `<root>/store/<hash>`.
    fn get_store_path(&self, hash: &str) -> (r: String)
        ensures
            r@ == join_spec(join_spec(self.root(), "store"@), hash@),
    {
        let dir = self.versions_dir();
        join_path(dir.as_str(), hash)
    }

    /// The store path of the version's hash.
    fn create_version(&self, version: &StoreVersion) -> (r: String)
        ensures
            r@ == join_spec(join_spec(self.root(), "store"@), version.hash@),
    {
        self.get_store_path(version.hash.as_str())
    }

    /// All candidates but the `keep_count` newest, newest first.
    fn cleanup_old_versions(&self, keep_count: usize, versions: &Vec<VersionDir>) -> (r: Vec<String>)
        ensures
            exists|order: Seq<usize>|
                ordered_newest_first(versions@, order) && r@.map_values(|s: String| s@)
                    == removed_versions(versions@, order, keep_count as nat),
    {
        let order = order_newest_first(versions);
        let mut r: Vec<String> = Vec::new();
        if keep_count >= order.len() {
            proof {
                assert(r@.map_values(|s: String| s@) =~= removed_versions(
                    versions@,
                    order@,
                    keep_count as nat,
                ));
            }
            return r;
        }
        let mut k: usize = keep_count;
        while k < order.len()
            invariant
                ordered_newest_first(versions@, order@),
                keep_count <= k <= order.len(),
                r@.map_values(|s: String| s@) == order@.subrange(keep_count as int, k as int).map_values(
                    |i: usize| versions@[i as int].path@,
                ),
            decreases order.len() - k,
        {
            assert(order@[k as int] < versions.len());
            let ghost before = r@;
            r.push(versions[order[k]].path.clone());
            proof {
                let f = |i: usize| versions@[i as int].path@;
                assert(order@.subrange(keep_count as int, k + 1) =~= order@.subrange(
                    keep_count as int,
                    k as int,
                ).push(order@[k as int]));
                assert(r@ == before.push(r@[r@.len() - 1]));
                assert(r@.map_values(|s: String| s@) =~= before.map_values(|s: String| s@).push(
                    versions@[order@[k as int] as int].path@,
                ));
                assert(order@.subrange(keep_count as int, k + 1).map_values(f) =~= order@.subrange(
                    keep_count as int,
                    k as int,
                ).map_values(f).push(f(order@[k as int])));
            }
            k = k + 1;
        }
        assert(order@.subrange(keep_count as int, order.len() as int) =~= order@.skip(
            keep_count as int,
        ));
        r
    }
}

} // verus!
