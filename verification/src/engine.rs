//! The extraction engine: the sessions it keeps, the manifest it builds
//! when an archive is inspected, and what it does when an extraction starts.

use vstd::prelude::*;

use crate::archive::{ArchiveEntry, ArchiveFormat, ArchiveManifest, EntryKind, ManifestView};
use crate::errors::{EngineError, EngineResult};
use crate::scheduler::{all_extractable, is_reordering, is_stable_schedule, reorders, schedule_entries};
use crate::session::{ExtractionMode, ExtractionSession, SessionView, UserExtractionMode};
use crate::storage::DiskSpaceInfo;
use crate::text::str_eq;

verus! {

broadcast use {vstd::string::group_string_axioms, vstd::seq_lib::group_seq_properties};

/// Space-saver mode is recommended when the free space does not exceed the
/// total uncompressed size of the archive.
pub fn should_use_space_saver(available_bytes: u64, total_uncompressed_size: u64) -> (r: bool)
    ensures
        r == (available_bytes <= total_uncompressed_size),
{
    available_bytes <= total_uncompressed_size
}

// ---------------------------------------------------------------------------
// Manifests
// ---------------------------------------------------------------------------

/// The total uncompressed size of `s`.
pub open spec fn total_uncompressed(s: Seq<ArchiveEntry>) -> nat
    decreases s.len(),
{
    if s.len() == 0 {
        0
    } else {
        total_uncompressed(s.drop_last()) + s.last().uncompressed_size as nat
    }
}

/// The number of entries of kind `k` in `s`.
pub open spec fn count_kind(s: Seq<ArchiveEntry>, k: EntryKind) -> nat
    decreases s.len(),
{
    if s.len() == 0 {
        0
    } else {
        count_kind(s.drop_last(), k) + if s.last().kind == k {
            1nat
        } else {
            0nat
        }
    }
}

/// `2 * n`, or `u64::MAX` when that does not fit (`u64::saturating_mul`).
pub open spec fn saturating_double(n: nat) -> nat {
    if 2 * n > u64::MAX {
        u64::MAX as nat
    } else {
        2 * n
    }
}

/// The entries of `s` that are extracted: its files and directories.
pub open spec fn extractable_entries(s: Seq<ArchiveEntry>) -> Seq<ArchiveEntry> {
    s.filter(|e: ArchiveEntry| e.kind.spec_is_extractable())
}

/// `m` is the manifest of the archive at `archive_path`, of format
/// `format` and size `compressed_size` on disk, with the given entries,
/// to be extracted into `output_dir` on the drive `disk`, in session
/// `session_id`.
///
/// Space saver is recommended when the free space does not exceed the
/// total uncompressed size; otherwise space is tight when it is less than
/// twice that size. The entries are listed in the order they will be
/// extracted, and the counts are taken over them.
pub open spec fn describes(
    m: ManifestView,
    session_id: String,
    archive_path: String,
    output_dir: String,
    format: ArchiveFormat,
    entries: Seq<ArchiveEntry>,
    compressed_size: u64,
    disk: DiskSpaceInfo,
) -> bool {
    let total = total_uncompressed(entries);
    let recommended = disk.available_bytes <= total;
    &&& m.session_id == session_id
    &&& m.archive_path == archive_path
    &&& m.output_dir == output_dir
    &&& m.format == format
    &&& m.compressed_size == compressed_size
    &&& m.disk == disk
    &&& m.total_uncompressed_size == total
    &&& m.recommended_space_saver == recommended
    &&& m.tight_space == (!recommended && disk.available_bytes < saturating_double(total))
    &&& (!recommended ==> m.entries == entries)
    &&& (recommended ==> is_reordering(entries, m.entries))
    &&& (recommended && all_extractable(entries) ==> is_stable_schedule(entries, m.entries))
    &&& m.file_count == count_kind(m.entries, EntryKind::File)
    &&& m.directory_count == count_kind(m.entries, EntryKind::Directory)
}

/// A prefix of the entries weighs no more than all of them.
proof fn lemma_total_prefix(s: Seq<ArchiveEntry>, i: int)
    requires
        0 <= i <= s.len(),
    ensures
        total_uncompressed(s.take(i)) <= total_uncompressed(s),
    decreases s.len() - i,
{
    if i < s.len() {
        lemma_total_prefix(s, i + 1);
        assert(s.take(i + 1).drop_last() =~= s.take(i));
    } else {
        assert(s.take(i) =~= s);
    }
}

/// A count of entries never exceeds their number.
proof fn lemma_count_bounded(s: Seq<ArchiveEntry>, k: EntryKind)
    ensures
        count_kind(s, k) <= s.len(),
    decreases s.len(),
{
    if s.len() > 0 {
        lemma_count_bounded(s.drop_last(), k);
    }
}

/// The total uncompressed size of `entries`.
fn total_size(entries: &[ArchiveEntry]) -> (r: u64)
    requires
        total_uncompressed(entries@) <= u64::MAX,
    ensures
        r == total_uncompressed(entries@),
{
    let mut total: u64 = 0;
    let mut i: usize = 0;
    while i < entries.len()
        invariant
            i <= entries.len(),
            total_uncompressed(entries@) <= u64::MAX,
            total == total_uncompressed(entries@.take(i as int)),
        decreases entries.len() - i,
    {
        assert(entries@.take(i + 1).drop_last() =~= entries@.take(i as int));
        proof {
            lemma_total_prefix(entries@, i + 1);
        }
        total = total + entries[i].uncompressed_size;
        i += 1;
    }
    assert(entries@.take(entries.len() as int) =~= entries@);
    total
}

/// The number of entries of kind `k`.
fn count_entries(entries: &[ArchiveEntry], k: EntryKind) -> (r: usize)
    ensures
        r == count_kind(entries@, k),
{
    let mut n: usize = 0;
    let mut i: usize = 0;
    while i < entries.len()
        invariant
            i <= entries.len(),
            n == count_kind(entries@.take(i as int), k),
        decreases entries.len() - i,
    {
        assert(entries@.take(i + 1).drop_last() =~= entries@.take(i as int));
        proof {
            lemma_count_bounded(entries@.take(i + 1), k);
        }
        if entries[i].kind == k {
            n = n + 1;
        }
        i += 1;
    }
    assert(entries@.take(entries.len() as int) =~= entries@);
    n
}

/// The files and directories of `entries`, in order; an archive with none
/// is refused as empty.
pub fn retain_extractable(entries: Vec<ArchiveEntry>) -> (r: EngineResult<Vec<ArchiveEntry>>)
    ensures
        extractable_entries(entries@).len() == 0 ==> r matches Err(EngineError::EmptyArchive),
        extractable_entries(entries@).len() > 0 ==> (r matches Ok(v) && v@ == extractable_entries(
            entries@,
        )),
{
    let mut kept: Vec<ArchiveEntry> = Vec::new();
    let mut i: usize = 0;
    while i < entries.len()
        invariant
            i <= entries.len(),
            kept@ == extractable_entries(entries@.take(i as int)),
        decreases entries.len() - i,
    {
        assert(entries@.take(i + 1).drop_last() =~= entries@.take(i as int));
        proof {
            reveal(Seq::filter);
        }
        if entries[i].kind.is_extractable() {
            kept.push(entries[i].clone());
            assert(kept@ =~= extractable_entries(entries@.take(i + 1)));
        } else {
            assert(kept@ =~= extractable_entries(entries@.take(i + 1)));
        }
        i += 1;
    }
    assert(entries@.take(entries.len() as int) =~= entries@);
    if kept.len() == 0 {
        Err(EngineError::EmptyArchive)
    } else {
        Ok(kept)
    }
}

/// The manifest of an inspected archive whose extractable entries are
/// `entries`, for the session `session_id`.
pub fn build_manifest(
    session_id: String,
    archive_path: String,
    output_dir: String,
    format: ArchiveFormat,
    entries: Vec<ArchiveEntry>,
    compressed_size: u64,
    disk: DiskSpaceInfo,
) -> (r: ArchiveManifest)
    requires
        total_uncompressed(entries@) <= u64::MAX,
    ensures
        describes(r@, session_id, archive_path, output_dir, format, entries@, compressed_size, disk),
{
    let total = total_size(entries.as_slice());
    let recommended = should_use_space_saver(disk.available_bytes, total);
    let doubled = if total > u64::MAX / 2 {
        u64::MAX
    } else {
        total * 2
    };
    let tight_space = !recommended && disk.available_bytes < doubled;
    let ordered = schedule_entries(entries.as_slice(), recommended);
    let file_count = count_entries(ordered.as_slice(), EntryKind::File);
    let directory_count = count_entries(ordered.as_slice(), EntryKind::Directory);
    ArchiveManifest {
        session_id,
        archive_path,
        output_dir,
        format,
        file_count,
        directory_count,
        compressed_size,
        total_uncompressed_size: total,
        disk,
        recommended_space_saver: recommended,
        tight_space,
        entries: ordered,
    }
}

/// A lowercase hexadecimal digit.
pub open spec fn is_lower_hex_digit(c: char) -> bool {
    ('0' <= c && c <= '9') || ('a' <= c && c <= 'f')
}

/// The hyphenated lowercase form of a random (version 4, RFC variant)
/// identifier: 36 characters with hyphens at positions 8, 13, 18 and 23,
/// lowercase hexadecimal digits elsewhere, the version digit `4` at
/// position 14 and a variant digit `8` to `b` at position 19.
pub open spec fn is_random_id_text(s: Seq<char>) -> bool {
    &&& s.len() == 36
    &&& s[8] == '-' && s[13] == '-' && s[18] == '-' && s[23] == '-'
    &&& forall|i: int|
        0 <= i < 36 && i != 8 && i != 13 && i != 18 && i != 23 ==> is_lower_hex_digit(
            #[trigger] s[i],
        )
    &&& s[14] == '4'
    &&& s[19] == '8' || s[19] == '9' || s[19] == 'a' || s[19] == 'b'
}

/// Calls `uuid::Uuid::new_v4` and formats the identifier. The contract
/// claims only the shape of the text (`is_random_id_text`); the other
/// digits are random.
#[verifier::external_body]
fn new_session_id() -> (r: String)
    ensures
        is_random_id_text(r@),
{
    uuid::Uuid::new_v4().to_string()
}

// ---------------------------------------------------------------------------
// Starting an extraction
// ---------------------------------------------------------------------------

/// How an extraction proceeds.
#[derive(Clone, Copy, Debug, PartialEq, Eq, Structural)]
pub enum ExtractionRoute {
    /// Extract the entries, leaving the archive in place.
    Standard,
    /// Extract a ZIP file by file, releasing each file's compressed bytes
    /// from the archive, then delete the archive.
    SparseZipPurge,
    /// Extract every entry first, then delete the archive.
    ExtractThenDelete,
}

/// What a started extraction works on and how it proceeds.
#[derive(Debug)]
pub struct ExtractionPlan {
    pub session: ExtractionSession,
    pub route: ExtractionRoute,
}

/// Whether entries are reordered to save space: `Auto` follows the
/// session's recommendation, `Normal` never reorders and
/// `ExtractAndPurge` always does.
pub open spec fn spec_resolve_space_saver(selected: UserExtractionMode, recommended: bool) -> bool {
    match selected {
        UserExtractionMode::Auto => recommended,
        UserExtractionMode::Normal => false,
        UserExtractionMode::ExtractAndPurge => true,
    }
}

/// Whether entries are reordered to save space.
pub fn resolve_space_saver(selected: UserExtractionMode, recommended: bool) -> (r: bool)
    ensures
        r == spec_resolve_space_saver(selected, recommended),
{
    match selected {
        UserExtractionMode::Auto => recommended,
        UserExtractionMode::Normal => false,
        UserExtractionMode::ExtractAndPurge => true,
    }
}

/// How an extraction of an archive of format `format` proceeds in mode
/// `selected`: purging a ZIP releases its space file by file, purging any
/// other format extracts first and deletes afterwards.
pub open spec fn spec_route_for(selected: UserExtractionMode, format: ArchiveFormat) -> ExtractionRoute {
    if selected == UserExtractionMode::ExtractAndPurge {
        if format == ArchiveFormat::Zip {
            ExtractionRoute::SparseZipPurge
        } else {
            ExtractionRoute::ExtractThenDelete
        }
    } else {
        ExtractionRoute::Standard
    }
}

/// How an extraction of an archive of format `format` proceeds.
pub fn route_for(selected: UserExtractionMode, format: ArchiveFormat) -> (r: ExtractionRoute)
    ensures
        r == spec_route_for(selected, format),
{
    if selected == UserExtractionMode::ExtractAndPurge {
        if format == ArchiveFormat::Zip {
            ExtractionRoute::SparseZipPurge
        } else {
            ExtractionRoute::ExtractThenDelete
        }
    } else {
        ExtractionRoute::Standard
    }
}

/// Only an Extract & Purge extraction touches the archive: in `Auto` or
/// `Normal` mode every format is extracted along the standard route, which
/// keeps the archive; in `ExtractAndPurge` mode a ZIP is purged entry by
/// entry and any other format is extracted and then deleted.
pub proof fn lemma_only_purge_mode_consumes_the_archive(
    selected: UserExtractionMode,
    format: ArchiveFormat,
)
    ensures
        selected == UserExtractionMode::Auto ==> spec_route_for(selected, format)
            == ExtractionRoute::Standard,
        selected == UserExtractionMode::Normal ==> spec_route_for(selected, format)
            == ExtractionRoute::Standard,
        selected == UserExtractionMode::ExtractAndPurge && format == ArchiveFormat::Zip
            ==> spec_route_for(selected, format) == ExtractionRoute::SparseZipPurge,
        selected == UserExtractionMode::ExtractAndPurge && format != ArchiveFormat::Zip
            ==> spec_route_for(selected, format) == ExtractionRoute::ExtractThenDelete,
        spec_route_for(selected, format) != ExtractionRoute::Standard ==> selected
            == UserExtractionMode::ExtractAndPurge,
{
}

/// Space saver follows the manifest's recommendation in `Auto` mode, is off
/// in `Normal` mode and on in `ExtractAndPurge` mode.
pub proof fn lemma_space_saver_by_mode(selected: UserExtractionMode, recommended: bool)
    ensures
        selected == UserExtractionMode::Auto ==> spec_resolve_space_saver(selected, recommended)
            == recommended,
        selected == UserExtractionMode::Normal ==> !spec_resolve_space_saver(selected, recommended),
        selected == UserExtractionMode::ExtractAndPurge ==> spec_resolve_space_saver(
            selected,
            recommended,
        ),
{
}

// ---------------------------------------------------------------------------
// The engine
// ---------------------------------------------------------------------------

/// Each identifier in `sessions` is kept once, and `index` maps each kept
/// identifier to its session.
pub open spec fn registry_consistent(
    sessions: Seq<(String, ExtractionSession)>,
    index: Map<Seq<char>, SessionView>,
) -> bool {
    &&& forall|i: int, j: int|
        0 <= i < j < sessions.len() ==> #[trigger] sessions[i].0@ != #[trigger] sessions[j].0@
    &&& forall|i: int|
        0 <= i < sessions.len() ==> index.contains_key(#[trigger] sessions[i].0@)
            && index[sessions[i].0@] == sessions[i].1@
    &&& forall|k: Seq<char>|
        #[trigger] index.contains_key(k) ==> exists|i: int|
            0 <= i < sessions.len() && #[trigger] sessions[i].0@ == k
}

/// The engine and the sessions it keeps, by session identifier.
pub struct ExtractorEngine {
    sessions: Vec<(String, ExtractionSession)>,
    index: Ghost<Map<Seq<char>, SessionView>>,
}

impl ExtractorEngine {
    /// Each identifier is kept once, and `index` maps each kept identifier
    /// to its session.
    #[verifier::type_invariant]
    spec fn well_formed(self) -> bool {
        registry_consistent(self.sessions@, self.index@)
    }

    /// The sessions, by identifier.
    pub closed spec fn view(&self) -> Map<Seq<char>, SessionView> {
        self.index@
    }

    /// An engine that keeps no session.
    pub fn new() -> (r: Self)
        ensures
            r@ == Map::<Seq<char>, SessionView>::empty(),
    {
        ExtractorEngine { sessions: Vec::new(), index: Ghost(Map::empty()) }
    }

    /// Where the session `session_id` is kept.
    fn find(&self, session_id: &str) -> (r: Option<usize>)
        ensures
            match r {
                Some(i) => i < self.sessions@.len() && self.sessions@[i as int].0@ == session_id@
                    && self@.contains_key(session_id@) && self@[session_id@]
                    == self.sessions@[i as int].1@,
                None => !self@.contains_key(session_id@),
            },
    {
        proof {
            use_type_invariant(self);
        }
        let mut i: usize = 0;
        while i < self.sessions.len()
            invariant
                i <= self.sessions@.len(),
                forall|k: int| 0 <= k < i ==> #[trigger] self.sessions@[k].0@ != session_id@,
            decreases self.sessions.len() - i,
        {
            if str_eq(self.sessions[i].0.as_str(), session_id) {
                proof {
                    use_type_invariant(self);
                }
                return Some(i);
            }
            i += 1;
        }
        None
    }

    /// Keeps `session` under `session_id`, in place of any session kept
    /// under it before.
    pub fn register_session(&mut self, session_id: String, session: ExtractionSession)
        ensures
            final(self)@ == old(self)@.insert(session_id@, session@),
    {
        let ghost key = session_id@;
        let ghost value = session@;
        let found = self.find(session_id.as_str());
        let mut taken = ExtractorEngine::new();
        std::mem::swap(self, &mut taken);
        proof {
            use_type_invariant(&taken);
        }
        let ghost old_sessions = taken.sessions@;
        let ghost old_index = taken.index@;
        let ghost new_index = old_index.insert(key, value);
        let ExtractorEngine { mut sessions, index: _ } = taken;
        match found {
            Some(i) => {
                sessions.set(i, (session_id, session));
                proof {
                    assert forall|a: int, b: int|
                        0 <= a < b < sessions@.len() implies #[trigger] sessions@[a].0@
                        != #[trigger] sessions@[b].0@ by {
                        assert(old_sessions[a].0@ != old_sessions[b].0@);
                    }
                    assert forall|a: int|
                        0 <= a < sessions@.len() implies new_index.contains_key(
                        #[trigger] sessions@[a].0@,
                    ) && new_index[sessions@[a].0@] == sessions@[a].1@ by {
                        if a != i {
                            assert(old_sessions[a].0@ != old_sessions[i as int].0@);
                            assert(old_index.contains_key(old_sessions[a].0@));
                        }
                    }
                    assert forall|k: Seq<char>| #[trigger]
                        new_index.contains_key(k) implies exists|a: int|
                        0 <= a < sessions@.len() && #[trigger] sessions@[a].0@ == k by {
                        if k == key {
                            assert(sessions@[i as int].0@ == k);
                        } else {
                            assert(old_index.contains_key(k));
                            let a = choose|a: int|
                                0 <= a < old_sessions.len() && #[trigger] old_sessions[a].0@ == k;
                            assert(sessions@[a].0@ == k);
                        }
                    }
                }
                assert(registry_consistent(sessions@, new_index));
                *self = ExtractorEngine { sessions, index: Ghost(new_index) };
            },
            None => {
                sessions.push((session_id, session));
                proof {
                    assert forall|a: int, b: int|
                        0 <= a < b < sessions@.len() implies #[trigger] sessions@[a].0@
                        != #[trigger] sessions@[b].0@ by {
                        if b == old_sessions.len() {
                            assert(old_index.contains_key(old_sessions[a].0@));
                        } else {
                            assert(old_sessions[a].0@ != old_sessions[b].0@);
                        }
                    }
                    assert forall|a: int|
                        0 <= a < sessions@.len() implies new_index.contains_key(
                        #[trigger] sessions@[a].0@,
                    ) && new_index[sessions@[a].0@] == sessions@[a].1@ by {
                        if a < old_sessions.len() {
                            assert(old_index.contains_key(old_sessions[a].0@));
                            assert(old_sessions[a].0@ != key);
                        }
                    }
                    assert forall|k: Seq<char>| #[trigger]
                        new_index.contains_key(k) implies exists|a: int|
                        0 <= a < sessions@.len() && #[trigger] sessions@[a].0@ == k by {
                        if k == key {
                            assert(sessions@[old_sessions.len() as int].0@ == k);
                        } else {
                            assert(old_index.contains_key(k));
                            let a = choose|a: int|
                                0 <= a < old_sessions.len() && #[trigger] old_sessions[a].0@ == k;
                            assert(sessions@[a].0@ == k);
                        }
                    }
                }
                assert(registry_consistent(sessions@, new_index));
                *self = ExtractorEngine { sessions, index: Ghost(new_index) };
            },
        }
    }

    /// Sets the mode of the session `session_id`; a session that is not kept
    /// is reported as not found, and nothing changes.
    pub fn set_mode(&mut self, session_id: &str, mode: ExtractionMode) -> (r: EngineResult<()>)
        ensures
            old(self)@.contains_key(session_id@) ==> r is Ok && final(self)@ == old(self)@.insert(
                session_id@,
                SessionView { mode, ..old(self)@[session_id@] },
            ),
            !old(self)@.contains_key(session_id@) ==> (r matches Err(EngineError::SessionNotFound(s))
                && s@ == session_id@ && final(self)@ == old(self)@),
    {
        match self.find(session_id) {
            None => Err(EngineError::SessionNotFound(String::from_str(session_id))),
            Some(i) => {
                let mut updated = self.sessions[i].1.clone();
                updated.mode = mode;
                let key = String::from_str(session_id);
                self.register_session(key, updated);
                Ok(())
            },
        }
    }

    /// The mode of the session `session_id`.
    pub fn mode_for(&self, session_id: &str) -> (r: EngineResult<ExtractionMode>)
        ensures
            self@.contains_key(session_id@) ==> r == Ok::<ExtractionMode, EngineError>(
                self@[session_id@].mode,
            ),
            !self@.contains_key(session_id@) ==> (r matches Err(EngineError::SessionNotFound(s))
                && s@ == session_id@),
    {
        match self.find(session_id) {
            None => Err(EngineError::SessionNotFound(String::from_str(session_id))),
            Some(i) => Ok(self.sessions[i].1.mode),
        }
    }

    /// A copy of the session `session_id`.
    pub fn session_for(&self, session_id: &str) -> (r: EngineResult<ExtractionSession>)
        ensures
            self@.contains_key(session_id@) ==> (r matches Ok(s) && s@ == self@[session_id@]),
            !self@.contains_key(session_id@) ==> (r matches Err(EngineError::SessionNotFound(s))
                && s@ == session_id@),
    {
        match self.find(session_id) {
            None => Err(EngineError::SessionNotFound(String::from_str(session_id))),
            Some(i) => Ok(self.sessions[i].1.clone()),
        }
    }

    /// Opens a session for an inspected archive whose extractable entries
    /// are `entries` and returns its manifest; the session starts running,
    /// with space saver as the manifest recommends.
    pub fn inspect_archive(
        &mut self,
        archive_path: String,
        output_dir: String,
        format: ArchiveFormat,
        entries: Vec<ArchiveEntry>,
        compressed_size: u64,
        disk: DiskSpaceInfo,
    ) -> (r: ArchiveManifest)
        requires
            total_uncompressed(entries@) <= u64::MAX,
        ensures
            describes(
                r@,
                r.session_id,
                archive_path,
                output_dir,
                format,
                entries@,
                compressed_size,
                disk,
            ),
            is_random_id_text(r.session_id@),
            final(self)@ == old(self)@.insert(
                r.session_id@,
                SessionView {
                    manifest: r@,
                    mode: ExtractionMode::Running,
                    space_saver: r.recommended_space_saver,
                },
            ),
    {
        let session_id = new_session_id();
        let key = session_id.clone();
        let manifest = build_manifest(
            session_id,
            archive_path,
            output_dir,
            format,
            entries,
            compressed_size,
            disk,
        );
        let recommended = manifest.recommended_space_saver;
        let session = ExtractionSession::new(manifest.clone(), recommended);
        self.register_session(key, session);
        manifest
    }

    /// Starts the extraction of the session `session_id` in mode `selected`:
    /// marks the session running and returns what the extraction works on
    /// and how it proceeds. A session that is not kept is reported as not
    /// found, and nothing changes.
    pub fn start_extraction(&mut self, session_id: &str, selected: UserExtractionMode) -> (r:
        EngineResult<ExtractionPlan>)
        ensures
            old(self)@.contains_key(session_id@) ==> {
                let s = old(self)@[session_id@];
                &&& r matches Ok(plan) && plan.session@ == (SessionView {
                    space_saver: spec_resolve_space_saver(selected, s.space_saver),
                    ..s
                }) && plan.route == spec_route_for(selected, s.manifest.format)
                &&& final(self)@ == old(self)@.insert(
                    session_id@,
                    SessionView { mode: ExtractionMode::Running, ..s },
                )
            },
            !old(self)@.contains_key(session_id@) ==> (r matches Err(EngineError::SessionNotFound(s))
                && s@ == session_id@ && final(self)@ == old(self)@),
    {
        let mut session = match self.session_for(session_id) {
            Ok(s) => s,
            Err(e) => return Err(e),
        };
        session.space_saver = resolve_space_saver(selected, session.space_saver);
        let route = route_for(selected, session.manifest.format);
        match self.set_mode(session_id, ExtractionMode::Running) {
            Ok(()) => {},
            Err(e) => return Err(e),
        }
        Ok(ExtractionPlan { session, route })
    }
}

impl Default for ExtractorEngine {
    fn default() -> (r: Self)
        ensures
            r@ == Map::<Seq<char>, SessionView>::empty(),
    {
        ExtractorEngine::new()
    }
}

/// The entries kept for extraction are all files or directories.
pub proof fn lemma_retained_are_extractable(s: Seq<ArchiveEntry>)
    ensures
        all_extractable(extractable_entries(s)),
{
    let kept = extractable_entries(s);
    assert forall|i: int| 0 <= i < kept.len() implies (#[trigger] kept[i]).kind.spec_is_extractable() by {
        s.lemma_filter_pred(|e: ArchiveEntry| e.kind.spec_is_extractable(), i);
    }
}

/// Setting a session's mode and then asking for it gives the mode set, and
/// leaves every other session as it was.
pub proof fn lemma_mode_read_after_write(
    sessions: Map<Seq<char>, SessionView>,
    id: Seq<char>,
    mode: ExtractionMode,
    other: Seq<char>,
)
    requires
        sessions.contains_key(id),
    ensures
        ({
            let after = sessions.insert(id, SessionView { mode, ..sessions[id] });
            &&& after.contains_key(id)
            &&& after[id].mode == mode
            &&& after[id].manifest == sessions[id].manifest
            &&& other != id ==> (after.contains_key(other) == sessions.contains_key(other) && (
            sessions.contains_key(other) ==> after[other] == sessions[other]))
        }),
{
}

/// Among files and directories, the files and the directories add up to
/// all the entries.
proof fn lemma_count_kinds_of_extractable(s: Seq<ArchiveEntry>)
    requires
        all_extractable(s),
    ensures
        count_kind(s, EntryKind::File) + count_kind(s, EntryKind::Directory) == s.len(),
    decreases s.len(),
{
    if s.len() > 0 {
        assert(all_extractable(s.drop_last())) by {
            assert forall|i: int| 0 <= i < s.drop_last().len() implies (
            #[trigger] s.drop_last()[i]).kind.spec_is_extractable() by {
                assert(s.drop_last()[i] == s[i]);
            }
        }
        assert(s.last() == s[s.len() - 1]);
        lemma_count_kinds_of_extractable(s.drop_last());
    }
}

/// A manifest of files and directories counts each of its entries once,
/// as a file or as a directory, and lists as many entries as it was given.
pub proof fn lemma_manifest_counts(
    m: ManifestView,
    session_id: String,
    archive_path: String,
    output_dir: String,
    format: ArchiveFormat,
    entries: Seq<ArchiveEntry>,
    compressed_size: u64,
    disk: DiskSpaceInfo,
)
    requires
        describes(m, session_id, archive_path, output_dir, format, entries, compressed_size, disk),
        all_extractable(entries),
    ensures
        m.entries.len() == entries.len(),
        m.file_count + m.directory_count == entries.len(),
{
    if m.recommended_space_saver {
        let p = choose|p: Seq<int>| reorders(entries, m.entries, p);
        assert forall|i: int| 0 <= i < m.entries.len() implies (
        #[trigger] m.entries[i]).kind.spec_is_extractable() by {
            assert(m.entries[i] == entries[p[i]]);
        }
    }
    lemma_count_kinds_of_extractable(m.entries);
}

} // verus!
