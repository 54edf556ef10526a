//! The file-backed world store, without the files: its metadata, its
//! hash-chained manifest, and every decision it takes on the bytes that are
//! read from or written to disk.
//!
//! Layout inside the store directory:
//! ```text
//! world.meta.json            metadata and schema versions
//! snapshots/
//!   000001.snapshot.cbor.zst compressed snapshots
//! events/
//!   000001.log.cbor.zst      compressed event log segments
//! integrity/
//!   manifest (JSON)           hash chain manifest
//! ```

use vstd::prelude::*;
use std::path::PathBuf;
use crate::kernel::world::{World, WorldEvent};
use crate::persist::compress::{compress, decompress, zstd_decoded, zstd_encoded, ZSTD_LEVEL};
use crate::persist::digest::{content_digest, sha256_hex};
use crate::persist::names::{
    event_file_name, snapshot_file_name, spec_event_file_name, spec_snapshot_file_name,
};
use crate::text::{contains_text, text_contains};
use crate::persist::snapshot::{
    lemma_resume_concat, replay_after, resume_all, resume_fits, resume_onto, resume_start, Resume,
    Snapshot,
};

verus! {

/// `std::path::PathBuf`, the location of the store directory.
#[verifier::external_type_specification]
#[verifier::external_body]
pub struct ExPathBuf(PathBuf);

/// Schema version of persisted world data that this build reads and writes.
pub const WORLD_SCHEMA_VERSION: u32 = 1;

/// Schema version of persisted events that this build reads and writes.
pub const EVENT_SCHEMA_VERSION: u32 = 1;

/// Errors from file-backed persistence operations.
#[derive(Debug)]
pub enum StoreError {
    /// The file system or the compressor failed.
    Io(std::io::Error),
    /// A value could not be encoded.
    CborEncode(String),
    /// Bytes could not be decoded into a value.
    CborDecode(String),
    /// A metadata file could not be read or written as JSON.
    Json(String),
    /// A digest or a chain link is not what the manifest says.
    IntegrityMismatch { expected: String, actual: String },
    /// The persisted data was written under another schema version.
    SchemaMismatch { file_version: u32, expected_version: u32 },
    /// The store holds no snapshot.
    NoSnapshots,
    /// The store has not been initialized.
    NotInitialized,
}

/// Metadata of a store: schema versions and segment counts.
#[derive(Clone, Copy, Debug, PartialEq, Eq, Structural)]
pub struct WorldMeta {
    pub world_schema_version: u32,
    pub event_schema_version: u32,
    pub snapshot_count: u32,
    pub event_segment_count: u32,
}

impl WorldMeta {
    /// Metadata of a newly created store.
    pub open spec fn spec_fresh() -> WorldMeta {
        WorldMeta {
            world_schema_version: WORLD_SCHEMA_VERSION,
            event_schema_version: EVENT_SCHEMA_VERSION,
            snapshot_count: 0,
            event_segment_count: 0,
        }
    }

    /// The schema version that keeps this build from reading the store, with
    /// the version this build expects in its place: the world schema is
    /// checked first, then the event schema.
    pub open spec fn schema_fault(self) -> Option<(u32, u32)> {
        if self.world_schema_version != WORLD_SCHEMA_VERSION {
            Some((self.world_schema_version, WORLD_SCHEMA_VERSION))
        } else if self.event_schema_version != EVENT_SCHEMA_VERSION {
            Some((self.event_schema_version, EVENT_SCHEMA_VERSION))
        } else {
            None
        }
    }
}

/// A single entry in the integrity manifest.
#[derive(Clone, Debug)]
pub struct ManifestEntry {
    /// Name of the segment file.
    pub filename: String,
    /// Digest of the file's bytes as written.
    pub sha256: String,
    /// Digest of the entry before this one; `None` for the first entry.
    pub prev_hash: Option<String>,
}

/// A manifest entry as contracts see it.
pub struct EntryView {
    pub filename: Seq<char>,
    pub sha256: Seq<char>,
    pub prev_hash: Option<Seq<char>>,
}

/// The text of an optional string.
pub open spec fn text_of(text: Option<String>) -> Option<Seq<char>> {
    match text {
        Some(t) => Some(t@),
        None => None,
    }
}

impl View for ManifestEntry {
    type V = EntryView;

    open spec fn view(&self) -> EntryView {
        EntryView {
            filename: self.filename@,
            sha256: self.sha256@,
            prev_hash: text_of(self.prev_hash),
        }
    }
}

/// Integrity manifest tracking all segment hashes in a chain.
#[derive(Clone, Debug)]
pub struct IntegrityManifest {
    pub entries: Vec<ManifestEntry>,
}

impl View for IntegrityManifest {
    type V = Seq<EntryView>;

    open spec fn view(&self) -> Seq<EntryView> {
        self.entries@.map_values(|e: ManifestEntry| e@)
    }
}

impl IntegrityManifest {
    /// An empty manifest.
    pub fn new() -> (manifest: IntegrityManifest)
        ensures
            manifest@ == Seq::<EntryView>::empty(),
    {
        let manifest = IntegrityManifest { entries: Vec::new() };
        assert(manifest@ =~= Seq::<EntryView>::empty());
        manifest
    }
}

impl Default for IntegrityManifest {
    fn default() -> (manifest: IntegrityManifest)
        ensures
            manifest@ == Seq::<EntryView>::empty(),
    {
        IntegrityManifest::new()
    }
}

/// What a segment file holds, which decides the directory it lives in.
#[derive(Clone, Copy, Debug, PartialEq, Eq, Structural)]
pub enum SegmentKind {
    /// A snapshot, under `snapshots/`.
    Snapshot,
    /// A batch of events, under `events/`.
    Events,
}

/// The kind of segment a file name stands for: a snapshot if the name contains
/// `snapshot`, a batch of events otherwise.
pub open spec fn spec_kind_of(filename: Seq<char>) -> SegmentKind {
    if contains_text(filename, "snapshot"@) {
        SegmentKind::Snapshot
    } else {
        SegmentKind::Events
    }
}

/// The kind of segment a file name stands for.
pub fn kind_of(filename: &str) -> (kind: SegmentKind)
    ensures
        kind == spec_kind_of(filename@),
{
    if text_contains(filename, "snapshot") {
        SegmentKind::Snapshot
    } else {
        SegmentKind::Events
    }
}

impl SegmentKind {
    /// Name of the directory that holds segments of this kind.
    pub open spec fn spec_directory(self) -> Seq<char> {
        match self {
            SegmentKind::Snapshot => "snapshots"@,
            SegmentKind::Events => "events"@,
        }
    }

    /// Name of the directory that holds segments of this kind.
    pub fn directory(self) -> (name: &'static str)
        ensures
            name@ == self.spec_directory(),
    {
        match self {
            SegmentKind::Snapshot => "snapshots",
            SegmentKind::Events => "events",
        }
    }
}

/// A segment file to be written: where it goes and what it holds.
#[derive(Clone, Debug)]
pub struct Segment {
    pub kind: SegmentKind,
    pub filename: String,
    pub bytes: Vec<u8>,
}

/// The digest that entry `i` of a manifest must name as its predecessor: none
/// for the first entry, the digest of entry `i - 1` for every other.
pub open spec fn expected_link(entries: Seq<EntryView>, i: int) -> Option<Seq<char>> {
    if i == 0 {
        None
    } else {
        Some(entries[i - 1].sha256)
    }
}

/// How a missing digest is written in a mismatch report.
pub open spec fn shown(link: Option<Seq<char>>) -> Seq<char> {
    match link {
        Some(digest) => digest,
        None => "None"@,
    }
}

/// What is wrong with entry `i`, given the bytes of its file: the expected and
/// the actual text of the first check that fails. The chain link is checked
/// before the file's digest.
pub open spec fn entry_fault(entries: Seq<EntryView>, i: int, file: Seq<u8>) -> Option<
    (Seq<char>, Seq<char>),
> {
    if entries[i].prev_hash != expected_link(entries, i) {
        Some((shown(expected_link(entries, i)), shown(entries[i].prev_hash)))
    } else if content_digest(file) != entries[i].sha256 {
        Some((entries[i].sha256, content_digest(file)))
    } else {
        None
    }
}

/// The first of the first `n` entries that has a fault.
pub open spec fn first_fault(entries: Seq<EntryView>, files: Seq<Seq<u8>>, n: int) -> Option<int>
    decreases n,
{
    if n <= 0 {
        None
    } else {
        match first_fault(entries, files, n - 1) {
            Some(i) => Some(i),
            None => if entry_fault(entries, n - 1, files[n - 1]) is Some {
                Some(n - 1)
            } else {
                None
            },
        }
    }
}

/// The index of the first entry with the given file name.
pub open spec fn find_entry(entries: Seq<EntryView>, filename: Seq<char>) -> Option<int>
    decreases entries.len(),
{
    if entries.len() == 0 {
        None
    } else {
        match find_entry(entries.drop_last(), filename) {
            Some(i) => Some(i),
            None => if entries.last().filename == filename {
                Some(entries.len() - 1)
            } else {
                None
            },
        }
    }
}

/// What is wrong with the bytes of the file `filename`: the expected and the
/// actual digest, if the manifest lists the file under another digest. A file
/// that the manifest does not list has no fault.
pub open spec fn file_fault(entries: Seq<EntryView>, filename: Seq<char>, data: Seq<u8>) -> Option<
    (Seq<char>, Seq<char>),
> {
    match find_entry(entries, filename) {
        Some(i) => if entries[i].sha256 != content_digest(data) {
            Some((entries[i].sha256, content_digest(data)))
        } else {
            None
        },
        None => None,
    }
}

/// The manifest lists the file `first` before the file `second`.
pub open spec fn listed_before(entries: Seq<EntryView>, first: Seq<char>, second: Seq<char>) -> bool {
    match (find_entry(entries, first), find_entry(entries, second)) {
        (Some(a), Some(b)) => a < b,
        _ => false,
    }
}

/// The error is an integrity mismatch with the given expected and actual text.
pub open spec fn is_mismatch(error: StoreError, fault: (Seq<char>, Seq<char>)) -> bool {
    error matches StoreError::IntegrityMismatch { expected, actual } && expected@ == fault.0
        && actual@ == fault.1
}

/// All events of a list of segments, in order.
pub open spec fn concat_all(segments: Seq<Seq<WorldEvent>>) -> Seq<WorldEvent>
    decreases segments.len(),
{
    if segments.len() == 0 {
        Seq::empty()
    } else {
        concat_all(segments.drop_last()) + segments.last()
    }
}

/// The events of each segment.
pub open spec fn segment_events(segments: Seq<Vec<WorldEvent>>) -> Seq<Seq<WorldEvent>> {
    segments.map_values(|s: Vec<WorldEvent>| s@)
}

/// The events of a list of segments are those of its first part followed by
/// those of the rest.
pub proof fn lemma_concat_all_split(first: Seq<Seq<WorldEvent>>, rest: Seq<Seq<WorldEvent>>)
    ensures
        concat_all(first + rest) == concat_all(first) + concat_all(rest),
    decreases rest.len(),
{
    if rest.len() == 0 {
        assert(first + rest =~= first);
        assert(concat_all(first) + concat_all(rest) =~= concat_all(first));
    } else {
        assert((first + rest).drop_last() =~= first + rest.drop_last());
        lemma_concat_all_split(first, rest.drop_last());
        assert(concat_all(first + rest) =~= concat_all(first) + concat_all(rest));
    }
}

/// A replay that fits over a sequence of events fits over its first part, and
/// continues to fit from there over the rest.
pub proof fn lemma_resume_fits_split(
    r: Resume,
    boundary: u64,
    first: Seq<WorldEvent>,
    rest: Seq<WorldEvent>,
)
    requires
        resume_fits(r, boundary, first + rest),
    ensures
        resume_fits(r, boundary, first),
        resume_fits(resume_all(r, boundary, first), boundary, rest),
{
    let whole = first + rest;
    assert forall|k: int|
        0 <= k < first.len() && crate::persist::snapshot::steps_past(
            #[trigger] first[k],
            boundary,
        ) implies resume_all(r, boundary, first.take(k)).state.tick < u64::MAX by {
        assert(whole[k] == first[k]);
        assert(whole.take(k) =~= first.take(k));
    }
    assert forall|k: int|
        0 <= k < rest.len() && crate::persist::snapshot::steps_past(
            #[trigger] rest[k],
            boundary,
        ) implies resume_all(resume_all(r, boundary, first), boundary, rest.take(k)).state.tick
        < u64::MAX by {
        assert(whole[first.len() + k] == rest[k]);
        assert(whole.take(first.len() + k) =~= first + rest.take(k));
        lemma_resume_concat(r, boundary, first, rest.take(k));
    }
}

/// No entry among the first `n` has a fault exactly when every one of them
/// names the digest before it as its predecessor and carries the digest of
/// its file.
pub proof fn lemma_no_fault_means_sound(entries: Seq<EntryView>, files: Seq<Seq<u8>>, n: int)
    requires
        0 <= n <= entries.len(),
        n <= files.len(),
    ensures
        first_fault(entries, files, n) is None <==> forall|i: int|
            0 <= i < n ==> (#[trigger] entries[i]).prev_hash == expected_link(entries, i)
                && content_digest(files[i]) == entries[i].sha256,
        first_fault(entries, files, n) matches Some(i) ==> 0 <= i < n && entry_fault(
            entries,
            i,
            files[i],
        ) is Some,
    decreases n,
{
    if n > 0 {
        lemma_no_fault_means_sound(entries, files, n - 1);
        if first_fault(entries, files, n) is None {
            assert(entry_fault(entries, n - 1, files[n - 1]) is None);
        } else {
            let i = first_fault(entries, files, n)->0;
            assert(entry_fault(entries, i, files[i]) is Some);
            assert(!(entries[i].prev_hash == expected_link(entries, i) && content_digest(files[i])
                == entries[i].sha256));
        }
    }
}

/// File-backed world store with schema versioning and integrity checking.
#[derive(Debug)]
pub struct WorldStore {
    root: PathBuf,
    meta: WorldMeta,
    manifest: IntegrityManifest,
}

/// A store as contracts see it.
pub struct StoreView {
    pub root: PathBuf,
    pub meta: WorldMeta,
    pub manifest: Seq<EntryView>,
}

impl View for WorldStore {
    type V = StoreView;

    closed spec fn view(&self) -> StoreView {
        StoreView { root: self.root, meta: self.meta, manifest: self.manifest@ }
    }
}

impl StoreView {
    /// The digest that the next manifest entry must name as its predecessor.
    pub open spec fn tip(self) -> Option<Seq<char>> {
        expected_link(self.manifest, self.manifest.len() as int)
    }

    /// The store after recording a segment file with the given name and bytes.
    pub open spec fn record(self, kind: SegmentKind, filename: Seq<char>, bytes: Seq<u8>) -> StoreView {
        StoreView {
            root: self.root,
            meta: match kind {
                SegmentKind::Snapshot => WorldMeta {
                    snapshot_count: (self.meta.snapshot_count + 1) as u32,
                    ..self.meta
                },
                SegmentKind::Events => WorldMeta {
                    event_segment_count: (self.meta.event_segment_count + 1) as u32,
                    ..self.meta
                },
            },
            manifest: self.manifest.push(
                EntryView { filename, sha256: content_digest(bytes), prev_hash: self.tip() },
            ),
        }
    }

    /// The name of the next segment file of the given kind.
    pub open spec fn next_name(self, kind: SegmentKind) -> Seq<char> {
        match kind {
            SegmentKind::Snapshot => spec_snapshot_file_name(
                (self.meta.snapshot_count + 1) as u32,
            ),
            SegmentKind::Events => spec_event_file_name(
                (self.meta.event_segment_count + 1) as u32,
            ),
        }
    }

    /// Whether loading replays event segment number `index`: it replays the
    /// event segments written after the latest snapshot, which are all the
    /// segments of the store but those that the manifest lists before that
    /// snapshot.
    pub open spec fn replays_segment(self, index: u32) -> bool {
        1 <= index <= self.meta.event_segment_count && !listed_before(
            self.manifest,
            spec_event_file_name(index),
            spec_snapshot_file_name(self.meta.snapshot_count),
        )
    }

    /// Room is left for one more segment of the given kind.
    pub open spec fn has_room(self, kind: SegmentKind) -> bool {
        match kind {
            SegmentKind::Snapshot => self.meta.snapshot_count < u32::MAX,
            SegmentKind::Events => self.meta.event_segment_count < u32::MAX,
        }
    }
}

fn clone_text(text: &Option<String>) -> (copy: Option<String>)
    ensures
        text_of(copy) == text_of(*text),
{
    match text {
        Some(t) => Some(t.clone()),
        None => None,
    }
}

fn same_text(a: &Option<String>, b: &Option<String>) -> (same: bool)
    ensures
        same == (text_of(*a) == text_of(*b)),
{
    match a {
        Some(x) => match b {
            Some(y) => *x == *y,
            None => false,
        },
        None => match b {
            Some(_) => false,
            None => true,
        },
    }
}

fn show(text: &Option<String>) -> (out: String)
    ensures
        out@ == shown(text_of(*text)),
{
    match text {
        Some(t) => t.clone(),
        None => "None".to_owned(),
    }
}

impl WorldStore {
    /// Open or create a world store.
    ///
    /// `meta` is the persisted metadata, `None` if the store directory holds
    /// none yet; `manifest` is the persisted manifest, `None` if there is no
    /// manifest file. With no metadata the store is created fresh, stamped
    /// with this build's schema versions. With metadata, opening fails if
    /// either schema version differs from this build's, before anything else
    /// is looked at.
    pub fn open(root: PathBuf, meta: Option<WorldMeta>, manifest: Option<IntegrityManifest>) -> (result:
        Result<WorldStore, StoreError>)
        ensures
            result is Err <==> (meta matches Some(m) && (m.world_schema_version
                != WORLD_SCHEMA_VERSION || m.event_schema_version != EVENT_SCHEMA_VERSION)),
            match meta {
                None => result matches Ok(store) && store@ == (StoreView {
                    root,
                    meta: WorldMeta::spec_fresh(),
                    manifest: Seq::empty(),
                }),
                Some(m) => match m.schema_fault() {
                    Some((found, wanted)) => result matches Err(
                        StoreError::SchemaMismatch { file_version, expected_version },
                    ) && file_version == found && expected_version == wanted,
                    None => result matches Ok(store) && store@ == (StoreView {
                        root,
                        meta: m,
                        manifest: match manifest {
                            Some(listed) => listed@,
                            None => Seq::empty(),
                        },
                    }),
                },
            },
    {
        match meta {
            Some(m) => {
                if m.world_schema_version != WORLD_SCHEMA_VERSION {
                    return Err(
                        StoreError::SchemaMismatch {
                            file_version: m.world_schema_version,
                            expected_version: WORLD_SCHEMA_VERSION,
                        },
                    );
                }
                if m.event_schema_version != EVENT_SCHEMA_VERSION {
                    return Err(
                        StoreError::SchemaMismatch {
                            file_version: m.event_schema_version,
                            expected_version: EVENT_SCHEMA_VERSION,
                        },
                    );
                }
                let manifest = match manifest {
                    Some(listed) => listed,
                    None => IntegrityManifest::new(),
                };
                Ok(WorldStore { root, meta: m, manifest })
            },
            None => {
                let meta = WorldMeta {
                    world_schema_version: WORLD_SCHEMA_VERSION,
                    event_schema_version: EVENT_SCHEMA_VERSION,
                    snapshot_count: 0,
                    event_segment_count: 0,
                };
                Ok(WorldStore { root, meta, manifest: IntegrityManifest::new() })
            },
        }
    }

    /// Get the path to the store root.
    pub fn root(&self) -> (root: &PathBuf)
        ensures
            *root == self@.root,
    {
        &self.root
    }

    /// Get the metadata.
    pub fn meta(&self) -> (meta: &WorldMeta)
        ensures
            *meta == self@.meta,
    {
        &self.meta
    }

    /// Get the integrity manifest.
    pub fn manifest(&self) -> (manifest: &IntegrityManifest)
        ensures
            manifest@ == self@.manifest,
    {
        &self.manifest
    }

    /// Records a segment file that holds `bytes`: counts it, names it, and
    /// appends its digest to the manifest, chained to the entry before it.
    /// Returns the file to write.
    pub fn record_segment(&mut self, kind: SegmentKind, bytes: Vec<u8>) -> (segment: Segment)
        requires
            old(self)@.has_room(kind),
        ensures
            segment.kind == kind,
            segment.filename@ == old(self)@.next_name(kind),
            segment.bytes == bytes,
            final(self)@ == old(self)@.record(kind, segment.filename@, bytes@),
    {
        let filename = match kind {
            SegmentKind::Snapshot => {
                self.meta.snapshot_count = self.meta.snapshot_count + 1;
                snapshot_file_name(self.meta.snapshot_count)
            },
            SegmentKind::Events => {
                self.meta.event_segment_count = self.meta.event_segment_count + 1;
                event_file_name(self.meta.event_segment_count)
            },
        };
        let hash = sha256_hex(bytes.as_slice());
        let count = self.manifest.entries.len();
        let prev_hash = if count == 0 {
            None
        } else {
            Some(self.manifest.entries[count - 1].sha256.clone())
        };
        let entry = ManifestEntry { filename: filename.clone(), sha256: hash, prev_hash };
        self.manifest.entries.push(entry);
        assert(self.manifest@ =~= old(self).manifest@.push(entry@));
        Segment { kind, filename, bytes }
    }

    /// Take a snapshot: compresses the encoded snapshot `encoded`, records the
    /// compressed bytes as the next snapshot segment and returns the file to
    /// write. If compression fails, the store is unchanged.
    pub fn take_snapshot(&mut self, encoded: &[u8]) -> (result: Result<Segment, StoreError>)
        requires
            old(self)@.has_room(SegmentKind::Snapshot),
        ensures
            match result {
                Ok(segment) => {
                    &&& segment.kind == SegmentKind::Snapshot
                    &&& segment.filename@ == old(self)@.next_name(SegmentKind::Snapshot)
                    &&& segment.bytes@ == zstd_encoded(encoded@, ZSTD_LEVEL)
                    &&& final(self)@ == old(self)@.record(
                        SegmentKind::Snapshot,
                        segment.filename@,
                        segment.bytes@,
                    )
                },
                Err(error) => error is Io && final(self)@ == old(self)@,
            },
    {
        match compress(encoded) {
            Ok(bytes) => Ok(self.record_segment(SegmentKind::Snapshot, bytes)),
            Err(error) => Err(StoreError::Io(error)),
        }
    }

    /// Append events to the store as a new segment: compresses the encoded
    /// batch `encoded`, records it as the next event segment and returns the
    /// file to write.
    ///
    /// An empty batch is a no-op: no segment, no manifest entry, no change.
    pub fn append_events(&mut self, events: &[WorldEvent], encoded: &[u8]) -> (result: Result<
        Option<Segment>,
        StoreError,
    >)
        requires
            events@.len() > 0 ==> old(self)@.has_room(SegmentKind::Events),
        ensures
            events@.len() == 0 ==> (result matches Ok(None) && final(self)@ == old(self)@),
            events@.len() > 0 ==> match result {
                Ok(written) => {
                    &&& written matches Some(segment)
                    &&& segment.kind == SegmentKind::Events
                    &&& segment.filename@ == old(self)@.next_name(SegmentKind::Events)
                    &&& segment.bytes@ == zstd_encoded(encoded@, ZSTD_LEVEL)
                    &&& final(self)@ == old(self)@.record(
                        SegmentKind::Events,
                        segment.filename@,
                        segment.bytes@,
                    )
                },
                Err(error) => error is Io && final(self)@ == old(self)@,
            },
    {
        if events.len() == 0 {
            return Ok(None);
        }
        match compress(encoded) {
            Ok(bytes) => Ok(Some(self.record_segment(SegmentKind::Events, bytes))),
            Err(error) => Err(StoreError::Io(error)),
        }
    }

    /// The position of the first manifest entry with the given file name.
    fn position_of(&self, filename: &str) -> (position: Option<usize>)
        ensures
            match position {
                Some(i) => find_entry(self@.manifest, filename@) == Some(i as int) && i
                    < self@.manifest.len(),
                None => find_entry(self@.manifest, filename@) is None,
            },
    {
        let wanted = filename.to_owned();
        let mut i: usize = 0;
        while i < self.manifest.entries.len()
            invariant
                0 <= i <= self.manifest.entries@.len(),
                wanted@ == filename@,
                find_entry(self@.manifest.take(i as int), filename@) is None,
            decreases self.manifest.entries@.len() - i,
        {
            let entry = &self.manifest.entries[i];
            proof {
                let next = self@.manifest.take(i + 1);
                assert(next.drop_last() =~= self@.manifest.take(i as int));
                assert(next.last() == entry@);
                lemma_find_entry_prefix(self@.manifest, filename@, i + 1);
            }
            if entry.filename == wanted {
                return Some(i);
            }
            i = i + 1;
        }
        assert(self@.manifest.take(i as int) =~= self@.manifest);
        None
    }

    /// Checks the bytes of a segment file against the digest that the manifest
    /// lists for the file name. A file that the manifest does not list passes.
    pub fn verify_file_hash(&self, filename: &str, data: &[u8]) -> (result: Result<(), StoreError>)
        ensures
            match file_fault(self@.manifest, filename@, data@) {
                Some(fault) => result matches Err(error) && is_mismatch(error, fault),
                None => result is Ok,
            },
    {
        let actual = sha256_hex(data);
        match self.position_of(filename) {
            Some(i) => {
                let entry = &self.manifest.entries[i];
                assert(entry@ == self@.manifest[i as int]);
                if entry.sha256 != actual {
                    Err(StoreError::IntegrityMismatch { expected: entry.sha256.clone(), actual })
                } else {
                    Ok(())
                }
            },
            None => Ok(()),
        }
    }

    /// Opens a segment file: checks its bytes against the manifest, then
    /// decompresses them.
    fn open_segment(&self, filename: &str, compressed: &[u8]) -> (result: Result<
        Vec<u8>,
        StoreError,
    >)
        ensures
            match file_fault(self@.manifest, filename@, compressed@) {
                Some(fault) => result matches Err(error) && is_mismatch(error, fault),
                None => match result {
                    Ok(payload) => payload@ == zstd_decoded(compressed@),
                    Err(error) => error is Io,
                },
            },
    {
        match self.verify_file_hash(filename, compressed) {
            Ok(()) => {},
            Err(error) => {
                return Err(error);
            },
        }
        match decompress(compressed) {
            Ok(payload) => Ok(payload),
            Err(error) => Err(StoreError::Io(error)),
        }
    }

    /// Opens snapshot file number `index`, given its bytes: fails with an
    /// integrity mismatch if the manifest lists the file under another digest,
    /// and otherwise returns the decompressed payload, or the decompressor's
    /// error.
    pub fn load_snapshot(&self, index: u32, compressed: &[u8]) -> (result: Result<
        Vec<u8>,
        StoreError,
    >)
        ensures
            match file_fault(self@.manifest, spec_snapshot_file_name(index), compressed@) {
                Some(fault) => result matches Err(error) && is_mismatch(error, fault),
                None => match result {
                    Ok(payload) => payload@ == zstd_decoded(compressed@),
                    Err(error) => error is Io,
                },
            },
    {
        let filename = snapshot_file_name(index);
        self.open_segment(filename.as_str(), compressed)
    }

    /// Opens event segment file number `index`, given its bytes: fails with an
    /// integrity mismatch if the manifest lists the file under another digest,
    /// and otherwise returns the decompressed payload, or the decompressor's
    /// error.
    pub fn load_event_segment(&self, index: u32, compressed: &[u8]) -> (result: Result<
        Vec<u8>,
        StoreError,
    >)
        ensures
            match file_fault(self@.manifest, spec_event_file_name(index), compressed@) {
                Some(fault) => result matches Err(error) && is_mismatch(error, fault),
                None => match result {
                    Ok(payload) => payload@ == zstd_decoded(compressed@),
                    Err(error) => error is Io,
                },
            },
    {
        let filename = event_file_name(index);
        self.open_segment(filename.as_str(), compressed)
    }

    /// The number of the latest snapshot; `NoSnapshots` if there is none.
    pub fn latest_snapshot(&self) -> (result: Result<u32, StoreError>)
        ensures
            match result {
                Ok(index) => index == self@.meta.snapshot_count && index > 0,
                Err(error) => error is NoSnapshots && self@.meta.snapshot_count == 0,
            },
    {
        if self.meta.snapshot_count == 0 {
            Err(StoreError::NoSnapshots)
        } else {
            Ok(self.meta.snapshot_count)
        }
    }

    /// The numbers of the event segments to replay on load, in replay order:
    /// the segments written after the latest snapshot, in segment order.
    ///
    /// A segment counts as written before the snapshot if the manifest lists
    /// it before the snapshot; what such a segment holds, the snapshot holds.
    pub fn segments_to_replay(&self) -> (indices: Vec<u32>)
        ensures
            forall|i: int, j: int| 0 <= i < j < indices@.len() ==> indices@[i] < indices@[j],
            forall|k: u32| indices@.contains(k) <==> self@.replays_segment(k),
    {
        let snapshot_name = snapshot_file_name(self.meta.snapshot_count);
        let snapshot_at = self.position_of(snapshot_name.as_str());
        let mut indices: Vec<u32> = Vec::new();
        let mut index: u32 = 0;
        while index < self.meta.event_segment_count
            invariant
                0 <= index <= self.meta.event_segment_count,
                snapshot_name@ == spec_snapshot_file_name(self@.meta.snapshot_count),
                match snapshot_at {
                    Some(at) => find_entry(self@.manifest, snapshot_name@) == Some(at as int),
                    None => find_entry(self@.manifest, snapshot_name@) is None,
                },
                forall|i: int, j: int| 0 <= i < j < indices@.len() ==> indices@[i] < indices@[j],
                forall|i: int| 0 <= i < indices@.len() ==> 1 <= #[trigger] indices@[i] <= index,
                forall|k: u32|
                    indices@.contains(k) <==> k <= index && self@.replays_segment(k),
            decreases self.meta.event_segment_count - index,
        {
            index = index + 1;
            let name = event_file_name(index);
            let before = match snapshot_at {
                Some(at) => match self.position_of(name.as_str()) {
                    Some(p) => p < at,
                    None => false,
                },
                None => false,
            };
            assert(before == listed_before(self@.manifest, name@, snapshot_name@));
            let ghost listed = indices@;
            if !before {
                indices.push(index);
                proof {
                    assert forall|k: u32| indices@.contains(k) <==> k <= index
                        && self@.replays_segment(k) by {
                        if indices@.contains(k) {
                            let i = choose|i: int| 0 <= i < indices@.len() && indices@[i] == k;
                            if i < listed.len() {
                                assert(listed[i] == k);
                                assert(listed.contains(k));
                            }
                        }
                        if k <= index && self@.replays_segment(k) {
                            if k == index {
                                assert(indices@[listed.len() as int] == k);
                            } else {
                                assert(listed.contains(k));
                                let i = choose|i: int| 0 <= i < listed.len() && listed[i] == k;
                                assert(indices@[i] == k);
                            }
                        }
                    }
                }
            } else {
                proof {
                    assert forall|k: u32| indices@.contains(k) <==> k <= index
                        && self@.replays_segment(k) by {
                        if k <= index && self@.replays_segment(k) {
                            assert(k != index);
                        }
                    }
                }
            }
        }
        indices
    }

    /// The file name of the latest snapshot; `NoSnapshots` if there is none.
    pub fn latest_snapshot_name(&self) -> (result: Result<String, StoreError>)
        ensures
            match result {
                Ok(name) => self@.meta.snapshot_count > 0 && name@ == spec_snapshot_file_name(
                    self@.meta.snapshot_count,
                ),
                Err(error) => error is NoSnapshots && self@.meta.snapshot_count == 0,
            },
    {
        match self.latest_snapshot() {
            Ok(index) => Ok(snapshot_file_name(index)),
            Err(error) => Err(error),
        }
    }

    /// Accepts a loaded snapshot if its content digest is the digest of its
    /// content.
    pub fn accept_snapshot(snapshot: &Snapshot) -> (result: Result<(), StoreError>)
        ensures
            match result {
                Ok(()) => snapshot.intact(),
                Err(error) => !snapshot.intact() && is_mismatch(
                    error,
                    ("valid snapshot hash"@, "snapshot hash mismatch"@),
                ),
            },
    {
        if snapshot.verify() {
            Ok(())
        } else {
            Err(
                StoreError::IntegrityMismatch {
                    expected: "valid snapshot hash".to_owned(),
                    actual: "snapshot hash mismatch".to_owned(),
                },
            )
        }
    }

    /// Reconstruct the world from the latest snapshot and the event segments,
    /// both already read and decoded: `snapshot` is the latest snapshot and
    /// `segments` are the event segments in segment order.
    ///
    /// Fails with `NoSnapshots` if the store has no snapshot, and with an
    /// integrity mismatch if the snapshot's content digest is wrong. Otherwise
    /// the snapshot is restored and the segments are replayed on top of it as
    /// one log, skipping what the snapshot already holds. The returned world's
    /// event log is empty.
    pub fn load_latest(&self, snapshot: &Snapshot, segments: &Vec<Vec<WorldEvent>>) -> (result:
        Result<World, StoreError>)
        requires
            resume_fits(
                resume_start(snapshot.state()),
                snapshot.tick,
                concat_all(segment_events(segments@)),
            ),
        ensures
            match result {
                Ok(world) => {
                    &&& self@.meta.snapshot_count > 0
                    &&& snapshot.intact()
                    &&& world@.state == replay_after(
                        snapshot.state(),
                        concat_all(segment_events(segments@)),
                    )
                    &&& world@.events == Seq::<WorldEvent>::empty()
                },
                Err(error) => if self@.meta.snapshot_count == 0 {
                    error is NoSnapshots
                } else {
                    !snapshot.intact() && is_mismatch(
                        error,
                        ("valid snapshot hash"@, "snapshot hash mismatch"@),
                    )
                },
            },
    {
        if self.meta.snapshot_count == 0 {
            return Err(StoreError::NoSnapshots);
        }
        match WorldStore::accept_snapshot(snapshot) {
            Ok(()) => {},
            Err(error) => {
                return Err(error);
            },
        }
        let ghost start = resume_start(snapshot.state());
        let ghost all = segment_events(segments@);
        let mut world = snapshot.restore();
        let mut past = false;
        let mut j: usize = 0;
        while j < segments.len()
            invariant
                0 <= j <= segments@.len(),
                all == segment_events(segments@),
                start == resume_start(snapshot.state()),
                resume_fits(start, snapshot.tick, concat_all(all)),
                (Resume { state: world@.state, unlocked: past }) == resume_all(
                    start,
                    snapshot.tick,
                    concat_all(all.take(j as int)),
                ),
            decreases segments@.len() - j,
        {
            proof {
                let done = all.take(j as int);
                let next = all.take(j + 1);
                assert(next.drop_last() =~= done);
                assert(next.last() == segments@[j as int]@);
                assert(all =~= next + all.skip(j + 1));
                lemma_concat_all_split(next, all.skip(j + 1));
                lemma_resume_fits_split(
                    start,
                    snapshot.tick,
                    concat_all(next),
                    concat_all(all.skip(j + 1)),
                );
                lemma_resume_fits_split(start, snapshot.tick, concat_all(done), segments@[j as int]@);
                lemma_resume_concat(start, snapshot.tick, concat_all(done), segments@[j as int]@);
            }
            past = resume_onto(&mut world, past, snapshot.tick, segments[j].as_slice());
            j = j + 1;
        }
        assert(all.take(j as int) =~= all);
        world.drain_events();
        Ok(world)
    }

    /// Replay from persistence: the same as `load_latest`.
    pub fn replay(&self, snapshot: &Snapshot, segments: &Vec<Vec<WorldEvent>>) -> (result: Result<
        World,
        StoreError,
    >)
        requires
            resume_fits(
                resume_start(snapshot.state()),
                snapshot.tick,
                concat_all(segment_events(segments@)),
            ),
        ensures
            match result {
                Ok(world) => {
                    &&& self@.meta.snapshot_count > 0
                    &&& snapshot.intact()
                    &&& world@.state == replay_after(
                        snapshot.state(),
                        concat_all(segment_events(segments@)),
                    )
                    &&& world@.events == Seq::<WorldEvent>::empty()
                },
                Err(error) => if self@.meta.snapshot_count == 0 {
                    error is NoSnapshots
                } else {
                    !snapshot.intact() && is_mismatch(
                        error,
                        ("valid snapshot hash"@, "snapshot hash mismatch"@),
                    )
                },
            },
    {
        self.load_latest(snapshot, segments)
    }

    /// Verify the integrity of the manifest against the segment files.
    ///
    /// `files` holds the bytes of the files that the first manifest entries
    /// name, in manifest order; with one file per entry the whole manifest is
    /// verified. Entries are checked in order, each first for its link to the
    /// entry before it and then for the digest of its file, and the first
    /// failure is returned with the expected and the actual text.
    pub fn verify_integrity(&self, files: &Vec<Vec<u8>>) -> (result: Result<(), StoreError>)
        requires
            files@.len() <= self@.manifest.len(),
        ensures
            match first_fault(self@.manifest, file_bytes(files@), files@.len() as int) {
                Some(i) => result matches Err(error) && is_mismatch(
                    error,
                    entry_fault(self@.manifest, i, files@[i]@)->0,
                ),
                None => result is Ok,
            },
    {
        let ghost entries = self@.manifest;
        let ghost contents = file_bytes(files@);
        let mut prev_hash: Option<String> = None;
        let mut i: usize = 0;
        while i < files.len()
            invariant
                0 <= i <= files@.len() <= entries.len(),
                entries == self@.manifest,
                contents == file_bytes(files@),
                text_of(prev_hash) == expected_link(entries, i as int),
                first_fault(entries, contents, i as int) is None,
            decreases files@.len() - i,
        {
            let entry = &self.manifest.entries[i];
            assert(entry@ == entries[i as int]);
            assert(contents[i as int] == files@[i as int]@);
            proof {
                if entry_fault(entries, i as int, contents[i as int]) is Some {
                    assert(first_fault(entries, contents, i + 1) == Some(i as int));
                    lemma_first_fault_extends(entries, contents, i + 1, files@.len() as int);
                }
            }
            if !same_text(&entry.prev_hash, &prev_hash) {
                return Err(
                    StoreError::IntegrityMismatch {
                        expected: show(&prev_hash),
                        actual: show(&entry.prev_hash),
                    },
                );
            }
            let actual_hash = sha256_hex(files[i].as_slice());
            if actual_hash != entry.sha256 {
                return Err(
                    StoreError::IntegrityMismatch {
                        expected: entry.sha256.clone(),
                        actual: actual_hash,
                    },
                );
            }
            prev_hash = Some(entry.sha256.clone());
            i = i + 1;
        }
        Ok(())
    }
}

/// A fault found among the first `m` entries is the fault found among the
/// first `n`, for every `n` from `m` on.
pub proof fn lemma_first_fault_extends(
    entries: Seq<EntryView>,
    files: Seq<Seq<u8>>,
    m: int,
    n: int,
)
    requires
        0 <= m <= n,
        first_fault(entries, files, m) is Some,
    ensures
        first_fault(entries, files, n) == first_fault(entries, files, m),
    decreases n - m,
{
    if m < n {
        lemma_first_fault_extends(entries, files, m, n - 1);
    }
}

/// Chain soundness: a manifest that is sound for its files stays sound when
/// a segment is recorded and its bytes are added to the files.
pub proof fn lemma_record_keeps_integrity(
    store: StoreView,
    files: Seq<Seq<u8>>,
    kind: SegmentKind,
    filename: Seq<char>,
    bytes: Seq<u8>,
)
    requires
        files.len() == store.manifest.len(),
        first_fault(store.manifest, files, files.len() as int) is None,
    ensures
        first_fault(
            store.record(kind, filename, bytes).manifest,
            files.push(bytes),
            (files.len() + 1) as int,
        ) is None,
{
    let n = files.len() as int;
    let after = store.record(kind, filename, bytes).manifest;
    let grown = files.push(bytes);
    lemma_no_fault_means_sound(store.manifest, files, n);
    assert forall|i: int| 0 <= i < n + 1 implies (#[trigger] after[i]).prev_hash == expected_link(
        after,
        i,
    ) && content_digest(grown[i]) == after[i].sha256 by {
        if i < n {
            assert(after[i] == store.manifest[i]);
            assert(grown[i] == files[i]);
            if i > 0 {
                assert(after[i - 1] == store.manifest[i - 1]);
            }
        } else if n > 0 {
            assert(after[n - 1] == store.manifest[n - 1]);
        }
    }
    lemma_no_fault_means_sound(after, grown, n + 1);
}

/// Corruption detection: if the bytes of the file of entry `i` do not have
/// the digest that the entry records, verification of the first `n > i`
/// entries fails; and if everything before entry `i` is sound and the entry's
/// own link is sound, the failure names the recorded digest as expected and
/// the digest of the bytes as actual.
///
/// Whether changed bytes have a changed digest is a property of SHA-256 that
/// is not assumed here.
pub proof fn lemma_corruption_is_reported(
    entries: Seq<EntryView>,
    files: Seq<Seq<u8>>,
    n: int,
    i: int,
)
    requires
        0 <= i < n <= entries.len(),
        n <= files.len(),
        content_digest(files[i]) != entries[i].sha256,
    ensures
        first_fault(entries, files, n) is Some,
        first_fault(entries, files, i) is None && entries[i].prev_hash == expected_link(entries, i)
            ==> first_fault(entries, files, n) == Some(i) && entry_fault(entries, i, files[i])
            == Some((entries[i].sha256, content_digest(files[i]))),
{
    lemma_no_fault_means_sound(entries, files, n);
    if first_fault(entries, files, i) is None {
        assert(first_fault(entries, files, i + 1) == Some(i));
        lemma_first_fault_extends(entries, files, i + 1, n);
    }
}

/// A recorded file is checked on load: once a segment has been recorded under
/// a name that the manifest did not list before, bytes offered under that name
/// are refused exactly when their digest is not the recorded one.
pub proof fn lemma_recorded_file_is_checked(
    store: StoreView,
    kind: SegmentKind,
    filename: Seq<char>,
    bytes: Seq<u8>,
    offered: Seq<u8>,
)
    requires
        find_entry(store.manifest, filename) is None,
    ensures
        file_fault(store.record(kind, filename, bytes).manifest, filename, offered) is Some
            <==> content_digest(offered) != content_digest(bytes),
        file_fault(store.record(kind, filename, bytes).manifest, filename, offered) is Some
            ==> file_fault(store.record(kind, filename, bytes).manifest, filename, offered)
            == Some((content_digest(bytes), content_digest(offered))),
{
    let after = store.record(kind, filename, bytes).manifest;
    assert(after.drop_last() =~= store.manifest);
}

/// The bytes of each file.
pub open spec fn file_bytes(files: Seq<Vec<u8>>) -> Seq<Seq<u8>> {
    files.map_values(|f: Vec<u8>| f@)
}

/// If no entry before position `n` has the file name, the first entry with
/// the name among the first `n` is the first in the whole manifest.
pub proof fn lemma_find_entry_prefix(entries: Seq<EntryView>, filename: Seq<char>, n: int)
    requires
        0 < n <= entries.len(),
        find_entry(entries.take(n - 1), filename) is None,
    ensures
        entries[n - 1].filename == filename ==> find_entry(entries, filename) == Some(n - 1),
        entries[n - 1].filename != filename ==> find_entry(entries.take(n), filename) is None,
    decreases entries.len() - n,
{
    assert(entries.take(n).drop_last() =~= entries.take(n - 1));
    if entries[n - 1].filename == filename {
        lemma_find_entry_extends(entries, filename, n);
    }
}

/// An entry found among the first `n` is the entry found in the whole
/// manifest.
pub proof fn lemma_find_entry_extends(entries: Seq<EntryView>, filename: Seq<char>, n: int)
    requires
        0 <= n <= entries.len(),
        find_entry(entries.take(n), filename) is Some,
    ensures
        find_entry(entries, filename) == find_entry(entries.take(n), filename),
    decreases entries.len() - n,
{
    if n < entries.len() {
        assert(entries.take(n + 1).drop_last() =~= entries.take(n));
        lemma_find_entry_extends(entries, filename, n + 1);
    } else {
        assert(entries.take(n) =~= entries);
    }
}

} // verus!
