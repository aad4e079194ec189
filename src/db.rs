//! The snapshot and file-event store.

use vstd::prelude::*;

use crate::error::DatabaseError;
use crate::text::{opt_view, clone_opt, str_eq};
use vstd::string::*;

verus! {

/// Kind of a file change.
#[derive(Debug, Clone, Copy, PartialEq, Eq, Structural)]
pub enum FileEventType {
    Created,
    Modified,
    Deleted,
    Renamed,
}

/// The stored name of each kind.
pub open spec fn event_type_name(t: FileEventType) -> Seq<char> {
    match t {
        FileEventType::Created => "created"@,
        FileEventType::Modified => "modified"@,
        FileEventType::Deleted => "deleted"@,
        FileEventType::Renamed => "renamed"@,
    }
}

impl FileEventType {
    /// The name under which this kind is stored.
    pub fn as_str(&self) -> (r: &'static str)
        ensures
            r@ == event_type_name(*self),
    {
        match self {
            FileEventType::Created => "created",
            FileEventType::Modified => "modified",
            FileEventType::Deleted => "deleted",
            FileEventType::Renamed => "renamed",
        }
    }

    /// Reads a stored name back; `None` for any other text.
    pub fn from_str(s: &str) -> (r: Option<FileEventType>)
        ensures
            r matches Some(t) ==> event_type_name(t) == s@,
            r is None ==> forall|t: FileEventType| event_type_name(t) != s@,
    {
        if str_eq(s, "created") {
            Some(FileEventType::Created)
        } else if str_eq(s, "modified") {
            Some(FileEventType::Modified)
        } else if str_eq(s, "deleted") {
            Some(FileEventType::Deleted)
        } else if str_eq(s, "renamed") {
            Some(FileEventType::Renamed)
        } else {
            None
        }
    }
}

/// A snapshot of work context at a point in time. `timestamp` is in
/// microseconds since the Unix epoch (UTC).
#[derive(Debug, Clone)]
pub struct Snapshot {
    pub id: String,
    pub timestamp: i64,
    pub active_file: Option<String>,
    pub active_directory: Option<String>,
    pub git_branch: Option<String>,
    pub notes: Option<String>,
}

/// What a snapshot holds, as plain values.
pub struct SnapshotView {
    pub id: Seq<char>,
    pub timestamp: i64,
    pub active_file: Option<Seq<char>>,
    pub active_directory: Option<Seq<char>>,
    pub git_branch: Option<Seq<char>>,
    pub notes: Option<Seq<char>>,
}

impl View for Snapshot {
    type V = SnapshotView;

    open spec fn view(&self) -> SnapshotView {
        SnapshotView {
            id: self.id@,
            timestamp: self.timestamp,
            active_file: opt_view(self.active_file),
            active_directory: opt_view(self.active_directory),
            git_branch: opt_view(self.git_branch),
            notes: opt_view(self.notes),
        }
    }
}

impl Snapshot {
    /// A copy of this snapshot.
    pub fn duplicate(&self) -> (r: Snapshot)
        ensures
            r@ == self@,
    {
        Snapshot {
            id: self.id.clone(),
            timestamp: self.timestamp,
            active_file: clone_opt(&self.active_file),
            active_directory: clone_opt(&self.active_directory),
            git_branch: clone_opt(&self.git_branch),
            notes: clone_opt(&self.notes),
        }
    }
}

/// A file change event; `timestamp` as for [`Snapshot`].
#[derive(Debug, Clone)]
pub struct FileEvent {
    pub id: String,
    pub timestamp: i64,
    pub path: String,
    pub event_type: FileEventType,
}

/// What a file event holds, as plain values.
pub struct FileEventView {
    pub id: Seq<char>,
    pub timestamp: i64,
    pub path: Seq<char>,
    pub event_type: FileEventType,
}

impl View for FileEvent {
    type V = FileEventView;

    open spec fn view(&self) -> FileEventView {
        FileEventView {
            id: self.id@,
            timestamp: self.timestamp,
            path: self.path@,
            event_type: self.event_type,
        }
    }
}

impl FileEvent {
    /// A copy of this event.
    pub fn duplicate(&self) -> (r: FileEvent)
        ensures
            r@ == self@,
    {
        FileEvent {
            id: self.id.clone(),
            timestamp: self.timestamp,
            path: self.path.clone(),
            event_type: self.event_type,
        }
    }
}

pub open spec fn snapshot_views(v: Seq<Snapshot>) -> Seq<SnapshotView> {
    v.map_values(|s: Snapshot| s@)
}

pub open spec fn event_views(v: Seq<FileEvent>) -> Seq<FileEventView> {
    v.map_values(|e: FileEvent| e@)
}

/// Rows ordered newest first.
pub open spec fn snapshots_newest_first(rows: Seq<SnapshotView>) -> bool {
    forall|i: int, j: int| 0 <= i < j < rows.len() ==> rows[i].timestamp >= rows[j].timestamp
}

pub open spec fn snapshot_ids_distinct(rows: Seq<SnapshotView>) -> bool {
    forall|i: int, j: int| 0 <= i < rows.len() && 0 <= j < rows.len() && i != j ==> rows[i].id != rows[j].id
}

/// Some row of `rows` has the id `id`.
pub open spec fn id_stored(rows: Seq<SnapshotView>, id: Seq<char>) -> bool {
    exists|j: int| 0 <= j < rows.len() && #[trigger] rows[j].id == id
}

pub open spec fn events_newest_first(rows: Seq<FileEventView>) -> bool {
    forall|i: int, j: int| 0 <= i < j < rows.len() ==> rows[i].timestamp >= rows[j].timestamp
}

pub open spec fn event_ids_distinct(rows: Seq<FileEventView>) -> bool {
    forall|i: int, j: int| 0 <= i < rows.len() && 0 <= j < rows.len() && i != j ==> rows[i].id != rows[j].id
}

/// `rows` with `row` placed after every row newer than it and before the rest.
pub open spec fn placed_by_time(rows: Seq<SnapshotView>, row: SnapshotView, out: Seq<SnapshotView>) -> bool {
    exists|p: int|
        #![trigger rows.insert(p, row)]
        0 <= p <= rows.len() && (forall|j: int| 0 <= j < p ==> rows[j].timestamp > row.timestamp) && (forall|j: int|
            p <= j < rows.len() ==> rows[j].timestamp <= row.timestamp) && out == rows.insert(p, row)
}

pub open spec fn event_placed_by_time(rows: Seq<FileEventView>, row: FileEventView, out: Seq<FileEventView>) -> bool {
    exists|p: int|
        #![trigger rows.insert(p, row)]
        0 <= p <= rows.len() && (forall|j: int| 0 <= j < p ==> rows[j].timestamp > row.timestamp) && (forall|j: int|
            p <= j < rows.len() ==> rows[j].timestamp <= row.timestamp) && out == rows.insert(p, row)
}

/// The rows that retention keeps under a cap of `max` rows: the `max` newest.
pub open spec fn retained(rows: Seq<SnapshotView>, max: nat) -> Seq<SnapshotView> {
    if max < rows.len() {
        rows.take(max as int)
    } else {
        rows
    }
}

/// Retention under a cap of `max` keeps `min(n, max)` of `n` rows and removes
/// `max(0, n - max)`; retaining again under the same cap removes nothing.
pub proof fn retention_law(rows: Seq<SnapshotView>, max: nat)
    ensures
        retained(rows, max).len() == if rows.len() < max { rows.len() } else { max },
        rows.len() - retained(rows, max).len() == if rows.len() > max { rows.len() - max } else { 0 },
        retained(retained(rows, max), max) == retained(rows, max),
        retained(rows, max).len() - retained(retained(rows, max), max).len() == 0,
{
}

/// The events whose timestamp lies in `[since, until]`, in stored order.
pub open spec fn events_within(ev: Seq<FileEventView>, since: i64, until: i64) -> Seq<FileEventView>
    decreases ev.len(),
{
    if ev.len() == 0 {
        Seq::empty()
    } else {
        let rest = events_within(ev.drop_last(), since, until);
        if since <= ev.last().timestamp <= until {
            rest.push(ev.last())
        } else {
            rest
        }
    }
}

/// `out` is `rows` without its rows older than `cutoff`, which form a suffix.
pub open spec fn events_trimmed(rows: Seq<FileEventView>, cutoff: i64, out: Seq<FileEventView>) -> bool {
    exists|p: int|
        #![trigger rows.take(p)]
        0 <= p <= rows.len() && (forall|j: int| 0 <= j < p ==> rows[j].timestamp >= cutoff) && (forall|j: int|
            p <= j < rows.len() ==> rows[j].timestamp < cutoff) && out == rows.take(p)
}

proof fn lemma_snapshot_placed(rows: Seq<SnapshotView>, row: SnapshotView, p: int)
    requires
        snapshots_newest_first(rows),
        snapshot_ids_distinct(rows),
        0 <= p <= rows.len(),
        forall|j: int| 0 <= j < p ==> rows[j].timestamp > row.timestamp,
        forall|j: int| p <= j < rows.len() ==> rows[j].timestamp <= row.timestamp,
        forall|j: int| 0 <= j < rows.len() ==> rows[j].id != row.id,
    ensures
        snapshots_newest_first(rows.insert(p, row)),
        snapshot_ids_distinct(rows.insert(p, row)),
        placed_by_time(rows, row, rows.insert(p, row)),
{
    let out = rows.insert(p, row);
    assert forall|i: int, j: int| 0 <= i < j < out.len() implies out[i].timestamp >= out[j].timestamp by {
        if j < p {
        } else if j == p {
        } else if i < p {
            assert(out[j] == rows[j - 1]);
        } else if i == p {
            assert(out[j] == rows[j - 1]);
        } else {
            assert(out[i] == rows[i - 1]);
            assert(out[j] == rows[j - 1]);
        }
    }
    assert forall|i: int, j: int| 0 <= i < out.len() && 0 <= j < out.len() && i != j implies out[i].id
        != out[j].id by {
        if i < p && j < p {
        } else if i < p && j > p {
            assert(out[j] == rows[j - 1]);
        } else if i > p && j < p {
            assert(out[i] == rows[i - 1]);
        } else if i > p && j > p {
            assert(out[i] == rows[i - 1]);
            assert(out[j] == rows[j - 1]);
        } else if i == p && j > p {
            assert(out[j] == rows[j - 1]);
        } else if j == p && i > p {
            assert(out[i] == rows[i - 1]);
        }
    }
}

proof fn lemma_event_placed(rows: Seq<FileEventView>, row: FileEventView, p: int)
    requires
        events_newest_first(rows),
        event_ids_distinct(rows),
        0 <= p <= rows.len(),
        forall|j: int| 0 <= j < p ==> rows[j].timestamp > row.timestamp,
        forall|j: int| p <= j < rows.len() ==> rows[j].timestamp <= row.timestamp,
        forall|j: int| 0 <= j < rows.len() ==> rows[j].id != row.id,
    ensures
        events_newest_first(rows.insert(p, row)),
        event_ids_distinct(rows.insert(p, row)),
        event_placed_by_time(rows, row, rows.insert(p, row)),
{
    let out = rows.insert(p, row);
    assert forall|i: int, j: int| 0 <= i < j < out.len() implies out[i].timestamp >= out[j].timestamp by {
        if j < p {
        } else if j == p {
        } else if i < p {
            assert(out[j] == rows[j - 1]);
        } else if i == p {
            assert(out[j] == rows[j - 1]);
        } else {
            assert(out[i] == rows[i - 1]);
            assert(out[j] == rows[j - 1]);
        }
    }
    assert forall|i: int, j: int| 0 <= i < out.len() && 0 <= j < out.len() && i != j implies out[i].id
        != out[j].id by {
        if i < p && j < p {
        } else if i < p && j > p {
            assert(out[j] == rows[j - 1]);
        } else if i > p && j < p {
            assert(out[i] == rows[i - 1]);
        } else if i > p && j > p {
            assert(out[i] == rows[i - 1]);
            assert(out[j] == rows[j - 1]);
        } else if i == p && j > p {
            assert(out[j] == rows[j - 1]);
        } else if j == p && i > p {
            assert(out[i] == rows[i - 1]);
        }
    }
}

/// The in-memory store of snapshots and file events.
pub struct Database {
    snapshots: Vec<Snapshot>,
    file_events: Vec<FileEvent>,
}

impl Database {
    /// The stored snapshots, newest first.
    pub closed spec fn rows(&self) -> Seq<SnapshotView> {
        snapshot_views(self.snapshots@)
    }

    /// The stored file events, newest first.
    pub closed spec fn events(&self) -> Seq<FileEventView> {
        event_views(self.file_events@)
    }

    pub open spec fn well_formed(&self) -> bool {
        &&& snapshots_newest_first(self.rows())
        &&& snapshot_ids_distinct(self.rows())
        &&& events_newest_first(self.events())
        &&& event_ids_distinct(self.events())
    }

    /// An empty store.
    pub fn open_in_memory() -> (r: Database)
        ensures
            r.well_formed(),
            r.rows() == Seq::<SnapshotView>::empty(),
            r.events() == Seq::<FileEventView>::empty(),
    {
        let r = Database { snapshots: Vec::new(), file_events: Vec::new() };
        assert(r.rows() =~= Seq::<SnapshotView>::empty());
        assert(r.events() =~= Seq::<FileEventView>::empty());
        r
    }

    /// Number of stored snapshots.
    pub fn snapshot_count(&self) -> (r: usize)
        ensures
            r == self.rows().len(),
    {
        self.snapshots.len()
    }

    /// Stores a snapshot; fails, changing nothing, when its id is already stored.
    pub fn insert_snapshot(&mut self, snapshot: &Snapshot) -> (r: Result<(), DatabaseError>)
        requires
            old(self).well_formed(),
        ensures
            final(self).well_formed(),
            final(self).events() == old(self).events(),
            r is Err <==> id_stored(old(self).rows(), snapshot.id@),
            r matches Err(e) ==> (e matches DatabaseError::DuplicateId { id } && id@ == snapshot.id@),
            r is Err ==> final(self).rows() == old(self).rows(),
            r is Ok ==> placed_by_time(old(self).rows(), snapshot@, final(self).rows()),
    {
        let n = self.snapshots.len();
        let mut i: usize = 0;
        while i < n
            invariant
                n == self.snapshots.len(),
                i <= n,
                self.rows() == old(self).rows(),
                self.events() == old(self).events(),
                self.well_formed(),
                forall|j: int| 0 <= j < i ==> self.rows()[j].id != snapshot.id@,
            decreases n - i,
        {
            if self.snapshots[i].id == snapshot.id {
                assert(self.rows()[i as int].id == snapshot.id@);
                return Err(DatabaseError::DuplicateId { id: snapshot.id.clone() });
            }
            i = i + 1;
        }
        let ghost old_rows = self.rows();
        let mut p: usize = 0;
        while p < n && self.snapshots[p].timestamp > snapshot.timestamp
            invariant
                n == self.snapshots.len(),
                p <= n,
                self.rows() == old_rows,
                forall|j: int| 0 <= j < p ==> old_rows[j].timestamp > snapshot.timestamp,
            decreases n - p,
        {
            p = p + 1;
        }
        assert(forall|j: int| p <= j < n ==> old_rows[j].timestamp <= snapshot.timestamp) by {
            if p < n {
                assert(old_rows[p as int].timestamp <= snapshot.timestamp);
            }
        }
        proof {
            lemma_snapshot_placed(old_rows, snapshot@, p as int);
        }
        self.snapshots.insert(p, snapshot.duplicate());
        assert(self.rows() =~= old_rows.insert(p as int, snapshot@));
        Ok(())
    }

    /// The stored snapshot with the given id, if any.
    pub fn get_snapshot(&self, id: &str) -> (r: Option<Snapshot>)
        ensures
            r is None <==> !id_stored(self.rows(), id@),
            r matches Some(s) ==> s@.id == id@ && exists|j: int| 0 <= j < self.rows().len() && self.rows()[j] == s@,
    {
        let n = self.snapshots.len();
        let mut i: usize = 0;
        while i < n
            invariant
                n == self.snapshots.len(),
                i <= n,
                forall|j: int| 0 <= j < i ==> self.rows()[j].id != id@,
            decreases n - i,
        {
            if str_eq(self.snapshots[i].id.as_str(), id) {
                let s = self.snapshots[i].duplicate();
                assert(self.rows()[i as int] == s@);
                assert(s@.id == id@);
                return Some(s);
            }
            i = i + 1;
        }
        None
    }

    /// The `limit` newest snapshots, newest first.
    pub fn get_recent_snapshots(&self, limit: u32) -> (r: Vec<Snapshot>)
        ensures
            snapshot_views(r@) == retained(self.rows(), limit as nat),
    {
        let n = self.snapshots.len();
        let k: usize = if (limit as usize) < n { limit as usize } else { n };
        let mut out: Vec<Snapshot> = Vec::new();
        let mut i: usize = 0;
        while i < k
            invariant
                n == self.snapshots.len(),
                k <= n,
                i <= k,
                self.rows().len() == n,
                snapshot_views(out@) == self.rows().take(i as int),
            decreases k - i,
        {
            let s = self.snapshots[i].duplicate();
            let ghost before = out@;
            assert(snapshot_views(before) == self.rows().take(i as int));
            out.push(s);
            assert(out@ == before.push(s));
            assert(self.rows()[i as int] == s@);
            assert(snapshot_views(out@) =~= snapshot_views(before).push(s@));
            assert(self.rows().take(i + 1) =~= self.rows().take(i as int).push(self.rows()[i as int]));
            i = i + 1;
        }
        assert(self.rows().take(n as int) =~= self.rows());
        out
    }

    /// Keeps only the `max_snapshots` newest snapshots; returns how many were removed.
    pub fn cleanup_old_snapshots(&mut self, max_snapshots: u32) -> (r: u64)
        requires
            old(self).well_formed(),
        ensures
            final(self).well_formed(),
            final(self).events() == old(self).events(),
            final(self).rows() == retained(old(self).rows(), max_snapshots as nat),
            r == old(self).rows().len() - retained(old(self).rows(), max_snapshots as nat).len(),
    {
        let n = self.snapshots.len();
        let ghost before = self.rows();
        if (max_snapshots as usize) < n {
            self.snapshots.truncate(max_snapshots as usize);
            assert(self.rows() =~= before.take(max_snapshots as int));
            (n - max_snapshots as usize) as u64
        } else {
            0
        }
    }

    /// Stores a file event; fails, changing nothing, when its id is already stored.
    pub fn insert_file_event(&mut self, event: &FileEvent) -> (r: Result<(), DatabaseError>)
        requires
            old(self).well_formed(),
        ensures
            final(self).well_formed(),
            final(self).rows() == old(self).rows(),
            r is Err <==> exists|j: int| 0 <= j < old(self).events().len() && old(self).events()[j].id == event.id@,
            r is Err ==> final(self).events() == old(self).events(),
            r is Ok ==> event_placed_by_time(old(self).events(), event@, final(self).events()),
    {
        let n = self.file_events.len();
        let mut i: usize = 0;
        while i < n
            invariant
                n == self.file_events.len(),
                i <= n,
                self.rows() == old(self).rows(),
                self.events() == old(self).events(),
                self.well_formed(),
                forall|j: int| 0 <= j < i ==> self.events()[j].id != event.id@,
            decreases n - i,
        {
            if self.file_events[i].id == event.id {
                assert(self.events()[i as int].id == event.id@);
                return Err(DatabaseError::DuplicateId { id: event.id.clone() });
            }
            i = i + 1;
        }
        let ghost old_rows = self.events();
        let mut p: usize = 0;
        while p < n && self.file_events[p].timestamp > event.timestamp
            invariant
                n == self.file_events.len(),
                p <= n,
                self.events() == old_rows,
                forall|j: int| 0 <= j < p ==> old_rows[j].timestamp > event.timestamp,
            decreases n - p,
        {
            p = p + 1;
        }
        assert(forall|j: int| p <= j < n ==> old_rows[j].timestamp <= event.timestamp) by {
            if p < n {
                assert(old_rows[p as int].timestamp <= event.timestamp);
            }
        }
        proof {
            lemma_event_placed(old_rows, event@, p as int);
        }
        self.file_events.insert(p, event.duplicate());
        assert(self.events() =~= old_rows.insert(p as int, event@));
        Ok(())
    }

    /// The file events with a timestamp in `[since, until]`, newest first.
    pub fn get_file_events(&self, since: i64, until: i64) -> (r: Vec<FileEvent>)
        ensures
            event_views(r@) == events_within(self.events(), since, until),
    {
        let n = self.file_events.len();
        let mut out: Vec<FileEvent> = Vec::new();
        let mut i: usize = 0;
        while i < n
            invariant
                n == self.file_events.len(),
                i <= n,
                event_views(out@) == events_within(self.events().take(i as int), since, until),
            decreases n - i,
        {
            let ghost prefix = self.events().take(i + 1);
            assert(prefix.drop_last() =~= self.events().take(i as int));
            let e = &self.file_events[i];
            if since <= e.timestamp && e.timestamp <= until {
                out.push(e.duplicate());
            }
            assert(event_views(out@) =~= events_within(prefix, since, until));
            i = i + 1;
        }
        assert(self.events().take(n as int) =~= self.events());
        out
    }

    /// Removes the file events older than `older_than`; returns how many were removed.
    pub fn cleanup_old_events(&mut self, older_than: i64) -> (r: u64)
        requires
            old(self).well_formed(),
        ensures
            final(self).well_formed(),
            final(self).rows() == old(self).rows(),
            events_trimmed(old(self).events(), older_than, final(self).events()),
            r == old(self).events().len() - final(self).events().len(),
    {
        let ghost before = self.events();
        let n = self.file_events.len();
        let mut p: usize = 0;
        while p < n && self.file_events[p].timestamp >= older_than
            invariant
                n == self.file_events.len(),
                p <= n,
                self.events() == before,
                forall|j: int| 0 <= j < p ==> before[j].timestamp >= older_than,
            decreases n - p,
        {
            p = p + 1;
        }
        assert(forall|j: int| p <= j < n ==> before[j].timestamp < older_than) by {
            if p < n {
                assert(before[p as int].timestamp < older_than);
            }
        }
        self.file_events.truncate(p);
        assert(self.events() =~= before.take(p as int));
        (n - p) as u64
    }
}

/// Relies on uuid::Uuid::new_v4 and its `Display`: a fresh random identifier
/// as text. Nothing is promised of its value.
#[verifier::external_body]
pub(crate) fn fresh_id() -> (r: String) {
    uuid::Uuid::new_v4().to_string()
}

/// A snapshot with a fresh id, the current time and no context.
pub fn new_snapshot() -> (r: Snapshot)
    ensures
        r@.active_file is None,
        r@.active_directory is None,
        r@.git_branch is None,
        r@.notes is None,
{
    Snapshot {
        id: fresh_id(),
        timestamp: crate::clock::now_micros(),
        active_file: None,
        active_directory: None,
        git_branch: None,
        notes: None,
    }
}

/// A file event for `path` with a fresh id and the current time.
pub fn new_file_event(path: String, event_type: FileEventType) -> (r: FileEvent)
    ensures
        r@.path == path@,
        r@.event_type == event_type,
{
    FileEvent { id: fresh_id(), timestamp: crate::clock::now_micros(), path, event_type }
}

/// Activity aggregates over a time range.
#[derive(Debug, Clone)]
pub struct ActivitySummary {
    pub total_events: u64,
    pub files_modified: u64,
    pub files_created: u64,
    pub most_active_directory: Option<String>,
}

/// `a` is where the leading '/' characters of `p` end.
pub open spec fn segment_start(p: Seq<char>, a: int) -> bool {
    &&& 0 <= a <= p.len()
    &&& forall|j: int| 0 <= j < a ==> p[j] == '/'
    &&& (a == p.len() || p[a] != '/')
}

/// `b` is where the segment starting at `a` ends: the next '/' or the end.
pub open spec fn segment_end(p: Seq<char>, a: int, b: int) -> bool {
    &&& a <= b <= p.len()
    &&& forall|j: int| a <= j < b ==> p[j] != '/'
    &&& (b == p.len() || p[b] == '/')
}

/// The directory key of a path: its first segment, the text after any
/// leading '/' up to the next '/' (the whole rest when there is none).
pub open spec fn dir_key(p: Seq<char>) -> Seq<char> {
    let a = choose|a: int| segment_start(p, a);
    let b = choose|b: int| segment_end(p, a, b);
    p.subrange(a, b)
}

/// How many events of `ev` satisfy `f`.
pub open spec fn count_where(ev: Seq<FileEventView>, f: spec_fn(FileEventView) -> bool) -> nat
    decreases ev.len(),
{
    if ev.len() == 0 {
        0
    } else {
        count_where(ev.drop_last(), f) + if f(ev.last()) { 1nat } else { 0nat }
    }
}

pub open spec fn in_window(e: FileEventView, since: i64, until: i64) -> bool {
    since <= e.timestamp < until
}

pub open spec fn window_total(ev: Seq<FileEventView>, since: i64, until: i64) -> nat {
    count_where(ev, |e: FileEventView| in_window(e, since, until))
}

pub open spec fn window_kind(ev: Seq<FileEventView>, since: i64, until: i64, kind: FileEventType) -> nat {
    count_where(ev, |e: FileEventView| in_window(e, since, until) && e.event_type == kind)
}

pub open spec fn window_key(ev: Seq<FileEventView>, since: i64, until: i64, key: Seq<char>) -> nat {
    count_where(ev, |e: FileEventView| in_window(e, since, until) && dir_key(e.path) == key)
}

proof fn lemma_count_where_step(ev: Seq<FileEventView>, i: int, f: spec_fn(FileEventView) -> bool)
    requires
        0 <= i < ev.len(),
    ensures
        count_where(ev.take(i + 1), f) == count_where(ev.take(i), f) + if f(ev[i]) { 1nat } else { 0nat },
        count_where(ev.take(i), f) <= i,
    decreases i,
{
    assert(ev.take(i + 1).drop_last() =~= ev.take(i));
    if i > 0 {
        lemma_count_where_step(ev, i - 1, f);
    } else {
        assert(ev.take(0).len() == 0);
    }
}

proof fn lemma_count_where_none(ev: Seq<FileEventView>, f: spec_fn(FileEventView) -> bool)
    requires
        forall|j: int| 0 <= j < ev.len() ==> !f(#[trigger] ev[j]),
    ensures
        count_where(ev, f) == 0,
    decreases ev.len(),
{
    if ev.len() > 0 {
        let rest = ev.drop_last();
        assert forall|j: int| 0 <= j < rest.len() implies !f(#[trigger] rest[j]) by {
            assert(rest[j] == ev[j]);
        }
        lemma_count_where_none(rest, f);
        assert(!f(ev[ev.len() - 1]));
    }
}

/// With no file event in `[since, until)`, every count over that range is zero.
pub proof fn empty_window_law(ev: Seq<FileEventView>, since: i64, until: i64)
    requires
        forall|j: int| 0 <= j < ev.len() ==> !in_window(#[trigger] ev[j], since, until),
    ensures
        window_total(ev, since, until) == 0,
        window_kind(ev, since, until, FileEventType::Modified) == 0,
        window_kind(ev, since, until, FileEventType::Created) == 0,
{
    lemma_count_where_none(ev, |e: FileEventView| in_window(e, since, until));
    lemma_count_where_none(ev, |e: FileEventView| in_window(e, since, until) && e.event_type == FileEventType::Modified);
    lemma_count_where_none(ev, |e: FileEventView| in_window(e, since, until) && e.event_type == FileEventType::Created);
}

/// The directory key of `path`.
pub fn dir_key_of(path: &str) -> (r: String)
    ensures
        r@ == dir_key(path@),
{
    let ghost p = path@;
    let n = path.unicode_len();
    let mut a: usize = 0;
    while a < n && path.get_char(a) == '/'
        invariant
            n == p.len(),
            p == path@,
            a <= n,
            forall|j: int| 0 <= j < a ==> p[j] == '/',
        decreases n - a,
    {
        a = a + 1;
    }
    let mut b: usize = a;
    while b < n && path.get_char(b) != '/'
        invariant
            n == p.len(),
            p == path@,
            a <= b <= n,
            forall|j: int| a <= j < b ==> p[j] != '/',
        decreases n - b,
    {
        b = b + 1;
    }
    proof {
        assert(segment_start(p, a as int));
        let a2 = choose|a2: int| segment_start(p, a2);
        if a2 < a {
            assert(p[a2] == '/');
        } else if a2 > a {
            assert(p[a as int] == '/');
        }
        assert(a2 == a);
        assert(segment_end(p, a as int, b as int));
        let b2 = choose|b2: int| segment_end(p, a as int, b2);
        if b2 < b {
            assert(p[b2] != '/');
        } else if b2 > b {
            assert(p[b as int] != '/');
        }
        assert(b2 == b);
    }
    String::from_str(path.substring_char(a, b))
}

impl Database {
    /// How many events in `[since, until)` have the directory key `key`.
    fn count_key(&self, since: i64, until: i64, key: &str) -> (r: u64)
        ensures
            r == window_key(self.events(), since, until, key@),
    {
        let ghost ev = self.events();
        let ghost f = |e: FileEventView| in_window(e, since, until) && dir_key(e.path) == key@;
        let n = self.file_events.len();
        let mut c: u64 = 0;
        let mut i: usize = 0;
        while i < n
            invariant
                n == self.file_events.len(),
                ev == self.events(),
                ev.len() == n,
                i <= n,
                f == (|e: FileEventView| in_window(e, since, until) && dir_key(e.path) == key@),
                c == count_where(ev.take(i as int), f),
            decreases n - i,
        {
            proof {
                lemma_count_where_step(ev, i as int, f);
            }
            let e = &self.file_events[i];
            assert(ev[i as int] == e@);
            if since <= e.timestamp && e.timestamp < until {
                let k = dir_key_of(e.path.as_str());
                if str_eq(k.as_str(), key) {
                    c = c + 1;
                }
            }
            i = i + 1;
        }
        assert(ev.take(n as int) =~= ev);
        c
    }

    /// Event counts in `[since, until)`: all events, modifications, creations,
    /// and a directory key with the most events (`None` when there are none).
    pub fn get_activity_summary(&self, since: i64, until: i64) -> (r: ActivitySummary)
        ensures
            r.total_events == window_total(self.events(), since, until),
            r.files_modified == window_kind(self.events(), since, until, FileEventType::Modified),
            r.files_created == window_kind(self.events(), since, until, FileEventType::Created),
            r.most_active_directory is None <==> r.total_events == 0,
            r.most_active_directory matches Some(k) ==> {
                &&& exists|j: int|
                    0 <= j < self.events().len() && in_window(self.events()[j], since, until) && dir_key(
                        self.events()[j].path,
                    ) == k@
                &&& forall|j: int|
                    0 <= j < self.events().len() && in_window(self.events()[j], since, until) ==> window_key(
                        self.events(),
                        since,
                        until,
                        dir_key(self.events()[j].path),
                    ) <= window_key(self.events(), since, until, k@)
            },
    {
        let ghost ev = self.events();
        let ghost ft = |e: FileEventView| in_window(e, since, until);
        let ghost fm = |e: FileEventView| in_window(e, since, until) && e.event_type == FileEventType::Modified;
        let ghost fc = |e: FileEventView| in_window(e, since, until) && e.event_type == FileEventType::Created;
        let n = self.file_events.len();
        let mut total: u64 = 0;
        let mut modified: u64 = 0;
        let mut created: u64 = 0;
        let mut best: Option<String> = None;
        let mut best_count: u64 = 0;
        let mut i: usize = 0;
        while i < n
            invariant
                n == self.file_events.len(),
                ev == self.events(),
                ev.len() == n,
                i <= n,
                ft == (|e: FileEventView| in_window(e, since, until)),
                fm == (|e: FileEventView| in_window(e, since, until) && e.event_type == FileEventType::Modified),
                fc == (|e: FileEventView| in_window(e, since, until) && e.event_type == FileEventType::Created),
                total == count_where(ev.take(i as int), ft),
                modified == count_where(ev.take(i as int), fm),
                created == count_where(ev.take(i as int), fc),
                best is None <==> total == 0,
                best is None ==> forall|j: int| 0 <= j < i ==> !in_window(ev[j], since, until),
                best matches Some(k) ==> {
                    &&& best_count == window_key(ev, since, until, k@)
                    &&& exists|j: int| 0 <= j < i && in_window(ev[j], since, until) && dir_key(ev[j].path) == k@
                },
                forall|j: int|
                    0 <= j < i && in_window(ev[j], since, until) ==> window_key(ev, since, until, dir_key(ev[j].path))
                        <= best_count,
            decreases n - i,
        {
            proof {
                lemma_count_where_step(ev, i as int, ft);
                lemma_count_where_step(ev, i as int, fm);
                lemma_count_where_step(ev, i as int, fc);
            }
            let e = &self.file_events[i];
            assert(ev[i as int] == e@);
            if since <= e.timestamp && e.timestamp < until {
                total = total + 1;
                if e.event_type == FileEventType::Modified {
                    modified = modified + 1;
                }
                if e.event_type == FileEventType::Created {
                    created = created + 1;
                }
                let key = dir_key_of(e.path.as_str());
                let c = self.count_key(since, until, key.as_str());
                assert(key@ == dir_key(ev[i as int].path));
                assert(c == window_key(ev, since, until, dir_key(ev[i as int].path)));
                if best.is_none() || c > best_count {
                    best = Some(key);
                    best_count = c;
                }
                assert(window_key(ev, since, until, dir_key(ev[i as int].path)) <= best_count);
            }
            assert forall|j: int|
                0 <= j < i + 1 && in_window(ev[j], since, until) implies window_key(
                ev,
                since,
                until,
                dir_key(ev[j].path),
            ) <= best_count by {}
            i = i + 1;
        }
        assert(ev.take(n as int) =~= ev);
        ActivitySummary {
            total_events: total,
            files_modified: modified,
            files_created: created,
            most_active_directory: best,
        }
    }
}

/// How many of `snaps` are younger than `span` at `now`.
pub open spec fn younger_count(snaps: Seq<SnapshotView>, now: i64, span: i64) -> nat
    decreases snaps.len(),
{
    if snaps.len() == 0 {
        0
    } else {
        younger_count(snaps.drop_last(), now, span) + if now - snaps.last().timestamp < span { 1nat } else { 0nat }
    }
}

/// How many snapshots are younger than `span` microseconds at `now`.
pub fn count_younger(snapshots: &Vec<Snapshot>, now: i64, span: i64) -> (r: usize)
    ensures
        r == younger_count(snapshot_views(snapshots@), now, span),
{
    let ghost all = snapshot_views(snapshots@);
    let n = snapshots.len();
    let mut c: usize = 0;
    let mut i: usize = 0;
    while i < n
        invariant
            n == snapshots.len(),
            all == snapshot_views(snapshots@),
            i <= n,
            c <= i,
            c == younger_count(all.take(i as int), now, span),
        decreases n - i,
    {
        assert(all.take(i + 1).drop_last() =~= all.take(i as int));
        assert(all[i as int] == snapshots@[i as int]@);
        if (now as i128) - (snapshots[i].timestamp as i128) < span as i128 {
            c = c + 1;
        }
        i = i + 1;
    }
    assert(all.take(n as int) =~= all);
    c
}

proof fn lemma_placed_keeps_ids(rows: Seq<SnapshotView>, row: SnapshotView, out: Seq<SnapshotView>)
    requires
        placed_by_time(rows, row, out),
    ensures
        out.len() == rows.len() + 1,
        id_stored(out, row.id),
        forall|id: Seq<char>| id_stored(rows, id) ==> id_stored(out, id),
{
    let p = choose|p: int|
        #![trigger rows.insert(p, row)]
        0 <= p <= rows.len() && (forall|j: int| 0 <= j < p ==> rows[j].timestamp > row.timestamp) && (forall|j: int|
            p <= j < rows.len() ==> rows[j].timestamp <= row.timestamp) && out == rows.insert(p, row);
    assert(out[p] == row);
    assert forall|id: Seq<char>| id_stored(rows, id) implies id_stored(out, id) by {
        let j = choose|j: int| 0 <= j < rows.len() && #[trigger] rows[j].id == id;
        if j < p {
            assert(out[j] == rows[j]);
        } else {
            assert(out[j + 1] == rows[j]);
        }
    }
}

impl Database {
    /// Stores each snapshot in order, skipping those whose id is already
    /// stored (or repeats an earlier one). Returns the stored and skipped
    /// counts; afterwards every id of `snapshots` is stored.
    pub fn import_snapshots(&mut self, snapshots: &Vec<Snapshot>) -> (r: (u64, u64))
        requires
            old(self).well_formed(),
        ensures
            final(self).well_formed(),
            final(self).events() == old(self).events(),
            r.0 + r.1 == snapshots@.len(),
            final(self).rows().len() == old(self).rows().len() + r.0,
            forall|k: int| 0 <= k < snapshots@.len() ==> id_stored(final(self).rows(), #[trigger] snapshots@[k].id@),
            forall|id: Seq<char>| id_stored(old(self).rows(), id) ==> id_stored(final(self).rows(), id),
    {
        let n = snapshots.len();
        let mut imported: u64 = 0;
        let mut skipped: u64 = 0;
        let mut i: usize = 0;
        while i < n
            invariant
                n == snapshots.len(),
                i <= n,
                imported + skipped == i,
                self.well_formed(),
                self.events() == old(self).events(),
                self.rows().len() == old(self).rows().len() + imported,
                forall|k: int| 0 <= k < i ==> id_stored(self.rows(), #[trigger] snapshots@[k].id@),
                forall|id: Seq<char>| id_stored(old(self).rows(), id) ==> id_stored(self.rows(), id),
            decreases n - i,
        {
            let ghost before = self.rows();
            match self.insert_snapshot(&snapshots[i]) {
                Ok(()) => {
                    proof {
                        lemma_placed_keeps_ids(before, snapshots@[i as int]@, self.rows());
                    }
                    imported = imported + 1;
                },
                Err(_) => {
                    skipped = skipped + 1;
                },
            }
            i = i + 1;
        }
        (imported, skipped)
    }
}

} // verus!
