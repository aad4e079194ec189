//! Snapshot capture and retention, and context derivation.

use vstd::prelude::*;
use vstd::string::*;

use crate::db::{
    fresh_id, id_stored, placed_by_time, retained, snapshot_views, Database, Snapshot, SnapshotView,
};
use crate::error::DatabaseError;
use crate::text::{clone_opt, count_distinct, opt_view, opt_views, present_values};

verus! {

/// Current context information that can be captured.
#[derive(Debug, Clone, Default)]
pub struct ContextInfo {
    pub active_file: Option<String>,
    pub active_directory: Option<String>,
    pub git_branch: Option<String>,
    pub git_repo_root: Option<String>,
}

/// The snapshot `s` holds the fields of context `c` and the notes `notes`.
pub open spec fn captured_from(s: SnapshotView, c: ContextInfo, notes: Option<Seq<char>>) -> bool {
    &&& s.active_file == opt_view(c.active_file)
    &&& s.active_directory == opt_view(c.active_directory)
    &&& s.git_branch == opt_view(c.git_branch)
    &&& s.notes == notes
}

/// `c` is the context of `path`, given whether it is a directory or a file.
pub open spec fn context_of(c: ContextInfo, path: Seq<char>, is_dir: bool, is_file: bool) -> bool {
    &&& opt_view(c.active_directory) == Some(context_dir(path, is_dir))
    &&& opt_view(c.active_file) == if is_file { Some(path) } else { None }
}

/// A snapshot captured from the context of a directory names no file and
/// names the directory itself; one captured from the context of a file names
/// the file and the file's parent.
pub proof fn capture_context_law(
    path: Seq<char>,
    is_dir: bool,
    is_file: bool,
    c: ContextInfo,
    notes: Option<Seq<char>>,
    s: SnapshotView,
)
    requires
        !(is_dir && is_file),
        context_of(c, path, is_dir, is_file),
        captured_from(s, c, notes),
    ensures
        is_dir ==> s.active_file is None && s.active_directory == Some(path),
        is_file ==> s.active_file == Some(path) && s.active_directory == Some(
            match parent_path(path) {
                Some(q) => q,
                None => Seq::empty(),
            },
        ),
{
}

/// Captures context snapshots into a store.
pub struct SnapshotService<'a> {
    db: &'a mut Database,
}

impl<'a> SnapshotService<'a> {
    /// The store written into.
    pub closed spec fn database(&self) -> Database {
        *self.db
    }

    /// A service writing into `db`.
    pub fn new(db: &'a mut Database) -> (r: SnapshotService<'a>)
        ensures
            r.database() == *old(db),
    {
        SnapshotService { db }
    }

    /// Builds a snapshot of `context` and `notes` with a fresh id and the
    /// current time, stores it with one write and returns it. Fails, storing
    /// nothing, when the store refuses the row.
    pub fn capture(&mut self, context: &ContextInfo, notes: Option<String>) -> (r: Result<Snapshot, DatabaseError>)
        requires
            old(self).database().well_formed(),
        ensures
            final(self).database().well_formed(),
            final(self).database().events() == old(self).database().events(),
            exists|s: SnapshotView|
                {
                    &&& captured_from(s, *context, opt_view(notes))
                    &&& (r is Ok <==> !id_stored(old(self).database().rows(), s.id))
                    &&& (r matches Ok(x) ==> x@ == s && placed_by_time(
                        old(self).database().rows(),
                        s,
                        final(self).database().rows(),
                    ))
                    &&& (r is Err ==> final(self).database().rows() == old(self).database().rows())
                    &&& (r matches Err(e) ==> (e matches DatabaseError::DuplicateId { id } && id@ == s.id))
                },
    {
        let ghost nv = opt_view(notes);
        let snapshot = Snapshot {
            id: fresh_id(),
            timestamp: crate::clock::now_micros(),
            active_file: clone_opt(&context.active_file),
            active_directory: clone_opt(&context.active_directory),
            git_branch: clone_opt(&context.git_branch),
            notes,
        };
        let ghost s = snapshot@;
        assert(captured_from(s, *context, nv));
        match self.db.insert_snapshot(&snapshot) {
            Ok(()) => {
                assert(!id_stored(old(self).database().rows(), s.id));
                Ok(snapshot)
            },
            Err(e) => {
                assert(id_stored(old(self).database().rows(), s.id));
                Err(e)
            },
        }
    }

    /// The `limit` newest snapshots, newest first.
    pub fn get_recent(&self, limit: u32) -> (r: Vec<Snapshot>)
        ensures
            snapshot_views(r@) == retained(self.database().rows(), limit as nat),
    {
        self.db.get_recent_snapshots(limit)
    }

    /// The stored snapshot with the given id, if any.
    pub fn get(&self, id: &str) -> (r: Option<Snapshot>)
        ensures
            r is None <==> !id_stored(self.database().rows(), id@),
            r matches Some(s) ==> s@.id == id@ && exists|j: int|
                0 <= j < self.database().rows().len() && self.database().rows()[j] == s@,
    {
        let r = self.db.get_snapshot(id);
        proof {
            if let Some(s) = &r {
                let j = choose|j: int| 0 <= j < self.db.rows().len() && self.db.rows()[j] == s@;
                assert(self.database().rows()[j] == s@);
            }
        }
        r
    }

    /// Keeps only the `max_snapshots` newest snapshots; returns how many were removed.
    pub fn cleanup(&mut self, max_snapshots: u32) -> (r: u64)
        requires
            old(self).database().well_formed(),
        ensures
            final(self).database().well_formed(),
            final(self).database().events() == old(self).database().events(),
            final(self).database().rows() == retained(old(self).database().rows(), max_snapshots as nat),
            r == old(self).database().rows().len() - final(self).database().rows().len(),
    {
        self.db.cleanup_old_snapshots(max_snapshots)
    }
}

/// What one polling cycle of the watch loop did.
#[derive(Debug, Clone, Copy)]
pub struct BatchOutcome {
    /// Snapshots stored
    pub captured: u64,
    /// Captures the store refused
    pub failed: u64,
    /// Snapshots removed by retention afterwards
    pub removed: u64,
}

/// `states` runs from `rows` to its last entry, each step placing the next
/// row of `added` by time.
pub open spec fn placement_chain(rows: Seq<SnapshotView>, added: Seq<SnapshotView>, states: Seq<Seq<SnapshotView>>) -> bool {
    &&& states.len() == added.len() + 1
    &&& states[0] == rows
    &&& forall|k: int| 0 <= k < added.len() ==> placed_by_time(states[k], #[trigger] added[k], states[k + 1])
}

/// `out` is `rows` with the rows of `added` placed by time, one after another.
pub open spec fn placed_in_order(rows: Seq<SnapshotView>, added: Seq<SnapshotView>, out: Seq<SnapshotView>) -> bool {
    exists|states: Seq<Seq<SnapshotView>>| #[trigger] placement_chain(rows, added, states) && states.last() == out
}

/// `s` was captured, without notes, from one of `contexts`.
pub open spec fn from_some_context(s: SnapshotView, contexts: Seq<ContextInfo>) -> bool {
    exists|j: int| 0 <= j < contexts.len() && captured_from(s, #[trigger] contexts[j], None)
}

impl<'a> SnapshotService<'a> {
    /// One polling cycle after the batch is resolved to contexts: captures
    /// each context in order, then keeps only the `max_snapshots` newest.
    /// A capture fails only when its fresh id is already stored, so the first
    /// capture into an empty store always succeeds.
    pub fn capture_batch(&mut self, contexts: &Vec<ContextInfo>, max_snapshots: u32) -> (r: BatchOutcome)
        requires
            old(self).database().well_formed(),
        ensures
            final(self).database().well_formed(),
            final(self).database().events() == old(self).database().events(),
            r.captured + r.failed == contexts@.len(),
            exists|added: Seq<SnapshotView>, merged: Seq<SnapshotView>|
                {
                    &&& added.len() == r.captured
                    &&& forall|k: int| 0 <= k < added.len() ==> #[trigger] from_some_context(added[k], contexts@)
                    &&& placed_in_order(old(self).database().rows(), added, merged)
                    &&& final(self).database().rows() == retained(merged, max_snapshots as nat)
                    &&& r.removed == merged.len() - final(self).database().rows().len()
                },
            old(self).database().rows().len() == 0 && contexts@.len() > 0 ==> r.captured >= 1,
    {
        let ghost start = self.database().rows();
        let ghost mut added: Seq<SnapshotView> = Seq::empty();
        let ghost mut states: Seq<Seq<SnapshotView>> = seq![start];
        let n = contexts.len();
        let mut captured: u64 = 0;
        let mut failed: u64 = 0;
        let mut i: usize = 0;
        while i < n
            invariant
                n == contexts.len(),
                i <= n,
                captured + failed == i,
                start == old(self).database().rows(),
                self.database().well_formed(),
                self.database().events() == old(self).database().events(),
                added.len() == captured,
                forall|k: int| 0 <= k < added.len() ==> #[trigger] from_some_context(added[k], contexts@),
                placement_chain(start, added, states),
                states.last() == self.database().rows(),
                start.len() == 0 && i > 0 ==> captured >= 1,
            decreases n - i,
        {
            let ghost before = self.database().rows();
            let ghost prev = added;
            let ghost prev_states = states;
            match self.capture(&contexts[i], None) {
                Ok(x) => {
                    proof {
                        assert(placed_by_time(before, x@, self.database().rows()));
                        assert(captured_from(x@, contexts@[i as int], None));
                        assert(from_some_context(x@, contexts@));
                        added = prev.push(x@);
                        states = prev_states.push(self.database().rows());
                        assert forall|k: int| 0 <= k < added.len() implies placed_by_time(
                            states[k],
                            #[trigger] added[k],
                            states[k + 1],
                        ) by {
                            if k < prev.len() {
                                assert(added[k] == prev[k]);
                                assert(states[k] == prev_states[k]);
                                assert(states[k + 1] == prev_states[k + 1]);
                            } else {
                                assert(states[k] == before);
                            }
                        }
                        assert forall|k: int| 0 <= k < added.len() implies #[trigger] from_some_context(added[k], contexts@) by {
                            if k < prev.len() {
                                assert(added[k] == prev[k]);
                            }
                        }
                    }
                    captured = captured + 1;
                },
                Err(_) => {
                    proof {
                        if start.len() == 0 && i == 0 {
                            assert(before == start);
                            assert(forall|id: Seq<char>| !id_stored(before, id));
                        }
                    }
                    failed = failed + 1;
                },
            }
            i = i + 1;
        }
        let ghost merged = self.database().rows();
        let removed = self.cleanup(max_snapshots);
        assert(placement_chain(start, added, states));
        assert(placed_in_order(start, added, merged));
        BatchOutcome { captured, failed, removed }
    }
}

/// The parent of a path: the path without its last component, if it has one.
pub uninterp spec fn parent_path(p: Seq<char>) -> Option<Seq<char>>;

/// Relies on std::path::Path::parent: the path without its final component,
/// `None` for a root or an empty path.
#[verifier::external_body]
fn path_parent(path: &str) -> (r: Option<String>)
    ensures
        opt_view(r) == parent_path(path@),
{
    std::path::Path::new(path).parent().map(|p| p.to_string_lossy().into_owned())
}

/// The directory of the context of `path`: the path itself for a directory,
/// else its parent (empty when it has none).
pub open spec fn context_dir(path: Seq<char>, is_dir: bool) -> Seq<char> {
    if is_dir {
        path
    } else {
        match parent_path(path) {
            Some(q) => q,
            None => Seq::empty(),
        }
    }
}

/// The directory that a context for `path` is about.
pub fn context_directory(path: &str, is_dir: bool) -> (r: String)
    ensures
        r@ == context_dir(path@, is_dir),
{
    if is_dir {
        String::from_str(path)
    } else {
        match path_parent(path) {
            Some(q) => q,
            None => String::new(),
        }
    }
}

/// The context of `path`, given whether it is a directory or a file and what
/// version control reported for its directory.
pub fn context_from_path(
    path: &str,
    is_dir: bool,
    is_file: bool,
    git_branch: Option<String>,
    git_repo_root: Option<String>,
) -> (r: ContextInfo)
    ensures
        context_of(r, path@, is_dir, is_file),
        opt_view(r.git_branch) == opt_view(git_branch),
        opt_view(r.git_repo_root) == opt_view(git_repo_root),
{
    let dir = context_directory(path, is_dir);
    let active_file = if is_file { Some(String::from_str(path)) } else { None };
    ContextInfo { active_file, active_directory: Some(dir), git_branch, git_repo_root }
}

/// The text with leading and trailing whitespace removed.
pub uninterp spec fn trimmed(s: Seq<char>) -> Seq<char>;

/// Relies on str::trim: removes leading and trailing whitespace.
#[verifier::external_body]
fn trim_text(s: &str) -> (r: String)
    ensures
        r@ == trimmed(s@),
{
    s.trim().to_string()
}

/// The value a version-control query reported: its trimmed output when it
/// succeeded with a non-empty one, else nothing.
pub fn git_output_value(success: bool, stdout: &str) -> (r: Option<String>)
    ensures
        opt_view(r) == if success && trimmed(stdout@).len() > 0 { Some(trimmed(stdout@)) } else { None },
{
    if !success {
        return None;
    }
    let t = trim_text(stdout);
    if t.as_str().unicode_len() > 0 {
        Some(t)
    } else {
        None
    }
}

/// Summary of activity based on snapshots.
#[derive(Debug, Clone)]
pub struct ActivitySnapshot {
    pub total_snapshots: usize,
    pub unique_directories: usize,
    pub unique_branches: usize,
    pub files_touched: usize,
}

/// How many of `snaps` name an active file.
pub open spec fn with_file_count(snaps: Seq<SnapshotView>) -> nat
    decreases snaps.len(),
{
    if snaps.len() == 0 {
        0
    } else {
        with_file_count(snaps.drop_last()) + if snaps.last().active_file is Some { 1nat } else { 0nat }
    }
}

/// Counts of snapshots, distinct directories, distinct branches and snapshots naming a file.
pub fn summarize_recent_activity(snapshots: &Vec<Snapshot>) -> (r: ActivitySnapshot)
    ensures
        r.total_snapshots == snapshots@.len(),
        r.unique_directories == present_values(snapshot_views(snapshots@).map_values(|s: SnapshotView| s.active_directory)).len(),
        r.unique_branches == present_values(snapshot_views(snapshots@).map_values(|s: SnapshotView| s.git_branch)).len(),
        r.files_touched == with_file_count(snapshot_views(snapshots@)),
{
    let ghost snaps = snapshot_views(snapshots@);
    let mut dirs: Vec<Option<String>> = Vec::new();
    let mut branches: Vec<Option<String>> = Vec::new();
    let mut files: usize = 0;
    let n = snapshots.len();
    let mut i: usize = 0;
    while i < n
        invariant
            n == snapshots.len(),
            snaps == snapshot_views(snapshots@),
            i <= n,
            files <= i,
            opt_views(dirs@) == snaps.map_values(|s: SnapshotView| s.active_directory).take(i as int),
            opt_views(branches@) == snaps.map_values(|s: SnapshotView| s.git_branch).take(i as int),
            files == with_file_count(snaps.take(i as int)),
        decreases n - i,
    {
        let s = &snapshots[i];
        assert(snaps[i as int] == s@);
        assert(snaps.take(i + 1).drop_last() =~= snaps.take(i as int));
        let ghost d0 = dirs@;
        let ghost b0 = branches@;
        let d = clone_opt(&s.active_directory);
        dirs.push(d);
        let b = clone_opt(&s.git_branch);
        branches.push(b);
        assert(opt_views(dirs@) =~= opt_views(d0).push(opt_view(d)));
        assert(opt_views(branches@) =~= opt_views(b0).push(opt_view(b)));
        assert(snaps.map_values(|s: SnapshotView| s.active_directory).take(i + 1) =~= snaps.map_values(
            |s: SnapshotView| s.active_directory,
        ).take(i as int).push(snaps[i as int].active_directory));
        assert(snaps.map_values(|s: SnapshotView| s.git_branch).take(i + 1) =~= snaps.map_values(
            |s: SnapshotView| s.git_branch,
        ).take(i as int).push(snaps[i as int].git_branch));
        if s.active_file.is_some() {
            files = files + 1;
        }
        i = i + 1;
    }
    assert(snaps.take(n as int) =~= snaps);
    assert(snaps.map_values(|s: SnapshotView| s.active_directory).take(n as int) =~= snaps.map_values(
        |s: SnapshotView| s.active_directory,
    ));
    assert(snaps.map_values(|s: SnapshotView| s.git_branch).take(n as int) =~= snaps.map_values(
        |s: SnapshotView| s.git_branch,
    ));
    ActivitySnapshot {
        total_snapshots: n,
        unique_directories: count_distinct(&dirs),
        unique_branches: count_distinct(&branches),
        files_touched: files,
    }
}

} // verus!
