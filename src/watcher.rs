//! Change notifications: ignore filtering, mapping of notifier events and
//! per-batch deduplication.

use vstd::prelude::*;

use crate::db::FileEventType;

verus! {

/// Whether regex accepts `pattern` as a regular expression.
pub uninterp spec fn pattern_compiles(pattern: Seq<char>) -> bool;

/// Whether the regular expression `pattern` matches somewhere in `text`.
pub uninterp spec fn pattern_finds(pattern: Seq<char>, text: Seq<char>) -> bool;

#[verifier::external_type_specification]
#[verifier::external_body]
pub struct ExRegex(regex::Regex);

/// A regular expression together with the text it was compiled from.
pub struct CompiledPattern {
    source: String,
    regex: regex::Regex,
}

impl CompiledPattern {
    /// The text this pattern was compiled from.
    pub closed spec fn source(&self) -> Seq<char> {
        self.source@
    }
}

/// Relies on regex::Regex::new: it accepts the pattern or reports why not,
/// depending on the pattern alone. Only this function builds a
/// `CompiledPattern`, so its `regex` is always compiled from its `source`.
#[verifier::external_body]
pub(crate) fn compile_pattern(pattern: &str) -> (r: Result<CompiledPattern, String>)
    ensures
        r is Ok <==> pattern_compiles(pattern@),
        r matches Ok(c) ==> c.source() == pattern@,
{
    match regex::Regex::new(pattern) {
        Ok(regex) => Ok(CompiledPattern { source: pattern.to_string(), regex }),
        Err(e) => Err(e.to_string()),
    }
}

/// Relies on regex::Regex::is_match: whether the expression matches anywhere in the text.
#[verifier::external_body]
fn pattern_matches(p: &CompiledPattern, text: &str) -> (r: bool)
    ensures
        r == pattern_finds(p.source(), text@),
{
    p.regex.is_match(text)
}

/// The kind of change a notifier reports, one variant per kind of notify's
/// `EventKind`, with renames (a modification of the name) told apart from
/// other modifications.
#[derive(Debug, Clone, Copy, PartialEq, Eq, Structural)]
pub enum ChangeKind {
    Any,
    Access,
    Create,
    Modify,
    Rename,
    Remove,
    Other,
}

/// The watch-event kind for a notifier kind: creations, modifications and
/// removals are kept; renames and every other kind are dropped.
pub open spec fn recognized(kind: ChangeKind) -> Option<FileEventType> {
    match kind {
        ChangeKind::Create => Some(FileEventType::Created),
        ChangeKind::Modify => Some(FileEventType::Modified),
        ChangeKind::Remove => Some(FileEventType::Deleted),
        _ => None,
    }
}

/// The watch-event kind for a notifier kind, if it is kept.
pub fn recognize(kind: ChangeKind) -> (r: Option<FileEventType>)
    ensures
        r == recognized(kind),
{
    match kind {
        ChangeKind::Create => Some(FileEventType::Created),
        ChangeKind::Modify => Some(FileEventType::Modified),
        ChangeKind::Remove => Some(FileEventType::Deleted),
        _ => None,
    }
}

pub open spec fn string_views(v: Seq<String>) -> Seq<Seq<char>> {
    v.map_values(|s: String| s@)
}

/// The patterns among `ps` that compile, in their order.
pub open spec fn compiling_patterns(ps: Seq<Seq<char>>) -> Seq<Seq<char>>
    decreases ps.len(),
{
    if ps.len() == 0 {
        Seq::empty()
    } else {
        let rest = compiling_patterns(ps.drop_last());
        if pattern_compiles(ps.last()) {
            rest.push(ps.last())
        } else {
            rest
        }
    }
}

/// Whether one of `patterns` matches somewhere in `path`.
pub open spec fn ignored_by(patterns: Seq<Seq<char>>, path: Seq<char>) -> bool {
    exists|i: int| 0 <= i < patterns.len() && pattern_finds(#[trigger] patterns[i], path)
}

/// Decides which paths are dropped from consideration.
pub struct IgnoreFilter {
    patterns: Vec<CompiledPattern>,
}

/// A file change seen by the notifier.
#[derive(Debug, Clone)]
pub struct WatchEvent {
    pub path: String,
    pub event_type: FileEventType,
}

pub struct WatchEventView {
    pub path: Seq<char>,
    pub event_type: FileEventType,
}

impl View for WatchEvent {
    type V = WatchEventView;

    open spec fn view(&self) -> WatchEventView {
        WatchEventView { path: self.path@, event_type: self.event_type }
    }
}

impl WatchEvent {
    /// A copy of this event.
    pub fn duplicate(&self) -> (r: WatchEvent)
        ensures
            r@ == self@,
    {
        WatchEvent { path: self.path.clone(), event_type: self.event_type }
    }
}

pub open spec fn watch_event_views(v: Seq<WatchEvent>) -> Seq<WatchEventView> {
    v.map_values(|e: WatchEvent| e@)
}

/// The events of `kind` for those of `paths` that `patterns` do not ignore.
pub open spec fn events_for_paths(patterns: Seq<Seq<char>>, kind: FileEventType, paths: Seq<Seq<char>>) -> Seq<
    WatchEventView,
>
    decreases paths.len(),
{
    if paths.len() == 0 {
        Seq::empty()
    } else {
        let rest = events_for_paths(patterns, kind, paths.drop_last());
        if ignored_by(patterns, paths.last()) {
            rest
        } else {
            rest.push(WatchEventView { path: paths.last(), event_type: kind })
        }
    }
}

impl IgnoreFilter {
    /// The sources of the patterns in effect.
    pub closed spec fn patterns(&self) -> Seq<Seq<char>> {
        self.patterns@.map_values(|p: CompiledPattern| p.source())
    }

    /// Compiles the given patterns; those that do not compile are left out.
    pub fn new(ignore_patterns: &Vec<String>) -> (r: IgnoreFilter)
        ensures
            r.patterns() == compiling_patterns(string_views(ignore_patterns@)),
    {
        let mut patterns: Vec<CompiledPattern> = Vec::new();
        let n = ignore_patterns.len();
        let mut i: usize = 0;
        while i < n
            invariant
                n == ignore_patterns.len(),
                i <= n,
                patterns@.map_values(|p: CompiledPattern| p.source()) == compiling_patterns(
                    string_views(ignore_patterns@).take(i as int),
                ),
            decreases n - i,
        {
            let ghost before = patterns@;
            let ghost prefix = string_views(ignore_patterns@).take(i + 1);
            assert(prefix.drop_last() =~= string_views(ignore_patterns@).take(i as int));
            assert(prefix.last() == ignore_patterns@[i as int]@);
            match compile_pattern(ignore_patterns[i].as_str()) {
                Ok(c) => {
                    patterns.push(c);
                    assert(patterns@.map_values(|p: CompiledPattern| p.source()) =~= before.map_values(
                        |p: CompiledPattern| p.source(),
                    ).push(prefix.last()));
                },
                Err(_) => {},
            }
            i = i + 1;
        }
        assert(string_views(ignore_patterns@).take(n as int) =~= string_views(ignore_patterns@));
        IgnoreFilter { patterns }
    }

    /// Whether `path` contains a match of at least one pattern in effect.
    pub fn should_ignore(&self, path: &str) -> (r: bool)
        ensures
            r == ignored_by(self.patterns(), path@),
    {
        let n = self.patterns.len();
        let mut i: usize = 0;
        while i < n
            invariant
                n == self.patterns.len(),
                i <= n,
                forall|j: int| 0 <= j < i ==> !pattern_finds(#[trigger] self.patterns()[j], path@),
            decreases n - i,
        {
            if pattern_matches(&self.patterns[i], path) {
                assert(pattern_finds(self.patterns()[i as int], path@));
                return true;
            }
            i = i + 1;
        }
        false
    }

    /// The watch events of `kind` for the given paths, leaving out ignored ones.
    pub fn events_for(&self, kind: FileEventType, paths: &Vec<String>) -> (r: Vec<WatchEvent>)
        ensures
            watch_event_views(r@) == events_for_paths(self.patterns(), kind, string_views(paths@)),
    {
        let mut out: Vec<WatchEvent> = Vec::new();
        let n = paths.len();
        let mut i: usize = 0;
        while i < n
            invariant
                n == paths.len(),
                i <= n,
                watch_event_views(out@) == events_for_paths(self.patterns(), kind, string_views(paths@).take(i as int)),
            decreases n - i,
        {
            let ghost before = out@;
            let ghost prefix = string_views(paths@).take(i + 1);
            assert(prefix.drop_last() =~= string_views(paths@).take(i as int));
            assert(prefix.last() == paths@[i as int]@);
            if !self.should_ignore(paths[i].as_str()) {
                let e = WatchEvent { path: paths[i].clone(), event_type: kind };
                out.push(e);
                assert(watch_event_views(out@) =~= watch_event_views(before).push(e@));
            }
            i = i + 1;
        }
        assert(string_views(paths@).take(n as int) =~= string_views(paths@));
        out
    }

    /// The watch events of one notification of `kind` naming `paths`: none
    /// for kinds that are not kept, and none for ignored paths.
    pub fn process_event(&self, kind: ChangeKind, paths: &Vec<String>) -> (r: Vec<WatchEvent>)
        ensures
            watch_event_views(r@) == match recognized(kind) {
                Some(k) => events_for_paths(self.patterns(), k, string_views(paths@)),
                None => Seq::empty(),
            },
    {
        match recognize(kind) {
            Some(k) => self.events_for(k, paths),
            None => {
                let r: Vec<WatchEvent> = Vec::new();
                assert(watch_event_views(r@) =~= Seq::<WatchEventView>::empty());
                r
            },
        }
    }
}

/// The event at `i` is the last one in `s` for its path.
pub open spec fn last_for_path(s: Seq<WatchEventView>, i: int) -> bool {
    forall|k: int| i < k < s.len() ==> #[trigger] s[k].path != s[i].path
}

/// No two events of `out` share a path.
pub open spec fn paths_distinct(out: Seq<WatchEventView>) -> bool {
    forall|a: int, b: int| 0 <= a < b < out.len() ==> out[a].path != out[b].path
}

/// Every path of `input` has an event in `out`.
pub open spec fn covers_paths(input: Seq<WatchEventView>, out: Seq<WatchEventView>) -> bool {
    forall|i: int|
        0 <= i < input.len() ==> exists|a: int| 0 <= a < out.len() && #[trigger] out[a].path == (#[trigger] input[i]).path
}

/// Every event of `out` is the last event of `input` for its path.
pub open spec fn drawn_from_last(input: Seq<WatchEventView>, out: Seq<WatchEventView>) -> bool {
    forall|a: int|
        0 <= a < out.len() ==> exists|i: int|
            0 <= i < input.len() && (#[trigger] input[i]) == #[trigger] out[a] && last_for_path(input, i)
}

/// `out` keeps, for each distinct path of `input`, exactly the last event for it.
#[verifier::opaque]
pub open spec fn deduplicated(input: Seq<WatchEventView>, out: Seq<WatchEventView>) -> bool {
    &&& paths_distinct(out)
    &&& covers_paths(input, out)
    &&& drawn_from_last(input, out)
}

/// Deduplication leaves at most one event per distinct path, and each event
/// left is one of the input's events for that path, the last one to arrive.
pub proof fn dedup_law(input: Seq<WatchEventView>, out: Seq<WatchEventView>)
    requires
        deduplicated(input, out),
    ensures
        paths_distinct(out),
        covers_paths(input, out),
        drawn_from_last(input, out),
{
    reveal(deduplicated);
}

/// Collapses a batch to one event per distinct path: the last one that
/// arrived for it. Paths keep the order of their first arrival.
pub fn deduplicate_events(events: Vec<WatchEvent>) -> (r: Vec<WatchEvent>)
    ensures
        deduplicated(watch_event_views(events@), watch_event_views(r@)),
{
    let ghost input = watch_event_views(events@);
    let mut out: Vec<WatchEvent> = Vec::new();
    proof {
        reveal(deduplicated);
        assert(watch_event_views(out@) =~= Seq::<WatchEventView>::empty());
    }
    let n = events.len();
    let mut i: usize = 0;
    while i < n
        invariant
            n == events.len(),
            input == watch_event_views(events@),
            i <= n,
            deduplicated(input.take(i as int), watch_event_views(out@)),
        decreases n - i,
    {
        let ghost pre = input.take(i as int);
        let ghost post = input.take(i + 1);
        let ghost old_out = watch_event_views(out@);
        assert(post[i as int] == events@[i as int]@);
        assert forall|k: int| 0 <= k < i implies post[k] == #[trigger] pre[k] by {}
        let e = events[i].duplicate();
        let m = out.len();
        let mut j: usize = 0;
        while j < m && out[j].path != e.path
            invariant
                m == out.len(),
                j <= m,
                forall|a: int| 0 <= a < j ==> (#[trigger] out@[a]).path@ != e.path@,
            decreases m - j,
        {
            j = j + 1;
        }
        proof {
            assert forall|a: int| 0 <= a < j implies old_out[a].path != post[i as int].path by {
                assert(old_out[a].path == out@[a].path@);
            }
        }
        if j < m {
            out[j] = e;
            proof {
                assert(old_out[j as int].path == post[i as int].path);
                assert(watch_event_views(out@) =~= old_out.update(j as int, post[i as int]));
                lemma_dedup_replace(pre, post, old_out, j as int);
            }
        } else {
            out.push(e);
            proof {
                assert(watch_event_views(out@) =~= old_out.push(post[i as int]));
                lemma_dedup_append(pre, post, old_out);
            }
        }
        i = i + 1;
    }
    assert(input.take(n as int) =~= input);
    out
}

#[verifier::rlimit(40)]
proof fn lemma_dedup_replace(pre: Seq<WatchEventView>, post: Seq<WatchEventView>, old_out: Seq<WatchEventView>, j: int)
    requires
        post.len() == pre.len() + 1,
        forall|k: int| 0 <= k < pre.len() ==> post[k] == #[trigger] pre[k],
        deduplicated(pre, old_out),
        0 <= j < old_out.len(),
        old_out[j].path == post.last().path,
    ensures
        deduplicated(post, old_out.update(j, post.last())),
{
    reveal(deduplicated);
    let nv = old_out.update(j, post.last());
    assert forall|a: int, b: int| 0 <= a < b < nv.len() implies nv[a].path != nv[b].path by {
        assert(nv[a].path == old_out[a].path);
        assert(nv[b].path == old_out[b].path);
    }
    lemma_replace_covers(pre, post, old_out, j);
    lemma_replace_drawn(pre, post, old_out, j);
}

proof fn lemma_replace_covers(pre: Seq<WatchEventView>, post: Seq<WatchEventView>, old_out: Seq<WatchEventView>, j: int)
    requires
        post.len() == pre.len() + 1,
        forall|k: int| 0 <= k < pre.len() ==> post[k] == #[trigger] pre[k],
        covers_paths(pre, old_out),
        0 <= j < old_out.len(),
        old_out[j].path == post.last().path,
    ensures
        covers_paths(post, old_out.update(j, post.last())),
{
    let i = pre.len() as int;
    let nv = old_out.update(j, post.last());
    assert forall|k: int| 0 <= k < post.len() implies exists|a: int|
        0 <= a < nv.len() && #[trigger] nv[a].path == (#[trigger] post[k]).path by {
        if k < i {
            let a = choose|a: int| 0 <= a < old_out.len() && #[trigger] old_out[a].path == (#[trigger] pre[k]).path;
            assert(nv[a].path == post[k].path);
        } else {
            assert(nv[j].path == post[k].path);
        }
    }
}

proof fn lemma_replace_drawn(pre: Seq<WatchEventView>, post: Seq<WatchEventView>, old_out: Seq<WatchEventView>, j: int)
    requires
        post.len() == pre.len() + 1,
        forall|k: int| 0 <= k < pre.len() ==> post[k] == #[trigger] pre[k],
        paths_distinct(old_out),
        drawn_from_last(pre, old_out),
        0 <= j < old_out.len(),
        old_out[j].path == post.last().path,
    ensures
        drawn_from_last(post, old_out.update(j, post.last())),
{
    let i = pre.len() as int;
    let nv = old_out.update(j, post.last());
    assert forall|a: int| 0 <= a < nv.len() implies exists|k: int|
        0 <= k < post.len() && (#[trigger] post[k]) == #[trigger] nv[a] && last_for_path(post, k) by {
        if a == j {
            assert(post[i] == nv[a]);
            assert(last_for_path(post, i));
        } else {
            let k = choose|k: int| 0 <= k < pre.len() && (#[trigger] pre[k]) == #[trigger] old_out[a] && last_for_path(pre, k);
            assert(old_out[a].path != old_out[j].path);
            assert(post[k] == nv[a]);
            assert forall|q: int| k < q < post.len() implies #[trigger] post[q].path != post[k].path by {
                if q < i {
                    assert(post[q] == pre[q]);
                }
            }
        }
    }
}

proof fn lemma_dedup_append(pre: Seq<WatchEventView>, post: Seq<WatchEventView>, old_out: Seq<WatchEventView>)
    requires
        post.len() == pre.len() + 1,
        forall|k: int| 0 <= k < pre.len() ==> post[k] == #[trigger] pre[k],
        deduplicated(pre, old_out),
        forall|a: int| 0 <= a < old_out.len() ==> old_out[a].path != post.last().path,
    ensures
        deduplicated(post, old_out.push(post.last())),
{
    reveal(deduplicated);
    let m = old_out.len() as int;
    let nv = old_out.push(post.last());
    assert forall|a: int, b: int| 0 <= a < b < nv.len() implies nv[a].path != nv[b].path by {
        assert(nv[a].path == old_out[a].path);
        if b < m {
            assert(nv[b].path == old_out[b].path);
        }
    }
    lemma_append_covers(pre, post, old_out);
    lemma_append_drawn(pre, post, old_out);
}

proof fn lemma_append_covers(pre: Seq<WatchEventView>, post: Seq<WatchEventView>, old_out: Seq<WatchEventView>)
    requires
        post.len() == pre.len() + 1,
        forall|k: int| 0 <= k < pre.len() ==> post[k] == #[trigger] pre[k],
        covers_paths(pre, old_out),
    ensures
        covers_paths(post, old_out.push(post.last())),
{
    let i = pre.len() as int;
    let m = old_out.len() as int;
    let nv = old_out.push(post.last());
    assert forall|k: int| 0 <= k < post.len() implies exists|a: int|
        0 <= a < nv.len() && #[trigger] nv[a].path == (#[trigger] post[k]).path by {
        if k < i {
            let a = choose|a: int| 0 <= a < old_out.len() && #[trigger] old_out[a].path == (#[trigger] pre[k]).path;
            assert(nv[a].path == post[k].path);
        } else {
            assert(nv[m].path == post[k].path);
        }
    }
}

proof fn lemma_append_drawn(pre: Seq<WatchEventView>, post: Seq<WatchEventView>, old_out: Seq<WatchEventView>)
    requires
        post.len() == pre.len() + 1,
        forall|k: int| 0 <= k < pre.len() ==> post[k] == #[trigger] pre[k],
        drawn_from_last(pre, old_out),
        forall|a: int| 0 <= a < old_out.len() ==> old_out[a].path != post.last().path,
    ensures
        drawn_from_last(post, old_out.push(post.last())),
{
    let i = pre.len() as int;
    let m = old_out.len() as int;
    let nv = old_out.push(post.last());
    assert forall|a: int| 0 <= a < nv.len() implies exists|k: int|
        0 <= k < post.len() && (#[trigger] post[k]) == #[trigger] nv[a] && last_for_path(post, k) by {
        if a == m {
            assert(post[i] == nv[a]);
            assert(last_for_path(post, i));
        } else {
            let k = choose|k: int| 0 <= k < pre.len() && (#[trigger] pre[k]) == #[trigger] old_out[a] && last_for_path(pre, k);
            assert(post[k] == nv[a]);
            assert(old_out[a].path != post[i].path);
            assert forall|q: int| k < q < post.len() implies #[trigger] post[q].path != post[k].path by {
                if q < i {
                    assert(post[q] == pre[q]);
                }
            }
        }
    }
}


} // verus!
