//! The activity analyzer: nudges from recent snapshots and daily summaries.

use vstd::prelude::*;
use vstd::string::*;

use crate::clock::now_micros;
use crate::db::{
    retained, snapshot_views, window_key, window_kind, window_total, Database, FileEventType,
    Snapshot, SnapshotView, in_window, dir_key,
};
use crate::text::{
    clone_opt, count_distinct, decimal, decimal_text, opt_str_eq, opt_view, opt_views, present_values,
};

verus! {

/// Microseconds in a minute.
pub const MINUTE_MICROS: i64 = 60_000_000;

/// Microseconds in a day.
pub const DAY_MICROS: i64 = 86_400_000_000;

/// How many of the most recent snapshots an analysis reads.
pub const ANALYSIS_WINDOW: u32 = 50;

/// Configuration of the analyzer.
#[derive(Debug, Clone, Copy)]
pub struct GatekeeperConfig {
    /// Maximum nudges per day
    pub max_nudges_per_day: u32,
    /// Enable context switch nudges
    pub enable_context_switch_nudges: bool,
    /// Minimum time on task before nudge (minutes)
    pub min_focus_time_minutes: u32,
    /// Maximum time on task before break nudge (minutes)
    pub max_focus_time_minutes: u32,
}

impl Default for GatekeeperConfig {
    fn default() -> (r: GatekeeperConfig)
        ensures
            r.max_nudges_per_day == 2,
            r.enable_context_switch_nudges,
            r.min_focus_time_minutes == 15,
            r.max_focus_time_minutes == 90,
    {
        GatekeeperConfig {
            max_nudges_per_day: 2,
            enable_context_switch_nudges: true,
            min_focus_time_minutes: 15,
            max_focus_time_minutes: 90,
        }
    }
}

/// Type of nudge.
#[derive(Debug, Clone, Copy, PartialEq, Eq, Structural)]
pub enum NudgeType {
    /// Suggest taking a break
    TakeBreak,
    /// Suggest switching context
    ContextSwitch,
    /// Remind about unfocused activity
    FocusReminder,
    /// Daily summary available
    DailySummary,
    /// High activity detected
    HighActivity,
}

/// Priority level of a nudge, from lowest to highest.
#[derive(Debug, Clone, Copy, PartialEq, Eq, Structural, PartialOrd, Ord)]
pub enum NudgePriority {
    Low,
    Medium,
    High,
}

/// A suggestion of the analyzer; `timestamp` in microseconds since the Unix epoch.
#[derive(Debug, Clone)]
pub struct Nudge {
    pub message: String,
    pub nudge_type: NudgeType,
    pub priority: NudgePriority,
    pub timestamp: i64,
}

pub struct NudgeView {
    pub message: Seq<char>,
    pub nudge_type: NudgeType,
    pub priority: NudgePriority,
    pub timestamp: i64,
}

impl View for Nudge {
    type V = NudgeView;

    open spec fn view(&self) -> NudgeView {
        NudgeView {
            message: self.message@,
            nudge_type: self.nudge_type,
            priority: self.priority,
            timestamp: self.timestamp,
        }
    }
}

impl Nudge {
    /// A copy of this nudge.
    pub fn duplicate(&self) -> (r: Nudge)
        ensures
            r@ == self@,
    {
        Nudge {
            message: self.message.clone(),
            nudge_type: self.nudge_type,
            priority: self.priority,
            timestamp: self.timestamp,
        }
    }
}

pub open spec fn nudge_views(v: Seq<Nudge>) -> Seq<NudgeView> {
    v.map_values(|n: Nudge| n@)
}

/// The nudges of `s` with priority `p`, in their order.
pub open spec fn with_priority(s: Seq<NudgeView>, p: NudgePriority) -> Seq<NudgeView>
    decreases s.len(),
{
    if s.len() == 0 {
        Seq::empty()
    } else {
        let rest = with_priority(s.drop_last(), p);
        if s.last().priority == p {
            rest.push(s.last())
        } else {
            rest
        }
    }
}

/// `s` stably sorted from highest to lowest priority.
pub open spec fn by_priority(s: Seq<NudgeView>) -> Seq<NudgeView> {
    with_priority(s, NudgePriority::High) + with_priority(s, NudgePriority::Medium) + with_priority(
        s,
        NudgePriority::Low,
    )
}

/// The rank of a priority: higher is more urgent.
pub open spec fn rank(p: NudgePriority) -> int {
    match p {
        NudgePriority::High => 2,
        NudgePriority::Medium => 1,
        NudgePriority::Low => 0,
    }
}

proof fn lemma_with_priority(s: Seq<NudgeView>, p: NudgePriority)
    ensures
        forall|i: int| 0 <= i < with_priority(s, p).len() ==> (#[trigger] with_priority(s, p)[i]).priority == p,
        with_priority(s, NudgePriority::High).len() + with_priority(s, NudgePriority::Medium).len() + with_priority(
            s,
            NudgePriority::Low,
        ).len() == s.len(),
    decreases s.len(),
{
    if s.len() > 0 {
        lemma_with_priority(s.drop_last(), p);
    }
}

/// Sorting by priority keeps every nudge and orders them from highest to
/// lowest priority; an analysis, a prefix of such a sort, is ordered too.
pub proof fn priority_order_law(s: Seq<NudgeView>, snaps: Seq<SnapshotView>, now: i64, cfg: GatekeeperConfig)
    ensures
        by_priority(s).len() == s.len(),
        forall|i: int, j: int|
            0 <= i < j < by_priority(s).len() ==> rank(by_priority(s)[i].priority) >= rank(by_priority(s)[j].priority),
        forall|i: int, j: int|
            0 <= i < j < analysis(snaps, now, cfg).len() ==> rank(analysis(snaps, now, cfg)[i].priority) >= rank(
                analysis(snaps, now, cfg)[j].priority,
            ),
{
    lemma_with_priority(s, NudgePriority::High);
    lemma_with_priority(s, NudgePriority::Medium);
    lemma_with_priority(s, NudgePriority::Low);
    let f = fired_nudges(snaps, now, cfg);
    lemma_with_priority(f, NudgePriority::High);
    lemma_with_priority(f, NudgePriority::Medium);
    lemma_with_priority(f, NudgePriority::Low);
    let h = with_priority(f, NudgePriority::High);
    let m = with_priority(f, NudgePriority::Medium);
    let l = with_priority(f, NudgePriority::Low);
    assert forall|i: int, j: int| 0 <= i < j < by_priority(f).len() implies rank(by_priority(f)[i].priority) >= rank(
        by_priority(f)[j].priority,
    ) by {
        let b = by_priority(f);
        if i < h.len() {
            assert(b[i] == h[i]);
        } else if i < h.len() + m.len() {
            assert(b[i] == m[i - h.len()]);
            if j < h.len() + m.len() {
                assert(b[j] == m[j - h.len()]);
            } else {
                assert(b[j] == l[j - h.len() - m.len()]);
            }
        } else {
            assert(b[i] == l[i - h.len() - m.len()]);
            assert(b[j] == l[j - h.len() - m.len()]);
        }
    }
    let hs = with_priority(s, NudgePriority::High);
    let ms = with_priority(s, NudgePriority::Medium);
    let ls = with_priority(s, NudgePriority::Low);
    assert forall|i: int, j: int| 0 <= i < j < by_priority(s).len() implies rank(by_priority(s)[i].priority) >= rank(
        by_priority(s)[j].priority,
    ) by {
        let b = by_priority(s);
        if i < hs.len() {
            assert(b[i] == hs[i]);
        } else if i < hs.len() + ms.len() {
            assert(b[i] == ms[i - hs.len()]);
            if j < hs.len() + ms.len() {
                assert(b[j] == ms[j - hs.len()]);
            } else {
                assert(b[j] == ls[j - hs.len() - ms.len()]);
            }
        } else {
            assert(b[i] == ls[i - hs.len() - ms.len()]);
            assert(b[j] == ls[j - hs.len() - ms.len()]);
        }
    }
}

/// The nudges of `nudges` with priority `p`, in their order.
fn select_priority(nudges: &Vec<Nudge>, p: NudgePriority, out: &mut Vec<Nudge>)
    ensures
        nudge_views(final(out)@) == nudge_views(old(out)@) + with_priority(nudge_views(nudges@), p),
{
    let ghost all = nudge_views(nudges@);
    let ghost start = nudge_views(out@);
    let n = nudges.len();
    let mut i: usize = 0;
    while i < n
        invariant
            n == nudges.len(),
            all == nudge_views(nudges@),
            i <= n,
            nudge_views(out@) == start + with_priority(all.take(i as int), p),
        decreases n - i,
    {
        let ghost before = nudge_views(out@);
        let ghost post = all.take(i + 1);
        assert(post.drop_last() =~= all.take(i as int));
        assert(post.last() == nudges@[i as int]@);
        if nudges[i].priority == p {
            let x = nudges[i].duplicate();
            out.push(x);
            assert(nudge_views(out@) =~= before.push(x@));
        }
        i = i + 1;
    }
    assert(all.take(n as int) =~= all);
}

/// Sorts nudges from highest to lowest priority, keeping the order of equal ones.
pub fn sort_by_priority(nudges: &Vec<Nudge>) -> (r: Vec<Nudge>)
    ensures
        nudge_views(r@) == by_priority(nudge_views(nudges@)),
{
    let mut out: Vec<Nudge> = Vec::new();
    assert(nudge_views(out@) =~= Seq::<NudgeView>::empty());
    select_priority(nudges, NudgePriority::High, &mut out);
    select_priority(nudges, NudgePriority::Medium, &mut out);
    select_priority(nudges, NudgePriority::Low, &mut out);
    assert(nudge_views(out@) =~= by_priority(nudge_views(nudges@)));
    out
}

pub open spec fn focus_message(cfg: GatekeeperConfig) -> Seq<char> {
    "You've been working in the same area for over "@ + decimal(cfg.max_focus_time_minutes as int)
        + " minutes. Consider taking a short break!"@
}

pub open spec fn switch_message() -> Seq<char> {
    "You've switched context frequently. Consider focusing on one area."@
}

pub open spec fn burst_message() -> Seq<char> {
    "High activity detected! You're making great progress."@
}

/// The oldest and newest snapshot share a directory, and the time since the
/// oldest exceeds the focus limit. `snaps` is newest first.
pub open spec fn focus_due(snaps: Seq<SnapshotView>, now: i64, cfg: GatekeeperConfig) -> bool {
    &&& snaps.len() > 0
    &&& snaps.last().active_directory == snaps[0].active_directory
    &&& now - snaps.last().timestamp > cfg.max_focus_time_minutes * MINUTE_MICROS
}

/// The directories of the snapshots.
pub open spec fn directories(snaps: Seq<SnapshotView>) -> Seq<Option<Seq<char>>> {
    snaps.map_values(|s: SnapshotView| s.active_directory)
}

/// The ten most recent snapshots name five or more distinct directories.
pub open spec fn switch_due(snaps: Seq<SnapshotView>) -> bool {
    &&& snaps.len() >= 5
    &&& present_values(directories(if snaps.len() > 10 { snaps.take(10) } else { snaps })).len() >= 5
}

/// The newest and the twentieth most recent snapshot lie less than thirty minutes apart.
pub open spec fn burst_due(snaps: Seq<SnapshotView>) -> bool {
    &&& snaps.len() >= 20
    &&& snaps[0].timestamp - snaps[19].timestamp < 30 * MINUTE_MICROS
}

pub open spec fn focus_nudge(now: i64, cfg: GatekeeperConfig) -> NudgeView {
    NudgeView {
        message: focus_message(cfg),
        nudge_type: NudgeType::TakeBreak,
        priority: NudgePriority::Medium,
        timestamp: now,
    }
}

pub open spec fn switch_nudge(now: i64) -> NudgeView {
    NudgeView {
        message: switch_message(),
        nudge_type: NudgeType::ContextSwitch,
        priority: NudgePriority::Low,
        timestamp: now,
    }
}

pub open spec fn burst_nudge(now: i64) -> NudgeView {
    NudgeView {
        message: burst_message(),
        nudge_type: NudgeType::HighActivity,
        priority: NudgePriority::Low,
        timestamp: now,
    }
}

/// The nudges that fire, in the order the checks run: focus, switch, burst.
pub open spec fn fired_nudges(snaps: Seq<SnapshotView>, now: i64, cfg: GatekeeperConfig) -> Seq<NudgeView> {
    (if focus_due(snaps, now, cfg) { seq![focus_nudge(now, cfg)] } else { Seq::empty() }) + (if cfg.enable_context_switch_nudges
        && switch_due(snaps) { seq![switch_nudge(now)] } else { Seq::empty() }) + (if burst_due(snaps) { seq![burst_nudge(now)] } else { Seq::empty() })
}

/// The first `n` of `s`, or all of `s` when it is shorter.
pub open spec fn first_n<T>(s: Seq<T>, n: nat) -> Seq<T> {
    if n < s.len() {
        s.take(n as int)
    } else {
        s
    }
}

/// The result of an analysis of `snaps` (newest first) at time `now`.
pub open spec fn analysis(snaps: Seq<SnapshotView>, now: i64, cfg: GatekeeperConfig) -> Seq<NudgeView> {
    first_n(by_priority(fired_nudges(snaps, now, cfg)), cfg.max_nudges_per_day as nat)
}

/// The first day boundary (UTC) at or before `t`.
pub open spec fn day_start(t: i64) -> int {
    t - (t as int % DAY_MICROS as int)
}

/// One day after `day_start(t)`, or the largest instant when that is out of range.
pub open spec fn day_end(t: i64) -> int {
    if day_start(t) + DAY_MICROS <= i64::MAX {
        day_start(t) + DAY_MICROS
    } else {
        i64::MAX as int
    }
}

/// The first day boundary (UTC) at or before `t`.
pub fn start_of_day(t: i64) -> (r: i64)
    requires
        t >= i64::MIN + DAY_MICROS,
    ensures
        r == day_start(t),
{
    if t >= 0 {
        let d = t as u64;
        let rem = d % (DAY_MICROS as u64);
        assert(rem == t as int % DAY_MICROS as int);
        t - rem as i64
    } else {
        let m = (-(t as i128) - 1) as u64;
        let rem = m % (DAY_MICROS as u64);
        proof {
            let q = m as int / DAY_MICROS as int;
            assert(m as int == q * DAY_MICROS + rem) by (nonlinear_arith)
                requires
                    q == m as int / DAY_MICROS as int,
                    rem == m as int % DAY_MICROS as int,
            ;
            assert(t as int == (-q - 1) * DAY_MICROS + (DAY_MICROS - 1 - rem)) by (nonlinear_arith)
                requires
                    m as int == q * DAY_MICROS + rem,
                    m as int == -(t as int) - 1,
            ;
            lemma_euclid_mod(t as int, -q - 1, DAY_MICROS - 1 - rem);
        }
        t - (DAY_MICROS - 1 - rem as i64)
    }
}

proof fn lemma_euclid_mod(t: int, q: int, r: int)
    requires
        t == q * DAY_MICROS + r,
        0 <= r < DAY_MICROS,
    ensures
        t % (DAY_MICROS as int) == r,
{
    vstd::arithmetic::div_mod::lemma_fundamental_div_mod_converse(t, DAY_MICROS as int, q, r);
}

/// Daily activity summary; `date` in microseconds since the Unix epoch.
#[derive(Debug, Clone)]
pub struct DailySummary {
    pub date: i64,
    pub total_events: u64,
    pub files_modified: u64,
    pub files_created: u64,
    pub most_active_directory: Option<String>,
}

/// The parts of a summary message, in order.
pub open spec fn summary_parts(total: u64, modified: u64, created: u64, dir: Option<Seq<char>>) -> Seq<Seq<char>> {
    (if total > 0 { seq![decimal(total as int) + " file events"@] } else { Seq::empty() }) + (if modified > 0 {
        seq![decimal(modified as int) + " files modified"@]
    } else {
        Seq::empty()
    }) + (if created > 0 { seq![decimal(created as int) + " files created"@] } else { Seq::empty() }) + (match dir {
        Some(d) => seq!["Most active: "@ + d],
        None => Seq::empty(),
    })
}

/// `parts` joined with `sep` between neighbours.
pub open spec fn joined(parts: Seq<Seq<char>>, sep: Seq<char>) -> Seq<char>
    decreases parts.len(),
{
    if parts.len() == 0 {
        Seq::empty()
    } else if parts.len() == 1 {
        parts[0]
    } else {
        joined(parts.drop_last(), sep) + sep + parts.last()
    }
}

pub open spec fn no_activity_message() -> Seq<char> {
    "No activity recorded today."@
}

/// Joins `parts` with `sep` between neighbours.
pub fn join_with(parts: &Vec<String>, sep: &str) -> (r: String)
    ensures
        r@ == joined(parts@.map_values(|s: String| s@), sep@),
{
    let ghost all = parts@.map_values(|s: String| s@);
    let mut out = String::new();
    let n = parts.len();
    let mut i: usize = 0;
    while i < n
        invariant
            n == parts.len(),
            all == parts@.map_values(|s: String| s@),
            i <= n,
            out@ == joined(all.take(i as int), sep@),
        decreases n - i,
    {
        let ghost post = all.take(i + 1);
        assert(post.drop_last() =~= all.take(i as int));
        assert(post.last() == parts@[i as int]@);
        if i > 0 {
            out.append(sep);
        } else {
            assert(out@ =~= Seq::<char>::empty());
        }
        out.append(parts[i].as_str());
        i = i + 1;
    }
    assert(all.take(n as int) =~= all);
    out
}

/// The analyzer over a store, with its configuration.
pub struct Gatekeeper<'a> {
    db: &'a Database,
    config: GatekeeperConfig,
}

impl<'a> Gatekeeper<'a> {
    pub closed spec fn database(&self) -> Database {
        *self.db
    }

    pub closed spec fn config(&self) -> GatekeeperConfig {
        self.config
    }

    /// An analyzer over `db` with `config`.
    pub fn new(db: &'a Database, config: GatekeeperConfig) -> (r: Gatekeeper<'a>)
        ensures
            r.database() == *db,
            r.config() == config,
    {
        Gatekeeper { db, config }
    }

    /// The break nudge, when the oldest and newest of `snapshots` (newest
    /// first) share a directory and the oldest is older than the focus limit.
    pub fn check_focus_time(&self, snapshots: &Vec<Snapshot>, now: i64) -> (r: Option<Nudge>)
        ensures
            r is Some <==> focus_due(snapshot_views(snapshots@), now, self.config()),
            r matches Some(n) ==> n@ == focus_nudge(now, self.config()),
    {
        let ghost snaps = snapshot_views(snapshots@);
        let len = snapshots.len();
        if len == 0 {
            return None;
        }
        let oldest = &snapshots[len - 1];
        let newest = &snapshots[0];
        assert(snaps.last() == oldest@);
        assert(snaps[0] == newest@);
        if opt_str_eq(&oldest.active_directory, &newest.active_directory) {
            let elapsed: i128 = now as i128 - oldest.timestamp as i128;
            let m = self.config.max_focus_time_minutes;
            assert(0 <= m as int * MINUTE_MICROS <= 4294967295 * 60_000_000) by (nonlinear_arith)
                requires
                    0 <= m <= 4294967295,
            ;
            let limit: i128 = self.config.max_focus_time_minutes as i128 * MINUTE_MICROS as i128;
            if elapsed > limit {
                let message = String::from_str("You've been working in the same area for over ").concat(
                    decimal_text(self.config.max_focus_time_minutes as i128).as_str(),
                ).concat(" minutes. Consider taking a short break!");
                return Some(
                    Nudge {
                        message,
                        nudge_type: NudgeType::TakeBreak,
                        priority: NudgePriority::Medium,
                        timestamp: now,
                    },
                );
            }
        }
        None
    }

    /// The context-switch nudge, when the ten most recent of `snapshots`
    /// (newest first) name five or more distinct directories.
    pub fn check_context_switches(&self, snapshots: &Vec<Snapshot>, now: i64) -> (r: Option<Nudge>)
        ensures
            r is Some <==> switch_due(snapshot_views(snapshots@)),
            r matches Some(n) ==> n@ == switch_nudge(now),
    {
        let ghost snaps = snapshot_views(snapshots@);
        let len = snapshots.len();
        if len < 5 {
            return None;
        }
        let k: usize = if len > 10 { 10 } else { len };
        let ghost window = if len > 10 { snaps.take(10) } else { snaps };
        let mut dirs: Vec<Option<String>> = Vec::new();
        let mut i: usize = 0;
        while i < k
            invariant
                k <= len,
                len == snapshots.len(),
                snaps == snapshot_views(snapshots@),
                window.len() == k,
                forall|j: int| 0 <= j < k ==> window[j] == snaps[j],
                i <= k,
                opt_views(dirs@) == directories(window).take(i as int),
            decreases k - i,
        {
            let d = clone_opt(&snapshots[i].active_directory);
            let ghost before = dirs@;
            dirs.push(d);
            assert(snaps[i as int] == snapshots@[i as int]@);
            assert(opt_views(dirs@) =~= opt_views(before).push(opt_view(d)));
            assert(directories(window).take(i + 1) =~= directories(window).take(i as int).push(
                window[i as int].active_directory,
            ));
            i = i + 1;
        }
        assert(directories(window).take(k as int) =~= directories(window));
        let distinct = count_distinct(&dirs);
        if distinct >= 5 {
            Some(
                Nudge {
                    message: String::from_str("You've switched context frequently. Consider focusing on one area."),
                    nudge_type: NudgeType::ContextSwitch,
                    priority: NudgePriority::Low,
                    timestamp: now,
                },
            )
        } else {
            None
        }
    }

    /// The high-activity nudge, when the newest and the twentieth most recent
    /// of `snapshots` (newest first) lie less than thirty minutes apart.
    pub fn check_activity_level(&self, snapshots: &Vec<Snapshot>, now: i64) -> (r: Option<Nudge>)
        ensures
            r is Some <==> burst_due(snapshot_views(snapshots@)),
            r matches Some(n) ==> n@ == burst_nudge(now),
    {
        let ghost snaps = snapshot_views(snapshots@);
        if snapshots.len() < 20 {
            return None;
        }
        assert(snaps[0] == snapshots@[0]@);
        assert(snaps[19] == snapshots@[19]@);
        let span: i128 = snapshots[0].timestamp as i128 - snapshots[19].timestamp as i128;
        if span < 30 * MINUTE_MICROS as i128 {
            Some(
                Nudge {
                    message: String::from_str("High activity detected! You're making great progress."),
                    nudge_type: NudgeType::HighActivity,
                    priority: NudgePriority::Low,
                    timestamp: now,
                },
            )
        } else {
            None
        }
    }

    /// The nudges for `snapshots` (newest first) at time `now`: the checks that
    /// fire, stably sorted from highest priority, cut to the daily maximum.
    pub fn analyze_at(&self, snapshots: &Vec<Snapshot>, now: i64) -> (r: Vec<Nudge>)
        ensures
            nudge_views(r@) == analysis(snapshot_views(snapshots@), now, self.config()),
    {
        let ghost snaps = snapshot_views(snapshots@);
        let mut fired: Vec<Nudge> = Vec::new();
        let ghost f1: Seq<NudgeView> = if focus_due(snaps, now, self.config) { seq![focus_nudge(now, self.config)] } else { Seq::empty() };
        let ghost f2: Seq<NudgeView> = if self.config.enable_context_switch_nudges && switch_due(snaps) { seq![switch_nudge(now)] } else { Seq::empty() };
        let ghost f3: Seq<NudgeView> = if burst_due(snaps) { seq![burst_nudge(now)] } else { Seq::empty() };
        match self.check_focus_time(snapshots, now) {
            Some(n) => {
                fired.push(n);
            },
            None => {},
        }
        assert(nudge_views(fired@) =~= f1);
        if self.config.enable_context_switch_nudges {
            match self.check_context_switches(snapshots, now) {
                Some(n) => {
                    fired.push(n);
                },
                None => {},
            }
        }
        assert(nudge_views(fired@) =~= f1 + f2);
        match self.check_activity_level(snapshots, now) {
            Some(n) => {
                fired.push(n);
            },
            None => {},
        }
        assert(nudge_views(fired@) =~= f1 + f2 + f3);
        assert(nudge_views(fired@) == fired_nudges(snaps, now, self.config));
        let mut sorted = sort_by_priority(&fired);
        sorted.truncate(self.config.max_nudges_per_day as usize);
        assert(nudge_views(sorted@) =~= analysis(snaps, now, self.config));
        sorted
    }

    /// Analyzes the most recent snapshots of the store at the current time.
    pub fn analyze(&self) -> (r: Vec<Nudge>)
        ensures
            exists|now: i64|
                nudge_views(r@) == analysis(retained(self.database().rows(), ANALYSIS_WINDOW as nat), now, self.config()),
    {
        let snapshots = self.db.get_recent_snapshots(ANALYSIS_WINDOW);
        let now = now_micros();
        let r = self.analyze_at(&snapshots, now);
        assert(nudge_views(r@) == analysis(retained(self.database().rows(), ANALYSIS_WINDOW as nat), now, self.config()));
        r
    }

    /// The file-event aggregates of the UTC calendar day holding `date`.
    pub fn daily_summary(&self, date: i64) -> (r: DailySummary)
        requires
            date >= i64::MIN + DAY_MICROS,
        ensures
            r.date == date,
            r.total_events == window_total(self.database().events(), day_start(date) as i64, day_end(date) as i64),
            r.files_modified == window_kind(
                self.database().events(),
                day_start(date) as i64,
                day_end(date) as i64,
                FileEventType::Modified,
            ),
            r.files_created == window_kind(
                self.database().events(),
                day_start(date) as i64,
                day_end(date) as i64,
                FileEventType::Created,
            ),
            r.most_active_directory is None <==> r.total_events == 0,
            r.most_active_directory matches Some(k) ==> forall|j: int|
                0 <= j < self.database().events().len() && in_window(
                    self.database().events()[j],
                    day_start(date) as i64,
                    day_end(date) as i64,
                ) ==> window_key(
                    self.database().events(),
                    day_start(date) as i64,
                    day_end(date) as i64,
                    dir_key(self.database().events()[j].path),
                ) <= window_key(self.database().events(), day_start(date) as i64, day_end(date) as i64, k@),
    {
        let start = start_of_day(date);
        let end: i64 = if start as i128 + DAY_MICROS as i128 <= i64::MAX as i128 {
            start + DAY_MICROS
        } else {
            i64::MAX
        };
        let activity = self.db.get_activity_summary(start, end);
        DailySummary {
            date,
            total_events: activity.total_events,
            files_modified: activity.files_modified,
            files_created: activity.files_created,
            most_active_directory: activity.most_active_directory,
        }
    }
}

impl DailySummary {
    /// A human-readable summary: the non-zero counts and the most active
    /// directory, or a fixed "no activity" line when there are none.
    pub fn to_message(&self) -> (r: String)
        ensures
            ({
                let parts = summary_parts(
                    self.total_events,
                    self.files_modified,
                    self.files_created,
                    opt_view(self.most_active_directory),
                );
                r@ == if parts.len() == 0 { no_activity_message() } else { joined(parts, " | "@) }
            }),
    {
        let ghost parts = summary_parts(
            self.total_events,
            self.files_modified,
            self.files_created,
            opt_view(self.most_active_directory),
        );
        let mut v: Vec<String> = Vec::new();
        if self.total_events > 0 {
            let s = decimal_text(self.total_events as i128).concat(" file events");
            v.push(s);
        }
        if self.files_modified > 0 {
            let s = decimal_text(self.files_modified as i128).concat(" files modified");
            v.push(s);
        }
        if self.files_created > 0 {
            let s = decimal_text(self.files_created as i128).concat(" files created");
            v.push(s);
        }
        match &self.most_active_directory {
            Some(d) => {
                let s = String::from_str("Most active: ").concat(d.as_str());
                v.push(s);
            },
            None => {},
        }
        assert(v@.map_values(|s: String| s@) =~= parts);
        if v.len() == 0 {
            String::from_str("No activity recorded today.")
        } else {
            join_with(&v, " | ")
        }
    }
}

} // verus!
