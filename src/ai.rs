//! Rule-based insights and suggestions drawn from recent activity.

use chrono::Timelike;
use vstd::prelude::*;
use vstd::string::*;

use crate::db::{snapshot_views, Snapshot, SnapshotView};
use crate::gatekeeper::DailySummary;
use crate::text::{count_distinct, opt_str_eq, opt_view, opt_views, present_values};

verus! {

/// Configuration for the AI service.
#[derive(Debug, Clone)]
pub struct AiServiceConfig {
    /// Whether AI features are enabled
    pub enabled: bool,
    /// API endpoint (if using external service)
    pub api_endpoint: Option<String>,
    /// API key (should be from environment)
    pub api_key: Option<String>,
}

impl Default for AiServiceConfig {
    fn default() -> (r: AiServiceConfig)
        ensures
            !r.enabled,
            r.api_endpoint is None,
            r.api_key is None,
    {
        AiServiceConfig { enabled: false, api_endpoint: None, api_key: None }
    }
}

/// Type of insight.
#[derive(Debug, Clone, Copy, PartialEq, Eq, Structural)]
pub enum InsightType {
    /// Productivity pattern detected
    ProductivityPattern,
    /// Suggestion for improvement
    Suggestion,
    /// Anomaly detected
    Anomaly,
    /// Achievement/milestone
    Achievement,
}

/// An insight; `confidence_percent` is the confidence in percent.
#[derive(Debug, Clone)]
pub struct Insight {
    pub title: String,
    pub description: String,
    pub confidence_percent: u8,
    pub insight_type: InsightType,
}

pub struct InsightView {
    pub title: Seq<char>,
    pub description: Seq<char>,
    pub confidence_percent: u8,
    pub insight_type: InsightType,
}

impl View for Insight {
    type V = InsightView;

    open spec fn view(&self) -> InsightView {
        InsightView {
            title: self.title@,
            description: self.description@,
            confidence_percent: self.confidence_percent,
            insight_type: self.insight_type,
        }
    }
}

pub open spec fn insight_views(v: Seq<Insight>) -> Seq<InsightView> {
    v.map_values(|i: Insight| i@)
}

/// The activity level of a day with `total` file events.
pub open spec fn day_description(total: u64) -> Seq<char> {
    if total > 100 {
        "Very high activity today! Great productivity."@
    } else if total > 50 {
        "Solid day of work with good activity levels."@
    } else if total > 20 {
        "Moderate activity today."@
    } else {
        "Light activity day. Consider if this was intentional."@
    }
}

/// How many of `snaps` have the directory `dir`.
pub open spec fn dir_count(snaps: Seq<SnapshotView>, dir: Option<Seq<char>>) -> nat
    decreases snaps.len(),
{
    if snaps.len() == 0 {
        0
    } else {
        dir_count(snaps.drop_last(), dir) + if snaps.last().active_directory == dir { 1nat } else { 0nat }
    }
}

/// At least ten snapshots, the newest names a directory, and more than half share it.
pub open spec fn focused(snaps: Seq<SnapshotView>) -> bool {
    &&& snaps.len() >= 10
    &&& snaps[0].active_directory is Some
    &&& dir_count(snaps, snaps[0].active_directory) > snaps.len() / 2
}

pub open spec fn focus_insight(dir: Seq<char>) -> InsightView {
    InsightView {
        title: "Focused Work Session"@,
        description: "You've been consistently working in "@ + dir + ". Great focus!"@,
        confidence_percent: 70,
        insight_type: InsightType::ProductivityPattern,
    }
}

pub open spec fn milestone_insight() -> InsightView {
    InsightView {
        title: "Session Milestone"@,
        description: "100+ context captures in this session. You're on a roll!"@,
        confidence_percent: 90,
        insight_type: InsightType::Achievement,
    }
}

/// The insights for `snaps` when the service is enabled.
pub open spec fn insights_for(snaps: Seq<SnapshotView>) -> Seq<InsightView> {
    (if focused(snaps) { seq![focus_insight(snaps[0].active_directory.unwrap())] } else { Seq::empty() }) + (if snaps.len()
        >= 100 { seq![milestone_insight()] } else { Seq::empty() })
}

/// The suggestions for `snaps` at local hour `hour`.
pub open spec fn suggestions_for(hour: u32, snaps: Seq<SnapshotView>) -> Seq<Seq<char>> {
    (if hour >= 17 { seq!["Consider wrapping up and reviewing today's work."@] } else { Seq::empty() }) + (if snaps.len()
        > 50 { seq!["High activity session! Take a break when ready."@] } else { Seq::empty() }) + (if present_values(
        snaps.map_values(|s: SnapshotView| s.active_directory),
    ).len() > 5 {
        seq!["You've touched many different areas. Consider focusing on completing one task fully."@]
    } else {
        Seq::empty()
    })
}

/// The suggestions of a service that is `enabled`, at local hour `hour`.
pub open spec fn suggestions_result(enabled: bool, hour: u32, snaps: Seq<SnapshotView>) -> Seq<Seq<char>> {
    if enabled {
        suggestions_for(hour, snaps)
    } else {
        Seq::empty()
    }
}

/// Relies on chrono::Local::now and Timelike::hour: the hour of the local
/// time now, which is below 24.
#[verifier::external_body]
fn local_hour() -> (r: u32)
    ensures
        r < 24,
{
    chrono::Local::now().hour()
}

/// Rule-based insight service.
pub struct AiService {
    config: AiServiceConfig,
}

impl AiService {
    pub closed spec fn enabled(&self) -> bool {
        self.config.enabled
    }

    pub closed spec fn has_key(&self) -> bool {
        self.config.api_key is Some
    }

    /// A service with `config`.
    pub fn new(config: AiServiceConfig) -> (r: AiService)
        ensures
            r.enabled() == config.enabled,
            r.has_key() == config.api_key is Some,
    {
        AiService { config }
    }

    /// Whether AI features are available: enabled and given a key.
    pub fn is_available(&self) -> (r: bool)
        ensures
            r == (self.enabled() && self.has_key()),
    {
        self.config.enabled && self.config.api_key.is_some()
    }

    /// The focused-work insight, when more than half of at least ten
    /// snapshots (newest first) share the newest one's directory.
    fn detect_productivity_pattern(&self, snapshots: &Vec<Snapshot>) -> (r: Option<Insight>)
        ensures
            r is Some <==> focused(snapshot_views(snapshots@)),
            r matches Some(i) ==> i@ == focus_insight(snapshot_views(snapshots@)[0].active_directory.unwrap()),
    {
        let ghost snaps = snapshot_views(snapshots@);
        let n = snapshots.len();
        if n < 10 {
            return None;
        }
        assert(snaps[0] == snapshots@[0]@);
        let first = &snapshots[0].active_directory;
        let dir = match first {
            Some(d) => d,
            None => {
                return None;
            },
        };
        let mut same: usize = 0;
        let mut i: usize = 0;
        while i < n
            invariant
                n == snapshots.len(),
                snaps == snapshot_views(snapshots@),
                i <= n,
                same <= i,
                same == dir_count(snaps.take(i as int), opt_view(*first)),
            decreases n - i,
        {
            assert(snaps.take(i + 1).drop_last() =~= snaps.take(i as int));
            assert(snaps[i as int] == snapshots@[i as int]@);
            if opt_str_eq(&snapshots[i].active_directory, first) {
                same = same + 1;
            }
            i = i + 1;
        }
        assert(snaps.take(n as int) =~= snaps);
        if same > n / 2 {
            let description = String::from_str("You've been consistently working in ").concat(dir.as_str()).concat(
                ". Great focus!",
            );
            Some(
                Insight {
                    title: String::from_str("Focused Work Session"),
                    description,
                    confidence_percent: 70,
                    insight_type: InsightType::ProductivityPattern,
                },
            )
        } else {
            None
        }
    }

    /// The milestone insight, for a hundred snapshots or more.
    fn detect_achievements(&self, snapshots: &Vec<Snapshot>) -> (r: Option<Insight>)
        ensures
            r is Some <==> snapshots@.len() >= 100,
            r matches Some(i) ==> i@ == milestone_insight(),
    {
        if snapshots.len() >= 100 {
            Some(
                Insight {
                    title: String::from_str("Session Milestone"),
                    description: String::from_str("100+ context captures in this session. You're on a roll!"),
                    confidence_percent: 90,
                    insight_type: InsightType::Achievement,
                },
            )
        } else {
            None
        }
    }

    /// Insights from recent snapshots (newest first); none when disabled.
    pub fn generate_insights(&self, snapshots: &Vec<Snapshot>) -> (r: Vec<Insight>)
        ensures
            insight_views(r@) == if self.enabled() { insights_for(snapshot_views(snapshots@)) } else { Seq::empty() },
    {
        let mut out: Vec<Insight> = Vec::new();
        if !self.config.enabled {
            assert(insight_views(out@) =~= Seq::<InsightView>::empty());
            return out;
        }
        match self.detect_productivity_pattern(snapshots) {
            Some(i) => out.push(i),
            None => {},
        }
        match self.detect_achievements(snapshots) {
            Some(i) => out.push(i),
            None => {},
        }
        assert(snapshot_views(snapshots@).len() == snapshots@.len());
        assert(insight_views(out@) =~= insights_for(snapshot_views(snapshots@)));
        out
    }

    /// A summary insight for a day; none when disabled or without events.
    pub fn summarize_day(&self, summary: &DailySummary) -> (r: Option<Insight>)
        ensures
            r is None <==> !self.enabled() || summary.total_events == 0,
            r matches Some(i) ==> i@ == (InsightView {
                title: "Daily Activity Summary"@,
                description: day_description(summary.total_events),
                confidence_percent: 80,
                insight_type: InsightType::ProductivityPattern,
            }),
    {
        if !self.config.enabled {
            return None;
        }
        if summary.total_events == 0 {
            return None;
        }
        let description = if summary.total_events > 100 {
            String::from_str("Very high activity today! Great productivity.")
        } else if summary.total_events > 50 {
            String::from_str("Solid day of work with good activity levels.")
        } else if summary.total_events > 20 {
            String::from_str("Moderate activity today.")
        } else {
            String::from_str("Light activity day. Consider if this was intentional.")
        };
        Some(
            Insight {
                title: String::from_str("Daily Activity Summary"),
                description,
                confidence_percent: 80,
                insight_type: InsightType::ProductivityPattern,
            },
        )
    }

    /// Suggestions for snapshots at local hour `hour`; none when disabled.
    pub fn suggestions_at(&self, hour: u32, snapshots: &Vec<Snapshot>) -> (r: Vec<String>)
        ensures
            r@.map_values(|s: String| s@) == suggestions_result(self.enabled(), hour, snapshot_views(snapshots@)),
    {
        let mut out: Vec<String> = Vec::new();
        if !self.config.enabled {
            assert(out@.map_values(|s: String| s@) =~= Seq::<Seq<char>>::empty());
            return out;
        }
        let ghost snaps = snapshot_views(snapshots@);
        if hour >= 17 {
            out.push(String::from_str("Consider wrapping up and reviewing today's work."));
        }
        if snapshots.len() > 50 {
            out.push(String::from_str("High activity session! Take a break when ready."));
        }
        let mut dirs: Vec<Option<String>> = Vec::new();
        let n = snapshots.len();
        let mut i: usize = 0;
        while i < n
            invariant
                n == snapshots.len(),
                snaps == snapshot_views(snapshots@),
                i <= n,
                opt_views(dirs@) == snaps.map_values(|s: SnapshotView| s.active_directory).take(i as int),
            decreases n - i,
        {
            let ghost d0 = dirs@;
            let d = crate::text::clone_opt(&snapshots[i].active_directory);
            dirs.push(d);
            assert(snaps[i as int] == snapshots@[i as int]@);
            assert(opt_views(dirs@) =~= opt_views(d0).push(opt_view(d)));
            assert(snaps.map_values(|s: SnapshotView| s.active_directory).take(i + 1) =~= snaps.map_values(
                |s: SnapshotView| s.active_directory,
            ).take(i as int).push(snaps[i as int].active_directory));
            i = i + 1;
        }
        assert(snaps.map_values(|s: SnapshotView| s.active_directory).take(n as int) =~= snaps.map_values(
            |s: SnapshotView| s.active_directory,
        ));
        if count_distinct(&dirs) > 5 {
            out.push(
                String::from_str(
                    "You've touched many different areas. Consider focusing on completing one task fully.",
                ),
            );
        }
        assert(out@.map_values(|s: String| s@) =~= suggestions_for(hour, snaps));
        out
    }

    /// Suggestions for snapshots at the current local hour; none when disabled.
    pub fn generate_suggestions(&self, snapshots: &Vec<Snapshot>) -> (r: Vec<String>)
        ensures
            exists|hour: u32|
                hour < 24 && r@.map_values(|s: String| s@) == #[trigger] suggestions_result(
                    self.enabled(),
                    hour,
                    snapshot_views(snapshots@),
                ),
    {
        let hour = local_hour();
        let r = self.suggestions_at(hour, snapshots);
        assert(r@.map_values(|s: String| s@) == suggestions_result(self.enabled(), hour, snapshot_views(snapshots@)));
        r
    }
}

} // verus!
