//! The kinds of thing that can be counted.

use vstd::prelude::*;

verus! {

/// Something that can be counted: a kind of occurrence, never its details.
#[derive(Debug, Clone, Copy, PartialEq, Eq, PartialOrd, Ord, Hash, Structural)]
#[non_exhaustive]
pub enum Event {
    /// A plan was asked for.
    PlanRequested,
    /// A plan was kept as it was.
    PlanKept,
    /// A plan was adjusted.
    PlanAdjusted,
    /// A plan was rejected.
    PlanRejected,
    /// An alternative was chosen.
    AlternativeChosen,
    /// A track was analysed.
    TrackAnalysed,
    /// An analysis failed.
    AnalysisFailed,
    /// An analysis was corrected by hand.
    AnalysisCorrected,
    /// An export completed.
    ExportCompleted,
    /// An export was blocked.
    ExportBlocked,
    /// A plugin was bypassed.
    PluginBypassed,
    /// A plugin crashed.
    PluginCrashed,
    /// The cloud could not be reached.
    CloudUnreachable,
    /// Work was deferred.
    WorkDeferred,
}

/// Every event, in declaration order.
pub open spec fn all_events() -> Seq<Event> {
    seq![
        Event::PlanRequested,
        Event::PlanKept,
        Event::PlanAdjusted,
        Event::PlanRejected,
        Event::AlternativeChosen,
        Event::TrackAnalysed,
        Event::AnalysisFailed,
        Event::AnalysisCorrected,
        Event::ExportCompleted,
        Event::ExportBlocked,
        Event::PluginBypassed,
        Event::PluginCrashed,
        Event::CloudUnreachable,
        Event::WorkDeferred,
    ]
}

/// The position of each event in declaration order.
pub open spec fn event_index(event: Event) -> int {
    match event {
        Event::PlanRequested => 0,
        Event::PlanKept => 1,
        Event::PlanAdjusted => 2,
        Event::PlanRejected => 3,
        Event::AlternativeChosen => 4,
        Event::TrackAnalysed => 5,
        Event::AnalysisFailed => 6,
        Event::AnalysisCorrected => 7,
        Event::ExportCompleted => 8,
        Event::ExportBlocked => 9,
        Event::PluginBypassed => 10,
        Event::PluginCrashed => 11,
        Event::CloudUnreachable => 12,
        Event::WorkDeferred => 13,
    }
}

/// Whether an event is a fault, reported under crash diagnostics rather than
/// usage.
pub open spec fn event_is_a_fault(event: Event) -> bool {
    event is AnalysisFailed || event is ExportBlocked || event is PluginBypassed || event is PluginCrashed
        || event is CloudUnreachable
}

/// The stable key of each event.
pub open spec fn event_key(event: Event) -> Seq<char> {
    match event {
        Event::PlanRequested => "event.plan_requested"@,
        Event::PlanKept => "event.plan_kept"@,
        Event::PlanAdjusted => "event.plan_adjusted"@,
        Event::PlanRejected => "event.plan_rejected"@,
        Event::AlternativeChosen => "event.alternative_chosen"@,
        Event::TrackAnalysed => "event.track_analysed"@,
        Event::AnalysisFailed => "event.analysis_failed"@,
        Event::AnalysisCorrected => "event.analysis_corrected"@,
        Event::ExportCompleted => "event.export_completed"@,
        Event::ExportBlocked => "event.export_blocked"@,
        Event::PluginBypassed => "event.plugin_bypassed"@,
        Event::PluginCrashed => "event.plugin_crashed"@,
        Event::CloudUnreachable => "event.cloud_unreachable"@,
        Event::WorkDeferred => "event.work_deferred"@,
    }
}

impl Event {
    /// Every event, in declaration order.
    pub fn all() -> (all: Vec<Event>)
        ensures
            all@ == all_events(),
    {
        let all = vec![
            Event::PlanRequested,
            Event::PlanKept,
            Event::PlanAdjusted,
            Event::PlanRejected,
            Event::AlternativeChosen,
            Event::TrackAnalysed,
            Event::AnalysisFailed,
            Event::AnalysisCorrected,
            Event::ExportCompleted,
            Event::ExportBlocked,
            Event::PluginBypassed,
            Event::PluginCrashed,
            Event::CloudUnreachable,
            Event::WorkDeferred,
        ];
        assert(all@ =~= all_events());
        all
    }

    /// The event's position in declaration order.
    pub fn index(self) -> (index: usize)
        ensures
            index == event_index(self),
            index < 14,
            all_events()[index as int] == self,
    {
        match self {
            Event::PlanRequested => 0,
            Event::PlanKept => 1,
            Event::PlanAdjusted => 2,
            Event::PlanRejected => 3,
            Event::AlternativeChosen => 4,
            Event::TrackAnalysed => 5,
            Event::AnalysisFailed => 6,
            Event::AnalysisCorrected => 7,
            Event::ExportCompleted => 8,
            Event::ExportBlocked => 9,
            Event::PluginBypassed => 10,
            Event::PluginCrashed => 11,
            Event::CloudUnreachable => 12,
            Event::WorkDeferred => 13,
        }
    }

    /// Whether the event is a fault.
    pub fn is_a_fault(self) -> (fault: bool)
        ensures
            fault == event_is_a_fault(self),
    {
        matches!(
            self,
            Event::AnalysisFailed | Event::ExportBlocked | Event::PluginBypassed | Event::PluginCrashed
                | Event::CloudUnreachable
        )
    }

    /// A stable identifier of the event.
    pub fn key(self) -> (key: &'static str)
        ensures
            key@ == event_key(self),
    {
        match self {
            Event::PlanRequested => "event.plan_requested",
            Event::PlanKept => "event.plan_kept",
            Event::PlanAdjusted => "event.plan_adjusted",
            Event::PlanRejected => "event.plan_rejected",
            Event::AlternativeChosen => "event.alternative_chosen",
            Event::TrackAnalysed => "event.track_analysed",
            Event::AnalysisFailed => "event.analysis_failed",
            Event::AnalysisCorrected => "event.analysis_corrected",
            Event::ExportCompleted => "event.export_completed",
            Event::ExportBlocked => "event.export_blocked",
            Event::PluginBypassed => "event.plugin_bypassed",
            Event::PluginCrashed => "event.plugin_crashed",
            Event::CloudUnreachable => "event.cloud_unreachable",
            Event::WorkDeferred => "event.work_deferred",
        }
    }
}

/// Distinct events have distinct positions.
pub proof fn lemma_event_index_distinct(a: Event, b: Event)
    ensures
        (event_index(a) == event_index(b)) == (a == b),
        0 <= event_index(a) < 14,
        all_events()[event_index(a)] == a,
{
}

} // verus!
