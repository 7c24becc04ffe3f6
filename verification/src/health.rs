//! Renderer degradation: client buffers that cannot be imported, and how often that is
//! reported.
//!
//! A failed import is a condition, not an event. A client that gives up after one refused
//! buffer never fails again, so the condition is reported anew every few seconds, until some
//! client buffer is handled.

use crate::state::State;
use vstd::prelude::*;

verus! {

/// How long a standing failure stays silent between two reports, in nanoseconds.
pub const REPORT_PERIOD: u64 = 5_000_000_000;

/// Something that bears on the condition.
#[derive(Debug, Clone, Copy, PartialEq, Eq, Structural)]
pub enum HealthEvent {
    /// A client buffer could not be imported.
    Failed { now: u64 },
    /// A client buffer was handled.
    Handled,
    /// A frame is due.
    Frame { now: u64 },
}

/// What became of a client's dmabuf.
#[derive(Debug, Clone, Copy, PartialEq, Eq, Structural)]
pub enum ImportOutcome {
    Imported,
    /// The renderer could not import it.
    Failed,
    /// It was refused without being tried, to exercise the failure path.
    Injected,
}

/// The answer to an import, and whether a degradation is reported with it.
#[derive(Debug, Clone, Copy, PartialEq, Eq, Structural)]
pub struct ImportReply {
    pub accepted: bool,
    pub report: bool,
}

/// What an import means for the condition.
pub open spec fn import_event(outcome: ImportOutcome, now: u64) -> HealthEvent {
    if outcome is Imported {
        HealthEvent::Handled
    } else {
        HealthEvent::Failed { now }
    }
}

/// The condition after `event`: the moment of the last report while it stands.
pub open spec fn health_after(active: Option<u64>, event: HealthEvent) -> Option<u64> {
    match event {
        HealthEvent::Failed { now } => if active is None {
            Some(now)
        } else {
            active
        },
        HealthEvent::Handled => None,
        HealthEvent::Frame { now } => if reports(active, event) {
            Some(now)
        } else {
            active
        },
    }
}

/// `event` is reported: the first failure at once, a standing one at the first frame a full
/// period after the last report.
pub open spec fn reports(active: Option<u64>, event: HealthEvent) -> bool {
    match event {
        HealthEvent::Failed { .. } => active is None,
        HealthEvent::Handled => false,
        HealthEvent::Frame { now } => active is Some && now - active->0 >= REPORT_PERIOD,
    }
}

/// The condition after all of `events`, in order.
pub open spec fn health_run(active: Option<u64>, events: Seq<HealthEvent>) -> Option<u64>
    decreases events.len(),
{
    if events.len() == 0 {
        active
    } else {
        health_after(health_run(active, events.drop_last()), events.last())
    }
}

/// `n` counted up by one, starting again at zero beyond the largest count.
pub open spec fn counted(n: u64) -> u64 {
    if n == u64::MAX {
        0
    } else {
        (n + 1) as u64
    }
}

impl State {
    /// This state after `event`.
    pub open spec fn with_health(self, event: HealthEvent) -> State {
        State {
            renderer_degraded_active: health_after(self.renderer_degraded_active, event),
            renderer_degraded: if reports(self.renderer_degraded_active, event) {
                counted(self.renderer_degraded)
            } else {
                self.renderer_degraded
            },
            ..self
        }
    }

    /// A client buffer could not be imported. The first failure is reported at once. A further
    /// one while the condition stands leaves the moment of the last report as it is, so that a
    /// client that tries again every frame can neither flood the reports nor hold them off.
    pub fn note_renderer_degraded(&mut self, now: u64) -> (report: bool)
        ensures
            *final(self) == old(self).with_health(HealthEvent::Failed { now }),
            report == reports(old(self).renderer_degraded_active, HealthEvent::Failed { now }),
            old(self).wf() ==> final(self).wf(),
    {
        if self.renderer_degraded_active.is_some() {
            return false;
        }
        self.renderer_degraded = self.renderer_degraded.wrapping_add(1);
        self.renderer_degraded_active = Some(now);
        true
    }

    /// A client buffer was handled, so the client is alive and any failure before was
    /// transient.
    pub fn clear_renderer_degraded(&mut self)
        ensures
            *final(self) == old(self).with_health(HealthEvent::Handled),
            old(self).wf() ==> final(self).wf(),
    {
        self.renderer_degraded_active = None;
    }

    /// A frame is due: report a condition that has stood for a full period since the last
    /// report.
    pub fn tick_renderer_degraded(&mut self, now: u64) -> (report: bool)
        ensures
            *final(self) == old(self).with_health(HealthEvent::Frame { now }),
            report == reports(old(self).renderer_degraded_active, HealthEvent::Frame { now }),
            old(self).wf() ==> final(self).wf(),
    {
        let last_report: u64 = match self.renderer_degraded_active {
            Some(at) => at,
            None => {
                return false;
            },
        };
        if now.saturating_sub(last_report) < REPORT_PERIOD {
            return false;
        }
        self.renderer_degraded_active = Some(now);
        self.renderer_degraded = self.renderer_degraded.wrapping_add(1);
        true
    }

    /// A client handed in a dmabuf, over either of the protocols for it.
    pub fn dmabuf_imported(&mut self, outcome: ImportOutcome, now: u64) -> (reply: ImportReply)
        ensures
            ({
                let event = if outcome is Imported {
                    HealthEvent::Handled
                } else {
                    HealthEvent::Failed { now }
                };
                &&& *final(self) == old(self).with_health(event)
                &&& reply.accepted == (outcome is Imported)
                &&& reply.report == reports(old(self).renderer_degraded_active, event)
            }),
            *final(self) == old(self).with_health(import_event(outcome, now)),
            reply.accepted <==> outcome == ImportOutcome::Imported,
            reply.report <==> outcome != ImportOutcome::Imported && old(
                self,
            ).renderer_degraded_active is None,
            old(self).wf() ==> final(self).wf(),
    {
        match outcome {
            ImportOutcome::Imported => {
                self.clear_renderer_degraded();
                ImportReply { accepted: true, report: false }
            },
            ImportOutcome::Failed | ImportOutcome::Injected => {
                let report = self.note_renderer_degraded(now);
                ImportReply { accepted: false, report }
            },
        }
    }
}

/// `setting` makes every import fail.
pub open spec fn refuses(setting: Option<Seq<char>>) -> bool {
    setting == Some("1"@) || setting == Some("true"@)
}

/// The setting under which every import is refused without being tried, to exercise the
/// failure path: `1` or `true`, and nothing else.
pub fn debug_fail_dmabuf_import(setting: Option<&str>) -> (refuse: bool)
    ensures
        refuse == (setting matches Some(s) && (s@ == "1"@ || s@ == "true"@)),
        refuse == refuses(
            match setting {
                Some(s) => Some(s@),
                None => None,
            },
        ),
{
    match setting {
        Some(s) => {
            let given = s.to_owned();
            given == "1".to_owned() || given == "true".to_owned()
        },
        None => false,
    }
}

/// From one report on, failures and frames within the period bring no other, however many
/// there are; and the first frame beyond it does.
pub proof fn law_a_standing_failure_is_reported_once_a_period(
    last_report: u64,
    events: Seq<HealthEvent>,
    now: u64,
)
    requires
        forall|i: int|
            0 <= i < events.len() ==> match #[trigger] events[i] {
                HealthEvent::Failed { .. } => true,
                HealthEvent::Handled => false,
                HealthEvent::Frame { now } => now < last_report + REPORT_PERIOD,
            },
        now >= last_report + REPORT_PERIOD,
    ensures
        health_run(Some(last_report), events) == Some(last_report),
        forall|i: int|
            0 <= i < events.len() ==> !reports(
                #[trigger] health_run(Some(last_report), events.take(i)),
                events[i],
            ),
        reports(health_run(Some(last_report), events), HealthEvent::Frame { now }),
    decreases events.len(),
{
    if events.len() > 0 {
        let rest = events.drop_last();
        law_a_standing_failure_is_reported_once_a_period(last_report, rest, now);
        assert forall|i: int| 0 <= i < events.len() implies !reports(
            #[trigger] health_run(Some(last_report), events.take(i)),
            events[i],
        ) by {
            if i < rest.len() {
                assert(rest.take(i) =~= events.take(i));
                assert(rest[i] == events[i]);
            } else {
                assert(events.take(i) =~= rest);
            }
        }
        assert(events[events.len() - 1] == events.last());
    }
}

/// Once a buffer has been handled, frames report nothing until an import fails again, and
/// that failure is reported at once.
pub proof fn law_a_handled_buffer_ends_the_condition(
    active: Option<u64>,
    frames: Seq<u64>,
    failed_at: u64,
)
    ensures
        ({
            let quiet = seq![HealthEvent::Handled] + frames.map_values(
                |now: u64| HealthEvent::Frame { now },
            );
            &&& health_run(active, quiet) is None
            &&& forall|i: int|
                0 <= i < quiet.len() ==> !reports(
                    #[trigger] health_run(active, quiet.take(i)),
                    quiet[i],
                )
            &&& reports(health_run(active, quiet), HealthEvent::Failed { now: failed_at })
        }),
    decreases frames.len(),
{
    let frame = |now: u64| HealthEvent::Frame { now };
    let quiet = seq![HealthEvent::Handled] + frames.map_values(frame);
    if frames.len() == 0 {
        assert(quiet.drop_last() =~= Seq::empty());
        assert(quiet.last() == HealthEvent::Handled);
        assert forall|i: int| 0 <= i < quiet.len() implies !reports(
            #[trigger] health_run(active, quiet.take(i)),
            quiet[i],
        ) by {}
    } else {
        let fewer = frames.drop_last();
        let rest = seq![HealthEvent::Handled] + fewer.map_values(frame);
        law_a_handled_buffer_ends_the_condition(active, fewer, failed_at);
        assert(quiet.drop_last() =~= rest);
        assert forall|i: int| 0 <= i < quiet.len() implies !reports(
            #[trigger] health_run(active, quiet.take(i)),
            quiet[i],
        ) by {
            if i < rest.len() {
                assert(rest.take(i) =~= quiet.take(i));
                assert(rest[i] == quiet[i]);
            } else {
                assert(quiet.take(i) =~= rest);
            }
        }
    }
}

/// A failure is reported when none stands, and a frame reports a standing one five seconds or
/// more after the last report; a handled buffer is never reported. Every report is counted, and
/// nothing else is. While a failure stands, the moment of its last report is remembered.
pub proof fn law_reports_are_counted_and_remembered(state: State, event: HealthEvent)
    ensures
        ({
            let after = state.with_health(event);
            let active = state.renderer_degraded_active;
            let report = match event {
                HealthEvent::Failed { .. } => active is None,
                HealthEvent::Handled => false,
                HealthEvent::Frame { now } => active is Some && now >= active->0 + 5_000_000_000,
            };
            let n = state.renderer_degraded;
            &&& reports(active, event) <==> report
            &&& report && n < u64::MAX ==> after.renderer_degraded == n + 1
            &&& report && n == u64::MAX ==> after.renderer_degraded == 0
            &&& !report ==> after.renderer_degraded == n
            &&& event matches HealthEvent::Failed { now } ==> after.renderer_degraded_active
                == (if active is None {
                Some(now)
            } else {
                active
            })
            &&& event matches HealthEvent::Frame { now } ==> after.renderer_degraded_active == (
            if report {
                Some(now)
            } else {
                active
            })
            &&& event is Handled ==> after.renderer_degraded_active is None
            &&& after == (State {
                renderer_degraded: after.renderer_degraded,
                renderer_degraded_active: after.renderer_degraded_active,
                ..state
            })
        }),
{
}

/// A buffer that was imported ends a standing failure. One that was not, tried or untried, is a
/// failure of that moment unless one stands already, and is then counted.
pub proof fn law_a_refused_import_is_a_failure(state: State, outcome: ImportOutcome, now: u64)
    ensures
        ({
            let after = state.with_health(import_event(outcome, now));
            let active = state.renderer_degraded_active;
            &&& outcome == ImportOutcome::Imported ==> after.renderer_degraded_active is None
                && after.renderer_degraded == state.renderer_degraded
            &&& outcome != ImportOutcome::Imported && active is None
                ==> after.renderer_degraded_active == Some(now) && after.renderer_degraded == (
            if state.renderer_degraded == u64::MAX {
                0
            } else {
                state.renderer_degraded + 1
            })
            &&& outcome != ImportOutcome::Imported && active is Some
                ==> after.renderer_degraded_active == active && after.renderer_degraded
                == state.renderer_degraded
        }),
{
}

/// Without the setting imports are tried, and so they are with any text but `1` or `true`.
pub proof fn law_imports_are_tried_unless_told_otherwise(text: Seq<char>)
    ensures
        !refuses(None),
        refuses(Some("1"@)),
        refuses(Some("true"@)),
        text != "1"@ && text != "true"@ ==> !refuses(Some(text)),
{
}

} // verus!
