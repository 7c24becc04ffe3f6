//! The commands a session is driven by, and the frames it produces.

use crate::geometry::Size;
use crate::health::{reports, HealthEvent};
use crate::modes::{real_rungs, requested_size, ModeEffects, UiScaleStep};
use crate::state::State;
use crate::ui_scale::{clamped, is_finite};
use crate::video::BufferKind;
use crate::windows::{all_told, announcements, Announcement};
use vstd::prelude::*;

verus! {

/// A command to the display.
#[derive(Debug)]
pub enum Command {
    /// A format has been negotiated.
    VideoInfo,
    RenderSize { width: i32, height: i32 },
    ModeLadder(Vec<(i32, i32)>),
    /// The bit pattern of a binary64 number.
    UiScale { bits: u64 },
    /// An input device has appeared.
    InputDevice,
    /// A frame is wanted.
    Buffer,
    /// The consumer replaced the pool its CUDA buffers come from.
    UpdateCudaBufferPool,
    /// A key, a motion, a button, an axis or a touch.
    Input,
    GetSupportedDmaFormats,
    GetRenderDevice,
    /// The state of the output, which is only ever sent the other way.
    HdrState,
    Quit,
    /// Nobody is left to send commands.
    Closed,
}

/// What a command asks of the outside.
#[derive(Debug)]
pub enum Reaction {
    Nothing,
    /// Plan and allocate the output buffer, then apply the format.
    Negotiate,
    /// The output moved to another mode.
    Moved(ModeEffects),
    /// The windows were told the UI scale.
    Announced(Vec<Announcement>),
    AddInputDevice,
    /// Produce the frame now.
    Draw,
    /// Produce the frame after this many nanoseconds.
    DrawAfter { wait: u64 },
    /// Hand the new pool to the buffer in use.
    ReplacePool,
    /// Hand the event on, stamped with this many milliseconds.
    Forward { time: u32 },
    ReplyFormats,
    ReplyRenderDevice,
}

/// How a frame begins.
#[derive(Debug, Clone, Copy, PartialEq, Eq, Structural)]
pub struct FrameStart {
    /// The output state to signal to the producer.
    pub hdr: Option<bool>,
    /// A renderer degradation is reported.
    pub degraded: bool,
    /// There is a buffer to draw into. Without one the frame fails and the session ends.
    pub draw: bool,
}

/// How a frame ended.
#[derive(Debug, Clone, Copy, PartialEq, Eq, Structural)]
pub enum FrameEnd {
    /// It was drawn. `sent` is whether the consumer was still there to take it.
    Drawn { sent: bool },
    /// It could not be drawn, and the error was sent in its place.
    Failed { sent: bool },
}

/// What is told to the clients whose content was shown.
#[derive(Debug, Clone, Copy, PartialEq, Eq, Structural)]
pub enum Presentation {
    /// Nothing new was shown.
    Nothing,
    /// The frame was shown at this refresh rate, in millihertz, if it is known.
    Shown { refresh: Option<i32> },
}

/// A moment in milliseconds, as input events carry it: it starts again at zero every 2^32
/// milliseconds.
pub open spec fn stamp(now: u64) -> int {
    (now / 1_000_000) as int % 0x1_0000_0000
}

pub fn event_time(now: u64) -> (time: u32)
    ensures
        time == stamp(now),
{
    let millis: u64 = now / 1_000_000;
    (millis % 0x1_0000_0000) as u32
}

/// How long to hold a frame back: frames are at least a period apart.
pub open spec fn hold_back(last_render: Option<u64>, now: u64, period: u64) -> Option<int> {
    match last_render {
        Some(last) => {
            let passed = if now >= last {
                now - last
            } else {
                0
            };
            if passed < period {
                Some(period - passed)
            } else {
                None
            }
        },
        None => None,
    }
}

impl State {
    /// How long to hold the next frame back at `now`. `period` is the length of a frame at the
    /// negotiated rate, in nanoseconds.
    pub fn frame_wait(&self, now: u64, period: u64) -> (wait: Option<u64>)
        ensures
            wait is Some <==> hold_back(self.last_render, now, period) is Some,
            wait matches Some(w) ==> Some(w as int) == hold_back(self.last_render, now, period),
    {
        match self.last_render {
            Some(last) => {
                let passed: u64 = now.saturating_sub(last);
                if passed < period {
                    Some(period - passed)
                } else {
                    None
                }
            },
            None => None,
        }
    }

    /// The session is at its end once `command` was taken.
    pub open spec fn ends_with(self, command: Command) -> bool {
        self.should_quit || command is Quit || command is Closed
    }

    /// `after` is this state once a frame was begun at `now`, and `start` how it begins.
    pub open spec fn frame_begun(
        self,
        now: u64,
        declared: Option<bool>,
        after: State,
        start: FrameStart,
    ) -> bool {
        let switch = if self.hdr_signalled {
            self.hdr_switch().seen(now, self.is_hdr(declared))
        } else {
            self.hdr_switch()
        };
        let frame = HealthEvent::Frame { now };
        &&& after == (State {
            last_hdr_state: switch.signalled,
            hdr_candidate_since: switch.other_since,
            should_quit: self.should_quit || self.output_buffer is None,
            ..self.with_health(frame)
        })
        &&& start.hdr == (if switch.signalled == self.last_hdr_state {
            None
        } else {
            Some(switch.signalled)
        })
        &&& start.degraded == reports(self.renderer_degraded_active, frame)
        &&& start.draw == (self.output_buffer is Some)
    }

    /// This state once a frame that counts from `now` came to its end.
    pub open spec fn frame_ended(self, now: u64, end: FrameEnd) -> State {
        State {
            last_render: if end is Drawn {
                Some(now)
            } else {
                self.last_render
            },
            should_quit: self.should_quit || end == (FrameEnd::Drawn { sent: false }) || end == (
            FrameEnd::Failed { sent: false }),
            ..self
        }
    }

    /// What clients are told of a drawn frame.
    pub open spec fn shown(self, damaged: bool) -> Presentation {
        if damaged && self.output is Some {
            Presentation::Shown {
                refresh: match self.output->0.current_mode {
                    Some(mode) => Some(mode.refresh),
                    None => None,
                },
            }
        } else {
            Presentation::Nothing
        }
    }

    /// The answer to a command that changes nothing about the output or the windows.
    pub open spec fn answer(self, command: Command, now: u64, period: u64) -> Option<Reaction> {
        match command {
            Command::VideoInfo => Some(Reaction::Negotiate),
            Command::InputDevice => Some(Reaction::AddInputDevice),
            Command::Buffer => match hold_back(self.last_render, now, period) {
                Some(wait) => Some(Reaction::DrawAfter { wait: wait as u64 }),
                None => Some(Reaction::Draw),
            },
            Command::UpdateCudaBufferPool => if self.output_buffer == Some(BufferKind::Cuda) {
                Some(Reaction::ReplacePool)
            } else {
                Some(Reaction::Nothing)
            },
            Command::Input => Some(Reaction::Forward { time: stamp(now) as u32 }),
            Command::GetSupportedDmaFormats => Some(Reaction::ReplyFormats),
            Command::GetRenderDevice => Some(Reaction::ReplyRenderDevice),
            Command::HdrState | Command::Quit | Command::Closed => Some(Reaction::Nothing),
            Command::RenderSize { .. } | Command::ModeLadder(_) | Command::UiScale { .. } => None,
        }
    }

    /// Take a command. `period` is the length of a frame at the negotiated rate.
    pub fn dispatch(&mut self, command: Command, now: u64, period: u64) -> (reaction: Reaction)
        requires
            old(self).wf(),
        ensures
            final(self).wf(),
            old(self).has_mode() ==> final(self).has_mode(),
            final(self).should_quit == (old(self).should_quit || command is Quit
                || command is Closed),
            final(self).should_quit == old(self).ends_with(command),
            !(command is RenderSize || command is ModeLadder || command is UiScale)
                ==> *final(self) == (State {
                should_quit: final(self).should_quit,
                ..*old(self)
            }),
            match command {
                Command::VideoInfo => reaction is Negotiate,
                Command::RenderSize { width, height } => {
                    let size = Size { w: width, h: height };
                    let asked = State { render_size: requested_size(size), ..*old(self) };
                    let unchanged = requested_size(size) == old(self).render_size
                        && old(self).mode_matches();
                    if old(self).output is Some && !unchanged {
                        &&& reaction is Moved
                        &&& asked.moved_to(
                            asked.effective_size(),
                            asked.refresh(),
                            *final(self),
                            reaction->Moved_0,
                        )
                    } else {
                        &&& reaction is Nothing
                        &&& *final(self) == asked
                    }
                },
                Command::ModeLadder(ladder) => {
                    &&& reaction is Nothing
                    &&& final(self).mode_ladder@ == real_rungs(ladder@)
                    &&& old(self).ladder_readvertised(real_rungs(ladder@), *final(self))
                },
                Command::UiScale { bits } => {
                    let asked = State { ui_scale: clamped(bits), ..*old(self) };
                    if !is_finite(bits) || (old(self).output is Some && clamped(bits)
                        == old(self).ui_scale) {
                        &&& reaction is Nothing
                        &&& *final(self) == *old(self)
                    } else if old(self).output is None {
                        &&& reaction is Announced
                        &&& reaction->Announced_0@ == announcements(
                            asked.space@,
                            asked.ui_scale,
                            true,
                        ) + announcements(asked.pending_windows@, asked.ui_scale, false)
                        &&& final(self).space@ == all_told(asked.space@, asked.ui_scale)
                        &&& final(self).pending_windows@ == all_told(
                            asked.pending_windows@,
                            asked.ui_scale,
                        )
                        &&& *final(self) == (State {
                            space: final(self).space,
                            pending_windows: final(self).pending_windows,
                            ..asked
                        })
                    } else {
                        &&& reaction is Moved
                        &&& asked.moved_to(
                            asked.effective_size(),
                            asked.refresh(),
                            *final(self),
                            reaction->Moved_0,
                        )
                    }
                },
                Command::InputDevice => reaction is AddInputDevice,
                Command::Buffer => match hold_back(old(self).last_render, now, period) {
                    Some(wait) => reaction matches Reaction::DrawAfter { wait: w } && w == wait,
                    None => reaction is Draw,
                },
                Command::UpdateCudaBufferPool => if old(self).output_buffer == Some(
                    BufferKind::Cuda,
                ) {
                    reaction is ReplacePool
                } else {
                    reaction is Nothing
                },
                Command::Input => reaction matches Reaction::Forward { time } && time == stamp(
                    now,
                ),
                Command::GetSupportedDmaFormats => reaction is ReplyFormats,
                Command::GetRenderDevice => reaction is ReplyRenderDevice,
                Command::HdrState | Command::Quit | Command::Closed => reaction is Nothing,
            },
            old(self).answer(command, now, period) matches Some(answer) ==> reaction == answer,
            command matches Command::RenderSize { width, height } ==> old(
                self,
            ).render_size_applied(
                Size { w: width, h: height },
                *final(self),
                match reaction {
                    Reaction::Moved(effects) => Some(effects),
                    _ => None,
                },
            ),
            command matches Command::UiScale { bits } ==> exists|step: UiScaleStep| #[trigger]
                old(self).ui_scale_applied(bits, *final(self), step) && match step {
                    UiScaleStep::Ignored | UiScaleStep::Unchanged => reaction is Nothing,
                    UiScaleStep::Stored(notes) => reaction == Reaction::Announced(notes),
                    UiScaleStep::Moved(effects) => reaction == Reaction::Moved(effects),
                },
    {
        match command {
            Command::VideoInfo => Reaction::Negotiate,
            Command::RenderSize { width, height } => {
                match self.apply_render_size(Size { w: width, h: height }) {
                    Some(effects) => Reaction::Moved(effects),
                    None => Reaction::Nothing,
                }
            },
            Command::ModeLadder(ladder) => {
                self.apply_mode_ladder(&ladder);
                Reaction::Nothing
            },
            Command::UiScale { bits } => match self.apply_ui_scale(bits) {
                UiScaleStep::Ignored | UiScaleStep::Unchanged => Reaction::Nothing,
                UiScaleStep::Stored(notes) => Reaction::Announced(notes),
                UiScaleStep::Moved(effects) => Reaction::Moved(effects),
            },
            Command::InputDevice => Reaction::AddInputDevice,
            Command::Buffer => match self.frame_wait(now, period) {
                Some(wait) => Reaction::DrawAfter { wait },
                None => Reaction::Draw,
            },
            Command::UpdateCudaBufferPool => match self.output_buffer {
                Some(BufferKind::Cuda) => Reaction::ReplacePool,
                _ => Reaction::Nothing,
            },
            Command::Input => Reaction::Forward { time: event_time(now) },
            Command::GetSupportedDmaFormats => Reaction::ReplyFormats,
            Command::GetRenderDevice => Reaction::ReplyRenderDevice,
            Command::HdrState => Reaction::Nothing,
            Command::Quit | Command::Closed => {
                self.should_quit = true;
                Reaction::Nothing
            },
        }
    }

    /// Begin a frame at `now`. The output state and a standing degradation are looked at
    /// before the buffer is, so that they are seen even by frames that cannot be drawn.
    /// `declared` is what the active surface says of its content.
    pub fn begin_frame(&mut self, now: u64, declared: Option<bool>) -> (start: FrameStart)
        requires
            old(self).wf(),
        ensures
            final(self).wf(),
            old(self).has_mode() ==> final(self).has_mode(),
            ({
                let switch = if old(self).hdr_signalled {
                    old(self).hdr_switch().seen(
                        now,
                        old(self).is_hdr(declared),
                    )
                } else {
                    old(self).hdr_switch()
                };
                let frame = HealthEvent::Frame { now };
                &&& *final(self) == (State {
                    last_hdr_state: switch.signalled,
                    hdr_candidate_since: switch.other_since,
                    should_quit: old(self).should_quit || old(self).output_buffer is None,
                    ..old(self).with_health(frame)
                })
                &&& start.hdr == (if switch.signalled == old(self).last_hdr_state {
                    None
                } else {
                    Some(switch.signalled)
                })
                &&& start.degraded == reports(old(self).renderer_degraded_active, frame)
                &&& start.draw == (old(self).output_buffer is Some)
            }),
            old(self).frame_begun(now, declared, *final(self), start),
    {
        let hdr = self.update_hdr_state(now, declared);
        let degraded = self.tick_renderer_degraded(now);
        let draw = self.output_buffer.is_some();
        if !draw {
            self.should_quit = true;
        }
        FrameStart { hdr, degraded, draw }
    }

    /// End a frame. `now` is the moment it is counted from: when it was begun or, for one that
    /// was held back, when it was due. A consumer that is gone ends the session.
    pub fn end_frame(&mut self, now: u64, end: FrameEnd)
        requires
            old(self).wf(),
            old(self).output_buffer is Some,
        ensures
            final(self).wf(),
            old(self).has_mode() ==> final(self).has_mode(),
            *final(self) == (State {
                last_render: if end is Drawn {
                    Some(now)
                } else {
                    old(self).last_render
                },
                should_quit: old(self).should_quit || end == (FrameEnd::Drawn { sent: false })
                    || end == (FrameEnd::Failed { sent: false }),
                ..*old(self)
            }),
            *final(self) == old(self).frame_ended(now, end),
    {
        let sent = match end {
            FrameEnd::Drawn { sent } => {
                self.last_render = Some(now);
                sent
            },
            FrameEnd::Failed { sent } => sent,
        };
        if !sent {
            self.should_quit = true;
        }
    }

    /// The frame that was held back can never be produced: no timer could be set.
    pub fn timer_failed(&mut self)
        ensures
            *final(self) == (State { should_quit: true, ..*old(self) }),
            old(self).wf() ==> final(self).wf(),
    {
        self.should_quit = true;
    }

    /// What clients are told of a drawn frame, given whether it changed anything.
    pub fn presentation(&self, damaged: bool) -> (note: Presentation)
        ensures
            note == (if damaged && self.output is Some {
                Presentation::Shown {
                    refresh: match self.output->0.current_mode {
                        Some(mode) => Some(mode.refresh),
                        None => None,
                    },
                }
            } else {
                Presentation::Nothing
            }),
            note == self.shown(damaged),
    {
        match &self.output {
            Some(output) => if damaged {
                let refresh = match output.current_mode {
                    Some(mode) => Some(mode.refresh),
                    None => None,
                };
                Presentation::Shown { refresh }
            } else {
                Presentation::Nothing
            },
            None => Presentation::Nothing,
        }
    }
}

/// A frame that is held back is produced exactly one period after the last one.
pub proof fn law_frames_are_a_period_apart(last: u64, now: u64, period: u64)
    requires
        last <= now,
    ensures
        match hold_back(Some(last), now, period) {
            Some(wait) => now + wait == last + period,
            None => now >= last + period,
        },
{
}

/// A frame is never held back before the first one, nor once a period has passed since the
/// last. Otherwise it is held back for what is left of the period, all of it if the last frame
/// lies ahead.
pub proof fn law_a_frame_waits_for_what_is_left_of_the_period(
    last_render: Option<u64>,
    now: u64,
    period: u64,
)
    ensures
        last_render is None ==> hold_back(last_render, now, period) is None,
        last_render is Some && now >= last_render->0 + period ==> hold_back(
            last_render,
            now,
            period,
        ) is None,
        last_render is Some && last_render->0 <= now < last_render->0 + period ==> hold_back(
            last_render,
            now,
            period,
        ) == Some(last_render->0 + period - now),
        last_render is Some && now < last_render->0 && period > 0 ==> hold_back(
            last_render,
            now,
            period,
        ) == Some(period as int),
{
}

/// The stamp of a moment counts whole milliseconds: it stays within one, goes on by one with
/// the next, and begins at zero again after the largest 32-bit number.
pub proof fn law_stamps_count_milliseconds(now: u64, within: u64)
    requires
        within < 1_000_000,
        now % 1_000_000 == 0,
        now <= u64::MAX - 1_000_000,
    ensures
        0 <= stamp(now) <= u32::MAX,
        now == 0 ==> stamp(now) == 0,
        stamp((now + within) as u64) == stamp(now),
        stamp(now) < u32::MAX ==> stamp((now + 1_000_000) as u64) == stamp(now) + 1,
        stamp(now) == u32::MAX ==> stamp((now + 1_000_000) as u64) == 0,
{
    let millis = now / 1_000_000;
    assert((now + within) / 1_000_000 == millis as int);
    assert((now + 1_000_000) / 1_000_000 == millis + 1);
}

/// A frame without a buffer to draw into fails, and ends the session; one with a buffer is
/// drawn. Either way a degradation that has stood for five seconds since its last report is
/// reported, and so is a change of the output that has held.
pub proof fn law_a_frame_begins_with_what_is_due(
    before: State,
    now: u64,
    declared: Option<bool>,
    after: State,
    start: FrameStart,
)
    requires
        before.frame_begun(now, declared, after, start),
    ensures
        start.draw <==> before.output_buffer is Some,
        after.should_quit <==> before.should_quit || before.output_buffer is None,
        start.degraded <==> before.renderer_degraded_active is Some && now
            >= before.renderer_degraded_active->0 + 5_000_000_000,
        ({
            let hdr = before.space@.len() > 0 && (before.space@[0].content_is_pq || declared
                == Some(true));
            let since = before.hdr_candidate_since;
            &&& start.hdr is Some <==> before.hdr_signalled && hdr != before.last_hdr_state
                && since is Some && now >= since->0 + 600_000_000
            &&& start.hdr is Some ==> start.hdr == Some(hdr) && after.last_hdr_state == hdr
            &&& start.hdr is None ==> after.last_hdr_state == before.last_hdr_state
        }),
        after.last_render == before.last_render,
        after.output_buffer == before.output_buffer,
        after.video_info == before.video_info,
        after.output == before.output,
        after.space == before.space,
{
}

/// Only a frame that was drawn counts as the last one; a consumer that took neither a frame nor
/// an error ends the session. Nothing else changes.
pub proof fn law_only_a_drawn_frame_counts(before: State, now: u64, end: FrameEnd)
    ensures
        ({
            let after = before.frame_ended(now, end);
            let sent = match end {
                FrameEnd::Drawn { sent } => sent,
                FrameEnd::Failed { sent } => sent,
            };
            &&& end is Drawn ==> after.last_render == Some(now)
            &&& end is Failed ==> after.last_render == before.last_render
            &&& after.should_quit <==> before.should_quit || !sent
            &&& after == (State {
                last_render: after.last_render,
                should_quit: after.should_quit,
                ..before
            })
        }),
{
}

/// Clients hear of a frame when it changed something and there is an output, with the rate the
/// output runs at if it runs at any.
pub proof fn law_a_changed_frame_is_shown_at_the_current_rate(state: State, damaged: bool)
    ensures
        state.shown(damaged) is Shown <==> damaged && state.output is Some,
        damaged && state.output is Some ==> {
            let mode = state.output->0.current_mode;
            let refresh = state.shown(damaged)->refresh;
            &&& refresh is Some <==> mode is Some
            &&& refresh is Some ==> refresh->0 == mode->0.refresh
        },
{
}

/// What a command that leaves the output and the windows alone is answered with. A frame is
/// drawn at once or after what is left of the period, and a new pool is handed on only to a
/// CUDA buffer.
pub proof fn law_commands_have_their_answers(state: State, now: u64, period: u64)
    ensures
        state.answer(Command::VideoInfo, now, period) == Some(Reaction::Negotiate),
        state.answer(Command::InputDevice, now, period) == Some(Reaction::AddInputDevice),
        state.answer(Command::GetSupportedDmaFormats, now, period) == Some(
            Reaction::ReplyFormats,
        ),
        state.answer(Command::GetRenderDevice, now, period) == Some(Reaction::ReplyRenderDevice),
        state.answer(Command::HdrState, now, period) == Some(Reaction::Nothing),
        state.answer(Command::Quit, now, period) == Some(Reaction::Nothing),
        state.answer(Command::Closed, now, period) == Some(Reaction::Nothing),
        state.output_buffer == Some(BufferKind::Cuda) ==> state.answer(
            Command::UpdateCudaBufferPool,
            now,
            period,
        ) == Some(Reaction::ReplacePool),
        state.output_buffer != Some(BufferKind::Cuda) ==> state.answer(
            Command::UpdateCudaBufferPool,
            now,
            period,
        ) == Some(Reaction::Nothing),
        state.last_render is None ==> state.answer(Command::Buffer, now, period) == Some(
            Reaction::Draw,
        ),
        state.last_render is Some && now >= state.last_render->0 + period ==> state.answer(
            Command::Buffer,
            now,
            period,
        ) == Some(Reaction::Draw),
        state.last_render is Some && state.last_render->0 <= now < state.last_render->0 + period
            ==> state.answer(Command::Buffer, now, period) == Some(
            Reaction::DrawAfter { wait: (state.last_render->0 + period - now) as u64 },
        ),
        state.answer(Command::Input, now, period) == Some(
            Reaction::Forward { time: ((now / 1_000_000) % 0x1_0000_0000) as u32 },
        ),
{
}

/// A session ends when it is told to, or when nobody is left to tell it anything, and once it has
/// ended no command takes that back.
pub proof fn law_a_session_ends_when_told_or_abandoned(state: State, command: Command)
    ensures
        state.should_quit ==> state.ends_with(command),
        !state.should_quit ==> (state.ends_with(command) <==> command == Command::Quit || command
            == Command::Closed),
{
}

} // verus!
