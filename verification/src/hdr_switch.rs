//! When the producer is told that the output turned HDR or SDR.
//!
//! A television goes dark for a moment at every switch, and an application that shows HDR
//! content slips single SDR frames in between. So a change is signalled only once it has held
//! for a while without a break.

use crate::state::State;
use vstd::prelude::*;

verus! {

/// How long a change must hold before it is signalled, in nanoseconds.
pub const HDR_DEBOUNCE: u64 = 600_000_000;

/// A change of the output state, with what is known of the picture's mastering.
#[derive(Debug, Clone)]
pub struct HdrChange {
    pub hdr: bool,
    /// The mastering display, as a caps string.
    pub mastering: Option<String>,
    /// The content light level, as a caps string.
    pub cll: Option<String>,
}

/// The state that was last signalled, and since when the other one has been seen.
pub struct HdrSwitch {
    pub signalled: bool,
    pub other_since: Option<u64>,
}

impl HdrSwitch {
    /// The switch once the output was seen in state `hdr` at `now`.
    pub open spec fn seen(self, now: u64, hdr: bool) -> HdrSwitch {
        if hdr == self.signalled {
            HdrSwitch { other_since: None, ..self }
        } else if self.other_since is None {
            HdrSwitch { other_since: Some(now), ..self }
        } else if now - self.other_since->0 >= HDR_DEBOUNCE {
            HdrSwitch { signalled: hdr, other_since: None }
        } else {
            self
        }
    }

    /// The switch once the output was seen as each of `looks` says, in order.
    pub open spec fn watched(self, looks: Seq<(u64, bool)>) -> HdrSwitch
        decreases looks.len(),
    {
        if looks.len() == 0 {
            self
        } else {
            self.watched(looks.drop_last()).seen(looks.last().0, looks.last().1)
        }
    }
}

/// What an active window shows is HDR when its content is PQ-encoded already, or when its
/// surface declares HDR.
pub open spec fn hdr_output(input_is_pq: bool, declared: Option<bool>) -> bool {
    input_is_pq || declared == Some(true)
}

impl State {
    pub open spec fn hdr_switch(self) -> HdrSwitch {
        HdrSwitch { signalled: self.last_hdr_state, other_since: self.hdr_candidate_since }
    }

    /// There is an active window, and the buffer that was last committed in its tree is
    /// PQ-encoded already.
    pub open spec fn input_is_pq(self) -> bool {
        self.space@.len() > 0 && self.space@[0].content_is_pq
    }

    /// The output is HDR, when the active surface says `declared` of itself. Without a window
    /// on the screen it never is.
    pub open spec fn is_hdr(self, declared: Option<bool>) -> bool {
        self.space@.len() > 0 && hdr_output(self.input_is_pq(), declared)
    }

    /// `after` is this state once the output was looked at, and `signal` the state to signal.
    pub open spec fn output_looked_at(
        self,
        now: u64,
        declared: Option<bool>,
        after: State,
        signal: Option<bool>,
    ) -> bool {
        let switch = self.hdr_switch().seen(now, self.is_hdr(declared));
        &&& !self.hdr_signalled ==> signal is None && after == self
        &&& self.hdr_signalled ==> {
            &&& after == (State {
                last_hdr_state: switch.signalled,
                hdr_candidate_since: switch.other_since,
                ..self
            })
            &&& signal == (if switch.signalled == self.last_hdr_state {
                None
            } else {
                Some(switch.signalled)
            })
        }
    }

    /// The surface of the active window, if there is one.
    pub open spec fn active(self) -> Option<u64> {
        if self.space@.len() > 0 {
            Some(self.space@[0].surface)
        } else {
            None
        }
    }

    /// The root surface of the active window: one window at a time is fullscreen, and it is
    /// the first that is mapped.
    pub fn active_surface(&self) -> (surface: Option<u64>)
        ensures
            surface == (if self.space@.len() > 0 {
                Some(self.space@[0].surface)
            } else {
                None
            }),
            surface == self.active(),
    {
        if self.space.len() > 0 {
            Some(self.space[0].surface)
        } else {
            None
        }
    }

    /// Whether what the active window shows is PQ-encoded already, so that a frame of it is
    /// passed through rather than encoded again.
    pub fn current_input_is_pq(&self) -> (pq: bool)
        ensures
            pq == self.input_is_pq(),
            pq <==> self.space@.len() > 0 && self.space@[0].content_is_pq,
    {
        self.space.len() > 0 && self.space[0].content_is_pq
    }

    /// Whether the output is HDR. `declared` is what the active surface says of itself, if it
    /// says anything.
    pub fn output_hdr_state(&self, declared: Option<bool>) -> (hdr: bool)
        ensures
            hdr == (self.space@.len() > 0 && hdr_output(self.input_is_pq(), declared)),
            hdr == self.is_hdr(declared),
            hdr <==> self.space@.len() > 0 && (self.space@[0].content_is_pq || declared == Some(
                true,
            )),
    {
        if self.space.len() == 0 {
            return false;
        }
        if self.current_input_is_pq() {
            return true;
        }
        match declared {
            Some(hdr) => hdr,
            None => false,
        }
    }

    /// Look at the output state once a frame. Returns the state to signal, when it has changed
    /// and held.
    pub fn update_hdr_state(&mut self, now: u64, declared: Option<bool>) -> (signal: Option<bool>)
        ensures
            !old(self).hdr_signalled ==> signal is None && *final(self) == *old(self),
            old(self).hdr_signalled ==> {
                let after = old(self).hdr_switch().seen(
                    now,
                    old(self).is_hdr(declared),
                );
                &&& *final(self) == (State {
                    last_hdr_state: after.signalled,
                    hdr_candidate_since: after.other_since,
                    ..*old(self)
                })
                &&& signal == (if after.signalled == old(self).last_hdr_state {
                    None
                } else {
                    Some(after.signalled)
                })
            },
            old(self).output_looked_at(now, declared, *final(self), signal),
            old(self).wf() ==> final(self).wf(),
    {
        if !self.hdr_signalled {
            return None;
        }
        let hdr = self.output_hdr_state(declared);
        if hdr == self.last_hdr_state {
            self.hdr_candidate_since = None;
            return None;
        }
        match self.hdr_candidate_since {
            Some(since) => if now.saturating_sub(since) >= HDR_DEBOUNCE {
                self.last_hdr_state = hdr;
                self.hdr_candidate_since = None;
                Some(hdr)
            } else {
                None
            },
            None => {
                self.hdr_candidate_since = Some(now);
                None
            },
        }
    }
}

/// `change` tells of a change to `hdr`, with what is known of the picture.
pub open spec fn tells(change: HdrChange, hdr: bool, caps: Option<(String, String)>) -> bool {
    &&& change.hdr == hdr
    &&& hdr ==> (caps matches Some(c) ==> change.mastering == Some(c.0) && change.cll == Some(c.1))
    &&& !hdr || caps is None ==> change.mastering is None && change.cll is None
}

/// The message for a change: an HDR picture carries the mastering and light level of the
/// active surface when it has them, an SDR one carries nothing.
pub fn hdr_change(hdr: bool, caps: Option<(String, String)>) -> (change: HdrChange)
    ensures
        change.hdr == hdr,
        hdr ==> (caps matches Some(c) ==> change.mastering == Some(c.0) && change.cll == Some(c.1)),
        !hdr || caps is None ==> change.mastering is None && change.cll is None,
        tells(change, hdr, caps),
{
    let (mastering, cll) = if hdr {
        match caps {
            Some((mastering, cll)) => (Some(mastering), Some(cll)),
            None => (None, None),
        }
    } else {
        (None, None)
    };
    HdrChange { hdr, mastering, cll }
}

/// The other state has been seen at every look since `other_since`.
proof fn lemma_other_since(start: HdrSwitch, looks: Seq<(u64, bool)>) -> (from: int)
    requires
        start.other_since is None,
    ensures
        ({
            let end = start.watched(looks);
            end.other_since matches Some(since) ==> {
                &&& 0 <= from < looks.len()
                &&& looks[from].0 == since
                &&& forall|k: int| from <= k < looks.len() ==> (#[trigger] looks[k]).1
                    != end.signalled
            }
        }),
    decreases looks.len(),
{
    if looks.len() == 0 {
        return 0;
    }
    let rest = looks.drop_last();
    let before = start.watched(rest);
    let from = lemma_other_since(start, rest);
    let last = looks.len() - 1;
    if before.other_since is None {
        assert(looks[last] == looks.last());
        last
    } else {
        assert(looks[from] == rest[from]);
        assert forall|k: int|
            from <= k < looks.len() && start.watched(looks).other_since is Some implies (
        #[trigger] looks[k]).1 != before.signalled by {
            if k < last {
                assert(looks[k] == rest[k]);
            }
        }
        from
    }
}

/// A change is signalled only if the new state was seen at every look over at least the
/// debounce period. So a state that flickers is never signalled.
pub proof fn law_a_signal_means_a_steady_state(
    start: HdrSwitch,
    looks: Seq<(u64, bool)>,
    now: u64,
    hdr: bool,
)
    requires
        start.other_since is None,
        start.watched(looks).seen(now, hdr).signalled != start.watched(looks).signalled,
    ensures
        start.watched(looks).seen(now, hdr).signalled == hdr,
        exists|from: int|
            0 <= from < looks.len() && now - (#[trigger] looks[from]).0 >= HDR_DEBOUNCE && forall|
                k: int,
            |
                from <= k < looks.len() ==> (#[trigger] looks[k]).1 == hdr,
{
    let from = lemma_other_since(start, looks);
    assert(now - looks[from].0 >= HDR_DEBOUNCE);
    assert forall|k: int| from <= k < looks.len() implies (#[trigger] looks[k]).1 == hdr by {}
}

/// A state that is seen at every look over the debounce period, on a clock that does not run
/// backwards, is signalled by the end of it.
pub proof fn law_a_steady_state_is_signalled(
    start: HdrSwitch,
    looks: Seq<(u64, bool)>,
    from: int,
    hdr: bool,
)
    requires
        start.other_since is None,
        0 <= from < looks.len(),
        forall|i: int, k: int|
            0 <= i <= k < looks.len() ==> (#[trigger] looks[i]).0 <= (#[trigger] looks[k]).0,
        forall|k: int| from <= k < looks.len() ==> (#[trigger] looks[k]).1 == hdr,
        looks.last().0 - looks[from].0 >= HDR_DEBOUNCE,
    ensures
        start.watched(looks).signalled == hdr,
{
    lemma_steady(start, looks, from, hdr);
}

/// While a state is steady it is either signalled, or counted from no later than its first
/// look.
proof fn lemma_steady(start: HdrSwitch, looks: Seq<(u64, bool)>, from: int, hdr: bool)
    requires
        start.other_since is None,
        0 <= from < looks.len(),
        forall|i: int, k: int|
            0 <= i <= k < looks.len() ==> (#[trigger] looks[i]).0 <= (#[trigger] looks[k]).0,
        forall|k: int| from <= k < looks.len() ==> (#[trigger] looks[k]).1 == hdr,
    ensures
        ({
            let end = start.watched(looks);
            end.signalled == hdr || {
                &&& end.other_since is Some
                &&& end.other_since->0 <= looks[from].0
                &&& looks.last().0 - end.other_since->0 < HDR_DEBOUNCE
            }
        }),
    decreases looks.len(),
{
    let rest = looks.drop_last();
    let last = looks.len() - 1;
    assert(looks[last] == looks.last());
    assert(looks[last].1 == hdr);
    if from < last {
        assert forall|i: int, k: int| 0 <= i <= k < rest.len() implies (#[trigger] rest[i]).0 <= (
        #[trigger] rest[k]).0 by {
            assert(looks[i].0 <= looks[k].0);
        }
        assert forall|k: int| from <= k < rest.len() implies (#[trigger] rest[k]).1 == hdr by {
            assert(looks[k].1 == hdr);
        }
        lemma_steady(start, rest, from, hdr);
        assert(rest[from] == looks[from]);
    } else {
        let at = lemma_other_since(start, rest);
        let before = start.watched(rest);
        if before.other_since is Some {
            assert(rest[at] == looks[at]);
            assert(looks[at].0 <= looks[from].0);
        }
    }
}

/// The output is HDR when there is a window, and the first of them shows PQ content or declares
/// HDR. Windows behind it have no say.
pub proof fn law_the_active_window_makes_the_output_hdr(state: State, declared: Option<bool>)
    ensures
        state.is_hdr(declared) <==> state.space@.len() > 0 && (state.space@[0].content_is_pq
            || declared == Some(true)),
        state.input_is_pq() <==> state.space@.len() > 0 && state.space@[0].content_is_pq,
{
}

/// A look at the state in force ends any wait; one at the other state begins a wait, goes on
/// with it, or, six tenths of a second after its beginning, settles the change.
pub proof fn law_a_look_ends_begins_or_settles_a_wait(switch: HdrSwitch, now: u64, hdr: bool)
    ensures
        ({
            let after = switch.seen(now, hdr);
            let since = switch.other_since->0;
            let waiting = switch.other_since is Some;
            &&& hdr == switch.signalled ==> after.signalled == switch.signalled
                && after.other_since is None
            &&& hdr != switch.signalled && !waiting ==> after.signalled == switch.signalled
                && after.other_since == Some(now)
            &&& hdr != switch.signalled && waiting && now < since + 600_000_000
                ==> after.signalled == switch.signalled && after.other_since == Some(since)
            &&& hdr != switch.signalled && waiting && now >= since + 600_000_000
                ==> after.signalled == hdr && after.other_since is None
        }),
{
}

/// What is signalled is the state of the output at that look, and only when it differs from
/// what was signalled before and has been seen for six tenths of a second. Where changes are
/// not signalled at all, a look changes nothing.
pub proof fn law_a_signal_is_the_state_that_is_seen(
    before: State,
    now: u64,
    declared: Option<bool>,
    after: State,
    signal: Option<bool>,
)
    requires
        before.output_looked_at(now, declared, after, signal),
    ensures
        ({
            let hdr = before.space@.len() > 0 && (before.space@[0].content_is_pq || declared
                == Some(true));
            let since = before.hdr_candidate_since;
            &&& signal is Some <==> before.hdr_signalled && hdr != before.last_hdr_state && since
                is Some && now >= since->0 + 600_000_000
            &&& signal is Some ==> signal == Some(hdr) && after.last_hdr_state == hdr
                && after.hdr_candidate_since is None
            &&& signal is None ==> after.last_hdr_state == before.last_hdr_state
            &&& !before.hdr_signalled ==> after == before
            &&& before.hdr_signalled && hdr == before.last_hdr_state
                ==> after.hdr_candidate_since is None
            &&& before.hdr_signalled && hdr != before.last_hdr_state && since is None
                ==> after.hdr_candidate_since == Some(now)
            &&& after.space == before.space
            &&& after.output == before.output
            &&& after.should_quit == before.should_quit
        }),
{
}

/// The active window is the first that is mapped. Windows that are mapped after it, or wait to
/// be, do not take its place.
pub proof fn law_the_first_mapped_window_is_active(state: State, more: State)
    requires
        more.space@.len() >= state.space@.len(),
        more.space@.take(state.space@.len() as int) == state.space@,
    ensures
        state.active() is None <==> state.space@.len() == 0,
        state.space@.len() > 0 ==> state.active() == Some(state.space@[0].surface),
        state.space@.len() > 0 ==> more.active() == state.active(),
        state.space@.len() > 0 ==> more.input_is_pq() == state.input_is_pq(),
{
    if state.space@.len() > 0 {
        assert(more.space@[0] == more.space@.take(state.space@.len() as int)[0]);
    }
}

/// A change carries mastering and light level together, each in its own place, and only a change
/// to HDR carries them.
pub proof fn law_only_hdr_carries_mastering(
    change: HdrChange,
    hdr: bool,
    caps: Option<(String, String)>,
)
    requires
        tells(change, hdr, caps),
    ensures
        change.hdr <==> hdr,
        change.mastering is Some <==> hdr && caps is Some,
        change.cll is Some <==> hdr && caps is Some,
        hdr && caps is Some ==> {
            let (mastering, cll) = caps->0;
            change.mastering == Some(mastering) && change.cll == Some(cll)
        },
{
}

} // verus!
