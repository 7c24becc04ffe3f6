//! The display's one output: the modes it offers, the one it composites at, and the ladder
//! of further modes an in-app display menu can list.

use crate::geometry::Size;
use crate::listing::{
    lemma_filter, lemma_filter_all, lemma_with_item, lemma_with_items, lemma_with_items_none_new,
    with_item, with_items,
};
use crate::logical::logical_of;
use crate::ui_scale::UiScale;
use vstd::prelude::*;

verus! {

/// A mode of the output: its size in pixels and its refresh rate in millihertz.
#[derive(Debug, Clone, Copy, PartialEq, Eq, Structural)]
pub struct OutputMode {
    pub size: Size,
    pub refresh: i32,
}

/// The output as clients see it.
#[derive(Debug)]
pub struct Output {
    /// Every mode on offer, in the order in which a client is told of them.
    pub modes: Vec<OutputMode>,
    pub current_mode: Option<OutputMode>,
    pub preferred_mode: Option<OutputMode>,
    pub scale: UiScale,
}

/// A rung can be offered when it is a real size that fits inside the encoded frame.
pub open spec fn rung_fits(rung: Size, encode: Size) -> bool {
    &&& 0 < rung.w <= encode.w
    &&& 0 < rung.h <= encode.h
}

/// The modes a ladder stands for at a refresh rate: each rung that fits, once, in the order
/// of the ladder.
pub open spec fn ladder_modes(ladder: Seq<Size>, refresh: i32, encode: Size) -> Seq<OutputMode>
    decreases ladder.len(),
{
    if ladder.len() == 0 {
        Seq::empty()
    } else {
        let rest = ladder_modes(ladder.drop_last(), refresh, encode);
        if rung_fits(ladder.last(), encode) {
            with_item(rest, OutputMode { size: ladder.last(), refresh })
        } else {
            rest
        }
    }
}

/// A mode stays on offer while the ladder wants it, or while it is the current or the
/// preferred one.
pub open spec fn stays(
    mode: OutputMode,
    ladder: Seq<OutputMode>,
    current: Option<OutputMode>,
    preferred: Option<OutputMode>,
) -> bool {
    ladder.contains(mode) || current == Some(mode) || preferred == Some(mode)
}

/// The modes on offer once the ladder has been advertised: what stays, then what is new.
pub open spec fn relisted(
    modes: Seq<OutputMode>,
    ladder: Seq<OutputMode>,
    current: Option<OutputMode>,
    preferred: Option<OutputMode>,
) -> Seq<OutputMode> {
    with_items(modes.filter(|m: OutputMode| stays(m, ladder, current, preferred)), ladder)
}

impl Output {
    /// Each mode is on offer once, and the current and the preferred one are among them.
    pub open spec fn wf(self) -> bool {
        &&& self.modes@.no_duplicates()
        &&& self.current_mode matches Some(m) ==> self.modes@.contains(m)
        &&& self.preferred_mode matches Some(m) ==> self.modes@.contains(m)
        &&& self.scale.in_range()
    }

    /// The extent windows and the pointer live in, once there is a mode.
    pub open spec fn logical(self) -> Option<Size> {
        match self.current_mode {
            Some(mode) => Some(logical_of(mode.size, self.scale)),
            None => None,
        }
    }

    /// An output without a mode yet.
    pub fn new() -> (output: Output)
        ensures
            output.wf(),
            output.modes@ == Seq::<OutputMode>::empty(),
            output.current_mode is None,
            output.preferred_mode is None,
            output.scale.is_one(),
    {
        Output {
            modes: Vec::new(),
            current_mode: None,
            preferred_mode: None,
            scale: UiScale::one(),
        }
    }

    /// Offer `mode`, without moving to it.
    pub fn add_mode(&mut self, mode: OutputMode)
        ensures
            final(self).modes@ == with_item(old(self).modes@, mode),
            *final(self) == (Output { modes: final(self).modes, ..*old(self) }),
            old(self).wf() ==> final(self).wf(),
    {
        if !contains_mode(&self.modes, mode) {
            self.modes.push(mode);
        }
        proof {
            lemma_with_item(old(self).modes@, mode);
        }
    }

    /// The size of the current mode divided by the scale.
    pub fn logical_size(&self) -> (size: Option<Size>)
        requires
            self.scale.in_range(),
        ensures
            size == self.logical(),
    {
        match self.current_mode {
            Some(mode) => Some(mode.size.to_logical(self.scale)),
            None => None,
        }
    }

    /// Composite at `mode` from now on, and at `scale` if one is given. The mode it replaces
    /// stays on offer.
    pub fn change_current_state(&mut self, mode: OutputMode, scale: Option<UiScale>)
        requires
            scale matches Some(s) ==> s.in_range(),
        ensures
            final(self).modes@ == with_item(old(self).modes@, mode),
            final(self).current_mode == Some(mode),
            final(self).scale == (match scale {
                Some(s) => s,
                None => old(self).scale,
            }),
            final(self).preferred_mode == old(self).preferred_mode,
            old(self).wf() ==> final(self).wf(),
    {
        self.add_mode(mode);
        self.current_mode = Some(mode);
        if let Some(s) = scale {
            self.scale = s;
        }
        proof {
            lemma_with_item(old(self).modes@, mode);
        }
    }

    /// Make `mode` the one clients are advised to pick.
    pub fn set_preferred(&mut self, mode: OutputMode)
        ensures
            final(self).modes@ == with_item(old(self).modes@, mode),
            *final(self) == (Output {
                modes: final(self).modes,
                preferred_mode: Some(mode),
                ..*old(self)
            }),
            old(self).wf() ==> final(self).wf(),
    {
        self.preferred_mode = Some(mode);
        self.add_mode(mode);
        proof {
            lemma_with_item(old(self).modes@, mode);
        }
    }

    /// Offer the rungs of `ladder` that fit inside `encode`, at `refresh`, and retire every
    /// mode that is neither a rung nor the current or preferred one. What the output
    /// composites at is not touched. Returns the modes the ladder now stands for.
    pub fn advertise_mode_ladder(
        &mut self,
        ladder: &Vec<Size>,
        refresh: i32,
        encode: Size,
    ) -> (desired: Vec<OutputMode>)
        ensures
            desired@ == ladder_modes(ladder@, refresh, encode),
            final(self).modes@ == relisted(
                old(self).modes@,
                desired@,
                old(self).current_mode,
                old(self).preferred_mode,
            ),
            *final(self) == (Output { modes: final(self).modes, ..*old(self) }),
            old(self).wf() ==> final(self).wf(),
    {
        let desired = fitting_modes(ladder, refresh, encode);
        let mut kept: Vec<OutputMode> = Vec::new();
        let ghost all = self.modes@;
        let ghost keep = |m: OutputMode| stays(
            m,
            desired@,
            self.current_mode,
            self.preferred_mode,
        );
        let n: usize = self.modes.len();
        let mut i: usize = 0;
        while i < n
            invariant
                n == all.len(),
                all == self.modes@,
                i <= n,
                keep == (|m: OutputMode| stays(
                    m,
                    desired@,
                    self.current_mode,
                    self.preferred_mode,
                )),
                kept@ == all.take(i as int).filter(keep),
            decreases n - i,
        {
            let mode = self.modes[i];
            let is_current = match self.current_mode {
                Some(m) => m == mode,
                None => false,
            };
            let is_preferred = match self.preferred_mode {
                Some(m) => m == mode,
                None => false,
            };
            proof {
                assert(all.take(i + 1).drop_last() =~= all.take(i as int));
                reveal(Seq::filter);
            }
            if contains_mode(&desired, mode) || is_current || is_preferred {
                kept.push(mode);
            }
            i += 1;
        }
        proof {
            assert(all.take(n as int) =~= all);
        }
        self.modes = kept;
        let ghost start = self.modes@;
        let count: usize = desired.len();
        let mut k: usize = 0;
        while k < count
            invariant
                count == desired@.len(),
                k <= count,
                self.modes@ == with_items(start, desired@.take(k as int)),
                *self == (Output { modes: self.modes, ..*old(self) }),
            decreases count - k,
        {
            proof {
                assert(desired@.take(k + 1).drop_last() =~= desired@.take(k as int));
            }
            self.add_mode(desired[k]);
            k += 1;
        }
        proof {
            assert(desired@.take(count as int) =~= desired@);
            if old(self).wf() {
                law_relisted_offers_exactly_what_is_wanted(
                    all,
                    desired@,
                    old(self).current_mode,
                    old(self).preferred_mode,
                );
            }
        }
        desired
    }
}

pub fn contains_mode(modes: &Vec<OutputMode>, mode: OutputMode) -> (b: bool)
    ensures
        b == modes@.contains(mode),
{
    let n: usize = modes.len();
    let mut i: usize = 0;
    while i < n
        invariant
            n == modes@.len(),
            i <= n,
            forall|k: int| 0 <= k < i ==> modes@[k] != mode,
        decreases n - i,
    {
        if modes[i] == mode {
            assert(modes@[i as int] == mode);
            return true;
        }
        i += 1;
    }
    false
}

fn fitting_modes(ladder: &Vec<Size>, refresh: i32, encode: Size) -> (desired: Vec<OutputMode>)
    ensures
        desired@ == ladder_modes(ladder@, refresh, encode),
{
    let mut desired: Vec<OutputMode> = Vec::new();
    let n: usize = ladder.len();
    let mut i: usize = 0;
    while i < n
        invariant
            n == ladder@.len(),
            i <= n,
            desired@ == ladder_modes(ladder@.take(i as int), refresh, encode),
        decreases n - i,
    {
        proof {
            assert(ladder@.take(i + 1).drop_last() =~= ladder@.take(i as int));
        }
        let rung = ladder[i];
        i += 1;
        if rung.w <= 0 || rung.h <= 0 || rung.w > encode.w || rung.h > encode.h {
            continue;
        }
        let mode = OutputMode { size: rung, refresh };
        if !contains_mode(&desired, mode) {
            desired.push(mode);
        }
    }
    proof {
        assert(ladder@.take(n as int) =~= ladder@);
    }
    desired
}

/// The ladder stands for each rung that fits, at the output's refresh rate, and for nothing
/// else, and names no mode twice.
pub proof fn law_ladder_modes_are_the_fitting_rungs(ladder: Seq<Size>, refresh: i32, encode: Size)
    ensures
        ladder_modes(ladder, refresh, encode).no_duplicates(),
        forall|m: OutputMode| #[trigger]
            ladder_modes(ladder, refresh, encode).contains(m) <==> ladder.contains(m.size)
                && rung_fits(m.size, encode) && m.refresh == refresh,
    decreases ladder.len(),
{
    if ladder.len() > 0 {
        let rest = ladder.drop_last();
        let mode = OutputMode { size: ladder.last(), refresh };
        law_ladder_modes_are_the_fitting_rungs(rest, refresh, encode);
        lemma_with_item(ladder_modes(rest, refresh, encode), mode);
        assert forall|m: OutputMode| #[trigger]
            ladder_modes(ladder, refresh, encode).contains(m) <==> ladder.contains(m.size)
                && rung_fits(m.size, encode) && m.refresh == refresh by {
            assert(ladder =~= rest.push(ladder.last()));
            assert(ladder.contains(m.size) <==> rest.contains(m.size) || m.size == ladder.last())
                by {
                if rest.contains(m.size) {
                    let i = choose|i: int| 0 <= i < rest.len() && rest[i] == m.size;
                    assert(ladder[i] == m.size);
                }
                if m.size == ladder.last() {
                    assert(ladder[ladder.len() - 1] == m.size);
                }
                if ladder.contains(m.size) && m.size != ladder.last() {
                    let i = choose|i: int| 0 <= i < ladder.len() && ladder[i] == m.size;
                    assert(rest[i] == m.size);
                }
            }
        }
    }
}

/// After the ladder has been advertised, a mode is on offer exactly when it is a rung, or
/// when it was on offer and is the current or preferred one. So no superseded size lingers,
/// no rung is missing, and nothing is offered twice.
pub proof fn law_relisted_offers_exactly_what_is_wanted(
    modes: Seq<OutputMode>,
    ladder: Seq<OutputMode>,
    current: Option<OutputMode>,
    preferred: Option<OutputMode>,
)
    requires
        modes.no_duplicates(),
    ensures
        relisted(modes, ladder, current, preferred).no_duplicates(),
        forall|m: OutputMode| #[trigger]
            relisted(modes, ladder, current, preferred).contains(m) <==> ladder.contains(m) || (
            modes.contains(m) && (current == Some(m) || preferred == Some(m))),
{
    let keep = |m: OutputMode| stays(m, ladder, current, preferred);
    lemma_filter(modes, keep);
    lemma_with_items(modes.filter(keep), ladder);
}

/// Advertising the same ladder a second time changes nothing.
pub proof fn law_advertising_is_idempotent(
    modes: Seq<OutputMode>,
    ladder: Seq<OutputMode>,
    current: Option<OutputMode>,
    preferred: Option<OutputMode>,
)
    requires
        modes.no_duplicates(),
    ensures
        ({
            let once = relisted(modes, ladder, current, preferred);
            relisted(once, ladder, current, preferred) == once
        }),
{
    let once = relisted(modes, ladder, current, preferred);
    let keep = |m: OutputMode| stays(m, ladder, current, preferred);
    law_relisted_offers_exactly_what_is_wanted(modes, ladder, current, preferred);
    assert forall|i: int| 0 <= i < once.len() implies keep(#[trigger] once[i]) by {
        assert(once.contains(once[i]));
    }
    lemma_filter_all(once, keep);
    assert forall|m: OutputMode| #[trigger] ladder.contains(m) implies once.contains(m) by {}
    lemma_with_items_none_new(once, ladder);
}

/// A ladder offers a mode exactly when one of its rungs has that size, the size is real and no
/// larger than the frame on either axis, and the refresh rate is the output's.
pub proof fn law_a_rung_is_offered_when_it_fits_the_frame(
    ladder: Seq<Size>,
    refresh: i32,
    encode: Size,
    m: OutputMode,
)
    ensures
        ladder_modes(ladder, refresh, encode).contains(m) <==> ladder.contains(m.size)
            && m.size.w > 0 && m.size.h > 0 && m.size.w <= encode.w && m.size.h <= encode.h
            && m.refresh == refresh,
{
    law_ladder_modes_are_the_fitting_rungs(ladder, refresh, encode);
}

/// One more rung adds its mode behind the others if it fits and is not there yet, and nothing
/// otherwise.
pub proof fn law_rungs_are_offered_in_their_order(
    ladder: Seq<Size>,
    rung: Size,
    refresh: i32,
    encode: Size,
)
    ensures
        ladder_modes(Seq::empty(), refresh, encode) == Seq::<OutputMode>::empty(),
        ({
            let before = ladder_modes(ladder, refresh, encode);
            let mode = OutputMode { size: rung, refresh };
            let fits = rung.w > 0 && rung.h > 0 && rung.w <= encode.w && rung.h <= encode.h;
            ladder_modes(ladder.push(rung), refresh, encode) == (if fits && !before.contains(mode) {
                before.push(mode)
            } else {
                before
            })
        }),
{
    assert(ladder.push(rung).drop_last() =~= ladder);
}

/// Once the ladder has been advertised, the modes that stay stand first, in the order in which
/// they stood, and what is new follows.
pub proof fn law_modes_that_stay_keep_their_order(
    modes: Seq<OutputMode>,
    ladder: Seq<OutputMode>,
    current: Option<OutputMode>,
    preferred: Option<OutputMode>,
)
    ensures
        ({
            let kept = modes.filter(
                |m: OutputMode| ladder.contains(m) || current == Some(m) || preferred == Some(m),
            );
            let after = relisted(modes, ladder, current, preferred);
            &&& kept.len() <= after.len()
            &&& after.take(kept.len() as int) == kept
            &&& forall|m: OutputMode| #[trigger]
                after.contains(m) <==> kept.contains(m) || ladder.contains(m)
        }),
{
    let keep = |m: OutputMode| ladder.contains(m) || current == Some(m) || preferred == Some(m);
    let stay = |m: OutputMode| stays(m, ladder, current, preferred);
    assert(keep =~= stay);
    lemma_with_items(modes.filter(stay), ladder);
}

/// The extent of an output is the size of its current mode at its scale, whatever it prefers
/// or offers besides.
pub proof fn law_the_current_mode_sets_the_extent(output: Output)
    ensures
        output.current_mode is None ==> output.logical() is None,
        output.current_mode is Some ==> output.logical() == Some(
            logical_of(output.current_mode->0.size, output.scale),
        ),
{
}

} // verus!
