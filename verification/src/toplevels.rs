//! Windows that come, ask for their scale, and go.

use crate::geometry::Size;
use crate::listing::lemma_no_duplicates_concat;
use crate::state::State;
use crate::ui_scale::UiScale;
use crate::windows::{surfaces, Window};
use vstd::prelude::*;

verus! {

/// `windows` once the one of root surface `surface` has been told to draw at `scale`.
pub open spec fn one_told(windows: Seq<Window>, surface: u64, scale: UiScale) -> Seq<Window> {
    windows.map_values(
        |w: Window|
            if w.surface == surface {
                Window { preferred_scale: Some(scale), ..w }
            } else {
                w
            },
    )
}

/// The windows whose root surface is not among `dead`, in order.
pub open spec fn living(windows: Seq<Window>, dead: Seq<u64>) -> Seq<Window> {
    windows.filter(|w: Window| !dead.contains(w.surface))
}

/// The window of a toplevel that has just been created.
pub open spec fn newcomer(surface: u64) -> Window {
    Window {
        surface,
        initial_configure_sent: false,
        max_size: Size { w: 0, h: 0 },
        preferred_scale: None,
        content_is_pq: false,
    }
}

impl State {
    /// A new toplevel window has been created; it waits for its first commit.
    pub fn new_toplevel(&mut self, surface: u64)
        requires
            old(self).wf(),
            !old(self).known_surfaces().contains(surface),
        ensures
            final(self).wf(),
            old(self).has_mode() ==> final(self).has_mode(),
            final(self).pending_windows@ == old(self).pending_windows@.push(
                Window {
                    surface,
                    initial_configure_sent: false,
                    max_size: Size { w: 0, h: 0 },
                    preferred_scale: None,
                    content_is_pq: false,
                },
            ),
            final(self).pending_windows@ == old(self).pending_windows@.push(newcomer(surface)),
            *final(self) == (State {
                pending_windows: final(self).pending_windows,
                ..*old(self)
            }),
    {
        self.pending_windows.push(Window::new(surface));
        proof {
            assert(self.known_surfaces() =~= old(self).known_surfaces().push(surface));
        }
    }

    /// A client asked to be told the scale to draw `surface` at: it is answered at once with
    /// the one in force. Later changes are announced to every window.
    pub fn new_fractional_scale(&mut self, surface: u64) -> (scale: UiScale)
        requires
            old(self).wf(),
        ensures
            final(self).wf(),
            old(self).has_mode() ==> final(self).has_mode(),
            scale == old(self).ui_scale,
            final(self).space@ == one_told(old(self).space@, surface, scale),
            final(self).pending_windows@ == one_told(
                old(self).pending_windows@,
                surface,
                scale,
            ),
            *final(self) == (State {
                space: final(self).space,
                pending_windows: final(self).pending_windows,
                ..*old(self)
            }),
    {
        let scale = self.ui_scale;
        tell_one(&mut self.space, surface, scale);
        tell_one(&mut self.pending_windows, surface, scale);
        proof {
            assert(self.known_surfaces() =~= old(self).known_surfaces());
        }
        scale
    }

    /// Take the windows of the surfaces in `dead` off the screen.
    pub fn drop_dead_windows(&mut self, dead: &Vec<u64>)
        requires
            old(self).wf(),
        ensures
            final(self).wf(),
            old(self).has_mode() ==> final(self).has_mode(),
            final(self).space@ == living(old(self).space@, dead@),
            *final(self) == (State { space: final(self).space, ..*old(self) }),
    {
        let mut kept: Vec<Window> = Vec::new();
        let ghost alive = |w: Window| !dead@.contains(w.surface);
        let ghost all = self.space@;
        let n: usize = self.space.len();
        let mut i: usize = 0;
        while i < n
            invariant
                all == self.space@,
                n == all.len(),
                i <= n,
                alive == (|w: Window| !dead@.contains(w.surface)),
                kept@ == all.take(i as int).filter(alive),
            decreases n - i,
        {
            let window = self.space[i];
            proof {
                reveal(Seq::filter);
                assert(all.take(i + 1).drop_last() =~= all.take(i as int));
            }
            if !contains_surface(dead, window.surface) {
                kept.push(window);
            }
            i += 1;
        }
        proof {
            assert(all.take(n as int) =~= all);
            lemma_no_duplicates_concat(surfaces(all), surfaces(self.pending_windows@));
            lemma_living(all, dead@);
            lemma_no_duplicates_concat(
                surfaces(living(all, dead@)),
                surfaces(self.pending_windows@),
            );
        }
        self.space = kept;
    }
}

proof fn lemma_living(windows: Seq<Window>, dead: Seq<u64>)
    requires
        surfaces(windows).no_duplicates(),
    ensures
        surfaces(living(windows, dead)).no_duplicates(),
        forall|s: u64| #[trigger]
            surfaces(living(windows, dead)).contains(s) ==> surfaces(windows).contains(s),
    decreases windows.len(),
{
    reveal(Seq::filter);
    let all = surfaces(windows);
    if windows.len() > 0 {
        let rest = windows.drop_last();
        let last = windows.last();
        assert(surfaces(rest) =~= all.drop_last());
        lemma_living(rest, dead);
        let kept = surfaces(living(rest, dead));
        assert(all =~= surfaces(rest) + seq![last.surface]);
        lemma_no_duplicates_concat(surfaces(rest), seq![last.surface]);
        lemma_no_duplicates_concat(kept, seq![last.surface]);
        if !dead.contains(last.surface) {
            assert(surfaces(living(windows, dead)) =~= kept + seq![last.surface]);
            assert(seq![last.surface][0] == last.surface);
        }
    }
}

fn tell_one(windows: &mut Vec<Window>, surface: u64, scale: UiScale)
    ensures
        final(windows)@ == one_told(old(windows)@, surface, scale),
{
    let n: usize = windows.len();
    let mut i: usize = 0;
    while i < n
        invariant
            n == old(windows)@.len(),
            n == windows@.len(),
            i <= n,
            forall|k: int|
                0 <= k < i ==> #[trigger] windows@[k] == one_told(
                    old(windows)@,
                    surface,
                    scale,
                )[k],
            forall|k: int| i <= k < n ==> #[trigger] windows@[k] == old(windows)@[k],
        decreases n - i,
    {
        let window = windows[i];
        if window.surface == surface {
            windows.set(i, Window { preferred_scale: Some(scale), ..window });
        }
        i += 1;
    }
    assert(windows@ =~= one_told(old(windows)@, surface, scale));
}

fn contains_surface(surfaces: &Vec<u64>, surface: u64) -> (b: bool)
    ensures
        b == surfaces@.contains(surface),
{
    let n: usize = surfaces.len();
    let mut i: usize = 0;
    while i < n
        invariant
            n == surfaces@.len(),
            i <= n,
            forall|k: int| 0 <= k < i ==> surfaces@[k] != surface,
        decreases n - i,
    {
        if surfaces[i] == surface {
            assert(surfaces@[i as int] == surface);
            return true;
        }
        i += 1;
    }
    false
}

/// Answering one window leaves all others as they are, and of that one changes nothing but the
/// scale it holds.
pub proof fn law_only_the_asking_window_is_told(
    windows: Seq<Window>,
    surface: u64,
    scale: UiScale,
    i: int,
)
    requires
        0 <= i < windows.len(),
    ensures
        one_told(windows, surface, scale).len() == windows.len(),
        windows[i].surface != surface ==> one_told(windows, surface, scale)[i] == windows[i],
        windows[i].surface == surface ==> {
            let told = one_told(windows, surface, scale)[i];
            &&& told.preferred_scale == Some(scale)
            &&& told.surface == surface
            &&& told.initial_configure_sent == windows[i].initial_configure_sent
            &&& told.max_size == windows[i].max_size
            &&& told.content_is_pq == windows[i].content_is_pq
        },
{
}

/// Windows leave one by one: a dead one goes, and a living one stays as it is, behind those
/// before it.
pub proof fn law_the_dead_leave_and_the_living_stay(
    windows: Seq<Window>,
    window: Window,
    dead: Seq<u64>,
)
    ensures
        living(Seq::empty(), dead) == Seq::<Window>::empty(),
        dead.contains(window.surface) ==> living(windows.push(window), dead) == living(
            windows,
            dead,
        ),
        !dead.contains(window.surface) ==> living(windows.push(window), dead) == living(
            windows,
            dead,
        ).push(window),
{
    reveal(Seq::filter);
    assert(windows.push(window).drop_last() =~= windows);
}

/// A new window has been sent and told nothing, declares no largest size and shows nothing.
pub proof fn law_a_new_window_knows_nothing(surface: u64)
    ensures
        newcomer(surface).surface == surface,
        !newcomer(surface).initial_configure_sent,
        newcomer(surface).max_size.w == 0 && newcomer(surface).max_size.h == 0,
        newcomer(surface).preferred_scale is None,
        !newcomer(surface).content_is_pq,
{
}

} // verus!
