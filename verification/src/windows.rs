//! Toplevel windows: what each has been told, and what it is to be told next.

use crate::geometry::Size;
use crate::ui_scale::UiScale;
use vstd::prelude::*;

verus! {

/// A toplevel window, named by the number of its root surface.
#[derive(Debug, Clone, Copy, PartialEq, Eq, Structural)]
pub struct Window {
    pub surface: u64,
    /// The window has been sent its first configure.
    pub initial_configure_sent: bool,
    /// The largest size the window declares it can take; zero on both axes when it declares
    /// none.
    pub max_size: Size,
    /// The scale the window was last told to draw at.
    pub preferred_scale: Option<UiScale>,
    /// The buffer that was last committed in the window's tree is PQ-encoded already. Stays
    /// false without colour management.
    pub content_is_pq: bool,
}

/// A new size for a window, or none.
#[derive(Debug, Clone, Copy, PartialEq, Eq, Structural)]
pub enum SizeUpdate {
    /// The pending size stays as it is.
    Keep,
    /// The pending size becomes this one; `None` leaves the choice to the window.
    Change(Option<Size>),
}

/// A configure to send. The window is activated by every one of them.
#[derive(Debug, Clone, Copy, PartialEq, Eq, Structural)]
pub struct Configure {
    pub surface: u64,
    pub size: SizeUpdate,
    /// The window is made fullscreen; otherwise that state stays as it is.
    pub fullscreen: bool,
}

/// A window that has been handed the UI scale.
#[derive(Debug, Clone, Copy, PartialEq, Eq, Structural)]
pub struct Announcement {
    pub surface: u64,
    /// The scale the window held before.
    pub previous: Option<UiScale>,
    /// The scale differs from the previous one, so it really goes out.
    pub sent: bool,
    /// The window is mapped, rather than waiting for its first configure.
    pub mapped: bool,
}

/// The size a mapped window is configured at: the whole extent unless it declares a largest
/// size, and then what the two have in common.
pub open spec fn configured_size(max_size: Size, extent: Size) -> Option<Size> {
    if max_size.w == 0 && max_size.h == 0 {
        Some(extent)
    } else {
        max_size.overlap(extent)
    }
}

/// The first configure of a window. One that declares a largest size chooses its own.
pub open spec fn first_configure(window: Window, extent: Size) -> Configure {
    if window.max_size.w == 0 && window.max_size.h == 0 {
        Configure {
            surface: window.surface,
            size: SizeUpdate::Change(Some(extent)),
            fullscreen: true,
        }
    } else {
        Configure { surface: window.surface, size: SizeUpdate::Keep, fullscreen: false }
    }
}

/// The configure of a window that is mapped.
pub open spec fn mapped_configure(window: Window, extent: Size) -> Configure {
    Configure {
        surface: window.surface,
        size: SizeUpdate::Change(configured_size(window.max_size, extent)),
        fullscreen: true,
    }
}

pub open spec fn mapped_configures(windows: Seq<Window>, extent: Size) -> Seq<Configure> {
    windows.map_values(|w: Window| mapped_configure(w, extent))
}

/// The first configures still owed to waiting windows.
pub open spec fn owed_configures(windows: Seq<Window>, extent: Size) -> Seq<Configure> {
    windows.filter(|w: Window| !w.initial_configure_sent).map_values(
        |w: Window| first_configure(w, extent),
    )
}

/// `windows` once each has been sent a configure.
pub open spec fn all_configured(windows: Seq<Window>) -> Seq<Window> {
    windows.map_values(|w: Window| Window { initial_configure_sent: true, ..w })
}

/// `windows` once each has been told to draw at `scale`.
pub open spec fn all_told(windows: Seq<Window>, scale: UiScale) -> Seq<Window> {
    windows.map_values(|w: Window| Window { preferred_scale: Some(scale), ..w })
}

pub open spec fn announcement(window: Window, scale: UiScale, mapped: bool) -> Announcement {
    Announcement {
        surface: window.surface,
        previous: window.preferred_scale,
        sent: window.preferred_scale != Some(scale),
        mapped,
    }
}

pub open spec fn announcements(windows: Seq<Window>, scale: UiScale, mapped: bool) -> Seq<
    Announcement,
> {
    windows.map_values(|w: Window| announcement(w, scale, mapped))
}

/// The root surfaces of `windows`, in order.
pub open spec fn surfaces(windows: Seq<Window>) -> Seq<u64> {
    windows.map_values(|w: Window| w.surface)
}

impl Window {
    /// A window that has just been created.
    pub fn new(surface: u64) -> (w: Window)
        ensures
            w.surface == surface,
            !w.initial_configure_sent,
            w.max_size == (Size { w: 0, h: 0 }),
            w.preferred_scale is None,
            !w.content_is_pq,
    {
        Window {
            surface,
            initial_configure_sent: false,
            max_size: Size { w: 0, h: 0 },
            preferred_scale: None,
            content_is_pq: false,
        }
    }

    pub fn first_configure(self, extent: Size) -> (c: Configure)
        ensures
            c == first_configure(self, extent),
    {
        if self.max_size.w == 0 && self.max_size.h == 0 {
            Configure {
                surface: self.surface,
                size: SizeUpdate::Change(Some(extent)),
                fullscreen: true,
            }
        } else {
            Configure { surface: self.surface, size: SizeUpdate::Keep, fullscreen: false }
        }
    }

    pub fn mapped_configure(self, extent: Size) -> (c: Configure)
        ensures
            c == mapped_configure(self, extent),
    {
        let size = if self.max_size.w == 0 && self.max_size.h == 0 {
            Some(extent)
        } else {
            self.max_size.intersection(extent)
        };
        Configure { surface: self.surface, size: SizeUpdate::Change(size), fullscreen: true }
    }
}

/// Telling and configuring windows leaves them in place.
pub proof fn lemma_surfaces_stay(windows: Seq<Window>, scale: UiScale)
    ensures
        surfaces(all_told(windows, scale)) == surfaces(windows),
        surfaces(all_configured(windows)) == surfaces(windows),
{
    assert(surfaces(all_told(windows, scale)) =~= surfaces(windows));
    assert(surfaces(all_configured(windows)) =~= surfaces(windows));
}

/// Being told a scale changes nothing about the configures a window is owed.
pub proof fn lemma_told_windows_are_owed_the_same(
    windows: Seq<Window>,
    scale: UiScale,
    extent: Size,
)
    ensures
        mapped_configures(all_told(windows, scale), extent) == mapped_configures(windows, extent),
        owed_configures(all_told(windows, scale), extent) == owed_configures(windows, extent),
    decreases windows.len(),
{
    let told = all_told(windows, scale);
    assert(mapped_configures(told, extent) =~= mapped_configures(windows, extent));
    reveal(Seq::filter);
    let owed = |w: Window| !w.initial_configure_sent;
    let first = |w: Window| first_configure(w, extent);
    if windows.len() > 0 {
        let rest = windows.drop_last();
        let last = windows.last();
        lemma_told_windows_are_owed_the_same(rest, scale, extent);
        assert(told.drop_last() =~= all_told(rest, scale));
        assert(rest.filter(owed).push(last).map_values(first) =~= rest.filter(
            owed,
        ).map_values(first).push(first(last)));
        let kept = all_told(rest, scale).filter(owed);
        assert(kept.push(told.last()).map_values(first) =~= kept.map_values(first).push(
            first(told.last()),
        ));
    } else {
        assert(told =~= windows);
    }
}

/// A window that declares no largest size is configured at the whole extent, never at an
/// empty size; one that declares it is never configured beyond it, nor beyond the extent.
pub proof fn law_configures_stay_within_bounds(max_size: Size, extent: Size)
    ensures
        max_size == (Size { w: 0, h: 0 }) ==> configured_size(max_size, extent) == Some(extent),
        max_size != (Size { w: 0, h: 0 }) ==> (configured_size(max_size, extent) matches Some(
            size,
        ) ==> {
            &&& 0 < size.w <= max_size.w
            &&& 0 < size.h <= max_size.h
            &&& size.w <= extent.w
            &&& size.h <= extent.h
        }),
{
}

/// Where the first window of root surface `surface` stands, if there is one.
pub fn find_window(windows: &Vec<Window>, surface: u64) -> (at: Option<usize>)
    ensures
        at matches Some(i) ==> {
            &&& i < windows@.len()
            &&& windows@[i as int].surface == surface
            &&& forall|k: int| 0 <= k < i ==> (#[trigger] windows@[k]).surface != surface
        },
        at is None ==> forall|k: int|
            0 <= k < windows@.len() ==> (#[trigger] windows@[k]).surface != surface,
{
    let n: usize = windows.len();
    let mut i: usize = 0;
    while i < n
        invariant
            n == windows@.len(),
            i <= n,
            forall|k: int| 0 <= k < i ==> (#[trigger] windows@[k]).surface != surface,
        decreases n - i,
    {
        if windows[i].surface == surface {
            return Some(i);
        }
        i += 1;
    }
    None
}

/// Hand `scale` to each window, adding a note of each to `notes`.
pub fn tell_scale(
    windows: &mut Vec<Window>,
    scale: UiScale,
    mapped: bool,
    notes: &mut Vec<Announcement>,
)
    ensures
        final(windows)@ == all_told(old(windows)@, scale),
        final(notes)@ == old(notes)@ + announcements(old(windows)@, scale, mapped),
{
    let n: usize = windows.len();
    let mut i: usize = 0;
    while i < n
        invariant
            n == old(windows)@.len(),
            n == windows@.len(),
            i <= n,
            forall|k: int|
                0 <= k < i ==> #[trigger] windows@[k] == all_told(old(windows)@, scale)[k],
            forall|k: int| i <= k < n ==> #[trigger] windows@[k] == old(windows)@[k],
            notes@ == old(notes)@ + announcements(old(windows)@.take(i as int), scale, mapped),
        decreases n - i,
    {
        let window = windows[i];
        let changed = match window.preferred_scale {
            Some(s) => s != scale,
            None => true,
        };
        notes.push(
            Announcement {
                surface: window.surface,
                previous: window.preferred_scale,
                sent: changed,
                mapped,
            },
        );
        windows.set(i, Window { preferred_scale: Some(scale), ..window });
        proof {
            let before = old(windows)@.take(i as int);
            assert(old(windows)@.take(i + 1) =~= before.push(window));
            assert(announcements(before.push(window), scale, mapped) =~= announcements(
                before,
                scale,
                mapped,
            ).push(announcement(window, scale, mapped)));
            assert(notes@ =~= old(notes)@ + announcements(
                old(windows)@.take(i + 1),
                scale,
                mapped,
            ));
        }
        i += 1;
    }
    proof {
        assert(old(windows)@.take(n as int) =~= old(windows)@);
        assert(windows@ =~= all_told(old(windows)@, scale));
    }
}

/// Configure each mapped window at `extent`.
pub fn configure_mapped(windows: &mut Vec<Window>, extent: Size) -> (sent: Vec<Configure>)
    ensures
        sent@ == mapped_configures(old(windows)@, extent),
        final(windows)@ == all_configured(old(windows)@),
{
    let mut sent: Vec<Configure> = Vec::new();
    let n: usize = windows.len();
    let mut i: usize = 0;
    while i < n
        invariant
            n == old(windows)@.len(),
            n == windows@.len(),
            i <= n,
            forall|k: int|
                0 <= k < i ==> #[trigger] windows@[k] == all_configured(old(windows)@)[k],
            forall|k: int| i <= k < n ==> #[trigger] windows@[k] == old(windows)@[k],
            sent@.len() == i,
            forall|k: int|
                0 <= k < i ==> #[trigger] sent@[k] == mapped_configure(old(windows)@[k], extent),
        decreases n - i,
    {
        let window = windows[i];
        sent.push(window.mapped_configure(extent));
        windows.set(i, Window { initial_configure_sent: true, ..window });
        i += 1;
    }
    proof {
        assert(sent@ =~= mapped_configures(old(windows)@, extent));
        assert(windows@ =~= all_configured(old(windows)@));
    }
    sent
}

/// Send each waiting window the first configure it is still owed.
pub fn configure_waiting(windows: &mut Vec<Window>, extent: Size) -> (sent: Vec<Configure>)
    ensures
        sent@ == owed_configures(old(windows)@, extent),
        final(windows)@ == all_configured(old(windows)@),
{
    let mut sent: Vec<Configure> = Vec::new();
    let ghost owed = |w: Window| !w.initial_configure_sent;
    let ghost first = |w: Window| first_configure(w, extent);
    let n: usize = windows.len();
    let mut i: usize = 0;
    while i < n
        invariant
            n == old(windows)@.len(),
            n == windows@.len(),
            i <= n,
            owed == (|w: Window| !w.initial_configure_sent),
            first == (|w: Window| first_configure(w, extent)),
            forall|k: int|
                0 <= k < i ==> #[trigger] windows@[k] == all_configured(old(windows)@)[k],
            forall|k: int| i <= k < n ==> #[trigger] windows@[k] == old(windows)@[k],
            sent@ == old(windows)@.take(i as int).filter(owed).map_values(first),
        decreases n - i,
    {
        let window = windows[i];
        proof {
            assert(old(windows)@.take(i + 1).drop_last() =~= old(windows)@.take(i as int));
            reveal(Seq::filter);
            let before = old(windows)@.take(i as int).filter(owed);
            assert(before.push(window).map_values(first) =~= before.map_values(first).push(
                first_configure(window, extent),
            ));
        }
        if !window.initial_configure_sent {
            sent.push(window.first_configure(extent));
            windows.set(i, Window { initial_configure_sent: true, ..window });
        }
        i += 1;
    }
    proof {
        assert(old(windows)@.take(n as int) =~= old(windows)@);
        assert(windows@ =~= all_configured(old(windows)@));
    }
    sent
}

/// A window that declares no largest size is made fullscreen over the whole extent by its first
/// configure; any other is left to choose its size and is not made fullscreen.
pub proof fn law_a_first_configure_fills_or_leaves_the_choice(window: Window, extent: Size)
    ensures
        first_configure(window, extent).surface == window.surface,
        window.max_size.w == 0 && window.max_size.h == 0 ==> first_configure(window, extent).size
            == SizeUpdate::Change(Some(extent)) && first_configure(window, extent).fullscreen,
        window.max_size.w != 0 || window.max_size.h != 0 ==> first_configure(window, extent).size
            == SizeUpdate::Keep && !first_configure(window, extent).fullscreen,
{
}

/// A mapped window is made fullscreen by every configure. Its size is the whole extent, or what
/// the extent and its declared largest size have in common: on each axis the smaller of the
/// two, and nothing at all if one of them is empty.
pub proof fn law_a_mapped_configure_is_the_common_size(window: Window, extent: Size)
    ensures
        ({
            let c = mapped_configure(window, extent);
            let largest = window.max_size;
            let empty = largest.w <= 0 || largest.h <= 0 || extent.w <= 0 || extent.h <= 0;
            &&& c.surface == window.surface
            &&& c.fullscreen
            &&& largest.w == 0 && largest.h == 0 ==> c.size == SizeUpdate::Change(Some(extent))
            &&& (largest.w != 0 || largest.h != 0) && empty ==> c.size == SizeUpdate::Change(
                None::<Size>,
            )
            &&& !empty ==> c.size is Change && c.size->0 is Some && {
                let size = c.size->0->0;
                &&& size.w <= largest.w && size.w <= extent.w && (size.w == largest.w || size.w
                    == extent.w)
                &&& size.h <= largest.h && size.h <= extent.h && (size.h == largest.h || size.h
                    == extent.h)
            }
        }),
{
}

/// Every mapped window is sent one configure, in order.
pub proof fn law_each_mapped_window_has_its_configure(
    windows: Seq<Window>,
    extent: Size,
    i: int,
)
    requires
        0 <= i < windows.len(),
    ensures
        mapped_configures(windows, extent).len() == windows.len(),
        mapped_configures(windows, extent)[i].surface == windows[i].surface,
        mapped_configures(windows, extent)[i].fullscreen,
        windows[i].max_size.w == 0 && windows[i].max_size.h == 0 ==> mapped_configures(
            windows,
            extent,
        )[i].size == SizeUpdate::Change(Some(extent)),
        mapped_configures(windows, extent)[i] == mapped_configure(windows[i], extent),
{
}

/// Among waiting windows, one that had its first configure is owed nothing, and one that had
/// not is owed it behind those before it.
pub proof fn law_first_configures_are_owed_one_by_one(
    windows: Seq<Window>,
    window: Window,
    extent: Size,
)
    ensures
        owed_configures(Seq::empty(), extent) == Seq::<Configure>::empty(),
        window.initial_configure_sent ==> owed_configures(windows.push(window), extent)
            == owed_configures(windows, extent),
        !window.initial_configure_sent ==> {
            let owed = owed_configures(windows.push(window), extent);
            &&& owed.drop_last() == owed_configures(windows, extent)
            &&& owed.len() == owed_configures(windows, extent).len() + 1
            &&& owed.last().surface == window.surface
            &&& window.max_size.w == 0 && window.max_size.h == 0 ==> owed.last().size
                == SizeUpdate::Change(Some(extent)) && owed.last().fullscreen
            &&& window.max_size.w != 0 || window.max_size.h != 0 ==> owed.last().size
                == SizeUpdate::Keep && !owed.last().fullscreen
        },
{
    reveal(Seq::filter);
    let owes = |w: Window| !w.initial_configure_sent;
    let first = |w: Window| first_configure(w, extent);
    assert(windows.push(window).drop_last() =~= windows);
    let kept = windows.filter(owes);
    assert(kept.push(window).map_values(first) =~= kept.map_values(first).push(first(window)));
    assert(Seq::<Window>::empty().filter(owes).map_values(first) =~= Seq::empty());
    if !window.initial_configure_sent {
        assert(owed_configures(windows.push(window), extent).drop_last() =~= owed_configures(
            windows,
            extent,
        ));
    }
}

/// To be told a scale changes nothing about a window but the scale it holds, and to be sent a
/// configure nothing but that it has had one.
pub proof fn law_windows_take_in_what_they_are_told(
    windows: Seq<Window>,
    scale: UiScale,
    i: int,
)
    requires
        0 <= i < windows.len(),
    ensures
        all_told(windows, scale).len() == windows.len(),
        ({
            let told = all_told(windows, scale)[i];
            &&& told.preferred_scale == Some(scale)
            &&& told.surface == windows[i].surface
            &&& told.initial_configure_sent == windows[i].initial_configure_sent
            &&& told.max_size == windows[i].max_size
            &&& told.content_is_pq == windows[i].content_is_pq
        }),
        all_configured(windows).len() == windows.len(),
        ({
            let configured = all_configured(windows)[i];
            &&& configured.initial_configure_sent
            &&& configured.surface == windows[i].surface
            &&& configured.preferred_scale == windows[i].preferred_scale
            &&& configured.max_size == windows[i].max_size
            &&& configured.content_is_pq == windows[i].content_is_pq
        }),
        surfaces(windows).len() == windows.len(),
        surfaces(windows)[i] == windows[i].surface,
{
}

/// There is one note for each window that is handed a scale. It says what the window held
/// before, and that the scale goes out exactly when that was not the same scale.
pub proof fn law_a_scale_goes_out_when_it_is_news(
    windows: Seq<Window>,
    scale: UiScale,
    mapped: bool,
    i: int,
)
    requires
        0 <= i < windows.len(),
    ensures
        announcements(windows, scale, mapped).len() == windows.len(),
        ({
            let note = announcements(windows, scale, mapped)[i];
            &&& note.surface == windows[i].surface
            &&& note.previous == windows[i].preferred_scale
            &&& note.sent <==> windows[i].preferred_scale is None
                || windows[i].preferred_scale->0.bits != scale.bits
            &&& note.mapped == mapped
        }),
{
}

} // verus!
