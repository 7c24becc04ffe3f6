//! What a client's surface commit sets in motion.
//!
//! A toplevel window waits in `pending_windows` from its creation until it has acknowledged
//! its first configure. Its first commit is answered with that configure, a later one maps it.

use crate::formats::{
    is_pq_fourcc, ten_bit, ABGR2101010, ARGB2101010, XBGR2101010, XRGB2101010,
};
use crate::geometry::Size;
use crate::health::{counted, health_after, HealthEvent};
use crate::listing::{lemma_no_duplicates_concat, lemma_swap_removed, swap_removed};
use crate::logical::logical_of;
use crate::modes::{law_a_parked_window_is_woken, ModeEffects};
use crate::output::OutputMode;
use crate::state::State;
use crate::windows::{
    announcement, find_window, first_configure, surfaces, Announcement, Configure, SizeUpdate,
    Window,
};
use vstd::prelude::*;

verus! {

/// What a commit attaches to its surface.
#[derive(Debug, Clone, Copy, PartialEq, Eq, Structural)]
pub enum Attached {
    /// No new buffer.
    Nothing,
    Dmabuf { fourcc: u32 },
    /// A buffer of another kind, such as shared memory or a single pixel.
    Other,
}

/// A commit, as it stands on the surface.
#[derive(Debug, Clone, Copy, PartialEq, Eq, Structural)]
pub struct SurfaceCommit {
    pub surface: u64,
    /// The surface at the root of the tree this one belongs to.
    pub root: u64,
    pub attached: Attached,
    /// For a toplevel: whether its first configure has been sent.
    pub initial_configure_sent: bool,
    /// For a toplevel: the largest size it declares, or zero on both axes.
    pub max_size: Size,
    /// For a popup: whether its first configure has been sent.
    pub popup_configured: Option<bool>,
}

/// What is to be done about the surface.
#[derive(Debug, Clone, Copy, PartialEq, Eq, Structural)]
pub enum CommitAction {
    Nothing,
    /// There is no output yet, so the window goes on waiting.
    Park,
    /// Send the window its first configure.
    Configure(Configure),
    /// Map the window in front of the others, give it the keyboard, and move the pointer by
    /// nothing so that it enters. Then call [`State::window_mapped`].
    MapWindow,
    /// Send the popup its first configure.
    ConfigurePopup,
}

#[derive(Debug, Clone, Copy, PartialEq, Eq, Structural)]
pub struct CommitEffects {
    /// The surface is that of a mapped window, whose extent is to be computed again.
    pub refresh: bool,
    /// The UI scale the window has been handed.
    pub announcement: Option<Announcement>,
    pub action: CommitAction,
}

/// Whether a buffer is PQ-encoded already: only one with ten bits for each colour is.
pub open spec fn buffer_is_pq(attached: Attached) -> bool {
    attached matches Attached::Dmabuf { fourcc } && ten_bit(fourcc)
}

/// A window as it stands after `commit`. A buffer that is committed anywhere in its tree is
/// now the last one.
pub open spec fn noted(window: Window, commit: SurfaceCommit, hdr_cm: bool) -> Window {
    let content_is_pq = if hdr_cm && commit.attached !is Nothing && window.surface
        == commit.root {
        buffer_is_pq(commit.attached)
    } else {
        window.content_is_pq
    };
    if window.surface == commit.surface {
        Window {
            initial_configure_sent: commit.initial_configure_sent,
            max_size: commit.max_size,
            content_is_pq,
            ..window
        }
    } else {
        Window { content_is_pq, ..window }
    }
}

pub open spec fn all_noted(windows: Seq<Window>, commit: SurfaceCommit, hdr_cm: bool) -> Seq<
    Window,
> {
    windows.map_values(|w: Window| noted(w, commit, hdr_cm))
}

/// The place of the window of root surface `surface`.
pub open spec fn place_of(windows: Seq<Window>, surface: u64) -> int {
    surfaces(windows).index_of(surface)
}

impl State {
    /// `after` is this state once `commit` was handled, and `effects` is what is left to do.
    pub open spec fn committed(
        self,
        commit: SurfaceCommit,
        hdr_cm: bool,
        after: State,
        effects: CommitEffects,
    ) -> bool {
        let pending = all_noted(self.pending_windows@, commit, hdr_cm);
        let place = place_of(self.pending_windows@, commit.surface);
        let told = Window { preferred_scale: Some(self.ui_scale), ..pending[place] };
        let waiting = surfaces(self.pending_windows@).contains(commit.surface);
        // A buffer that did not go through the dmabuf import shows that the client is alive.
        &&& after.renderer_degraded_active == (if commit.attached is Other {
            health_after(self.renderer_degraded_active, HealthEvent::Handled)
        } else {
            self.renderer_degraded_active
        })
        // A buffer anywhere in the tree of a window that was mapped before the commit counts as
        // the application's.
        &&& after.app_surface_commits == (if commit.attached !is Nothing
            && surfaces(self.space@).contains(commit.root) {
            counted(self.app_surface_commits)
        } else {
            self.app_surface_commits
        })
        &&& after == (State {
            renderer_degraded_active: after.renderer_degraded_active,
            app_surface_commits: after.app_surface_commits,
            space: after.space,
            pending_windows: after.pending_windows,
            ..self
        })
        &&& effects.refresh == surfaces(self.space@).contains(commit.surface)
        &&& effects.announcement == (if waiting && self.output is Some {
            Some(announcement(pending[place], self.ui_scale, false))
        } else {
            None
        })
        &&& effects.action == (if waiting {
            if self.output is None {
                CommitAction::Park
            } else if commit.initial_configure_sent {
                CommitAction::MapWindow
            } else {
                CommitAction::Configure(first_configure(told, self.extent()->0))
            }
        } else if commit.popup_configured == Some(false) {
            CommitAction::ConfigurePopup
        } else {
            CommitAction::Nothing
        })
        &&& after.space@ == (if effects.action is MapWindow {
            all_noted(self.space@, commit, hdr_cm).push(told)
        } else {
            all_noted(self.space@, commit, hdr_cm)
        })
        &&& after.pending_windows@ == (match effects.action {
            CommitAction::MapWindow => swap_removed(pending, place),
            CommitAction::Configure(_) => swap_removed(pending, place).push(
                Window { initial_configure_sent: true, ..told },
            ),
            _ => pending,
        })
    }

    /// `after` is this state once the pointer moved, over a surface or not, while a button held
    /// it or not, and `refocus` is whether the surface is to be left and entered anew.
    pub open spec fn pointer_moved(
        self,
        over_surface: bool,
        grabbed: bool,
        after: State,
        refocus: bool,
    ) -> bool {
        &&& refocus == (self.pending_pointer_refocus && over_surface && !grabbed)
        &&& after == (State {
            pending_pointer_refocus: self.pending_pointer_refocus && !refocus,
            ..self
        })
    }

    /// `commit` is answered with a configure at the size of the mode.
    pub open spec fn is_sized_by_mode(self, commit: SurfaceCommit) -> bool {
        &&& surfaces(self.pending_windows@).contains(commit.surface)
        &&& !commit.initial_configure_sent
        &&& commit.max_size == (Size { w: 0, h: 0 })
    }

    /// Handle a surface commit. `hdr_cm` is whether colour management is on.
    pub fn commit(&mut self, commit: SurfaceCommit, hdr_cm: bool) -> (effects: CommitEffects)
        requires
            old(self).wf(),
            old(self).has_mode() || !old(self).is_sized_by_mode(commit),
        ensures
            final(self).wf(),
            old(self).has_mode() ==> final(self).has_mode(),
            old(self).committed(commit, hdr_cm, *final(self), effects),
    {
        self.note_buffer(commit);
        proof {
            lemma_no_duplicates_concat(
                surfaces(old(self).space@),
                surfaces(old(self).pending_windows@),
            );
            lemma_noted_stay(old(self).space@, commit, hdr_cm);
            lemma_noted_stay(old(self).pending_windows@, commit, hdr_cm);
        }
        let refresh = note_commit(&mut self.space, commit, hdr_cm).is_some();
        let waiting = note_commit(&mut self.pending_windows, commit, hdr_cm);
        let i: usize = match waiting {
            Some(i) => i,
            None => {
                let action = match commit.popup_configured {
                    Some(false) => CommitAction::ConfigurePopup,
                    _ => CommitAction::Nothing,
                };
                return CommitEffects { refresh, announcement: None, action };
            },
        };
        let extent = match &self.output {
            Some(output) => match output.logical_size() {
                Some(extent) => extent,
                None => Size { w: 0, h: 0 },
            },
            None => {
                return CommitEffects { refresh, announcement: None, action: CommitAction::Park };
            },
        };
        let (note, action) = self.advance_window(i, extent);
        CommitEffects { refresh, announcement: Some(note), action }
    }

    /// Take note of the buffer a commit attaches.
    fn note_buffer(&mut self, commit: SurfaceCommit)
        ensures
            *final(self) == (State {
                renderer_degraded_active: if commit.attached is Other {
                    health_after(old(self).renderer_degraded_active, HealthEvent::Handled)
                } else {
                    old(self).renderer_degraded_active
                },
                app_surface_commits: if commit.attached !is Nothing
                    && surfaces(old(self).space@).contains(commit.root) {
                    counted(old(self).app_surface_commits)
                } else {
                    old(self).app_surface_commits
                },
                ..*old(self)
            }),
    {
        if let Attached::Other = commit.attached {
            self.clear_renderer_degraded();
        }
        let attached_new_buffer = match commit.attached {
            Attached::Nothing => false,
            _ => true,
        };
        if attached_new_buffer && self.is_app_surface(commit.root) {
            self.app_surface_commits = self.app_surface_commits.wrapping_add(1);
        }
    }

    /// Hand the waiting window at `i` the UI scale, and then its first configure, or, if it has
    /// that, map it.
    fn advance_window(&mut self, i: usize, extent: Size) -> (step: (Announcement, CommitAction))
        requires
            i < old(self).pending_windows@.len(),
            old(self).known_surfaces().no_duplicates(),
        ensures
            final(self).known_surfaces().no_duplicates(),
            *final(self) == (State {
                space: final(self).space,
                pending_windows: final(self).pending_windows,
                ..*old(self)
            }),
            ({
                let window = old(self).pending_windows@[i as int];
                let told = Window { preferred_scale: Some(old(self).ui_scale), ..window };
                let left = swap_removed(old(self).pending_windows@, i as int);
                &&& step.0 == announcement(window, old(self).ui_scale, false)
                &&& window.initial_configure_sent ==> {
                    &&& step.1 == CommitAction::MapWindow
                    &&& final(self).space@ == old(self).space@.push(told)
                    &&& final(self).pending_windows@ == left
                }
                &&& !window.initial_configure_sent ==> {
                    &&& step.1 == CommitAction::Configure(first_configure(told, extent))
                    &&& final(self).space@ == old(self).space@
                    &&& final(self).pending_windows@ == left.push(
                        Window { initial_configure_sent: true, ..told },
                    )
                }
            }),
    {
        let ghost pending = self.pending_windows@;
        let ghost mapped = self.space@;
        proof {
            lemma_no_duplicates_concat(surfaces(mapped), surfaces(pending));
            lemma_one_leaves(pending, i as int);
            assert(surfaces(pending)[i as int] == pending[i as int].surface);
        }
        let window = self.pending_windows.swap_remove(i);
        let changed = match window.preferred_scale {
            Some(scale) => scale != self.ui_scale,
            None => true,
        };
        let note = Announcement {
            surface: window.surface,
            previous: window.preferred_scale,
            sent: changed,
            mapped: false,
        };
        let told = Window { preferred_scale: Some(self.ui_scale), ..window };
        let ghost left = surfaces(swap_removed(pending, i as int));
        let ghost one = seq![window.surface];
        proof {
            assert forall|m: u64| #[trigger] one.contains(m) implies m == window.surface by {}
        }
        if !told.initial_configure_sent {
            let configure = told.first_configure(extent);
            self.pending_windows.push(Window { initial_configure_sent: true, ..told });
            proof {
                assert(surfaces(self.pending_windows@) =~= left + one);
                lemma_no_duplicates_concat(left, one);
                lemma_no_duplicates_concat(surfaces(mapped), left + one);
            }
            (note, CommitAction::Configure(configure))
        } else {
            self.space.push(told);
            proof {
                assert(surfaces(self.space@) =~= surfaces(mapped) + one);
                lemma_no_duplicates_concat(surfaces(mapped), one);
                lemma_no_duplicates_concat(surfaces(mapped) + one, left);
            }
            (note, CommitAction::MapWindow)
        }
    }

    /// The window of the last commit has been mapped and the pointer has been moved by
    /// nothing. From now on the next motion must make it enter anew: a client that asks for
    /// its pointer only after it was mapped would otherwise never be told. Were this done
    /// before the empty motion, that motion would use it up.
    pub fn window_mapped(&mut self)
        ensures
            *final(self) == (State { pending_pointer_refocus: true, ..*old(self) }),
            old(self).wf() ==> final(self).wf(),
    {
        self.pending_pointer_refocus = true;
    }

    /// The pointer moved. Returns whether the surface under it must be left and entered anew.
    /// Without a surface, or while a button holds the pointer, that waits for a later motion.
    pub fn take_pointer_refocus(&mut self, over_surface: bool, grabbed: bool) -> (refocus: bool)
        ensures
            refocus == (old(self).pending_pointer_refocus && over_surface && !grabbed),
            *final(self) == (State {
                pending_pointer_refocus: old(self).pending_pointer_refocus && !refocus,
                ..*old(self)
            }),
            old(self).pointer_moved(over_surface, grabbed, *final(self), refocus),
            old(self).wf() ==> final(self).wf(),
    {
        let refocus = self.pending_pointer_refocus && over_surface && !grabbed;
        if refocus {
            self.pending_pointer_refocus = false;
        }
        refocus
    }

    /// Whether `root` is the root surface of a mapped window.
    fn is_app_surface(&self, root: u64) -> (b: bool)
        ensures
            b == surfaces(self.space@).contains(root),
    {
        let mapped = find_window(&self.space, root);
        proof {
            lemma_found(self.space@, root, mapped);
        }
        mapped.is_some()
    }
}

/// What `find_window` finds, in terms of the surfaces alone.
proof fn lemma_found(windows: Seq<Window>, surface: u64, at: Option<usize>)
    requires
        at matches Some(i) ==> {
            &&& i < windows.len()
            &&& windows[i as int].surface == surface
        },
        at is None ==> forall|k: int|
            0 <= k < windows.len() ==> (#[trigger] windows[k]).surface != surface,
    ensures
        at is Some <==> surfaces(windows).contains(surface),
{
    if let Some(i) = at {
        assert(surfaces(windows)[i as int] == surface);
    } else {
        if surfaces(windows).contains(surface) {
            let k = choose|k: int|
                0 <= k < windows.len() && surfaces(windows)[k] == surface;
            assert(windows[k].surface == surface);
        }
    }
}

proof fn lemma_noted_stay(windows: Seq<Window>, commit: SurfaceCommit, hdr_cm: bool)
    ensures
        surfaces(all_noted(windows, commit, hdr_cm)) == surfaces(windows),
{
    assert(surfaces(all_noted(windows, commit, hdr_cm)) =~= surfaces(windows));
}

proof fn lemma_one_leaves(windows: Seq<Window>, i: int)
    requires
        0 <= i < windows.len(),
        surfaces(windows).no_duplicates(),
    ensures
        surfaces(swap_removed(windows, i)).no_duplicates(),
        forall|m: u64| #[trigger]
            surfaces(swap_removed(windows, i)).contains(m) <==> surfaces(windows).contains(m) && m
                != windows[i].surface,
{
    assert(surfaces(swap_removed(windows, i)) =~= swap_removed(surfaces(windows), i));
    lemma_swap_removed(surfaces(windows), i);
}

/// Take over into the windows what `commit` says of them, and say where the window of its
/// surface stands.
fn note_commit(windows: &mut Vec<Window>, commit: SurfaceCommit, hdr_cm: bool) -> (at: Option<
    usize,
>)
    requires
        surfaces(old(windows)@).no_duplicates(),
    ensures
        final(windows)@ == all_noted(old(windows)@, commit, hdr_cm),
        at is Some <==> surfaces(old(windows)@).contains(commit.surface),
        at matches Some(i) ==> {
            &&& i < old(windows)@.len()
            &&& i == place_of(old(windows)@, commit.surface)
            &&& old(windows)@[i as int].surface == commit.surface
        },
{
    let at = find_window(windows, commit.surface);
    proof {
        lemma_found(windows@, commit.surface, at);
        if let Some(i) = at {
            let all = surfaces(windows@);
            assert(all[i as int] == all[place_of(windows@, commit.surface)]);
        }
    }
    let attached_new_buffer = match commit.attached {
        Attached::Nothing => false,
        _ => true,
    };
    let buffer_pq = match commit.attached {
        Attached::Dmabuf { fourcc } => is_pq_fourcc(fourcc),
        _ => false,
    };
    let n: usize = windows.len();
    let mut i: usize = 0;
    while i < n
        invariant
            n == old(windows)@.len(),
            n == windows@.len(),
            i <= n,
            attached_new_buffer == (commit.attached !is Nothing),
            buffer_pq == buffer_is_pq(commit.attached),
            forall|k: int|
                0 <= k < i ==> #[trigger] windows@[k] == all_noted(
                    old(windows)@,
                    commit,
                    hdr_cm,
                )[k],
            forall|k: int| i <= k < n ==> #[trigger] windows@[k] == old(windows)@[k],
        decreases n - i,
    {
        let mut window = windows[i];
        if window.surface == commit.surface {
            window.initial_configure_sent = commit.initial_configure_sent;
            window.max_size = commit.max_size;
        }
        if hdr_cm && attached_new_buffer && window.surface == commit.root {
            window.content_is_pq = buffer_pq;
        }
        windows.set(i, window);
        i += 1;
    }
    assert(windows@ =~= all_noted(old(windows)@, commit, hdr_cm));
    at
}

/// No commit loses a window or makes one up: each that was known still is, in one of the two
/// places.
pub proof fn law_a_commit_loses_no_window(
    before: State,
    commit: SurfaceCommit,
    hdr_cm: bool,
    after: State,
    effects: CommitEffects,
)
    requires
        before.wf(),
        before.committed(commit, hdr_cm, after, effects),
    ensures
        forall|s: u64| #[trigger]
            after.known_surfaces().contains(s) <==> before.known_surfaces().contains(s),
{
    let mapped = surfaces(before.space@);
    let pending = surfaces(before.pending_windows@);
    let i = place_of(before.pending_windows@, commit.surface);
    lemma_no_duplicates_concat(mapped, pending);
    lemma_noted_stay(before.space@, commit, hdr_cm);
    lemma_noted_stay(before.pending_windows@, commit, hdr_cm);
    let one = seq![commit.surface];
    assert(one[0] == commit.surface);
    assert forall|m: u64| #[trigger] one.contains(m) <==> m == commit.surface by {}
    if effects.action is MapWindow || effects.action is Configure {
        let noted = all_noted(before.pending_windows@, commit, hdr_cm);
        assert(pending[i] == commit.surface);
        lemma_one_leaves(noted, i);
        let left = surfaces(swap_removed(noted, i));
        if effects.action is MapWindow {
            assert(surfaces(after.space@) =~= mapped + one);
            lemma_no_duplicates_concat(mapped, one);
            lemma_no_duplicates_concat(mapped + one, left);
        } else {
            assert(surfaces(after.pending_windows@) =~= left + one);
            lemma_no_duplicates_concat(left, one);
            lemma_no_duplicates_concat(mapped, left + one);
        }
    }
}

/// A window whose first commit comes before there is an output is not lost: it waits, the
/// first negotiation sends it the configure it is owed, and its next commit maps it.
pub proof fn law_a_parked_window_maps_in_the_end(
    start: State,
    first: SurfaceCommit,
    hdr_cm: bool,
    parked: State,
    at_first: CommitEffects,
    size: Size,
    refresh: i32,
    awake: State,
    at_move: ModeEffects,
    second: SurfaceCommit,
    end: State,
    at_second: CommitEffects,
)
    requires
        start.wf(),
        start.output is None,
        surfaces(start.pending_windows@).contains(first.surface),
        !first.initial_configure_sent,
        start.committed(first, hdr_cm, parked, at_first),
        parked.moved_to(size, refresh, awake, at_move),
        second.surface == first.surface,
        second.initial_configure_sent,
        awake.committed(second, hdr_cm, end, at_second),
    ensures
        at_first.action == CommitAction::Park,
        exists|k: int|
            0 <= k < at_move.first_configures@.len() && (
            #[trigger] at_move.first_configures@[k]).surface == first.surface,
        at_second.action == CommitAction::MapWindow,
        surfaces(end.space@).last() == first.surface,
        !surfaces(end.pending_windows@).contains(first.surface),
{
    let i = place_of(start.pending_windows@, first.surface);
    assert(surfaces(start.pending_windows@)[i] == first.surface);
    lemma_noted_stay(start.pending_windows@, first, hdr_cm);
    assert(!parked.pending_windows@[i].initial_configure_sent);
    law_a_parked_window_is_woken(parked, size, refresh, awake, at_move, i);
    assert(surfaces(awake.pending_windows@) =~= surfaces(start.pending_windows@));
    lemma_no_duplicates_concat(surfaces(start.space@), surfaces(start.pending_windows@));
    lemma_noted_stay(awake.pending_windows@, second, hdr_cm);
    lemma_one_leaves(all_noted(awake.pending_windows@, second, hdr_cm), i);
    let configure = first_configure(
        parked.pending_windows@[i],
        logical_of(size, parked.ui_scale),
    );
    let k = choose|k: int|
        0 <= k < at_move.first_configures@.len() && at_move.first_configures@[k] == configure;
    assert(at_move.first_configures@[k].surface == first.surface);
}

/// The count of application buffers moves by one at a time, and only for a buffer of a window
/// that is on the screen already: one that waits, a popup or a cursor never moves it.
pub proof fn law_only_mapped_windows_are_counted(
    before: State,
    commit: SurfaceCommit,
    hdr_cm: bool,
    after: State,
    effects: CommitEffects,
)
    requires
        before.wf(),
        before.committed(commit, hdr_cm, after, effects),
    ensures
        surfaces(before.space@).contains(commit.root) && commit.attached !is Nothing
            ==> after.app_surface_commits == counted(before.app_surface_commits),
        !surfaces(before.space@).contains(commit.root) || commit.attached is Nothing
            ==> after.app_surface_commits == before.app_surface_commits,
        surfaces(before.pending_windows@).contains(commit.root) ==> after.app_surface_commits
            == before.app_surface_commits,
{
    lemma_no_duplicates_concat(surfaces(before.space@), surfaces(before.pending_windows@));
}

/// While there is an active window, what the display shows is PQ content by the last buffer of
/// that window alone: a commit that attaches one in its tree decides anew, any other leaves it.
pub proof fn law_the_active_window_decides_on_pq(
    before: State,
    commit: SurfaceCommit,
    after: State,
    effects: CommitEffects,
)
    requires
        before.space@.len() > 0,
        before.committed(commit, true, after, effects),
    ensures
        after.space@[0].surface == before.space@[0].surface,
        after.input_is_pq() == (if commit.attached !is Nothing && commit.root
            == before.space@[0].surface {
            buffer_is_pq(commit.attached)
        } else {
            before.input_is_pq()
        }),
{
    assert(after.space@[0] == noted(before.space@[0], commit, true));
}

/// The first window on the screen brings the content it was given while it waited, or with
/// the commit that maps it.
pub proof fn law_the_first_window_brings_its_content(
    before: State,
    commit: SurfaceCommit,
    after: State,
    effects: CommitEffects,
)
    requires
        before.wf(),
        before.space@.len() == 0,
        before.committed(commit, true, after, effects),
    ensures
        effects.action !is MapWindow ==> !after.input_is_pq(),
        effects.action is MapWindow ==> {
            let waiting = before.pending_windows@[place_of(
                before.pending_windows@,
                commit.surface,
            )];
            &&& waiting.surface == commit.surface
            &&& after.input_is_pq() == noted(waiting, commit, true).content_is_pq
        },
{
    let place = place_of(before.pending_windows@, commit.surface);
    if effects.action is MapWindow {
        assert(surfaces(before.pending_windows@)[place] == commit.surface);
        assert(after.space@.len() == 1);
    }
}

/// None of `windows` shows PQ content.
pub open spec fn none_is_pq(windows: Seq<Window>) -> bool {
    forall|i: int| 0 <= i < windows.len() ==> !(#[trigger] windows[i]).content_is_pq
}

/// Without colour management nothing is ever taken for PQ content.
pub proof fn law_without_colour_management_nothing_is_pq(
    before: State,
    commit: SurfaceCommit,
    after: State,
    effects: CommitEffects,
)
    requires
        none_is_pq(before.space@),
        none_is_pq(before.pending_windows@),
        before.committed(commit, false, after, effects),
    ensures
        none_is_pq(after.space@),
        none_is_pq(after.pending_windows@),
        !after.input_is_pq(),
{
    let pending = all_noted(before.pending_windows@, commit, false);
    let place = place_of(before.pending_windows@, commit.surface);
    assert(none_is_pq(all_noted(before.space@, commit, false)));
    assert(none_is_pq(pending));
    if effects.action is MapWindow || effects.action is Configure {
        assert(surfaces(before.pending_windows@)[place] == commit.surface);
        assert(!pending[place].content_is_pq);
        assert(none_is_pq(swap_removed(pending, place)));
    }
}

proof fn lemma_among(windows: Seq<Window>, surface: u64)
    ensures
        surfaces(windows).contains(surface) <==> exists|i: int|
            0 <= i < windows.len() && (#[trigger] windows[i]).surface == surface,
{
    if surfaces(windows).contains(surface) {
        let i = choose|i: int| 0 <= i < windows.len() && surfaces(windows)[i] == surface;
        assert(windows[i].surface == surface);
    }
    if exists|i: int| 0 <= i < windows.len() && (#[trigger] windows[i]).surface == surface {
        let i = choose|i: int|
            0 <= i < windows.len() && (#[trigger] windows[i]).surface == surface;
        assert(surfaces(windows)[i] == surface);
    }
}

proof fn lemma_place(windows: Seq<Window>, surface: u64, i: int)
    requires
        surfaces(windows).no_duplicates(),
        0 <= i < windows.len(),
        windows[i].surface == surface,
    ensures
        surfaces(windows).contains(surface),
        place_of(windows, surface) == i,
{
    let all = surfaces(windows);
    assert(all[i] == surface);
    assert(all[all.index_of(surface)] == surface);
}

/// With colour management, a dmabuf in the tree of the window that is active afterwards makes
/// the display take its content for PQ if and only if it is one of the four packed ten-bit RGB
/// formats. Half-float content is linear and has still to be encoded; a buffer of another kind
/// is never PQ-encoded.
pub proof fn law_only_ten_bit_rgb_is_taken_for_pq(
    before: State,
    commit: SurfaceCommit,
    after: State,
    effects: CommitEffects,
)
    requires
        before.wf(),
        before.committed(commit, true, after, effects),
        after.space@.len() > 0,
        after.space@[0].surface == commit.root,
    ensures
        commit.attached is Dmabuf ==> {
            let code = commit.attached->fourcc;
            let is_pq = code == XBGR2101010 || code == ABGR2101010 || code == XRGB2101010 || code
                == ARGB2101010;
            &&& after.space@[0].content_is_pq <==> is_pq
            &&& after.input_is_pq() <==> is_pq
        },
        commit.attached is Other ==> !after.space@[0].content_is_pq && !after.input_is_pq(),
{
    if before.space@.len() > 0 {
        assert(after.space@[0] == noted(before.space@[0], commit, true));
    } else {
        assert(surfaces(before.pending_windows@)[place_of(
            before.pending_windows@,
            commit.surface,
        )] == commit.surface);
    }
}

/// What a mapped window shows is decided by the last buffer in its own tree, and only with
/// colour management. A commit changes nothing else about a mapped window but what it says of
/// the window of its own surface.
pub proof fn law_a_commit_speaks_of_its_own_window(
    before: State,
    commit: SurfaceCommit,
    hdr_cm: bool,
    after: State,
    effects: CommitEffects,
    i: int,
)
    requires
        before.committed(commit, hdr_cm, after, effects),
        0 <= i < before.space@.len(),
    ensures
        i < after.space@.len(),
        ({
            let (was, is) = (before.space@[i], after.space@[i]);
            let code = commit.attached->fourcc;
            let pq = commit.attached is Dmabuf && (code == XBGR2101010 || code == ABGR2101010
                || code == XRGB2101010 || code == ARGB2101010);
            let decides = hdr_cm && commit.attached !is Nothing && was.surface == commit.root;
            &&& is.surface == was.surface
            &&& is.preferred_scale == was.preferred_scale
            &&& decides ==> is.content_is_pq == pq
            &&& !decides ==> is.content_is_pq == was.content_is_pq
            &&& was.surface == commit.surface ==> is.initial_configure_sent
                == commit.initial_configure_sent && is.max_size == commit.max_size
            &&& was.surface != commit.surface ==> is.initial_configure_sent
                == was.initial_configure_sent && is.max_size == was.max_size
        }),
{
}

/// What a commit sets in motion. A window that waits is parked while there is no output, is
/// sent its first configure when it has not had it, and is mapped when it has; it is handed the
/// scale in force as soon as there is an output. Any other surface is left alone, but for a
/// popup that has not been configured.
pub proof fn law_a_commit_parks_configures_or_maps(
    before: State,
    commit: SurfaceCommit,
    hdr_cm: bool,
    after: State,
    effects: CommitEffects,
)
    requires
        before.committed(commit, hdr_cm, after, effects),
    ensures
        effects.action !is MapWindow ==> after.space@.len() == before.space@.len()
            && after.pending_windows@.len() == before.pending_windows@.len(),
        ({
            let waits = exists|i: int|
                0 <= i < before.pending_windows@.len() && (
                #[trigger] before.pending_windows@[i]).surface == commit.surface;
            let mapped = exists|i: int|
                0 <= i < before.space@.len() && (#[trigger] before.space@[i]).surface
                    == commit.surface;
            let ready = before.output is Some;
            &&& effects.action is Park <==> waits && !ready
            &&& effects.action is MapWindow <==> waits && ready && commit.initial_configure_sent
            &&& effects.action is Configure <==> waits && ready && !commit.initial_configure_sent
            &&& effects.action is ConfigurePopup <==> !waits && commit.popup_configured == Some(
                false,
            )
            &&& effects.action is Nothing <==> !waits && commit.popup_configured != Some(false)
            &&& effects.announcement is Some <==> waits && ready
            &&& effects.refresh <==> mapped
        }),
{
    lemma_among(before.pending_windows@, commit.surface);
    lemma_among(before.space@, commit.surface);
    let place = place_of(before.pending_windows@, commit.surface);
    if effects.action is Configure {
        assert(surfaces(before.pending_windows@)[place] == commit.surface);
    }
}

/// The first configure goes to the window that committed. It fills the extent of the output,
/// unless the commit declares a largest size: then the window chooses.
pub proof fn law_a_first_commit_is_answered_at_the_extent(
    before: State,
    commit: SurfaceCommit,
    hdr_cm: bool,
    after: State,
    effects: CommitEffects,
    mode: OutputMode,
)
    requires
        before.wf(),
        before.committed(commit, hdr_cm, after, effects),
        effects.action is Configure,
        before.output is Some,
        before.output->0.current_mode == Some(mode),
    ensures
        ({
            let c = effects.action->Configure_0;
            let extent = logical_of(mode.size, before.output->0.scale);
            &&& c.surface == commit.surface
            &&& commit.max_size.w == 0 && commit.max_size.h == 0 ==> c.size == SizeUpdate::Change(
                Some(extent),
            ) && c.fullscreen
            &&& commit.max_size.w != 0 || commit.max_size.h != 0 ==> c.size == SizeUpdate::Keep
                && !c.fullscreen
        }),
{
    let place = place_of(before.pending_windows@, commit.surface);
    assert(surfaces(before.pending_windows@)[place] == commit.surface);
}

/// The window that waited at `i` and committed: where it stands afterwards, and as what. A
/// mapped window stands in front of all others, knows the scale in force, and waits no more;
/// one that was configured waits on, as the last; one that was parked stays where it is. The
/// note says what scale the window held, and that the scale goes out if it is another.
pub proof fn law_a_waiting_window_moves_on(
    before: State,
    commit: SurfaceCommit,
    hdr_cm: bool,
    after: State,
    effects: CommitEffects,
    i: int,
)
    requires
        before.wf(),
        before.committed(commit, hdr_cm, after, effects),
        0 <= i < before.pending_windows@.len(),
        before.pending_windows@[i].surface == commit.surface,
    ensures
        ({
            let was = before.pending_windows@[i];
            let n = before.pending_windows@.len() as int;
            let code = commit.attached->fourcc;
            let pq = if hdr_cm && commit.attached !is Nothing && commit.root == commit.surface {
                commit.attached is Dmabuf && (code == XBGR2101010 || code == ABGR2101010 || code
                    == XRGB2101010 || code == ARGB2101010)
            } else {
                was.content_is_pq
            };
            &&& effects.action is MapWindow ==> {
                let is = after.space@.last();
                &&& after.space@.len() == before.space@.len() + 1
                &&& after.pending_windows@.len() == n - 1
                &&& is.surface == commit.surface
                &&& is.initial_configure_sent
                &&& is.max_size == commit.max_size
                &&& is.preferred_scale == Some(before.ui_scale)
                &&& is.content_is_pq == pq
            }
            &&& effects.action is Configure ==> {
                let is = after.pending_windows@.last();
                &&& after.space@.len() == before.space@.len()
                &&& after.pending_windows@.len() == n
                &&& is.surface == commit.surface
                &&& is.initial_configure_sent
                &&& is.max_size == commit.max_size
                &&& is.preferred_scale == Some(before.ui_scale)
                &&& is.content_is_pq == pq
            }
            &&& effects.action is Park ==> {
                let is = after.pending_windows@[i];
                &&& after.space@.len() == before.space@.len()
                &&& after.pending_windows@.len() == n
                &&& is.surface == commit.surface
                &&& is.initial_configure_sent == commit.initial_configure_sent
                &&& is.max_size == commit.max_size
                &&& is.preferred_scale == was.preferred_scale
                &&& is.content_is_pq == pq
            }
            &&& effects.announcement is Some ==> {
                let note = effects.announcement->0;
                &&& note.surface == commit.surface
                &&& note.previous == was.preferred_scale
                &&& note.sent <==> was.preferred_scale is None || was.preferred_scale->0.bits
                    != before.ui_scale.bits
                &&& !note.mapped
            }
        }),
{
    lemma_no_duplicates_concat(surfaces(before.space@), surfaces(before.pending_windows@));
    lemma_place(before.pending_windows@, commit.surface, i);
}

/// Every other window that waited still waits, as it was but for a buffer in its tree.
pub proof fn law_other_waiting_windows_wait_on(
    before: State,
    commit: SurfaceCommit,
    hdr_cm: bool,
    after: State,
    effects: CommitEffects,
    j: int,
)
    requires
        before.wf(),
        before.committed(commit, hdr_cm, after, effects),
        0 <= j < before.pending_windows@.len(),
        before.pending_windows@[j].surface != commit.surface,
    ensures
        exists|k: int|
            0 <= k < after.pending_windows@.len() && {
                let is = #[trigger] after.pending_windows@[k];
                let was = before.pending_windows@[j];
                &&& is.surface == was.surface
                &&& is.initial_configure_sent == was.initial_configure_sent
                &&& is.max_size == was.max_size
                &&& is.preferred_scale == was.preferred_scale
                &&& !hdr_cm || commit.attached is Nothing || commit.root != was.surface
                    ==> is.content_is_pq == was.content_is_pq
                &&& hdr_cm && commit.attached !is Nothing && commit.root == was.surface ==> {
                    let code = commit.attached->fourcc;
                    is.content_is_pq <==> commit.attached is Dmabuf && (code == XBGR2101010
                        || code == ABGR2101010 || code == XRGB2101010 || code == ARGB2101010)
                }
            },
{
    let n = before.pending_windows@.len() as int;
    let waits = surfaces(before.pending_windows@).contains(commit.surface);
    let place = place_of(before.pending_windows@, commit.surface);
    if waits {
        assert(surfaces(before.pending_windows@)[place] == commit.surface);
    }
    let k = if waits && before.output is Some && j == n - 1 {
        place
    } else {
        j
    };
    let is = after.pending_windows@[k];
    assert(is.surface == before.pending_windows@[j].surface);
}

/// A commit bears on the windows, on the count of application buffers, and on the health of the
/// renderer; everything else stays. A buffer that is no dmabuf ends a standing degradation, and
/// no commit reports one.
pub proof fn law_a_commit_leaves_the_rest_alone(
    before: State,
    commit: SurfaceCommit,
    hdr_cm: bool,
    after: State,
    effects: CommitEffects,
)
    requires
        before.committed(commit, hdr_cm, after, effects),
    ensures
        commit.attached is Other ==> after.renderer_degraded_active is None,
        commit.attached !is Other ==> after.renderer_degraded_active
            == before.renderer_degraded_active,
        after.renderer_degraded == before.renderer_degraded,
        after.should_quit == before.should_quit,
        after.output == before.output,
        after.video_info == before.video_info,
        after.output_buffer == before.output_buffer,
        after.render_size == before.render_size,
        after.ui_scale == before.ui_scale,
        after.mode_ladder == before.mode_ladder,
        after.advertised_ladder == before.advertised_ladder,
        after.pending_pointer_refocus == before.pending_pointer_refocus,
        after.hdr_signalled == before.hdr_signalled,
        after.last_hdr_state == before.last_hdr_state,
        after.hdr_candidate_since == before.hdr_candidate_since,
        after.last_render == before.last_render,
{
}

/// A buffer in the tree of a window that is mapped already adds one to the count, which starts
/// again at zero beyond the largest; every other commit leaves it.
pub proof fn law_a_buffer_of_a_mapped_window_counts_one(
    before: State,
    commit: SurfaceCommit,
    hdr_cm: bool,
    after: State,
    effects: CommitEffects,
)
    requires
        before.committed(commit, hdr_cm, after, effects),
    ensures
        ({
            let counts = commit.attached !is Nothing && exists|i: int|
                0 <= i < before.space@.len() && (#[trigger] before.space@[i]).surface
                    == commit.root;
            let n = before.app_surface_commits;
            &&& counts && n < u64::MAX ==> after.app_surface_commits == n + 1
            &&& counts && n == u64::MAX ==> after.app_surface_commits == 0
            &&& !counts ==> after.app_surface_commits == n
        }),
{
    lemma_among(before.space@, commit.root);
}

/// A newly mapped window is entered anew once, by the first motion that is over a surface while
/// no button holds the pointer. Motions before it leave that to come, and those after it have
/// nothing left to do.
pub proof fn law_a_window_is_entered_anew_once(
    before: State,
    over: bool,
    grabbed: bool,
    middle: State,
    first: bool,
    over_next: bool,
    grabbed_next: bool,
    after: State,
    second: bool,
)
    requires
        before.pointer_moved(over, grabbed, middle, first),
        middle.pointer_moved(over_next, grabbed_next, after, second),
    ensures
        !before.pending_pointer_refocus ==> !first && !second,
        before.pending_pointer_refocus && over && !grabbed ==> first && !second,
        before.pending_pointer_refocus && (!over || grabbed) ==> !first && (second <==> over_next
            && !grabbed_next),
        after.space == before.space,
        after.pending_windows == before.pending_windows,
        after.output == before.output,
{
}

} // verus!
