//! The per-output surface set and the decision core of the event loop:
//! one tracked surface per active output, created on hotplug and removed
//! on close or unplug; each loop iteration drains input into the
//! surfaces, then consumes every surface's pending event, redrawing or
//! removing as decided. When the set becomes empty the loop's driver
//! terminates: a panel with zero outputs has nothing to show.

use vstd::prelude::*;
use crate::panel::{
    pointer_gesture_call, touch_gesture_call, ActionV, AppAction, PointerEvent, TouchEvent,
};
use crate::surface::{
    app_call_action, app_wf, surface_after_configure, surface_after_closed, surface_after_events,
    surface_after_pointer, surface_after_touch, surface_frame, surface_remove, surface_wf, Frame,
    FrameV, PanelApp, SurfV, Surface,
};

verus! {

/// One tracked surface, keyed by the opaque identifier of its output.
pub struct SurfaceEntry {
    pub id: u32,
    pub surface: Surface,
}

/// Mathematical model of [`SurfaceEntry`].
#[verifier::ext_equal]
pub ghost struct EntryV {
    pub id: u32,
    pub surface: SurfV,
}

impl View for SurfaceEntry {
    type V = EntryV;

    open spec fn view(&self) -> EntryV {
        EntryV { id: self.id, surface: self.surface@ }
    }
}

/// The set of live surfaces, one per active output, in creation order.
pub struct SurfaceSet {
    pub surfaces: Vec<SurfaceEntry>,
}

impl View for SurfaceSet {
    type V = Seq<EntryV>;

    open spec fn view(&self) -> Seq<EntryV> {
        self.surfaces@.map_values(|e: SurfaceEntry| e@)
    }
}

/// Every tracked surface is well-formed.
pub open spec fn set_wf(s: Seq<EntryV>) -> bool {
    forall|i: int| 0 <= i < s.len() ==> surface_wf(#[trigger] s[i].surface)
}

/// The set with every surface of the unplugged output dropped, in order.
pub open spec fn entries_without(s: Seq<EntryV>, id: u32) -> Seq<EntryV>
    decreases s.len(),
{
    if s.len() == 0 {
        Seq::empty()
    } else if s.last().id == id {
        entries_without(s.drop_last(), id)
    } else {
        entries_without(s.drop_last(), id).push(s.last())
    }
}

/// Dropping an output's surfaces keeps exactly the entries of the other
/// outputs, in order.
pub proof fn lemma_entries_without_is_filter(s: Seq<EntryV>, id: u32)
    ensures
        entries_without(s, id) == s.filter(|e: EntryV| e.id != id),
    decreases s.len(),
{
    reveal_with_fuel(Seq::filter, 2);
    if s.len() > 0 {
        lemma_entries_without_is_filter(s.drop_last(), id);
    }
}

/// Dropping an output's surfaces keeps the rest well-formed.
pub proof fn lemma_entries_without_wf(s: Seq<EntryV>, id: u32)
    requires
        set_wf(s),
    ensures
        set_wf(entries_without(s, id)),
        entries_without(s, id).len() <= s.len(),
    decreases s.len(),
{
    if s.len() > 0 {
        assert forall|i: int| 0 <= i < s.drop_last().len() implies surface_wf(
            #[trigger] s.drop_last()[i].surface,
        ) by {
            assert(s.drop_last()[i] == s[i]);
        }
        lemma_entries_without_wf(s.drop_last(), id);
        if s.last().id != id {
            let prev = entries_without(s.drop_last(), id);
            assert forall|i: int| 0 <= i < prev.push(s.last()).len() implies surface_wf(
                #[trigger] prev.push(s.last())[i].surface,
            ) by {
                if i < prev.len() {
                    assert(prev.push(s.last())[i] == prev[i]);
                } else {
                    assert(prev.push(s.last())[i] == s.last());
                    assert(s.last() == s[s.len() - 1]);
                }
            }
        }
    }
}

/// The set after a compositor configure for one output's surface.
pub open spec fn set_after_configure(s: Seq<EntryV>, id: u32, width: u32, height: u32) -> Seq<
    EntryV,
> {
    Seq::new(
        s.len(),
        |i: int|
            if s[i].id == id {
                EntryV { id: s[i].id, surface: surface_after_configure(s[i].surface, width, height) }
            } else {
                s[i]
            },
    )
}

/// Whether the configure reached a surface of that output that accepted
/// it, among the first `n` surfaces — a surface with a pending `Closed`
/// refuses, and the configure is then not acknowledged.
pub open spec fn configure_accepted_upto(s: Seq<EntryV>, id: u32, n: int) -> bool
    decreases n,
{
    if n <= 0 {
        false
    } else {
        configure_accepted_upto(s, id, n - 1) || (s[n - 1].id == id
            && s[n - 1].surface.next_render_event != Some(crate::panel::RenderEvent::Closed))
    }
}

/// The set after the compositor revoked one output's surface.
pub open spec fn set_after_closed(s: Seq<EntryV>, id: u32) -> Seq<EntryV> {
    Seq::new(
        s.len(),
        |i: int|
            if s[i].id == id {
                EntryV { id: s[i].id, surface: surface_after_closed(s[i].surface) }
            } else {
                s[i]
            },
    )
}

/// The set after one pointer event was dispatched to the first `n`
/// surfaces (every surface receives every input event).
pub open spec fn set_after_pointer_upto(s: Seq<EntryV>, ev: PointerEvent, n: int) -> Seq<EntryV> {
    Seq::new(
        s.len(),
        |i: int|
            if i < n {
                EntryV { id: s[i].id, surface: surface_after_pointer(s[i].surface, ev) }
            } else {
                s[i]
            },
    )
}

/// The actions the first `n` surfaces produced for one pointer event, in
/// surface order.
pub open spec fn pointer_actions_upto(s: Seq<EntryV>, ev: PointerEvent, n: int) -> Seq<ActionV>
    decreases n,
{
    if n <= 0 {
        Seq::empty()
    } else {
        let prev = pointer_actions_upto(s, ev, n - 1);
        match app_call_action(
            s[n - 1].surface.app,
            pointer_gesture_call(s[n - 1].surface.last_pointer_location, ev),
        ) {
            Some(a) => prev.push(a),
            None => prev,
        }
    }
}

/// The set after one touch event was dispatched to the first `n`
/// surfaces.
pub open spec fn set_after_touch_upto(s: Seq<EntryV>, ev: TouchEvent, n: int) -> Seq<EntryV> {
    Seq::new(
        s.len(),
        |i: int|
            if i < n {
                EntryV { id: s[i].id, surface: surface_after_touch(s[i].surface, ev) }
            } else {
                s[i]
            },
    )
}

/// The actions the first `n` surfaces produced for one touch event.
pub open spec fn touch_actions_upto(s: Seq<EntryV>, ev: TouchEvent, n: int) -> Seq<ActionV>
    decreases n,
{
    if n <= 0 {
        Seq::empty()
    } else {
        let prev = touch_actions_upto(s, ev, n - 1);
        match app_call_action(s[n - 1].surface.app, touch_gesture_call(ev)) {
            Some(a) => prev.push(a),
            None => prev,
        }
    }
}

/// The surfaces kept by one tick over the first `n` surfaces: every
/// surface consumed its pending event; those that decided removal are
/// gone, the others are kept in order.
pub open spec fn tick_entries_upto(s: Seq<EntryV>, free: Seq<bool>, n: int) -> Seq<EntryV>
    decreases n,
{
    if n <= 0 {
        Seq::empty()
    } else {
        let prev = tick_entries_upto(s, free, n - 1);
        if surface_remove(s[n - 1].surface) {
            prev
        } else {
            prev.push(
                EntryV {
                    id: s[n - 1].id,
                    surface: surface_after_events(s[n - 1].surface, free[n - 1]),
                },
            )
        }
    }
}

/// The frames one tick paints over the first `n` surfaces, keyed by
/// output, in surface order. A surface being removed paints nothing.
pub open spec fn tick_frames_upto(s: Seq<EntryV>, free: Seq<bool>, n: int) -> Seq<(u32, FrameV)>
    decreases n,
{
    if n <= 0 {
        Seq::empty()
    } else {
        let prev = tick_frames_upto(s, free, n - 1);
        match surface_frame(s[n - 1].surface, free[n - 1]) {
            Some(f) => prev.push((s[n - 1].id, f)),
            None => prev,
        }
    }
}

/// The outputs whose surfaces one tick removed, over the first `n`
/// surfaces, in surface order.
pub open spec fn tick_removed_upto(s: Seq<EntryV>, free: Seq<bool>, n: int) -> Seq<u32>
    decreases n,
{
    if n <= 0 {
        Seq::empty()
    } else {
        let prev = tick_removed_upto(s, free, n - 1);
        if surface_remove(s[n - 1].surface) {
            prev.push(s[n - 1].id)
        } else {
            prev
        }
    }
}

/// The models of a list of keyed frames.
pub open spec fn keyed_frames_view(v: Seq<(u32, Frame)>) -> Seq<(u32, FrameV)> {
    v.map_values(|p: (u32, Frame)| (p.0, p.1@))
}

/// The models of a list of actions.
pub open spec fn actions_view(v: Seq<AppAction>) -> Seq<ActionV> {
    v.map_values(|a: AppAction| a@)
}

impl SurfaceSet {
    /// An empty set: no outputs are known yet.
    pub fn new() -> (r: SurfaceSet)
        ensures
            r@ == Seq::<EntryV>::empty(),
            set_wf(r@),
    {
        let r = SurfaceSet { surfaces: Vec::new() };
        proof {
            assert(r@ =~= Seq::<EntryV>::empty());
        }
        r
    }

    /// How many surfaces are live.
    pub fn len(&self) -> (r: usize)
        ensures
            r == self@.len(),
    {
        self.surfaces.len()
    }

    /// Whether no surface is left — the loop's driver then terminates.
    pub fn is_empty(&self) -> (r: bool)
        ensures
            r == (self@.len() == 0),
    {
        self.surfaces.len() == 0
    }

    /// An output appeared: track a new surface for it, driven by the
    /// given application state.
    pub fn add_output(&mut self, id: u32, app: PanelApp)
        requires
            set_wf(old(self)@),
            app_wf(app@),
        ensures
            final(self)@ == old(self)@.push(
                EntryV {
                    id,
                    surface: SurfV {
                        app: app@,
                        next_render_event: None,
                        dimensions: crate::panel::WindowSize(0, 0),
                        should_exit: false,
                        last_pointer_location: None,
                    },
                },
            ),
            set_wf(final(self)@),
    {
        let entry = SurfaceEntry { id, surface: Surface::new(app) };
        self.surfaces.push(entry);
        proof {
            assert(self@ =~= old(self)@.push(
                EntryV {
                    id,
                    surface: SurfV {
                        app: app@,
                        next_render_event: None,
                        dimensions: crate::panel::WindowSize(0, 0),
                        should_exit: false,
                        last_pointer_location: None,
                    },
                },
            ));
        }
    }

    /// An output disappeared: drop every surface tracked for it.
    pub fn remove_output(&mut self, id: u32)
        requires
            set_wf(old(self)@),
        ensures
            final(self)@ == entries_without(old(self)@, id),
            set_wf(final(self)@),
    {
        let ghost s0 = self@;
        let mut i: usize = 0;
        let ghost mut j: int = 0;
        while i < self.surfaces.len()
            invariant
                set_wf(s0),
                0 <= i as int <= j <= s0.len(),
                self@.len() == i + (s0.len() - j),
                self@.take(i as int) == entries_without(s0.take(j), id),
                forall|k: int| i <= k < self@.len() ==> #[trigger] self@[k] == s0[j + (k - i)],
            decreases self.surfaces@.len() - i,
        {
            proof {
                assert(s0.take(j + 1).drop_last() =~= s0.take(j));
                assert(s0.take(j + 1).last() == s0[j]);
                assert(self@[i as int] == self.surfaces@[i as int]@);
                assert(self@[i as int] == s0[j]);
            }
            if self.surfaces[i].id == id {
                let ghost pre = self@;
                let _ = self.surfaces.remove(i);
                proof {
                    assert(self@ =~= pre.remove(i as int));
                    assert(self@.take(i as int) =~= pre.take(i as int));
                    j = j + 1;
                }
            } else {
                proof {
                    assert(self@.take(i as int + 1) =~= self@.take(i as int).push(
                        self@[i as int],
                    ));
                    j = j + 1;
                }
                i = i + 1;
            }
        }
        proof {
            assert(j == s0.len());
            assert(self@.take(self@.len() as int) =~= self@);
            assert(s0.take(s0.len() as int) =~= s0);
            lemma_entries_without_wf(s0, id);
        }
    }

    /// The compositor assigned dimensions to one output's surface: the
    /// new size becomes that surface's pending event. Returns whether it
    /// was accepted — a closing surface refuses, and an unaccepted
    /// configure must not be acknowledged.
    pub fn note_configure(&mut self, id: u32, width: u32, height: u32) -> (accepted: bool)
        requires
            set_wf(old(self)@),
        ensures
            final(self)@ == set_after_configure(old(self)@, id, width, height),
            accepted == configure_accepted_upto(old(self)@, id, old(self)@.len() as int),
            set_wf(final(self)@),
    {
        let ghost s0 = self@;
        let mut accepted = false;
        let mut i: usize = 0;
        while i < self.surfaces.len()
            invariant
                set_wf(s0),
                0 <= i <= s0.len(),
                self@.len() == s0.len(),
                self.surfaces@.len() == s0.len(),
                forall|k: int|
                    0 <= k < i ==> #[trigger] self@[k] == set_after_configure(
                        s0,
                        id,
                        width,
                        height,
                    )[k],
                forall|k: int| i <= k < s0.len() ==> #[trigger] self@[k] == s0[k],
                accepted == configure_accepted_upto(s0, id, i as int),
            decreases self.surfaces@.len() - i,
        {
            proof {
                assert(self@[i as int] == self.surfaces@[i as int]@);
            }
            if self.surfaces[i].id == id {
                let ghost pre_view = self@;
                let a = self.surfaces[i].surface.note_configure(width, height);
                if a {
                    accepted = true;
                }
                proof {
                    assert forall|k: int|
                        0 <= k < s0.len() && k != i as int implies #[trigger] self@[k]
                        == pre_view[k] by {}
                    assert(self@[i as int] == set_after_configure(s0, id, width, height)[
                        i as int
                    ]);
                }
            }
            i = i + 1;
        }
        proof {
            assert(self@ =~= set_after_configure(s0, id, width, height));
        }
        accepted
    }

    /// The compositor revoked one output's surface: `Closed` becomes its
    /// pending event, whatever was pending before.
    pub fn note_closed(&mut self, id: u32)
        requires
            set_wf(old(self)@),
        ensures
            final(self)@ == set_after_closed(old(self)@, id),
            set_wf(final(self)@),
    {
        let ghost s0 = self@;
        let mut i: usize = 0;
        while i < self.surfaces.len()
            invariant
                set_wf(s0),
                0 <= i <= s0.len(),
                self@.len() == s0.len(),
                self.surfaces@.len() == s0.len(),
                forall|k: int| 0 <= k < i ==> #[trigger] self@[k] == set_after_closed(s0, id)[k],
                forall|k: int| i <= k < s0.len() ==> #[trigger] self@[k] == s0[k],
            decreases self.surfaces@.len() - i,
        {
            proof {
                assert(self@[i as int] == self.surfaces@[i as int]@);
            }
            if self.surfaces[i].id == id {
                let ghost pre_view = self@;
                self.surfaces[i].surface.note_closed();
                proof {
                    assert forall|k: int|
                        0 <= k < s0.len() && k != i as int implies #[trigger] self@[k]
                        == pre_view[k] by {}
                    assert(self@[i as int] == set_after_closed(s0, id)[i as int]);
                }
            }
            i = i + 1;
        }
        proof {
            assert(self@ =~= set_after_closed(s0, id));
        }
    }

    /// Dispatch one raw pointer event to every surface, in order, and
    /// collect the actions their committed gestures produced.
    pub fn handle_pointer_event(&mut self, event: &PointerEvent) -> (actions: Vec<AppAction>)
        requires
            set_wf(old(self)@),
        ensures
            final(self)@ == set_after_pointer_upto(old(self)@, *event, old(self)@.len() as int),
            actions_view(actions@) == pointer_actions_upto(
                old(self)@,
                *event,
                old(self)@.len() as int,
            ),
            set_wf(final(self)@),
    {
        let ghost s0 = self@;
        let mut actions: Vec<AppAction> = Vec::new();
        let mut i: usize = 0;
        while i < self.surfaces.len()
            invariant
                set_wf(s0),
                0 <= i <= s0.len(),
                self@.len() == s0.len(),
                self.surfaces@.len() == s0.len(),
                forall|k: int|
                    0 <= k < i ==> #[trigger] self@[k] == set_after_pointer_upto(
                        s0,
                        *event,
                        s0.len() as int,
                    )[k],
                forall|k: int| i <= k < s0.len() ==> #[trigger] self@[k] == s0[k],
                actions_view(actions@) == pointer_actions_upto(s0, *event, i as int),
            decreases self.surfaces@.len() - i,
        {
            proof {
                assert(self@[i as int] == self.surfaces@[i as int]@);
            }
            let ghost pre_view = self@;
            let action = self.surfaces[i].surface.handle_pointer_event(event);
            proof {
                assert forall|k: int|
                    0 <= k < s0.len() && k != i as int implies #[trigger] self@[k] == pre_view[k]
                by {}
                assert(self@[i as int] == set_after_pointer_upto(s0, *event, s0.len() as int)[
                    i as int
                ]);
            }
            if let Some(a) = action {
                actions.push(a);
            }
            proof {
                assert(actions_view(actions@) =~= pointer_actions_upto(s0, *event, i as int + 1));
            }
            i = i + 1;
        }
        proof {
            assert(self@ =~= set_after_pointer_upto(s0, *event, s0.len() as int));
        }
        actions
    }

    /// Dispatch one raw touch event to every surface, in order, and
    /// collect the actions their committed gestures produced.
    pub fn handle_touch_event(&mut self, event: &TouchEvent) -> (actions: Vec<AppAction>)
        requires
            set_wf(old(self)@),
        ensures
            final(self)@ == set_after_touch_upto(old(self)@, *event, old(self)@.len() as int),
            actions_view(actions@) == touch_actions_upto(
                old(self)@,
                *event,
                old(self)@.len() as int,
            ),
            set_wf(final(self)@),
    {
        let ghost s0 = self@;
        let mut actions: Vec<AppAction> = Vec::new();
        let mut i: usize = 0;
        while i < self.surfaces.len()
            invariant
                set_wf(s0),
                0 <= i <= s0.len(),
                self@.len() == s0.len(),
                self.surfaces@.len() == s0.len(),
                forall|k: int|
                    0 <= k < i ==> #[trigger] self@[k] == set_after_touch_upto(
                        s0,
                        *event,
                        s0.len() as int,
                    )[k],
                forall|k: int| i <= k < s0.len() ==> #[trigger] self@[k] == s0[k],
                actions_view(actions@) == touch_actions_upto(s0, *event, i as int),
            decreases self.surfaces@.len() - i,
        {
            proof {
                assert(self@[i as int] == self.surfaces@[i as int]@);
            }
            let ghost pre_view = self@;
            let action = self.surfaces[i].surface.handle_touch_event(event);
            proof {
                assert forall|k: int|
                    0 <= k < s0.len() && k != i as int implies #[trigger] self@[k] == pre_view[k]
                by {}
                assert(self@[i as int] == set_after_touch_upto(s0, *event, s0.len() as int)[
                    i as int
                ]);
            }
            if let Some(a) = action {
                actions.push(a);
            }
            proof {
                assert(actions_view(actions@) =~= touch_actions_upto(s0, *event, i as int + 1));
            }
            i = i + 1;
        }
        proof {
            assert(self@ =~= set_after_touch_upto(s0, *event, s0.len() as int));
        }
        actions
    }

    /// One iteration of the event loop's draw pass: every surface
    /// consumes its pending event — redrawing if one is due, a buffer is
    /// free (`pool_free`, indexed by the surface's position before the
    /// tick), and the dimensions are valid — and surfaces that decided
    /// removal are dropped from the set, the scan surviving the removal.
    /// Returns the frames to paint, keyed by output, and the outputs
    /// whose surfaces were removed.
    pub fn tick(&mut self, pool_free: &Vec<bool>) -> (r: (Vec<(u32, Frame)>, Vec<u32>))
        requires
            set_wf(old(self)@),
            pool_free@.len() == old(self)@.len(),
        ensures
            final(self)@ == tick_entries_upto(old(self)@, pool_free@, old(self)@.len() as int),
            keyed_frames_view(r.0@) == tick_frames_upto(
                old(self)@,
                pool_free@,
                old(self)@.len() as int,
            ),
            r.1@ == tick_removed_upto(old(self)@, pool_free@, old(self)@.len() as int),
            set_wf(final(self)@),
    {
        let ghost s0 = self@;
        let ghost free = pool_free@;
        let mut frames: Vec<(u32, Frame)> = Vec::new();
        let mut removed: Vec<u32> = Vec::new();
        let mut i: usize = 0;
        let mut j: usize = 0;
        while j < pool_free.len()
            invariant
                set_wf(s0),
                free == pool_free@,
                free.len() == s0.len(),
                0 <= i <= j <= s0.len(),
                self@.len() == i + (s0.len() - j),
                self.surfaces@.len() == self@.len(),
                self@.take(i as int) == tick_entries_upto(s0, free, j as int),
                tick_entries_upto(s0, free, j as int).len() == i,
                forall|k: int| i <= k < self@.len() ==> #[trigger] self@[k] == s0[j + (k - i)],
                keyed_frames_view(frames@) == tick_frames_upto(s0, free, j as int),
                removed@ == tick_removed_upto(s0, free, j as int),
                forall|k: int| 0 <= k < i ==> surface_wf(#[trigger] self@[k].surface),
            decreases pool_free@.len() - j,
        {
            proof {
                assert(self@[i as int] == self.surfaces@[i as int]@);
                assert(self@[i as int] == s0[j as int]);
            }
            let free_here = pool_free[j];
            let ghost pre_view = self@;
            let hr = self.surfaces[i].surface.handle_events(free_here);
            proof {
                assert forall|k: int|
                    0 <= k < pre_view.len() && k != i as int implies #[trigger] self@[k]
                    == pre_view[k] by {}
                assert(self@[i as int].id == s0[j as int].id);
                assert(self@[i as int].surface == crate::surface::surface_after_events(
                    s0[j as int].surface,
                    free[j as int],
                ));
            }
            if hr.remove {
                removed.push(self.surfaces[i].id);
                let ghost mid_view = self@;
                let _ = self.surfaces.remove(i);
                proof {
                    assert(self@ =~= mid_view.remove(i as int));
                    assert(self@.take(i as int) =~= mid_view.take(i as int));
                    assert(mid_view.take(i as int) =~= pre_view.take(i as int));
                    assert forall|k: int| i <= k < self@.len() implies #[trigger] self@[k] == s0[(
                    j + 1) + (k - i)] by {
                        assert(self@[k] == mid_view[k + 1]);
                        assert(mid_view[k + 1] == pre_view[k + 1]);
                    }
                }
            } else {
                match hr.frame {
                    Some(f) => {
                        frames.push((self.surfaces[i].id, f));
                        proof {
                            assert(keyed_frames_view(frames@) =~= tick_frames_upto(
                                s0,
                                free,
                                j as int + 1,
                            ));
                        }
                    },
                    None => {},
                }
                proof {
                    assert(self@.take(i as int + 1) =~= pre_view.take(i as int).push(
                        self@[i as int],
                    ));
                }
                i = i + 1;
            }
            j = j + 1;
            proof {
                assert(self@.take(i as int) =~= tick_entries_upto(s0, free, j as int));
            }
        }
        proof {
            assert(self@.take(self@.len() as int) =~= self@);
        }
        (frames, removed)
    }
}

} // verus!

