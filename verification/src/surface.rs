//! One panel surface: the application state driving it, its current
//! dimensions, and the single pending render event that coalesces
//! everything that happened since the last tick into at most one redraw
//! decision. Raw pointer and touch events are unified here into the
//! abstract gesture protocol and delivered to the application.

use vstd::prelude::*;
use crate::bar::{
    bar_after_commit, bar_after_draw, bar_after_movement, bar_after_start, bar_after_stop,
    bar_commit_command, bar_draw_cmds, bar_settings, bar_wf, Bar, BarV,
};
use crate::menu::{
    lemma_commit_offset_clamped, menu_after_commit, menu_after_draw, menu_after_movement,
    menu_after_start, menu_after_stop, menu_draw_cmds, menu_selection, menu_settings, menu_wf,
    Menu, MenuV,
};
use crate::panel::{
    action_view, cmds_view, pointer_gesture_call, pointer_location_after, touch_gesture_call,
    ActionV, AppAction, ApplicationSettings, CmdV, DrawCommand, GestureCall, PointerEvent,
    PointerPosition, RenderEvent, SettingsV, TouchEvent, WindowSize,
};

verus! {

/// The closed set of applications the framework drives: the button bar
/// or the selection menu.
pub enum PanelApp {
    Bar(Bar),
    Menu(Menu),
}

/// Mathematical model of [`PanelApp`].
#[verifier::ext_equal]
pub ghost enum AppV {
    Bar(BarV),
    Menu(MenuV),
}

impl View for PanelApp {
    type V = AppV;

    open spec fn view(&self) -> AppV {
        match self {
            PanelApp::Bar(b) => AppV::Bar(b@),
            PanelApp::Menu(m) => AppV::Menu(m@),
        }
    }
}

/// A well-formed application.
pub open spec fn app_wf(a: AppV) -> bool {
    match a {
        AppV::Bar(b) => bar_wf(b),
        AppV::Menu(m) => menu_wf(m),
    }
}

/// The application's state after one gesture call.
pub open spec fn app_after_call(a: AppV, call: GestureCall) -> AppV {
    match a {
        AppV::Bar(b) => AppV::Bar(
            match call {
                GestureCall::Start(pos) => bar_after_start(b, pos),
                GestureCall::Movement(pos) => bar_after_movement(b, pos),
                GestureCall::Commit => bar_after_commit(b),
                GestureCall::Stop => bar_after_stop(b),
            },
        ),
        AppV::Menu(m) => AppV::Menu(
            match call {
                GestureCall::Start(pos) => menu_after_start(m, pos),
                GestureCall::Movement(pos) => menu_after_movement(m, pos),
                GestureCall::Commit => menu_after_commit(m),
                GestureCall::Stop => menu_after_stop(m),
            },
        ),
    }
}

/// The render event the application returns for one gesture call: always
/// a redraw request, except a menu commit that selected an option, which
/// asks to close.
pub open spec fn app_call_event(a: AppV, call: GestureCall) -> Option<RenderEvent> {
    match a {
        AppV::Bar(_) => Some(RenderEvent::Render),
        AppV::Menu(m) => match call {
            GestureCall::Commit => if menu_selection(m) is Some {
                Some(RenderEvent::Closed)
            } else {
                Some(RenderEvent::Render)
            },
            _ => Some(RenderEvent::Render),
        },
    }
}

/// The action the application hands out for one gesture call: only a
/// commit can produce one — the bar's matched command to run, or the
/// menu's selected option to emit.
pub open spec fn app_call_action(a: AppV, call: GestureCall) -> Option<ActionV> {
    match call {
        GestureCall::Commit => match a {
            AppV::Bar(b) => match bar_commit_command(b) {
                Some(cmd) => Some(ActionV::RunCommand(cmd)),
                None => None,
            },
            AppV::Menu(m) => match menu_selection(m) {
                Some(text) => Some(ActionV::Emit(text)),
                None => None,
            },
        },
        _ => None,
    }
}

/// The application's state after one draw pass.
pub open spec fn app_after_draw(a: AppV, size: WindowSize) -> AppV {
    match a {
        AppV::Bar(b) => AppV::Bar(bar_after_draw(b, size)),
        AppV::Menu(m) => AppV::Menu(menu_after_draw(m, size)),
    }
}

/// What one draw pass paints.
pub open spec fn app_draw_cmds(a: AppV, size: WindowSize) -> Seq<CmdV> {
    match a {
        AppV::Bar(b) => bar_draw_cmds(b, size),
        AppV::Menu(m) => menu_draw_cmds(m, size),
    }
}

/// How the application asks to be placed.
pub open spec fn app_settings(a: AppV) -> SettingsV {
    match a {
        AppV::Bar(b) => bar_settings(b),
        AppV::Menu(m) => menu_settings(m),
    }
}

impl PanelApp {
    /// How this application asks to be placed on screen.
    pub fn settings(&self) -> (s: ApplicationSettings)
        requires
            app_wf(self@),
        ensures
            s@ == app_settings(self@),
    {
        match self {
            PanelApp::Bar(b) => b.settings(),
            PanelApp::Menu(m) => m.settings(),
        }
    }

    /// A fresh copy of this application for a new surface: configuration
    /// carried over, transient state reset.
    pub fn fresh(&self) -> (r: PanelApp)
        ensures
            r@ == (match self@ {
                AppV::Bar(b) => AppV::Bar(crate::bar::bar_fresh(b)),
                AppV::Menu(m) => AppV::Menu(crate::menu::menu_fresh(m)),
            }),
            app_wf(self@) ==> app_wf(r@),
    {
        let r = match self {
            PanelApp::Bar(b) => PanelApp::Bar(b.clone()),
            PanelApp::Menu(m) => PanelApp::Menu(m.clone()),
        };
        proof {
            if app_wf(self@) {
                match self@ {
                    AppV::Menu(m) => crate::menu::lemma_max_scroll_nonnegative(m),
                    _ => {},
                }
            }
        }
        r
    }

    /// One draw pass at the given size.
    pub fn draw(&mut self, size: WindowSize) -> (cmds: Vec<DrawCommand>)
        requires
            app_wf(old(self)@),
        ensures
            final(self)@ == app_after_draw(old(self)@, size),
            cmds_view(cmds@) == app_draw_cmds(old(self)@, size),
            app_wf(final(self)@),
    {
        match self {
            PanelApp::Bar(b) => b.draw(size),
            PanelApp::Menu(m) => {
                proof {
                    lemma_commit_offset_clamped(m@, PointerPosition(0, 0), size);
                }
                m.draw(size)
            },
        }
    }

    /// Deliver one gesture call; hand back the render event the
    /// application returned, and the action a commit produced.
    pub fn deliver(&mut self, call: GestureCall) -> (r: (
        Option<RenderEvent>,
        Option<AppAction>,
    ))
        requires
            app_wf(old(self)@),
        ensures
            final(self)@ == app_after_call(old(self)@, call),
            r.0 == app_call_event(old(self)@, call),
            action_view(r.1) == app_call_action(old(self)@, call),
            app_wf(final(self)@),
    {
        proof {
            match old(self)@ {
                AppV::Menu(m) => lemma_commit_offset_clamped(
                    m,
                    match call {
                        GestureCall::Start(p) => p,
                        GestureCall::Movement(p) => p,
                        _ => PointerPosition(0, 0),
                    },
                    WindowSize(0, 0),
                ),
                _ => {},
            }
        }
        match self {
            PanelApp::Bar(b) => match call {
                GestureCall::Start(pos) => (b.input_start_gesture(pos), None),
                GestureCall::Movement(pos) => (b.input_movement(pos), None),
                GestureCall::Stop => (b.input_stop_gesture(), None),
                GestureCall::Commit => b.input_commit_gesture(),
            },
            PanelApp::Menu(m) => match call {
                GestureCall::Start(pos) => (m.input_start_gesture(pos), None),
                GestureCall::Movement(pos) => (m.input_movement(pos), None),
                GestureCall::Stop => (m.input_stop_gesture(), None),
                GestureCall::Commit => m.input_commit_gesture(),
            },
        }
    }
}

/// One frame to paint and submit: the size it was laid out for and what
/// to draw, in order.
pub struct Frame {
    pub size: WindowSize,
    pub commands: Vec<DrawCommand>,
}

/// Mathematical model of [`Frame`].
#[verifier::ext_equal]
pub ghost struct FrameV {
    pub size: WindowSize,
    pub commands: Seq<CmdV>,
}

impl View for Frame {
    type V = FrameV;

    open spec fn view(&self) -> FrameV {
        FrameV { size: self.size, commands: cmds_view(self.commands@) }
    }
}

/// The model of an optional frame.
pub open spec fn frame_view(f: Option<Frame>) -> Option<FrameV> {
    match f {
        Some(fr) => Some(fr@),
        None => None,
    }
}

/// What one tick of a surface did: whether the surface is to be removed,
/// and the frame to paint, if a redraw was due and possible.
pub struct HandleResult {
    pub remove: bool,
    pub frame: Option<Frame>,
}

/// One surface: its application, the single pending render event, its
/// current dimensions (zero until the first configure), and the last
/// known pointer location used to seed a button press.
pub struct Surface {
    pub app: PanelApp,
    pub next_render_event: Option<RenderEvent>,
    pub dimensions: WindowSize,
    pub should_exit: bool,
    pub last_pointer_location: Option<PointerPosition>,
}

/// Mathematical model of [`Surface`].
#[verifier::ext_equal]
pub ghost struct SurfV {
    pub app: AppV,
    pub next_render_event: Option<RenderEvent>,
    pub dimensions: WindowSize,
    pub should_exit: bool,
    pub last_pointer_location: Option<PointerPosition>,
}

impl View for Surface {
    type V = SurfV;

    open spec fn view(&self) -> SurfV {
        SurfV {
            app: self.app@,
            next_render_event: self.next_render_event,
            dimensions: self.dimensions,
            should_exit: self.should_exit,
            last_pointer_location: self.last_pointer_location,
        }
    }
}

/// A well-formed surface drives a well-formed application.
pub open spec fn surface_wf(s: SurfV) -> bool {
    app_wf(s.app)
}

/// The pending event after an application returned `result`: a returned
/// event overwrites whatever was pending — except a pending `Closed`,
/// which is sticky: closing wins and is never overwritten.
pub open spec fn merged_event(
    pending: Option<RenderEvent>,
    result: Option<RenderEvent>,
) -> Option<RenderEvent> {
    if pending == Some(RenderEvent::Closed) {
        pending
    } else {
        match result {
            Some(_) => result,
            None => pending,
        }
    }
}

/// The surface after one gesture call was delivered to its application
/// and the returned event merged into the pending one.
pub open spec fn surface_after_call(s: SurfV, call: GestureCall) -> SurfV {
    SurfV {
        app: app_after_call(s.app, call),
        next_render_event: merged_event(s.next_render_event, app_call_event(s.app, call)),
        ..s
    }
}

/// The surface after one raw touch event.
pub open spec fn surface_after_touch(s: SurfV, ev: TouchEvent) -> SurfV {
    surface_after_call(s, touch_gesture_call(ev))
}

/// The surface after one raw pointer event: the gesture call it unifies
/// to is delivered, and the last known location is updated.
pub open spec fn surface_after_pointer(s: SurfV, ev: PointerEvent) -> SurfV {
    SurfV {
        last_pointer_location: pointer_location_after(s.last_pointer_location, ev),
        ..surface_after_call(s, pointer_gesture_call(s.last_pointer_location, ev))
    }
}

/// The surface after the compositor revoked it: `Closed` becomes pending,
/// whatever was pending before.
pub open spec fn surface_after_closed(s: SurfV) -> SurfV {
    SurfV { next_render_event: Some(RenderEvent::Closed), ..s }
}

/// The surface after a compositor configure: the authoritative dimensions
/// become pending — unless a `Closed` is pending, which wins, and the
/// configure is not even acknowledged.
pub open spec fn surface_after_configure(s: SurfV, width: u32, height: u32) -> SurfV {
    if s.next_render_event == Some(RenderEvent::Closed) {
        s
    } else {
        SurfV { next_render_event: Some(RenderEvent::Configure { width, height }), ..s }
    }
}

/// The dimensions in force after consuming the pending event: a pending
/// configure carries the authoritative new size.
pub open spec fn surface_dims_after_events(s: SurfV) -> WindowSize {
    match s.next_render_event {
        Some(RenderEvent::Configure { width, height }) => WindowSize(width, height),
        _ => s.dimensions,
    }
}

/// Whether consuming the pending event redraws: a render or configure is
/// pending, the dimensions in force are valid, and a buffer is free. A
/// draw is never issued with a zero dimension or a busy pool; the event
/// is consumed either way.
pub open spec fn surface_draws(s: SurfV, pool_free: bool) -> bool {
    match s.next_render_event {
        Some(RenderEvent::Render) => {
            let d = surface_dims_after_events(s);
            pool_free && d.0 > 0 && d.1 > 0
        },
        Some(RenderEvent::Configure { .. }) => {
            let d = surface_dims_after_events(s);
            pool_free && d.0 > 0 && d.1 > 0
        },
        _ => false,
    }
}

/// Whether consuming the pending event removes the surface: a pending
/// `Closed` always does, and a surface marked to exit goes quietly when
/// nothing is pending. A removed surface is never drawn again.
pub open spec fn surface_remove(s: SurfV) -> bool {
    match s.next_render_event {
        Some(RenderEvent::Closed) => true,
        Some(_) => false,
        None => s.should_exit,
    }
}

/// The surface after one tick consumed its pending event.
pub open spec fn surface_after_events(s: SurfV, pool_free: bool) -> SurfV {
    let d = surface_dims_after_events(s);
    SurfV {
        app: if surface_draws(s, pool_free) {
            app_after_draw(s.app, d)
        } else {
            s.app
        },
        next_render_event: None,
        dimensions: d,
        ..s
    }
}

/// The frame one tick paints, if any.
pub open spec fn surface_frame(s: SurfV, pool_free: bool) -> Option<FrameV> {
    if surface_draws(s, pool_free) {
        let d = surface_dims_after_events(s);
        Some(FrameV { size: d, commands: app_draw_cmds(s.app, d) })
    } else {
        None
    }
}

/// Law (render idempotence): delivering a `Configure` with the same
/// width and height twice — each consumed by a tick with a free buffer —
/// produces two redraws with identical output: the draw pass mutates
/// nothing that the painted output depends on, so there is no state
/// drift.
pub proof fn lemma_configure_twice_same_output(s: SurfV, width: u32, height: u32)
    requires
        surface_wf(s),
        s.next_render_event != Some(RenderEvent::Closed),
        width > 0,
        height > 0,
    ensures
        ({
            let s1 = surface_after_configure(s, width, height);
            let s2 = surface_after_events(s1, true);
            let s3 = surface_after_configure(s2, width, height);
            &&& surface_frame(s1, true) is Some
            &&& surface_frame(s3, true) is Some
            &&& surface_frame(s1, true) == surface_frame(s3, true)
        }),
{
    let d = WindowSize(width, height);
    let s1 = surface_after_configure(s, width, height);
    let s2 = surface_after_events(s1, true);
    let s3 = surface_after_configure(s2, width, height);
    match s.app {
        AppV::Bar(b) => {
            crate::bar::lemma_bar_draw_cmds_stable(b, crate::bar::bar_after_draw(b, d), d);
        },
        AppV::Menu(m) => {
            crate::menu::lemma_menu_draw_cmds_stable(
                m,
                crate::menu::menu_after_draw(m, d),
                d,
                m.options.len() as int,
            );
        },
    }
    assert(surface_frame(s1, true).unwrap() =~= surface_frame(s3, true).unwrap());
}

/// Law (closing wins): a pending `Closed` is never displaced by a later
/// `Configure`; on the next tick the surface is removed, and no draw is
/// attempted for it whatever state the pool is in.
pub proof fn lemma_closed_wins(s: SurfV, width: u32, height: u32, pool_free: bool)
    ensures
        surface_after_configure(surface_after_closed(s), width, height).next_render_event == Some(
            RenderEvent::Closed,
        ),
        surface_remove(surface_after_configure(surface_after_closed(s), width, height)),
        surface_frame(
            surface_after_configure(surface_after_closed(s), width, height),
            pool_free,
        ) is None,
{
}

impl Surface {
    /// A surface for a new output: dimensions are zero until the first
    /// configure, nothing pending, no gesture seen yet.
    pub fn new(app: PanelApp) -> (r: Surface)
        requires
            app_wf(app@),
        ensures
            r@ == (SurfV {
                app: app@,
                next_render_event: None,
                dimensions: WindowSize(0, 0),
                should_exit: false,
                last_pointer_location: None,
            }),
            surface_wf(r@),
    {
        Surface {
            app,
            next_render_event: None,
            dimensions: WindowSize(0, 0),
            should_exit: false,
            last_pointer_location: None,
        }
    }

    /// How this surface's application asks to be placed on screen.
    pub fn settings(&self) -> (s: ApplicationSettings)
        requires
            surface_wf(self@),
        ensures
            s@ == app_settings(self@.app),
    {
        self.app.settings()
    }

    /// Merge an application's returned event into the pending one: a
    /// returned event overwrites the pending event, but a pending
    /// `Closed` is sticky — closing wins.
    fn update_event(&mut self, result: Option<RenderEvent>)
        ensures
            final(self)@ == (SurfV {
                next_render_event: merged_event(old(self)@.next_render_event, result),
                ..old(self)@
            }),
    {
        if let Some(ev) = result {
            let sticky = match self.next_render_event {
                Some(RenderEvent::Closed) => true,
                _ => false,
            };
            if !sticky {
                self.next_render_event = Some(ev);
            }
        }
        proof {
            assert(self@ =~= (SurfV {
                next_render_event: merged_event(old(self)@.next_render_event, result),
                ..old(self)@
            }));
        }
    }

    /// Deliver one gesture call to the application and merge the returned
    /// event; hand any commit action up to the caller.
    fn deliver_call(&mut self, call: GestureCall) -> (action: Option<AppAction>)
        requires
            surface_wf(old(self)@),
        ensures
            final(self)@ == surface_after_call(old(self)@, call),
            action_view(action) == app_call_action(old(self)@.app, call),
            surface_wf(final(self)@),
    {
        let (event, action) = self.app.deliver(call);
        self.update_event(event);
        proof {
            assert(self@ =~= surface_after_call(old(self)@, call));
        }
        action
    }

    /// A gesture starts.
    pub fn input_start_gesture(&mut self, pos: PointerPosition)
        requires
            surface_wf(old(self)@),
        ensures
            final(self)@ == surface_after_call(old(self)@, GestureCall::Start(pos)),
            surface_wf(final(self)@),
    {
        let _ = self.deliver_call(GestureCall::Start(pos));
    }

    /// A gesture is abandoned.
    pub fn input_stop_gesture(&mut self)
        requires
            surface_wf(old(self)@),
        ensures
            final(self)@ == surface_after_call(old(self)@, GestureCall::Stop),
            surface_wf(final(self)@),
    {
        let _ = self.deliver_call(GestureCall::Stop);
    }

    /// The pointer or contact moved.
    pub fn input_movement(&mut self, pos: PointerPosition)
        requires
            surface_wf(old(self)@),
        ensures
            final(self)@ == surface_after_call(old(self)@, GestureCall::Movement(pos)),
            surface_wf(final(self)@),
    {
        let _ = self.deliver_call(GestureCall::Movement(pos));
    }

    /// A gesture commits; the action it produced, if any, is handed up to
    /// be performed by the driver.
    pub fn input_commit_gesture(&mut self) -> (action: Option<AppAction>)
        requires
            surface_wf(old(self)@),
        ensures
            final(self)@ == surface_after_call(old(self)@, GestureCall::Commit),
            action_view(action) == app_call_action(old(self)@.app, GestureCall::Commit),
            surface_wf(final(self)@),
    {
        self.deliver_call(GestureCall::Commit)
    }

    /// One raw touch event, unified into its gesture call.
    pub fn handle_touch_event(&mut self, event: &TouchEvent) -> (action: Option<AppAction>)
        requires
            surface_wf(old(self)@),
        ensures
            final(self)@ == surface_after_touch(old(self)@, *event),
            action_view(action) == app_call_action(old(self)@.app, touch_gesture_call(*event)),
            surface_wf(final(self)@),
    {
        match event {
            TouchEvent::Cancel => self.deliver_call(GestureCall::Stop),
            TouchEvent::Down(pos) => self.deliver_call(GestureCall::Start(*pos)),
            TouchEvent::Motion(pos) => self.deliver_call(GestureCall::Movement(*pos)),
            TouchEvent::Up => self.deliver_call(GestureCall::Commit),
        }
    }

    /// One raw pointer event, unified into its gesture call: enter and
    /// motion record the location and move the gesture, a leave stops it
    /// and forgets the location, a press starts a gesture at the last
    /// known location (origin if none was recorded), a release commits.
    pub fn handle_pointer_event(&mut self, event: &PointerEvent) -> (action: Option<AppAction>)
        requires
            surface_wf(old(self)@),
        ensures
            final(self)@ == surface_after_pointer(old(self)@, *event),
            action_view(action) == app_call_action(
                old(self)@.app,
                pointer_gesture_call(old(self)@.last_pointer_location, *event),
            ),
            surface_wf(final(self)@),
    {
        let action = match event {
            PointerEvent::Leave => {
                let a = self.deliver_call(GestureCall::Stop);
                self.last_pointer_location = None;
                a
            },
            PointerEvent::Enter(pos) => {
                self.last_pointer_location = Some(*pos);
                self.deliver_call(GestureCall::Movement(*pos))
            },
            PointerEvent::Motion(pos) => {
                self.last_pointer_location = Some(*pos);
                self.deliver_call(GestureCall::Movement(*pos))
            },
            PointerEvent::ButtonPressed => {
                let seed = match self.last_pointer_location {
                    Some(pos) => pos,
                    None => PointerPosition(0, 0),
                };
                self.deliver_call(GestureCall::Start(seed))
            },
            PointerEvent::ButtonReleased => self.deliver_call(GestureCall::Commit),
        };
        proof {
            assert(self@ =~= surface_after_pointer(old(self)@, *event));
        }
        action
    }

    /// The compositor revoked this surface: `Closed` becomes pending,
    /// whatever was pending before.
    pub fn note_closed(&mut self)
        ensures
            final(self)@ == surface_after_closed(old(self)@),
    {
        self.next_render_event = Some(RenderEvent::Closed);
        proof {
            assert(self@ =~= surface_after_closed(old(self)@));
        }
    }

    /// The compositor assigned dimensions. Returns whether the configure
    /// was accepted — a pending `Closed` wins, and an unaccepted
    /// configure must not be acknowledged to the compositor.
    pub fn note_configure(&mut self, width: u32, height: u32) -> (accepted: bool)
        ensures
            final(self)@ == surface_after_configure(old(self)@, width, height),
            accepted == (old(self)@.next_render_event != Some(RenderEvent::Closed)),
    {
        let closing = match self.next_render_event {
            Some(RenderEvent::Closed) => true,
            _ => false,
        };
        if !closing {
            self.next_render_event = Some(RenderEvent::Configure { width, height });
        }
        proof {
            assert(self@ =~= surface_after_configure(old(self)@, width, height));
        }
        !closing
    }

    /// Draw now if the dimensions are valid and a buffer is free; a zero
    /// dimension or a busy pool skips the frame without blocking.
    fn maybe_draw(&mut self, pool_free: bool) -> (frame: Option<Frame>)
        requires
            surface_wf(old(self)@),
        ensures
            final(self)@.next_render_event == old(self)@.next_render_event,
            final(self)@.dimensions == old(self)@.dimensions,
            final(self)@.should_exit == old(self)@.should_exit,
            final(self)@.last_pointer_location == old(self)@.last_pointer_location,
            pool_free && old(self)@.dimensions.0 > 0 && old(self)@.dimensions.1 > 0 ==> {
                &&& final(self)@.app == app_after_draw(old(self)@.app, old(self)@.dimensions)
                &&& frame_view(frame) == Some(
                    FrameV {
                        size: old(self)@.dimensions,
                        commands: app_draw_cmds(old(self)@.app, old(self)@.dimensions),
                    },
                )
            },
            !(pool_free && old(self)@.dimensions.0 > 0 && old(self)@.dimensions.1 > 0) ==> {
                &&& final(self)@.app == old(self)@.app
                &&& frame is None
            },
            surface_wf(final(self)@),
    {
        if !pool_free || self.dimensions.0 == 0 || self.dimensions.1 == 0 {
            return None;
        }
        let size = self.dimensions;
        let commands = self.app.draw(size);
        let frame = Frame { size, commands };
        proof {
            assert(frame@ =~= (FrameV {
                size: old(self)@.dimensions,
                commands: app_draw_cmds(old(self)@.app, old(self)@.dimensions),
            }));
        }
        Some(frame)
    }

    /// Consume the pending event: a pending configure updates the
    /// dimensions and redraws, a pending render redraws, a pending
    /// `Closed` removes the surface without drawing, and nothing pending
    /// leaves the surface idle. At most one redraw per tick.
    pub fn handle_events(&mut self, pool_free: bool) -> (r: HandleResult)
        requires
            surface_wf(old(self)@),
        ensures
            final(self)@ == surface_after_events(old(self)@, pool_free),
            r.remove == surface_remove(old(self)@),
            frame_view(r.frame) == surface_frame(old(self)@, pool_free),
            surface_wf(final(self)@),
    {
        let ev = self.next_render_event.take();
        let r = match ev {
            Some(RenderEvent::Render) => HandleResult {
                remove: false,
                frame: self.maybe_draw(pool_free),
            },
            Some(RenderEvent::Closed) => HandleResult { remove: true, frame: None },
            Some(RenderEvent::Configure { width, height }) => {
                self.dimensions = WindowSize(width, height);
                HandleResult { remove: false, frame: self.maybe_draw(pool_free) }
            },
            None => HandleResult { remove: self.should_exit, frame: None },
        };
        proof {
            assert(self@ =~= surface_after_events(old(self)@, pool_free));
        }
        r
    }
}

} // verus!
