//! Core value types of the panel framework: surface-local coordinates,
//! window sizes, render events, layer-surface settings, and the abstract
//! gesture protocol that pointer and touch input are unified into.

use vstd::prelude::*;

verus! {

/// A pointer or touch location in surface-local space, in whole pixels.
#[derive(Clone, Copy, PartialEq, Eq, Structural, Debug)]
pub struct PointerPosition(pub i32, pub i32);

/// A width/height pair. `(0, h)` is a valid size *request* meaning
/// "compositor chooses the width".
#[derive(Clone, Copy, PartialEq, Eq, Structural, Debug)]
pub struct WindowSize(pub u32, pub u32);

/// The one pending render decision of a surface. A `Closed`, once pending,
/// is never overwritten by a later `Configure` or `Render`: closing wins.
#[derive(Clone, Copy, PartialEq, Eq, Structural, Debug)]
pub enum RenderEvent {
    Render,
    Configure { width: u32, height: u32 },
    Closed,
}

/// The compositor layer a panel surface is placed on.
#[derive(Clone, Copy, PartialEq, Eq, Structural, Debug)]
pub enum Layer {
    Background,
    Bottom,
    Top,
    Overlay,
}

/// Screen edges a layer surface is anchored to.
#[derive(Clone, Copy, PartialEq, Eq, Structural, Debug)]
pub struct Anchor {
    pub top: bool,
    pub bottom: bool,
    pub left: bool,
    pub right: bool,
}

/// How an application asks the compositor to place its surface.
pub struct ApplicationSettings {
    pub namespace: String,
    pub layer: Layer,
    pub size: WindowSize,
    pub exclusive_zone: i32,
    pub margins: (u32, u32, u32, u32),
    pub anchor: Anchor,
}

/// Mathematical model of [`ApplicationSettings`].
#[verifier::ext_equal]
pub ghost struct SettingsV {
    pub namespace: Seq<char>,
    pub layer: Layer,
    pub size: WindowSize,
    pub exclusive_zone: i32,
    pub margins: (u32, u32, u32, u32),
    pub anchor: Anchor,
}

impl View for ApplicationSettings {
    type V = SettingsV;

    open spec fn view(&self) -> SettingsV {
        SettingsV {
            namespace: self.namespace@,
            layer: self.layer,
            size: self.size,
            exclusive_zone: self.exclusive_zone,
            margins: self.margins,
            anchor: self.anchor,
        }
    }
}

/// One abstract gesture callback, as delivered to an application:
/// a gesture starts, moves, commits (a deliberate release), or stops
/// (an abandoning of the gesture, with nothing committed).
#[derive(Clone, Copy, PartialEq, Eq, Structural, Debug)]
pub enum GestureCall {
    Start(PointerPosition),
    Movement(PointerPosition),
    Commit,
    Stop,
}

/// A raw pointer event, as the compositor reports it.
#[derive(Clone, Copy, PartialEq, Eq, Structural, Debug)]
pub enum PointerEvent {
    Enter(PointerPosition),
    Motion(PointerPosition),
    Leave,
    ButtonPressed,
    ButtonReleased,
}

/// A raw touch event, as the compositor reports it.
#[derive(Clone, Copy, PartialEq, Eq, Structural, Debug)]
pub enum TouchEvent {
    Down(PointerPosition),
    Motion(PointerPosition),
    Up,
    Cancel,
}

/// How one touch event reads as a gesture call: a contact starts the
/// gesture, its motion moves it, lifting commits it, a cancel stops it.
pub open spec fn touch_gesture_call(ev: TouchEvent) -> GestureCall {
    match ev {
        TouchEvent::Down(pos) => GestureCall::Start(pos),
        TouchEvent::Motion(pos) => GestureCall::Movement(pos),
        TouchEvent::Up => GestureCall::Commit,
        TouchEvent::Cancel => GestureCall::Stop,
    }
}

/// How one pointer event reads as a gesture call, given the last known
/// pointer location: enter and motion record the location and move the
/// gesture, a leave stops it and forgets the location, a button press
/// starts a gesture at the last known location (origin if none), and a
/// release commits it.
pub open spec fn pointer_gesture_call(
    last: Option<PointerPosition>,
    ev: PointerEvent,
) -> GestureCall {
    match ev {
        PointerEvent::Enter(pos) => GestureCall::Movement(pos),
        PointerEvent::Motion(pos) => GestureCall::Movement(pos),
        PointerEvent::Leave => GestureCall::Stop,
        PointerEvent::ButtonPressed => GestureCall::Start(
            match last {
                Some(pos) => pos,
                None => PointerPosition(0, 0),
            },
        ),
        PointerEvent::ButtonReleased => GestureCall::Commit,
    }
}

/// The last known pointer location after one pointer event: enter and
/// motion record the event's location, a leave discards it, buttons keep it.
pub open spec fn pointer_location_after(
    last: Option<PointerPosition>,
    ev: PointerEvent,
) -> Option<PointerPosition> {
    match ev {
        PointerEvent::Enter(pos) => Some(pos),
        PointerEvent::Motion(pos) => Some(pos),
        PointerEvent::Leave => None,
        PointerEvent::ButtonPressed => last,
        PointerEvent::ButtonReleased => last,
    }
}

/// The gesture calls that a sequence of touch events is delivered as.
pub open spec fn touch_gesture_calls(evs: Seq<TouchEvent>) -> Seq<GestureCall> {
    evs.map_values(|ev: TouchEvent| touch_gesture_call(ev))
}

/// Law: a touch sequence of one contact — a down, any number of motions,
/// and an up — is delivered as exactly one gesture start, one movement per
/// motion, and exactly one commit, in that order: no movement comes before
/// the start or after the commit, and nothing else is delivered.
pub proof fn lemma_touch_gesture_protocol(evs: Seq<TouchEvent>)
    requires
        evs.len() >= 2,
        evs[0] is Down,
        evs[evs.len() - 1] is Up,
        forall|i: int| 1 <= i < evs.len() - 1 ==> evs[i] is Motion,
    ensures
        touch_gesture_calls(evs).len() == evs.len(),
        touch_gesture_calls(evs)[0] == GestureCall::Start(evs[0]->Down_0),
        touch_gesture_calls(evs)[evs.len() - 1] == GestureCall::Commit,
        forall|i: int|
            1 <= i < evs.len() - 1 ==> touch_gesture_calls(evs)[i] == GestureCall::Movement(
                evs[i]->Motion_0,
            ),
{
}

/// An action an application asks its driver to perform after a committed
/// gesture: run a shell command (the bar), or emit a chosen option on
/// standard output (the menu).
#[derive(Clone)]
pub enum AppAction {
    RunCommand(String),
    Emit(String),
}

/// Mathematical model of [`AppAction`].
#[verifier::ext_equal]
pub ghost enum ActionV {
    RunCommand(Seq<char>),
    Emit(Seq<char>),
}

impl View for AppAction {
    type V = ActionV;

    open spec fn view(&self) -> ActionV {
        match self {
            AppAction::RunCommand(cmd) => ActionV::RunCommand(cmd@),
            AppAction::Emit(text) => ActionV::Emit(text@),
        }
    }
}

/// One rectangle of solid colour with a centred label, as an application
/// asks for it to be painted. Rendering is the display collaborator's work;
/// the library only decides what is drawn where.
#[derive(Clone)]
pub struct DrawCommand {
    pub x: u32,
    pub y: u32,
    pub width: u32,
    pub height: u32,
    pub fill: crate::config::Color,
    pub label: String,
    pub text_color: crate::config::Color,
}

/// Mathematical model of [`DrawCommand`].
#[verifier::ext_equal]
pub ghost struct CmdV {
    pub x: int,
    pub y: int,
    pub width: int,
    pub height: int,
    pub fill: crate::config::Color,
    pub label: Seq<char>,
    pub text_color: crate::config::Color,
}

impl View for DrawCommand {
    type V = CmdV;

    open spec fn view(&self) -> CmdV {
        CmdV {
            x: self.x as int,
            y: self.y as int,
            width: self.width as int,
            height: self.height as int,
            fill: self.fill,
            label: self.label@,
            text_color: self.text_color,
        }
    }
}

/// The models of a list of draw commands.
pub open spec fn cmds_view(cmds: Seq<DrawCommand>) -> Seq<CmdV> {
    cmds.map_values(|c: DrawCommand| c@)
}

/// The model of an optional action.
pub open spec fn action_view(a: Option<AppAction>) -> Option<ActionV> {
    match a {
        Some(act) => Some(act@),
        None => None,
    }
}

/// The model of an optional string.
pub open spec fn string_view(s: Option<String>) -> Option<Seq<char>> {
    match s {
        Some(text) => Some(text@),
        None => None,
    }
}

/// How many bytes a frame buffer of the given size takes: four bytes per
/// pixel (one 8-bit channel each for alpha, red, green and blue), or
/// nothing where that does not fit a `u64`.
pub fn buffer_len(size: WindowSize) -> (r: Option<u64>)
    ensures
        r == (if 4 * (size.0 as int) * (size.1 as int) <= u64::MAX {
            Some((4 * (size.0 as int) * (size.1 as int)) as u64)
        } else {
            None::<u64>
        }),
{
    proof {
        assert((size.0 as int) * (size.1 as int) <= 0xffff_ffff * 0xffff_ffff) by (nonlinear_arith)
            requires
                0 <= size.0 as int <= 0xffff_ffff,
                0 <= size.1 as int <= 0xffff_ffff,
        ;
    }
    proof {
        assert(4 * ((size.0 as int) * (size.1 as int)) == 4 * (size.0 as int) * (size.1 as int))
            by (nonlinear_arith);
    }
    let pixels: u128 = (size.0 as u128) * (size.1 as u128);
    let bytes: u128 = 4u128 * pixels;
    if bytes <= u64::MAX as u128 {
        Some(bytes as u64)
    } else {
        None
    }
}

/// A copy of a byte vector, as a fresh application copy carries its font
/// bytes over.
pub(crate) fn clone_bytes(v: &Vec<u8>) -> (r: Vec<u8>)
    ensures
        r@ == v@,
{
    let mut r: Vec<u8> = Vec::new();
    let mut i: usize = 0;
    while i < v.len()
        invariant
            0 <= i <= v.len(),
            r@ =~= v@.take(i as int),
        decreases v.len() - i,
    {
        r.push(v[i]);
        i = i + 1;
    }
    proof {
        assert(v@.take(v@.len() as int) =~= v@);
    }
    r
}

/// The horizontal (or vertical) offset that centres content of the given
/// extent inside a container, or zero where the content does not fit.
pub fn centered_offset(container: u32, content: u32) -> (r: u32)
    ensures
        r == spec_centered_offset(container, content),
{
    if content <= container {
        (container - content) / 2
    } else {
        0
    }
}

/// What [`centered_offset`] returns.
pub open spec fn spec_centered_offset(container: u32, content: u32) -> u32 {
    if content <= container {
        (((container - content) as u32) / 2) as u32
    } else {
        0u32
    }
}

} // verus!
