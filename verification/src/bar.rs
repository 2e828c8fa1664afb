//! The bar application: a horizontal strip of equal-width buttons, each
//! bound to a shell command. A press highlights the hovered cell; a
//! release runs the command of the most recently drawn cell under the
//! pointer.

use vstd::prelude::*;
use vstd::arithmetic::div_mod::{lemma_fundamental_div_mod, lemma_mod_bound};
use vstd::arithmetic::mul::lemma_mul_inequality;
use crate::click::{
    last_hit, last_hit_index, rect_contains, targets_view, ClickHandler, ClickTarget, HandlerV,
    TargetV,
};
use crate::config::{Button, ButtonV, ColorConfig};
use crate::panel::{
    action_view, cmds_view, string_view, Anchor, AppAction, ApplicationSettings, CmdV, DrawCommand,
    Layer, PointerPosition, RenderEvent, SettingsV, WindowSize,
};

verus! {

/// The bar's state: its configuration (immutable after construction) and
/// the transient input state of the current gesture, plus the growing
/// click-target registry.
pub struct Bar {
    pub height: u32,
    pub pointer_location: Option<PointerPosition>,
    pub pointer_engaged: bool,
    pub click_targets: Vec<ClickTarget>,
    pub font_data: Vec<u8>,
    pub buttons: Vec<Button>,
    pub colors: ColorConfig,
}

/// Mathematical model of [`Bar`].
#[verifier::ext_equal]
pub ghost struct BarV {
    pub height: u32,
    pub pointer_location: Option<PointerPosition>,
    pub pointer_engaged: bool,
    pub click_targets: Seq<TargetV>,
    pub font_data: Seq<u8>,
    pub buttons: Seq<ButtonV>,
    pub colors: ColorConfig,
}

impl View for Bar {
    type V = BarV;

    open spec fn view(&self) -> BarV {
        BarV {
            height: self.height,
            pointer_location: self.pointer_location,
            pointer_engaged: self.pointer_engaged,
            click_targets: targets_view(self.click_targets@),
            font_data: self.font_data@,
            buttons: self.buttons@.map_values(|b: Button| b@),
            colors: self.colors,
        }
    }
}

/// A well-formed bar has at least one button, and a height that fits the
/// exclusive zone it reserves.
pub open spec fn bar_wf(b: BarV) -> bool {
    &&& b.buttons.len() >= 1
    &&& b.height <= i32::MAX
}

/// A gesture start engages the bar and records the position.
pub open spec fn bar_after_start(b: BarV, pos: PointerPosition) -> BarV {
    BarV { pointer_engaged: true, pointer_location: Some(pos), ..b }
}

/// A stopped (abandoned) gesture disengages and forgets the position.
pub open spec fn bar_after_stop(b: BarV) -> BarV {
    BarV { pointer_engaged: false, pointer_location: None, ..b }
}

/// A movement records the position.
pub open spec fn bar_after_movement(b: BarV, pos: PointerPosition) -> BarV {
    BarV { pointer_location: Some(pos), ..b }
}

/// A committed gesture disengages; the recorded position is kept.
pub open spec fn bar_after_commit(b: BarV) -> BarV {
    BarV { pointer_engaged: false, ..b }
}

/// The command a committed gesture runs: the command of the most recently
/// appended click target containing the last recorded pointer location,
/// if there is a location and a containing target.
pub open spec fn bar_commit_command(b: BarV) -> Option<Seq<char>> {
    match b.pointer_location {
        Some(pos) => match last_hit_index(b.click_targets, pos.0 as int, pos.1 as int) {
            Some(i) => match b.click_targets[i].handler {
                HandlerV::RunCommand(cmd) => Some(cmd),
                HandlerV::Selected(_) => None,
            },
            None => None,
        },
        None => None,
    }
}

/// How the bar asks to be placed: an overlay strip of its configured
/// height anchored to the bottom edge, reserving its height exclusively.
pub open spec fn bar_settings(b: BarV) -> SettingsV {
    SettingsV {
        namespace: "ppkui_bar"@,
        layer: Layer::Overlay,
        size: WindowSize(0, b.height),
        exclusive_zone: b.height as i32,
        margins: (0, 0, 0, 0),
        anchor: Anchor { top: false, bottom: true, left: true, right: true },
    }
}

/// The width of one button cell: the surface width divided evenly among
/// the buttons.
pub open spec fn bar_per_button(b: BarV, size: WindowSize) -> int {
    size.0 as int / b.buttons.len() as int
}

/// Whether button cell `i` is drawn highlighted: a gesture is engaged and
/// the last recorded pointer location falls inside the cell.
pub open spec fn bar_hovered(b: BarV, size: WindowSize, i: int) -> bool {
    let per = bar_per_button(b, size);
    &&& b.pointer_engaged
    &&& b.pointer_location matches Some(p) && rect_contains(
        i * per,
        0,
        per,
        size.1 as int,
        p.0 as int,
        p.1 as int,
    )
}

/// The rectangle and label that one draw pass paints for button `i`.
pub open spec fn bar_cmd(b: BarV, size: WindowSize, i: int) -> CmdV {
    let per = bar_per_button(b, size);
    CmdV {
        x: i * per,
        y: 0,
        width: per,
        height: size.1 as int,
        fill: if bar_hovered(b, size, i) {
            b.colors.button_hover_color
        } else {
            b.colors.button_color
        },
        label: b.buttons[i].text,
        text_color: b.colors.text_color,
    }
}

/// The click target that one draw pass appends for button `i`.
pub open spec fn bar_target(b: BarV, size: WindowSize, i: int) -> TargetV {
    let per = bar_per_button(b, size);
    TargetV {
        x: i * per,
        y: 0,
        w: per,
        h: size.1 as int,
        handler: HandlerV::RunCommand(b.buttons[i].command),
    }
}

/// Everything one draw pass paints: one cell per button, in order.
pub open spec fn bar_draw_cmds(b: BarV, size: WindowSize) -> Seq<CmdV> {
    Seq::new(b.buttons.len(), |i: int| bar_cmd(b, size, i))
}

/// The bar after one draw pass: one click target per button is appended
/// to the registry (which is never cleared), everything else unchanged.
pub open spec fn bar_after_draw(b: BarV, size: WindowSize) -> BarV {
    BarV {
        click_targets: b.click_targets + Seq::new(b.buttons.len(), |i: int| bar_target(b, size, i)),
        ..b
    }
}

/// A fresh copy for a new surface: the configuration is carried over and
/// the transient input state is reset.
pub open spec fn bar_fresh(b: BarV) -> BarV {
    BarV {
        pointer_location: None,
        pointer_engaged: false,
        click_targets: Seq::empty(),
        ..b
    }
}

impl Clone for Bar {
    /// A fresh bar for a new surface: same configuration, no gesture in
    /// progress, an empty click-target registry.
    fn clone(&self) -> (r: Self)
        ensures
            r@ == bar_fresh(self@),
    {
        let r = Bar {
            height: self.height,
            pointer_engaged: false,
            pointer_location: None,
            click_targets: Vec::new(),
            font_data: crate::panel::clone_bytes(&self.font_data),
            buttons: clone_buttons(&self.buttons),
            colors: self.colors,
        };
        proof {
            assert(r@ =~= bar_fresh(self@));
        }
        r
    }
}

/// A copy of a button list, label and command both carried over.
fn clone_buttons(v: &Vec<Button>) -> (r: Vec<Button>)
    ensures
        r@.map_values(|b: Button| b@) == v@.map_values(|b: Button| b@),
{
    let mut r: Vec<Button> = Vec::new();
    let mut i: usize = 0;
    while i < v.len()
        invariant
            0 <= i <= v.len(),
            r@.len() == i,
            forall|k: int| 0 <= k < i ==> #[trigger] r@[k]@ == v@[k]@,
        decreases v.len() - i,
    {
        let b = Button { text: v[i].text.clone(), command: v[i].command.clone() };
        proof {
            assert(b@ =~= v@[i as int]@);
        }
        r.push(b);
        i = i + 1;
    }
    proof {
        assert(r@.map_values(|b: Button| b@) =~= v@.map_values(|b: Button| b@));
    }
    r
}

impl Bar {
    /// A bar over the given configuration, with no gesture in progress and
    /// an empty click-target registry.
    pub fn new(height: u32, buttons: Vec<Button>, colors: ColorConfig, font_data: Vec<u8>) -> (r:
        Bar)
        requires
            buttons@.len() >= 1,
            height <= i32::MAX,
        ensures
            r@ == (BarV {
                height,
                pointer_location: None,
                pointer_engaged: false,
                click_targets: Seq::empty(),
                font_data: font_data@,
                buttons: buttons@.map_values(|b: Button| b@),
                colors,
            }),
            bar_wf(r@),
    {
        let r = Bar {
            height,
            pointer_engaged: false,
            pointer_location: None,
            click_targets: Vec::new(),
            font_data,
            buttons,
            colors,
        };
        proof {
            assert(r@ =~= (BarV {
                height,
                pointer_location: None,
                pointer_engaged: false,
                click_targets: Seq::empty(),
                font_data: r.font_data@,
                buttons: r.buttons@.map_values(|b: Button| b@),
                colors,
            }));
        }
        r
    }

    /// How the bar asks to be placed on screen.
    pub fn settings(&self) -> (s: ApplicationSettings)
        requires
            bar_wf(self@),
        ensures
            s@ == bar_settings(self@),
    {
        let s = ApplicationSettings {
            namespace: "ppkui_bar".to_owned(),
            layer: Layer::Overlay,
            size: WindowSize(0, self.height),
            exclusive_zone: self.height as i32,
            margins: (0, 0, 0, 0),
            anchor: Anchor { top: false, bottom: true, left: true, right: true },
        };
        proof {
            assert(s@ =~= bar_settings(self@));
        }
        s
    }

    /// One draw pass at the given size: paints one equal-width cell per
    /// button (highlighted while a gesture is engaged over it) and appends
    /// one click target per cell to the registry.
    pub fn draw(&mut self, size: WindowSize) -> (cmds: Vec<DrawCommand>)
        requires
            bar_wf(old(self)@),
        ensures
            final(self)@ == bar_after_draw(old(self)@, size),
            cmds_view(cmds@) == bar_draw_cmds(old(self)@, size),
    {
        let ghost b0 = self@;
        let n = self.buttons.len();
        let width = size.0 as usize;
        let per_button = width / n;
        proof {
            lemma_fundamental_div_mod(width as int, n as int);
            lemma_mod_bound(width as int, n as int);
            assert(n as int * bar_per_button(b0, size) <= width as int);
        }
        let ghost old_targets = b0.click_targets;
        let mut cmds: Vec<DrawCommand> = Vec::new();
        let mut next_draw_at: usize = 0;
        let mut i: usize = 0;
        while i < n
            invariant
                bar_wf(b0),
                0 <= i <= n,
                n == b0.buttons.len(),
                n == self.buttons.len(),
                width == size.0 as int,
                per_button == bar_per_button(b0, size),
                n as int * bar_per_button(b0, size) <= width as int,
                next_draw_at == i as int * per_button as int,
                self@.height == b0.height,
                self@.pointer_location == b0.pointer_location,
                self@.pointer_engaged == b0.pointer_engaged,
                self@.font_data == b0.font_data,
                self@.buttons == b0.buttons,
                self@.colors == b0.colors,
                self@.click_targets.len() == old_targets.len() + i,
                forall|k: int|
                    0 <= k < old_targets.len() ==> self@.click_targets[k] == old_targets[k],
                forall|k: int|
                    0 <= k < i ==> self@.click_targets[old_targets.len() + k] == bar_target(
                        b0,
                        size,
                        k,
                    ),
                cmds@.len() == i,
                forall|k: int| 0 <= k < i ==> cmds@[k]@ == bar_cmd(b0, size, k),
            decreases n - i,
        {
            proof {
                lemma_mul_inequality(i as int, n as int, per_button as int);
                lemma_mul_inequality(i as int + 1, n as int, per_button as int);
                assert((i as int + 1) * per_button as int == i as int * per_button as int
                    + per_button as int) by (nonlinear_arith);
                assert(b0.buttons[i as int] == self.buttons@[i as int]@);
            }
            let bx = next_draw_at;
            let hovered = self.pointer_engaged && match self.pointer_location {
                Some(p) => {
                    let px = p.0 as i64;
                    let py = p.1 as i64;
                    px >= bx as i64 && px < bx as i64 + per_button as i64 && py >= 0 && py < size.1
                        as i64
                },
                None => false,
            };
            let fill = if hovered {
                self.colors.button_hover_color
            } else {
                self.colors.button_color
            };
            let cmd = DrawCommand {
                x: bx as u32,
                y: 0,
                width: per_button as u32,
                height: size.1,
                fill,
                label: self.buttons[i].text.clone(),
                text_color: self.colors.text_color,
            };
            proof {
                assert(cmd@ =~= bar_cmd(b0, size, i as int));
            }
            cmds.push(cmd);
            let target = ClickTarget {
                position: (bx as u32, 0),
                size: (per_button as u32, size.1),
                handler: ClickHandler::RunCommand(self.buttons[i].command.clone()),
            };
            proof {
                assert(target@ =~= bar_target(b0, size, i as int));
            }
            self.click_targets.push(target);
            next_draw_at = next_draw_at + per_button;
            i = i + 1;
        }
        proof {
            assert(self@.click_targets =~= b0.click_targets + Seq::new(
                b0.buttons.len(),
                |k: int| bar_target(b0, size, k),
            ));
            assert(self@ =~= bar_after_draw(b0, size));
            assert(cmds_view(cmds@) =~= bar_draw_cmds(b0, size));
        }
        cmds
    }

    /// Hit-test every click target against the last recorded pointer
    /// location, most recently appended match winning, and hand back the
    /// matched cell's command, if any.
    pub fn check_execute_click(&self) -> (r: Option<String>)
        ensures
            string_view(r) == bar_commit_command(self@),
    {
        match self.pointer_location {
            Some(pos) => match last_hit(&self.click_targets, pos) {
                Some(handler) => {
                    proof {
                        let ts = targets_view(self.click_targets@);
                        crate::click::lemma_last_hit_index_valid(ts, pos.0 as int, pos.1 as int);
                        let i = last_hit_index(ts, pos.0 as int, pos.1 as int).unwrap();
                        assert(ts[i] == self.click_targets@[i]@);
                        assert(handler@ == self@.click_targets[i].handler);
                    }
                    match handler {
                        ClickHandler::RunCommand(cmd) => Some(cmd.clone()),
                        ClickHandler::Selected(_) => None,
                    }
                },
                None => None,
            },
            None => None,
        }
    }

    /// A gesture starts: engage, record the position, ask for a redraw.
    pub fn input_start_gesture(&mut self, pos: PointerPosition) -> (r: Option<RenderEvent>)
        ensures
            final(self)@ == bar_after_start(old(self)@, pos),
            r == Some(RenderEvent::Render),
    {
        self.pointer_engaged = true;
        self.pointer_location = Some(pos);
        proof {
            assert(self@ =~= bar_after_start(old(self)@, pos));
        }
        Some(RenderEvent::Render)
    }

    /// A gesture is abandoned: disengage, forget the position, redraw.
    pub fn input_stop_gesture(&mut self) -> (r: Option<RenderEvent>)
        ensures
            final(self)@ == bar_after_stop(old(self)@),
            r == Some(RenderEvent::Render),
    {
        self.pointer_engaged = false;
        self.pointer_location = None;
        proof {
            assert(self@ =~= bar_after_stop(old(self)@));
        }
        Some(RenderEvent::Render)
    }

    /// The pointer moved: record the position, ask for a redraw.
    pub fn input_movement(&mut self, pos: PointerPosition) -> (r: Option<RenderEvent>)
        ensures
            final(self)@ == bar_after_movement(old(self)@, pos),
            r == Some(RenderEvent::Render),
    {
        self.pointer_location = Some(pos);
        proof {
            assert(self@ =~= bar_after_movement(old(self)@, pos));
        }
        Some(RenderEvent::Render)
    }

    /// A gesture commits: hit-test at the last recorded location, hand the
    /// matched command out as an action to run, disengage, redraw.
    pub fn input_commit_gesture(&mut self) -> (r: (Option<RenderEvent>, Option<AppAction>))
        ensures
            final(self)@ == bar_after_commit(old(self)@),
            r.0 == Some(RenderEvent::Render),
            action_view(r.1) == (match bar_commit_command(old(self)@) {
                Some(cmd) => Some(crate::panel::ActionV::RunCommand(cmd)),
                None => None,
            }),
    {
        let command = self.check_execute_click();
        let action = match command {
            Some(cmd) => Some(AppAction::RunCommand(cmd)),
            None => None,
        };
        self.pointer_engaged = false;
        proof {
            assert(self@ =~= bar_after_commit(old(self)@));
        }
        (Some(RenderEvent::Render), action)
    }
}

/// A draw pass paints the same cells whatever the click-target registry
/// holds: what is painted depends only on state that drawing never
/// changes.
pub proof fn lemma_bar_draw_cmds_stable(b1: BarV, b2: BarV, size: WindowSize)
    requires
        b2 == (BarV { click_targets: b2.click_targets, ..b1 }),
    ensures
        bar_draw_cmds(b2, size) == bar_draw_cmds(b1, size),
{
    assert forall|i: int| 0 <= i < b1.buttons.len() implies bar_cmd(b2, size, i) == bar_cmd(
        b1,
        size,
        i,
    ) by {
        assert(bar_cmd(b2, size, i) =~= bar_cmd(b1, size, i));
    }
    assert(bar_draw_cmds(b2, size) =~= bar_draw_cmds(b1, size));
}

/// The bar's state after a started gesture and a sequence of movements.
pub open spec fn bar_after_movements(b: BarV, moves: Seq<PointerPosition>) -> BarV
    decreases moves.len(),
{
    if moves.len() == 0 {
        b
    } else {
        bar_after_movement(bar_after_movements(b, moves.drop_last()), moves.last())
    }
}

/// Law: over one press/release pair with no intervening leave, the bar
/// transitions engaged to disengaged exactly once — engaged by the press,
/// engaged through every movement, disengaged by the commit — and the
/// location the commit hit-tests against is the one recorded at press
/// time, or the most recent movement if any came.
pub proof fn lemma_press_release_engagement(
    b: BarV,
    seed: PointerPosition,
    moves: Seq<PointerPosition>,
)
    requires
        !b.pointer_engaged,
    ensures
        ({
            let pressed = bar_after_start(b, seed);
            let moved = bar_after_movements(pressed, moves);
            &&& pressed.pointer_engaged
            &&& forall|k: int|
                0 <= k <= moves.len() ==> #[trigger] bar_after_movements(
                    pressed,
                    moves.take(k),
                ).pointer_engaged
            &&& !bar_after_commit(moved).pointer_engaged
            &&& moved.pointer_location == (if moves.len() == 0 {
                Some(seed)
            } else {
                Some(moves.last())
            })
            &&& bar_commit_command(moved) == bar_commit_command(
                BarV { pointer_location: moved.pointer_location, ..bar_after_commit(moved) },
            )
        }),
    decreases moves.len(),
{
    let pressed = bar_after_start(b, seed);
    assert forall|k: int| 0 <= k <= moves.len() implies #[trigger] bar_after_movements(
        pressed,
        moves.take(k),
    ).pointer_engaged by {
        lemma_movements_keep_engagement(pressed, moves.take(k));
    }
    lemma_movements_keep_engagement(pressed, moves);
    if moves.len() > 0 {
        assert(bar_after_movements(pressed, moves).pointer_location == Some(moves.last()));
    }
}

/// Movements never change the engagement of a gesture, and leave the
/// location at the most recent movement.
proof fn lemma_movements_keep_engagement(b: BarV, moves: Seq<PointerPosition>)
    ensures
        bar_after_movements(b, moves).pointer_engaged == b.pointer_engaged,
        bar_after_movements(b, moves).pointer_location == (if moves.len() == 0 {
            b.pointer_location
        } else {
            Some(moves.last())
        }),
        bar_after_movements(b, moves).click_targets == b.click_targets,
    decreases moves.len(),
{
    if moves.len() > 0 {
        lemma_movements_keep_engagement(b, moves.drop_last());
    }
}

} // verus!
