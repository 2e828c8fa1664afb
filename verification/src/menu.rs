//! The menu application: a vertical list of options, one row per option,
//! scrolled by swiping. A zero-movement click selects the row under the
//! pointer and closes the menu; any other gesture is a swipe, folded into
//! the scroll offset and clamped to the scrollable extent.

use vstd::prelude::*;
use vstd::arithmetic::mul::{lemma_mul_inequality, lemma_mul_nonnegative};
use crate::click::{
    last_hit, last_hit_index, lemma_last_hit_index_valid, rect_contains, targets_view,
    ClickHandler, ClickTarget, HandlerV, TargetV,
};
use crate::config::ColorConfig;
use crate::panel::{
    action_view, cmds_view, string_view, Anchor, AppAction, ApplicationSettings, CmdV, DrawCommand,
    Layer, PointerPosition, RenderEvent, SettingsV, WindowSize,
};

verus! {

/// The menu's state: its configuration (immutable after construction),
/// the persisted scroll offset, the transient state of the current
/// gesture, and the growing click-target registry.
pub struct Menu {
    pub list_offset: i32,
    pub pointer_start: Option<PointerPosition>,
    pub pointer_current: Option<PointerPosition>,
    pub pointer_engaged: bool,
    pub click_targets: Vec<ClickTarget>,
    pub font_data: Vec<u8>,
    pub line_height: u32,
    pub max_lines: u32,
    pub options: Vec<String>,
    pub colors: ColorConfig,
}

/// Mathematical model of [`Menu`].
#[verifier::ext_equal]
pub ghost struct MenuV {
    pub list_offset: i32,
    pub pointer_start: Option<PointerPosition>,
    pub pointer_current: Option<PointerPosition>,
    pub pointer_engaged: bool,
    pub click_targets: Seq<TargetV>,
    pub font_data: Seq<u8>,
    pub line_height: u32,
    pub max_lines: u32,
    pub options: Seq<Seq<char>>,
    pub colors: ColorConfig,
}

impl View for Menu {
    type V = MenuV;

    open spec fn view(&self) -> MenuV {
        MenuV {
            list_offset: self.list_offset,
            pointer_start: self.pointer_start,
            pointer_current: self.pointer_current,
            pointer_engaged: self.pointer_engaged,
            click_targets: targets_view(self.click_targets@),
            font_data: self.font_data@,
            line_height: self.line_height,
            max_lines: self.max_lines,
            options: self.options@.map_values(|s: String| s@),
            colors: self.colors,
        }
    }
}

/// How many rows fit on the surface: the configured maximum, or all of
/// them when there are fewer.
pub open spec fn menu_visible_rows(m: MenuV) -> int {
    if m.options.len() <= m.max_lines {
        m.options.len() as int
    } else {
        m.max_lines as int
    }
}

/// The largest scroll offset with anything left to reveal:
/// `(N - visible) * line_height`, never negative.
pub open spec fn menu_max_scroll(m: MenuV) -> int {
    (m.options.len() - menu_visible_rows(m)) * m.line_height
}

/// A well-formed menu: the list's total pixel extent fits the scroll
/// arithmetic, the requested surface height fits, and the persisted
/// scroll offset lies inside the scrollable range.
pub open spec fn menu_wf(m: MenuV) -> bool {
    &&& m.options.len() * m.line_height <= i32::MAX
    &&& m.line_height * m.max_lines <= u32::MAX
    &&& 0 <= m.list_offset <= menu_max_scroll(m)
}

/// An integer clamped into `i32` range, as a saturating narrowing does it.
pub open spec fn clamp_to_i32(v: int) -> i32 {
    if v > i32::MAX {
        i32::MAX
    } else if v < i32::MIN {
        i32::MIN
    } else {
        v as i32
    }
}

/// The vertical distance swiped by the current gesture: the anchor's y
/// minus the current y, defined only while a gesture is engaged, both
/// positions are known, and they differ.
pub open spec fn spec_swipe_distance(
    start: Option<PointerPosition>,
    current: Option<PointerPosition>,
    engaged: bool,
) -> Option<i32> {
    if start is None || current is None || !engaged {
        None
    } else if start.unwrap() == current.unwrap() {
        None
    } else {
        Some(clamp_to_i32(start.unwrap().1 - current.unwrap().1))
    }
}

/// Whether the current gesture reads as a click: engaged, both positions
/// known, and the anchor exactly equal to the current position.
pub open spec fn spec_is_clicking(
    start: Option<PointerPosition>,
    current: Option<PointerPosition>,
    engaged: bool,
) -> bool {
    &&& start is Some
    &&& current is Some
    &&& engaged
    &&& start.unwrap() == current.unwrap()
}

/// The swipe distance of the current gesture, as [`spec_swipe_distance`]
/// defines it.
pub fn swipe_distance(
    start: Option<PointerPosition>,
    current: Option<PointerPosition>,
    engaged: bool,
) -> (r: Option<i32>)
    ensures
        r == spec_swipe_distance(start, current, engaged),
{
    if !engaged {
        return None;
    }
    match (start, current) {
        (Some(s), Some(c)) => {
            if s == c {
                None
            } else {
                let diff: i64 = s.1 as i64 - c.1 as i64;
                let clamped: i32 = if diff > i32::MAX as i64 {
                    i32::MAX
                } else if diff < i32::MIN as i64 {
                    i32::MIN
                } else {
                    diff as i32
                };
                Some(clamped)
            }
        },
        _ => None,
    }
}

/// Whether the current gesture reads as a click, as [`spec_is_clicking`]
/// defines it.
pub fn is_clicking(
    start: Option<PointerPosition>,
    current: Option<PointerPosition>,
    engaged: bool,
) -> (r: bool)
    ensures
        r == spec_is_clicking(start, current, engaged),
{
    match (start, current) {
        (Some(s), Some(c)) => engaged && s == c,
        _ => false,
    }
}

/// A movement records the current position; the first movement of an
/// engaged gesture also anchors the swipe there.
pub open spec fn menu_after_movement(m: MenuV, pos: PointerPosition) -> MenuV {
    MenuV {
        pointer_start: if m.pointer_start is None && m.pointer_engaged {
            Some(pos)
        } else {
            m.pointer_start
        },
        pointer_current: Some(pos),
        ..m
    }
}

/// A gesture start engages the menu and then records the position as a
/// movement would.
pub open spec fn menu_after_start(m: MenuV, pos: PointerPosition) -> MenuV {
    menu_after_movement(MenuV { pointer_engaged: true, ..m }, pos)
}

/// A stopped (abandoned) gesture disengages and forgets both positions;
/// the persisted scroll offset is untouched.
pub open spec fn menu_after_stop(m: MenuV) -> MenuV {
    MenuV { pointer_engaged: false, pointer_start: None, pointer_current: None, ..m }
}

/// The option a committed gesture selects: defined only when the gesture
/// reads as a click and the most recently appended click target containing
/// the click holds an option.
pub open spec fn menu_selection(m: MenuV) -> Option<Seq<char>> {
    if m.pointer_engaged && spec_is_clicking(m.pointer_start, m.pointer_current, m.pointer_engaged) {
        let pos = m.pointer_current.unwrap();
        match last_hit_index(m.click_targets, pos.0 as int, pos.1 as int) {
            Some(i) => match m.click_targets[i].handler {
                HandlerV::Selected(text) => Some(text),
                HandlerV::RunCommand(_) => None,
            },
            None => None,
        }
    } else {
        None
    }
}

/// The swiped distance folded in as zero when no swipe is defined.
pub open spec fn menu_swipe_or_zero(m: MenuV) -> int {
    match spec_swipe_distance(m.pointer_start, m.pointer_current, m.pointer_engaged) {
        Some(d) => d as int,
        None => 0,
    }
}

/// The scroll offset a commit persists: the swipe folded into the offset,
/// then clamped into `[0, menu_max_scroll]`.
pub open spec fn menu_committed_offset(m: MenuV) -> int {
    let folded = m.list_offset + menu_swipe_or_zero(m);
    let raised = if folded < 0 {
        0
    } else {
        folded
    };
    if raised > menu_max_scroll(m) {
        menu_max_scroll(m)
    } else {
        raised
    }
}

/// A committed gesture: a click leaves the state untouched (the selection
/// closes the menu); otherwise an engaged swipe is folded into the offset
/// and clamped, and the gesture disengages. The anchor is forgotten.
pub open spec fn menu_after_commit(m: MenuV) -> MenuV {
    if menu_selection(m) is Some {
        m
    } else if m.pointer_engaged {
        MenuV {
            list_offset: clamp_to_i32(menu_committed_offset(m)),
            pointer_engaged: false,
            pointer_start: None,
            ..m
        }
    } else {
        MenuV { pointer_start: None, ..m }
    }
}

/// The surface height the menu asks for: room for the visible rows.
pub open spec fn menu_want_height(m: MenuV) -> int {
    if m.line_height * m.max_lines <= m.options.len() * m.line_height {
        m.line_height * m.max_lines
    } else {
        m.options.len() * m.line_height
    }
}

/// How the menu asks to be placed: an overlay strip anchored to the
/// bottom edge, high enough for the visible rows, reserving nothing.
pub open spec fn menu_settings(m: MenuV) -> SettingsV {
    SettingsV {
        namespace: "ppkui_bar"@,
        layer: Layer::Overlay,
        size: WindowSize(0, menu_want_height(m) as u32),
        exclusive_zone: 0,
        margins: (0, 0, 0, 0),
        anchor: Anchor { top: false, bottom: true, left: true, right: true },
    }
}

/// The offset the current draw pass scrolls to: the persisted offset plus
/// the in-progress swipe, giving immediate feedback without mutating the
/// persisted state.
pub open spec fn menu_current_offset(m: MenuV) -> int {
    m.list_offset + menu_swipe_or_zero(m)
}

/// Where row `i` is drawn, relative to the surface's top edge.
pub open spec fn menu_row_y(m: MenuV, i: int) -> int {
    i * m.line_height - menu_current_offset(m)
}

/// Whether row `i` is drawn at all: rows whose position falls outside
/// the half-open `[0, height)` are skipped entirely — a row whose top
/// lands exactly on the bottom edge lies wholly below the surface — but
/// they still advance the layout, so later rows stay aligned.
pub open spec fn menu_row_drawn(m: MenuV, size: WindowSize, i: int) -> bool {
    0 <= menu_row_y(m, i) < size.1
}

/// Whether row `i` is drawn highlighted: a gesture is engaged and its
/// anchor, shifted by the in-progress swipe, falls inside the row.
pub open spec fn menu_row_hovered(m: MenuV, size: WindowSize, i: int) -> bool {
    &&& m.pointer_engaged
    &&& m.pointer_start matches Some(p) && rect_contains(
        0,
        menu_row_y(m, i),
        size.0 as int,
        m.line_height as int,
        p.0 as int,
        p.1 as int - menu_swipe_or_zero(m),
    )
}

/// The rectangle and label that one draw pass paints for row `i`.
pub open spec fn menu_cmd(m: MenuV, size: WindowSize, i: int) -> CmdV {
    CmdV {
        x: 0,
        y: menu_row_y(m, i),
        width: size.0 as int,
        height: m.line_height as int,
        fill: if menu_row_hovered(m, size, i) {
            m.colors.button_hover_color
        } else {
            m.colors.button_color
        },
        label: m.options[i],
        text_color: m.colors.text_color,
    }
}

/// The click target that one draw pass appends for row `i`.
pub open spec fn menu_target(m: MenuV, size: WindowSize, i: int) -> TargetV {
    TargetV {
        x: 0,
        y: menu_row_y(m, i),
        w: size.0 as int,
        h: m.line_height as int,
        handler: HandlerV::Selected(m.options[i]),
    }
}

/// Everything one draw pass paints for the first `n` rows: the drawn
/// rows' rectangles, in row order.
pub open spec fn menu_cmds_upto(m: MenuV, size: WindowSize, n: int) -> Seq<CmdV>
    decreases n,
{
    if n <= 0 {
        Seq::empty()
    } else if menu_row_drawn(m, size, n - 1) {
        menu_cmds_upto(m, size, n - 1).push(menu_cmd(m, size, n - 1))
    } else {
        menu_cmds_upto(m, size, n - 1)
    }
}

/// The click targets one draw pass appends for the first `n` rows: one
/// per drawn row, in row order.
pub open spec fn menu_targets_upto(m: MenuV, size: WindowSize, n: int) -> Seq<TargetV>
    decreases n,
{
    if n <= 0 {
        Seq::empty()
    } else if menu_row_drawn(m, size, n - 1) {
        menu_targets_upto(m, size, n - 1).push(menu_target(m, size, n - 1))
    } else {
        menu_targets_upto(m, size, n - 1)
    }
}

/// Everything one draw pass paints.
pub open spec fn menu_draw_cmds(m: MenuV, size: WindowSize) -> Seq<CmdV> {
    menu_cmds_upto(m, size, m.options.len() as int)
}

/// The menu after one draw pass: one click target per drawn row appended
/// to the registry (which is never cleared), everything else unchanged.
pub open spec fn menu_after_draw(m: MenuV, size: WindowSize) -> MenuV {
    MenuV {
        click_targets: m.click_targets + menu_targets_upto(m, size, m.options.len() as int),
        ..m
    }
}

/// A fresh copy for a new surface: the configuration is carried over and
/// the scroll and gesture state are reset.
pub open spec fn menu_fresh(m: MenuV) -> MenuV {
    MenuV {
        list_offset: 0,
        pointer_start: None,
        pointer_current: None,
        pointer_engaged: false,
        click_targets: Seq::empty(),
        ..m
    }
}

/// A copy of an option list, every string carried over.
fn clone_options(v: &Vec<String>) -> (r: Vec<String>)
    ensures
        r@.map_values(|s: String| s@) == v@.map_values(|s: String| s@),
{
    let mut r: Vec<String> = Vec::new();
    let mut i: usize = 0;
    while i < v.len()
        invariant
            0 <= i <= v.len(),
            r@.len() == i,
            forall|k: int| 0 <= k < i ==> #[trigger] r@[k]@ == v@[k]@,
        decreases v.len() - i,
    {
        r.push(v[i].clone());
        i = i + 1;
    }
    proof {
        assert(r@.map_values(|s: String| s@) =~= v@.map_values(|s: String| s@));
    }
    r
}

impl Clone for Menu {
    /// A fresh menu for a new surface: same configuration, scroll at the
    /// top, no gesture in progress, an empty click-target registry.
    fn clone(&self) -> (r: Self)
        ensures
            r@ == menu_fresh(self@),
    {
        let r = Menu {
            list_offset: 0,
            pointer_engaged: false,
            pointer_start: None,
            pointer_current: None,
            click_targets: Vec::new(),
            font_data: crate::panel::clone_bytes(&self.font_data),
            line_height: self.line_height,
            max_lines: self.max_lines,
            options: clone_options(&self.options),
            colors: self.colors,
        };
        proof {
            assert(r@ =~= menu_fresh(self@));
        }
        r
    }
}

impl Menu {
    /// A menu over the given configuration, scrolled to the top, with no
    /// gesture in progress and an empty click-target registry.
    pub fn new(
        line_height: u32,
        max_lines: u32,
        options: Vec<String>,
        colors: ColorConfig,
        font_data: Vec<u8>,
    ) -> (r: Menu)
        requires
            options@.len() * line_height <= i32::MAX,
            line_height * max_lines <= u32::MAX,
        ensures
            r@ == (MenuV {
                list_offset: 0,
                pointer_start: None,
                pointer_current: None,
                pointer_engaged: false,
                click_targets: Seq::empty(),
                font_data: font_data@,
                line_height,
                max_lines,
                options: options@.map_values(|s: String| s@),
                colors,
            }),
            menu_wf(r@),
    {
        let r = Menu {
            list_offset: 0,
            pointer_engaged: false,
            pointer_start: None,
            pointer_current: None,
            click_targets: Vec::new(),
            font_data,
            line_height,
            max_lines,
            options,
            colors,
        };
        proof {
            assert(r@ =~= (MenuV {
                list_offset: 0,
                pointer_start: None,
                pointer_current: None,
                pointer_engaged: false,
                click_targets: Seq::empty(),
                font_data: r.font_data@,
                line_height,
                max_lines,
                options: r.options@.map_values(|s: String| s@),
                colors,
            }));
            lemma_max_scroll_nonnegative(r@);
        }
        r
    }

    /// How the menu asks to be placed on screen.
    pub fn settings(&self) -> (s: ApplicationSettings)
        requires
            menu_wf(self@),
        ensures
            s@ == menu_settings(self@),
    {
        let all_rows: u64 = (self.options.len() as u64) * (self.line_height as u64);
        let visible: u64 = (self.line_height as u64) * (self.max_lines as u64);
        let want_height: u32 = if visible <= all_rows {
            visible as u32
        } else {
            all_rows as u32
        };
        let s = ApplicationSettings {
            namespace: "ppkui_bar".to_owned(),
            layer: Layer::Overlay,
            size: WindowSize(0, want_height),
            exclusive_zone: 0,
            margins: (0, 0, 0, 0),
            anchor: Anchor { top: false, bottom: true, left: true, right: true },
        };
        proof {
            assert(s@ =~= menu_settings(self@));
        }
        s
    }

    /// Hit-test the click — if the gesture reads as one — against every
    /// click target, most recently appended match winning, and hand back
    /// the matched row's option text, if any.
    pub fn check_execute_click(&self) -> (r: Option<String>)
        ensures
            string_view(r) == menu_selection(self@),
    {
        if self.pointer_engaged && is_clicking(
            self.pointer_start,
            self.pointer_current,
            self.pointer_engaged,
        ) {
            let pos = self.pointer_current.unwrap();
            match last_hit(&self.click_targets, pos) {
                Some(handler) => {
                    proof {
                        let ts = targets_view(self.click_targets@);
                        lemma_last_hit_index_valid(ts, pos.0 as int, pos.1 as int);
                        let i = last_hit_index(ts, pos.0 as int, pos.1 as int).unwrap();
                        assert(ts[i] == self.click_targets@[i]@);
                        assert(handler@ == self@.click_targets[i].handler);
                    }
                    match handler {
                        ClickHandler::Selected(text) => Some(text.clone()),
                        ClickHandler::RunCommand(_) => None,
                    }
                },
                None => None,
            }
        } else {
            None
        }
    }

    /// A gesture starts: engage, then record the position as a movement.
    pub fn input_start_gesture(&mut self, pos: PointerPosition) -> (r: Option<RenderEvent>)
        ensures
            final(self)@ == menu_after_start(old(self)@, pos),
            r == Some(RenderEvent::Render),
    {
        self.pointer_engaged = true;
        let r = self.input_movement(pos);
        proof {
            assert(self@ =~= menu_after_start(old(self)@, pos));
        }
        r
    }

    /// A gesture is abandoned: disengage and forget both positions; the
    /// persisted scroll offset is untouched.
    pub fn input_stop_gesture(&mut self) -> (r: Option<RenderEvent>)
        ensures
            final(self)@ == menu_after_stop(old(self)@),
            r == Some(RenderEvent::Render),
    {
        self.pointer_engaged = false;
        self.pointer_start = None;
        self.pointer_current = None;
        proof {
            assert(self@ =~= menu_after_stop(old(self)@));
        }
        Some(RenderEvent::Render)
    }

    /// The pointer moved: record the position; the first movement of an
    /// engaged gesture anchors the swipe.
    pub fn input_movement(&mut self, pos: PointerPosition) -> (r: Option<RenderEvent>)
        ensures
            final(self)@ == menu_after_movement(old(self)@, pos),
            r == Some(RenderEvent::Render),
    {
        if self.pointer_start.is_none() && self.pointer_engaged {
            self.pointer_start = Some(pos);
        }
        self.pointer_current = Some(pos);
        proof {
            assert(self@ =~= menu_after_movement(old(self)@, pos));
        }
        Some(RenderEvent::Render)
    }

    /// A gesture commits. A click hands the selected option out to be
    /// emitted and asks the surface to close; a swipe is folded into the
    /// scroll offset and clamped into `[0, menu_max_scroll]`.
    pub fn input_commit_gesture(&mut self) -> (r: (Option<RenderEvent>, Option<AppAction>))
        requires
            menu_wf(old(self)@),
        ensures
            final(self)@ == menu_after_commit(old(self)@),
            menu_wf(final(self)@),
            r.0 == (if menu_selection(old(self)@) is Some {
                Some(RenderEvent::Closed)
            } else {
                Some(RenderEvent::Render)
            }),
            action_view(r.1) == (match menu_selection(old(self)@) {
                Some(text) => Some(crate::panel::ActionV::Emit(text)),
                None => None,
            }),
    {
        let ghost m0 = self@;
        proof {
            lemma_max_scroll_nonnegative(m0);
        }
        let selection = self.check_execute_click();
        if let Some(text) = selection {
            proof {
                assert(self@ =~= menu_after_commit(m0));
            }
            return (Some(RenderEvent::Closed), Some(AppAction::Emit(text)));
        }
        if self.pointer_engaged {
            let swipe: i32 = match swipe_distance(
                self.pointer_start,
                self.pointer_current,
                self.pointer_engaged,
            ) {
                Some(d) => d,
                None => 0,
            };
            let folded: i64 = self.list_offset as i64 + swipe as i64;
            let raised: i64 = if folded < 0 {
                0
            } else {
                folded
            };
            let max_scroll: i64 = self.max_scroll_px();
            let clamped: i64 = if raised > max_scroll {
                max_scroll
            } else {
                raised
            };
            self.list_offset = clamped as i32;
            self.pointer_engaged = false;
        }
        self.pointer_start = None;
        proof {
            assert(self@ =~= menu_after_commit(m0));
        }
        (Some(RenderEvent::Render), None)
    }

    /// One draw pass at the given size: paints one full-width row per
    /// option at the current scroll position (the persisted offset plus
    /// the in-progress swipe), skips rows falling outside the surface
    /// while still advancing the layout, and appends one click target per
    /// drawn row to the registry.
    pub fn draw(&mut self, size: WindowSize) -> (cmds: Vec<DrawCommand>)
        requires
            menu_wf(old(self)@),
        ensures
            final(self)@ == menu_after_draw(old(self)@, size),
            cmds_view(cmds@) == menu_draw_cmds(old(self)@, size),
    {
        let ghost m0 = self@;
        let n = self.options.len();
        let lh: i64 = self.line_height as i64;
        let swipe: i32 = match swipe_distance(
            self.pointer_start,
            self.pointer_current,
            self.pointer_engaged,
        ) {
            Some(d) => d,
            None => 0,
        };
        let current_offset: i64 = self.list_offset as i64 + swipe as i64;
        let mut next_draw_at: i64 = 0 - current_offset;
        let mut cmds: Vec<DrawCommand> = Vec::new();
        let mut i: usize = 0;
        while i < n
            invariant
                menu_wf(m0),
                0 <= i <= n,
                n == m0.options.len(),
                n == self.options.len(),
                lh == m0.line_height as int,
                n as int * lh as int <= i32::MAX,
                i as int * lh as int <= n as int * lh as int,
                swipe as int == menu_swipe_or_zero(m0),
                current_offset == menu_current_offset(m0),
                next_draw_at == menu_row_y(m0, i as int),
                self@.list_offset == m0.list_offset,
                self@.pointer_start == m0.pointer_start,
                self@.pointer_current == m0.pointer_current,
                self@.pointer_engaged == m0.pointer_engaged,
                self@.font_data == m0.font_data,
                self@.line_height == m0.line_height,
                self@.max_lines == m0.max_lines,
                self@.options == m0.options,
                self@.colors == m0.colors,
                self@.click_targets == m0.click_targets + menu_targets_upto(m0, size, i as int),
                cmds_view(cmds@) == menu_cmds_upto(m0, size, i as int),
            decreases n - i,
        {
            proof {
                lemma_mul_inequality(i as int + 1, n as int, lh as int);
                assert((i as int + 1) * lh as int == i as int * lh as int + lh as int)
                    by (nonlinear_arith);
            }
            if next_draw_at < 0 || next_draw_at >= size.1 as i64 {
                proof {
                    assert(self@.click_targets =~= m0.click_targets + menu_targets_upto(
                        m0,
                        size,
                        i as int + 1,
                    ));
                }
            } else {
                let y = next_draw_at as u32;
                let hovered = self.pointer_engaged && match self.pointer_start {
                    Some(p) => {
                        let px = p.0 as i64;
                        let adj_y = p.1 as i64 - swipe as i64;
                        px >= 0 && px < size.0 as i64 && adj_y >= next_draw_at && adj_y
                            < next_draw_at + lh
                    },
                    None => false,
                };
                let fill = if hovered {
                    self.colors.button_hover_color
                } else {
                    self.colors.button_color
                };
                let cmd = DrawCommand {
                    x: 0,
                    y,
                    width: size.0,
                    height: self.line_height,
                    fill,
                    label: self.options[i].clone(),
                    text_color: self.colors.text_color,
                };
                proof {
                    assert(m0.options[i as int] == self.options@[i as int]@);
                    assert(cmd@ =~= menu_cmd(m0, size, i as int));
                }
                cmds.push(cmd);
                let target = ClickTarget {
                    position: (0, y),
                    size: (size.0, self.line_height),
                    handler: ClickHandler::Selected(self.options[i].clone()),
                };
                proof {
                    assert(target@ =~= menu_target(m0, size, i as int));
                }
                let ghost prev_targets = self.click_targets@;
                self.click_targets.push(target);
                proof {
                    assert(targets_view(self.click_targets@) =~= targets_view(prev_targets).push(
                        target@,
                    ));
                    assert(self@.click_targets =~= m0.click_targets + menu_targets_upto(
                        m0,
                        size,
                        i as int + 1,
                    ));
                    assert(cmds_view(cmds@) =~= menu_cmds_upto(m0, size, i as int + 1));
                }
            }
            next_draw_at = next_draw_at + lh;
            i = i + 1;
        }
        proof {
            assert(self@ =~= menu_after_draw(m0, size));
        }
        cmds
    }

    /// The largest scroll offset with anything left to reveal, in pixels.
    fn max_scroll_px(&self) -> (r: i64)
        requires
            menu_wf(self@),
        ensures
            r == menu_max_scroll(self@),
            0 <= r <= i32::MAX,
    {
        let n: u64 = self.options.len() as u64;
        let visible: u64 = if n <= self.max_lines as u64 {
            n
        } else {
            self.max_lines as u64
        };
        proof {
            lemma_max_scroll_nonnegative(self@);
            lemma_mul_inequality(
                (self@.options.len() - menu_visible_rows(self@)) as int,
                self@.options.len() as int,
                self@.line_height as int,
            );
        }
        ((n - visible) * self.line_height as u64) as i64
    }
}

/// A draw pass paints the same rows whatever the click-target registry
/// holds: what is painted depends only on state that drawing never
/// changes.
pub proof fn lemma_menu_draw_cmds_stable(m1: MenuV, m2: MenuV, size: WindowSize, n: int)
    requires
        m2 == (MenuV { click_targets: m2.click_targets, ..m1 }),
    ensures
        menu_cmds_upto(m2, size, n) == menu_cmds_upto(m1, size, n),
    decreases n,
{
    if n > 0 {
        lemma_menu_draw_cmds_stable(m1, m2, size, n - 1);
        assert(menu_cmd(m2, size, n - 1) =~= menu_cmd(m1, size, n - 1));
    }
}

/// The scrollable extent is never negative.
pub proof fn lemma_max_scroll_nonnegative(m: MenuV)
    ensures
        menu_max_scroll(m) >= 0,
{
    lemma_mul_nonnegative((m.options.len() - menu_visible_rows(m)) as int, m.line_height as int);
}

/// Law (scroll clamp): whatever sequence of swipes came before — any
/// well-formed menu state — the scroll offset persisted by a committed
/// gesture lies within `[0, max(0, (N - visible) * line_height)]`, and
/// every gesture transition preserves well-formedness, so the bound holds
/// after every commit of every session.
pub proof fn lemma_commit_offset_clamped(m: MenuV, pos: PointerPosition, size: WindowSize)
    requires
        menu_wf(m),
    ensures
        0 <= menu_after_commit(m).list_offset <= menu_max_scroll(m),
        menu_wf(menu_after_commit(m)),
        menu_wf(menu_after_start(m, pos)),
        menu_wf(menu_after_movement(m, pos)),
        menu_wf(menu_after_stop(m)),
        menu_wf(menu_after_draw(m, size)),
{
    lemma_max_scroll_nonnegative(m);
}

} // verus!
