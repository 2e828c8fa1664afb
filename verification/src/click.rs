//! Click targets: axis-aligned rectangles bound to an opaque action,
//! appended to a per-surface registry by every draw pass and hit-tested
//! against pointer locations. The registry is never cleared between draws,
//! so a full hit-test keeps overwriting its result with each match: the
//! most recently appended overlapping target wins.

use vstd::prelude::*;
use crate::panel::PointerPosition;

verus! {

/// The action bound to a click target: run a shell command (the bar's
/// buttons) or select an option (the menu's rows).
#[derive(Clone)]
pub enum ClickHandler {
    RunCommand(String),
    Selected(String),
}

/// Mathematical model of [`ClickHandler`].
#[verifier::ext_equal]
pub ghost enum HandlerV {
    RunCommand(Seq<char>),
    Selected(Seq<char>),
}

impl View for ClickHandler {
    type V = HandlerV;

    open spec fn view(&self) -> HandlerV {
        match self {
            ClickHandler::RunCommand(cmd) => HandlerV::RunCommand(cmd@),
            ClickHandler::Selected(text) => HandlerV::Selected(text@),
        }
    }
}

/// One rectangle bound to an action, created fresh by a draw pass.
/// `position` is its top-left corner in surface pixels.
pub struct ClickTarget {
    pub position: (u32, u32),
    pub size: (u32, u32),
    pub handler: ClickHandler,
}

/// Mathematical model of [`ClickTarget`].
#[verifier::ext_equal]
pub ghost struct TargetV {
    pub x: int,
    pub y: int,
    pub w: int,
    pub h: int,
    pub handler: HandlerV,
}

impl View for ClickTarget {
    type V = TargetV;

    open spec fn view(&self) -> TargetV {
        TargetV {
            x: self.position.0 as int,
            y: self.position.1 as int,
            w: self.size.0 as int,
            h: self.size.1 as int,
            handler: self.handler@,
        }
    }
}

/// The models of a registry of click targets.
pub open spec fn targets_view(ts: Seq<ClickTarget>) -> Seq<TargetV> {
    ts.map_values(|t: ClickTarget| t@)
}

/// Whether the point `(px, py)` lies inside the axis-aligned rectangle
/// with top-left corner `(x, y)`, width `w` and height `h`. The interval
/// is half-open: the left and top edges are inside, the right and bottom
/// edges are outside.
pub open spec fn rect_contains(x: int, y: int, w: int, h: int, px: int, py: int) -> bool {
    &&& x <= px < x + w
    &&& y <= py < y + h
}

/// Whether the point `(px, py)` lies inside the target's rectangle.
pub open spec fn target_hit(t: TargetV, px: int, py: int) -> bool {
    rect_contains(t.x, t.y, t.w, t.h, px, py)
}

/// Law: hit-testing is half-open. A point exactly on a rectangle's left or
/// top edge is inside it; a point exactly on its right or bottom edge is
/// outside it.
pub proof fn lemma_hit_boundary(t: TargetV)
    requires
        t.w > 0,
        t.h > 0,
    ensures
        target_hit(t, t.x, t.y),
        !target_hit(t, t.x + t.w, t.y),
        !target_hit(t, t.x, t.y + t.h),
{
}

impl ClickTarget {
    /// Hit-test one click position against this target: its bound action
    /// if and only if the point lies inside the rectangle.
    pub fn process_click(&self, click_position: PointerPosition) -> (r: Option<&ClickHandler>)
        ensures
            r is Some <==> target_hit(self@, click_position.0 as int, click_position.1 as int),
            r matches Some(h) ==> *h == self.handler,
    {
        let click_x = click_position.0 as i64;
        let click_y = click_position.1 as i64;
        let position_x = self.position.0 as i64;
        let position_y = self.position.1 as i64;
        let size_x = self.size.0 as i64;
        let size_y = self.size.1 as i64;

        if click_x >= position_x && click_x < position_x + size_x && click_y >= position_y
            && click_y < position_y + size_y {
            Some(&self.handler)
        } else {
            None
        }
    }
}

/// The index of the most recently appended target that contains the point,
/// if any: the last match wins.
pub open spec fn last_hit_index(ts: Seq<TargetV>, px: int, py: int) -> Option<int>
    decreases ts.len(),
{
    if ts.len() == 0 {
        None
    } else if target_hit(ts.last(), px, py) {
        Some(ts.len() - 1)
    } else {
        last_hit_index(ts.drop_last(), px, py)
    }
}

/// A found last-match index is a valid index, and the target there
/// contains the point.
pub proof fn lemma_last_hit_index_valid(ts: Seq<TargetV>, px: int, py: int)
    ensures
        last_hit_index(ts, px, py) matches Some(i) ==> 0 <= i < ts.len() && target_hit(
            ts[i],
            px,
            py,
        ),
    decreases ts.len(),
{
    if ts.len() > 0 && !target_hit(ts.last(), px, py) {
        lemma_last_hit_index_valid(ts.drop_last(), px, py);
    }
}

/// Hit-test a click position against a whole registry, overwriting the
/// result with each match, so that the most recently appended matching
/// target's action is returned.
pub fn last_hit<'a>(targets: &'a Vec<ClickTarget>, pos: PointerPosition) -> (r: Option<
    &'a ClickHandler,
>)
    ensures
        r is Some <==> last_hit_index(targets_view(targets@), pos.0 as int, pos.1 as int) is Some,
        last_hit_index(targets_view(targets@), pos.0 as int, pos.1 as int) matches Some(i)
            ==> r matches Some(h) && *h == targets@[i].handler,
{
    let ghost ts = targets_view(targets@);
    let ghost px = pos.0 as int;
    let ghost py = pos.1 as int;
    let mut result: Option<&ClickHandler> = None;
    let mut i: usize = 0;
    while i < targets.len()
        invariant
            0 <= i <= targets.len(),
            ts == targets_view(targets@),
            px == pos.0 as int,
            py == pos.1 as int,
            result is Some <==> last_hit_index(ts.take(i as int), px, py) is Some,
            last_hit_index(ts.take(i as int), px, py) matches Some(j) ==> result matches Some(h)
                && *h == targets@[j].handler,
        decreases targets.len() - i,
    {
        proof {
            assert(ts.take(i + 1).drop_last() =~= ts.take(i as int));
            assert(ts.take(i + 1).last() == ts[i as int]);
        }
        if let Some(handler) = targets[i].process_click(pos) {
            result = Some(handler);
        }
        i = i + 1;
    }
    proof {
        assert(ts.take(targets@.len() as int) =~= ts);
    }
    result
}

} // verus!
