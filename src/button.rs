//! Clickable menu buttons, laid out in percentages of the viewport.
use vstd::prelude::*;
use crate::geometry::{Arena, Rect, Vec2, MAX_EXTENT};
use crate::scenes::Transition;

verus! {

/// Whether `p` lies in `r`, edges included.
pub open spec fn point_in(p: Vec2, r: Rect) -> bool {
    r.x <= p.x <= r.x + r.w && r.y <= p.y <= r.y + r.h
}

/// Whether every side of `r` is a percentage between 0 and 100.
pub open spec fn percent_rect(r: Rect) -> bool {
    0 <= r.x <= 100 && 0 <= r.y <= 100 && 0 <= r.w <= 100 && 0 <= r.h <= 100
}

/// A button: a label, a box in percent of the viewport, whether the pointer
/// is over it, and the transition a click asks for.
#[derive(Debug)]
pub struct Button {
    pub label: String,
    pub bounds: Rect,
    pub hovering: bool,
    pub action: Transition,
}

proof fn lemma_percent_of(a: int, b: int)
    requires
        0 <= a <= 100,
        0 <= b <= MAX_EXTENT,
    ensures
        0 <= a * b <= 100 * MAX_EXTENT,
        0 <= a * b / 100 <= b,
{
    assert(0 <= a * b <= 100 * b) by (nonlinear_arith)
        requires 0 <= a <= 100, 0 <= b;
    assert(100 * b <= 100 * MAX_EXTENT) by (nonlinear_arith)
        requires b <= MAX_EXTENT;
}

impl Button {
    pub open spec fn wf(&self) -> bool {
        percent_rect(self.bounds)
    }

    /// The button's box on screen, for an arena as large as the viewport.
    pub open spec fn absolute(&self, arena: Arena) -> Rect {
        Rect {
            x: (self.bounds.x * arena.width / 100) as i64,
            y: (self.bounds.y * arena.height / 100) as i64,
            w: (self.bounds.w * arena.width / 100) as i64,
            h: (self.bounds.h * arena.height / 100) as i64,
        }
    }

    pub fn new(label: String, bounds: Rect, action: Transition) -> (r: Button)
        ensures
            r.label@ == label@,
            r.bounds == bounds,
            !r.hovering,
            r.action == action,
    {
        Button { label, bounds, hovering: false, action }
    }

    /// A button of the main menu: a third of the viewport wide, centred,
    /// `y_offset_percent` down from the top.
    pub fn menu_button(label: String, y_offset_percent: i64, action: Transition) -> (r: Button)
        ensures
            r.label@ == label@,
            r.bounds == (Rect { x: 35, y: y_offset_percent, w: 30, h: 8 }),
            !r.hovering,
            r.action == action,
    {
        Button::new(label, Rect { x: 35, y: y_offset_percent, w: 30, h: 8 }, action)
    }

    pub fn get_absolute_bounds(&self, arena: Arena) -> (r: Rect)
        requires
            self.wf(),
            arena.wf(),
        ensures
            r == self.absolute(arena),
            0 <= r.x <= MAX_EXTENT && 0 <= r.y <= MAX_EXTENT,
            0 <= r.w <= MAX_EXTENT && 0 <= r.h <= MAX_EXTENT,
    {
        proof {
            lemma_percent_of(self.bounds.x as int, arena.width as int);
            lemma_percent_of(self.bounds.y as int, arena.height as int);
            lemma_percent_of(self.bounds.w as int, arena.width as int);
            lemma_percent_of(self.bounds.h as int, arena.height as int);
        }
        Rect {
            x: self.bounds.x * arena.width / 100,
            y: self.bounds.y * arena.height / 100,
            w: self.bounds.w * arena.width / 100,
            h: self.bounds.h * arena.height / 100,
        }
    }

    /// Notes whether the pointer is over the button; a click there asks for
    /// the button's transition.
    pub fn update(&mut self, mouse: Vec2, click: bool, arena: Arena) -> (r: Option<Transition>)
        requires
            old(self).wf(),
            arena.wf(),
        ensures
            final(self).hovering == point_in(mouse, old(self).absolute(arena)),
            final(self).label == old(self).label,
            final(self).bounds == old(self).bounds,
            final(self).action == old(self).action,
            r == if final(self).hovering && click { Some(old(self).action) } else { None },
    {
        let b = self.get_absolute_bounds(arena);
        self.hovering = mouse.x >= b.x && mouse.x <= b.x + b.w && mouse.y >= b.y && mouse.y <= b.y + b.h;
        if self.hovering && click {
            return Some(self.action);
        }
        None
    }
}

} // verus!
