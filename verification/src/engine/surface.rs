//! The drawing surface: the primitive calls of a 2D canvas, recorded in the
//! order in which they are issued.
//!
//! The engine draws on a [`Surface`] and never on a screen. A host replays
//! the recorded calls on its own canvas; a call that fails there ends the
//! replay, and what was drawn before stays on the canvas.

use vstd::prelude::*;
use vstd::string::StringExecFns;

verus! {

/// A full turn in radians, 2 pi, as a fixed-point number.
pub const FULL_TURN: i64 = 843_314_857;

/// One primitive call on a 2D canvas. Lengths, coordinates and angles are
/// fixed-point numbers; colors are CSS color strings.
#[derive(Debug, PartialEq, Eq)]
pub enum DrawCall {
    ClearRect { x: i64, y: i64, width: i64, height: i64 },
    FillRect { x: i64, y: i64, width: i64, height: i64 },
    SetFillStyle(String),
    SetStrokeStyle(String),
    SetLineWidth(i64),
    BeginPath,
    MoveTo { x: i64, y: i64 },
    LineTo { x: i64, y: i64 },
    ClosePath,
    Arc { cx: i64, cy: i64, radius: i64, start_angle: i64, end_angle: i64 },
    Fill,
    Stroke,
}

/// A drawing call as a mathematical value.
pub enum DrawOp {
    ClearRect { x: i64, y: i64, width: i64, height: i64 },
    FillRect { x: i64, y: i64, width: i64, height: i64 },
    SetFillStyle(Seq<char>),
    SetStrokeStyle(Seq<char>),
    SetLineWidth(i64),
    BeginPath,
    MoveTo { x: i64, y: i64 },
    LineTo { x: i64, y: i64 },
    ClosePath,
    Arc { cx: i64, cy: i64, radius: i64, start_angle: i64, end_angle: i64 },
    Fill,
    Stroke,
}

impl View for DrawCall {
    type V = DrawOp;

    open spec fn view(&self) -> DrawOp {
        match self {
            DrawCall::ClearRect { x, y, width, height } => DrawOp::ClearRect {
                x: *x,
                y: *y,
                width: *width,
                height: *height,
            },
            DrawCall::FillRect { x, y, width, height } => DrawOp::FillRect {
                x: *x,
                y: *y,
                width: *width,
                height: *height,
            },
            DrawCall::SetFillStyle(color) => DrawOp::SetFillStyle(color@),
            DrawCall::SetStrokeStyle(color) => DrawOp::SetStrokeStyle(color@),
            DrawCall::SetLineWidth(width) => DrawOp::SetLineWidth(*width),
            DrawCall::BeginPath => DrawOp::BeginPath,
            DrawCall::MoveTo { x, y } => DrawOp::MoveTo { x: *x, y: *y },
            DrawCall::LineTo { x, y } => DrawOp::LineTo { x: *x, y: *y },
            DrawCall::ClosePath => DrawOp::ClosePath,
            DrawCall::Arc { cx, cy, radius, start_angle, end_angle } => DrawOp::Arc {
                cx: *cx,
                cy: *cy,
                radius: *radius,
                start_angle: *start_angle,
                end_angle: *end_angle,
            },
            DrawCall::Fill => DrawOp::Fill,
            DrawCall::Stroke => DrawOp::Stroke,
        }
    }
}

impl DeepView for DrawCall {
    type V = DrawOp;

    open spec fn deep_view(&self) -> DrawOp {
        self@
    }
}

/// A surface that records the calls made on it.
#[derive(Debug)]
pub struct Surface {
    pub calls: Vec<DrawCall>,
}

impl View for Surface {
    type V = Seq<DrawOp>;

    /// The calls made so far, in order.
    open spec fn view(&self) -> Seq<DrawOp> {
        self.calls.deep_view()
    }
}

impl Surface {
    /// A surface on which nothing was drawn yet.
    pub fn new() -> (surface: Surface)
        ensures
            surface@ == Seq::<DrawOp>::empty(),
    {
        let surface = Surface { calls: Vec::new() };
        assert(surface@ =~= Seq::empty());
        surface
    }

    /// Records one call.
    pub fn issue(&mut self, call: DrawCall)
        ensures
            final(self)@ == old(self)@.push(call@),
    {
        self.calls.push(call);
        assert(self@ =~= old(self)@.push(call@));
    }

    /// Records the calls of another surface after those of this one.
    pub fn absorb(&mut self, other: Surface)
        ensures
            final(self)@ == old(self)@ + other@,
    {
        let mut other = other;
        let ghost added = other@;
        self.calls.append(&mut other.calls);
        assert(self@ =~= old(self)@ + added);
    }

    /// Clears the rectangle from the origin to (`width`, `height`).
    pub fn clear(&mut self, width: i64, height: i64)
        ensures
            final(self)@ == old(self)@.push(DrawOp::ClearRect { x: 0, y: 0, width, height }),
    {
        self.issue(DrawCall::ClearRect { x: 0, y: 0, width, height });
    }

    /// Fills the rectangle from the origin to (`width`, `height`).
    pub fn fill_rect(&mut self, width: i64, height: i64)
        ensures
            final(self)@ == old(self)@.push(DrawOp::FillRect { x: 0, y: 0, width, height }),
    {
        self.issue(DrawCall::FillRect { x: 0, y: 0, width, height });
    }

    pub fn set_fill_style(&mut self, color: &str)
        ensures
            final(self)@ == old(self)@.push(DrawOp::SetFillStyle(color@)),
    {
        self.issue(DrawCall::SetFillStyle(String::from_str(color)));
    }

    pub fn set_stroke_style(&mut self, color: &str)
        ensures
            final(self)@ == old(self)@.push(DrawOp::SetStrokeStyle(color@)),
    {
        self.issue(DrawCall::SetStrokeStyle(String::from_str(color)));
    }

    pub fn set_line_width(&mut self, width: i64)
        ensures
            final(self)@ == old(self)@.push(DrawOp::SetLineWidth(width)),
    {
        self.issue(DrawCall::SetLineWidth(width));
    }

    pub fn begin_path(&mut self)
        ensures
            final(self)@ == old(self)@.push(DrawOp::BeginPath),
    {
        self.issue(DrawCall::BeginPath);
    }

    pub fn move_to(&mut self, x: i64, y: i64)
        ensures
            final(self)@ == old(self)@.push(DrawOp::MoveTo { x, y }),
    {
        self.issue(DrawCall::MoveTo { x, y });
    }

    pub fn line_to(&mut self, x: i64, y: i64)
        ensures
            final(self)@ == old(self)@.push(DrawOp::LineTo { x, y }),
    {
        self.issue(DrawCall::LineTo { x, y });
    }

    pub fn close_path(&mut self)
        ensures
            final(self)@ == old(self)@.push(DrawOp::ClosePath),
    {
        self.issue(DrawCall::ClosePath);
    }

    pub fn arc(&mut self, cx: i64, cy: i64, radius: i64, start_angle: i64, end_angle: i64)
        ensures
            final(self)@ == old(self)@.push(
                DrawOp::Arc { cx, cy, radius, start_angle, end_angle },
            ),
    {
        self.issue(DrawCall::Arc { cx, cy, radius, start_angle, end_angle });
    }

    pub fn fill(&mut self)
        ensures
            final(self)@ == old(self)@.push(DrawOp::Fill),
    {
        self.issue(DrawCall::Fill);
    }

    pub fn stroke(&mut self)
        ensures
            final(self)@ == old(self)@.push(DrawOp::Stroke),
    {
        self.issue(DrawCall::Stroke);
    }
}

} // verus!
