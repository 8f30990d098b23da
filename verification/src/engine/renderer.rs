//! The renderers: from places on the surface to drawing calls.
//!
//! A renderer draws on a recording [`Surface`], so it cannot fail; what its
//! calls do on a real canvas is the business of the host that replays them.

use vstd::prelude::*;
use crate::engine::surface::DrawOp;
use crate::engine::surface::Surface;
use crate::engine::surface::FULL_TURN;
use crate::engine::ContextModel;
use crate::engine::RenderContext;
use crate::view::view::StyleModel;

verus! {

/// Half a pixel: the width of the lines of the reference grid.
pub const GRID_LINE_WIDTH: i64 = 67_108_864;

/// The calls that set a surface up for drawing polygons in the style.
pub open spec fn spec_setup(style: StyleModel) -> Seq<DrawOp> {
    seq![
        DrawOp::SetFillStyle(style.polygon_fill),
        DrawOp::SetStrokeStyle(style.polygon_stroke),
        DrawOp::SetLineWidth(style.line_width),
    ]
}

/// The calls that draw one point: a path of one full circle, filled.
pub open spec fn spec_single_point(x: i64, y: i64, radius: i64) -> Seq<DrawOp> {
    seq![
        DrawOp::BeginPath,
        DrawOp::Arc { cx: x, cy: y, radius, start_angle: 0, end_angle: FULL_TURN },
        DrawOp::Fill,
    ]
}

/// The calls that draw one circle for each point, in order.
pub open spec fn spec_circles(points: Seq<(i64, i64)>, radius: i64) -> Seq<DrawOp> {
    Seq::new(
        3 * points.len(),
        |i: int|
            if i % 3 == 0 {
                DrawOp::BeginPath
            } else if i % 3 == 1 {
                DrawOp::Arc {
                    cx: points[i / 3].0,
                    cy: points[i / 3].1,
                    radius,
                    start_angle: 0,
                    end_angle: FULL_TURN,
                }
            } else {
                DrawOp::Fill
            },
    )
}

/// The calls that draw points: the fill color of points, then one filled
/// circle of the point radius for each point.
pub open spec fn spec_render_points(style: StyleModel, points: Seq<(i64, i64)>) -> Seq<DrawOp> {
    seq![DrawOp::SetFillStyle(style.point_color)] + spec_circles(points, style.point_radius)
}

/// The calls that trace a path through the points: a new path, a move to
/// the first point and a line to each further point. No call for no point.
pub open spec fn spec_draw_path(points: Seq<(i64, i64)>) -> Seq<DrawOp> {
    if points.len() == 0 {
        Seq::empty()
    } else {
        Seq::new(
            points.len() + 1,
            |i: int|
                if i == 0 {
                    DrawOp::BeginPath
                } else if i == 1 {
                    DrawOp::MoveTo { x: points[0].0, y: points[0].1 }
                } else {
                    DrawOp::LineTo { x: points[i - 1].0, y: points[i - 1].1 }
                },
        )
    }
}

/// The calls that draw a line: stroke color and width, the path, the
/// stroke. No call for no point.
pub open spec fn spec_render_linestring(style: StyleModel, points: Seq<(i64, i64)>) -> Seq<DrawOp> {
    if points.len() == 0 {
        Seq::empty()
    } else {
        seq![DrawOp::SetStrokeStyle(style.line_color), DrawOp::SetLineWidth(style.line_width)]
            + spec_draw_path(points) + seq![DrawOp::Stroke]
    }
}

/// The calls that draw a polygon from its exterior ring: fill color, stroke
/// color and width, the path, its closing, the fill and then the stroke.
/// No call for no point.
pub open spec fn spec_render_polygon(style: StyleModel, points: Seq<(i64, i64)>) -> Seq<DrawOp> {
    if points.len() == 0 {
        Seq::empty()
    } else {
        spec_setup(style) + spec_draw_path(points) + seq![
            DrawOp::ClosePath,
            DrawOp::Fill,
            DrawOp::Stroke,
        ]
    }
}

/// Sets the surface up for drawing polygons in the style of the context.
pub fn setup_canvas_context(surface: &mut Surface, render_context: &RenderContext)
    ensures
        final(surface)@ == old(surface)@ + spec_setup(render_context@.style),
{
    surface.set_fill_style(render_context.style.polygon_fill.as_str());
    surface.set_stroke_style(render_context.style.polygon_stroke.as_str());
    surface.set_line_width(render_context.style.line_width);
    assert(surface@ =~= old(surface)@ + spec_setup(render_context@.style));
}

/// Draws one point as a filled circle.
pub fn render_single_point(x: i64, y: i64, radius: i64, surface: &mut Surface)
    ensures
        final(surface)@ == old(surface)@ + spec_single_point(x, y, radius),
{
    surface.begin_path();
    surface.arc(x, y, radius, 0, FULL_TURN);
    surface.fill();
    assert(surface@ =~= old(surface)@ + spec_single_point(x, y, radius));
}

/// Draws the points as filled circles in the point color and radius of the
/// style.
pub fn render_points(points: &Vec<(i64, i64)>, render_context: &RenderContext, surface: &mut Surface)
    ensures
        final(surface)@ == old(surface)@ + spec_render_points(render_context@.style, points@),
{
    let radius: i64 = render_context.style.point_radius;
    surface.set_fill_style(render_context.style.point_color.as_str());
    let ghost start = surface@;
    let mut i: usize = 0;
    while i < points.len()
        invariant
            i <= points.len(),
            radius == render_context@.style.point_radius,
            surface@ == start + spec_circles(points@.take(i as int), radius),
        decreases points.len() - i,
    {
        let (x, y) = points[i];
        let ghost before = surface@;
        render_single_point(x, y, radius, surface);
        proof {
            let done = spec_circles(points@.take(i as int), radius);
            let next = spec_circles(points@.take(i + 1), radius);
            assert(done + spec_single_point(x, y, radius) =~= next);
            assert(surface@ =~= start + next);
        }
        i += 1;
    }
    proof {
        assert(points@.take(i as int) =~= points@);
        assert(surface@ =~= old(surface)@ + spec_render_points(render_context@.style, points@));
    }
}

/// Traces a path through the points.
pub fn draw_path(points: &Vec<(i64, i64)>, surface: &mut Surface)
    ensures
        final(surface)@ == old(surface)@ + spec_draw_path(points@),
{
    if points.len() == 0 {
        assert(surface@ =~= old(surface)@ + spec_draw_path(points@));
        return ;
    }
    let (first_x, first_y) = points[0];
    surface.begin_path();
    surface.move_to(first_x, first_y);
    let mut i: usize = 1;
    while i < points.len()
        invariant
            1 <= i <= points.len(),
            surface@ == old(surface)@ + spec_draw_path(points@.take(i as int)),
        decreases points.len() - i,
    {
        let (x, y) = points[i];
        surface.line_to(x, y);
        proof {
            let done = spec_draw_path(points@.take(i as int));
            let next = spec_draw_path(points@.take(i + 1));
            assert(done.push(DrawOp::LineTo { x, y }) =~= next);
            assert(surface@ =~= old(surface)@ + next);
        }
        i += 1;
    }
    assert(points@.take(i as int) =~= points@);
}

/// Draws a line through the points in the line color and width of the
/// style. An empty list draws nothing.
pub fn render_linestring(points: &Vec<(i64, i64)>, render_context: &RenderContext, surface: &mut Surface)
    ensures
        final(surface)@ == old(surface)@ + spec_render_linestring(
            render_context@.style,
            points@,
        ),
{
    if points.len() == 0 {
        assert(surface@ =~= old(surface)@ + Seq::<DrawOp>::empty());
        return ;
    }
    surface.set_stroke_style(render_context.style.line_color.as_str());
    surface.set_line_width(render_context.style.line_width);
    draw_path(points, surface);
    surface.stroke();
    assert(surface@ =~= old(surface)@ + spec_render_linestring(render_context@.style, points@));
}

/// Draws a polygon from the points of its exterior ring: filled first and
/// outlined after. An empty list draws nothing.
pub fn render_polygon(points: &Vec<(i64, i64)>, render_context: &RenderContext, surface: &mut Surface)
    ensures
        final(surface)@ == old(surface)@ + spec_render_polygon(render_context@.style, points@),
{
    if points.len() == 0 {
        assert(surface@ =~= old(surface)@ + Seq::<DrawOp>::empty());
        return ;
    }
    setup_canvas_context(surface, render_context);
    draw_path(points, surface);
    surface.close_path();
    surface.fill();
    surface.stroke();
    assert(surface@ =~= old(surface)@ + spec_render_polygon(render_context@.style, points@));
}

/// Clears a surface of the given size.
pub fn clear_canvas(surface: &mut Surface, size: (i64, i64))
    ensures
        final(surface)@ == old(surface)@.push(
            DrawOp::ClearRect { x: 0, y: 0, width: size.0, height: size.1 },
        ),
{
    surface.clear(size.0, size.1);
}

/// Paints a surface of the given size in one color.
pub fn draw_background(surface: &mut Surface, size: (i64, i64), color: &str)
    ensures
        final(surface)@ == old(surface)@ + seq![
            DrawOp::SetFillStyle(color@),
            DrawOp::FillRect { x: 0, y: 0, width: size.0, height: size.1 },
        ],
{
    surface.set_fill_style(color);
    surface.fill_rect(size.0, size.1);
    assert(surface@ =~= old(surface)@ + seq![
        DrawOp::SetFillStyle(color@),
        DrawOp::FillRect { x: 0, y: 0, width: size.0, height: size.1 },
    ]);
}

/// The number of grid lines across an extent: one at 0 and one at each
/// further multiple of the spacing up to the extent; none for a negative
/// extent.
pub open spec fn spec_grid_line_count(extent: i64, spacing: i64) -> int {
    if extent < 0 {
        0
    } else {
        extent as int / spacing as int + 1
    }
}

/// The calls that draw the grid lines across an extent, each line a path of
/// its own from 0 to `length` in the other direction. A vertical line
/// stands at an x, a horizontal one lies at a y.
pub open spec fn spec_grid_lines(extent: i64, length: i64, spacing: i64, vertical: bool) -> Seq<
    DrawOp,
> {
    Seq::new(
        (4 * spec_grid_line_count(extent, spacing)) as nat,
        |i: int|
            {
                let at = ((i / 4) * spacing) as i64;
                if i % 4 == 0 {
                    DrawOp::BeginPath
                } else if i % 4 == 1 {
                    if vertical {
                        DrawOp::MoveTo { x: at, y: 0 }
                    } else {
                        DrawOp::MoveTo { x: 0, y: at }
                    }
                } else if i % 4 == 2 {
                    if vertical {
                        DrawOp::LineTo { x: at, y: length }
                    } else {
                        DrawOp::LineTo { x: length, y: at }
                    }
                } else {
                    DrawOp::Stroke
                }
            },
    )
}

/// The calls that draw the reference grid: grey lines half a pixel wide,
/// the vertical ones first.
pub open spec fn spec_draw_grid(size: (i64, i64), spacing: i64) -> Seq<DrawOp> {
    seq![DrawOp::SetStrokeStyle("#cccccc"@), DrawOp::SetLineWidth(GRID_LINE_WIDTH)]
        + spec_grid_lines(size.0, size.1, spacing, true) + spec_grid_lines(
        size.1,
        size.0,
        spacing,
        false,
    )
}

/// Draws the grid lines across one extent.
fn draw_grid_lines(surface: &mut Surface, extent: i64, length: i64, spacing: i64, vertical: bool)
    requires
        spacing > 0,
    ensures
        final(surface)@ == old(surface)@ + spec_grid_lines(extent, length, spacing, vertical),
{
    let ghost count = spec_grid_line_count(extent, spacing);
    let ghost want = spec_grid_lines(extent, length, spacing, vertical);
    if extent < 0 {
        assert(surface@ =~= old(surface)@ + want);
        return ;
    }
    proof {
        vstd::arithmetic::div_mod::lemma_fundamental_div_mod(extent as int, spacing as int);
        crate::fixed::lemma_quotient_bound(extent as int, spacing as int);
    }
    let mut at: i64 = 0;
    let ghost mut k: int = 0;
    loop
        invariant_except_break
            0 <= k < count,
            at == k * spacing,
            0 <= at <= extent,
            surface@ == old(surface)@ + want.take(4 * k),
        invariant
            spacing > 0,
            extent >= 0,
            count == extent as int / spacing as int + 1,
            want == spec_grid_lines(extent, length, spacing, vertical),
        ensures
            surface@ == old(surface)@ + want,
        decreases count - k,
    {
        surface.begin_path();
        if vertical {
            surface.move_to(at, 0);
            surface.line_to(at, length);
        } else {
            surface.move_to(0, at);
            surface.line_to(length, at);
        }
        surface.stroke();
        proof {
            assert(4 * k + 3 < want.len());
            assert(want[4 * k] == DrawOp::BeginPath);
            assert((4 * k + 1) / 4 == k && (4 * k + 2) / 4 == k);
            assert(surface@ =~= old(surface)@ + want.take(4 * (k + 1)));
        }
        if at > extent - spacing {
            proof {
                // No further multiple of the spacing fits: this was the last line.
                vstd::arithmetic::div_mod::lemma_fundamental_div_mod_converse(
                    extent as int,
                    spacing as int,
                    k,
                    extent - at,
                );
                assert(want.take(4 * (k + 1)) =~= want);
            }
            break ;
        }
        proof {
            assert((k + 1) * spacing == at + spacing) by (nonlinear_arith)
                requires
                    at == k * spacing,
            ;
            let q = extent as int / spacing as int;
            let r = extent as int % spacing as int;
            vstd::arithmetic::div_mod::lemma_fundamental_div_mod(extent as int, spacing as int);
            assert(k + 1 <= q) by (nonlinear_arith)
                requires
                    (k + 1) * spacing <= extent,
                    extent == spacing * q + r,
                    0 <= r < spacing,
            ;
            k = k + 1;
        }
        at = at + spacing;
    }
}

/// Draws a reference grid over a surface of the given size: a line at 0 and
/// at every multiple of the spacing up to the size, first across the width
/// and then across the height. The spacing must be positive.
pub fn draw_grid(surface: &mut Surface, size: (i64, i64), spacing: i64)
    requires
        spacing > 0,
    ensures
        final(surface)@ == old(surface)@ + spec_draw_grid(size, spacing),
{
    surface.set_stroke_style("#cccccc");
    surface.set_line_width(GRID_LINE_WIDTH);
    draw_grid_lines(surface, size.0, size.1, spacing, true);
    draw_grid_lines(surface, size.1, size.0, spacing, false);
    assert(surface@ =~= old(surface)@ + spec_draw_grid(size, spacing));
}

} // verus!
