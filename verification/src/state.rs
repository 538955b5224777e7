use vstd::prelude::*;

use crate::config::{close_key_label, close_key_label_spec, CloseKey};

verus! {

/// What a pointer drag and most keys do.
#[derive(Debug, Clone, Copy, PartialEq, Eq, Structural)]
pub enum InteractionMode {
    Navigate,
    AnnotateZoomed,
    AnnotateUnzoomed,
    /// Shows the color under the pointer; a left click copies it.
    ColorPicker,
}

impl Default for InteractionMode {
    fn default() -> (mode: Self)
        ensures
            mode == InteractionMode::Navigate,
    {
        InteractionMode::Navigate
    }
}

pub open spec fn is_annotating_spec(mode: InteractionMode) -> bool {
    mode == InteractionMode::AnnotateZoomed || mode == InteractionMode::AnnotateUnzoomed
}

/// Title of the indicator badge in each annotation mode.
pub open spec fn annotate_badge_title_spec(mode: InteractionMode) -> Seq<char> {
    match mode {
        InteractionMode::AnnotateZoomed => "DRAW"@,
        InteractionMode::AnnotateUnzoomed => "DRAW NO ZOOM"@,
        InteractionMode::Navigate => "NAVIGATE"@,
        InteractionMode::ColorPicker => "COLOR PICKER"@,
    }
}

/// Accent color of the first badge hint line.
pub const BADGE_ACCENT: u32 = 0xFFFF_C83D;
/// Color of the other badge hint lines.
pub const BADGE_TEXT: u32 = 0xFFF4_F4F4;

/// One hint line of the indicator badge.
#[derive(Debug, Clone)]
pub struct BadgeLine {
    pub label: &'static str,
    pub text: String,
    pub color: u32,
}

/// Content of the indicator badge.
#[derive(Debug, Clone)]
pub struct BadgeModel {
    pub title: String,
    pub subtitle: String,
    pub lines: [BadgeLine; 3],
}

/// A badge line as plain text: label, text and color.
pub open spec fn line_is(line: BadgeLine, label: Seq<char>, text: Seq<char>, color: u32) -> bool {
    line.label@ == label && line.text@ == text && line.color == color
}

/// The badge shown for a mode, the effective tool and the close key.
pub open spec fn badge_matches(
    badge: BadgeModel,
    mode: InteractionMode,
    tool: AnnotationTool,
    close_key: Option<CloseKey>,
) -> bool {
    let l = badge.lines@;
    &&& l.len() == 3
    &&& match mode {
        InteractionMode::Navigate => {
            &&& badge.title@ == "NAVIGATE"@
            &&& badge.subtitle@ == "View controls and quick entry points"@
            &&& line_is(l[0], "MODE"@, "D draw  W draw no zoom"@, BADGE_ACCENT)
            &&& line_is(l[1], "VIEW"@, "+/- zoom  arrows pan  0 reset"@, BADGE_TEXT)
            &&& line_is(l[2], "OTHER"@,
                "S save  Ctrl+C copy  F/[ ]  "@ + close_key_label_spec(close_key) + " close"@,
                BADGE_TEXT)
        },
        InteractionMode::ColorPicker => {
            &&& badge.title@ == "COLOR PICKER"@
            &&& badge.subtitle@ == "Color under the pointer"@
            &&& line_is(l[0], "CLICK"@, "Left click copies the hex"@, BADGE_ACCENT)
            &&& line_is(l[1], "MOVE"@, "Move to update the swatch"@, BADGE_TEXT)
            &&& line_is(l[2], "EXIT"@, "I or Esc back  Right click exit"@, BADGE_TEXT)
        },
        _ => {
            &&& badge.title@ == annotate_badge_title_spec(mode)
            &&& match tool {
                AnnotationTool::Move => {
                    &&& badge.subtitle@ == "Modifier: MOVE"@
                    &&& line_is(l[0], "DRAG"@, "Drag existing annotation"@, BADGE_ACCENT)
                    &&& line_is(l[1], "NEXT"@, "P/H/L/R/E draw  T text"@, BADGE_TEXT)
                    &&& line_is(l[2], "EDIT"@, "U undo  C clear  Esc back"@, BADGE_TEXT)
                },
                AnnotationTool::Text => {
                    &&& badge.subtitle@ == "Modifier: TEXT"@
                    &&& line_is(l[0], "PLACE"@, "Click to place text"@, BADGE_ACCENT)
                    &&& line_is(l[1], "TEXT"@, "Type  Bksp delete  Enter commit"@, BADGE_TEXT)
                    &&& line_is(l[2], "EDIT"@, "M move  U undo  C clear  Esc back"@, BADGE_TEXT)
                },
                _ => {
                    &&& badge.subtitle@ == "Tool: "@ + tool_label_spec(tool)
                    &&& line_is(l[0], "DRAG"@, "Drag to draw"@, BADGE_ACCENT)
                    &&& line_is(l[1], "TOOL"@, "P/H paint  L/R/E shape"@, BADGE_TEXT)
                    &&& line_is(l[2], "EDIT"@, "M move  T text  U/C edit  Esc back"@, BADGE_TEXT)
                },
            }
        },
    }
}

impl BadgeLine {
    pub fn new(label: &'static str, text: &str, color: u32) -> (line: Self)
        ensures
            line.label == label,
            line.text@ == text@,
            line.color == color,
    {
        BadgeLine { label, text: owned(text), color }
    }
}

fn owned(s: &str) -> (r: String)
    ensures
        r@ == s@,
{
    s.to_owned()
}

impl InteractionMode {
    pub fn is_annotating(self) -> (annotating: bool)
        ensures
            annotating == is_annotating_spec(self),
    {
        matches!(self, InteractionMode::AnnotateZoomed | InteractionMode::AnnotateUnzoomed)
    }

    fn annotate_badge_title(self) -> (title: &'static str)
        ensures
            title@ == annotate_badge_title_spec(self),
    {
        match self {
            InteractionMode::AnnotateZoomed => "DRAW",
            InteractionMode::AnnotateUnzoomed => "DRAW NO ZOOM",
            InteractionMode::Navigate => "NAVIGATE",
            InteractionMode::ColorPicker => "COLOR PICKER",
        }
    }

    /// The indicator badge for this mode.
    pub fn badge(self, tool: AnnotationTool, close_key: Option<CloseKey>) -> (badge: BadgeModel)
        ensures
            badge_matches(badge, self, tool, close_key),
    {
        match self {
            InteractionMode::Navigate => {
                let mut other = owned("S save  Ctrl+C copy  F/[ ]  ");
                other.append(close_key_label(close_key));
                other.append(" close");
                BadgeModel {
                    title: owned("NAVIGATE"),
                    subtitle: owned("View controls and quick entry points"),
                    lines: [
                        BadgeLine::new("MODE", "D draw  W draw no zoom", BADGE_ACCENT),
                        BadgeLine::new("VIEW", "+/- zoom  arrows pan  0 reset", BADGE_TEXT),
                        BadgeLine::new("OTHER", other.as_str(), BADGE_TEXT),
                    ],
                }
            },
            InteractionMode::ColorPicker => BadgeModel {
                title: owned("COLOR PICKER"),
                subtitle: owned("Color under the pointer"),
                lines: [
                    BadgeLine::new("CLICK", "Left click copies the hex", BADGE_ACCENT),
                    BadgeLine::new("MOVE", "Move to update the swatch", BADGE_TEXT),
                    BadgeLine::new("EXIT", "I or Esc back  Right click exit", BADGE_TEXT),
                ],
            },
            _ => {
                let title = owned(self.annotate_badge_title());
                match tool {
                    AnnotationTool::Move => BadgeModel {
                        title,
                        subtitle: owned("Modifier: MOVE"),
                        lines: [
                            BadgeLine::new("DRAG", "Drag existing annotation", BADGE_ACCENT),
                            BadgeLine::new("NEXT", "P/H/L/R/E draw  T text", BADGE_TEXT),
                            BadgeLine::new("EDIT", "U undo  C clear  Esc back", BADGE_TEXT),
                        ],
                    },
                    AnnotationTool::Text => BadgeModel {
                        title,
                        subtitle: owned("Modifier: TEXT"),
                        lines: [
                            BadgeLine::new("PLACE", "Click to place text", BADGE_ACCENT),
                            BadgeLine::new("TEXT", "Type  Bksp delete  Enter commit", BADGE_TEXT),
                            BadgeLine::new("EDIT", "M move  U undo  C clear  Esc back", BADGE_TEXT),
                        ],
                    },
                    _ => {
                        let mut subtitle = owned("Tool: ");
                        subtitle.append(tool.label());
                        BadgeModel {
                            title,
                            subtitle,
                            lines: [
                                BadgeLine::new("DRAG", "Drag to draw", BADGE_ACCENT),
                                BadgeLine::new("TOOL", "P/H paint  L/R/E shape", BADGE_TEXT),
                                BadgeLine::new("EDIT", "M move  T text  U/C edit  Esc back", BADGE_TEXT),
                            ],
                        }
                    },
                }
            },
        }
    }
}

/// Drawing tools and the two modifiers (move, text).
#[derive(Debug, Clone, Copy, PartialEq, Eq, Structural)]
pub enum AnnotationTool {
    Pen,
    Highlighter,
    Move,
    Text,
    Line,
    Rectangle,
    Ellipse,
}

impl Default for AnnotationTool {
    fn default() -> (tool: Self)
        ensures
            tool == AnnotationTool::Pen,
    {
        AnnotationTool::Pen
    }
}

pub open spec fn tool_label_spec(tool: AnnotationTool) -> Seq<char> {
    match tool {
        AnnotationTool::Pen => "PEN"@,
        AnnotationTool::Highlighter => "HILITE"@,
        AnnotationTool::Move => "MOVE"@,
        AnnotationTool::Text => "TEXT"@,
        AnnotationTool::Line => "LINE"@,
        AnnotationTool::Rectangle => "RECT"@,
        AnnotationTool::Ellipse => "ELLIPSE"@,
    }
}

pub open spec fn tool_color_spec(tool: AnnotationTool) -> u32 {
    match tool {
        AnnotationTool::Pen | AnnotationTool::Line => 0xFFFF_4F5E,
        AnnotationTool::Highlighter => 0x8888_7829,
        AnnotationTool::Move => 0xFFFF_C83D,
        AnnotationTool::Text => 0xFFFF_FFFF,
        AnnotationTool::Rectangle => 0xFF48_C78E,
        AnnotationTool::Ellipse => 0xFF5B_8DEF,
    }
}

pub open spec fn tool_stroke_width_spec(tool: AnnotationTool) -> usize {
    match tool {
        AnnotationTool::Pen | AnnotationTool::Line => 4,
        AnnotationTool::Highlighter => 18,
        AnnotationTool::Move => 1,
        AnnotationTool::Text => 4,
        AnnotationTool::Rectangle | AnnotationTool::Ellipse => 5,
    }
}

pub open spec fn tool_shape_kind_spec(tool: AnnotationTool) -> Option<AnnotationShapeKind> {
    match tool {
        AnnotationTool::Line => Some(AnnotationShapeKind::Line),
        AnnotationTool::Rectangle => Some(AnnotationShapeKind::Rectangle),
        AnnotationTool::Ellipse => Some(AnnotationShapeKind::Ellipse),
        _ => None,
    }
}

impl AnnotationTool {
    pub fn label(self) -> (label: &'static str)
        ensures
            label@ == tool_label_spec(self),
    {
        match self {
            AnnotationTool::Pen => "PEN",
            AnnotationTool::Highlighter => "HILITE",
            AnnotationTool::Move => "MOVE",
            AnnotationTool::Text => "TEXT",
            AnnotationTool::Line => "LINE",
            AnnotationTool::Rectangle => "RECT",
            AnnotationTool::Ellipse => "ELLIPSE",
        }
    }

    pub fn color(self) -> (color: u32)
        ensures
            color == tool_color_spec(self),
    {
        match self {
            AnnotationTool::Pen | AnnotationTool::Line => 0xFFFF_4F5E,
            AnnotationTool::Highlighter => 0x8888_7829,
            AnnotationTool::Move => 0xFFFF_C83D,
            AnnotationTool::Text => 0xFFFF_FFFF,
            AnnotationTool::Rectangle => 0xFF48_C78E,
            AnnotationTool::Ellipse => 0xFF5B_8DEF,
        }
    }

    pub fn stroke_width(self) -> (width: usize)
        ensures
            width == tool_stroke_width_spec(self),
    {
        match self {
            AnnotationTool::Pen | AnnotationTool::Line => 4,
            AnnotationTool::Highlighter => 18,
            AnnotationTool::Move => 1,
            AnnotationTool::Text => 4,
            AnnotationTool::Rectangle | AnnotationTool::Ellipse => 5,
        }
    }

    pub fn shape_kind(self) -> (kind: Option<AnnotationShapeKind>)
        ensures
            kind == tool_shape_kind_spec(self),
    {
        match self {
            AnnotationTool::Line => Some(AnnotationShapeKind::Line),
            AnnotationTool::Rectangle => Some(AnnotationShapeKind::Rectangle),
            AnnotationTool::Ellipse => Some(AnnotationShapeKind::Ellipse),
            AnnotationTool::Pen | AnnotationTool::Highlighter | AnnotationTool::Move
            | AnnotationTool::Text => None,
        }
    }
}

/// A point in output buffer coordinates.
#[derive(Debug, Clone, Copy, PartialEq, Eq, Structural)]
pub struct AnnotationPoint {
    pub x: i32,
    pub y: i32,
}

pub open spec fn fits_i32(v: int) -> bool {
    i32::MIN <= v <= i32::MAX
}

pub open spec fn offset_fits(p: AnnotationPoint, dx: int, dy: int) -> bool {
    fits_i32(p.x + dx) && fits_i32(p.y + dy)
}

pub open spec fn offset_spec(p: AnnotationPoint, dx: int, dy: int) -> AnnotationPoint {
    AnnotationPoint { x: (p.x + dx) as i32, y: (p.y + dy) as i32 }
}

impl AnnotationPoint {
    pub fn offset(self, dx: i32, dy: i32) -> (moved: Self)
        requires
            offset_fits(self, dx as int, dy as int),
        ensures
            moved == offset_spec(self, dx as int, dy as int),
            moved.x == self.x + dx,
            moved.y == self.y + dy,
    {
        AnnotationPoint { x: self.x + dx, y: self.y + dy }
    }
}

#[derive(Debug, Clone, Copy, PartialEq, Eq, Structural)]
pub enum AnnotationShapeKind {
    Line,
    Rectangle,
    Ellipse,
}

/// A freehand stroke through its points.
#[derive(Debug, Clone)]
pub struct StrokeAnnotation {
    pub points: Vec<AnnotationPoint>,
    pub color: u32,
    pub width: usize,
}

/// A line, rectangle or ellipse spanned by two corners.
#[derive(Debug, Clone)]
pub struct ShapeAnnotation {
    pub kind: AnnotationShapeKind,
    pub start: AnnotationPoint,
    pub end: AnnotationPoint,
    pub color: u32,
    pub width: usize,
}

/// A text label whose top-left corner is `position`.
#[derive(Debug, Clone)]
pub struct TextAnnotation {
    pub position: AnnotationPoint,
    pub text: String,
    pub color: u32,
    pub scale: usize,
}

/// A committed annotation.
#[derive(Debug, Clone)]
pub enum AnnotationItem {
    Stroke(StrokeAnnotation),
    Shape(ShapeAnnotation),
    Text(TextAnnotation),
}

/// An annotation being dragged by the move modifier.
#[derive(Debug, Clone, Copy)]
pub struct ActiveMove {
    pub annotation_index: usize,
    pub last_point: AnnotationPoint,
}

/// Mathematical content of an annotation.
pub enum AnnotationItemView {
    Stroke { points: Seq<AnnotationPoint>, color: u32, width: usize },
    Shape { kind: AnnotationShapeKind, start: AnnotationPoint, end: AnnotationPoint, color: u32, width: usize },
    Text { position: AnnotationPoint, text: Seq<char>, color: u32, scale: usize },
}

impl View for AnnotationItem {
    type V = AnnotationItemView;

    open spec fn view(&self) -> AnnotationItemView {
        match self {
            AnnotationItem::Stroke(s) => AnnotationItemView::Stroke { points: s.points@, color: s.color, width: s.width },
            AnnotationItem::Shape(s) => AnnotationItemView::Shape { kind: s.kind, start: s.start, end: s.end, color: s.color, width: s.width },
            AnnotationItem::Text(t) => AnnotationItemView::Text { position: t.position, text: t.text@, color: t.color, scale: t.scale },
        }
    }
}

/// Whether every point of the annotation stays in `i32` range when moved by (dx, dy).
pub open spec fn translate_fits(item: AnnotationItemView, dx: int, dy: int) -> bool {
    match item {
        AnnotationItemView::Stroke { points, .. } => forall|i: int| 0 <= i < points.len() ==> #[trigger] offset_fits(points[i], dx, dy),
        AnnotationItemView::Shape { start, end, .. } => offset_fits(start, dx, dy) && offset_fits(end, dx, dy),
        AnnotationItemView::Text { position, .. } => offset_fits(position, dx, dy),
    }
}

/// Every point moved by (dx, dy).
pub open spec fn offset_points(points: Seq<AnnotationPoint>, dx: int, dy: int) -> Seq<AnnotationPoint> {
    Seq::new(points.len(), |i: int| offset_spec(points[i], dx, dy))
}

/// The annotation moved by (dx, dy).
pub open spec fn translated(item: AnnotationItemView, dx: int, dy: int) -> AnnotationItemView {
    match item {
        AnnotationItemView::Stroke { points, color, width } => AnnotationItemView::Stroke {
            points: offset_points(points, dx, dy),
            color,
            width,
        },
        AnnotationItemView::Shape { kind, start, end, color, width } => AnnotationItemView::Shape {
            kind,
            start: offset_spec(start, dx, dy),
            end: offset_spec(end, dx, dy),
            color,
            width,
        },
        AnnotationItemView::Text { position, text, color, scale } => AnnotationItemView::Text {
            position: offset_spec(position, dx, dy),
            text,
            color,
            scale,
        },
    }
}

impl AnnotationItem {
    /// Moves every point of the annotation by (dx, dy).
    pub fn translate(&mut self, dx: i32, dy: i32)
        requires
            translate_fits(old(self)@, dx as int, dy as int),
        ensures
            final(self)@ == translated(old(self)@, dx as int, dy as int),
    {
        match self {
            AnnotationItem::Stroke(stroke) => {
                let n = stroke.points.len();
                let ghost old_points = stroke.points@;
                let ghost old_color = stroke.color;
                let ghost old_width = stroke.width;
                let mut i: usize = 0;
                while i < n
                    invariant
                        n == old_points.len(),
                        stroke.points@.len() == n,
                        stroke.color == old_color,
                        stroke.width == old_width,
                        i <= n,
                        forall|j: int| 0 <= j < n ==> #[trigger] offset_fits(old_points[j], dx as int, dy as int),
                        forall|j: int| 0 <= j < i ==> stroke.points@[j] == offset_spec(old_points[j], dx as int, dy as int),
                        forall|j: int| i <= j < n ==> stroke.points@[j] == old_points[j],
                    decreases n - i,
                {
                    let p = stroke.points[i];
                    assert(offset_fits(old_points[i as int], dx as int, dy as int));
                    stroke.points.set(i, p.offset(dx, dy));
                    i = i + 1;
                }
                assert(stroke.points@ =~= offset_points(old_points, dx as int, dy as int));
            },
            AnnotationItem::Shape(shape) => {
                shape.start = shape.start.offset(dx, dy);
                shape.end = shape.end.offset(dx, dy);
            },
            AnnotationItem::Text(text) => {
                text.position = text.position.offset(dx, dy);
            },
        }
    }
}

/// Moving an annotation and moving it back gives the annotation back.
pub proof fn lemma_translate_round_trip(item: AnnotationItemView, dx: int, dy: int)
    requires
        translate_fits(item, dx, dy),
    ensures
        translate_fits(translated(item, dx, dy), -dx, -dy),
        translated(translated(item, dx, dy), -dx, -dy) == item,
{
    match item {
        AnnotationItemView::Stroke { points, color, width } => {
            let moved = offset_points(points, dx, dy);
            assert forall|i: int| 0 <= i < moved.len() implies #[trigger] offset_fits(moved[i], -dx, -dy) by {
                assert(offset_fits(points[i], dx, dy));
            }
            let back = offset_points(moved, -dx, -dy);
            assert forall|i: int| 0 <= i < points.len() implies back[i] == points[i] by {
                assert(offset_fits(points[i], dx, dy));
            }
            assert(back =~= points);
        },
        _ => {},
    }
}

/// An annotation being drawn.
#[derive(Debug, Clone)]
pub enum ActiveAnnotation {
    Stroke(StrokeAnnotation),
    Shape(ShapeAnnotation),
}

/// No two consecutive points of the sequence are equal.
pub open spec fn no_repeated_points(points: Seq<AnnotationPoint>) -> bool {
    forall|i: int| 0 <= i < points.len() - 1 ==> #[trigger] points[i] != points[i + 1]
}

pub open spec fn active_is_stroke(a: ActiveAnnotation, points: Seq<AnnotationPoint>, color: u32, width: usize) -> bool {
    a matches ActiveAnnotation::Stroke(s) && s.points@ == points && s.color == color && s.width == width
}

pub open spec fn active_is_shape(
    a: ActiveAnnotation,
    kind: AnnotationShapeKind,
    start: AnnotationPoint,
    end: AnnotationPoint,
    color: u32,
    width: usize,
) -> bool {
    a matches ActiveAnnotation::Shape(s) && s.kind == kind && s.start == start && s.end == end
        && s.color == color && s.width == width
}

/// `a` is what drawing with `tool` from `point` starts with.
pub open spec fn is_new_active(a: ActiveAnnotation, tool: AnnotationTool, point: AnnotationPoint) -> bool {
    &&& tool_shape_kind_spec(tool) matches Some(kind) ==> active_is_shape(a, kind, point, point,
        tool_color_spec(tool), tool_stroke_width_spec(tool))
    &&& tool_shape_kind_spec(tool) is None ==> active_is_stroke(a, seq![point],
        tool_color_spec(tool), tool_stroke_width_spec(tool))
}

/// `b` is `a` after the pointer moved to `point`.
pub open spec fn is_updated_active(a: ActiveAnnotation, b: ActiveAnnotation, point: AnnotationPoint) -> bool {
    &&& a matches ActiveAnnotation::Stroke(s) ==> {
        let p = s.points@;
        active_is_stroke(b, if p.len() > 0 && p.last() == point { p } else { p.push(point) }, s.color, s.width)
    }
    &&& a matches ActiveAnnotation::Shape(s) ==> active_is_shape(b, s.kind, s.start, point, s.color, s.width)
}

/// Whether finishing `a` commits an annotation: a stroke of two points or more,
/// a shape whose corners differ.
pub open spec fn is_committable(a: ActiveAnnotation) -> bool {
    match a {
        ActiveAnnotation::Stroke(s) => s.points@.len() >= 2,
        ActiveAnnotation::Shape(s) => s.start != s.end,
    }
}

/// `item` is the annotation that finishing `a` commits.
pub open spec fn is_finished_item(a: ActiveAnnotation, item: AnnotationItem) -> bool {
    match a {
        ActiveAnnotation::Stroke(s) => item matches AnnotationItem::Stroke(t) && t.points@ == s.points@
            && t.color == s.color && t.width == s.width,
        ActiveAnnotation::Shape(s) => item matches AnnotationItem::Shape(t) && t.kind == s.kind
            && t.start == s.start && t.end == s.end && t.color == s.color && t.width == s.width,
    }
}

impl ActiveAnnotation {
    /// Starts drawing with `tool` at `point`: a shape for the shape tools, a stroke otherwise.
    pub fn new(tool: AnnotationTool, point: AnnotationPoint) -> (active: Self)
        ensures
            is_new_active(active, tool, point),
    {
        match tool.shape_kind() {
            Some(kind) => ActiveAnnotation::Shape(ShapeAnnotation {
                kind,
                start: point,
                end: point,
                color: tool.color(),
                width: tool.stroke_width(),
            }),
            None => {
                let mut points = Vec::new();
                points.push(point);
                assert(points@ =~= seq![point]);
                ActiveAnnotation::Stroke(StrokeAnnotation {
                    points,
                    color: tool.color(),
                    width: tool.stroke_width(),
                })
            },
        }
    }

    /// Extends a stroke to `point` unless it is already its last point; moves a shape's end.
    pub fn update(&mut self, point: AnnotationPoint)
        ensures
            is_updated_active(*old(self), *final(self), point),
    {
        match self {
            ActiveAnnotation::Stroke(stroke) => {
                let n = stroke.points.len();
                if n == 0 || stroke.points[n - 1] != point {
                    stroke.points.push(point);
                }
            },
            ActiveAnnotation::Shape(shape) => {
                shape.end = point;
            },
        }
    }

    /// The committed annotation, unless the drag drew nothing.
    pub fn finish(self) -> (item: Option<AnnotationItem>)
        ensures
            is_committable(self) ==> (item matches Some(t) && is_finished_item(self, t)),
            !is_committable(self) ==> item is None,
    {
        match self {
            ActiveAnnotation::Stroke(stroke) => {
                if stroke.points.len() >= 2 {
                    Some(AnnotationItem::Stroke(stroke))
                } else {
                    None
                }
            },
            ActiveAnnotation::Shape(shape) => {
                if shape.start != shape.end {
                    Some(AnnotationItem::Shape(shape))
                } else {
                    None
                }
            },
        }
    }
}

/// A stroke built by `new` and `update` never holds the same point twice in a row.
pub proof fn lemma_update_keeps_points_distinct(points: Seq<AnnotationPoint>, point: AnnotationPoint)
    requires
        no_repeated_points(points),
    ensures
        no_repeated_points(if points.len() > 0 && points.last() == point { points } else { points.push(point) }),
{
    let next = points.push(point);
    if !(points.len() > 0 && points.last() == point) {
        assert forall|i: int| 0 <= i < next.len() - 1 implies #[trigger] next[i] != next[i + 1] by {
            if i < points.len() - 1 {
                assert(next[i] == points[i] && next[i + 1] == points[i + 1]);
            }
        }
    }
}


/// `states` follows a press with `tool` at `press` and then the pointer moving to each of
/// `moves` in turn: `states[0]` is what the press starts, `states[i + 1]` the update of
/// `states[i]` to `moves[i]`.
pub open spec fn is_gesture(states: Seq<ActiveAnnotation>, tool: AnnotationTool, press: AnnotationPoint, moves: Seq<AnnotationPoint>) -> bool {
    &&& states.len() == moves.len() + 1
    &&& is_new_active(states[0], tool, press)
    &&& forall|i: int| #![trigger moves[i]] 0 <= i < moves.len() ==> is_updated_active(states[i], states[i + 1], moves[i])
}

/// Whether a gesture left the press point: for a shape, the pointer ended elsewhere;
/// for a stroke, it went elsewhere at some moment.
pub open spec fn gesture_moved(tool: AnnotationTool, press: AnnotationPoint, moves: Seq<AnnotationPoint>) -> bool {
    if tool_shape_kind_spec(tool) is Some {
        moves.len() > 0 && moves.last() != press
    } else {
        exists|i: int| 0 <= i < moves.len() && #[trigger] moves[i] != press
    }
}

/// What a gesture's state holds after its first `k` moves.
proof fn lemma_gesture_prefix(states: Seq<ActiveAnnotation>, tool: AnnotationTool, press: AnnotationPoint, moves: Seq<AnnotationPoint>, k: int)
    requires
        is_gesture(states, tool, press, moves),
        0 <= k <= moves.len(),
    ensures
        tool_shape_kind_spec(tool) is Some ==> (states[k] matches ActiveAnnotation::Shape(s) && s.start == press
            && s.end == (if k == 0 { press } else { moves[k - 1] })),
        tool_shape_kind_spec(tool) is None ==> (states[k] matches ActiveAnnotation::Stroke(s) && s.points@.len() >= 1
            && s.points@[0] == press
            && (s.points@.len() >= 2 <==> exists|i: int| 0 <= i < k && #[trigger] moves[i] != press)),
    decreases k,
{
    if k > 0 {
        lemma_gesture_prefix(states, tool, press, moves, k - 1);
        let q = moves[k - 1];
        assert(is_updated_active(states[k - 1], states[(k - 1) + 1], q));
        if tool_shape_kind_spec(tool) is None {
            let prev = states[k - 1]->Stroke_0.points@;
            if prev.len() >= 2 {
                let i = choose|i: int| 0 <= i < k - 1 && #[trigger] moves[i] != press;
                assert(0 <= i < k && moves[i] != press);
            } else {
                assert(prev.last() == press);
                if q != press {
                    assert(0 <= k - 1 < k && moves[k - 1] != press);
                } else {
                    assert forall|i: int| 0 <= i < k implies !(#[trigger] moves[i] != press) by {
                        if i < k - 1 {
                            assert(!(0 <= i < k - 1 && moves[i] != press));
                        }
                    }
                }
            }
        }
    }
}

/// A press followed by any number of moves commits an annotation when it is finished
/// exactly when the gesture left the press point; a press without motion commits nothing.
pub proof fn lemma_gesture_commits_when_moved(states: Seq<ActiveAnnotation>, tool: AnnotationTool, press: AnnotationPoint, moves: Seq<AnnotationPoint>)
    requires
        is_gesture(states, tool, press, moves),
    ensures
        is_committable(states.last()) <==> gesture_moved(tool, press, moves),
        moves.len() == 0 ==> !is_committable(states.last()),
{
    lemma_gesture_prefix(states, tool, press, moves, moves.len() as int);
    assert(states.last() == states[moves.len() as int]);
}

} // verus!
