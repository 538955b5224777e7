use vstd::prelude::*;

use crate::state::{
    is_committable, is_finished_item, is_new_active, is_updated_active, offset_fits, translate_fits,
    translated, ActiveAnnotation, ActiveMove, AnnotationItem, AnnotationItemView, AnnotationPoint,
    AnnotationTool, TextAnnotation,
};

verus! {

/// Longest text annotation, in characters.
pub const MAX_TEXT_CHARS: usize = 64;

/// The annotations of one output window and the edit in progress on it.
pub struct WindowAnnotations {
    pub annotations: Vec<AnnotationItem>,
    pub active_annotation: Option<ActiveAnnotation>,
    pub active_move: Option<ActiveMove>,
    pub active_text: Option<TextAnnotation>,
    pub pointer_pressed: bool,
}

/// The committed annotations as mathematical values.
pub open spec fn items_view(items: Seq<AnnotationItem>) -> Seq<AnnotationItemView> {
    Seq::new(items.len(), |i: int| items[i]@)
}

/// Nothing is being drawn, moved or typed.
pub open spec fn nothing_active(w: WindowAnnotations) -> bool {
    w.active_annotation is None && w.active_move is None && w.active_text is None && !w.pointer_pressed
}

/// Whether a drag of the moved annotation to `point` keeps every coordinate in range.
pub open spec fn move_fits(w: WindowAnnotations, point: AnnotationPoint) -> bool {
    w.active_move matches Some(m) ==> {
        let dx = point.x - m.last_point.x;
        let dy = point.y - m.last_point.y;
        &&& fits_delta(dx)
        &&& fits_delta(dy)
        &&& m.annotation_index < w.annotations@.len() ==> translate_fits(w.annotations@[m.annotation_index as int]@, dx, dy)
    }
}

pub open spec fn fits_delta(d: int) -> bool {
    i32::MIN <= d <= i32::MAX
}

/// The drawing in progress, if any, would commit an annotation.
pub open spec fn commits(active: Option<ActiveAnnotation>) -> bool {
    match active {
        Some(a) => is_committable(a),
        None => false,
    }
}

/// `new` is `old` after the drag ended: the drawing is committed unless it drew nothing.
pub open spec fn finish_annotation_post(old: WindowAnnotations, new: WindowAnnotations) -> bool {
    &&& !new.pointer_pressed
    &&& new.active_annotation is None
    &&& new.active_move == old.active_move
    &&& new.active_text == old.active_text
    &&& old.active_annotation matches Some(a) ==> (is_committable(a) ==> {
        &&& new.annotations@.len() == old.annotations@.len() + 1
        &&& new.annotations@.drop_last() == old.annotations@
        &&& is_finished_item(a, new.annotations@.last())
    })
    &&& !commits(old.active_annotation) ==> new.annotations@ == old.annotations@
}

/// `new` is `old` after the text entry closed, committed when it held text.
pub open spec fn commit_text_post(old: WindowAnnotations, new: WindowAnnotations) -> bool {
    &&& new.active_text is None
    &&& new.active_annotation == old.active_annotation
    &&& new.active_move == old.active_move
    &&& new.pointer_pressed == old.pointer_pressed
    &&& old.active_text matches Some(t) ==> (t.text@.len() > 0 ==> new.annotations@ == old.annotations@.push(AnnotationItem::Text(t)))
    &&& !(old.active_text matches Some(t) && t.text@.len() > 0) ==> new.annotations@ == old.annotations@
}

/// `new` is `old` after undo: the edit in progress is dropped (text first, then the
/// drawing, then the move), or the last committed annotation when nothing is in progress.
pub open spec fn undo_post(old: WindowAnnotations, new: WindowAnnotations) -> bool {
    &&& !new.pointer_pressed
    &&& old.active_text is Some ==> {
        &&& new.active_text is None
        &&& new.active_annotation == old.active_annotation
        &&& new.active_move == old.active_move
        &&& new.annotations@ == old.annotations@
    }
    &&& old.active_text is None && old.active_annotation is Some ==> {
        &&& new.active_text is None
        &&& new.active_annotation is None
        &&& new.active_move == old.active_move
        &&& new.annotations@ == old.annotations@
    }
    &&& old.active_text is None && old.active_annotation is None && old.active_move is Some ==> {
        &&& new.active_move is None
        &&& new.active_annotation is None
        &&& new.active_text is None
        &&& new.annotations@ == old.annotations@
    }
    &&& old.active_text is None && old.active_annotation is None && old.active_move is None ==> {
        &&& nothing_active(new)
        &&& new.annotations@ == if old.annotations@.len() > 0 { old.annotations@.drop_last() } else { old.annotations@ }
    }
}

impl AnnotationItem {
    /// Whether `translate(dx, dy)` keeps every coordinate in range.
    pub fn can_translate(&self, dx: i32, dy: i32) -> (fits: bool)
        ensures
            fits == translate_fits(self@, dx as int, dy as int),
    {
        match self {
            AnnotationItem::Stroke(stroke) => {
                let fits = points_offset_fit(&stroke.points, dx, dy);
                proof {
                    let points = stroke.points@;
                    assert(self@ == AnnotationItemView::Stroke { points, color: stroke.color, width: stroke.width });
                    if !fits {
                        let j = choose|j: int| 0 <= j < points.len() && !offset_fits(points[j], dx as int, dy as int);
                        assert(!offset_fits(points[j], dx as int, dy as int));
                        let v = self@;
                        assert(v->points == points);
                        assert(translate_fits(v, dx as int, dy as int) ==> offset_fits(v->points[j], dx as int, dy as int));
                        assert(!translate_fits(self@, dx as int, dy as int));
                    } else {
                        assert(translate_fits(self@, dx as int, dy as int));
                    }
                }
                fits
            },
            AnnotationItem::Shape(shape) => point_offset_fits(shape.start, dx, dy) && point_offset_fits(shape.end, dx, dy),
            AnnotationItem::Text(text) => point_offset_fits(text.position, dx, dy),
        }
    }
}

fn points_offset_fit(points: &Vec<AnnotationPoint>, dx: i32, dy: i32) -> (fits: bool)
    ensures
        fits == forall|i: int| 0 <= i < points@.len() ==> #[trigger] offset_fits(points@[i], dx as int, dy as int),
{
    let n = points.len();
    let mut i: usize = 0;
    while i < n
        invariant
            n == points@.len(),
            i <= n,
            forall|j: int| 0 <= j < i ==> #[trigger] offset_fits(points@[j], dx as int, dy as int),
        decreases n - i,
    {
        if !point_offset_fits(points[i], dx, dy) {
            return false;
        }
        i = i + 1;
    }
    true
}

fn point_offset_fits(p: AnnotationPoint, dx: i32, dy: i32) -> (fits: bool)
    ensures
        fits == offset_fits(p, dx as int, dy as int),
{
    let x = p.x as i64 + dx as i64;
    let y = p.y as i64 + dy as i64;
    i32::MIN as i64 <= x && x <= i32::MAX as i64 && i32::MIN as i64 <= y && y <= i32::MAX as i64
}

impl WindowAnnotations {
    pub fn new() -> (w: Self)
        ensures
            w.annotations@.len() == 0,
            nothing_active(w),
    {
        WindowAnnotations {
            annotations: Vec::new(),
            active_annotation: None,
            active_move: None,
            active_text: None,
            pointer_pressed: false,
        }
    }

    /// Drops whatever is being drawn, moved or typed; committed annotations stay.
    pub fn reset_active_state(&mut self)
        ensures
            final(self).annotations@ == old(self).annotations@,
            nothing_active(*final(self)),
    {
        self.active_annotation = None;
        self.active_move = None;
        self.active_text = None;
        self.pointer_pressed = false;
    }

    /// Starts drawing with `tool` at `point`.
    pub fn start_annotation(&mut self, tool: AnnotationTool, point: AnnotationPoint)
        ensures
            final(self).annotations@ == old(self).annotations@,
            final(self).pointer_pressed,
            final(self).active_move is None,
            final(self).active_text == old(self).active_text,
            final(self).active_annotation matches Some(a) && is_new_active(a, tool, point),
    {
        self.pointer_pressed = true;
        self.active_annotation = Some(ActiveAnnotation::new(tool, point));
        self.active_move = None;
    }

    /// Follows the pointer with the annotation being drawn.
    pub fn update_active_annotation(&mut self, point: AnnotationPoint)
        ensures
            final(self).annotations@ == old(self).annotations@,
            final(self).pointer_pressed == old(self).pointer_pressed,
            final(self).active_move == old(self).active_move,
            final(self).active_text == old(self).active_text,
            old(self).active_annotation is None ==> final(self).active_annotation is None,
            old(self).active_annotation matches Some(a) ==> (final(self).active_annotation matches Some(b)
                && is_updated_active(a, b, point)),
    {
        match &mut self.active_annotation {
            Some(active) => active.update(point),
            None => {},
        }
    }

    /// Ends the drag: the drawing is committed unless it drew nothing.
    pub fn finish_annotation(&mut self)
        ensures
            finish_annotation_post(*old(self), *final(self)),
    {
        let ghost before = self.annotations@;
        self.pointer_pressed = false;
        let active = self.active_annotation.take();
        match active {
            Some(a) => {
                match a.finish() {
                    Some(item) => {
                        self.annotations.push(item);
                        assert(self.annotations@.drop_last() =~= before);
                    },
                    None => {},
                }
            },
            None => {},
        }
    }

    /// Starts moving the annotation at `hit`, the topmost one under `point`, if any.
    pub fn start_move_annotation(&mut self, point: AnnotationPoint, hit: Option<usize>)
        requires
            hit matches Some(i) ==> i < old(self).annotations@.len(),
        ensures
            final(self).annotations@ == old(self).annotations@,
            final(self).active_annotation is None,
            final(self).active_text == old(self).active_text,
            final(self).pointer_pressed == hit is Some,
            hit is None ==> final(self).active_move is None,
            hit matches Some(i) ==> (final(self).active_move matches Some(m) && m.annotation_index == i
                && m.last_point == point),
    {
        self.pointer_pressed = hit.is_some();
        self.active_annotation = None;
        self.active_move = match hit {
            Some(annotation_index) => Some(ActiveMove { annotation_index, last_point: point }),
            None => None,
        };
    }

    /// Whether dragging the moved annotation to `point` keeps every coordinate in range.
    pub fn can_move_to(&self, point: AnnotationPoint) -> (fits: bool)
        ensures
            fits == move_fits(*self, point),
    {
        match self.active_move {
            None => true,
            Some(m) => {
                let dx = point.x as i64 - m.last_point.x as i64;
                let dy = point.y as i64 - m.last_point.y as i64;
                if dx < i32::MIN as i64 || dx > i32::MAX as i64 || dy < i32::MIN as i64 || dy > i32::MAX as i64 {
                    return false;
                }
                if m.annotation_index < self.annotations.len() {
                    self.annotations[m.annotation_index].can_translate(dx as i32, dy as i32)
                } else {
                    true
                }
            },
        }
    }

    /// Drags the moved annotation along with the pointer.
    pub fn update_active_move(&mut self, point: AnnotationPoint)
        requires
            move_fits(*old(self), point),
        ensures
            final(self).active_annotation == old(self).active_annotation,
            final(self).active_text == old(self).active_text,
            final(self).pointer_pressed == old(self).pointer_pressed,
            final(self).annotations@.len() == old(self).annotations@.len(),
            old(self).active_move is None ==> final(self).annotations@ == old(self).annotations@ && final(self).active_move is None,
            old(self).active_move matches Some(m) ==> {
                let dx = point.x - m.last_point.x;
                let dy = point.y - m.last_point.y;
                &&& final(self).active_move == Some(ActiveMove {
                    annotation_index: m.annotation_index,
                    last_point: if dx != 0 || dy != 0 { point } else { m.last_point },
                })
                &&& forall|i: int| 0 <= i < old(self).annotations@.len() ==> #[trigger] final(self).annotations@[i]@
                    == if i == m.annotation_index && (dx != 0 || dy != 0) {
                        translated(old(self).annotations@[i]@, dx, dy)
                    } else {
                        old(self).annotations@[i]@
                    }
            },
    {
        let m = match self.active_move {
            Some(m) => m,
            None => return,
        };
        let dx = point.x - m.last_point.x;
        let dy = point.y - m.last_point.y;
        if dx != 0 || dy != 0 {
            let index = m.annotation_index;
            if index < self.annotations.len() {
                let mut item = self.annotations.remove(index);
                item.translate(dx, dy);
                self.annotations.insert(index, item);
            }
            self.active_move = Some(ActiveMove { annotation_index: index, last_point: point });
        }
    }

    /// Ends the move.
    pub fn finish_move_annotation(&mut self)
        ensures
            final(self).annotations@ == old(self).annotations@,
            final(self).active_annotation == old(self).active_annotation,
            final(self).active_text == old(self).active_text,
            final(self).active_move is None,
            !final(self).pointer_pressed,
    {
        self.pointer_pressed = false;
        self.active_move = None;
    }

    /// Opens an empty text entry at `point`.
    pub fn start_text_entry(&mut self, point: AnnotationPoint, color: u32, scale: usize)
        ensures
            final(self).annotations@ == old(self).annotations@,
            !final(self).pointer_pressed,
            final(self).active_annotation is None,
            final(self).active_move is None,
            final(self).active_text matches Some(t) && t.position == point && t.text@.len() == 0
                && t.color == color && t.scale == scale,
    {
        self.pointer_pressed = false;
        self.active_annotation = None;
        self.active_move = None;
        self.active_text = Some(TextAnnotation { position: point, text: String::new(), color, scale });
    }

    /// Closes the text entry, committing it when it holds text.
    pub fn commit_or_discard_active_text(&mut self)
        ensures
            commit_text_post(*old(self), *final(self)),
    {
        let entry = self.active_text.take();
        match entry {
            Some(t) => {
                if t.text.unicode_len() > 0 {
                    self.annotations.push(AnnotationItem::Text(t));
                }
            },
            None => {},
        }
    }

    /// Undo: drops the edit in progress (text first, then drawing, then move),
    /// or the last committed annotation when nothing is in progress.
    pub fn undo(&mut self)
        ensures
            undo_post(*old(self), *final(self)),
    {
        if self.active_text.take().is_none() && self.active_annotation.take().is_none()
            && self.active_move.take().is_none() {
            let ghost before = self.annotations@;
            self.annotations.pop();
            assert(before.len() > 0 ==> self.annotations@ =~= before.drop_last());
        }
        self.pointer_pressed = false;
    }

    /// Appends typed text to the open text entry, unless that would make it longer
    /// than 64 characters. Returns whether the text changed.
    pub fn type_text(&mut self, input: &str) -> (changed: bool)
        ensures
            final(self).annotations@ == old(self).annotations@,
            final(self).active_annotation == old(self).active_annotation,
            final(self).active_move == old(self).active_move,
            final(self).pointer_pressed == old(self).pointer_pressed,
            changed == (old(self).active_text matches Some(t) && t.text@.len() + input@.len() <= MAX_TEXT_CHARS),
            changed ==> (old(self).active_text matches Some(t) && final(self).active_text matches Some(u)
                && u.text@ == t.text@ + input@ && u.position == t.position && u.color == t.color && u.scale == t.scale),
            !changed ==> final(self).active_text == old(self).active_text,
    {
        match &mut self.active_text {
            Some(t) => {
                if t.text.unicode_len() <= MAX_TEXT_CHARS && input.unicode_len() <= MAX_TEXT_CHARS - t.text.unicode_len() {
                    t.text.append(input);
                    true
                } else {
                    false
                }
            },
            None => false,
        }
    }

    /// Deletes the last character of the open text entry, if any.
    pub fn delete_text_char(&mut self)
        ensures
            final(self).annotations@ == old(self).annotations@,
            final(self).active_annotation == old(self).active_annotation,
            final(self).active_move == old(self).active_move,
            final(self).pointer_pressed == old(self).pointer_pressed,
            old(self).active_text is None ==> final(self).active_text is None,
            old(self).active_text matches Some(t) ==> (final(self).active_text matches Some(u)
                && u.text@ == (if t.text@.len() > 0 { t.text@.drop_last() } else { t.text@ })
                && u.position == t.position && u.color == t.color && u.scale == t.scale),
    {
        match &mut self.active_text {
            Some(t) => {
                let n = t.text.unicode_len();
                if n > 0 {
                    let shorter = String::from_str(t.text.as_str().substring_char(0, n - 1));
                    t.text = shorter;
                    assert(t.text@ =~= old(self).active_text.unwrap().text@.drop_last());
                }
            },
            None => {},
        }
    }

    /// Removes every annotation and the edit in progress.
    pub fn clear(&mut self)
        ensures
            final(self).annotations@.len() == 0,
            nothing_active(*final(self)),
    {
        self.annotations.clear();
        self.reset_active_state();
    }
}

/// Undo right after a drawing was committed takes it back: the annotations are those
/// before the drag, and nothing is left in progress.
pub proof fn lemma_undo_reverts_finished_drawing(before: WindowAnnotations, finished: WindowAnnotations, undone: WindowAnnotations)
    requires
        commits(before.active_annotation),
        before.active_text is None,
        before.active_move is None,
        finish_annotation_post(before, finished),
        undo_post(finished, undone),
    ensures
        undone.annotations@ == before.annotations@,
        nothing_active(undone),
{
}

/// Undo right after a typed text was committed takes it back.
pub proof fn lemma_undo_reverts_committed_text(before: WindowAnnotations, committed: WindowAnnotations, undone: WindowAnnotations)
    requires
        before.active_text matches Some(t) && t.text@.len() > 0,
        before.active_annotation is None,
        before.active_move is None,
        commit_text_post(before, committed),
        undo_post(committed, undone),
    ensures
        undone.annotations@ == before.annotations@,
        nothing_active(undone),
{
    assert(committed.annotations@.drop_last() =~= before.annotations@);
}

/// A drag that drew nothing commits nothing.
pub proof fn lemma_empty_drag_commits_nothing(before: WindowAnnotations, finished: WindowAnnotations)
    requires
        before.active_annotation is Some,
        !commits(before.active_annotation),
        finish_annotation_post(before, finished),
    ensures
        finished.annotations@ == before.annotations@,
{
}

} // verus!
