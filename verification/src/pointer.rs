use vstd::prelude::*;

use crate::state::{is_annotating_spec, AnnotationTool, InteractionMode};

verus! {

/// Linux input codes of the pointer buttons.
pub const BTN_LEFT: u32 = 0x110;
pub const BTN_RIGHT: u32 = 0x111;
/// Two left presses closer than this (in milliseconds) are a double click.
pub const DOUBLE_CLICK_TIME_MS: u32 = 400;

/// The last left press, for double-click detection.
#[derive(Debug, Clone, Copy, PartialEq, Eq, Structural)]
pub struct ClickMemory {
    pub last_click_button: u32,
    pub last_click_time: u32,
}

/// What a pointer button does.
#[derive(Debug, Clone, Copy, PartialEq, Eq, Structural)]
pub enum PointerAction {
    Nothing,
    Exit,
    StartTextEntry,
    StartMove,
    StartAnnotation { tool: AnnotationTool },
    FinishMove,
    FinishAnnotation,
    /// Copy the color under the pointer (color picker).
    CopyColor,
    /// The left button went down to pan the view.
    PressPan,
    /// A double click: the view animates back to its initial rectangle (the button is down).
    RestoreView,
    /// The left button went up.
    ReleasePan,
}

/// Whether a left press at `time` follows the previous left press closely enough.
pub open spec fn is_double_click(click: ClickMemory, time: u32) -> bool {
    click.last_click_button == BTN_LEFT && (if time >= click.last_click_time { time - click.last_click_time } else { 0 }) < DOUBLE_CLICK_TIME_MS
}

/// A button event: the action and the click memory after it. While annotating, a left
/// press starts text, a move or a drawing by the tool, its release finishes the move or
/// drawing (text stays open); while navigating a left press pans or, as a double click,
/// restores the view. A right release exits.
pub open spec fn pointer_button_spec(
    mode: InteractionMode,
    tool: AnnotationTool,
    button: u32,
    pressed: bool,
    time: u32,
    click: ClickMemory,
) -> (PointerAction, ClickMemory) {
    if button == BTN_RIGHT && !pressed {
        (PointerAction::Exit, click)
    } else if button != BTN_LEFT {
        (PointerAction::Nothing, click)
    } else if mode == InteractionMode::ColorPicker {
        (if pressed { PointerAction::Nothing } else { PointerAction::CopyColor }, click)
    } else if is_annotating_spec(mode) {
        if pressed {
            (if tool == AnnotationTool::Text {
                PointerAction::StartTextEntry
            } else if tool == AnnotationTool::Move {
                PointerAction::StartMove
            } else {
                PointerAction::StartAnnotation { tool }
            }, click)
        } else if tool == AnnotationTool::Text {
            (PointerAction::Nothing, click)
        } else if tool == AnnotationTool::Move {
            (PointerAction::FinishMove, click)
        } else {
            (PointerAction::FinishAnnotation, click)
        }
    } else if pressed {
        if is_double_click(click, time) {
            (PointerAction::RestoreView, ClickMemory { last_click_time: 0, ..click })
        } else {
            (PointerAction::PressPan, ClickMemory { last_click_button: button, last_click_time: time })
        }
    } else {
        (PointerAction::ReleasePan, click)
    }
}

/// Decides what a pointer button event does.
pub fn pointer_button_action(
    mode: InteractionMode,
    tool: AnnotationTool,
    button: u32,
    pressed: bool,
    time: u32,
    click: ClickMemory,
) -> (result: (PointerAction, ClickMemory))
    ensures
        result == pointer_button_spec(mode, tool, button, pressed, time, click),
{
    if button == BTN_RIGHT && !pressed {
        return (PointerAction::Exit, click);
    }
    if button != BTN_LEFT {
        return (PointerAction::Nothing, click);
    }
    if let InteractionMode::ColorPicker = mode {
        return (if pressed { PointerAction::Nothing } else { PointerAction::CopyColor }, click);
    }
    if mode.is_annotating() {
        if pressed {
            let action = match tool {
                AnnotationTool::Text => PointerAction::StartTextEntry,
                AnnotationTool::Move => PointerAction::StartMove,
                _ => PointerAction::StartAnnotation { tool },
            };
            return (action, click);
        }
        return match tool {
            AnnotationTool::Text => (PointerAction::Nothing, click),
            AnnotationTool::Move => (PointerAction::FinishMove, click),
            _ => (PointerAction::FinishAnnotation, click),
        };
    }
    if pressed {
        let elapsed = time.saturating_sub(click.last_click_time);
        if click.last_click_button == BTN_LEFT && elapsed < DOUBLE_CLICK_TIME_MS {
            (PointerAction::RestoreView, ClickMemory { last_click_time: 0, ..click })
        } else {
            (PointerAction::PressPan, ClickMemory { last_click_button: button, last_click_time: time })
        }
    } else {
        (PointerAction::ReleasePan, click)
    }
}

/// Two left presses in quick succession while navigating: the first pans, the second
/// restores the view.
pub proof fn lemma_quick_second_press_restores(click: ClickMemory, t1: u32, t2: u32)
    requires
        t1 <= t2,
        t2 - t1 < DOUBLE_CLICK_TIME_MS,
        !is_double_click(click, t1),
    ensures
        ({
            let (first, after) = pointer_button_spec(InteractionMode::Navigate, AnnotationTool::Pen, BTN_LEFT, true, t1, click);
            let (second, _) = pointer_button_spec(InteractionMode::Navigate, AnnotationTool::Pen, BTN_LEFT, true, t2, after);
            first == PointerAction::PressPan && second == PointerAction::RestoreView
        }),
{
}

/// While annotating, releasing the left button commits the drawing for every drawing
/// tool and ends a move only for the move tool; pressing it starts the action of the
/// tool. The click memory is left as it is.
pub proof fn lemma_left_button_while_annotating(mode: InteractionMode, tool: AnnotationTool, pressed: bool, time: u32, click: ClickMemory)
    requires
        is_annotating_spec(mode),
    ensures
        ({
            let (action, after) = pointer_button_spec(mode, tool, BTN_LEFT, pressed, time, click);
            &&& after == click
            &&& !pressed && tool != AnnotationTool::Move && tool != AnnotationTool::Text ==> action == PointerAction::FinishAnnotation
            &&& !pressed ==> (action == PointerAction::FinishMove <==> tool == AnnotationTool::Move)
            &&& pressed && tool != AnnotationTool::Move && tool != AnnotationTool::Text ==> action == (PointerAction::StartAnnotation { tool })
            &&& pressed ==> (action == PointerAction::StartMove <==> tool == AnnotationTool::Move)
        }),
{
}

/// Releasing the right button exits in every mode; buttons other than the two do
/// nothing; in the color picker a left release copies the color; while navigating a left
/// press grabs the view for panning (or restores it on a quick second press) and the
/// release lets go.
pub proof fn lemma_pointer_buttons(mode: InteractionMode, tool: AnnotationTool, button: u32, pressed: bool, time: u32, click: ClickMemory)
    ensures
        pointer_button_spec(mode, tool, BTN_RIGHT, false, time, click) == (PointerAction::Exit, click),
        button != BTN_LEFT && button != BTN_RIGHT ==> pointer_button_spec(mode, tool, button, pressed, time, click).0 == PointerAction::Nothing,
        pointer_button_spec(InteractionMode::ColorPicker, tool, BTN_LEFT, false, time, click).0 == PointerAction::CopyColor,
        pointer_button_spec(InteractionMode::ColorPicker, tool, BTN_LEFT, true, time, click).0 == PointerAction::Nothing,
        ({
            let (action, after) = pointer_button_spec(InteractionMode::Navigate, tool, BTN_LEFT, true, time, click);
            &&& is_double_click(click, time) ==> action == PointerAction::RestoreView && after.last_click_time == 0
            &&& !is_double_click(click, time) ==> action == PointerAction::PressPan && after.last_click_button == BTN_LEFT
                && after.last_click_time == time
        }),
        pointer_button_spec(InteractionMode::Navigate, tool, BTN_LEFT, false, time, click).0 == PointerAction::ReleasePan,
{
}

/// What pointer motion does: in the color picker, follow the pointer with the swatch;
/// with the button down, drag the moved annotation, extend the drawing, or pan the view
/// while navigating.
#[derive(Debug, Clone, Copy, PartialEq, Eq, Structural)]
pub enum DragAction {
    Hover,
    Pick,
    UpdateMove,
    UpdateAnnotation,
    Pan,
}

pub fn drag_action(mode: InteractionMode, tool: AnnotationTool, pointer_pressed: bool) -> (action: DragAction)
    ensures
        mode == InteractionMode::ColorPicker ==> action == DragAction::Pick,
        mode != InteractionMode::ColorPicker && !pointer_pressed ==> action == DragAction::Hover,
        pointer_pressed && is_annotating_spec(mode) ==> action == (if tool == AnnotationTool::Move { DragAction::UpdateMove } else { DragAction::UpdateAnnotation }),
        pointer_pressed && mode == InteractionMode::Navigate ==> action == DragAction::Pan,
{
    if let InteractionMode::ColorPicker = mode {
        DragAction::Pick
    } else if !pointer_pressed {
        DragAction::Hover
    } else if mode.is_annotating() {
        match tool {
            AnnotationTool::Move => DragAction::UpdateMove,
            _ => DragAction::UpdateAnnotation,
        }
    } else {
        DragAction::Pan
    }
}

/// Scrolling zooms only while navigating.
pub fn scroll_zooms(mode: InteractionMode) -> (zooms: bool)
    ensures
        zooms == (mode == InteractionMode::Navigate),
{
    if let InteractionMode::Navigate = mode { true } else { false }
}

} // verus!
