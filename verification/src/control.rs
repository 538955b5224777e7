use vstd::prelude::*;

use crate::config::{key_code_spec, CloseKey};
use crate::keys::{KEY_0, KEY_BACKSPACE, KEY_C, KEY_D, KEY_DOWN, KEY_E, KEY_ENTER, KEY_EQUAL, KEY_ESC, KEY_F, KEY_H, KEY_I, KEY_KP0, KEY_1, KEY_3, KEY_9, KEY_Q, KEY_KPMINUS, KEY_KPPLUS, KEY_L, KEY_LEFT, KEY_LEFTBRACE, KEY_M, KEY_MINUS, KEY_P, KEY_R, KEY_RIGHT, KEY_RIGHTBRACE, KEY_S, KEY_T, KEY_U, KEY_UP, KEY_W, is_repeatable_key, is_repeatable_key_spec, palette_index_for_key, palette_index_spec};
use crate::state::{is_annotating_spec, AnnotationTool, InteractionMode};

verus! {

/// The text size new and typed text annotations start with.
pub const DEFAULT_TEXT_ANNOTATION_SCALE: usize = 2;
/// The smallest and largest text sizes the `[` and `]` keys reach.
pub const MIN_TEXT_ANNOTATION_SCALE: usize = 1;
pub const MAX_TEXT_ANNOTATION_SCALE: usize = 8;

/// The interaction state that keyboard input drives: mode, tools, the selected palette
/// entry, the text size, spotlight and key repeat.
#[derive(Debug, Clone, Copy, PartialEq, Eq, Structural)]
pub struct ControlState {
    pub mode: InteractionMode,
    pub annotation_tool: AnnotationTool,
    pub tool_override: Option<AnnotationTool>,
    pub close_key: Option<CloseKey>,
    pub spotlight_enabled: bool,
    pub repeat_key: Option<u32>,
    pub annotation_color_index: usize,
    pub text_annotation_scale: usize,
}

/// One step of the text size: up or down by one, within the bounds.
pub open spec fn text_scale_step(scale: usize, grow: bool) -> usize {
    if grow {
        if scale < MAX_TEXT_ANNOTATION_SCALE { (scale + 1) as usize } else { scale }
    } else {
        if scale > MIN_TEXT_ANNOTATION_SCALE { (scale - 1) as usize } else { scale }
    }
}

/// The state after the text size change a command makes, if any.
pub open spec fn scale_effect(s: ControlState, command: KeyCommand) -> ControlState {
    match command {
        KeyCommand::GrowText => ControlState { text_annotation_scale: text_scale_step(s.text_annotation_scale, true), ..s },
        KeyCommand::ShrinkText => ControlState { text_annotation_scale: text_scale_step(s.text_annotation_scale, false), ..s },
        _ => s,
    }
}

/// What the application does in response to a key, beyond the state change.
#[derive(Debug, Clone, Copy, PartialEq, Eq, Structural)]
pub enum KeyCommand {
    Nothing,
    Exit,
    CopyScreenshot,
    SaveScreenshot,
    Undo,
    ClearAnnotations,
    RestoreView,
    ToggledSpotlight,
    ZoomIn,
    ZoomOut,
    PanLeft,
    PanRight,
    PanUp,
    PanDown,
    GrowSpotlight,
    ShrinkSpotlight,
    GrowText,
    ShrinkText,
    SelectPaletteColor { index: usize },
    CommitText,
    DiscardText,
    DeleteTextChar,
    TypeText,
}

/// Effects of a key on the windows' annotation state, applied after the command.
#[derive(Debug, Clone, Copy, PartialEq, Eq, Structural)]
pub struct KeyOutcome {
    pub command: KeyCommand,
    /// Every window's view returns to its initial rectangle.
    pub restore_views: bool,
    /// Every window drops the annotation, move and text it has in progress.
    pub cancel_active: bool,
    /// Every window stops moving an annotation.
    pub clear_moves: bool,
    /// Every window drops the text it is typing.
    pub discard_text: bool,
}

pub open spec fn outcome(command: KeyCommand) -> KeyOutcome {
    KeyOutcome { command, restore_views: false, cancel_active: false, clear_moves: false, discard_text: false }
}

/// The tool that a drag uses: the modifier when one is on.
pub open spec fn effective_tool_spec(s: ControlState) -> AnnotationTool {
    match s.tool_override {
        Some(t) => t,
        None => s.annotation_tool,
    }
}

/// Modifiers only exist while annotating.
pub open spec fn control_wf(s: ControlState) -> bool {
    !is_annotating_spec(s.mode) ==> s.tool_override is None
}

/// Switching the modifier: moves stop when the move modifier goes away,
/// text entries are dropped unless the text modifier is the new one.
pub open spec fn set_override_spec(s: ControlState, tool: Option<AnnotationTool>) -> (ControlState, KeyOutcome) {
    if s.tool_override == tool {
        (s, outcome(KeyCommand::Nothing))
    } else {
        (ControlState { tool_override: tool, ..s }, KeyOutcome {
            command: KeyCommand::Nothing,
            restore_views: false,
            cancel_active: false,
            clear_moves: s.tool_override == Some(AnnotationTool::Move) && tool != Some(AnnotationTool::Move),
            discard_text: tool != Some(AnnotationTool::Text),
        })
    }
}

/// Entering a mode: drops work in progress, leaves modifiers outside annotation,
/// restores the views for unzoomed drawing, and stops key repeat.
pub open spec fn set_mode_spec(s: ControlState, mode: InteractionMode) -> (ControlState, KeyOutcome) {
    (ControlState {
        mode,
        tool_override: if is_annotating_spec(mode) { s.tool_override } else { None },
        repeat_key: None,
        ..s
    }, KeyOutcome {
        command: KeyCommand::Nothing,
        restore_views: mode == InteractionMode::AnnotateUnzoomed,
        cancel_active: true,
        clear_moves: false,
        discard_text: false,
    })
}

pub open spec fn toggle_mode_spec(s: ControlState, mode: InteractionMode) -> (ControlState, KeyOutcome) {
    set_mode_spec(s, if s.mode == mode { InteractionMode::Navigate } else { mode })
}

/// Selecting a tool: the modifiers become overrides, drawing tools replace the base tool.
pub open spec fn select_tool_spec(s: ControlState, tool: AnnotationTool) -> (ControlState, KeyOutcome) {
    if tool == AnnotationTool::Move || tool == AnnotationTool::Text {
        set_override_spec(s, Some(tool))
    } else {
        let (t, o) = set_override_spec(ControlState { annotation_tool: tool, ..s }, None);
        (t, KeyOutcome { discard_text: o.discard_text || s.annotation_tool != tool, ..o })
    }
}

pub open spec fn toggle_override_spec(s: ControlState, tool: AnnotationTool) -> (ControlState, KeyOutcome) {
    set_override_spec(s, if s.tool_override == Some(tool) { None } else { Some(tool) })
}

/// Keys that act on their own and may repeat: text size while annotating;
/// spotlight radius, zoom and pan while navigating.
pub open spec fn key_action_spec(s: ControlState, key: u32) -> KeyCommand {
    if is_annotating_spec(s.mode) {
        if key == KEY_LEFTBRACE { KeyCommand::ShrinkText }
        else if key == KEY_RIGHTBRACE { KeyCommand::GrowText }
        else { KeyCommand::Nothing }
    } else if key == KEY_LEFTBRACE { KeyCommand::ShrinkSpotlight }
    else if key == KEY_RIGHTBRACE { KeyCommand::GrowSpotlight }
    else if key == KEY_EQUAL || key == KEY_KPPLUS { KeyCommand::ZoomIn }
    else if key == KEY_MINUS || key == KEY_KPMINUS { KeyCommand::ZoomOut }
    else if key == KEY_LEFT { KeyCommand::PanLeft }
    else if key == KEY_RIGHT { KeyCommand::PanRight }
    else if key == KEY_UP { KeyCommand::PanUp }
    else if key == KEY_DOWN { KeyCommand::PanDown }
    else { KeyCommand::Nothing }
}

/// Keys while a text entry is open: they edit the text.
pub open spec fn text_key_spec(s: ControlState, key: u32) -> (ControlState, KeyOutcome) {
    if key == KEY_ENTER {
        (s, outcome(KeyCommand::CommitText))
    } else if key == KEY_BACKSPACE {
        (s, outcome(KeyCommand::DeleteTextChar))
    } else if key == KEY_LEFTBRACE {
        (scale_effect(s, KeyCommand::ShrinkText), outcome(KeyCommand::ShrinkText))
    } else if key == KEY_RIGHTBRACE {
        (scale_effect(s, KeyCommand::GrowText), outcome(KeyCommand::GrowText))
    } else if key == KEY_ESC {
        if s.tool_override == Some(AnnotationTool::Text) {
            let (t, o) = set_override_spec(s, None);
            (t, KeyOutcome { command: KeyCommand::CommitText, ..o })
        } else {
            (s, outcome(KeyCommand::DiscardText))
        }
    } else {
        (s, outcome(KeyCommand::TypeText))
    }
}

/// A pressed key, outside text entry.
pub open spec fn pressed_key_spec(s: ControlState, key: u32, ctrl: bool) -> (ControlState, KeyOutcome) {
    let annotating = is_annotating_spec(s.mode);
    if key == KEY_ESC && s.mode == InteractionMode::ColorPicker {
        set_mode_spec(s, InteractionMode::Navigate)
    } else if s.mode == InteractionMode::ColorPicker {
        if key == KEY_I {
            toggle_mode_spec(s, InteractionMode::ColorPicker)
        } else {
            (s, outcome(KeyCommand::Nothing))
        }
    } else if key == KEY_ESC && annotating {
        if s.tool_override is Some {
            set_override_spec(s, None)
        } else {
            set_mode_spec(s, InteractionMode::Navigate)
        }
    } else if s.close_key matches Some(k) && key_code_spec(k) == key {
        (s, outcome(KeyCommand::Exit))
    } else if key == KEY_C && ctrl {
        (s, outcome(KeyCommand::CopyScreenshot))
    } else if key == KEY_I {
        toggle_mode_spec(s, InteractionMode::ColorPicker)
    } else if annotating && palette_index_spec(key) is Some {
        (ControlState { annotation_color_index: palette_index_spec(key).unwrap(), ..s },
            outcome(KeyCommand::SelectPaletteColor { index: palette_index_spec(key).unwrap() }))
    } else if key == KEY_ESC && s.close_key is None {
        (s, outcome(KeyCommand::Exit))
    } else if key == KEY_D {
        toggle_mode_spec(s, InteractionMode::AnnotateZoomed)
    } else if key == KEY_W {
        toggle_mode_spec(s, InteractionMode::AnnotateUnzoomed)
    } else if key == KEY_P {
        select_tool_spec(s, AnnotationTool::Pen)
    } else if key == KEY_H {
        select_tool_spec(s, AnnotationTool::Highlighter)
    } else if key == KEY_L {
        select_tool_spec(s, AnnotationTool::Line)
    } else if key == KEY_M && annotating {
        toggle_override_spec(s, AnnotationTool::Move)
    } else if key == KEY_T && annotating {
        toggle_override_spec(s, AnnotationTool::Text)
    } else if key == KEY_R {
        select_tool_spec(s, AnnotationTool::Rectangle)
    } else if key == KEY_E {
        select_tool_spec(s, AnnotationTool::Ellipse)
    } else if key == KEY_U {
        (s, outcome(KeyCommand::Undo))
    } else if key == KEY_C {
        (s, outcome(KeyCommand::ClearAnnotations))
    } else if (key == KEY_0 || key == KEY_KP0) && !annotating {
        (s, outcome(KeyCommand::RestoreView))
    } else if key == KEY_S {
        (s, outcome(KeyCommand::SaveScreenshot))
    } else if key == KEY_F {
        (ControlState { spotlight_enabled: !s.spotlight_enabled, ..s }, outcome(KeyCommand::ToggledSpotlight))
    } else {
        (ControlState {
            repeat_key: if !annotating && is_repeatable_key_spec(key) { Some(key) } else { s.repeat_key },
            ..scale_effect(s, key_action_spec(s, key))
        }, outcome(key_action_spec(s, key)))
    }
}

/// One key event: releases only stop the repeat of that key; presses go to the open
/// text entry first, then to the shortcuts.
pub open spec fn key_event_spec(
    s: ControlState,
    key: u32,
    pressed: bool,
    text_entry_open: bool,
    ctrl: bool,
) -> (ControlState, KeyOutcome) {
    if !pressed {
        (if s.repeat_key == Some(key) { ControlState { repeat_key: None, ..s } } else { s }, outcome(KeyCommand::Nothing))
    } else if text_entry_open {
        text_key_spec(s, key)
    } else {
        pressed_key_spec(s, key, ctrl)
    }
}

impl ControlState {
    /// The state at start-up: navigation, pen, no modifier.
    pub fn new(close_key: Option<CloseKey>, spotlight_enabled: bool) -> (s: Self)
        ensures
            s == (ControlState {
                mode: InteractionMode::Navigate,
                annotation_tool: AnnotationTool::Pen,
                tool_override: None,
                close_key,
                spotlight_enabled,
                repeat_key: None,
                annotation_color_index: 0,
                text_annotation_scale: DEFAULT_TEXT_ANNOTATION_SCALE,
            }),
            control_wf(s),
    {
        ControlState {
            mode: InteractionMode::Navigate,
            annotation_tool: AnnotationTool::Pen,
            tool_override: None,
            close_key,
            spotlight_enabled,
            repeat_key: None,
            annotation_color_index: 0,
            text_annotation_scale: DEFAULT_TEXT_ANNOTATION_SCALE,
        }
    }

    /// Makes the text size one step larger or smaller, within the bounds. Returns whether
    /// it changed.
    pub fn adjust_text_scale(&mut self, grow: bool) -> (changed: bool)
        ensures
            *final(self) == (ControlState { text_annotation_scale: text_scale_step(old(self).text_annotation_scale, grow), ..*old(self) }),
            changed == (final(self).text_annotation_scale != old(self).text_annotation_scale),
    {
        let before = self.text_annotation_scale;
        if grow {
            if self.text_annotation_scale < MAX_TEXT_ANNOTATION_SCALE {
                self.text_annotation_scale = self.text_annotation_scale + 1;
            }
        } else if self.text_annotation_scale > MIN_TEXT_ANNOTATION_SCALE {
            self.text_annotation_scale = self.text_annotation_scale - 1;
        }
        self.text_annotation_scale != before
    }

    /// What the held key does when it repeats: its action, with the text size change
    /// it makes; nothing when no key repeats.
    pub fn repeat_key_action(&mut self) -> (command: KeyCommand)
        ensures
            old(self).repeat_key is None ==> command == KeyCommand::Nothing && *final(self) == *old(self),
            old(self).repeat_key matches Some(k) ==> command == key_action_spec(*old(self), k)
                && *final(self) == scale_effect(*old(self), command),
    {
        match self.repeat_key {
            None => KeyCommand::Nothing,
            Some(k) => {
                let command = self.key_action(k);
                self.apply_scale_effect(command);
                command
            },
        }
    }

    fn apply_scale_effect(&mut self, command: KeyCommand)
        ensures
            *final(self) == scale_effect(*old(self), command),
    {
        match command {
            KeyCommand::GrowText => {
                self.adjust_text_scale(true);
            },
            KeyCommand::ShrinkText => {
                self.adjust_text_scale(false);
            },
            _ => {},
        }
    }

    pub fn effective_annotation_tool(&self) -> (tool: AnnotationTool)
        ensures
            tool == effective_tool_spec(*self),
    {
        match self.tool_override {
            Some(t) => t,
            None => self.annotation_tool,
        }
    }

    pub fn stop_repeat(&mut self)
        ensures
            *final(self) == (ControlState { repeat_key: None, ..*old(self) }),
    {
        self.repeat_key = None;
    }

    fn set_tool_override(&mut self, tool: Option<AnnotationTool>) -> (o: KeyOutcome)
        ensures
            (*final(self), o) == set_override_spec(*old(self), tool),
    {
        if self.tool_override == tool {
            return KeyOutcome {
                command: KeyCommand::Nothing,
                restore_views: false,
                cancel_active: false,
                clear_moves: false,
                discard_text: false,
            };
        }
        let clear_moves = self.tool_override == Some(AnnotationTool::Move) && tool != Some(AnnotationTool::Move);
        let discard_text = tool != Some(AnnotationTool::Text);
        self.tool_override = tool;
        KeyOutcome { command: KeyCommand::Nothing, restore_views: false, cancel_active: false, clear_moves, discard_text }
    }

    fn set_interaction_mode(&mut self, mode: InteractionMode) -> (o: KeyOutcome)
        ensures
            (*final(self), o) == set_mode_spec(*old(self), mode),
    {
        if !mode.is_annotating() {
            self.tool_override = None;
        }
        self.mode = mode;
        self.repeat_key = None;
        KeyOutcome {
            command: KeyCommand::Nothing,
            restore_views: mode == InteractionMode::AnnotateUnzoomed,
            cancel_active: true,
            clear_moves: false,
            discard_text: false,
        }
    }

    fn toggle_annotation_mode(&mut self, mode: InteractionMode) -> (o: KeyOutcome)
        ensures
            (*final(self), o) == toggle_mode_spec(*old(self), mode),
    {
        let next = if self.mode == mode { InteractionMode::Navigate } else { mode };
        self.set_interaction_mode(next)
    }

    /// Selects a drawing tool, or turns on the move or text modifier.
    pub fn select_annotation_tool(&mut self, tool: AnnotationTool) -> (o: KeyOutcome)
        ensures
            (*final(self), o) == select_tool_spec(*old(self), tool),
    {
        if tool == AnnotationTool::Move || tool == AnnotationTool::Text {
            return self.set_tool_override(Some(tool));
        }
        let changed = self.annotation_tool != tool;
        self.annotation_tool = tool;
        let o = self.set_tool_override(None);
        KeyOutcome { discard_text: o.discard_text || changed, ..o }
    }

    fn toggle_tool_override(&mut self, tool: AnnotationTool) -> (o: KeyOutcome)
        ensures
            (*final(self), o) == toggle_override_spec(*old(self), tool),
    {
        let next = if self.tool_override == Some(tool) { None } else { Some(tool) };
        self.set_tool_override(next)
    }

    /// The command of a key that acts on its own (also used for key repeat).
    pub fn key_action(&self, key: u32) -> (command: KeyCommand)
        ensures
            command == key_action_spec(*self, key),
    {
        if self.mode.is_annotating() {
            return if key == KEY_LEFTBRACE {
                KeyCommand::ShrinkText
            } else if key == KEY_RIGHTBRACE {
                KeyCommand::GrowText
            } else {
                KeyCommand::Nothing
            };
        }
        if key == KEY_LEFTBRACE {
            KeyCommand::ShrinkSpotlight
        } else if key == KEY_RIGHTBRACE {
            KeyCommand::GrowSpotlight
        } else if key == KEY_EQUAL || key == KEY_KPPLUS {
            KeyCommand::ZoomIn
        } else if key == KEY_MINUS || key == KEY_KPMINUS {
            KeyCommand::ZoomOut
        } else if key == KEY_LEFT {
            KeyCommand::PanLeft
        } else if key == KEY_RIGHT {
            KeyCommand::PanRight
        } else if key == KEY_UP {
            KeyCommand::PanUp
        } else if key == KEY_DOWN {
            KeyCommand::PanDown
        } else {
            KeyCommand::Nothing
        }
    }

    fn handle_text_key(&mut self, key: u32) -> (o: KeyOutcome)
        ensures
            (*final(self), o) == text_key_spec(*old(self), key),
    {
        let command = if key == KEY_ENTER {
            KeyCommand::CommitText
        } else if key == KEY_BACKSPACE {
            KeyCommand::DeleteTextChar
        } else if key == KEY_LEFTBRACE {
            self.adjust_text_scale(false);
            KeyCommand::ShrinkText
        } else if key == KEY_RIGHTBRACE {
            self.adjust_text_scale(true);
            KeyCommand::GrowText
        } else if key == KEY_ESC {
            if self.tool_override == Some(AnnotationTool::Text) {
                let o = self.set_tool_override(None);
                return KeyOutcome { command: KeyCommand::CommitText, ..o };
            }
            KeyCommand::DiscardText
        } else {
            KeyCommand::TypeText
        };
        KeyOutcome { command, restore_views: false, cancel_active: false, clear_moves: false, discard_text: false }
    }

    fn handle_pressed_key(&mut self, key: u32, ctrl: bool) -> (o: KeyOutcome)
        ensures
            (*final(self), o) == pressed_key_spec(*old(self), key, ctrl),
    {
        let plain = KeyOutcome {
            command: KeyCommand::Nothing,
            restore_views: false,
            cancel_active: false,
            clear_moves: false,
            discard_text: false,
        };
        let annotating = self.mode.is_annotating();
        let picking = match self.mode {
            InteractionMode::ColorPicker => true,
            _ => false,
        };
        if picking {
            if key == KEY_ESC {
                return self.set_interaction_mode(InteractionMode::Navigate);
            }
            if key == KEY_I {
                return self.toggle_annotation_mode(InteractionMode::ColorPicker);
            }
            return plain;
        }
        if key == KEY_ESC && annotating {
            if self.tool_override.is_some() {
                return self.set_tool_override(None);
            }
            return self.set_interaction_mode(InteractionMode::Navigate);
        }
        match self.close_key {
            Some(k) => {
                if k.key_code() == key {
                    return KeyOutcome { command: KeyCommand::Exit, ..plain };
                }
            },
            None => {},
        }
        if key == KEY_C && ctrl {
            return KeyOutcome { command: KeyCommand::CopyScreenshot, ..plain };
        }
        if key == KEY_I {
            return self.toggle_annotation_mode(InteractionMode::ColorPicker);
        }
        if annotating {
            match palette_index_for_key(key) {
                Some(index) => {
                    self.annotation_color_index = index;
                    return KeyOutcome { command: KeyCommand::SelectPaletteColor { index }, ..plain };
                },
                None => {},
            }
        }
        if key == KEY_ESC && self.close_key.is_none() {
            KeyOutcome { command: KeyCommand::Exit, ..plain }
        } else if key == KEY_D {
            self.toggle_annotation_mode(InteractionMode::AnnotateZoomed)
        } else if key == KEY_W {
            self.toggle_annotation_mode(InteractionMode::AnnotateUnzoomed)
        } else if key == KEY_P {
            self.select_annotation_tool(AnnotationTool::Pen)
        } else if key == KEY_H {
            self.select_annotation_tool(AnnotationTool::Highlighter)
        } else if key == KEY_L {
            self.select_annotation_tool(AnnotationTool::Line)
        } else if key == KEY_M && annotating {
            self.toggle_tool_override(AnnotationTool::Move)
        } else if key == KEY_T && annotating {
            self.toggle_tool_override(AnnotationTool::Text)
        } else if key == KEY_R {
            self.select_annotation_tool(AnnotationTool::Rectangle)
        } else if key == KEY_E {
            self.select_annotation_tool(AnnotationTool::Ellipse)
        } else if key == KEY_U {
            KeyOutcome { command: KeyCommand::Undo, ..plain }
        } else if key == KEY_C {
            KeyOutcome { command: KeyCommand::ClearAnnotations, ..plain }
        } else if (key == KEY_0 || key == KEY_KP0) && !annotating {
            KeyOutcome { command: KeyCommand::RestoreView, ..plain }
        } else if key == KEY_S {
            KeyOutcome { command: KeyCommand::SaveScreenshot, ..plain }
        } else if key == KEY_F {
            self.spotlight_enabled = !self.spotlight_enabled;
            KeyOutcome { command: KeyCommand::ToggledSpotlight, ..plain }
        } else {
            let command = self.key_action(key);
            self.apply_scale_effect(command);
            if !annotating && is_repeatable_key(key) {
                self.repeat_key = Some(key);
            }
            KeyOutcome { command, ..plain }
        }
    }

    /// Applies one key event. `text_entry_open` says whether a text annotation is being
    /// typed on the focused output; `ctrl` whether Control is held.
    pub fn handle_key_event(&mut self, key: u32, pressed: bool, text_entry_open: bool, ctrl: bool) -> (o: KeyOutcome)
        ensures
            (*final(self), o) == key_event_spec(*old(self), key, pressed, text_entry_open, ctrl),
            control_wf(*old(self)) ==> control_wf(*final(self)),
    {
        if !pressed {
            if self.repeat_key == Some(key) {
                self.stop_repeat();
            }
            return KeyOutcome {
                command: KeyCommand::Nothing,
                restore_views: false,
                cancel_active: false,
                clear_moves: false,
                discard_text: false,
            };
        }
        if text_entry_open {
            return self.handle_text_key(key);
        }
        self.handle_pressed_key(key, ctrl)
    }
}

/// Pressing D twice from navigation comes back to the same state, repeat stopped.
pub proof fn lemma_draw_toggle_round_trip(s: ControlState, ctrl: bool)
    requires
        control_wf(s),
        s.mode == InteractionMode::Navigate,
        !(s.close_key matches Some(k) && key_code_spec(k) == KEY_D),
    ensures
        ({
            let (s1, _) = key_event_spec(s, KEY_D, true, false, ctrl);
            let (s2, _) = key_event_spec(s1, KEY_D, true, false, ctrl);
            &&& s1.mode == InteractionMode::AnnotateZoomed
            &&& s2 == (ControlState { repeat_key: None, ..s })
        }),
{
}

/// The move and text modifiers toggle on and off without touching the selected tool.
pub proof fn lemma_modifier_toggle_round_trip(s: ControlState, key: u32, ctrl: bool)
    requires
        is_annotating_spec(s.mode),
        s.tool_override is None,
        key == KEY_M || key == KEY_T,
        !(s.close_key matches Some(k) && key_code_spec(k) == key),
    ensures
        ({
            let (s1, _) = key_event_spec(s, key, true, false, ctrl);
            let (s2, _) = key_event_spec(s1, key, true, false, ctrl);
            &&& s1.tool_override == Some(if key == KEY_M { AnnotationTool::Move } else { AnnotationTool::Text })
            &&& s1.annotation_tool == s.annotation_tool
            &&& effective_tool_spec(s1) == s1.tool_override.unwrap()
            &&& s2 == s
        }),
{
}

/// Escape while annotating first turns off the modifier, and only then leaves annotation.
pub proof fn lemma_escape_backs_out_in_order(s: ControlState, ctrl: bool)
    requires
        is_annotating_spec(s.mode),
        s.tool_override is Some,
    ensures
        ({
            let (s1, o1) = key_event_spec(s, KEY_ESC, true, false, ctrl);
            let (s2, o2) = key_event_spec(s1, KEY_ESC, true, false, ctrl);
            &&& s1.mode == s.mode
            &&& s1.tool_override is None
            &&& s1.annotation_tool == s.annotation_tool
            &&& o1.command != KeyCommand::Exit
            &&& s2.mode == InteractionMode::Navigate
            &&& s2.tool_override is None
            &&& o2.command != KeyCommand::Exit
        }),
{
}

/// Drawing tools can be picked in any mode but the color picker; the choice also drops
/// any modifier.
pub proof fn lemma_select_drawing_tool(s: ControlState, key: u32, ctrl: bool)
    requires
        s.mode != InteractionMode::ColorPicker,
        key == KEY_P || key == KEY_H || key == KEY_L || key == KEY_R || key == KEY_E,
        !(s.close_key matches Some(k) && key_code_spec(k) == key),
    ensures
        ({
            let (s1, _) = key_event_spec(s, key, true, false, ctrl);
            &&& s1.annotation_tool == (if key == KEY_P { AnnotationTool::Pen }
                else if key == KEY_H { AnnotationTool::Highlighter }
                else if key == KEY_L { AnnotationTool::Line }
                else if key == KEY_R { AnnotationTool::Rectangle }
                else { AnnotationTool::Ellipse })
            &&& s1.tool_override is None
            &&& s1.mode == s.mode
        }),
{
}

/// Releasing a key never changes the mode or the tools.
pub proof fn lemma_release_keeps_mode(s: ControlState, key: u32, text_entry_open: bool, ctrl: bool)
    ensures
        ({
            let (s1, o) = key_event_spec(s, key, false, text_entry_open, ctrl);
            &&& s1 == (ControlState { repeat_key: s1.repeat_key, ..s })
            &&& o.command == KeyCommand::Nothing
        }),
{
}

/// Pressing I twice from navigation opens the color picker and comes back to the same
/// state, repeat stopped.
pub proof fn lemma_picker_toggle_round_trip(s: ControlState, ctrl: bool)
    requires
        control_wf(s),
        s.mode == InteractionMode::Navigate,
        !(s.close_key matches Some(k) && key_code_spec(k) == KEY_I),
    ensures
        ({
            let (s1, o1) = key_event_spec(s, KEY_I, true, false, ctrl);
            let (s2, _) = key_event_spec(s1, KEY_I, true, false, ctrl);
            &&& s1.mode == InteractionMode::ColorPicker
            &&& o1.cancel_active
            &&& s2 == (ControlState { repeat_key: None, ..s })
        }),
{
}

/// In the color picker, Escape goes back to navigation and every key but I and Escape
/// does nothing.
pub proof fn lemma_picker_keys(s: ControlState, key: u32, ctrl: bool)
    requires
        s.mode == InteractionMode::ColorPicker,
    ensures
        ({
            let (s1, o1) = key_event_spec(s, key, true, false, ctrl);
            &&& key == KEY_ESC ==> s1.mode == InteractionMode::Navigate
            &&& key == KEY_I ==> s1.mode == InteractionMode::Navigate
            &&& key != KEY_ESC && key != KEY_I ==> s1 == s && o1 == outcome(KeyCommand::Nothing)
        }),
{
}

/// The text size stays within its bounds whatever key is pressed or released.
pub proof fn lemma_text_scale_in_bounds(s: ControlState, key: u32, pressed: bool, text_entry_open: bool, ctrl: bool)
    requires
        MIN_TEXT_ANNOTATION_SCALE <= s.text_annotation_scale <= MAX_TEXT_ANNOTATION_SCALE,
    ensures
        ({
            let (t, _) = key_event_spec(s, key, pressed, text_entry_open, ctrl);
            MIN_TEXT_ANNOTATION_SCALE <= t.text_annotation_scale <= MAX_TEXT_ANNOTATION_SCALE
        }),
{
}

/// Outside text entry and the color picker, U undoes (unless it is the close key), and
/// only C without Control clears the annotations.
pub proof fn lemma_undo_and_clear_keys(s: ControlState, key: u32, ctrl: bool)
    requires
        s.mode != InteractionMode::ColorPicker,
    ensures
        !(s.close_key matches Some(k) && key_code_spec(k) == KEY_U)
            ==> key_event_spec(s, KEY_U, true, false, ctrl).1.command == KeyCommand::Undo,
        key_event_spec(s, key, true, false, ctrl).1.command == KeyCommand::ClearAnnotations
            ==> key == KEY_C && !ctrl,
{
}

/// The navigation shortcuts, with no close key mapped: Esc exits, D and W enter the two
/// drawing modes, I the color picker, S saves, Ctrl+C copies, F toggles the spotlight,
/// 0 resets the view, +/- zoom, arrows pan, [ and ] size the spotlight.
pub proof fn lemma_navigation_keys(s: ControlState)
    requires
        s.mode == InteractionMode::Navigate,
        s.close_key is None,
    ensures
        key_event_spec(s, KEY_ESC, true, false, false).1.command == KeyCommand::Exit,
        key_event_spec(s, KEY_D, true, false, false).0.mode == InteractionMode::AnnotateZoomed,
        key_event_spec(s, KEY_W, true, false, false).0.mode == InteractionMode::AnnotateUnzoomed,
        key_event_spec(s, KEY_W, true, false, false).1.restore_views,
        !key_event_spec(s, KEY_D, true, false, false).1.restore_views,
        key_event_spec(s, KEY_I, true, false, false).0.mode == InteractionMode::ColorPicker,
        key_event_spec(s, KEY_S, true, false, false).1.command == KeyCommand::SaveScreenshot,
        key_event_spec(s, KEY_C, true, false, true).1.command == KeyCommand::CopyScreenshot,
        key_event_spec(s, KEY_F, true, false, false).0.spotlight_enabled == !s.spotlight_enabled,
        key_event_spec(s, KEY_F, true, false, false).1.command == KeyCommand::ToggledSpotlight,
        key_event_spec(s, KEY_0, true, false, false).1.command == KeyCommand::RestoreView,
        key_event_spec(s, KEY_EQUAL, true, false, false).1.command == KeyCommand::ZoomIn,
        key_event_spec(s, KEY_MINUS, true, false, false).1.command == KeyCommand::ZoomOut,
        key_event_spec(s, KEY_LEFT, true, false, false).1.command == KeyCommand::PanLeft,
        key_event_spec(s, KEY_RIGHT, true, false, false).1.command == KeyCommand::PanRight,
        key_event_spec(s, KEY_UP, true, false, false).1.command == KeyCommand::PanUp,
        key_event_spec(s, KEY_DOWN, true, false, false).1.command == KeyCommand::PanDown,
        key_event_spec(s, KEY_LEFTBRACE, true, false, false).1.command == KeyCommand::ShrinkSpotlight,
        key_event_spec(s, KEY_RIGHTBRACE, true, false, false).1.command == KeyCommand::GrowSpotlight,
        key_event_spec(s, KEY_EQUAL, true, false, false).0.repeat_key == Some(KEY_EQUAL),
{
}

/// The close key exits, except in the color picker and except that Escape first backs
/// out of annotation.
pub proof fn lemma_close_key_exits(s: ControlState, k: CloseKey, ctrl: bool)
    requires
        s.close_key == Some(k),
        s.mode != InteractionMode::ColorPicker,
        !(k == CloseKey::Escape && is_annotating_spec(s.mode)),
    ensures
        key_event_spec(s, key_code_spec(k), true, false, ctrl).1.command == KeyCommand::Exit,
{
}

/// While a text entry is open, Enter commits it, Backspace deletes a character, Escape
/// commits or drops it, and a letter is typed; no key exits.
pub proof fn lemma_text_entry_keys(s: ControlState, key: u32, ctrl: bool)
    ensures
        key_event_spec(s, KEY_ENTER, true, true, ctrl).1.command == KeyCommand::CommitText,
        key_event_spec(s, KEY_BACKSPACE, true, true, ctrl).1.command == KeyCommand::DeleteTextChar,
        key_event_spec(s, KEY_Q, true, true, ctrl).1.command == KeyCommand::TypeText,
        key_event_spec(s, KEY_ESC, true, true, ctrl).1.command == KeyCommand::CommitText
            || key_event_spec(s, KEY_ESC, true, true, ctrl).1.command == KeyCommand::DiscardText,
        key_event_spec(s, key, true, true, ctrl).1.command != KeyCommand::Exit,
        key_event_spec(s, key, true, true, ctrl).0.mode == s.mode,
{
}

/// In a drawing mode the digit, - and = keys pick the palette entry of their place on the
/// keyboard row: 1 the first, 0 the tenth, - and = the last two.
pub proof fn lemma_palette_keys(s: ControlState, ctrl: bool)
    requires
        is_annotating_spec(s.mode),
        s.close_key is None,
    ensures
        key_event_spec(s, KEY_1, true, false, ctrl).0.annotation_color_index == 0,
        key_event_spec(s, KEY_3, true, false, ctrl).0.annotation_color_index == 2,
        key_event_spec(s, KEY_9, true, false, ctrl).0.annotation_color_index == 8,
        key_event_spec(s, KEY_0, true, false, ctrl).0.annotation_color_index == 9,
        key_event_spec(s, KEY_MINUS, true, false, ctrl).0.annotation_color_index == 10,
        key_event_spec(s, KEY_EQUAL, true, false, ctrl).0.annotation_color_index == 11,
        key_event_spec(s, KEY_0, true, false, ctrl).1.command == (KeyCommand::SelectPaletteColor { index: 9 }),
{
}

} // verus!
