use vstd::prelude::*;

use crate::config::{close_key_label, close_key_label_spec, CloseKey};
use crate::raster::{
    blend_card_spec, card_size_ok, label_cells, label_fits, label_spec, lemma_label_cells_bound, Canvas,
};
use crate::render::{buffer_fits, stores_words, store_words_all};

verus! {

/// Scales and colors of the keyboard help.
pub const HELP_TITLE_SCALE: usize = 3;
pub const HELP_HEADING_SCALE: usize = 2;
pub const HELP_TEXT_SCALE: usize = 2;
pub const HELP_KEY_COLOR: u32 = 0xFFFF_C83D;
pub const HELP_TEXT_COLOR: u32 = 0xFFE0_E0E0;
pub const HELP_HEADING_COLOR: u32 = 0xFFFF_FFFF;
pub const HELP_DIM_COLOR: u32 = 0xFF7A_7A7A;
pub const HELP_BACKDROP: u32 = 0xCC10_1018;

/// Layout of the keyboard help, in pixels.
pub const HELP_HEADING_HEIGHT: usize = 14;
pub const HELP_ROW_HEIGHT: usize = 14;
pub const HELP_ROW_GAP: usize = 6;
pub const HELP_KEY_COLUMN_WIDTH: usize = 168;
pub const HELP_SECTION_WIDTH: usize = 384;
pub const HELP_COLUMN_GAP: usize = 48;
pub const HELP_PADDING: usize = 36;
pub const HELP_TITLE_HEIGHT: usize = 21;
pub const HELP_FOOTER_HEIGHT: usize = 50;

/// The sections of the keyboard help.
#[derive(Debug, Clone, Copy, PartialEq, Eq, Structural)]
pub enum HelpSectionId {
    Navigation,
    ColorPicker,
    Annotation,
    Global,
}

/// A heading and its (key, description) rows.
pub struct HelpSection {
    pub heading: &'static str,
    pub entries: Vec<(&'static str, &'static str)>,
}

/// The heading and rows of each section, as text.
pub open spec fn help_section_text(id: HelpSectionId) -> (Seq<char>, Seq<(Seq<char>, Seq<char>)>) {
    match id {
        HelpSectionId::Navigation => ("NAVIGATION"@, seq![("Scroll"@, "Zoom at pointer"@), ("Shift+Drag"@, "Box zoom area"@), ("Drag"@, "Pan"@), ("+/-"@, "Zoom center"@), ("Arrows"@, "Pan"@), ("0"@, "Reset view"@), ("f"@, "Spotlight"@), ("[ ]"@, "Spotlight size"@), ("Dbl click"@, "Reset view"@), ("Right click"@, "Exit"@)]),
        HelpSectionId::ColorPicker => ("COLOR PICKER"@, seq![("i"@, "Toggle picker"@), ("Move"@, "Update swatch"@), ("Left click"@, "Copy hex"@), ("Esc"@, "Leave picker"@)]),
        HelpSectionId::Annotation => ("ANNOTATION"@, seq![("d"@, "Draw zoomed"@), ("w"@, "Draw full view"@), ("p/h/l/r/e"@, "Tools"@), ("t"@, "Text mode"@), ("m"@, "Move mode"@), ("Drag"@, "Draw or move"@), ("Click"@, "Place text"@), ("1-0 - ="@, "Select color"@), ("[ ]"@, "Text size"@), ("Enter"@, "Commit text"@), ("Backspace"@, "Delete char"@), ("u"@, "Undo"@), ("c"@, "Clear"@), ("Esc"@, "Back"@)]),
        HelpSectionId::Global => ("GLOBAL"@, seq![("s"@, "Save screenshot"@), ("Ctrl+C"@, "Copy to clipboard"@), ("?"@, "This help"@)]),
    }
}

/// A section as text.
pub open spec fn section_view(section: HelpSection) -> (Seq<char>, Seq<(Seq<char>, Seq<char>)>) {
    (section.heading@, section.entries@.map_values(|e: (&'static str, &'static str)| (e.0@, e.1@)))
}

/// Every text of the section is at most 20 characters, and it has at most 20 rows.
pub open spec fn section_short(text: (Seq<char>, Seq<(Seq<char>, Seq<char>)>)) -> bool {
    &&& text.0.len() <= 20
    &&& text.1.len() <= 20
    &&& forall|i: int| 0 <= i < text.1.len() ==> (#[trigger] text.1[i]).0.len() <= 20 && text.1[i].1.len() <= 20
}

/// Every help section is short: heading, keys and descriptions of at most 20 characters, at most 20 rows.
pub proof fn lemma_help_sections_short(id: HelpSectionId)
    ensures
        section_short(help_section_text(id)),
{
    reveal_strlit("+/-");
    reveal_strlit("0");
    reveal_strlit("1-0 - =");
    reveal_strlit("?");
    reveal_strlit("ANNOTATION");
    reveal_strlit("Arrows");
    reveal_strlit("Back");
    reveal_strlit("Backspace");
    reveal_strlit("Box zoom area");
    reveal_strlit("COLOR PICKER");
    reveal_strlit("Clear");
    reveal_strlit("Click");
    reveal_strlit("Commit text");
    reveal_strlit("Copy hex");
    reveal_strlit("Copy to clipboard");
    reveal_strlit("Ctrl+C");
    reveal_strlit("Dbl click");
    reveal_strlit("Delete char");
    reveal_strlit("Drag");
    reveal_strlit("Draw full view");
    reveal_strlit("Draw or move");
    reveal_strlit("Draw zoomed");
    reveal_strlit("Enter");
    reveal_strlit("Esc");
    reveal_strlit("Exit");
    reveal_strlit("GLOBAL");
    reveal_strlit("Leave picker");
    reveal_strlit("Left click");
    reveal_strlit("Move");
    reveal_strlit("Move mode");
    reveal_strlit("NAVIGATION");
    reveal_strlit("Pan");
    reveal_strlit("Place text");
    reveal_strlit("Reset view");
    reveal_strlit("Right click");
    reveal_strlit("Save screenshot");
    reveal_strlit("Scroll");
    reveal_strlit("Select color");
    reveal_strlit("Shift+Drag");
    reveal_strlit("Spotlight");
    reveal_strlit("Spotlight size");
    reveal_strlit("Text mode");
    reveal_strlit("Text size");
    reveal_strlit("This help");
    reveal_strlit("Toggle picker");
    reveal_strlit("Tools");
    reveal_strlit("Undo");
    reveal_strlit("Update swatch");
    reveal_strlit("Zoom at pointer");
    reveal_strlit("Zoom center");
    reveal_strlit("[ ]");
    reveal_strlit("c");
    reveal_strlit("d");
    reveal_strlit("f");
    reveal_strlit("i");
    reveal_strlit("m");
    reveal_strlit("p/h/l/r/e");
    reveal_strlit("s");
    reveal_strlit("t");
    reveal_strlit("u");
    reveal_strlit("w");
}

/// Builds a section of the keyboard help.
pub fn help_section(id: HelpSectionId) -> (section: HelpSection)
    ensures
        section_view(section) == help_section_text(id),
{
    let section = match id {
        HelpSectionId::Navigation => {
            let mut entries: Vec<(&'static str, &'static str)> = Vec::new();
            entries.push(("Scroll", "Zoom at pointer"));
            entries.push(("Shift+Drag", "Box zoom area"));
            entries.push(("Drag", "Pan"));
            entries.push(("+/-", "Zoom center"));
            entries.push(("Arrows", "Pan"));
            entries.push(("0", "Reset view"));
            entries.push(("f", "Spotlight"));
            entries.push(("[ ]", "Spotlight size"));
            entries.push(("Dbl click", "Reset view"));
            entries.push(("Right click", "Exit"));
            HelpSection { heading: "NAVIGATION", entries }
        },
        HelpSectionId::ColorPicker => {
            let mut entries: Vec<(&'static str, &'static str)> = Vec::new();
            entries.push(("i", "Toggle picker"));
            entries.push(("Move", "Update swatch"));
            entries.push(("Left click", "Copy hex"));
            entries.push(("Esc", "Leave picker"));
            HelpSection { heading: "COLOR PICKER", entries }
        },
        HelpSectionId::Annotation => {
            let mut entries: Vec<(&'static str, &'static str)> = Vec::new();
            entries.push(("d", "Draw zoomed"));
            entries.push(("w", "Draw full view"));
            entries.push(("p/h/l/r/e", "Tools"));
            entries.push(("t", "Text mode"));
            entries.push(("m", "Move mode"));
            entries.push(("Drag", "Draw or move"));
            entries.push(("Click", "Place text"));
            entries.push(("1-0 - =", "Select color"));
            entries.push(("[ ]", "Text size"));
            entries.push(("Enter", "Commit text"));
            entries.push(("Backspace", "Delete char"));
            entries.push(("u", "Undo"));
            entries.push(("c", "Clear"));
            entries.push(("Esc", "Back"));
            HelpSection { heading: "ANNOTATION", entries }
        },
        HelpSectionId::Global => {
            let mut entries: Vec<(&'static str, &'static str)> = Vec::new();
            entries.push(("s", "Save screenshot"));
            entries.push(("Ctrl+C", "Copy to clipboard"));
            entries.push(("?", "This help"));
            HelpSection { heading: "GLOBAL", entries }
        },
    };
    proof {
        assert(section_view(section).1 =~= help_section_text(id).1);
    }
    section
}

/// Height of a section with `rows` rows: heading, gap, then one row height and gap per row.
pub open spec fn section_height_spec(rows: int) -> int {
    HELP_HEADING_HEIGHT + HELP_ROW_GAP * 2 + rows * (HELP_ROW_HEIGHT + HELP_ROW_GAP)
}

/// Height of a section.
pub fn help_section_height(section: &HelpSection) -> (height: usize)
    requires
        section.entries@.len() <= 0x100_0000,
    ensures
        height == section_height_spec(section.entries@.len() as int),
{
    let rows = section.entries.len();
    assert(rows * 20 <= 0x100_0000 * 20) by (nonlinear_arith)
        requires rows <= 0x100_0000;
    HELP_HEADING_HEIGHT + HELP_ROW_GAP * 2 + rows * (HELP_ROW_HEIGHT + HELP_ROW_GAP)
}

/// The first `k` rows of a section at (x, y): key in the key color, description in the key column's right.
pub open spec fn help_rows_spec(
    px: Seq<u32>,
    w: int,
    h: int,
    x: int,
    y: int,
    entries: Seq<(Seq<char>, Seq<char>)>,
    k: nat,
) -> Seq<u32>
    decreases k,
{
    if k == 0 {
        px
    } else {
        let before = help_rows_spec(px, w, h, x, y, entries, (k - 1) as nat);
        let row_y = y + section_height_spec(k - 1);
        let keyed = label_spec(before, w, h, x, row_y, entries[k - 1].0, HELP_TEXT_SCALE, HELP_KEY_COLOR).0;
        label_spec(keyed, w, h, x + HELP_KEY_COLUMN_WIDTH, row_y, entries[k - 1].1, HELP_TEXT_SCALE, HELP_TEXT_COLOR).0
    }
}

/// The pixels after drawing a section with its top-left corner at (x, y).
pub open spec fn help_section_spec(px: Seq<u32>, w: int, h: int, x: int, y: int, text: (Seq<char>, Seq<(Seq<char>, Seq<char>)>)) -> Seq<u32> {
    let headed = label_spec(px, w, h, x, y, text.0, HELP_HEADING_SCALE, HELP_HEADING_COLOR).0;
    help_rows_spec(headed, w, h, x, y, text.1, text.1.len())
}

/// A short label at (x, y), both at most 2^30 + 8192, fits in `i32` arithmetic.
proof fn lemma_short_label_fits(x: int, y: int, chars: Seq<char>, scale: usize)
    requires
        0 <= x <= 0x4000_2000,
        0 <= y <= 0x4000_2000,
        chars.len() <= 40,
        1 <= scale <= 3,
    ensures
        label_fits(x, y, chars, scale),
{
    lemma_label_cells_bound(chars);
    assert(6 * scale * label_cells(chars) <= 6 * 3 * 320) by (nonlinear_arith)
        requires 1 <= scale <= 3, 0 <= label_cells(chars) <= 320;
}

impl Canvas {
    /// Draws a section of the keyboard help with its top-left corner at (x, y).
    pub fn draw_help_section(&mut self, x: usize, y: usize, section: &HelpSection)
        requires
            old(self).wf(),
            x <= 0x4000_1000,
            y <= 0x4000_1000,
            section_short(section_view(*section)),
        ensures
            final(self).wf(),
            final(self).width == old(self).width,
            final(self).height == old(self).height,
            final(self).pixels@.len() == old(self).pixels@.len(),
            final(self).pixels@ == help_section_spec(old(self).pixels@, old(self).width as int, old(self).height as int, x as int, y as int,
                section_view(*section)),
    {
        let ghost old_px = self.pixels@;
        let ghost w = self.width as int;
        let ghost h = self.height as int;
        let ghost text = section_view(*section);
        proof {
            lemma_short_label_fits(x as int, y as int, text.0, HELP_HEADING_SCALE);
        }
        self.draw_label(x as i32, y as i32, section.heading, HELP_HEADING_SCALE, HELP_HEADING_COLOR);
        let ghost headed = self.pixels@;
        let n = section.entries.len();
        let mut row_y = y + HELP_HEADING_HEIGHT + HELP_ROW_GAP * 2;
        let mut i: usize = 0;
        while i < n
            invariant
                self.wf(),
                self.width == w,
                self.height == h,
                self.pixels@.len() == old_px.len(),
                text == section_view(*section),
                section_short(text),
                n == text.1.len(),
                x <= 0x4000_1000,
                y <= 0x4000_1000,
                i <= n,
                row_y == y + section_height_spec(i as int),
                self.pixels@ == help_rows_spec(headed, w, h, x as int, y as int, text.1, i as nat),
            decreases n - i,
        {
            let (key, desc) = section.entries[i];
            proof {
                assert(text.1[i as int] == (key@, desc@));
                lemma_short_label_fits(x as int, row_y as int, key@, HELP_TEXT_SCALE);
                lemma_short_label_fits((x + HELP_KEY_COLUMN_WIDTH) as int, row_y as int, desc@, HELP_TEXT_SCALE);
            }
            self.draw_label(x as i32, row_y as i32, key, HELP_TEXT_SCALE, HELP_KEY_COLOR);
            self.draw_label((x + HELP_KEY_COLUMN_WIDTH) as i32, row_y as i32, desc, HELP_TEXT_SCALE, HELP_TEXT_COLOR);
            row_y = row_y + HELP_ROW_HEIGHT + HELP_ROW_GAP;
            i = i + 1;
        }
    }
}

/// The columns of the keyboard help: three on wide outputs, two otherwise.
pub open spec fn help_layout(three: bool) -> Seq<Seq<HelpSectionId>> {
    if three {
        seq![
            seq![HelpSectionId::Navigation, HelpSectionId::Global],
            seq![HelpSectionId::ColorPicker],
            seq![HelpSectionId::Annotation],
        ]
    } else {
        seq![
            seq![HelpSectionId::Navigation, HelpSectionId::ColorPicker],
            seq![HelpSectionId::Annotation, HelpSectionId::Global],
        ]
    }
}

/// Width of `count` columns with their gaps and the padding on both sides.
pub open spec fn columns_width(count: int) -> int {
    HELP_SECTION_WIDTH * count + HELP_COLUMN_GAP * (count - 1) + HELP_PADDING * 2
}

/// Three columns are used when the output is at least this wide.
pub open spec fn uses_three_columns(width: int) -> bool {
    width >= columns_width(3) + 80
}

/// Offset from the column top of section `k`: the heights of the sections above it,
/// each followed by the padding.
pub open spec fn column_offset(ids: Seq<HelpSectionId>, k: int) -> int
    decreases k,
{
    if k <= 0 {
        0
    } else {
        column_offset(ids, k - 1) + section_height_spec(help_section_text(ids[k - 1]).1.len() as int) + HELP_PADDING
    }
}

/// Height of a column.
pub open spec fn column_height(ids: Seq<HelpSectionId>) -> int {
    column_offset(ids, ids.len() as int) - HELP_PADDING
}

/// Height of the tallest of the first `k` columns (0 for none).
pub open spec fn body_height(columns: Seq<Seq<HelpSectionId>>, k: int) -> int
    decreases k,
{
    if k <= 0 {
        0
    } else {
        let rest = body_height(columns, k - 1);
        let this = column_height(columns[k - 1]);
        if this > rest { this } else { rest }
    }
}

pub open spec fn sat_sub(a: int, b: int) -> int {
    if a >= b { a - b } else { 0 }
}

pub open spec fn min_of(a: int, b: int) -> int {
    if a <= b { a } else { b }
}

/// Size and position of the help card on a `w` by `h` output.
pub open spec fn help_card_width(w: int) -> int {
    let columns = help_layout(uses_three_columns(w));
    min_of(columns_width(columns.len() as int), sat_sub(w, 40))
}

pub open spec fn help_card_height(w: int, h: int) -> int {
    let columns = help_layout(uses_three_columns(w));
    min_of(HELP_TITLE_HEIGHT + HELP_PADDING * 3 + body_height(columns, columns.len() as int) + HELP_FOOTER_HEIGHT, sat_sub(h, 40))
}

pub open spec fn help_card_x(w: int) -> int {
    sat_sub(w, help_card_width(w)) / 2
}

pub open spec fn help_card_y(w: int, h: int) -> int {
    sat_sub(h, help_card_height(w, h)) / 2
}

/// The first `k` sections of a column at (x, y).
pub open spec fn column_spec(px: Seq<u32>, w: int, h: int, x: int, y: int, ids: Seq<HelpSectionId>, k: nat) -> Seq<u32>
    decreases k,
{
    if k == 0 {
        px
    } else {
        help_section_spec(column_spec(px, w, h, x, y, ids, (k - 1) as nat), w, h, x, y + column_offset(ids, k - 1), help_section_text(ids[k - 1]))
    }
}

/// The first `k` columns, side by side from x.
pub open spec fn columns_spec(px: Seq<u32>, w: int, h: int, x: int, y: int, columns: Seq<Seq<HelpSectionId>>, k: nat) -> Seq<u32>
    decreases k,
{
    if k == 0 {
        px
    } else {
        let ids = columns[k - 1];
        column_spec(columns_spec(px, w, h, x, y, columns, (k - 1) as nat), w, h, x + (k - 1) * (HELP_SECTION_WIDTH + HELP_COLUMN_GAP), y, ids, ids.len())
    }
}

/// The footer line of the keyboard help.
pub open spec fn help_footer(close_key: Option<CloseKey>) -> Seq<char> {
    "Press ? or "@ + close_key_label_spec(close_key) + " to close"@
}

/// The keyboard help: the whole buffer dimmed, a card in the middle with the title,
/// the sections in columns and the footer centered at the bottom.
pub open spec fn help_overlay_spec(len: int, w: int, h: int, close_key: Option<CloseKey>) -> Seq<u32> {
    let columns = help_layout(uses_three_columns(w));
    let cw = help_card_width(w);
    let ch = help_card_height(w, h);
    let cx = help_card_x(w);
    let cy = help_card_y(w, h);
    let p0 = Seq::new(len as nat, |i: int| HELP_BACKDROP);
    let p1 = blend_card_spec(p0, w, h, cx, cy, cw, ch);
    let p2 = label_spec(p1, w, h, cx + HELP_PADDING, cy + HELP_PADDING, "KEYBOARD SHORTCUTS"@, HELP_TITLE_SCALE, HELP_HEADING_COLOR).0;
    let p3 = columns_spec(p2, w, h, cx + HELP_PADDING, cy + HELP_PADDING + HELP_TITLE_HEIGHT + HELP_PADDING * 2, columns, columns.len());
    let footer = help_footer(close_key);
    let footer_x = cx + sat_sub(cw, footer.len() * 6 * HELP_TEXT_SCALE) / 2;
    let footer_y = cy + ch - HELP_FOOTER_HEIGHT;
    label_spec(p3, w, h, footer_x, footer_y, footer, HELP_TEXT_SCALE, HELP_DIM_COLOR).0
}

/// The keyboard help can be painted: the card's bottom leaves room for the footer
/// and, where the card is drawn, its corners fit.
pub open spec fn help_fits(w: int, h: int) -> bool {
    &&& h >= 90
    &&& !(41 <= w <= 64)
}

/// Whether the keyboard help can be painted `width` by `height`.
pub fn help_fits_check(width: usize, height: usize) -> (ok: bool)
    ensures
        ok == help_fits(width as int, height as int),
{
    height >= 90 && !(41 <= width && width <= 64)
}

/// Section ids of column `index` of the layout.
fn column_ids(three: bool, index: usize) -> (ids: Vec<HelpSectionId>)
    requires
        index < help_layout(three).len(),
    ensures
        ids@ == help_layout(three)[index as int],
{
    let mut ids: Vec<HelpSectionId> = Vec::new();
    if three {
        if index == 0 {
            ids.push(HelpSectionId::Navigation);
            ids.push(HelpSectionId::Global);
        } else if index == 1 {
            ids.push(HelpSectionId::ColorPicker);
        } else {
            ids.push(HelpSectionId::Annotation);
        }
    } else {
        if index == 0 {
            ids.push(HelpSectionId::Navigation);
            ids.push(HelpSectionId::ColorPicker);
        } else {
            ids.push(HelpSectionId::Annotation);
            ids.push(HelpSectionId::Global);
        }
    }
    assert(ids@ =~= help_layout(three)[index as int]);
    ids
}

/// The tallest column is 348 pixels in the three-column layout and 428 in the other.
pub proof fn lemma_help_body_heights()
    ensures
        body_height(help_layout(true), 3) == 348,
        body_height(help_layout(false), 2) == 428,
{
    reveal_with_fuel(body_height, 4);
    reveal_with_fuel(column_offset, 3);
    let three = help_layout(true);
    let two = help_layout(false);
    assert(column_height(three[0]) == 348);
    assert(column_height(three[1]) == 106);
    assert(column_height(three[2]) == 306);
    assert(column_height(two[0]) == 368);
    assert(column_height(two[1]) == 428);
}

/// Paints the keyboard help into `pixels`, a `width` by `height` ARGB buffer: the whole
/// buffer is dimmed and a card lists the shortcuts, in three columns on wide outputs.
pub fn paint_help_overlay(pixels: &mut [u8], width: usize, height: usize, close_key: Option<CloseKey>)
    requires
        buffer_fits(old(pixels)@.len() as int, width as int, height as int),
        help_fits(width as int, height as int),
    ensures
        final(pixels)@.len() == old(pixels)@.len(),
        stores_words(final(pixels)@, help_overlay_spec(old(pixels)@.len() as int / 4, width as int, height as int, close_key)),
{
    let len = pixels.len();
    let ghost w = width as int;
    let ghost h = height as int;
    let mut canvas = Canvas::filled(len / 4, width, height, HELP_BACKDROP);
    let three = width >= HELP_SECTION_WIDTH * 3 + HELP_COLUMN_GAP * 2 + HELP_PADDING * 2 + 80;
    assert(three == uses_three_columns(w));
    let column_count: usize = if three { 3 } else { 2 };
    assert(column_count == help_layout(three).len());
    proof {
        lemma_help_body_heights();
    }
    let body_height: usize = if three { 348 } else { 428 };
    let columns_w = HELP_SECTION_WIDTH * column_count + HELP_COLUMN_GAP * (column_count - 1) + HELP_PADDING * 2;
    let room_w = width.saturating_sub(40);
    let card_w = if columns_w <= room_w { columns_w } else { room_w };
    let total_h = HELP_TITLE_HEIGHT + HELP_PADDING * 3 + body_height + HELP_FOOTER_HEIGHT;
    let room_h = height.saturating_sub(40);
    let card_h = if total_h <= room_h { total_h } else { room_h };
    let card_x = width.saturating_sub(card_w) / 2;
    let card_y = height.saturating_sub(card_h) / 2;
    assert(card_w == help_card_width(w));
    assert(card_h == help_card_height(w, h));
    canvas.blend_card(card_x, card_y, card_w, card_h);

    let content_x = card_x + HELP_PADDING;
    proof {
        reveal_strlit("KEYBOARD SHORTCUTS");
        lemma_short_label_fits(content_x as int, (card_y + HELP_PADDING) as int, "KEYBOARD SHORTCUTS"@, HELP_TITLE_SCALE);
    }
    canvas.draw_label(content_x as i32, (card_y + HELP_PADDING) as i32, "KEYBOARD SHORTCUTS", HELP_TITLE_SCALE, HELP_HEADING_COLOR);

    let ghost titled = canvas.pixels@;
    let ghost columns = help_layout(three);
    let body_y = card_y + HELP_PADDING + HELP_TITLE_HEIGHT + HELP_PADDING * 2;
    let mut index: usize = 0;
    while index < column_count
        invariant
            canvas.wf(),
            canvas.width == width,
            canvas.height == height,
            w == width as int,
            h == height as int,
            canvas.pixels@.len() == len / 4,
            columns == help_layout(three),
            column_count == columns.len(),
            column_count <= 3,
            index <= column_count,
            width <= i32::MAX,
            height <= i32::MAX,
            content_x <= width / 2 + 36,
            body_y <= height / 2 + 129,
            canvas.pixels@ == columns_spec(titled, w, h, content_x as int, body_y as int, columns, index as nat),
        decreases column_count - index,
    {
        assert(index * (HELP_SECTION_WIDTH + HELP_COLUMN_GAP) <= 864) by (nonlinear_arith)
            requires index < 3;
        let x = content_x + index * (HELP_SECTION_WIDTH + HELP_COLUMN_GAP);
        let ids = column_ids(three, index);
        let count = ids.len();
        let ghost before = canvas.pixels@;
        let mut y = body_y;
        let mut k: usize = 0;
        while k < count
            invariant
                canvas.wf(),
                canvas.width == width,
                canvas.height == height,
                w == width as int,
                h == height as int,
                canvas.pixels@.len() == len / 4,
                ids@ == columns[index as int],
                count == ids@.len(),
                count <= 2,
                k <= count,
                k <= 2,
                x <= width / 2 + 36 + 864,
                width <= i32::MAX,
                body_y <= height / 2 + 129,
                height <= i32::MAX,
                y == body_y + column_offset(ids@, k as int),
                column_offset(ids@, k as int) <= 462 * k,
                canvas.pixels@ == column_spec(before, w, h, x as int, body_y as int, ids@, k as nat),
            decreases count - k,
        {
            let section = help_section(ids[k]);
            let ghost prior = canvas.pixels@;
            let ghost y0 = y as int;
            proof {
                lemma_help_sections_short(ids@[k as int]);
                reveal_with_fuel(column_offset, 2);
                assert(462 * k <= 924) by (nonlinear_arith)
                    requires k < 2;
            }
            canvas.draw_help_section(x, y, &section);
            proof {
                assert(section_view(section) == help_section_text(ids@[k as int]));
                assert(canvas.pixels@ == help_section_spec(prior, w, h, x as int, body_y + column_offset(ids@, k as int), help_section_text(ids@[k as int])));
                assert(column_spec(before, w, h, x as int, body_y as int, ids@, (k + 1) as nat)
                    == help_section_spec(column_spec(before, w, h, x as int, body_y as int, ids@, k as nat), w, h, x as int,
                        body_y + column_offset(ids@, k as int), help_section_text(ids@[k as int])));
            }
            y = y + help_section_height(&section) + HELP_PADDING;
            proof {
                assert(section_view(section) == help_section_text(ids@[k as int]));
                assert(column_offset(ids@, k + 1) == column_offset(ids@, k as int)
                    + section_height_spec(help_section_text(ids@[k as int]).1.len() as int) + HELP_PADDING);
            }
            k = k + 1;
        }
        index = index + 1;
    }

    let mut footer = String::from_str("Press ? or ");
    footer.append(close_key_label(close_key));
    footer.append(" to close");
    proof {
        reveal_strlit("Press ? or ");
        reveal_strlit(" to close");
        reveal_strlit("Esc");
        reveal_strlit("Q");
        reveal_strlit("X");
        assert(footer@ == help_footer(close_key));
    }
    let footer_w = footer.unicode_len() * 6 * HELP_TEXT_SCALE;
    let footer_x = card_x + card_w.saturating_sub(footer_w) / 2;
    let footer_y = card_y + card_h - HELP_FOOTER_HEIGHT;
    proof {
        lemma_short_label_fits(footer_x as int, footer_y as int, footer@, HELP_TEXT_SCALE);
    }
    canvas.draw_label(footer_x as i32, footer_y as i32, footer.as_str(), HELP_TEXT_SCALE, HELP_DIM_COLOR);
    assert(4 * (len as int / 4) == len);
    store_words_all(pixels, canvas.pixels.as_slice());
}

} // verus!
