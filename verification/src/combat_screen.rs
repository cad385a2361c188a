//! The fight painted over the viewport: the two panel bands that leave the scene clear
//! between them, text on the viewport's grid, and the modal that follows a wipe.

use vstd::prelude::*;
use crate::combat_menu::{DEFEAT_ITEMS, DefeatMenu};
use crate::font::{fit, spec_fit};
use crate::layout::{Rect, VIEWPORT_COLUMNS, cell, fits_i32, spec_cell};
use crate::raster::{Ink, Rgb};
use crate::screens::{modal, spec_modal_inks, spec_modal_widgets, texts};
use crate::text::LONG_CELLS;
use crate::widget::{Frame, PANEL, lemma_frame_nothing, lemma_frame_then_ink};

verus! {

/// Log lines the defeat modal shows: the tail of the fight.
pub const DEFEAT_LOG_ROWS: usize = 4;
/// Cells a modal line may take inside the defeat box: a whole log line.
pub const DEFEAT_LINE_CELLS: usize = LONG_CELLS;
/// The defeat box's height in rows: the title, the log lines, two buttons, and the gaps.
pub const DEFEAT_ROWS: i32 = 12;

/// The panel above the clear window: the header, the stack rows, a blank row.
pub open spec fn spec_top_panel() -> Rect {
    Rect { x: 0, y: 0, w: 960, h: 72 }
}

/// The panel below the clear window, its last seven rows to the viewport's bottom edge.
pub open spec fn spec_bottom_panel() -> Rect {
    Rect { x: 0, y: 480, w: 960, h: 60 }
}

/// Where the defeat modal sits: the lines plus two cells of margin each side, twelve rows
/// high, centred in the viewport with its top on a text row.
pub open spec fn spec_defeat_rect() -> Rect {
    Rect { x: 168, y: 216, w: 624, h: 96 }
}

/// The panel above the clear window.
pub fn top_panel() -> (r: Rect)
    ensures
        r == spec_top_panel(),
{
    Rect::new(0, 0, 960, 9 * 8)
}

/// The panel below the clear window.
pub fn bottom_panel() -> (r: Rect)
    ensures
        r == spec_bottom_panel(),
{
    let top = (VIEWPORT_ROWS_USED - 7) * 8;
    Rect::new(0, top, 960, (540 - top) as u32)
}

/// The viewport's text rows, whole ones.
const VIEWPORT_ROWS_USED: i32 = 67;

/// Where the defeat modal sits.
pub fn defeat_rect() -> (r: Rect)
    ensures
        r == spec_defeat_rect(),
{
    let w: u32 = (DEFEAT_LINE_CELLS as u32 + 4) * 6;
    let h: u32 = DEFEAT_ROWS as u32 * 8;
    Rect::new(((960 - w) / 2) as i32, ((540 - h) as i32 / 2 / 8) * 8, w, h)
}

/// A row's rectangle on the viewport grid: `cells` wide from a cell.
pub fn vp_rect(column: i32, row: i32, cells: usize) -> (r: Rect)
    requires
        fits_i32(1 + column * 6),
        fits_i32(row * 8),
        cells * 6 <= u32::MAX,
    ensures
        r == (Rect {
            x: spec_cell(column as int, row as int).0 as i32,
            y: spec_cell(column as int, row as int).1 as i32,
            w: (cells * 6) as u32,
            h: 8,
        }),
{
    let (x, y) = cell(column, row);
    Rect::new(x, y, cells as u32 * 6, 8)
}

/// Paint plain text at a cell of the viewport grid.
pub fn vp_label(frame: &mut Frame, column: i32, row: i32, text: &str, color: Rgb)
    requires
        old(frame).wf(),
        -0x100_0000 <= column <= 0x100_0000,
        -0x100_0000 <= row <= 0x100_0000,
    ensures
        Frame::painted(
            *old(frame),
            *final(frame),
            seq![
                Ink::Text {
                    x: spec_cell(column as int, row as int).0,
                    y: spec_cell(column as int, row as int).1,
                    text: text@,
                    color,
                },
            ],
            Seq::empty(),
        ),
{
    let ghost f0 = *frame;
    let (x, y) = cell(column, row);
    frame.raster.text(x, y, text, color);
    proof {
        lemma_frame_nothing(f0);
        let op = Ink::Text { x: x as int, y: y as int, text: text@, color };
        lemma_frame_then_ink(f0, f0, *frame, Seq::empty(), Seq::empty(), op);
        assert(Seq::<Ink>::empty().push(op) =~= seq![op]);
    }
}

/// The column a run starts at to end a column in from the viewport's edge; never left of
/// the first.
pub open spec fn spec_vp_right_column(len: int) -> int {
    if 159 - len < 0 {
        0
    } else {
        159 - len
    }
}

/// Paint text right-aligned a column in from the viewport's edge.
pub fn vp_label_right(frame: &mut Frame, row: i32, text: &str, color: Rgb)
    requires
        old(frame).wf(),
        -0x100_0000 <= row <= 0x100_0000,
    ensures
        Frame::painted(
            *old(frame),
            *final(frame),
            seq![
                Ink::Text {
                    x: spec_cell(spec_vp_right_column(text@.len() as int), row as int).0,
                    y: spec_cell(spec_vp_right_column(text@.len() as int), row as int).1,
                    text: text@,
                    color,
                },
            ],
            Seq::empty(),
        ),
{
    let n = text.unicode_len();
    let column = if n >= (VIEWPORT_COLUMNS - 1) as usize {
        0
    } else {
        VIEWPORT_COLUMNS - 1 - n as i32
    };
    vp_label(frame, column, row, text, color);
}

/// The two panel bands; the rows between stay clear for the scene.
pub fn panels(frame: &mut Frame)
    requires
        old(frame).wf(),
    ensures
        Frame::painted(
            *old(frame),
            *final(frame),
            seq![
                Ink::Fill { rect: spec_top_panel(), color: PANEL },
                Ink::Fill { rect: spec_bottom_panel(), color: PANEL },
            ],
            Seq::empty(),
        ),
{
    let ghost f0 = *frame;
    proof {
        lemma_frame_nothing(f0);
    }
    frame.raster.fill(top_panel(), PANEL);
    let ghost f1 = *frame;
    let ghost op1 = Ink::Fill { rect: spec_top_panel(), color: PANEL };
    proof {
        lemma_frame_then_ink(f0, f0, f1, Seq::empty(), Seq::empty(), op1);
    }
    frame.raster.fill(bottom_panel(), PANEL);
    proof {
        let op2 = Ink::Fill { rect: spec_bottom_panel(), color: PANEL };
        lemma_frame_then_ink(f0, f1, *frame, Seq::empty().push(op1), Seq::empty(), op2);
        assert(Seq::empty().push(op1).push(op2) =~= seq![op1, op2]);
    }
}

/// The defeat modal's lines: the log's last four, each fitted to a log line's cells, or a
/// plain word when the log is empty.
pub open spec fn spec_defeat_lines(log: Seq<String>) -> Seq<Seq<char>> {
    if log.len() == 0 {
        seq!["Every member is down."@]
    } else {
        let start = if log.len() < 4 {
            0
        } else {
            log.len() - 4
        };
        Seq::new((log.len() - start) as nat, |i: int| spec_fit(log[start + i]@, 100))
    }
}

/// The defeat modal's paints.
pub open spec fn spec_defeat_inks(cursor: int, log: Seq<String>) -> Seq<Ink> {
    spec_modal_inks(
        spec_defeat_rect(),
        "The party has fallen"@,
        spec_defeat_lines(log),
        seq![DEFEAT_ITEMS[0]@, DEFEAT_ITEMS[1]@],
        cursor,
    )
}

/// "The party has fallen", the log's tail under it, and the two choices.
pub fn defeat(frame: &mut Frame, menu: &DefeatMenu, log: &[String])
    requires
        old(frame).wf(),
        -0x1000_0000 <= old(frame).raster.origin.0 <= 0x1000_0000,
        -0x1000_0000 <= old(frame).raster.origin.1 <= 0x1000_0000,
    ensures
        Frame::painted(
            *old(frame),
            *final(frame),
            spec_defeat_inks(menu.cursor as int, log@),
            spec_modal_widgets(spec_defeat_rect(), seq![DEFEAT_ITEMS[0]@, DEFEAT_ITEMS[1]@], 2),
        ),
{
    let start = if log.len() < DEFEAT_LOG_ROWS {
        0
    } else {
        log.len() - DEFEAT_LOG_ROWS
    };
    let mut lines: Vec<String> = Vec::new();
    if log.len() == 0 {
        lines.push("Every member is down.".to_owned());
    } else {
        let mut i: usize = start;
        while i < log.len()
            invariant
                start <= i <= log@.len(),
                log@.len() > 0,
                start == (if log@.len() < 4 { 0 } else { log@.len() - 4 }),
                lines@.len() == i - start,
                forall|k: int| 0 <= k < lines@.len() ==> #[trigger] lines@[k]@ == spec_fit(log@[start + k]@, 100),
            decreases log@.len() - i,
        {
            lines.push(fit(log[i].as_str(), DEFEAT_LINE_CELLS));
            i = i + 1;
        }
    }
    let mut refs: Vec<&str> = Vec::new();
    let mut j: usize = 0;
    while j < lines.len()
        invariant
            j <= lines@.len(),
            refs@.len() == j,
            forall|k: int| 0 <= k < j ==> #[trigger] refs@[k]@ == lines@[k]@,
        decreases lines@.len() - j,
    {
        refs.push(lines[j].as_str());
        j = j + 1;
    }
    let items: [&str; 2] = DEFEAT_ITEMS;
    proof {
        reveal_strlit("Load last save");
        reveal_strlit("Quit to title");
        assert(texts(refs@) =~= spec_defeat_lines(log@));
        assert(texts(items@) =~= seq![DEFEAT_ITEMS[0]@, DEFEAT_ITEMS[1]@]);
    }
    modal(frame, defeat_rect(), "The party has fallen", refs.as_slice(), items.as_slice(), menu.cursor);
}

} // verus!
