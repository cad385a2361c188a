//! The menu screens painted over the viewport: the title and the modal box the defeat screen
//! uses. Each paints its text on the menu grid and registers the rows the mouse can hit,
//! keyed by the row indices the models in `menu.rs` already use. `combat_screen.rs` paints on
//! the viewport's own grid with `item_state_at`.

use vstd::prelude::*;
use crate::layout::{MENU_COLUMNS, Rect, menu_cell, spec_cell};
use crate::menu::{NewGameForm, PAUSE_ITEMS, Pause, Settings, TITLE_ITEMS, Title, rule_label, spec_rule_label};
use crate::text::{decimal, push_decimal, push_digits, push_padded_left, push_str, spec_decimal, spec_digits, spec_pad_left};
use crate::debug_screen::ABILITY_SHORT;
use crate::creation_menu::{
    ALIGNMENTS, Catalog, CreationForm, Label, ROW_ADD, ROW_BEGIN, ROW_BACKGROUND, ROW_CLASS, ROW_NAME, ROW_RACE, ROW_SCORES,
    ROW_SKILLS, Skill, spec_choice_id, spec_has_skill, spec_label_of, spec_spent,
};
use crate::menu::{spec_words, words};
use crate::raster::{Ink, Rgb};
use crate::widget::{
    DIM, FRAME, Frame, HI, Kind, PANEL, TEXT, Widget, WidgetId, lemma_frame_nothing,
    lemma_frame_then, lemma_frame_then_ink, lemma_frame_then_push,
};

verus! {

/// A coordinate well inside `i32`, so a few rows and cells more or less still fit.
pub open spec fn near(v: int) -> bool {
    -0x1000_0000 <= v <= 0x1000_0000
}

/// A row of the menu grid as a rectangle: `cells` wide from the cell at `(column, row)`.
pub open spec fn spec_row_rect(column: int, row: int, cells: int) -> Rect {
    Rect {
        x: spec_cell(column, row).0 as i32,
        y: spec_cell(column, row).1 as i32,
        w: (cells * 6) as u32,
        h: 8,
    }
}

/// A row's rectangle: `cells` wide from a cell of the menu grid.
pub fn row_rect(column: i32, row: i32, cells: usize) -> (r: Rect)
    requires
        -0x100_0000 <= column <= 0x100_0000,
        -0x100_0000 <= row <= 0x100_0000,
        cells <= 0x100_0000,
    ensures
        r == spec_row_rect(column as int, row as int, cells as int),
{
    let (x, y) = menu_cell(column, row);
    Rect::new(x, y, cells as u32 * 6, 8)
}

/// Paint plain text at a cell of the menu grid.
pub fn label(frame: &mut Frame, column: i32, row: i32, text: &str, color: Rgb)
    requires
        old(frame).wf(),
        -0x100_0000 <= column <= 0x100_0000,
        -0x100_0000 <= row <= 0x100_0000,
    ensures
        Frame::painted(
            *old(frame),
            *final(frame),
            seq![
                Ink::Text {
                    x: spec_cell(column as int, row as int).0,
                    y: spec_cell(column as int, row as int).1,
                    text: text@,
                    color,
                },
            ],
            Seq::empty(),
        ),
{
    let ghost f0 = *frame;
    let (x, y) = menu_cell(column, row);
    frame.raster.text(x, y, text, color);
    proof {
        lemma_frame_nothing(f0);
        let op = Ink::Text { x: x as int, y: y as int, text: text@, color };
        lemma_frame_then_ink(f0, f0, *frame, Seq::empty(), Seq::empty(), op);
        assert(Seq::<Ink>::empty().push(op) =~= seq![op]);
    }
}

/// The column a run starts at to end at the last menu column; never left of the first.
pub open spec fn spec_right_column(len: int) -> int {
    if 160 - len < 0 {
        0
    } else {
        160 - len
    }
}

/// Paint text right-aligned to the last menu column.
pub fn label_right(frame: &mut Frame, row: i32, text: &str, color: Rgb)
    requires
        old(frame).wf(),
        -0x100_0000 <= row <= 0x100_0000,
    ensures
        Frame::painted(
            *old(frame),
            *final(frame),
            seq![
                Ink::Text {
                    x: spec_cell(spec_right_column(text@.len() as int), row as int).0,
                    y: spec_cell(spec_right_column(text@.len() as int), row as int).1,
                    text: text@,
                    color,
                },
            ],
            Seq::empty(),
        ),
{
    let n = text.unicode_len();
    let column = if n >= MENU_COLUMNS as usize {
        0
    } else {
        MENU_COLUMNS - n as i32
    };
    label(frame, column, row, text, color);
}

/// The place of the first `c` in a run, if any.
pub open spec fn spec_find(s: Seq<char>, c: char) -> Option<int>
    decreases s.len(),
{
    if s.len() == 0 {
        None
    } else if s[0] == c {
        Some(0)
    } else {
        match spec_find(s.drop_first(), c) {
            Some(i) => Some(i + 1),
            None => None,
        }
    }
}

/// The place of the last `c` in a run, if any.
pub open spec fn spec_rfind(s: Seq<char>, c: char) -> Option<int>
    decreases s.len(),
{
    if s.len() == 0 {
        None
    } else if s.last() == c {
        Some(s.len() - 1)
    } else {
        spec_rfind(s.drop_last(), c)
    }
}

/// The first place of `c` is the least place holding it.
proof fn lemma_find(s: Seq<char>, c: char, i: int)
    requires
        0 <= i <= s.len(),
        forall|k: int| 0 <= k < i ==> s[k] != c,
    ensures
        spec_find(s, c) == (match spec_find(s.skip(i), c) {
            Some(j) => Some(j + i),
            None => None,
        }),
    decreases i,
{
    if i > 0 {
        lemma_find(s.drop_first(), c, i - 1);
        assert(s.drop_first().skip(i - 1) =~= s.skip(i));
    } else {
        assert(s.skip(0) =~= s);
    }
}

/// The first place of a character in a run.
fn find(text: &str, c: char) -> (r: Option<usize>)
    ensures
        match r {
            Some(i) => spec_find(text@, c) == Some(i as int),
            None => spec_find(text@, c) is None,
        },
{
    let n = text.unicode_len();
    let mut i: usize = 0;
    while i < n
        invariant
            i <= n,
            n == text@.len(),
            forall|k: int| 0 <= k < i ==> text@[k] != c,
        decreases n - i,
    {
        if text.get_char(i) == c {
            proof {
                lemma_find(text@, c, i as int);
                assert(text@.skip(i as int)[0] == c);
            }
            return Some(i);
        }
        i = i + 1;
    }
    proof {
        lemma_find(text@, c, n as int);
        assert(text@.skip(n as int).len() == 0);
    }
    None
}

/// The last place of `c` in a run is the greatest place holding it.
proof fn lemma_rfind(s: Seq<char>, c: char, i: int)
    requires
        0 <= i <= s.len(),
        forall|k: int| i <= k < s.len() ==> s[k] != c,
    ensures
        spec_rfind(s, c) == spec_rfind(s.take(i), c),
    decreases s.len() - i,
{
    if i < s.len() {
        assert(s.drop_last().take(i) =~= s.take(i));
        lemma_rfind(s.drop_last(), c, i);
    } else {
        assert(s.take(i) =~= s);
    }
}

/// The last place of a character in a run.
fn rfind(text: &str, c: char) -> (r: Option<usize>)
    ensures
        match r {
            Some(i) => spec_rfind(text@, c) == Some(i as int),
            None => spec_rfind(text@, c) is None,
        },
{
    let n = text.unicode_len();
    let mut i: usize = n;
    while i > 0
        invariant
            i <= n,
            n == text@.len(),
            forall|k: int| i <= k < n ==> text@[k] != c,
        decreases i,
    {
        if text.get_char(i - 1) == c {
            proof {
                lemma_rfind(text@, c, i as int);
                assert(text@.take(i as int).last() == c);
            }
            return Some(i - 1);
        }
        i = i - 1;
    }
    proof {
        lemma_rfind(text@, c, 0);
    }
    None
}

/// The cell of a run at place `i` as an arrow rectangle.
pub open spec fn spec_arrow(rect: Rect, i: Option<int>) -> Option<Rect> {
    match i {
        Some(i) => Some(Rect { x: (rect.x + i * 6) as i32, y: rect.y, w: 6, h: 8 }),
        None => None,
    }
}

/// The cells of the first `<` and the last `>` in a row's text, as arrow rectangles.
fn arrows(text: &str, rect: Rect) -> (r: (Option<Rect>, Option<Rect>))
    requires
        near(rect.x as int),
        text@.len() <= 0x100_0000,
    ensures
        r.0 == spec_arrow(rect, spec_find(text@, '<')),
        r.1 == spec_arrow(rect, spec_rfind(text@, '>')),
{
    proof {
        lemma_find_bound(text@, '<');
        lemma_rfind_bound(text@, '>');
    }
    let left = match find(text, '<') {
        Some(i) => Some(Rect::new(rect.x + i as i32 * 6, rect.y, 6, 8)),
        None => None,
    };
    let right = match rfind(text, '>') {
        Some(i) => Some(Rect::new(rect.x + i as i32 * 6, rect.y, 6, 8)),
        None => None,
    };
    (left, right)
}

/// A found place lies inside the run.
proof fn lemma_find_bound(s: Seq<char>, c: char)
    ensures
        spec_find(s, c) matches Some(i) ==> 0 <= i < s.len(),
    decreases s.len(),
{
    if s.len() > 0 && s[0] != c {
        lemma_find_bound(s.drop_first(), c);
    }
}

/// A found place lies inside the run.
proof fn lemma_rfind_bound(s: Seq<char>, c: char)
    ensures
        spec_rfind(s, c) matches Some(i) ==> 0 <= i < s.len(),
    decreases s.len(),
{
    if s.len() > 0 && s.last() != c {
        lemma_rfind_bound(s.drop_last(), c);
    }
}

/// How a row is drawn and whether it answers the mouse.
#[derive(Debug, Clone, Copy, PartialEq, Eq, Structural)]
pub enum ItemState {
    /// Plain text, live.
    Normal,
    /// Highlighted with the marker, live.
    Selected,
    /// Dim, inert.
    Disabled,
}

impl ItemState {
    /// Selected or not.
    pub fn from_selected(selected: bool) -> (r: ItemState)
        ensures
            r == (if selected {
                ItemState::Selected
            } else {
                ItemState::Normal
            }),
    {
        if selected {
            ItemState::Selected
        } else {
            ItemState::Normal
        }
    }
}

/// A row's text colour in a state.
pub open spec fn spec_item_color(state: ItemState) -> Rgb {
    match state {
        ItemState::Normal => TEXT,
        ItemState::Selected => HI,
        ItemState::Disabled => DIM,
    }
}

/// A row's paints: its text, and the marker before it when selected.
pub open spec fn spec_item_inks(rect: Rect, text: Seq<char>, state: ItemState) -> Seq<Ink> {
    let t = seq![Ink::Text { x: rect.x as int, y: rect.y as int, text, color: spec_item_color(state) }];
    if state == ItemState::Selected {
        t.push(Ink::Marker { x: rect.x - 5, y: rect.y + 1, color: HI })
    } else {
        t
    }
}

/// A row's widget: inert when disabled; a choice has its arrows.
pub open spec fn spec_item_widget(id: WidgetId, kind: Kind, rect: Rect, text: Seq<char>, state: ItemState) -> Widget {
    Widget {
        enabled: state != ItemState::Disabled,
        left: if kind == Kind::Choice {
            spec_arrow(rect, spec_find(text, '<'))
        } else {
            None
        },
        right: if kind == Kind::Choice {
            spec_arrow(rect, spec_rfind(text, '>'))
        } else {
            None
        },
        ..Widget::spec_new(id, rect, kind)
    }
}

/// Whether the frame's origin is near enough to zero for a row to be painted through it.
pub open spec fn origin_near(frame: Frame) -> bool {
    &&& -0x1000_0000 <= frame.raster.origin.0 <= 0x1000_0000
    &&& -0x1000_0000 <= frame.raster.origin.1 <= 0x1000_0000
}

/// Paint a row in a state at a rectangle: a disabled row is dim and registers an inert
/// widget, so the hover outline and the click both pass it by.
pub fn item_state_at(frame: &mut Frame, id: WidgetId, kind: Kind, rect: Rect, text: &str, state: ItemState)
    requires
        old(frame).wf(),
        origin_near(*old(frame)),
        near(rect.x as int),
        near(rect.y as int),
        text@.len() <= 0x100_0000,
    ensures
        Frame::painted(
            *old(frame),
            *final(frame),
            spec_item_inks(rect, text@, state),
            seq![spec_item_widget(id, kind, rect, text@, state)],
        ),
        final(frame).raster.origin == old(frame).raster.origin,
{
    let ghost f0 = *frame;
    proof {
        lemma_frame_nothing(f0);
    }
    let color = match state {
        ItemState::Normal => TEXT,
        ItemState::Selected => HI,
        ItemState::Disabled => DIM,
    };
    frame.raster.text(rect.x, rect.y, text, color);
    let ghost f1 = *frame;
    let ghost t = Ink::Text { x: rect.x as int, y: rect.y as int, text: text@, color };
    proof {
        lemma_frame_then_ink(f0, f0, f1, Seq::empty(), Seq::empty(), t);
        assert(Seq::<Ink>::empty().push(t) =~= seq![t]);
    }
    if state == ItemState::Selected {
        frame.raster.marker(rect.x - 5, rect.y + 1, HI);
        proof {
            lemma_frame_then_ink(f0, f1, *frame, seq![t], Seq::empty(), Ink::Marker { x: rect.x - 5, y: rect.y + 1, color: HI });
        }
    }
    let ghost f2 = *frame;
    let mut widget = Widget::new(id, rect, kind);
    widget.enabled = state != ItemState::Disabled;
    if kind == Kind::Choice {
        let (left, right) = arrows(text, rect);
        widget.left = left;
        widget.right = right;
    }
    proof {
        lemma_find_bound(text@, '<');
        lemma_rfind_bound(text@, '>');
        assert(widget == spec_item_widget(id, kind, rect, text@, state));
    }
    frame.push(widget);
    proof {
        lemma_frame_then_push(f0, f2, *frame, spec_item_inks(rect, text@, state), Seq::empty(), widget);
        assert(Seq::<Widget>::empty().push(widget) =~= seq![widget]);
    }
}

/// Paint a row of the menu grid in a state.
pub fn item_state(
    frame: &mut Frame,
    id: WidgetId,
    kind: Kind,
    at: (i32, i32),
    text: &str,
    cells: usize,
    state: ItemState,
)
    requires
        old(frame).wf(),
        origin_near(*old(frame)),
        -0x100_0000 <= at.0 <= 0x100_0000,
        -0x100_0000 <= at.1 <= 0x100_0000,
        cells <= 0x100_0000,
        text@.len() <= 0x100_0000,
    ensures
        Frame::painted(
            *old(frame),
            *final(frame),
            spec_item_inks(spec_row_rect(at.0 as int, at.1 as int, cells as int), text@, state),
            seq![spec_item_widget(id, kind, spec_row_rect(at.0 as int, at.1 as int, cells as int), text@, state)],
        ),
        final(frame).raster.origin == old(frame).raster.origin,
{
    let (column, row) = at;
    item_state_at(frame, id, kind, row_rect(column, row, cells), text, state);
}

/// Paint a row the mouse can hit: highlighted with the marker when selected.
pub fn item(
    frame: &mut Frame,
    id: WidgetId,
    kind: Kind,
    at: (i32, i32),
    text: &str,
    cells: usize,
    selected: bool,
)
    requires
        old(frame).wf(),
        origin_near(*old(frame)),
        -0x100_0000 <= at.0 <= 0x100_0000,
        -0x100_0000 <= at.1 <= 0x100_0000,
        cells <= 0x100_0000,
        text@.len() <= 0x100_0000,
    ensures
        Frame::painted(
            *old(frame),
            *final(frame),
            spec_item_inks(
                spec_row_rect(at.0 as int, at.1 as int, cells as int),
                text@,
                if selected { ItemState::Selected } else { ItemState::Normal },
            ),
            seq![
                spec_item_widget(
                    id,
                    kind,
                    spec_row_rect(at.0 as int, at.1 as int, cells as int),
                    text@,
                    if selected { ItemState::Selected } else { ItemState::Normal },
                ),
            ],
        ),
        final(frame).raster.origin == old(frame).raster.origin,
{
    item_state(frame, id, kind, at, text, cells, ItemState::from_selected(selected));
}

/// A modal's text starts two cells in from its left edge.
pub const MODAL_TEXT_X: i32 = 12;
/// The title's top, from the box's top.
pub const MODAL_TITLE_Y: i32 = 6;
/// The first line's top, from the box's top.
pub const MODAL_LINES_Y: i32 = 18;
/// Buttons are a row plus two pixels apart.
pub const MODAL_BUTTON_PITCH: i32 = 10;
/// The gap under the last button.
pub const MODAL_BOTTOM_PAD: i32 = 4;

/// The top of a modal's first button: the buttons stand on the box's bottom, a pad above it.
pub open spec fn spec_first_button(rect: Rect, buttons: int) -> int {
    rect.y + rect.h - 10 * buttons - 4
}

/// The rectangle of a modal's button `i`.
pub open spec fn spec_button_rect(rect: Rect, buttons: Seq<Seq<char>>, i: int) -> Rect {
    Rect {
        x: (rect.x + 12) as i32,
        y: (spec_first_button(rect, buttons.len() as int) + 10 * i) as i32,
        w: (buttons[i].len() * 6) as u32,
        h: 8,
    }
}

/// A modal's first `n` lines, under the title.
pub open spec fn spec_modal_lines(rect: Rect, lines: Seq<Seq<char>>, n: int) -> Seq<Ink> {
    Seq::new(n as nat, |i: int| Ink::Text { x: rect.x + 12, y: rect.y + 18 + 8 * i, text: lines[i], color: TEXT })
}

/// The paints of a modal's button `i`: its text, highlighted with the marker at the cursor.
pub open spec fn spec_modal_button_inks(rect: Rect, buttons: Seq<Seq<char>>, cursor: int, i: int) -> Seq<Ink> {
    let b = spec_button_rect(rect, buttons, i);
    spec_item_inks(b, buttons[i], if cursor == i { ItemState::Selected } else { ItemState::Normal })
}

/// The paints of a modal's first `n` buttons.
pub open spec fn spec_modal_buttons(rect: Rect, buttons: Seq<Seq<char>>, cursor: int, n: int) -> Seq<Ink>
    decreases n,
{
    if n <= 0 {
        Seq::empty()
    } else {
        spec_modal_buttons(rect, buttons, cursor, n - 1) + spec_modal_button_inks(rect, buttons, cursor, n - 1)
    }
}

/// The widgets of a modal's first `n` buttons: `Row(i)` for button `i`.
pub open spec fn spec_modal_widgets(rect: Rect, buttons: Seq<Seq<char>>, n: int) -> Seq<Widget> {
    Seq::new(n as nat, |i: int| Widget::spec_new(WidgetId::Row(i as usize), spec_button_rect(rect, buttons, i), Kind::Button))
}

/// A modal's paints: the panel, the frame, the title, the lines, the buttons.
pub open spec fn spec_modal_inks(
    rect: Rect,
    title: Seq<char>,
    lines: Seq<Seq<char>>,
    buttons: Seq<Seq<char>>,
    cursor: int,
) -> Seq<Ink> {
    seq![
        Ink::Fill { rect, color: PANEL },
        Ink::Stroke { rect, color: FRAME },
        Ink::Text { x: rect.x + 12, y: rect.y + 6, text: title, color: HI },
    ] + spec_modal_lines(rect, lines, lines.len() as int) + spec_modal_buttons(
        rect,
        buttons,
        cursor,
        buttons.len() as int,
    )
}

/// The texts of a run of string slices.
pub open spec fn texts(s: Seq<&str>) -> Seq<Seq<char>> {
    s.map_values(|t: &str| t@)
}

/// A boxed message over whatever is behind it: a title, some lines, and buttons as
/// `WidgetId::Row(i)`, one per line from the bottom of the box up.
pub fn modal(frame: &mut Frame, rect: Rect, title: &str, lines: &[&str], buttons: &[&str], cursor: usize)
    requires
        old(frame).wf(),
        origin_near(*old(frame)),
        near(rect.x as int),
        near(rect.y as int),
        rect.h <= 0x1000_0000,
        lines@.len() <= 0x10000,
        buttons@.len() <= 0x10000,
        forall|i: int| 0 <= i < buttons@.len() ==> #[trigger] buttons@[i]@.len() <= 0x10000,
    ensures
        Frame::painted(
            *old(frame),
            *final(frame),
            spec_modal_inks(rect, title@, texts(lines@), texts(buttons@), cursor as int),
            spec_modal_widgets(rect, texts(buttons@), buttons@.len() as int),
        ),
        final(frame).raster.origin == old(frame).raster.origin,
{
    let ghost f0 = *frame;
    proof {
        lemma_frame_nothing(f0);
    }
    frame.raster.fill(rect, PANEL);
    let ghost f1 = *frame;
    let ghost op1 = Ink::Fill { rect, color: PANEL };
    proof {
        lemma_frame_then_ink(f0, f0, f1, Seq::empty(), Seq::empty(), op1);
    }
    frame.raster.stroke(rect, FRAME);
    let ghost f2 = *frame;
    let ghost op2 = Ink::Stroke { rect, color: FRAME };
    proof {
        lemma_frame_then_ink(f0, f1, f2, Seq::empty().push(op1), Seq::empty(), op2);
    }
    let x = rect.x + MODAL_TEXT_X;
    frame.raster.text(x, rect.y + MODAL_TITLE_Y, title, HI);
    let ghost op3 = Ink::Text { x: rect.x + 12, y: rect.y + 6, text: title@, color: HI };
    let ghost head = seq![op1, op2, op3];
    proof {
        lemma_frame_then_ink(f0, f2, *frame, Seq::empty().push(op1).push(op2), Seq::empty(), op3);
        assert(Seq::empty().push(op1).push(op2).push(op3) =~= head);
        assert(spec_modal_lines(rect, texts(lines@), 0) =~= Seq::<Ink>::empty());
        assert(head + spec_modal_lines(rect, texts(lines@), 0) =~= head);
    }
    let mut i: usize = 0;
    while i < lines.len()
        invariant
            i <= lines@.len(),
            lines@.len() <= 0x10000,
            near(rect.x as int),
            near(rect.y as int),
            x == rect.x + 12,
            frame.raster.origin == f0.raster.origin,
            Frame::painted(f0, *frame, head + spec_modal_lines(rect, texts(lines@), i as int), Seq::empty()),
        decreases lines@.len() - i,
    {
        let ghost before = *frame;
        let y = rect.y + MODAL_LINES_Y + 8 * i as i32;
        frame.raster.text(x, y, lines[i], TEXT);
        proof {
            let op = Ink::Text { x: x as int, y: y as int, text: lines@[i as int]@, color: TEXT };
            lemma_frame_then_ink(f0, before, *frame, head + spec_modal_lines(rect, texts(lines@), i as int), Seq::empty(), op);
            assert((head + spec_modal_lines(rect, texts(lines@), i as int)).push(op) =~= head + spec_modal_lines(
                rect,
                texts(lines@),
                i + 1,
            ));
        }
        i = i + 1;
    }
    let ghost body = head + spec_modal_lines(rect, texts(lines@), lines@.len() as int);
    let first = rect.y + rect.h as i32 - MODAL_BUTTON_PITCH * buttons.len() as i32 - MODAL_BOTTOM_PAD;
    let mut j: usize = 0;
    proof {
        assert(body + spec_modal_buttons(rect, texts(buttons@), cursor as int, 0) =~= body);
        assert(spec_modal_widgets(rect, texts(buttons@), 0) =~= Seq::<Widget>::empty());
    }
    while j < buttons.len()
        invariant
            j <= buttons@.len(),
            buttons@.len() <= 0x10000,
            forall|i: int| 0 <= i < buttons@.len() ==> #[trigger] buttons@[i]@.len() <= 0x10000,
            near(rect.x as int),
            near(rect.y as int),
            rect.h <= 0x1000_0000,
            x == rect.x + 12,
            first == spec_first_button(rect, buttons@.len() as int),
            frame.raster.origin == f0.raster.origin,
            origin_near(f0),
            Frame::painted(
                f0,
                *frame,
                body + spec_modal_buttons(rect, texts(buttons@), cursor as int, j as int),
                spec_modal_widgets(rect, texts(buttons@), j as int),
            ),
        decreases buttons@.len() - j,
    {
        let ghost before = *frame;
        let y = first + MODAL_BUTTON_PITCH * j as i32;
        let text = buttons[j];
        let cells = text.unicode_len();
        let b = Rect::new(x, y, cells as u32 * 6, 8);
        let selected = cursor == j;
        frame.raster.text(b.x, b.y, text, if selected { HI } else { TEXT });
        let ghost mid = *frame;
        let ghost t = Ink::Text { x: b.x as int, y: b.y as int, text: text@, color: if selected { HI } else { TEXT } };
        let ghost done = body + spec_modal_buttons(rect, texts(buttons@), cursor as int, j as int);
        proof {
            lemma_frame_then_ink(f0, before, mid, done, spec_modal_widgets(rect, texts(buttons@), j as int), t);
        }
        if selected {
            frame.raster.marker(b.x - 5, b.y + 1, HI);
            proof {
                lemma_frame_then_ink(
                    f0,
                    mid,
                    *frame,
                    done.push(t),
                    spec_modal_widgets(rect, texts(buttons@), j as int),
                    Ink::Marker { x: b.x - 5, y: b.y + 1, color: HI },
                );
            }
        }
        let ghost painted = *frame;
        proof {
            assert(b == spec_button_rect(rect, texts(buttons@), j as int));
            let mine = spec_modal_button_inks(rect, texts(buttons@), cursor as int, j as int);
            if selected {
                assert(done.push(t).push(Ink::Marker { x: b.x - 5, y: b.y + 1, color: HI }) =~= done + mine);
            } else {
                assert(done.push(t) =~= done + mine);
            }
            assert(done + mine =~= body + spec_modal_buttons(rect, texts(buttons@), cursor as int, j + 1));
        }
        let w = Widget::new(WidgetId::Row(j), b, Kind::Button);
        frame.push(w);
        proof {
            lemma_frame_then_push(
                f0,
                painted,
                *frame,
                body + spec_modal_buttons(rect, texts(buttons@), cursor as int, j + 1),
                spec_modal_widgets(rect, texts(buttons@), j as int),
                w,
            );
            assert(spec_modal_widgets(rect, texts(buttons@), j as int).push(w) =~= spec_modal_widgets(rect, texts(buttons@), j + 1));
        }
        j = j + 1;
    }
    proof {
        assert(body + spec_modal_buttons(rect, texts(buttons@), cursor as int, buttons@.len() as int) =~= spec_modal_inks(
            rect,
            title@,
            texts(lines@),
            texts(buttons@),
            cursor as int,
        ));
    }
}

/// The title's paints: the name centred on row two, the three items under it.
pub open spec fn spec_title_inks(cursor: int) -> Seq<Ink> {
    seq![Ink::Text { x: spec_cell(77, 2).0, y: spec_cell(77, 2).1, text: "OMNIS"@, color: HI }]
        + spec_title_items(cursor, 3)
}

/// The first `n` items of the title, each a row fifteen cells wide two rows apart.
pub open spec fn spec_title_items(cursor: int, n: int) -> Seq<Ink>
    decreases n,
{
    if n <= 0 {
        Seq::empty()
    } else {
        spec_title_items(cursor, n - 1) + spec_item_inks(
            spec_row_rect(73, 6 + 2 * (n - 1), 15),
            TITLE_ITEMS[n - 1]@,
            if cursor == n - 1 { ItemState::Selected } else { ItemState::Normal },
        )
    }
}

/// The title's widgets: a button per item.
pub open spec fn spec_title_widgets(n: int) -> Seq<Widget> {
    Seq::new(n as nat, |i: int| Widget::spec_new(WidgetId::Row(i as usize), spec_row_rect(73, 6 + 2 * i, 15), Kind::Button))
}

/// The title: the name and three items.
pub fn title(frame: &mut Frame, title: &Title)
    requires
        old(frame).wf(),
        origin_near(*old(frame)),
    ensures
        Frame::painted(*old(frame), *final(frame), spec_title_inks(title.cursor as int), spec_title_widgets(3)),
{
    let ghost f0 = *frame;
    let column = (MENU_COLUMNS - 5) / 2;
    label(frame, column, 2, "OMNIS", HI);
    let ghost head = *frame;
    let mut i: usize = 0;
    proof {
        assert(spec_title_widgets(0) =~= Seq::<Widget>::empty());
    }
    while i < 3
        invariant
            i <= 3,
            column == 77,
            frame.raster.origin == f0.raster.origin,
            origin_near(f0),
            Frame::painted(
                f0,
                *frame,
                seq![Ink::Text { x: spec_cell(77, 2).0, y: spec_cell(77, 2).1, text: "OMNIS"@, color: HI }]
                    + spec_title_items(title.cursor as int, i as int),
                spec_title_widgets(i as int),
            ),
        decreases 3 - i,
    {
        let ghost before = *frame;
        let row = 6 + 2 * i as i32;
        proof {
            reveal_strlit("New game");
            reveal_strlit("Load quick save");
            reveal_strlit("Quit");
            assert(TITLE_ITEMS[i as int]@.len() <= 15);
        }
        item(frame, WidgetId::Row(i), Kind::Button, (column - 4, row), TITLE_ITEMS[i], 15, title.cursor == i);
        proof {
            let rect = spec_row_rect(73, 6 + 2 * i, 15);
            let state = if title.cursor == i { ItemState::Selected } else { ItemState::Normal };
            let w = spec_item_widget(WidgetId::Row(i), Kind::Button, rect, TITLE_ITEMS[i as int]@, state);
            lemma_frame_then(
                f0,
                before,
                *frame,
                seq![Ink::Text { x: spec_cell(77, 2).0, y: spec_cell(77, 2).1, text: "OMNIS"@, color: HI }]
                    + spec_title_items(title.cursor as int, i as int),
                spec_title_widgets(i as int),
                spec_item_inks(rect, TITLE_ITEMS[i as int]@, state),
                seq![w],
            );
            assert(w == Widget::spec_new(WidgetId::Row(i), rect, Kind::Button));
            assert(spec_title_widgets(i as int) + seq![w] =~= spec_title_widgets(i + 1));
            assert(seq![Ink::Text { x: spec_cell(77, 2).0, y: spec_cell(77, 2).1, text: "OMNIS"@, color: HI }]
                + spec_title_items(title.cursor as int, i as int) + spec_item_inks(rect, TITLE_ITEMS[i as int]@, state)
                =~= seq![Ink::Text { x: spec_cell(77, 2).0, y: spec_cell(77, 2).1, text: "OMNIS"@, color: HI }]
                + spec_title_items(title.cursor as int, i + 1));
        }
        i = i + 1;
    }
}

/// A row's state from whether it is selected.
pub open spec fn spec_sel(selected: bool) -> ItemState {
    if selected {
        ItemState::Selected
    } else {
        ItemState::Normal
    }
}

/// Plain text at a cell of the menu grid.
pub open spec fn spec_text_at(column: int, row: int, text: Seq<char>, color: Rgb) -> Ink {
    Ink::Text { x: spec_cell(column, row).0, y: spec_cell(column, row).1, text, color }
}

/// The seed row's text: the typed seed, with the caret while the row is selected.
pub open spec fn spec_seed_row(form: NewGameForm) -> Seq<char> {
    "Seed "@ + form.seed_text@ + if form.cursor == 0 {
        "_"@
    } else {
        ""@
    }
}

/// The save rule row's text.
pub open spec fn spec_saving_row(form: NewGameForm) -> Seq<char> {
    "Saving     < "@ + spec_rule_label(form.settings.save_rule) + " >"@
}

/// The permadeath row's text.
pub open spec fn spec_permadeath_row(form: NewGameForm) -> Seq<char> {
    "Permadeath < "@ + if form.settings.permadeath {
        "On"@
    } else {
        "Off"@
    } + " >"@
}

/// The new game form's paints: the heading, the seed row and its hint, the two choices and
/// the two buttons.
pub open spec fn spec_new_game_inks(form: NewGameForm) -> Seq<Ink> {
    let c = form.cursor;
    seq![spec_text_at(1, 1, "NEW GAME"@, HI)]
        + spec_item_inks(spec_row_rect(1, 3, 39), spec_seed_row(form), spec_sel(c == 0))
        + seq![spec_text_at(6, 4, "blank = random, words are hashed"@, DIM)]
        + spec_item_inks(spec_row_rect(1, 6, 39), spec_saving_row(form), spec_sel(c == 1))
        + spec_item_inks(spec_row_rect(1, 7, 39), spec_permadeath_row(form), spec_sel(c == 2))
        + spec_item_inks(spec_row_rect(1, 9, 5), "Start"@, spec_sel(c == 3))
        + spec_item_inks(spec_row_rect(1, 10, 4), "Back"@, spec_sel(c == 4))
}

/// The new game form's widgets: the seed field, the two choices, the two buttons.
pub open spec fn spec_new_game_widgets(form: NewGameForm) -> Seq<Widget> {
    let c = form.cursor;
    seq![
        spec_item_widget(WidgetId::Row(0), Kind::TextField, spec_row_rect(1, 3, 39), spec_seed_row(form), spec_sel(c == 0)),
        spec_item_widget(WidgetId::Row(1), Kind::Choice, spec_row_rect(1, 6, 39), spec_saving_row(form), spec_sel(c == 1)),
        spec_item_widget(WidgetId::Row(2), Kind::Choice, spec_row_rect(1, 7, 39), spec_permadeath_row(form), spec_sel(c == 2)),
        spec_item_widget(WidgetId::Row(3), Kind::Button, spec_row_rect(1, 9, 5), "Start"@, spec_sel(c == 3)),
        spec_item_widget(WidgetId::Row(4), Kind::Button, spec_row_rect(1, 10, 4), "Back"@, spec_sel(c == 4)),
    ]
}

/// The new game form: seed, save rule, permadeath, start, back.
pub fn new_game(frame: &mut Frame, form: &NewGameForm)
    requires
        old(frame).wf(),
        origin_near(*old(frame)),
        form.seed_text@.len() <= 0x10_0000,
    ensures
        Frame::painted(*old(frame), *final(frame), spec_new_game_inks(*form), spec_new_game_widgets(*form)),
{
    let ghost f0 = *frame;
    let ghost c = form.cursor;
    label(frame, 1, 1, "NEW GAME", HI);
    let ghost f1 = *frame;
    let mut seed = "Seed ".to_owned();
    push_str(&mut seed, form.seed_text.as_str());
    push_str(&mut seed, if form.cursor == 0 { "_" } else { "" });
    proof {
        reveal_strlit("Seed ");
        reveal_strlit("_");
        reveal_strlit("");
    }
    item(frame, WidgetId::Row(0), Kind::TextField, (1, 3), seed.as_str(), 39, form.cursor == 0);
    let ghost f2 = *frame;
    label(frame, 6, 4, "blank = random, words are hashed", DIM);
    let ghost f3 = *frame;
    let mut saving = "Saving     < ".to_owned();
    push_str(&mut saving, rule_label(form.settings.save_rule));
    push_str(&mut saving, " >");
    proof {
        reveal_strlit("Saving     < ");
        reveal_strlit(" >");
        reveal_strlit("Anywhere");
        reveal_strlit("Inns, items, and spells");
        reveal_strlit("Inns only");
    }
    item(frame, WidgetId::Row(1), Kind::Choice, (1, 6), saving.as_str(), 39, form.cursor == 1);
    let ghost f4 = *frame;
    let mut permadeath = "Permadeath < ".to_owned();
    push_str(&mut permadeath, if form.settings.permadeath { "On" } else { "Off" });
    push_str(&mut permadeath, " >");
    proof {
        reveal_strlit("Permadeath < ");
        reveal_strlit("On");
        reveal_strlit("Off");
    }
    item(frame, WidgetId::Row(2), Kind::Choice, (1, 7), permadeath.as_str(), 39, form.cursor == 2);
    let ghost f5 = *frame;
    proof {
        reveal_strlit("Start");
        reveal_strlit("Back");
    }
    item(frame, WidgetId::Row(3), Kind::Button, (1, 9), "Start", 5, form.cursor == 3);
    let ghost f6 = *frame;
    item(frame, WidgetId::Row(4), Kind::Button, (1, 10), "Back", 4, form.cursor == 4);
    proof {
        let w = spec_new_game_widgets(*form);
        let i1 = seq![spec_text_at(1, 1, "NEW GAME"@, HI)];
        let i2 = spec_item_inks(spec_row_rect(1, 3, 39), spec_seed_row(*form), spec_sel(c == 0));
        let i3 = seq![spec_text_at(6, 4, "blank = random, words are hashed"@, DIM)];
        let i4 = spec_item_inks(spec_row_rect(1, 6, 39), spec_saving_row(*form), spec_sel(c == 1));
        let i5 = spec_item_inks(spec_row_rect(1, 7, 39), spec_permadeath_row(*form), spec_sel(c == 2));
        let i6 = spec_item_inks(spec_row_rect(1, 9, 5), "Start"@, spec_sel(c == 3));
        let i7 = spec_item_inks(spec_row_rect(1, 10, 4), "Back"@, spec_sel(c == 4));
        lemma_frame_then(f0, f1, f2, i1, Seq::empty(), i2, seq![w[0]]);
        lemma_frame_then(f0, f2, f3, i1 + i2, Seq::empty() + seq![w[0]], i3, Seq::empty());
        lemma_frame_then(f0, f3, f4, i1 + i2 + i3, Seq::empty() + seq![w[0]] + Seq::empty(), i4, seq![w[1]]);
        let ws4 = Seq::empty() + seq![w[0]] + Seq::empty() + seq![w[1]];
        lemma_frame_then(f0, f4, f5, i1 + i2 + i3 + i4, ws4, i5, seq![w[2]]);
        lemma_frame_then(f0, f5, f6, i1 + i2 + i3 + i4 + i5, ws4 + seq![w[2]], i6, seq![w[3]]);
        lemma_frame_then(f0, f6, *frame, i1 + i2 + i3 + i4 + i5 + i6, ws4 + seq![w[2]] + seq![w[3]], i7, seq![w[4]]);
        assert(ws4 + seq![w[2]] + seq![w[3]] + seq![w[4]] =~= w);
    }
}

/// The first `n` pause items, each a row thirteen cells wide two rows apart.
pub open spec fn spec_pause_items(cursor: int, n: int) -> Seq<Ink>
    decreases n,
{
    if n <= 0 {
        Seq::empty()
    } else {
        spec_pause_items(cursor, n - 1) + spec_item_inks(
            spec_row_rect(1, 7 + 2 * (n - 1), 13),
            PAUSE_ITEMS[n - 1]@,
            spec_sel(cursor == n - 1),
        )
    }
}

/// The pause overlay's buttons, one per item.
pub open spec fn spec_pause_widgets(cursor: int, n: int) -> Seq<Widget> {
    Seq::new(
        n as nat,
        |i: int|
            spec_item_widget(
                WidgetId::Row(i as usize),
                Kind::Button,
                spec_row_rect(1, 7 + 2 * i, 13),
                PAUSE_ITEMS[i]@,
                spec_sel(cursor == i),
            ),
    )
}

/// The pause overlay's read-only lines: the heading, the seed, the save rule, permadeath.
pub open spec fn spec_pause_head(settings: Settings, seed: u64) -> Seq<Ink> {
    seq![
        spec_text_at(1, 1, "PAUSED"@, HI),
        spec_text_at(1, 3, "Seed "@ + spec_digits(seed as nat), TEXT),
        spec_text_at(1, 4, "Saving      "@ + spec_rule_label(settings.save_rule), TEXT),
        spec_text_at(1, 5, "Permadeath  "@ + if settings.permadeath {
            "on"@
        } else {
            "off"@
        }, TEXT),
    ]
}

/// The pause overlay: the settings, read-only, and the seven items.
pub fn pause(frame: &mut Frame, pause: &Pause, settings: Settings, seed: u64)
    requires
        old(frame).wf(),
        origin_near(*old(frame)),
    ensures
        Frame::painted(
            *old(frame),
            *final(frame),
            spec_pause_head(settings, seed) + spec_pause_items(pause.cursor as int, 7),
            spec_pause_widgets(pause.cursor as int, 7),
        ),
{
    let ghost f0 = *frame;
    label(frame, 1, 1, "PAUSED", HI);
    let ghost f1 = *frame;
    let mut seed_line = "Seed ".to_owned();
    push_digits(&mut seed_line, seed);
    label(frame, 1, 3, seed_line.as_str(), TEXT);
    let ghost f2 = *frame;
    let mut saving = "Saving      ".to_owned();
    push_str(&mut saving, rule_label(settings.save_rule));
    label(frame, 1, 4, saving.as_str(), TEXT);
    let ghost f3 = *frame;
    let mut permadeath = "Permadeath  ".to_owned();
    push_str(&mut permadeath, if settings.permadeath { "on" } else { "off" });
    label(frame, 1, 5, permadeath.as_str(), TEXT);
    let ghost head = spec_pause_head(settings, seed);
    proof {
        lemma_frame_then(f0, f1, f2, seq![head[0]], Seq::empty(), seq![head[1]], Seq::empty());
        lemma_frame_then(f0, f2, f3, seq![head[0]] + seq![head[1]], Seq::<Widget>::empty() + Seq::empty(), seq![head[2]], Seq::empty());
        lemma_frame_then(
            f0,
            f3,
            *frame,
            seq![head[0]] + seq![head[1]] + seq![head[2]],
            Seq::<Widget>::empty() + Seq::empty() + Seq::empty(),
            seq![head[3]],
            Seq::empty(),
        );
        assert(seq![head[0]] + seq![head[1]] + seq![head[2]] + seq![head[3]] =~= head);
        assert(Seq::<Widget>::empty() + Seq::empty() + Seq::empty() + Seq::empty() =~= Seq::<Widget>::empty());
        assert(head + spec_pause_items(pause.cursor as int, 0) =~= head);
        assert(spec_pause_widgets(pause.cursor as int, 0) =~= Seq::<Widget>::empty());
    }
    let mut i: usize = 0;
    while i < 7
        invariant
            i <= 7,
            head == spec_pause_head(settings, seed),
            frame.raster.origin == f0.raster.origin,
            origin_near(f0),
            Frame::painted(
                f0,
                *frame,
                head + spec_pause_items(pause.cursor as int, i as int),
                spec_pause_widgets(pause.cursor as int, i as int),
            ),
        decreases 7 - i,
    {
        let ghost before = *frame;
        let row = 7 + 2 * i as i32;
        proof {
            reveal_strlit("Resume");
            reveal_strlit("Save");
            reveal_strlit("Load");
            reveal_strlit("Character sheet");
            reveal_strlit("Debug menu");
            reveal_strlit("Quit to title");
            reveal_strlit("Quit");
            assert(PAUSE_ITEMS[i as int]@.len() <= 15);
        }
        item(frame, WidgetId::Row(i), Kind::Button, (1, row), PAUSE_ITEMS[i], 13, pause.cursor == i);
        proof {
            let rect = spec_row_rect(1, 7 + 2 * i, 13);
            let state = spec_sel(pause.cursor == i);
            let w = spec_item_widget(WidgetId::Row(i), Kind::Button, rect, PAUSE_ITEMS[i as int]@, state);
            lemma_frame_then(
                f0,
                before,
                *frame,
                head + spec_pause_items(pause.cursor as int, i as int),
                spec_pause_widgets(pause.cursor as int, i as int),
                spec_item_inks(rect, PAUSE_ITEMS[i as int]@, state),
                seq![w],
            );
            assert(spec_pause_widgets(pause.cursor as int, i as int) + seq![w] =~= spec_pause_widgets(
                pause.cursor as int,
                i + 1,
            ));
            assert(head + spec_pause_items(pause.cursor as int, i as int) + spec_item_inks(
                rect,
                PAUSE_ITEMS[i as int]@,
                state,
            ) =~= head + spec_pause_items(pause.cursor as int, i + 1));
        }
        i = i + 1;
    }
}

/// Ids and display names short enough to paint.
pub open spec fn texts_fit(catalog: Catalog) -> bool {
    &&& forall|i: int| 0 <= i < catalog.races@.len() ==> (#[trigger] catalog.races@[i])@.len() <= 0x10_0000
    &&& forall|i: int| 0 <= i < catalog.classes@.len() ==> (#[trigger] catalog.classes@[i])@.len() <= 0x10_0000
    &&& forall|i: int| 0 <= i < catalog.backgrounds@.len() ==> (#[trigger] catalog.backgrounds@[i])@.len() <= 0x10_0000
    &&& forall|i: int| 0 <= i < catalog.labels@.len() ==> (#[trigger] catalog.labels@[i]).name@.len() <= 0x10_0000
}

/// A display name is no longer than its id or the longest label.
proof fn lemma_label_fits(labels: Seq<Label>, id: Seq<char>)
    requires
        forall|i: int| 0 <= i < labels.len() ==> (#[trigger] labels[i]).name@.len() <= 0x10_0000,
        id.len() <= 0x10_0000,
    ensures
        spec_label_of(labels, id).len() <= 0x10_0000,
    decreases labels.len(),
{
    if labels.len() > 0 && labels[0].id@ != id {
        assert forall|i: int| 0 <= i < labels.drop_first().len() implies (#[trigger] labels.drop_first()[i]).name@.len()
            <= 0x10_0000 by {
            assert(labels.drop_first()[i] == labels[i + 1]);
        }
        lemma_label_fits(labels.drop_first(), id);
    }
}

/// The shown id of a choice fits.
proof fn lemma_choice_fits(list: Seq<String>, i: int, catalog: Catalog)
    requires
        forall|k: int| 0 <= k < list.len() ==> (#[trigger] list[k])@.len() <= 0x10_0000,
        forall|k: int| 0 <= k < catalog.labels@.len() ==> (#[trigger] catalog.labels@[k]).name@.len() <= 0x10_0000,
    ensures
        spec_label_of(catalog.labels@, spec_choice_id(list, i)).len() <= 0x10_0000,
{
    reveal_strlit("?");
    lemma_label_fits(catalog.labels@, spec_choice_id(list, i));
}

/// The name row's text: the label padded to twelve cells, the name, the caret while selected.
pub open spec fn spec_name_row(form: CreationForm) -> Seq<char> {
    "Name        "@ + form.name@ + if form.cursor == ROW_NAME {
        "_"@
    } else {
        ""@
    }
}

/// A choice row's text: the label padded to twelve cells, the value between arrows.
pub open spec fn spec_choice_text(label: Seq<char>, value: Seq<char>) -> Seq<char> {
    label + "< "@ + value + " >"@
}

/// The four choice rows of the creation form, by row: label and value.
pub open spec fn spec_identity_row(form: CreationForm, catalog: Catalog, row: int) -> Seq<char> {
    if row == ROW_RACE {
        spec_choice_text("Race        "@, spec_label_of(catalog.labels@, spec_choice_id(catalog.races@, form.race as int)))
    } else if row == ROW_CLASS {
        spec_choice_text("Class       "@, spec_label_of(catalog.labels@, spec_choice_id(catalog.classes@, form.class as int)))
    } else if row == ROW_BACKGROUND {
        spec_choice_text(
            "Background  "@,
            spec_label_of(catalog.labels@, spec_choice_id(catalog.backgrounds@, form.background as int)),
        )
    } else {
        spec_choice_text("Alignment   "@, spec_words(ALIGNMENTS[(form.alignment % 9) as int].spec_name()))
    }
}

/// The identity rows' paints: the name field and the first `n` choice rows under it.
pub open spec fn spec_identity_inks(form: CreationForm, catalog: Catalog, n: int) -> Seq<Ink>
    decreases n,
{
    if n <= 0 {
        spec_item_inks(spec_row_rect(1, 1, 39), spec_name_row(form), spec_sel(form.cursor == ROW_NAME))
    } else {
        spec_identity_inks(form, catalog, n - 1) + spec_item_inks(
            spec_row_rect(1, 1 + n, 39),
            spec_identity_row(form, catalog, n),
            spec_sel(form.cursor == n),
        )
    }
}

/// The identity rows' widgets: the name field and the first `n` choice rows.
pub open spec fn spec_identity_widgets(form: CreationForm, catalog: Catalog, n: int) -> Seq<Widget> {
    Seq::new(
        (n + 1) as nat,
        |row: int|
            if row == 0 {
                spec_item_widget(
                    WidgetId::Row(ROW_NAME),
                    Kind::TextField,
                    spec_row_rect(1, 1, 39),
                    spec_name_row(form),
                    spec_sel(form.cursor == ROW_NAME),
                )
            } else {
                spec_item_widget(
                    WidgetId::Row(row as usize),
                    Kind::Choice,
                    spec_row_rect(1, 1 + row, 39),
                    spec_identity_row(form, catalog, row),
                    spec_sel(form.cursor == row),
                )
            },
    )
}

fn identity_row(form: &CreationForm, catalog: &Catalog, row: usize) -> (r: String)
    requires
        1 <= row <= 4,
    ensures
        r@ == spec_identity_row(*form, *catalog, row as int),
{
    let (head, value): (&str, String) = if row == ROW_RACE {
        ("Race        ", choice_value(catalog, &catalog.races, form.race))
    } else if row == ROW_CLASS {
        ("Class       ", choice_value(catalog, &catalog.classes, form.class))
    } else if row == ROW_BACKGROUND {
        ("Background  ", choice_value(catalog, &catalog.backgrounds, form.background))
    } else {
        ("Alignment   ", words(ALIGNMENTS[form.alignment % 9].name()))
    };
    let mut text = head.to_owned();
    push_str(&mut text, "< ");
    push_str(&mut text, value.as_str());
    push_str(&mut text, " >");
    text
}

fn choice_value(catalog: &Catalog, list: &Vec<String>, i: usize) -> (r: String)
    ensures
        r@ == spec_label_of(catalog.labels@, spec_choice_id(list@, i as int)),
{
    let id: &str = if i < list.len() {
        list[i].as_str()
    } else {
        "?"
    };
    catalog.label(id).to_owned()
}

fn creation_identity(frame: &mut Frame, form: &CreationForm, catalog: &Catalog)
    requires
        old(frame).wf(),
        origin_near(*old(frame)),
        texts_fit(*catalog),
        form.name@.len() <= 0x10_0000,
    ensures
        Frame::painted(*old(frame), *final(frame), spec_identity_inks(*form, *catalog, 4), spec_identity_widgets(*form, *catalog, 4)),
        final(frame).raster.origin == old(frame).raster.origin,
{
    let ghost f0 = *frame;
    let mut name = "Name        ".to_owned();
    push_str(&mut name, form.name.as_str());
    push_str(&mut name, if form.cursor == ROW_NAME { "_" } else { "" });
    proof {
        reveal_strlit("Name        ");
        reveal_strlit("_");
        reveal_strlit("");
    }
    item(frame, WidgetId::Row(ROW_NAME), Kind::TextField, (1, 1), name.as_str(), 39, form.cursor == ROW_NAME);
    proof {
        assert(seq![spec_identity_widgets(*form, *catalog, 0)[0]] =~= spec_identity_widgets(*form, *catalog, 0));
    }
    let mut row: usize = 1;
    while row <= 4
        invariant
            1 <= row <= 5,
            texts_fit(*catalog),
            frame.raster.origin == f0.raster.origin,
            origin_near(f0),
            Frame::painted(
                f0,
                *frame,
                spec_identity_inks(*form, *catalog, row - 1),
                spec_identity_widgets(*form, *catalog, row - 1),
            ),
        decreases 5 - row,
    {
        let ghost before = *frame;
        let text = identity_row(form, catalog, row);
        proof {
            reveal_strlit("Race        ");
            reveal_strlit("Class       ");
            reveal_strlit("Background  ");
            reveal_strlit("Alignment   ");
            reveal_strlit("< ");
            reveal_strlit(" >");
            lemma_choice_fits(catalog.races@, form.race as int, *catalog);
            lemma_choice_fits(catalog.classes@, form.class as int, *catalog);
            lemma_choice_fits(catalog.backgrounds@, form.background as int, *catalog);
            crate::menu::lemma_words_len(ALIGNMENTS[(form.alignment % 9) as int].spec_name());
            ALIGNMENTS[(form.alignment % 9) as int].lemma_name_len();
        }
        item(frame, WidgetId::Row(row), Kind::Choice, (1, 1 + row as i32), text.as_str(), 39, form.cursor == row);
        proof {
            let w = spec_item_widget(
                WidgetId::Row(row),
                Kind::Choice,
                spec_row_rect(1, 1 + row, 39),
                spec_identity_row(*form, *catalog, row as int),
                spec_sel(form.cursor == row),
            );
            lemma_frame_then(
                f0,
                before,
                *frame,
                spec_identity_inks(*form, *catalog, row - 1),
                spec_identity_widgets(*form, *catalog, row - 1),
                spec_item_inks(spec_row_rect(1, 1 + row, 39), spec_identity_row(*form, *catalog, row as int), spec_sel(form.cursor == row)),
                seq![w],
            );
            assert(spec_identity_widgets(*form, *catalog, row - 1) + seq![w] =~= spec_identity_widgets(*form, *catalog, row as int));
        }
        row = row + 1;
    }
}

/// A score cell's text: the ability, the score right-aligned in two cells between arrows,
/// its cost.
pub open spec fn spec_score_cell(form: CreationForm, catalog: Catalog, k: int) -> Seq<char> {
    ABILITY_SHORT[k]@ + " < "@ + spec_pad_left(spec_decimal(form.scores[k] as int), 2) + " > "@ + spec_decimal(
        catalog.spec_cost(form.scores[k]),
    )
}

/// Where score cell `k` stands: three to a row, thirteen cells apart, from row six.
pub open spec fn spec_score_rect(k: int) -> Rect {
    spec_row_rect(1 + 13 * (k % 3), 6 + k / 3, 12)
}

/// The first `n` score cells' paints.
pub open spec fn spec_scores_inks(form: CreationForm, catalog: Catalog, n: int) -> Seq<Ink>
    decreases n,
{
    if n <= 0 {
        Seq::empty()
    } else {
        spec_scores_inks(form, catalog, n - 1) + spec_item_inks(
            spec_score_rect(n - 1),
            spec_score_cell(form, catalog, n - 1),
            spec_sel(form.cursor == ROW_SCORES + n - 1),
        )
    }
}

/// The first `n` score cells' widgets.
pub open spec fn spec_scores_widgets(form: CreationForm, catalog: Catalog, n: int) -> Seq<Widget> {
    Seq::new(
        n as nat,
        |k: int|
            spec_item_widget(
                WidgetId::Row((ROW_SCORES + k) as usize),
                Kind::Choice,
                spec_score_rect(k),
                spec_score_cell(form, catalog, k),
                spec_sel(form.cursor == ROW_SCORES + k),
            ),
    )
}

/// The points line under the scores.
pub open spec fn spec_points_line(form: CreationForm, catalog: Catalog) -> Seq<char> {
    "Points left "@ + spec_decimal(catalog.budget - spec_spent(form.scores, catalog)) + " of "@ + spec_decimal(
        catalog.budget as int,
    )
}

fn score_cell(form: &CreationForm, catalog: &Catalog, k: usize) -> (r: String)
    requires
        k < 6,
        catalog.wf(),
    ensures
        r@ == spec_score_cell(*form, *catalog, k as int),
        r@.len() <= 40,
{
    proof {
        reveal_strlit("STR");
        reveal_strlit("DEX");
        reveal_strlit("CON");
        reveal_strlit("INT");
        reveal_strlit("WIS");
        reveal_strlit("CHA");
        reveal_strlit(" < ");
        reveal_strlit(" > ");
        crate::text::lemma_digits_len(form.scores[k as int] as nat);
        crate::text::lemma_decimal_short(catalog.spec_cost(form.scores[k as int]));
        assert(spec_pad_left(spec_decimal(form.scores[k as int] as int), 2).len() <= 3);
    }
    let mut text = ABILITY_SHORT[k].to_owned();
    push_str(&mut text, " < ");
    let digits = decimal(form.scores[k] as i64);
    push_padded_left(&mut text, digits.as_str(), 2);
    push_str(&mut text, " > ");
    push_decimal(&mut text, catalog.cost(form.scores[k]));
    text
}

fn creation_scores(frame: &mut Frame, form: &CreationForm, catalog: &Catalog)
    requires
        old(frame).wf(),
        origin_near(*old(frame)),
        catalog.wf(),
    ensures
        Frame::painted(
            *old(frame),
            *final(frame),
            spec_scores_inks(*form, *catalog, 6) + seq![spec_text_at(1, 8, spec_points_line(*form, *catalog), TEXT)],
            spec_scores_widgets(*form, *catalog, 6),
        ),
        final(frame).raster.origin == old(frame).raster.origin,
{
    let ghost f0 = *frame;
    proof {
        lemma_frame_nothing(f0);
        assert(spec_scores_widgets(*form, *catalog, 0) =~= Seq::<Widget>::empty());
    }
    let mut k: usize = 0;
    while k < 6
        invariant
            k <= 6,
            catalog.wf(),
            frame.raster.origin == f0.raster.origin,
            origin_near(f0),
            Frame::painted(f0, *frame, spec_scores_inks(*form, *catalog, k as int), spec_scores_widgets(*form, *catalog, k as int)),
        decreases 6 - k,
    {
        let ghost before = *frame;
        let text = score_cell(form, catalog, k);
        let column = 1 + 13 * (k % 3) as i32;
        let row = 6 + (k / 3) as i32;
        item(frame, WidgetId::Row(ROW_SCORES + k), Kind::Choice, (column, row), text.as_str(), 12, form.cursor == ROW_SCORES + k);
        proof {
            let w = spec_item_widget(
                WidgetId::Row((ROW_SCORES + k) as usize),
                Kind::Choice,
                spec_score_rect(k as int),
                spec_score_cell(*form, *catalog, k as int),
                spec_sel(form.cursor == ROW_SCORES + k),
            );
            lemma_frame_then(
                f0,
                before,
                *frame,
                spec_scores_inks(*form, *catalog, k as int),
                spec_scores_widgets(*form, *catalog, k as int),
                spec_item_inks(spec_score_rect(k as int), spec_score_cell(*form, *catalog, k as int), spec_sel(form.cursor == ROW_SCORES + k)),
                seq![w],
            );
            assert(spec_scores_widgets(*form, *catalog, k as int) + seq![w] =~= spec_scores_widgets(*form, *catalog, k + 1));
        }
        k = k + 1;
    }
    let ghost before = *frame;
    let mut points = "Points left ".to_owned();
    push_decimal(&mut points, catalog.budget - form.spent(catalog));
    push_str(&mut points, " of ");
    push_decimal(&mut points, catalog.budget);
    label(frame, 1, 8, points.as_str(), TEXT);
    proof {
        lemma_frame_then(
            f0,
            before,
            *frame,
            spec_scores_inks(*form, *catalog, 6),
            spec_scores_widgets(*form, *catalog, 6),
            seq![spec_text_at(1, 8, spec_points_line(*form, *catalog), TEXT)],
            Seq::empty(),
        );
        assert(spec_scores_widgets(*form, *catalog, 6) + Seq::<Widget>::empty() =~= spec_scores_widgets(*form, *catalog, 6));
    }
}

/// Plain text right-aligned to the last menu column.
pub open spec fn spec_text_right(row: int, text: Seq<char>, color: Rgb) -> Ink {
    spec_text_at(spec_right_column(text.len() as int), row, text, color)
}

/// A skill pick's text: its box, crossed when picked, and its name as words.
pub open spec fn spec_skill_pick(form: CreationForm, skill: Skill) -> Seq<char> {
    "["@ + if spec_has_skill(form.skills@, skill) {
        "x"@
    } else {
        " "@
    } + "] "@ + spec_words(skill.spec_name())
}

/// Where skill pick `i` stands: two to a row, twenty cells apart, from row nine.
pub open spec fn spec_skill_rect(i: int) -> Rect {
    spec_row_rect(1 + 20 * (i % 2), 9 + i / 2, 19)
}

/// Whether skill pick `i` is under the cursor.
pub open spec fn spec_skill_on(form: CreationForm, i: int) -> bool {
    form.cursor == ROW_SKILLS && form.skill_cursor == i
}

/// The first `n` skill picks' paints.
pub open spec fn spec_skills_inks(form: CreationForm, list: Seq<Skill>, n: int) -> Seq<Ink>
    decreases n,
{
    if n <= 0 {
        Seq::empty()
    } else {
        spec_skills_inks(form, list, n - 1) + spec_item_inks(
            spec_skill_rect(n - 1),
            spec_skill_pick(form, list[n - 1]),
            spec_sel(spec_skill_on(form, n - 1)),
        )
    }
}

/// The first `n` skill picks' widgets.
pub open spec fn spec_skills_widgets(form: CreationForm, list: Seq<Skill>, n: int) -> Seq<Widget> {
    Seq::new(
        n as nat,
        |i: int|
            spec_item_widget(
                WidgetId::Skill(i as usize),
                Kind::Toggle,
                spec_skill_rect(i),
                spec_skill_pick(form, list[i]),
                spec_sel(spec_skill_on(form, i)),
            ),
    )
}

/// The skills heading: how many are picked of how many the class picks.
pub open spec fn spec_skills_heading(form: CreationForm, catalog: Catalog) -> Seq<char> {
    "Skills "@ + spec_decimal(form.skills@.len() as int) + " of "@ + spec_decimal(form.spec_skill_list(catalog).0 as int)
}

fn skill_pick(form: &CreationForm, skill: Skill) -> (r: String)
    ensures
        r@ == spec_skill_pick(*form, skill),
        r@.len() <= 40,
{
    proof {
        crate::creation_menu::lemma_skill_at(form.skills@, skill);
        reveal_strlit("[");
        reveal_strlit("x");
        reveal_strlit(" ");
        reveal_strlit("] ");
        skill.lemma_name_len();
        crate::menu::lemma_words_len(skill.spec_name());
    }
    let mut text = "[".to_owned();
    push_str(&mut text, if crate::creation_menu::skill_at(form.skills.as_slice(), skill).is_some() { "x" } else { " " });
    push_str(&mut text, "] ");
    let name = words(skill.name());
    push_str(&mut text, name.as_str());
    text
}

fn creation_skills(frame: &mut Frame, form: &CreationForm, catalog: &Catalog)
    requires
        old(frame).wf(),
        origin_near(*old(frame)),
        form.spec_skill_list(*catalog).1.len() <= 0x100_0000,
    ensures
        Frame::painted(
            *old(frame),
            *final(frame),
            seq![spec_text_right(8, spec_skills_heading(*form, *catalog), TEXT)] + spec_skills_inks(
                *form,
                form.spec_skill_list(*catalog).1,
                form.spec_skill_list(*catalog).1.len() as int,
            ),
            spec_skills_widgets(*form, form.spec_skill_list(*catalog).1, form.spec_skill_list(*catalog).1.len() as int),
        ),
        final(frame).raster.origin == old(frame).raster.origin,
{
    let ghost f0 = *frame;
    let (choose, list) = form.skill_list(catalog);
    let mut heading = "Skills ".to_owned();
    push_digits(&mut heading, form.skills.len() as u64);
    push_str(&mut heading, " of ");
    push_digits(&mut heading, choose as u64);
    label_right(frame, 8, heading.as_str(), TEXT);
    let ghost head = seq![spec_text_right(8, spec_skills_heading(*form, *catalog), TEXT)];
    proof {
        assert(head + spec_skills_inks(*form, list@, 0) =~= head);
        assert(spec_skills_widgets(*form, list@, 0) =~= Seq::<Widget>::empty());
    }
    let mut i: usize = 0;
    while i < list.len()
        invariant
            i <= list@.len(),
            list@ == form.spec_skill_list(*catalog).1,
            list@.len() <= 0x100_0000,
            head == seq![spec_text_right(8, spec_skills_heading(*form, *catalog), TEXT)],
            frame.raster.origin == f0.raster.origin,
            origin_near(f0),
            Frame::painted(f0, *frame, head + spec_skills_inks(*form, list@, i as int), spec_skills_widgets(*form, list@, i as int)),
        decreases list@.len() - i,
    {
        let ghost before = *frame;
        let text = skill_pick(form, list[i]);
        let column = 1 + 20 * (i % 2) as i32;
        let row = 9 + (i / 2) as i32;
        item(frame, WidgetId::Skill(i), Kind::Toggle, (column, row), text.as_str(), 19, form.cursor == ROW_SKILLS && form.skill_cursor == i);
        proof {
            let state = spec_sel(spec_skill_on(*form, i as int));
            let w = spec_item_widget(WidgetId::Skill(i), Kind::Toggle, spec_skill_rect(i as int), spec_skill_pick(*form, list@[i as int]), state);
            lemma_frame_then(
                f0,
                before,
                *frame,
                head + spec_skills_inks(*form, list@, i as int),
                spec_skills_widgets(*form, list@, i as int),
                spec_item_inks(spec_skill_rect(i as int), spec_skill_pick(*form, list@[i as int]), state),
                seq![w],
            );
            assert(spec_skills_widgets(*form, list@, i as int) + seq![w] =~= spec_skills_widgets(*form, list@, i + 1));
            assert(head + spec_skills_inks(*form, list@, i as int) + spec_item_inks(
                spec_skill_rect(i as int),
                spec_skill_pick(*form, list@[i as int]),
                state,
            ) =~= head + spec_skills_inks(*form, list@, i + 1));
        }
        i = i + 1;
    }
}

/// The creation form's paints: the heading and the party's count, the identity rows, the
/// scores and the points left, the skill picks, the two buttons.
pub open spec fn spec_creation_inks(form: CreationForm, catalog: Catalog, members: int) -> Seq<Ink> {
    let list = form.spec_skill_list(catalog).1;
    seq![
        spec_text_at(1, 0, "CREATE YOUR PARTY"@, HI),
        spec_text_right(
            0,
            spec_decimal(members) + " of "@ + spec_decimal(catalog.slots as int) + " members"@,
            TEXT,
        ),
    ] + spec_identity_inks(form, catalog, 4) + (spec_scores_inks(form, catalog, 6) + seq![
        spec_text_at(1, 8, spec_points_line(form, catalog), TEXT),
    ]) + (seq![spec_text_right(8, spec_skills_heading(form, catalog), TEXT)] + spec_skills_inks(
        form,
        list,
        list.len() as int,
    )) + spec_item_inks(spec_row_rect(1, 15, 10), "Add member"@, spec_sel(form.cursor == ROW_ADD))
        + spec_item_inks(spec_row_rect(21, 15, 5), "Begin"@, spec_sel(form.cursor == ROW_BEGIN))
}

/// The creation form's widgets: the identity rows, the score cells, the skill picks, the two
/// buttons.
pub open spec fn spec_creation_widgets(form: CreationForm, catalog: Catalog) -> Seq<Widget> {
    let list = form.spec_skill_list(catalog).1;
    spec_identity_widgets(form, catalog, 4) + spec_scores_widgets(form, catalog, 6) + spec_skills_widgets(
        form,
        list,
        list.len() as int,
    ) + seq![
        spec_item_widget(WidgetId::Row(ROW_ADD), Kind::Button, spec_row_rect(1, 15, 10), "Add member"@, spec_sel(form.cursor == ROW_ADD)),
        spec_item_widget(WidgetId::Row(ROW_BEGIN), Kind::Button, spec_row_rect(21, 15, 5), "Begin"@, spec_sel(form.cursor == ROW_BEGIN)),
    ]
}

/// The creation form.
pub fn creation(frame: &mut Frame, form: &CreationForm, catalog: &Catalog, members: usize)
    requires
        old(frame).wf(),
        origin_near(*old(frame)),
        texts_fit(*catalog),
        catalog.wf(),
        form.name@.len() <= 0x10_0000,
        form.spec_skill_list(*catalog).1.len() <= 0x100_0000,
    ensures
        Frame::painted(
            *old(frame),
            *final(frame),
            spec_creation_inks(*form, *catalog, members as int),
            spec_creation_widgets(*form, *catalog),
        ),
{
    let ghost f0 = *frame;
    label(frame, 1, 0, "CREATE YOUR PARTY", HI);
    let ghost f1 = *frame;
    let mut count = String::new();
    push_digits(&mut count, members as u64);
    push_str(&mut count, " of ");
    push_digits(&mut count, catalog.slots as u64);
    push_str(&mut count, " members");
    proof {
        assert(count@ =~= spec_decimal(members as int) + " of "@ + spec_decimal(catalog.slots as int) + " members"@);
    }
    label_right(frame, 0, count.as_str(), TEXT);
    let ghost f2 = *frame;
    creation_identity(frame, form, catalog);
    let ghost f3 = *frame;
    creation_scores(frame, form, catalog);
    let ghost f4 = *frame;
    creation_skills(frame, form, catalog);
    let ghost f5 = *frame;
    proof {
        reveal_strlit("Add member");
        reveal_strlit("Begin");
    }
    item(frame, WidgetId::Row(ROW_ADD), Kind::Button, (1, 15), "Add member", 10, form.cursor == ROW_ADD);
    let ghost f6 = *frame;
    item(frame, WidgetId::Row(ROW_BEGIN), Kind::Button, (21, 15), "Begin", 5, form.cursor == ROW_BEGIN);
    proof {
        let list = form.spec_skill_list(*catalog).1;
        let h1 = seq![spec_text_at(1, 0, "CREATE YOUR PARTY"@, HI)];
        let h2 = seq![spec_text_right(0, spec_decimal(members as int) + " of "@ + spec_decimal(catalog.slots as int) + " members"@, TEXT)];
        let idi = spec_identity_inks(*form, *catalog, 4);
        let idw = spec_identity_widgets(*form, *catalog, 4);
        let sci = spec_scores_inks(*form, *catalog, 6) + seq![spec_text_at(1, 8, spec_points_line(*form, *catalog), TEXT)];
        let scw = spec_scores_widgets(*form, *catalog, 6);
        let ski = seq![spec_text_right(8, spec_skills_heading(*form, *catalog), TEXT)] + spec_skills_inks(*form, list, list.len() as int);
        let skw = spec_skills_widgets(*form, list, list.len() as int);
        let ai = spec_item_inks(spec_row_rect(1, 15, 10), "Add member"@, spec_sel(form.cursor == ROW_ADD));
        let aw = spec_item_widget(WidgetId::Row(ROW_ADD), Kind::Button, spec_row_rect(1, 15, 10), "Add member"@, spec_sel(form.cursor == ROW_ADD));
        let bi = spec_item_inks(spec_row_rect(21, 15, 5), "Begin"@, spec_sel(form.cursor == ROW_BEGIN));
        let bw = spec_item_widget(WidgetId::Row(ROW_BEGIN), Kind::Button, spec_row_rect(21, 15, 5), "Begin"@, spec_sel(form.cursor == ROW_BEGIN));
        let e = Seq::<Widget>::empty();
        lemma_frame_then(f0, f1, f2, h1, e, h2, e);
        lemma_frame_then(f0, f2, f3, h1 + h2, e + e, idi, idw);
        lemma_frame_then(f0, f3, f4, h1 + h2 + idi, e + e + idw, sci, scw);
        lemma_frame_then(f0, f4, f5, h1 + h2 + idi + sci, e + e + idw + scw, ski, skw);
        lemma_frame_then(f0, f5, f6, h1 + h2 + idi + sci + ski, e + e + idw + scw + skw, ai, seq![aw]);
        lemma_frame_then(f0, f6, *frame, h1 + h2 + idi + sci + ski + ai, e + e + idw + scw + skw + seq![aw], bi, seq![bw]);
        assert(h1 + h2 =~= seq![h1[0], h2[0]]);
        assert(e + e + idw + scw + skw + seq![aw] + seq![bw] =~= spec_creation_widgets(*form, *catalog));
    }
}

/// A modal boxes its buttons: when the box is tall enough for them under its title and wide
/// enough for each, every button lies inside it and no two buttons share a pixel.
pub proof fn lemma_modal_buttons_inside(rect: Rect, buttons: Seq<Seq<char>>, i: int, j: int)
    requires
        near(rect.x as int),
        near(rect.y as int),
        rect.h <= 0x1000_0000,
        buttons.len() <= 0x10000,
        forall|k: int| 0 <= k < buttons.len() ==> #[trigger] buttons[k].len() * 6 + 12 <= rect.w,
        rect.h >= 10 * buttons.len() + 4,
        0 <= i < buttons.len(),
        0 <= j < buttons.len(),
    ensures
        rect.spec_encloses(spec_button_rect(rect, buttons, i)),
        i != j ==> !spec_button_rect(rect, buttons, i).spec_overlaps(spec_button_rect(rect, buttons, j)),
{
    assert(buttons[i].len() * 6 + 12 <= rect.w);
    assert(buttons[j].len() * 6 + 12 <= rect.w);
}

} // verus!
