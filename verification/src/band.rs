//! The bottom band: the message line, the roster with one row per member (their class,
//! level, points, armour class, and condition), the event log, and the help line. The acting
//! member's row is barred and marked, the way the menus mark their cursor; the mouse's
//! selection keeps its highlighted name, so both read at once.

use vstd::prelude::*;
use crate::font::{fit, spec_fit};
use crate::layout::Rect;
use crate::panels::Message;
use crate::raster::{Ink, Rgb};
use crate::text::{
    clamp, decimal_left, decimal_right, fit_right, push_str, spec_clamp, spec_decimal,
    spec_pad_left, spec_pad_right,
};
use crate::widget::{
    ALERT, DIM, FRAME, Frame, HI, Kind, SP, TEXT, Widget, WidgetId, lemma_frame_nothing,
    lemma_frame_then_ink, lemma_frame_then_push, lemma_frame_then,
};
pub use crate::canvas::{
    BAND_COLUMNS, BAND_ROW0, CAPTION_ROW, FIRST_MEMBER_ROW, HELP_ROW, LOG_CELLS, LOG_COLUMN,
    LOG_ROWS, MEMBER_ROWS, MESSAGE_ROW, ROSTER_CELLS, ROWS_USED, band_cell, spec_band_cell,
};

verus! {

/// The roster's columns: where each run starts.
pub const COLUMN_STARTS: [i32; 8] = [0, 6, 23, 34, 37, 45, 48, 51];
/// The roster's captions, by column.
pub const CAPTIONS: [&'static str; 8] = ["", "NAME", "CLASS", "LV", "HP", "SP", "AC", "CONDITION"];

/// One party slot as the roster shows it.
#[derive(Debug, Clone, Default, PartialEq, Eq)]
pub struct MemberRow {
    /// The name.
    pub name: String,
    /// The class's display name.
    pub class: String,
    /// The level.
    pub level: u8,
    /// Hit points.
    pub hp: i32,
    /// Hit point maximum.
    pub hp_max: i32,
    /// Spell points.
    pub sp: u32,
    /// Armour class.
    pub ac: i64,
    /// The first condition's label.
    pub condition: Option<String>,
}

/// How a roster row is drawn: a bar under it, the name's colour, the marker before it.
#[derive(Debug, Clone, Copy, PartialEq, Eq)]
pub struct RowStyle {
    /// The bar's colour, when the member is acting.
    pub fill: Option<Rgb>,
    /// The name's colour: highlighted when the mouse selected the member.
    pub name: Rgb,
    /// Whether the marker points at the row.
    pub marker: bool,
}

/// The hit points and their maximum as the roster shows them: `hp/max`, the points clamped
/// to `-99..=999` right-aligned in three cells, the maximum clamped to `0..=999` left-aligned
/// in three.
pub open spec fn spec_hp_text(hp: int, hp_max: int) -> Seq<char> {
    spec_pad_left(spec_decimal(spec_clamp(hp, -99, 999)), 3) + seq!['/'] + spec_pad_right(
        spec_decimal(spec_clamp(hp_max, 0, 999)),
        3,
    )
}

/// The condition's text: its label, or nothing.
pub open spec fn spec_condition(m: MemberRow) -> Seq<char> {
    match m.condition {
        Some(c) => c@,
        None => Seq::empty(),
    }
}

/// Whether hit points are below a quarter of the maximum.
pub open spec fn spec_hp_low(m: MemberRow) -> bool {
    m.hp * 4 < m.hp_max
}

/// The runs of a roster row by column with their colours.
pub open spec fn spec_cells(m: MemberRow, group: Seq<char>, style: RowStyle) -> Seq<(int, Seq<char>, Rgb)> {
    seq![
        (0, spec_pad_right(spec_fit(group, 5), 5), DIM),
        (6, spec_pad_right(spec_fit(m.name@, 16), 16), style.name),
        (23, spec_pad_right(spec_fit(m.class@, 10), 10), TEXT),
        (34, spec_pad_left(spec_decimal(if m.level > 99 { 99 } else { m.level as int }), 2), TEXT),
        (37, spec_hp_text(m.hp as int, m.hp_max as int), if spec_hp_low(m) { ALERT } else { TEXT }),
        (45, spec_pad_left(spec_decimal(if m.sp > 99 { 99 } else { m.sp as int }), 2), SP),
        (48, spec_pad_left(spec_decimal(spec_clamp(m.ac as int, -9, 99)), 2), TEXT),
        (51, spec_fit(spec_condition(m), 10), ALERT),
    ]
}

impl MemberRow {
    /// Whether hit points are below a quarter of the maximum.
    pub fn hp_low(&self) -> (r: bool)
        ensures
            r == spec_hp_low(*self),
    {
        (self.hp as i64) * 4 < self.hp_max as i64
    }

    /// The row's runs of text by column with their colours; `group` is the word before the
    /// name ("front", "back", or nothing).
    pub fn cells(&self, group: &str, style: RowStyle) -> (r: Vec<(i32, String, Rgb)>)
        ensures
            r@.len() == 8,
            forall|i: int|
                0 <= i < 8 ==> r@[i].0 == spec_cells(*self, group@, style)[i].0 && r@[i].1@
                    == spec_cells(*self, group@, style)[i].1 && r@[i].2 == spec_cells(
                    *self,
                    group@,
                    style,
                )[i].2,
    {
        let hp = if self.hp_low() {
            ALERT
        } else {
            TEXT
        };
        let level: i64 = if self.level > 99 {
            99
        } else {
            self.level as i64
        };
        let sp: i64 = if self.sp > 99 {
            99
        } else {
            self.sp as i64
        };
        let mut hp_text = decimal_left(clamp(self.hp as i64, -99, 999), 3);
        push_str(&mut hp_text, "/");
        let max_text = decimal_right(clamp(self.hp_max as i64, 0, 999), 3);
        push_str(&mut hp_text, max_text.as_str());
        let condition = match &self.condition {
            Some(c) => fit(c.as_str(), 10),
            None => fit("", 10),
        };
        proof {
            reveal_strlit("/");
            reveal_strlit("");
        }
        let mut cells: Vec<(i32, String, Rgb)> = Vec::new();
        cells.push((0, fit_right(group, 5), DIM));
        cells.push((6, fit_right(self.name.as_str(), 16), style.name));
        cells.push((23, fit_right(self.class.as_str(), 10), TEXT));
        cells.push((34, decimal_left(level, 2), TEXT));
        cells.push((37, hp_text, hp));
        cells.push((45, decimal_left(sp, 2), SP));
        cells.push((48, decimal_left(clamp(self.ac, -9, 99), 2), TEXT));
        cells.push((51, condition, ALERT));
        proof {
            let s = spec_cells(*self, group@, style);
            assert(cells@[4].1@ =~= s[4].1);
            assert(spec_fit(Seq::<char>::empty(), 10) =~= Seq::<char>::empty());
        }
        cells
    }
}

/// The style for a row, as the spec sees it.
pub open spec fn spec_row_style(acting: bool, selected: bool) -> RowStyle {
    RowStyle {
        fill: if acting {
            Some(FRAME)
        } else {
            None
        },
        name: if selected {
            HI
        } else {
            TEXT
        },
        marker: acting,
    }
}

/// The style for a row: acting and selected are independent, so all four states differ.
pub fn row_style(acting: bool, selected: bool) -> (r: RowStyle)
    ensures
        r == spec_row_style(acting, selected),
{
    RowStyle {
        fill: if acting {
            Some(FRAME)
        } else {
            None
        },
        name: if selected {
            HI
        } else {
            TEXT
        },
        marker: acting,
    }
}

/// Where a party slot's row starts, if the roster has a row for it.
pub fn slot_origin(slot: usize) -> (r: Option<(i32, i32)>)
    ensures
        slot >= 6 ==> r is None,
        slot < 6 ==> r == Some(
            (
                spec_band_cell(0, 3 + slot).0 as i32,
                spec_band_cell(0, 3 + slot).1 as i32,
            ),
        ),
{
    if slot < MEMBER_ROWS {
        Some(band_cell(0, FIRST_MEMBER_ROW + slot as i32))
    } else {
        None
    }
}

/// What the band shows.
pub struct Band<'a> {
    /// The message line.
    pub message: &'a Message,
    /// The party, in marching order.
    pub members: &'a [MemberRow],
    /// How many members stand in front.
    pub front_row: usize,
    /// The member the mouse selected.
    pub selected: Option<usize>,
    /// The member whose turn it is.
    pub acting: Option<usize>,
    /// The event log, oldest first.
    pub log: &'a [String],
    /// The help line.
    pub help: &'a str,
}

/// The word before a slot's name: the first slot is the front, the first past the front row
/// is the back.
pub open spec fn spec_group(slot: int, front_row: int) -> Seq<char> {
    if slot == 0 {
        "front"@
    } else if slot == front_row {
        "back"@
    } else {
        Seq::empty()
    }
}

/// A slot's row rectangle: `ROSTER_CELLS` cells wide from its origin.
pub open spec fn spec_slot_rect(slot: int) -> Rect {
    Rect {
        x: spec_band_cell(0, 3 + slot).0 as i32,
        y: spec_band_cell(0, 3 + slot).1 as i32,
        w: 366,
        h: 8,
    }
}

/// The style of a slot's row in a view.
pub open spec fn spec_slot_style(view: Band, slot: int) -> RowStyle {
    spec_row_style(view.acting == Some(slot as usize), view.selected == Some(slot as usize))
}

/// The texts of a row's runs, each at its column.
pub open spec fn spec_cell_inks(x: int, y: int, cells: Seq<(int, Seq<char>, Rgb)>) -> Seq<Ink> {
    cells.map_values(|c: (int, Seq<char>, Rgb)| Ink::Text { x: x + c.0 * 6, y, text: c.1, color: c.2 })
}

/// A member's row: the bar when acting, the runs, the marker when acting.
pub open spec fn spec_member_inks(view: Band, slot: int) -> Seq<Ink> {
    let rect = spec_slot_rect(slot);
    let style = spec_slot_style(view, slot);
    let bar = match style.fill {
        Some(color) => seq![Ink::Fill { rect, color }],
        None => Seq::empty(),
    };
    let marker = if style.marker {
        seq![Ink::Marker { x: rect.x - 5, y: rect.y + 1, color: HI }]
    } else {
        Seq::empty()
    };
    bar + spec_cell_inks(
        rect.x as int,
        rect.y as int,
        spec_cells(view.members@[slot], spec_group(slot, view.front_row as int), style),
    ) + marker
}

/// The rows of the first `n` members.
pub open spec fn spec_members_inks(view: Band, n: int) -> Seq<Ink>
    decreases n,
{
    if n <= 0 {
        Seq::empty()
    } else {
        spec_members_inks(view, n - 1) + spec_member_inks(view, n - 1)
    }
}

/// The widgets of the first `n` members' rows.
pub open spec fn spec_members_widgets(n: int) -> Seq<Widget> {
    Seq::new(
        if n < 0 { 0 } else { n as nat },
        |slot: int| Widget::spec_new(WidgetId::Member(slot as usize), spec_slot_rect(slot), Kind::Button),
    )
}

/// How many members have a roster row.
pub open spec fn spec_rows_shown(view: Band) -> int {
    if view.members@.len() < 6 {
        view.members@.len() as int
    } else {
        6
    }
}

/// The caption row: a caption over each column, `EVENTS` over the log.
pub open spec fn spec_caption_inks() -> Seq<Ink> {
    let y = spec_band_cell(0, 2).1;
    let x = spec_band_cell(0, 2).0;
    Seq::new(8, |i: int| Ink::Text { x: x + COLUMN_STARTS[i] * 6, y, text: CAPTIONS[i]@, color: DIM })
        .push(Ink::Text { x: spec_band_cell(63, 2).0, y, text: "EVENTS"@, color: DIM })
}

/// The roster: the captions and one row per member, up to six.
pub open spec fn spec_roster_inks(view: Band) -> Seq<Ink> {
    spec_caption_inks() + spec_members_inks(view, spec_rows_shown(view))
}

/// The log's tail: its last `LOG_ROWS` lines, the newest on the log's last row in full
/// colour, the older lines dim above it, each fitted to `LOG_CELLS`.
pub open spec fn spec_log_inks(lines: Seq<String>) -> Seq<Ink> {
    let n = if lines.len() < 18 { lines.len() as int } else { 18 };
    let total = lines.len();
    let start = total - n;
    let first = 3 + 18 - n;
    Seq::new(
        n as nat,
        |i: int|
            Ink::Text {
                x: spec_band_cell(63, first + i).0,
                y: spec_band_cell(63, first + i).1,
                text: spec_fit(lines[start + i]@, 149),
                color: if i + 1 == n {
                    TEXT
                } else {
                    DIM
                },
            },
    )
}

/// The rule between the roster and the log.
pub open spec fn spec_rule() -> Rect {
    Rect { x: (spec_band_cell(62, 2).0 + 2) as i32, y: spec_band_cell(62, 2).1 as i32, w: 1, h: 152 }
}

/// The band's paints: the message (alert colour for a rejection), the roster, the rule, the
/// log, the help line.
pub open spec fn spec_band_inks(view: Band) -> Seq<Ink> {
    seq![
        Ink::Text {
            x: spec_band_cell(0, 0).0,
            y: spec_band_cell(0, 0).1,
            text: spec_fit(view.message.text@, 212),
            color: if view.message.alert {
                ALERT
            } else {
                TEXT
            },
        },
    ] + spec_roster_inks(view) + seq![Ink::Fill { rect: spec_rule(), color: FRAME }] + spec_log_inks(
        view.log@,
    ) + seq![
        Ink::Text {
            x: spec_band_cell(0, 21).0,
            y: spec_band_cell(0, 21).1,
            text: spec_fit(view.help@, 212),
            color: DIM,
        },
    ]
}

/// Paint the band: message, captions, roster, the rule, the log, help; register a button per
/// member's row.
pub fn band(frame: &mut Frame, view: &Band)
    requires
        old(frame).wf(),
        -0x1000_0000 <= old(frame).raster.origin.0 <= 0x1000_0000,
        -0x1000_0000 <= old(frame).raster.origin.1 <= 0x1000_0000,
    ensures
        Frame::painted(
            *old(frame),
            *final(frame),
            spec_band_inks(*view),
            spec_members_widgets(spec_rows_shown(*view)),
        ),
{
    let ghost f0 = *frame;
    let (x, y) = band_cell(0, MESSAGE_ROW);
    let color = if view.message.alert {
        ALERT
    } else {
        TEXT
    };
    let message = fit(view.message.text.as_str(), BAND_COLUMNS);
    frame.raster.text(x, y, message.as_str(), color);
    let ghost f1 = *frame;
    let ghost ops1 = seq![
        Ink::Text { x: x as int, y: y as int, text: message@, color },
    ];
    proof {
        lemma_frame_nothing(f0);
        lemma_frame_then_ink(f0, f0, f1, Seq::empty(), Seq::empty(), ops1[0]);
        assert(Seq::<Ink>::empty().push(ops1[0]) =~= ops1);
    }
    roster(frame, view);
    let ghost f2 = *frame;
    proof {
        lemma_frame_then(
            f0,
            f1,
            f2,
            ops1,
            Seq::empty(),
            spec_roster_inks(*view),
            spec_members_widgets(spec_rows_shown(*view)),
        );
        assert(Seq::<Widget>::empty() + spec_members_widgets(spec_rows_shown(*view))
            =~= spec_members_widgets(spec_rows_shown(*view)));
    }
    let (rx, ry) = band_cell(LOG_COLUMN - 1, CAPTION_ROW);
    let rule = Rect::new(rx + 2, ry, 1, ((HELP_ROW - CAPTION_ROW) * 8) as u32);
    frame.raster.fill(rule, FRAME);
    let ghost f3 = *frame;
    proof {
        lemma_frame_then_ink(
            f0,
            f2,
            f3,
            ops1 + spec_roster_inks(*view),
            spec_members_widgets(spec_rows_shown(*view)),
            Ink::Fill { rect: rule, color: FRAME },
        );
    }
    log(frame, view.log);
    let ghost f4 = *frame;
    proof {
        lemma_frame_then(
            f0,
            f3,
            f4,
            (ops1 + spec_roster_inks(*view)).push(Ink::Fill { rect: rule, color: FRAME }),
            spec_members_widgets(spec_rows_shown(*view)),
            spec_log_inks(view.log@),
            Seq::empty(),
        );
    }
    let (hx, hy) = band_cell(0, HELP_ROW);
    let help = fit(view.help, BAND_COLUMNS);
    frame.raster.text(hx, hy, help.as_str(), DIM);
    proof {
        let help_ink = Ink::Text { x: hx as int, y: hy as int, text: help@, color: DIM };
        lemma_frame_then_ink(
            f0,
            f4,
            *frame,
            (ops1 + spec_roster_inks(*view)).push(Ink::Fill { rect: rule, color: FRAME })
                + spec_log_inks(view.log@),
            spec_members_widgets(spec_rows_shown(*view)) + Seq::empty(),
            help_ink,
        );
        assert(spec_members_widgets(spec_rows_shown(*view)) + Seq::<Widget>::empty()
            =~= spec_members_widgets(spec_rows_shown(*view)));
        assert(((ops1 + spec_roster_inks(*view)).push(Ink::Fill { rect: rule, color: FRAME })
            + spec_log_inks(view.log@)).push(help_ink) =~= spec_band_inks(*view));
    }
}

/// The captions and one row per member, the acting one barred and marked.
fn roster(frame: &mut Frame, view: &Band)
    requires
        old(frame).wf(),
        -0x1000_0000 <= old(frame).raster.origin.0 <= 0x1000_0000,
        -0x1000_0000 <= old(frame).raster.origin.1 <= 0x1000_0000,
    ensures
        Frame::painted(
            *old(frame),
            *final(frame),
            spec_roster_inks(*view),
            spec_members_widgets(spec_rows_shown(*view)),
        ),
        final(frame).raster.origin == old(frame).raster.origin,
{
    let ghost f0 = *frame;
    let (x, y) = band_cell(0, CAPTION_ROW);
    let mut i: usize = 0;
    proof {
        lemma_frame_nothing(f0);
        assert(spec_caption_inks().take(0) =~= Seq::<Ink>::empty());
    }
    while i < 8
        invariant
            i <= 8,
            x == spec_band_cell(0, 2).0,
            y == spec_band_cell(0, 2).1,
            Frame::painted(f0, *frame, spec_caption_inks().take(i as int), Seq::empty()),
        decreases 8 - i,
    {
        let ghost before = *frame;
        frame.raster.text(x + COLUMN_STARTS[i] * 6, y, CAPTIONS[i], DIM);
        proof {
            let op = Ink::Text { x: x + COLUMN_STARTS[i as int] * 6, y: y as int, text: CAPTIONS[i as int]@, color: DIM };
            lemma_frame_then_ink(f0, before, *frame, spec_caption_inks().take(i as int), Seq::empty(), op);
            assert(spec_caption_inks().take(i as int).push(op) =~= spec_caption_inks().take(i + 1));
        }
        i = i + 1;
    }
    let (lx, _) = band_cell(LOG_COLUMN, CAPTION_ROW);
    let ghost before = *frame;
    frame.raster.text(lx, y, "EVENTS", DIM);
    proof {
        let op = Ink::Text { x: lx as int, y: y as int, text: "EVENTS"@, color: DIM };
        lemma_frame_then_ink(f0, before, *frame, spec_caption_inks().take(8), Seq::empty(), op);
        assert(spec_caption_inks().take(8).push(op) =~= spec_caption_inks());
        assert(spec_caption_inks() + spec_members_inks(*view, 0) =~= spec_caption_inks());
        assert(spec_members_widgets(0) =~= Seq::<Widget>::empty());
    }
    let shown = if view.members.len() < MEMBER_ROWS {
        view.members.len()
    } else {
        MEMBER_ROWS
    };
    let mut slot: usize = 0;
    proof {
        assert(spec_caption_inks() + spec_members_inks(*view, 0) == spec_caption_inks());
        assert(spec_members_widgets(0) == Seq::<Widget>::empty());
        assert(Frame::painted(f0, *frame, spec_caption_inks(), Seq::empty()));
        assert(Frame::painted(f0, *frame, spec_caption_inks() + spec_members_inks(*view, 0), spec_members_widgets(0)));
    }
    while slot < shown
        invariant
            slot <= shown,
            shown == spec_rows_shown(*view),
            shown <= view.members@.len(),
            shown <= 6,
            frame.raster.origin == f0.raster.origin,
            -0x1000_0000 <= f0.raster.origin.0 <= 0x1000_0000,
            -0x1000_0000 <= f0.raster.origin.1 <= 0x1000_0000,
            Frame::painted(
                f0,
                *frame,
                spec_caption_inks() + spec_members_inks(*view, slot as int),
                spec_members_widgets(slot as int),
            ),
        decreases shown - slot,
    {
        let ghost before = *frame;
        member_row(frame, view, slot);
        proof {
            lemma_frame_then(
                f0,
                before,
                *frame,
                spec_caption_inks() + spec_members_inks(*view, slot as int),
                spec_members_widgets(slot as int),
                spec_member_inks(*view, slot as int),
                seq![Widget::spec_new(WidgetId::Member(slot), spec_slot_rect(slot as int), Kind::Button)],
            );
            assert(spec_caption_inks() + spec_members_inks(*view, slot as int) + spec_member_inks(*view, slot as int)
                =~= spec_caption_inks() + spec_members_inks(*view, slot + 1));
            assert(spec_members_widgets(slot as int) + seq![Widget::spec_new(WidgetId::Member(slot), spec_slot_rect(slot as int), Kind::Button)]
                =~= spec_members_widgets(slot + 1));
        }
        slot = slot + 1;
    }
}

/// One member's row: the bar when acting, the runs, the marker when acting, the button.
fn member_row(frame: &mut Frame, view: &Band, slot: usize)
    requires
        old(frame).wf(),
        slot < 6,
        slot < view.members@.len(),
        -0x1000_0000 <= old(frame).raster.origin.0 <= 0x1000_0000,
        -0x1000_0000 <= old(frame).raster.origin.1 <= 0x1000_0000,
    ensures
        Frame::painted(
            *old(frame),
            *final(frame),
            spec_member_inks(*view, slot as int),
            seq![Widget::spec_new(WidgetId::Member(slot), spec_slot_rect(slot as int), Kind::Button)],
        ),
        final(frame).raster.origin == old(frame).raster.origin,
{
    let ghost f0 = *frame;
    let (x, y) = band_cell(0, FIRST_MEMBER_ROW + slot as i32);
    let member = &view.members[slot];
    let group = if slot == 0 {
        "front"
    } else if slot == view.front_row {
        "back"
    } else {
        ""
    };
    proof {
        reveal_strlit("");
    }
    let style = row_style(view.acting == Some(slot), view.selected == Some(slot));
    let rect = Rect::new(x, y, 366, 8);
    let ghost bar = match style.fill {
        Some(color) => seq![Ink::Fill { rect, color }],
        None => Seq::<Ink>::empty(),
    };
    proof {
        lemma_frame_nothing(f0);
    }
    if let Some(fill) = style.fill {
        frame.raster.fill(rect, fill);
        proof {
            lemma_frame_then_ink(f0, f0, *frame, Seq::empty(), Seq::empty(), Ink::Fill { rect, color: fill });
            assert(Seq::<Ink>::empty().push(Ink::Fill { rect, color: fill }) =~= bar);
        }
    }
    let cells = member.cells(group, style);
    let ghost spec = spec_cells(*member, group@, style);
    let ghost all = spec_cell_inks(x as int, y as int, spec);
    let mut i: usize = 0;
    proof {
        assert(spec[0].0 == 0 && spec[1].0 == 6 && spec[2].0 == 23 && spec[3].0 == 34);
        assert(spec[4].0 == 37 && spec[5].0 == 45 && spec[6].0 == 48 && spec[7].0 == 51);
    }
    while i < 8
        invariant
            i <= 8,
            cells@.len() == 8,
            forall|k: int| 0 <= k < 8 ==> 0 <= #[trigger] spec[k].0 <= 51,
            forall|k: int|
                0 <= k < 8 ==> cells@[k].0 == spec[k].0 && cells@[k].1@ == spec[k].1 && cells@[k].2
                    == spec[k].2,
            all == spec_cell_inks(x as int, y as int, spec),
            spec.len() == 8,
            frame.raster.origin == f0.raster.origin,
            x == spec_band_cell(0, 3 + slot).0,
            y == spec_band_cell(0, 3 + slot).1,
            Frame::painted(f0, *frame, bar + all.take(i as int), Seq::empty()),
        decreases 8 - i,
    {
        let ghost before = *frame;
        let (column, text, color) = (cells[i].0, &cells[i].1, cells[i].2);
        proof {
            assert(0 <= spec[i as int].0 <= 51);
        }
        frame.raster.text(x + column * 6, y, text.as_str(), color);
        proof {
            let op = Ink::Text { x: x + column * 6, y: y as int, text: text@, color };
            lemma_frame_then_ink(f0, before, *frame, bar + all.take(i as int), Seq::empty(), op);
            assert(all[i as int] == op);
            assert((bar + all.take(i as int)).push(op) =~= bar + all.take(i + 1));
        }
        i = i + 1;
    }
    if style.marker {
        let ghost before = *frame;
        frame.raster.marker(x - 5, y + 1, HI);
        proof {
            let op = Ink::Marker { x: x - 5, y: y + 1, color: HI };
            lemma_frame_then_ink(f0, before, *frame, bar + all.take(8), Seq::empty(), op);
            assert((bar + all.take(8)).push(op) =~= spec_member_inks(*view, slot as int));
        }
    } else {
        proof {
            assert(bar + all.take(8) =~= spec_member_inks(*view, slot as int));
        }
    }
    let ghost before = *frame;
    frame.push(Widget::new(WidgetId::Member(slot), rect, Kind::Button));
    proof {
        lemma_frame_then_push(
            f0,
            before,
            *frame,
            spec_member_inks(*view, slot as int),
            Seq::empty(),
            Widget::spec_new(WidgetId::Member(slot), rect, Kind::Button),
        );
        assert(Seq::<Widget>::empty().push(Widget::spec_new(WidgetId::Member(slot), rect, Kind::Button))
            =~= seq![Widget::spec_new(WidgetId::Member(slot), spec_slot_rect(slot as int), Kind::Button)]);
    }
}

/// The log's tail, newest at the bottom in full colour, the older lines dim.
fn log(frame: &mut Frame, lines: &[String])
    requires
        old(frame).wf(),
    ensures
        Frame::painted(*old(frame), *final(frame), spec_log_inks(lines@), Seq::empty()),
{
    let ghost f0 = *frame;
    let n = if lines.len() < LOG_ROWS {
        lines.len()
    } else {
        LOG_ROWS
    };
    let total = lines.len();
    let start = total - n;
    let first = FIRST_MEMBER_ROW + LOG_ROWS as i32 - n as i32;
    let ghost all = spec_log_inks(lines@);
    let mut i: usize = 0;
    proof {
        lemma_frame_nothing(f0);
        assert(all.take(0) =~= Seq::<Ink>::empty());
    }
    while i < n
        invariant
            i <= n,
            n <= 18,
            n == (if lines@.len() < 18 { lines@.len() as int } else { 18 }),
            start == lines@.len() - n,
            start + n == lines@.len(),
            total == lines@.len(),
            first == 3 + 18 - n,
            all == spec_log_inks(lines@),
            all.len() == n,
            Frame::painted(f0, *frame, all.take(i as int), Seq::empty()),
        decreases n - i,
    {
        let ghost before = *frame;
        let (x, y) = band_cell(LOG_COLUMN, first + i as i32);
        let color = if i + 1 == n {
            TEXT
        } else {
            DIM
        };
        let text = fit(lines[start + i].as_str(), LOG_CELLS);
        frame.raster.text(x, y, text.as_str(), color);
        proof {
            let op = Ink::Text { x: x as int, y: y as int, text: text@, color };
            lemma_frame_then_ink(f0, before, *frame, all.take(i as int), Seq::empty(), op);
            assert(all[i as int] == op);
            assert(all.take(i as int).push(op) =~= all.take(i + 1));
        }
        i = i + 1;
    }
    proof {
        assert(all.take(n as int) =~= all);
    }
}

/// A roster row fits its sixty-one cells for every member, however long its words or large
/// its numbers: each run ends before the next column begins, the last by cell sixty-one.
pub proof fn lemma_roster_fits(m: MemberRow, group: Seq<char>, style: RowStyle)
    ensures
        forall|i: int|
            0 <= i < 7 ==> #[trigger] spec_cells(m, group, style)[i].0 + spec_cells(m, group, style)[i].1.len()
                < spec_cells(m, group, style)[i + 1].0,
        spec_cells(m, group, style)[7].0 + spec_cells(m, group, style)[7].1.len() <= ROSTER_CELLS,
{
    let c = spec_cells(m, group, style);
    crate::font::lemma_fit_prefix(group, 5);
    crate::font::lemma_fit_prefix(m.name@, 16);
    crate::font::lemma_fit_prefix(m.class@, 10);
    crate::font::lemma_fit_prefix(spec_condition(m), 10);
    crate::text::lemma_pad_len(spec_fit(group, 5), 5);
    crate::text::lemma_pad_len(spec_fit(m.name@, 16), 16);
    crate::text::lemma_pad_len(spec_fit(m.class@, 10), 10);
    let level = if m.level > 99 { 99 } else { m.level as int };
    let sp = if m.sp > 99 { 99 } else { m.sp as int };
    let hp = spec_clamp(m.hp as int, -99, 999);
    let max = spec_clamp(m.hp_max as int, 0, 999);
    let ac = spec_clamp(m.ac as int, -9, 99);
    crate::text::lemma_digits_len(level as nat);
    crate::text::lemma_digits_len(sp as nat);
    crate::text::lemma_digits_len(max as nat);
    crate::text::lemma_digits_len(if hp < 0 { (-hp) as nat } else { hp as nat });
    crate::text::lemma_digits_len(if ac < 0 { (-ac) as nat } else { ac as nat });
    crate::text::lemma_pad_len(spec_decimal(level), 2);
    crate::text::lemma_pad_len(spec_decimal(sp), 2);
    crate::text::lemma_pad_len(spec_decimal(ac), 2);
    crate::text::lemma_pad_len(spec_decimal(hp), 3);
    crate::text::lemma_pad_len(spec_decimal(max), 3);
    assert(c[4].1.len() == 7);
}

} // verus!
