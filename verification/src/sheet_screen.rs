//! The character sheet painted in the menu box: a header with three tabs and the member
//! choice, then one of three pages laid out in columns. The only widgets are the tabs
//! (`Row(0..3)`) and the member row (`Row(3)`, a choice with arrows).

use vstd::prelude::*;
use crate::font::{fit, spec_fit};
use crate::layout::spec_cell;
use crate::raster::{Ink, Rgb};
use crate::screens::{
    ItemState, item_state, label, label_right, origin_near, spec_item_inks, spec_item_widget,
    spec_right_column, spec_row_rect,
};
use crate::sheet_menu::{SHEET_PAGES, SheetMenu, SheetPage, SheetView, signed, spec_signed};
use crate::text::{
    push_decimal, push_digits, spec_digits, push_padded_left, push_padded_right, push_str, spec_clamp,
    spec_decimal, spec_pad_left, spec_pad_right, push_join, spec_join, views,
};
use crate::widget::{
    DIM, Frame, HI, Kind, TEXT, Widget, WidgetId, lemma_frame_nothing, lemma_frame_then,
};

verus! {

/// The widget row of the member choice, after the three tabs.
pub const ROW_MEMBER: usize = 3;
/// The tabs' columns on row 0.
pub const TAB_COLUMNS: [i32; 3] = [8, 16, 24];
/// Cells a full-width row may take.
pub const ROW_CELLS: usize = 158;

/// Plain text at a cell of the menu grid.
pub open spec fn spec_label(column: int, row: int, text: Seq<char>, color: Rgb) -> Ink {
    Ink::Text { x: spec_cell(column, row).0, y: spec_cell(column, row).1, text, color }
}

/// The smaller of two.
pub open spec fn spec_min(a: int, b: int) -> int {
    if a < b {
        a
    } else {
        b
    }
}

/// A list laid out `per_row` entries to a row from `first_row`, `pitch` cells apart, each
/// fitted to a cell less than the pitch, over at most `rows` rows; an empty list says
/// `empty`, dim.
pub open spec fn spec_columns(
    first_row: int,
    per_row: int,
    pitch: int,
    rows: int,
    entries: Seq<Seq<char>>,
    empty: Seq<char>,
) -> Seq<Ink> {
    if entries.len() == 0 {
        seq![spec_label(1, first_row, empty, DIM)]
    } else {
        let width = if pitch < 1 {
            0
        } else {
            pitch - 1
        };
        Seq::new(
            spec_min(entries.len() as int, per_row * rows) as nat,
            |i: int|
                spec_label(
                    1 + (i % per_row) * pitch,
                    first_row + i / per_row,
                    spec_fit(entries[i], width),
                    TEXT,
                ),
        )
    }
}

/// A list laid out in columns.
pub fn columns(
    frame: &mut Frame,
    first_row: i32,
    per_row: usize,
    pitch: i32,
    rows: usize,
    entries: &[String],
    empty: &str,
)
    requires
        old(frame).wf(),
        0 <= first_row <= 1000,
        1 <= per_row <= 1000,
        -1000 <= pitch <= 1000,
        rows <= 1000,
    ensures
        Frame::painted(
            *old(frame),
            *final(frame),
            spec_columns(first_row as int, per_row as int, pitch as int, rows as int, views(entries@), empty@),
            Seq::empty(),
        ),
{
    let ghost f0 = *frame;
    proof {
        lemma_frame_nothing(f0);
    }
    if entries.len() == 0 {
        label(frame, 1, first_row, empty, DIM);
        return;
    }
    let width: usize = if pitch < 1 {
        0
    } else {
        (pitch - 1) as usize
    };
    proof {
        assert(per_row * rows <= 1000 * 1000) by (nonlinear_arith)
            requires
                per_row <= 1000,
                rows <= 1000,
        ;
    }
    let limit = per_row * rows;
    let n = if entries.len() < limit {
        entries.len()
    } else {
        limit
    };
    let ghost all = spec_columns(first_row as int, per_row as int, pitch as int, rows as int, views(entries@), empty@);
    let mut i: usize = 0;
    proof {
        assert(all.take(0) =~= Seq::<Ink>::empty());
    }
    while i < n
        invariant
            i <= n,
            n as int == spec_min(entries@.len() as int, per_row * rows),
            entries@.len() > 0,
            0 <= first_row <= 1000,
            1 <= per_row <= 1000,
            -1000 <= pitch <= 1000,
            rows <= 1000,
            width == (if pitch < 1 { 0 } else { pitch - 1 }),
            all == spec_columns(first_row as int, per_row as int, pitch as int, rows as int, views(entries@), empty@),
            all.len() == n,
            Frame::painted(f0, *frame, all.take(i as int), Seq::empty()),
        decreases n - i,
    {
        let ghost before = *frame;
        let column = i % per_row;
        let row = i / per_row;
        proof {
            assert(row <= i);
            assert(column * pitch <= 1000 * 1000 && column * pitch >= -1000 * 1000) by (nonlinear_arith)
                requires
                    0 <= column < per_row,
                    per_row <= 1000,
                    -1000 <= pitch <= 1000,
            ;
            assert(i < 1000 * 1000) by (nonlinear_arith)
                requires
                    i < per_row * rows,
                    per_row <= 1000,
                    rows <= 1000,
            ;
        }
        let text = fit(entries[i].as_str(), width);
        label(frame, 1 + column as i32 * pitch, first_row + row as i32, text.as_str(), TEXT);
        proof {
            let op = spec_label(1 + (i % per_row) * pitch, first_row + i / per_row, spec_fit(views(entries@)[i as int], width as int), TEXT);
            assert(all[i as int] == op);
            lemma_frame_then(f0, before, *frame, all.take(i as int), Seq::empty(), seq![op], Seq::empty());
            assert(all.take(i as int) + seq![op] =~= all.take(i + 1));
            assert(Seq::<Widget>::empty() + Seq::<Widget>::empty() =~= Seq::<Widget>::empty());
        }
        i = i + 1;
    }
    proof {
        assert(all.take(n as int) =~= all);
    }
}

// ---------------------------------------------------------------- header

/// The member count: `member m of n`.
pub open spec fn spec_member_count(member: int, members: int) -> Seq<char> {
    "member "@ + spec_decimal(member + 1) + " of "@ + spec_decimal(members)
}

/// The member row: the name, race, class and level between the arrows.
pub open spec fn spec_member_row(view: SheetView) -> Seq<char> {
    "< "@ + spec_pad_right(spec_fit(view.name@, 24), 24) + " >  "@ + spec_pad_right(
        spec_fit(view.race@, 20),
        20,
    ) + "  "@ + spec_pad_right(spec_fit(view.class@, 10), 10) + " "@ + spec_pad_left(
        spec_decimal(spec_min(view.level as int, 99)),
        2,
    )
}

/// The tab `i`'s state: selected on the page shown.
pub open spec fn spec_tab_state(menu: SheetMenu, i: int) -> ItemState {
    if menu.page == crate::sheet_menu::spec_page(i) {
        ItemState::Selected
    } else {
        ItemState::Normal
    }
}

/// The tab `i`'s rectangle.
pub open spec fn spec_tab_rect(i: int) -> crate::layout::Rect {
    spec_row_rect(TAB_COLUMNS[i] as int, 0, crate::sheet_menu::spec_page(i).spec_label().len() as int)
}

/// The first `n` tabs' paints.
pub open spec fn spec_tabs(menu: SheetMenu, n: int) -> Seq<Ink>
    decreases n,
{
    if n <= 0 {
        Seq::empty()
    } else {
        spec_tabs(menu, n - 1) + spec_item_inks(
            spec_tab_rect(n - 1),
            crate::sheet_menu::spec_page(n - 1).spec_label(),
            spec_tab_state(menu, n - 1),
        )
    }
}

/// The first `n` tabs' widgets.
pub open spec fn spec_tab_widgets(menu: SheetMenu, n: int) -> Seq<Widget> {
    Seq::new(
        n as nat,
        |i: int|
            spec_item_widget(
                WidgetId::Row(i as usize),
                Kind::Button,
                spec_tab_rect(i),
                crate::sheet_menu::spec_page(i).spec_label(),
                spec_tab_state(menu, i),
            ),
    )
}

/// The header's paints: the title, the tabs, the member count, the member row.
pub open spec fn spec_header_inks(menu: SheetMenu, view: SheetView, members: int) -> Seq<Ink> {
    let count = spec_member_count(menu.member as int, members);
    seq![spec_label(1, 0, "SHEET"@, HI)] + spec_tabs(menu, 3) + seq![
        spec_label(spec_right_column(count.len() as int), 0, count, DIM),
    ] + spec_item_inks(spec_row_rect(1, 1, 158), spec_member_row(view), ItemState::Normal)
}

/// The header's widgets: the three tabs and the member row.
pub open spec fn spec_header_widgets(menu: SheetMenu, view: SheetView) -> Seq<Widget> {
    spec_tab_widgets(menu, 3) + seq![
        spec_item_widget(
            WidgetId::Row(3),
            Kind::Choice,
            spec_row_rect(1, 1, 158),
            spec_member_row(view),
            ItemState::Normal,
        ),
    ]
}

/// The header: the title, the tabs, the member count, and the member row.
pub fn header(frame: &mut Frame, menu: &SheetMenu, view: &SheetView, members: usize)
    requires
        old(frame).wf(),
        origin_near(*old(frame)),
        menu.member < usize::MAX,
    ensures
        Frame::painted(
            *old(frame),
            *final(frame),
            spec_header_inks(*menu, *view, members as int),
            spec_header_widgets(*menu, *view),
        ),
        final(frame).raster.origin == old(frame).raster.origin,
{
    let ghost f0 = *frame;
    label(frame, 1, 0, "SHEET", HI);
    let ghost head = seq![spec_label(1, 0, "SHEET"@, HI)];
    let mut i: usize = 0;
    proof {
        assert(head + spec_tabs(*menu, 0) =~= head);
        assert(spec_tab_widgets(*menu, 0) =~= Seq::<Widget>::empty());
    }
    while i < 3
        invariant
            i <= 3,
            frame.raster.origin == f0.raster.origin,
            origin_near(f0),
            head == seq![spec_label(1, 0, "SHEET"@, HI)],
            Frame::painted(f0, *frame, head + spec_tabs(*menu, i as int), spec_tab_widgets(*menu, i as int)),
        decreases 3 - i,
    {
        let ghost before = *frame;
        let page = SHEET_PAGES[i];
        let word = page.label();
        proof {
            assert(page == crate::sheet_menu::spec_page(i as int));
            reveal_strlit("Stats");
            reveal_strlit("Magic");
            reveal_strlit("Gear");
        }
        let state = ItemState::from_selected(page == menu.page);
        item_state(frame, WidgetId::Row(page.index()), Kind::Button, (TAB_COLUMNS[i], 0), word, word.unicode_len(), state);
        proof {
            let rect = spec_tab_rect(i as int);
            let w = spec_item_widget(WidgetId::Row(i), Kind::Button, rect, page.spec_label(), spec_tab_state(*menu, i as int));
            lemma_frame_then(
                f0,
                before,
                *frame,
                head + spec_tabs(*menu, i as int),
                spec_tab_widgets(*menu, i as int),
                spec_item_inks(rect, page.spec_label(), spec_tab_state(*menu, i as int)),
                seq![w],
            );
            assert(head + spec_tabs(*menu, i as int) + spec_item_inks(rect, page.spec_label(), spec_tab_state(*menu, i as int))
                =~= head + spec_tabs(*menu, i + 1));
            assert(spec_tab_widgets(*menu, i as int) + seq![w] =~= spec_tab_widgets(*menu, i + 1));
        }
        i = i + 1;
    }
    let ghost f1 = *frame;
    let mut count = String::new();
    push_str(&mut count, "member ");
    push_digits(&mut count, menu.member as u64 + 1);
    push_str(&mut count, " of ");
    push_digits(&mut count, members as u64);
    proof {
        assert(count@ =~= spec_member_count(menu.member as int, members as int));
    }
    label_right(frame, 0, count.as_str(), DIM);
    let ghost f2 = *frame;
    proof {
        lemma_frame_then(
            f0,
            f1,
            f2,
            head + spec_tabs(*menu, 3),
            spec_tab_widgets(*menu, 3),
            seq![spec_label(spec_right_column(count@.len() as int), 0, count@, DIM)],
            Seq::empty(),
        );
        assert(spec_tab_widgets(*menu, 3) + Seq::<Widget>::empty() =~= spec_tab_widgets(*menu, 3));
    }
    let mut text = String::new();
    push_str(&mut text, "< ");
    let name = fit(view.name.as_str(), 24);
    push_padded_right(&mut text, name.as_str(), 24);
    push_str(&mut text, " >  ");
    let race = fit(view.race.as_str(), 20);
    push_padded_right(&mut text, race.as_str(), 20);
    push_str(&mut text, "  ");
    let class = fit(view.class.as_str(), 10);
    push_padded_right(&mut text, class.as_str(), 10);
    push_str(&mut text, " ");
    let level: i64 = if view.level < 99 {
        view.level as i64
    } else {
        99
    };
    let mut digits = String::new();
    push_decimal(&mut digits, level);
    push_padded_left(&mut text, digits.as_str(), 2);
    proof {
        assert(text@ =~= spec_member_row(*view));
        if level >= 10 {
            assert(spec_digits((level / 10) as nat).len() == 1);
        }
        assert(digits@.len() <= 2);
        assert(name@.len() <= 24 && race@.len() <= 20 && class@.len() <= 10);
        assert(spec_pad_right(name@, 24).len() == 24);
        assert(spec_pad_right(race@, 20).len() == 20);
        assert(spec_pad_right(class@, 10).len() == 10);
        assert(spec_pad_left(digits@, 2).len() == 2);
        reveal_strlit("< ");
        reveal_strlit(" >  ");
        reveal_strlit("  ");
        reveal_strlit(" ");
        assert(text@.len() <= 100);
    }
    item_state(frame, WidgetId::Row(ROW_MEMBER), Kind::Choice, (1, 1), text.as_str(), ROW_CELLS, ItemState::Normal);
    proof {
        let rect = spec_row_rect(1, 1, 158);
        let w = spec_item_widget(WidgetId::Row(3), Kind::Choice, rect, text@, ItemState::Normal);
        lemma_frame_then(
            f0,
            f2,
            *frame,
            head + spec_tabs(*menu, 3) + seq![spec_label(spec_right_column(count@.len() as int), 0, count@, DIM)],
            spec_tab_widgets(*menu, 3),
            spec_item_inks(rect, text@, ItemState::Normal),
            seq![w],
        );
        assert(head + spec_tabs(*menu, 3) + seq![spec_label(spec_right_column(count@.len() as int), 0, count@, DIM)]
            + spec_item_inks(rect, text@, ItemState::Normal) =~= spec_header_inks(*menu, *view, members as int));
    }
}

// ---------------------------------------------------------------- stats

/// The stats page's first line: points, armour, proficiency, experience.
pub open spec fn spec_stats_line(view: SheetView) -> Seq<char> {
    "HP "@ + spec_decimal(spec_clamp(view.hp.0 as int, -99, 999)) + "/"@ + spec_decimal(
        spec_clamp(view.hp.1 as int, 0, 999),
    ) + "   SP "@ + spec_decimal(spec_min(view.sp.0 as int, 99)) + "/"@ + spec_decimal(
        spec_min(view.sp.1 as int, 99),
    ) + "   AC "@ + spec_decimal(spec_clamp(view.ac as int, 0, 99)) + "   Proficiency "@
        + spec_signed(view.proficiency as int) + "   XP "@ + spec_decimal(
        spec_min(view.xp as int, 999_999),
    ) + " / "@ + match view.next_xp {
        Some(n) => spec_decimal(spec_min(n as int, 999_999)),
        None => "max"@,
    }
}

/// A score's entry: the short name, the score in two cells, the modifier with its sign.
pub open spec fn spec_score(s: (&str, u8, i64)) -> Seq<char> {
    s.0@ + " "@ + spec_pad_left(spec_decimal(s.1 as int), 2) + " "@ + spec_signed(s.2 as int)
}

/// A saving throw's entry.
pub open spec fn spec_save(s: (&str, i64)) -> Seq<char> {
    s.0@ + " "@ + spec_signed(s.1 as int)
}

/// A skill's entry: the name in seventeen cells and the bonus with its sign.
pub open spec fn spec_skill(s: (String, i64)) -> Seq<char> {
    spec_pad_right(spec_fit(s.0@, 17), 17) + " "@ + spec_signed(s.1 as int)
}

/// The conditions line, fitted to a row.
pub open spec fn spec_conditions(view: SheetView) -> Seq<char> {
    spec_fit(
        "Conditions  "@ + if view.conditions@.len() == 0 {
            "none"@
        } else {
            spec_join(views(view.conditions@), ", "@)
        },
        158,
    )
}

/// The background, alignment and age line, fitted to a row.
pub open spec fn spec_origin_line(view: SheetView) -> Seq<char> {
    spec_fit(
        view.background@ + "   "@ + view.alignment@ + "   "@ + spec_decimal(view.age_years as int)
            + " years"@,
        158,
    )
}

/// The stats page's paints.
pub open spec fn spec_stats_inks(view: SheetView) -> Seq<Ink> {
    seq![spec_label(1, 3, spec_stats_line(view), TEXT)] + spec_columns(
        5,
        6,
        13,
        1,
        Seq::new(6, |i: int| spec_score(view.scores[i])),
        Seq::empty(),
    ) + seq![
        spec_label(1, 6, "Saves  "@ + spec_join(view.saves@.map_values(|s: (&str, i64)| spec_save(s)), "   "@), TEXT),
        spec_label(1, 8, "SKILLS"@, DIM),
    ] + spec_columns(9, 3, 26, 3, view.skills@.map_values(|s: (String, i64)| spec_skill(s)), "none"@) + seq![
        spec_label(1, 13, spec_conditions(view), TEXT),
        spec_label(1, 14, spec_origin_line(view), TEXT),
    ]
}

fn stats_line(view: &SheetView) -> (r: String)
    ensures
        r@ == spec_stats_line(*view),
{
    let mut s = String::new();
    push_str(&mut s, "HP ");
    let hp0: i64 = if view.hp.0 < -99 {
        -99
    } else if view.hp.0 > 999 {
        999
    } else {
        view.hp.0 as i64
    };
    push_decimal(&mut s, hp0);
    push_str(&mut s, "/");
    let hp1: i64 = if view.hp.1 < 0 {
        0
    } else if view.hp.1 > 999 {
        999
    } else {
        view.hp.1 as i64
    };
    push_decimal(&mut s, hp1);
    push_str(&mut s, "   SP ");
    push_decimal(&mut s, if view.sp.0 < 99 { view.sp.0 as i64 } else { 99 });
    push_str(&mut s, "/");
    push_decimal(&mut s, if view.sp.1 < 99 { view.sp.1 as i64 } else { 99 });
    push_str(&mut s, "   AC ");
    push_decimal(&mut s, if view.ac < 0 { 0 } else if view.ac > 99 { 99 } else { view.ac });
    push_str(&mut s, "   Proficiency ");
    let p = signed(view.proficiency);
    push_str(&mut s, p.as_str());
    push_str(&mut s, "   XP ");
    push_decimal(&mut s, if view.xp < 999_999 { view.xp as i64 } else { 999_999 });
    push_str(&mut s, " / ");
    match view.next_xp {
        Some(n) => push_decimal(&mut s, if n < 999_999 { n } else { 999_999 }),
        None => push_str(&mut s, "max"),
    }
    proof {
        assert(s@ =~= spec_stats_line(*view));
    }
    s
}

fn score_entry(s: (&str, u8, i64)) -> (r: String)
    ensures
        r@ == spec_score(s),
{
    let mut out = String::new();
    push_str(&mut out, s.0);
    push_str(&mut out, " ");
    let mut d = String::new();
    push_decimal(&mut d, s.1 as i64);
    push_padded_left(&mut out, d.as_str(), 2);
    push_str(&mut out, " ");
    let b = signed(s.2);
    push_str(&mut out, b.as_str());
    proof {
        assert(out@ =~= spec_score(s));
    }
    out
}

fn save_entry(s: (&str, i64)) -> (r: String)
    ensures
        r@ == spec_save(s),
{
    let mut out = String::new();
    push_str(&mut out, s.0);
    push_str(&mut out, " ");
    let b = signed(s.1);
    push_str(&mut out, b.as_str());
    proof {
        assert(out@ =~= spec_save(s));
    }
    out
}

fn skill_entry(s: &(String, i64)) -> (r: String)
    ensures
        r@ == spec_skill(*s),
{
    let mut out = String::new();
    let name = fit(s.0.as_str(), 17);
    push_padded_right(&mut out, name.as_str(), 17);
    push_str(&mut out, " ");
    let b = signed(s.1);
    push_str(&mut out, b.as_str());
    proof {
        assert(out@ =~= spec_skill(*s));
    }
    out
}

/// Paint one label and account for it after a painted run.
fn label_after(
    frame: &mut Frame,
    column: i32,
    row: i32,
    text: &str,
    color: Rgb,
    Ghost(f0): Ghost<Frame>,
    Ghost(ops): Ghost<Seq<Ink>>,
)
    requires
        Frame::painted(f0, *old(frame), ops, Seq::empty()),
        -0x100_0000 <= column <= 0x100_0000,
        -0x100_0000 <= row <= 0x100_0000,
    ensures
        Frame::painted(f0, *final(frame), ops.push(spec_label(column as int, row as int, text@, color)), Seq::empty()),
        final(frame).raster.origin == old(frame).raster.origin,
{
    let ghost before = *frame;
    label(frame, column, row, text, color);
    proof {
        let op = spec_label(column as int, row as int, text@, color);
        lemma_frame_then(f0, before, *frame, ops, Seq::empty(), seq![op], Seq::empty());
        assert(ops + seq![op] =~= ops.push(op));
        assert(Seq::<Widget>::empty() + Seq::<Widget>::empty() =~= Seq::<Widget>::empty());
    }
}

/// Lay out a list in columns and account for it after a painted run.
fn columns_after(
    frame: &mut Frame,
    first_row: i32,
    per_row: usize,
    pitch: i32,
    rows: usize,
    entries: &[String],
    empty: &str,
    Ghost(f0): Ghost<Frame>,
    Ghost(ops): Ghost<Seq<Ink>>,
)
    requires
        Frame::painted(f0, *old(frame), ops, Seq::empty()),
        0 <= first_row <= 1000,
        1 <= per_row <= 1000,
        -1000 <= pitch <= 1000,
        rows <= 1000,
    ensures
        Frame::painted(
            f0,
            *final(frame),
            ops + spec_columns(first_row as int, per_row as int, pitch as int, rows as int, views(entries@), empty@),
            Seq::empty(),
        ),
{
    let ghost before = *frame;
    columns(frame, first_row, per_row, pitch, rows, entries, empty);
    proof {
        lemma_frame_then(
            f0,
            before,
            *frame,
            ops,
            Seq::empty(),
            spec_columns(first_row as int, per_row as int, pitch as int, rows as int, views(entries@), empty@),
            Seq::empty(),
        );
        assert(Seq::<Widget>::empty() + Seq::<Widget>::empty() =~= Seq::<Widget>::empty());
    }
}

/// The stats page: points and bonuses, the six scores, saves, skills, conditions, origin.
pub fn stats(frame: &mut Frame, view: &SheetView)
    requires
        old(frame).wf(),
    ensures
        Frame::painted(*old(frame), *final(frame), spec_stats_inks(*view), Seq::empty()),
{
    let ghost f0 = *frame;
    proof {
        lemma_frame_nothing(f0);
    }
    let line = stats_line(view);
    label_after(frame, 1, 3, line.as_str(), TEXT, Ghost(f0), Ghost(Seq::empty()));
    let ghost ops1 = Seq::<Ink>::empty().push(spec_label(1, 3, spec_stats_line(*view), TEXT));
    let mut scores: Vec<String> = Vec::new();
    let mut i: usize = 0;
    while i < 6
        invariant
            i <= 6,
            scores@.len() == i,
            forall|k: int| 0 <= k < i ==> #[trigger] scores@[k]@ == spec_score(view.scores[k]),
        decreases 6 - i,
    {
        scores.push(score_entry(view.scores[i]));
        i = i + 1;
    }
    proof {
        assert(views(scores@) =~= Seq::new(6, |i: int| spec_score(view.scores[i])));
    }
    columns_after(frame, 5, 6, 13, 1, scores.as_slice(), "", Ghost(f0), Ghost(ops1));
    let ghost ops2 = ops1 + spec_columns(5, 6, 13, 1, views(scores@), ""@);
    let mut saves: Vec<String> = Vec::new();
    let mut j: usize = 0;
    while j < view.saves.len()
        invariant
            j <= view.saves@.len(),
            saves@.len() == j,
            forall|k: int| 0 <= k < j ==> #[trigger] saves@[k]@ == spec_save(view.saves@[k]),
        decreases view.saves@.len() - j,
    {
        saves.push(save_entry(view.saves[j]));
        j = j + 1;
    }
    let mut saves_line = String::new();
    push_str(&mut saves_line, "Saves  ");
    push_join(&mut saves_line, saves.as_slice(), "   ");
    proof {
        reveal_strlit("");
        assert(views(saves@) =~= view.saves@.map_values(|s: (&str, i64)| spec_save(s)));
    }
    label_after(frame, 1, 6, saves_line.as_str(), TEXT, Ghost(f0), Ghost(ops2));
    label_after(frame, 1, 8, "SKILLS", DIM, Ghost(f0), Ghost(ops2.push(spec_label(1, 6, saves_line@, TEXT))));
    let ghost ops3 = ops2.push(spec_label(1, 6, saves_line@, TEXT)).push(spec_label(1, 8, "SKILLS"@, DIM));
    let mut skills: Vec<String> = Vec::new();
    let mut k: usize = 0;
    while k < view.skills.len()
        invariant
            k <= view.skills@.len(),
            skills@.len() == k,
            forall|m: int| 0 <= m < k ==> #[trigger] skills@[m]@ == spec_skill(view.skills@[m]),
        decreases view.skills@.len() - k,
    {
        skills.push(skill_entry(&view.skills[k]));
        k = k + 1;
    }
    proof {
        assert(views(skills@) =~= view.skills@.map_values(|s: (String, i64)| spec_skill(s)));
    }
    columns_after(frame, 9, 3, 26, 3, skills.as_slice(), "none", Ghost(f0), Ghost(ops3));
    let ghost ops4 = ops3 + spec_columns(9, 3, 26, 3, views(skills@), "none"@);
    let mut cond = String::new();
    push_str(&mut cond, "Conditions  ");
    if view.conditions.len() == 0 {
        push_str(&mut cond, "none");
    } else {
        push_join(&mut cond, view.conditions.as_slice(), ", ");
    }
    let cond = fit(cond.as_str(), ROW_CELLS);
    proof {
        assert(cond@ =~= spec_conditions(*view));
    }
    label_after(frame, 1, 13, cond.as_str(), TEXT, Ghost(f0), Ghost(ops4));
    let mut origin = String::new();
    push_str(&mut origin, view.background.as_str());
    push_str(&mut origin, "   ");
    push_str(&mut origin, view.alignment.as_str());
    push_str(&mut origin, "   ");
    push_decimal(&mut origin, view.age_years);
    push_str(&mut origin, " years");
    let origin = fit(origin.as_str(), ROW_CELLS);
    proof {
        assert(origin@ =~= spec_origin_line(*view));
    }
    label_after(frame, 1, 14, origin.as_str(), TEXT, Ghost(f0), Ghost(ops4.push(spec_label(1, 13, cond@, TEXT))));
    proof {
        assert(ops4.push(spec_label(1, 13, cond@, TEXT)).push(spec_label(1, 14, origin@, TEXT)) =~= spec_stats_inks(*view));
    }
}

// ---------------------------------------------------------------- magic

/// The magic page's first line: the casting ability and the points, or none.
pub open spec fn spec_casting_line(view: SheetView) -> Seq<char> {
    match view.magic.casting {
        Some(a) => "Casting "@ + a@ + "   Points "@ + spec_decimal(spec_min(view.magic.points.0 as int, 99))
            + "/"@ + spec_decimal(spec_min(view.magic.points.1 as int, 99)),
        None => "No spellcasting"@,
    }
}

/// A spell's entry: the name in sixteen cells and the cost.
pub open spec fn spec_spell(s: (String, String)) -> Seq<char> {
    spec_pad_right(spec_fit(s.0@, 16), 16) + " "@ + s.1@
}

/// An effect's entry: the spell in twenty cells and the time left.
pub open spec fn spec_effect(s: (String, String)) -> Seq<char> {
    spec_pad_right(spec_fit(s.0@, 20), 20) + " "@ + s.1@
}

/// The magic page's paints.
pub open spec fn spec_magic_inks(view: SheetView) -> Seq<Ink> {
    seq![spec_label(1, 3, spec_casting_line(view), TEXT), spec_label(1, 5, "SPELLS"@, DIM)]
        + spec_columns(6, 3, 26, 4, view.magic.spells@.map_values(|s: (String, String)| spec_spell(s)), "none"@)
        + seq![spec_label(1, 11, "EFFECTS"@, DIM)] + spec_columns(
        12,
        2,
        39,
        3,
        view.magic.effects@.map_values(|s: (String, String)| spec_effect(s)),
        "none"@,
    )
}

/// A name in `cells` cells, a space, and a second run.
fn name_and(name: &str, cells: usize, rest: &str) -> (r: String)
    ensures
        r@ == spec_pad_right(spec_fit(name@, cells as int), cells as int) + " "@ + rest@,
{
    let mut out = String::new();
    let n = fit(name, cells);
    push_padded_right(&mut out, n.as_str(), cells);
    push_str(&mut out, " ");
    push_str(&mut out, rest);
    proof {
        reveal_strlit(" ");
        assert(out@ =~= spec_pad_right(spec_fit(name@, cells as int), cells as int) + " "@ + rest@);
    }
    out
}

/// The magic page: the casting ability, the spells known, the effects in force.
pub fn magic(frame: &mut Frame, view: &SheetView)
    requires
        old(frame).wf(),
    ensures
        Frame::painted(*old(frame), *final(frame), spec_magic_inks(*view), Seq::empty()),
{
    let ghost f0 = *frame;
    proof {
        lemma_frame_nothing(f0);
    }
    let magic = &view.magic;
    let line = match &magic.casting {
        Some(ability) => {
            let mut s = String::new();
            push_str(&mut s, "Casting ");
            push_str(&mut s, ability.as_str());
            push_str(&mut s, "   Points ");
            push_decimal(&mut s, if magic.points.0 < 99 { magic.points.0 as i64 } else { 99 });
            push_str(&mut s, "/");
            push_decimal(&mut s, if magic.points.1 < 99 { magic.points.1 as i64 } else { 99 });
            s
        },
        None => "No spellcasting".to_owned(),
    };
    proof {
        assert(line@ =~= spec_casting_line(*view));
    }
    label_after(frame, 1, 3, line.as_str(), TEXT, Ghost(f0), Ghost(Seq::empty()));
    label_after(frame, 1, 5, "SPELLS", DIM, Ghost(f0), Ghost(Seq::empty().push(spec_label(1, 3, line@, TEXT))));
    let ghost ops1 = Seq::empty().push(spec_label(1, 3, line@, TEXT)).push(spec_label(1, 5, "SPELLS"@, DIM));
    let mut spells: Vec<String> = Vec::new();
    let mut i: usize = 0;
    while i < magic.spells.len()
        invariant
            i <= magic.spells@.len(),
            spells@.len() == i,
            forall|k: int| 0 <= k < i ==> #[trigger] spells@[k]@ == spec_spell(magic.spells@[k]),
        decreases magic.spells@.len() - i,
    {
        spells.push(name_and(magic.spells[i].0.as_str(), 16, magic.spells[i].1.as_str()));
        i = i + 1;
    }
    proof {
        assert(views(spells@) =~= magic.spells@.map_values(|s: (String, String)| spec_spell(s)));
    }
    columns_after(frame, 6, 3, 26, 4, spells.as_slice(), "none", Ghost(f0), Ghost(ops1));
    let ghost ops2 = ops1 + spec_columns(6, 3, 26, 4, views(spells@), "none"@);
    label_after(frame, 1, 11, "EFFECTS", DIM, Ghost(f0), Ghost(ops2));
    let mut effects: Vec<String> = Vec::new();
    let mut j: usize = 0;
    while j < magic.effects.len()
        invariant
            j <= magic.effects@.len(),
            effects@.len() == j,
            forall|k: int| 0 <= k < j ==> #[trigger] effects@[k]@ == spec_effect(magic.effects@[k]),
        decreases magic.effects@.len() - j,
    {
        effects.push(name_and(magic.effects[j].0.as_str(), 20, magic.effects[j].1.as_str()));
        j = j + 1;
    }
    proof {
        assert(views(effects@) =~= magic.effects@.map_values(|s: (String, String)| spec_effect(s)));
    }
    columns_after(frame, 12, 2, 39, 3, effects.as_slice(), "none", Ghost(f0), Ghost(ops2.push(spec_label(1, 11, "EFFECTS"@, DIM))));
    proof {
        assert(ops2.push(spec_label(1, 11, "EFFECTS"@, DIM)) + spec_columns(12, 2, 39, 3, views(effects@), "none"@)
            =~= spec_magic_inks(*view));
    }
}

// ---------------------------------------------------------------- gear

/// A worn slot's line: the slot in ten cells and the item fitted to forty.
pub open spec fn spec_slot_line(s: (String, String)) -> Seq<char> {
    spec_pad_right(spec_fit(s.0@, 10), 10) + " "@ + spec_fit(s.1@, 40)
}

/// A carried item's entry: the name in twenty-eight cells and the count.
pub open spec fn spec_carried(s: (String, u16)) -> Seq<char> {
    spec_pad_right(spec_fit(s.0@, 28), 28) + " x"@ + spec_decimal(s.1 as int)
}

/// The first `n` worn slots' lines.
pub open spec fn spec_slot_lines(slots: Seq<(String, String)>, n: int) -> Seq<Ink> {
    Seq::new(n as nat, |i: int| spec_label(1, 4 + i, spec_slot_line(slots[i]), TEXT))
}

/// The gear page's paints.
pub open spec fn spec_gear_inks(view: SheetView) -> Seq<Ink> {
    let slots = view.gear.slots@;
    seq![spec_label(1, 3, "WORN AND WIELDED"@, DIM)] + spec_slot_lines(slots, spec_min(slots.len() as int, 4))
        + seq![spec_label(1, 9, "CARRIED"@, DIM)] + spec_columns(
        10,
        2,
        39,
        6,
        view.gear.carried@.map_values(|s: (String, u16)| spec_carried(s)),
        "none"@,
    )
}

/// The gear page: the four slots, then what is carried.
pub fn gear(frame: &mut Frame, view: &SheetView)
    requires
        old(frame).wf(),
    ensures
        Frame::painted(*old(frame), *final(frame), spec_gear_inks(*view), Seq::empty()),
{
    let ghost f0 = *frame;
    proof {
        lemma_frame_nothing(f0);
    }
    label_after(frame, 1, 3, "WORN AND WIELDED", DIM, Ghost(f0), Ghost(Seq::empty()));
    let ghost head = Seq::empty().push(spec_label(1, 3, "WORN AND WIELDED"@, DIM));
    let slots = &view.gear.slots;
    let n = if slots.len() < 4 {
        slots.len()
    } else {
        4
    };
    let mut i: usize = 0;
    proof {
        assert(head + spec_slot_lines(slots@, 0) =~= head);
    }
    while i < n
        invariant
            i <= n,
            n <= 4,
            n == spec_min(slots@.len() as int, 4),
            Frame::painted(f0, *frame, head + spec_slot_lines(slots@, i as int), Seq::empty()),
        decreases n - i,
    {
        let mut line = String::new();
        let slot = fit(slots[i].0.as_str(), 10);
        push_padded_right(&mut line, slot.as_str(), 10);
        push_str(&mut line, " ");
        let item = fit(slots[i].1.as_str(), 40);
        push_str(&mut line, item.as_str());
        proof {
            assert(line@ =~= spec_slot_line(slots@[i as int]));
        }
        label_after(frame, 1, 4 + i as i32, line.as_str(), TEXT, Ghost(f0), Ghost(head + spec_slot_lines(slots@, i as int)));
        proof {
            assert((head + spec_slot_lines(slots@, i as int)).push(spec_label(1, 4 + i, line@, TEXT))
                =~= head + spec_slot_lines(slots@, i + 1));
        }
        i = i + 1;
    }
    let ghost ops1 = head + spec_slot_lines(slots@, n as int);
    label_after(frame, 1, 9, "CARRIED", DIM, Ghost(f0), Ghost(ops1));
    let mut carried: Vec<String> = Vec::new();
    let mut j: usize = 0;
    while j < view.gear.carried.len()
        invariant
            j <= view.gear.carried@.len(),
            carried@.len() == j,
            forall|k: int| 0 <= k < j ==> #[trigger] carried@[k]@ == spec_carried(view.gear.carried@[k]),
        decreases view.gear.carried@.len() - j,
    {
        let mut e = String::new();
        let name = fit(view.gear.carried[j].0.as_str(), 28);
        push_padded_right(&mut e, name.as_str(), 28);
        push_str(&mut e, " x");
        push_decimal(&mut e, view.gear.carried[j].1 as i64);
        proof {
            assert(e@ =~= spec_carried(view.gear.carried@[j as int]));
        }
        carried.push(e);
        j = j + 1;
    }
    proof {
        assert(views(carried@) =~= view.gear.carried@.map_values(|s: (String, u16)| spec_carried(s)));
    }
    columns_after(frame, 10, 2, 39, 6, carried.as_slice(), "none", Ghost(f0), Ghost(ops1.push(spec_label(1, 9, "CARRIED"@, DIM))));
    proof {
        assert(ops1.push(spec_label(1, 9, "CARRIED"@, DIM)) + spec_columns(10, 2, 39, 6, views(carried@), "none"@)
            =~= spec_gear_inks(*view));
    }
}

/// The page's paints.
pub open spec fn spec_page_inks(page: SheetPage, view: SheetView) -> Seq<Ink> {
    match page {
        SheetPage::Stats => spec_stats_inks(view),
        SheetPage::Magic => spec_magic_inks(view),
        SheetPage::Gear => spec_gear_inks(view),
    }
}

/// The sheet: the header and the page under the cursor.
pub fn sheet(frame: &mut Frame, menu: &SheetMenu, view: &SheetView, members: usize)
    requires
        old(frame).wf(),
        origin_near(*old(frame)),
        menu.member < usize::MAX,
    ensures
        Frame::painted(
            *old(frame),
            *final(frame),
            spec_header_inks(*menu, *view, members as int) + spec_page_inks(menu.page, *view),
            spec_header_widgets(*menu, *view),
        ),
{
    let ghost f0 = *frame;
    header(frame, menu, view, members);
    let ghost f1 = *frame;
    match menu.page {
        SheetPage::Stats => stats(frame, view),
        SheetPage::Magic => magic(frame, view),
        SheetPage::Gear => gear(frame, view),
    }
    proof {
        lemma_frame_then(
            f0,
            f1,
            *frame,
            spec_header_inks(*menu, *view, members as int),
            spec_header_widgets(*menu, *view),
            spec_page_inks(menu.page, *view),
            Seq::empty(),
        );
        assert(spec_header_widgets(*menu, *view) + Seq::<Widget>::empty() =~= spec_header_widgets(*menu, *view));
    }
}

} // verus!
