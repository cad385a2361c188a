//! The parts of the frame that live outside the menus: the location lines and the movement
//! pad in the right column, and the backdrop under everything (`band.rs` paints the band
//! itself). Text models are fitted to their cells here so the widths are testable.

use vstd::prelude::*;
use crate::canvas::Layout;
use crate::font::{fit, spec_fit};
use crate::layout::{HUD_COLUMNS, HUD_LINES, Rect};
use crate::raster::{Ink, Rgb};
use crate::text::{digit_char, push_char, push_decimal, push_str, spec_decimal};
use crate::widget::{
    DIM, FRAME, Frame, HI, Kind, PANEL, PAD_BUTTON_ORDER, PadState, TEXT,
    TOOL_BUTTON_ORDER, ToolStates, Widget, WidgetId, lemma_frame_nothing,
    lemma_frame_then, lemma_frame_then_ink, lemma_frame_then_push, spec_tool_rect,
};
use crate::layout::spec_pad_buttons;

verus! {

/// Minutes in a day of the party's clock.
pub const MINUTES_PER_DAY: i64 = 1440;

/// The three location lines, each fitted to the column.
#[derive(Debug, Clone, Default, PartialEq, Eq)]
pub struct Hud {
    /// The map's display name.
    pub map: String,
    /// `x,y F` with the facing's initial.
    pub position: String,
    /// `Day d hh:mm`.
    pub clock: String,
}

/// A character in upper case when it is an ASCII letter, else itself.
pub open spec fn spec_upper(c: char) -> char {
    if 'a' <= c && c <= 'z' {
        ((c as u32) - 32) as char
    } else {
        c
    }
}

/// The facing's initial in upper case, `?` for an empty facing.
pub open spec fn spec_initial(facing: Seq<char>) -> char {
    if facing.len() == 0 {
        '?'
    } else {
        spec_upper(facing[0])
    }
}

/// The position line before fitting: `x,y F`.
pub open spec fn spec_position(x: int, y: int, facing: Seq<char>) -> Seq<char> {
    spec_decimal(x) + seq![','] + spec_decimal(y) + seq![' ', spec_initial(facing)]
}

/// A number below a hundred in two digits, with a leading zero.
pub open spec fn spec_two_digits(n: int) -> Seq<char> {
    seq![digit_char(n / 10), digit_char(n % 10)]
}

/// The clock's day number, from one: whole days elapsed plus one (floor division).
pub open spec fn spec_day(elapsed: int) -> int {
    elapsed / 1440 + 1
}

/// The time of day after `hh:mm`.
pub open spec fn spec_time(elapsed: int) -> Seq<char> {
    let minute = elapsed % 1440;
    spec_two_digits(minute / 60) + seq![':'] + spec_two_digits(minute % 60)
}

/// The clock in full: `Day d hh:mm`.
pub open spec fn spec_clock_long(elapsed: int) -> Seq<char> {
    seq!['D', 'a', 'y', ' '] + spec_decimal(spec_day(elapsed)) + seq![' '] + spec_time(elapsed)
}

/// The clock short: `Dd hh:mm`.
pub open spec fn spec_clock_short(elapsed: int) -> Seq<char> {
    seq!['D'] + spec_decimal(spec_day(elapsed)) + seq![' '] + spec_time(elapsed)
}

/// The clock fitted to `columns` cells: in full when it fits, else short and cut to fit.
pub open spec fn spec_clock_text(elapsed: int, columns: int) -> Seq<char> {
    if spec_clock_long(elapsed).len() <= columns {
        spec_clock_long(elapsed)
    } else {
        spec_fit(spec_clock_short(elapsed), columns)
    }
}

/// An ASCII letter in upper case; anything else unchanged.
fn upper(c: char) -> (r: char)
    ensures
        r == spec_upper(c),
{
    if 'a' <= c && c <= 'z' {
        let code: u32 = (c as u32) - 32;
        let u: u8 = code as u8;
        u as char
    } else {
        c
    }
}

/// Append a number below a hundred in two digits.
fn push_two_digits(out: &mut String, n: i64)
    requires
        0 <= n < 100,
    ensures
        final(out)@ == old(out)@ + spec_two_digits(n as int),
{
    let tens = n / 10;
    let ones = n % 10;
    let mut digits = String::new();
    push_decimal(&mut digits, tens);
    push_decimal(&mut digits, ones);
    proof {
        assert(spec_decimal(tens as int) =~= seq![digit_char(tens as int)]);
        assert(spec_decimal(ones as int) =~= seq![digit_char(ones as int)]);
        assert(digits@ =~= spec_two_digits(n as int));
    }
    push_str(out, digits.as_str());
}

/// Append the time of day, `hh:mm`.
pub(crate) fn push_time(out: &mut String, minute: i64)
    requires
        0 <= minute < 1440,
    ensures
        final(out)@ == old(out)@ + spec_two_digits((minute / 60) as int) + seq![':'] + spec_two_digits(
            (minute % 60) as int,
        ),
{
    push_two_digits(out, minute / 60);
    push_char(out, ':');
    push_two_digits(out, minute % 60);
}

/// The clock fitted to `columns` cells: `Day d hh:mm`, or `Dd hh:mm` cut to fit once the day
/// number no longer leaves room.
pub fn clock_text_in(elapsed: i64, columns: usize) -> (r: String)
    ensures
        r@ == spec_clock_text(elapsed as int, columns as int),
{
    let day = match elapsed.checked_div_euclid(MINUTES_PER_DAY) {
        Some(q) => q + 1,
        None => 1,
    };
    let minute = match elapsed.checked_rem_euclid(MINUTES_PER_DAY) {
        Some(m) => m,
        None => 0,
    };
    assert(day == spec_day(elapsed as int));
    assert(minute == elapsed % 1440);
    let mut time = String::new();
    push_time(&mut time, minute);
    let mut long = String::new();
    push_str(&mut long, "Day ");
    push_decimal(&mut long, day);
    push_char(&mut long, ' ');
    push_str(&mut long, time.as_str());
    proof {
        reveal_strlit("Day ");
        assert(time@ =~= spec_time(elapsed as int));
        assert(long@ =~= spec_clock_long(elapsed as int));
    }
    if long.unicode_len() <= columns {
        long
    } else {
        let mut short = String::new();
        push_char(&mut short, 'D');
        push_decimal(&mut short, day);
        push_char(&mut short, ' ');
        push_str(&mut short, time.as_str());
        proof {
            assert(short@ =~= spec_clock_short(elapsed as int));
        }
        fit(short.as_str(), columns)
    }
}

/// The clock as `Day d hh:mm`, or `Dd hh:mm` once the day number no longer fits the HUD.
pub fn clock_text(elapsed: i64) -> (r: String)
    ensures
        r@ == spec_clock_text(elapsed as int, 53),
{
    clock_text_in(elapsed, HUD_COLUMNS)
}

impl Hud {
    /// From the map name, the position, the facing as displayed, and the party clock: each
    /// line fitted to the HUD's cells.
    pub fn new(map: &str, x: i32, y: i32, facing: &str, elapsed: i64) -> (r: Hud)
        ensures
            r.map@ == spec_fit(map@, 53),
            r.position@ == spec_fit(spec_position(x as int, y as int, facing@), 53),
            r.clock@ == spec_clock_text(elapsed as int, 53),
    {
        let initial = if facing.unicode_len() == 0 {
            '?'
        } else {
            upper(facing.get_char(0))
        };
        let mut position = String::new();
        push_decimal(&mut position, x as i64);
        push_char(&mut position, ',');
        push_decimal(&mut position, y as i64);
        push_char(&mut position, ' ');
        push_char(&mut position, initial);
        proof {
            assert(position@ =~= spec_position(x as int, y as int, facing@));
        }
        Hud {
            map: fit(map, HUD_COLUMNS),
            position: fit(position.as_str(), HUD_COLUMNS),
            clock: clock_text(elapsed),
        }
    }
}

/// The message line: the last event, notice, or rejection.
#[derive(Debug, Clone, Default, PartialEq, Eq)]
pub struct Message {
    /// The text.
    pub text: String,
    /// Whether it is a rejection or a failure.
    pub alert: bool,
}

/// The backdrop's paints: opaque panel over the canvas, then the viewport and the minimap
/// made transparent again.
pub open spec fn spec_backdrop_inks(layout: Layout) -> Seq<Ink> {
    seq![
        Ink::Fill { rect: layout.spec_canvas(), color: PANEL },
        Ink::Erase { rect: layout.spec_viewport() },
        Ink::Erase {
            rect: Rect {
                x: (992 + layout.core.0) as i32,
                y: (8 + layout.core.1) as i32,
                w: 256,
                h: 256,
            },
        },
    ]
}

/// Paint the backdrop: opaque panel everywhere but the viewport and the minimap, so viewport
/// sprites that overhang the viewport's edges never show outside it.
pub fn backdrop(frame: &mut Frame, layout: &Layout)
    requires
        old(frame).wf(),
        layout.wf(),
    ensures
        Frame::painted(*old(frame), *final(frame), spec_backdrop_inks(*layout), Seq::empty()),
{
    let ghost f0 = *frame;
    proof {
        lemma_frame_nothing(f0);
    }
    let canvas = layout.canvas();
    frame.raster.fill(canvas, PANEL);
    let ghost f1 = *frame;
    let ghost op1 = Ink::Fill { rect: canvas, color: PANEL };
    proof {
        lemma_frame_then_ink(f0, f0, f1, Seq::empty(), Seq::empty(), op1);
    }
    let viewport = layout.viewport();
    frame.raster.erase(viewport);
    let ghost f2 = *frame;
    let ghost op2 = Ink::Erase { rect: viewport };
    proof {
        lemma_frame_then_ink(f0, f1, f2, Seq::empty().push(op1), Seq::empty(), op2);
    }
    let (x, y, w, h) = layout.minimap();
    let map = Rect::new(x, y, w, h);
    frame.raster.erase(map);
    proof {
        let op3 = Ink::Erase { rect: map };
        lemma_frame_then_ink(f0, f2, *frame, Seq::empty().push(op1).push(op2), Seq::empty(), op3);
        assert(Seq::empty().push(op1).push(op2).push(op3) =~= spec_backdrop_inks(*layout));
    }
}

/// The location lines' paints: map, position, clock, one under the other.
pub open spec fn spec_hud_inks(hud: Hud) -> Seq<Ink> {
    seq![
        Ink::Text { x: 961, y: 266, text: hud.map@, color: TEXT },
        Ink::Text { x: 961, y: 274, text: hud.position@, color: TEXT },
        Ink::Text { x: 961, y: 282, text: hud.clock@, color: TEXT },
    ]
}

/// Paint the location lines.
pub fn hud(frame: &mut Frame, hud: &Hud)
    requires
        old(frame).wf(),
    ensures
        Frame::painted(*old(frame), *final(frame), spec_hud_inks(*hud), Seq::empty()),
{
    let ghost f0 = *frame;
    proof {
        lemma_frame_nothing(f0);
    }
    frame.raster.text(HUD_LINES[0].0, HUD_LINES[0].1, hud.map.as_str(), TEXT);
    let ghost f1 = *frame;
    let ghost op1 = Ink::Text { x: 961, y: 266, text: hud.map@, color: TEXT };
    proof {
        lemma_frame_then_ink(f0, f0, f1, Seq::empty(), Seq::empty(), op1);
    }
    frame.raster.text(HUD_LINES[1].0, HUD_LINES[1].1, hud.position.as_str(), TEXT);
    let ghost f2 = *frame;
    let ghost op2 = Ink::Text { x: 961, y: 274, text: hud.position@, color: TEXT };
    proof {
        lemma_frame_then_ink(f0, f1, f2, Seq::empty().push(op1), Seq::empty(), op2);
    }
    frame.raster.text(HUD_LINES[2].0, HUD_LINES[2].1, hud.clock.as_str(), TEXT);
    proof {
        let op3 = Ink::Text { x: 961, y: 282, text: hud.clock@, color: TEXT };
        lemma_frame_then_ink(f0, f2, *frame, Seq::empty().push(op1).push(op2), Seq::empty(), op3);
        assert(Seq::empty().push(op1).push(op2).push(op3) =~= spec_hud_inks(*hud));
    }
}

/// Whether a framed button in this state is held down.
pub open spec fn spec_held(id: WidgetId, state: PadState, pressed: Option<WidgetId>) -> bool {
    pressed == Some(id) && state == PadState::Enabled
}

/// A framed button's frame colour and label colour.
pub open spec fn spec_button_colors(state: PadState, held: bool) -> (Rgb, Rgb) {
    match state {
        PadState::Enabled => if held {
            (HI, PANEL)
        } else {
            (FRAME, TEXT)
        },
        _ => (DIM, DIM),
    }
}

/// A framed button's paints: the fill when held, the frame, the label centred.
pub open spec fn spec_button_inks(
    id: WidgetId,
    rect: Rect,
    label: Seq<char>,
    state: PadState,
    pressed: Option<WidgetId>,
) -> Seq<Ink> {
    let held = spec_held(id, state, pressed);
    let colors = spec_button_colors(state, held);
    let width = label.len() * 6 - 1;
    let fill = if held {
        seq![Ink::Fill { rect, color: HI }]
    } else {
        Seq::empty()
    };
    if state == PadState::Hidden {
        Seq::empty()
    } else {
        fill + seq![
            Ink::Stroke { rect, color: colors.0 },
            Ink::Text {
                x: rect.x + (rect.w - width) / 2,
                y: rect.y + (rect.h - 7) / 2,
                text: label,
                color: colors.1,
            },
        ]
    }
}

/// A framed button's widget: framed, live only when enabled; none when hidden.
pub open spec fn spec_button_widgets(id: WidgetId, rect: Rect, state: PadState) -> Seq<Widget> {
    if state == PadState::Hidden {
        Seq::empty()
    } else {
        seq![
            Widget {
                framed: true,
                enabled: state == PadState::Enabled,
                ..Widget::spec_new(id, rect, Kind::Button)
            },
        ]
    }
}

/// One framed button with a centred label: bright when held, dim when disabled, nothing
/// when hidden; registered as a framed widget, enabled only when its state is.
fn framed_button(
    frame: &mut Frame,
    id: WidgetId,
    rect: Rect,
    label: &str,
    state: PadState,
    pressed: Option<WidgetId>,
)
    requires
        old(frame).wf(),
        old(frame).raster.origin == (0i32, 0i32),
        0 <= rect.x <= 0x1000_0000,
        0 <= rect.y <= 0x1000_0000,
        8 <= rect.h <= 0x1000_0000,
        1 <= label@.len(),
        label@.len() * 6 <= rect.w + 1,
        rect.w <= 0x1000_0000,
    ensures
        Frame::painted(
            *old(frame),
            *final(frame),
            spec_button_inks(id, rect, label@, state, pressed),
            spec_button_widgets(id, rect, state),
        ),
        final(frame).raster.origin == old(frame).raster.origin,
{
    let ghost f0 = *frame;
    proof {
        lemma_frame_nothing(f0);
    }
    if state == PadState::Hidden {
        return;
    }
    let held = pressed == Some(id) && state == PadState::Enabled;
    let (frame_color, ink) = match state {
        PadState::Enabled => if held {
            (HI, PANEL)
        } else {
            (FRAME, TEXT)
        },
        _ => (DIM, DIM),
    };
    let ghost fill = if held {
        seq![Ink::Fill { rect, color: HI }]
    } else {
        Seq::<Ink>::empty()
    };
    if held {
        frame.raster.fill(rect, HI);
        proof {
            lemma_frame_then_ink(f0, f0, *frame, Seq::empty(), Seq::empty(), Ink::Fill { rect, color: HI });
            assert(Seq::<Ink>::empty().push(Ink::Fill { rect, color: HI }) =~= fill);
        }
    }
    let ghost f1 = *frame;
    frame.raster.stroke(rect, frame_color);
    let ghost f2 = *frame;
    let ghost stroke = Ink::Stroke { rect, color: frame_color };
    proof {
        lemma_frame_then_ink(f0, f1, f2, fill, Seq::empty(), stroke);
    }
    let width = label.unicode_len() as i32 * 6 - 1;
    let x = rect.x + (rect.w as i32 - width) / 2;
    let y = rect.y + (rect.h as i32 - 7) / 2;
    frame.raster.text(x, y, label, ink);
    let ghost f3 = *frame;
    let ghost text = Ink::Text { x: x as int, y: y as int, text: label@, color: ink };
    proof {
        lemma_frame_then_ink(f0, f2, f3, fill.push(stroke), Seq::empty(), text);
        assert(fill.push(stroke).push(text) =~= spec_button_inks(id, rect, label@, state, pressed));
    }
    let mut widget = Widget::new(id, rect, Kind::Button);
    widget.framed = true;
    widget.enabled = state == PadState::Enabled;
    frame.push(widget);
    proof {
        lemma_frame_then_push(f0, f3, *frame, fill.push(stroke).push(text), Seq::empty(), widget);
        assert(Seq::<Widget>::empty().push(widget) =~= spec_button_widgets(id, rect, state));
    }
}

/// The pad's paints, button by button in reading order, the first `n` of them.
pub open spec fn spec_pad_inks(n: int, state: PadState, pressed: Option<WidgetId>) -> Seq<Ink>
    decreases n,
{
    if n <= 0 {
        Seq::empty()
    } else {
        let b = PAD_BUTTON_ORDER[n - 1];
        spec_pad_inks(n - 1, state, pressed) + spec_button_inks(
            WidgetId::Pad(b),
            spec_pad_buttons(n - 1),
            b.spec_label(),
            state,
            pressed,
        )
    }
}

/// The pad's widgets, button by button in reading order, the first `n` of them.
pub open spec fn spec_pad_widgets(n: int, state: PadState) -> Seq<Widget>
    decreases n,
{
    if n <= 0 {
        Seq::empty()
    } else {
        spec_pad_widgets(n - 1, state) + spec_button_widgets(
            WidgetId::Pad(PAD_BUTTON_ORDER[n - 1]),
            spec_pad_buttons(n - 1),
            state,
        )
    }
}

/// Paint the pad and register its buttons.
pub fn pad(frame: &mut Frame, state: PadState, pressed: Option<WidgetId>)
    requires
        old(frame).wf(),
        old(frame).raster.origin == (0i32, 0i32),
    ensures
        Frame::painted(*old(frame), *final(frame), spec_pad_inks(7, state, pressed), spec_pad_widgets(7, state)),
{
    let ghost f0 = *frame;
    proof {
        lemma_frame_nothing(f0);
    }
    let mut i: usize = 0;
    while i < 7
        invariant
            i <= 7,
            frame.raster.origin == (0i32, 0i32),
            Frame::painted(f0, *frame, spec_pad_inks(i as int, state, pressed), spec_pad_widgets(i as int, state)),
        decreases 7 - i,
    {
        let button = PAD_BUTTON_ORDER[i];
        let ghost before = *frame;
        proof {
            assert(button.spec_index() == i);
        }
        framed_button(frame, WidgetId::Pad(button), button.rect(), button.label(), state, pressed);
        proof {
            lemma_frame_then(
                f0,
                before,
                *frame,
                spec_pad_inks(i as int, state, pressed),
                spec_pad_widgets(i as int, state),
                spec_button_inks(WidgetId::Pad(button), spec_pad_buttons(i as int), button.spec_label(), state, pressed),
                spec_button_widgets(WidgetId::Pad(button), spec_pad_buttons(i as int), state),
            );
        }
        i = i + 1;
    }
}

/// The tool pad's paints, button by button in reading order, the first `n` of them, each in
/// its own state.
pub open spec fn spec_tools_inks(n: int, states: ToolStates, pressed: Option<WidgetId>) -> Seq<Ink>
    decreases n,
{
    if n <= 0 {
        Seq::empty()
    } else {
        let b = TOOL_BUTTON_ORDER[n - 1];
        spec_tools_inks(n - 1, states, pressed) + spec_button_inks(
            WidgetId::Tool(b),
            spec_tool_rect(n - 1),
            b.spec_label(),
            states.states[n - 1],
            pressed,
        )
    }
}

/// The tool pad's widgets, the first `n` of them, each in its own state.
pub open spec fn spec_tools_widgets(n: int, states: ToolStates) -> Seq<Widget>
    decreases n,
{
    if n <= 0 {
        Seq::empty()
    } else {
        spec_tools_widgets(n - 1, states) + spec_button_widgets(
            WidgetId::Tool(TOOL_BUTTON_ORDER[n - 1]),
            spec_tool_rect(n - 1),
            states.states[n - 1],
        )
    }
}

/// Paint the tool pad and register its buttons, each in its own state.
pub fn tools(frame: &mut Frame, states: ToolStates, pressed: Option<WidgetId>)
    requires
        old(frame).wf(),
        old(frame).raster.origin == (0i32, 0i32),
    ensures
        Frame::painted(*old(frame), *final(frame), spec_tools_inks(6, states, pressed), spec_tools_widgets(6, states)),
{
    let ghost f0 = *frame;
    proof {
        lemma_frame_nothing(f0);
    }
    let mut i: usize = 0;
    while i < 6
        invariant
            i <= 6,
            frame.raster.origin == (0i32, 0i32),
            Frame::painted(f0, *frame, spec_tools_inks(i as int, states, pressed), spec_tools_widgets(i as int, states)),
        decreases 6 - i,
    {
        let button = TOOL_BUTTON_ORDER[i];
        let ghost before = *frame;
        proof {
            assert(button.spec_index() == i);
        }
        framed_button(frame, WidgetId::Tool(button), button.rect(), button.label(), states.get(button), pressed);
        proof {
            lemma_frame_then(
                f0,
                before,
                *frame,
                spec_tools_inks(i as int, states, pressed),
                spec_tools_widgets(i as int, states),
                spec_button_inks(WidgetId::Tool(button), spec_tool_rect(i as int), button.spec_label(), states.states[i as int], pressed),
                spec_button_widgets(WidgetId::Tool(button), spec_tool_rect(i as int), states.states[i as int]),
            );
        }
        i = i + 1;
    }
}

/// The clock always fits its cells: in full when the full form does, else cut.
pub proof fn lemma_clock_fits(elapsed: int, columns: int)
    requires
        columns >= 0,
    ensures
        spec_clock_text(elapsed, columns).len() <= columns,
{
    crate::font::lemma_fit_prefix(spec_clock_short(elapsed), columns);
}

/// The clock runs on: a whole day later the day number is one more and the time of day is
/// the same; the first day is day one; `h` hours and `m` minutes into a day read `hh:mm`.
pub proof fn lemma_clock_runs(elapsed: int, h: int, m: int)
    requires
        0 <= h < 24,
        0 <= m < 60,
    ensures
        spec_day(elapsed + 1440) == spec_day(elapsed) + 1,
        spec_time(elapsed + 1440) == spec_time(elapsed),
        0 <= elapsed < 1440 ==> spec_day(elapsed) == 1,
        spec_time(60 * h + m) == seq![digit_char(h / 10), digit_char(h % 10), ':', digit_char(m / 10), digit_char(m % 10)],
        spec_day(1440 * (elapsed + 1) + 60 * h + m) == elapsed + 2,
{
    vstd::arithmetic::div_mod::lemma_div_plus_one(elapsed, 1440);
    vstd::arithmetic::div_mod::lemma_mod_add_multiples_vanish(elapsed, 1440);
    let t = 60 * h + m;
    vstd::arithmetic::div_mod::lemma_small_mod(t as nat, 1440);
    vstd::arithmetic::div_mod::lemma_fundamental_div_mod_converse(t, 60, h, m);
    assert(spec_time(t) =~= seq![digit_char(h / 10), digit_char(h % 10), ':', digit_char(m / 10), digit_char(m % 10)]);
    vstd::arithmetic::div_mod::lemma_fundamental_div_mod_converse(1440 * (elapsed + 1) + t, 1440, elapsed + 1, t);
}

} // verus!
