use omnis_app::canvas::Layout;
use omnis_app::font::fit;
use omnis_app::layout::{band, canvas, right_column, viewport, CANVAS_WIDTH, HUD_COLUMNS, SIDEBAR_MAP};
use omnis_app::panels::{backdrop, clock_text, clock_text_in, hud, pad, tools, Hud};
use omnis_app::widget::{
    Frame, PadButton, PadState, ToolButton, ToolStates, WidgetId, DIM, FRAME, HI, PANEL,
    PAD_BUTTON_ORDER, TEXT, TOOL_BUTTON_ORDER,
};

#[test]
fn location_lines_fit_the_hud() {
    let hud = Hud::new("Test Dungeon", 3, 4, "south", 208);
    assert_eq!(hud.map, "Test Dungeon");
    assert_eq!(hud.position, "3,4 S");
    assert_eq!(hud.clock, "Day 1 03:28");
    let name = "The Sunken Cathedral of the Drowned Kings and Their Court";
    let wide = Hud::new(name, 65535, 65535, "north", 0);
    assert_eq!(wide.map, fit(name, HUD_COLUMNS));
    assert!(wide.map.len() <= HUD_COLUMNS && wide.position.len() <= HUD_COLUMNS);
    assert_eq!(wide.position, "65535,65535 N");
    assert_eq!(clock_text_in(1440 * 998 + 208, 13), "Day 999 03:28");
    assert_eq!(clock_text_in(1440 * 999 + 208, 13), "D1000 03:28");
    assert!(clock_text(i64::MAX).len() <= HUD_COLUMNS);
    assert_eq!(Hud::new("", 0, 0, "", 0).position, "0,0 ?");
}

#[test]
fn the_clock_floors_negative_time_into_the_day_before() {
    assert_eq!(clock_text(-1), "Day 0 23:59");
    assert_eq!(clock_text(1440), "Day 2 00:00");
    assert_eq!(Hud::new("", -3, 7, "west", 61).position, "-3,7 W");
}

#[test]
fn the_tool_pad_paints_each_button_in_its_own_state() {
    let mut frame = Frame::default();
    tools(&mut frame, ToolStates::default(), None);
    assert!(frame.widgets.is_empty(), "hidden paints nothing");
    let mut states = ToolStates::all(PadState::Disabled);
    states.set(ToolButton::Menu, PadState::Enabled);
    states.set(ToolButton::Automap, PadState::Enabled);
    tools(&mut frame, states, Some(WidgetId::Tool(ToolButton::Menu)));
    assert_eq!(frame.widgets.len(), 6);
    let rgb = |frame: &Frame, x, y| frame.raster.get(x, y).map(|p| (p[0], p[1], p[2]));
    for button in TOOL_BUTTON_ORDER {
        let w = frame.widget(WidgetId::Tool(button)).expect("painted");
        assert!(w.framed && w.rect == button.rect(), "{button:?}");
        assert_eq!(w.enabled, states.get(button) == PadState::Enabled);
        let corner = rgb(&frame, w.rect.x, w.rect.y);
        let expected = match button {
            ToolButton::Menu => HI,
            ToolButton::Automap => FRAME,
            _ => DIM,
        };
        assert_eq!(corner, Some(expected), "{button:?}");
    }
    let menu = ToolButton::Menu.rect();
    assert_eq!(
        rgb(&frame, menu.x + 2, menu.y + 2),
        Some(HI),
        "the held button is filled"
    );
    let map = ToolButton::Automap.rect();
    assert_eq!(
        rgb(&frame, map.x + 2, map.y + 2),
        Some((0, 0, 0)),
        "the rest are not"
    );
}

#[test]
fn the_pad_registers_seven_framed_buttons() {
    let mut frame = Frame::default();
    pad(&mut frame, PadState::Hidden, None);
    assert!(frame.widgets.is_empty());
    pad(&mut frame, PadState::Enabled, Some(WidgetId::Pad(PadButton::Use)));
    assert_eq!(frame.widgets.len(), 7);
    for (i, button) in PAD_BUTTON_ORDER.iter().enumerate() {
        let w = frame.widgets[i];
        assert_eq!(w.id, WidgetId::Pad(*button));
        assert!(w.framed && w.enabled);
        assert_eq!(w.rect, button.rect());
    }
    let use_rect = PadButton::Use.rect();
    assert_eq!(frame.raster.get(use_rect.x + 2, use_rect.y + 2), Some([HI.0, HI.1, HI.2, 255]));
    let fwd = PadButton::Forward.rect();
    assert_eq!(frame.raster.get(fwd.x, fwd.y), Some([FRAME.0, FRAME.1, FRAME.2, 255]));
}

#[test]
fn the_backdrop_covers_the_column_and_band_but_not_the_minimap() {
    let mut frame = Frame::default();
    backdrop(&mut frame, &Layout::for_width(CANVAS_WIDTH));
    let panel = [PANEL.0, PANEL.1, PANEL.2, 255];
    let (mx, my, mw, mh) = SIDEBAR_MAP;
    let clear = Some([0, 0, 0, 0]);
    let get = |x, y| frame.raster.get(x, y);
    assert_eq!(
        get(right_column().x, my + 10),
        Some(panel),
        "left of the minimap"
    );
    assert_eq!(
        get(canvas().right() - 1, 0),
        Some(panel),
        "the column's corner"
    );
    assert_eq!(
        get(mx + 10, my + mh as i32 + 2),
        Some(panel),
        "under the minimap"
    );
    assert_eq!(get(mx + mw as i32, my + 10), Some(panel), "right of it");
    assert_eq!(get(100, band().y + 10), Some(panel), "the band");
    assert_eq!(get(mx + 10, my + 10), clear, "the minimap shows through");
    assert_eq!(get(mx + mw as i32 - 1, my + mh as i32 - 1), clear);
    let v = viewport();
    assert_eq!(
        get(v.w as i32 / 2, v.h as i32 / 2),
        clear,
        "the viewport"
    );
    assert_eq!(get(v.right() - 1, v.bottom() - 1), clear);
}

#[test]
fn the_location_lines_paint_in_text_colour() {
    let mut frame = Frame::default();
    hud(&mut frame, &Hud::new("HH", 1, 1, "north", 0));
    let any = (961..961 + 12).any(|x| (266..274).any(|y| frame.raster.get(x, y) == Some([TEXT.0, TEXT.1, TEXT.2, 255])));
    assert!(any);
}

#[test]
fn clock_renders_days_and_minutes() {
    assert_eq!(omnis_app::hud::clock_text(0), "Day 1, 00:00");
    assert_eq!(omnis_app::hud::clock_text(61), "Day 1, 01:01");
    assert_eq!(omnis_app::hud::clock_text(1440 * 3 + 725), "Day 4, 12:05");
    assert_eq!(omnis_app::hud::clock_text(-1), "Day 0, 23:59", "the minute before the start is the day before");
}
