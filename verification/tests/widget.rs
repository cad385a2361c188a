use omnis_app::layout::{pad_buttons, Rect};
use omnis_app::widget::{
    hit, Command, Direction, Frame, Kind, PadButton, Part, Rotation, ToolButton, ToolStates,
    PadState, Widget, WidgetId, HI, PAD_BUTTON_ORDER,
};

fn choice(row: usize, x: i32) -> Widget {
    let mut w = Widget::new(WidgetId::Row(row), Rect::new(x, 16, 100, 8), Kind::Choice);
    w.left = Some(Rect::new(x + 12, 16, 6, 8));
    w.right = Some(Rect::new(x + 40, 16, 6, 8));
    w
}

#[test]
fn hits_find_the_topmost_enabled_widget_and_its_part() {
    let mut disabled = Widget::new(WidgetId::Row(9), Rect::new(0, 0, 50, 50), Kind::Button);
    disabled.enabled = false;
    let widgets = [
        Widget::new(WidgetId::Row(0), Rect::new(0, 0, 50, 50), Kind::Button),
        choice(1, 7),
        disabled,
    ];
    assert_eq!(
        hit(&widgets, 20, 17).map(|h| (h.id, h.part)),
        Some((WidgetId::Row(1), Part::Left))
    );
    assert_eq!(hit(&widgets, 50, 17).map(|h| h.part), Some(Part::Right));
    assert_eq!(hit(&widgets, 30, 17).map(|h| h.part), Some(Part::Body));
    assert_eq!(hit(&widgets, 3, 3).map(|h| h.id), Some(WidgetId::Row(0)));
    assert_eq!(hit(&widgets, 200, 200), None);
}

#[test]
fn pad_buttons_map_to_the_key_commands() {
    assert_eq!(
        PadButton::Forward.command(),
        Command::Step(Direction::Forward)
    );
    assert_eq!(PadButton::TurnLeft.command(), Command::Turn(Rotation::Left));
    assert_eq!(PadButton::Use.command(), Command::Interact);
    assert_eq!(PadButton::Use.rect(), pad_buttons(6));
    for (i, b) in PAD_BUTTON_ORDER.iter().enumerate() {
        assert_eq!(b.rect(), pad_buttons(i));
        assert_eq!(b.index(), i);
        assert!(b.label().len() <= 3);
    }
}

#[test]
fn tool_states_start_hidden_and_set_one_button() {
    let mut s = ToolStates::default();
    assert_eq!(s.get(ToolButton::Sheet), PadState::Hidden);
    s.set(ToolButton::Sheet, PadState::Enabled);
    assert_eq!(s.get(ToolButton::Sheet), PadState::Enabled);
    assert_eq!(s.get(ToolButton::Items), PadState::Hidden);
    assert_eq!(ToolStates::all(PadState::Disabled).get(ToolButton::Menu), PadState::Disabled);
}

#[test]
fn hover_outlines_wrap_text_rows_and_replace_button_frames() {
    let mut frame = Frame::default();
    frame.widgets.push(Widget::new(
        WidgetId::Row(0),
        Rect::new(7, 8, 12, 8),
        Kind::Button,
    ));
    let mut framed = Widget::new(
        WidgetId::Pad(PadButton::Use),
        Rect::new(100, 100, 10, 10),
        Kind::Button,
    );
    framed.framed = true;
    frame.widgets.push(framed);
    frame.outline(WidgetId::Row(0));
    assert_eq!(frame.raster.get(6, 7), Some([HI.0, HI.1, HI.2, 255]));
    assert_eq!(frame.raster.get(7, 8), Some([0, 0, 0, 0]));
    frame.outline(WidgetId::Pad(PadButton::Use));
    assert_eq!(frame.raster.get(100, 100), Some([HI.0, HI.1, HI.2, 255]));
    assert_eq!(frame.raster.get(99, 99), Some([0, 0, 0, 0]));
    frame.outline(WidgetId::Row(5));
}

#[test]
fn widgets_pushed_within_an_origin_land_in_canvas_space() {
    let mut frame = Frame::default();
    frame.within((100, 50), |f| {
        f.raster.set(0, 0, HI);
        let mut w = choice(0, 7);
        w.left = Some(Rect::new(7, 16, 6, 8));
        w.right = Some(Rect::new(101, 16, 6, 8));
        f.push(w);
        assert_eq!(f.raster.origin, (100, 50));
    });
    assert_eq!(frame.raster.origin, (0, 0), "the origin is restored");
    assert_eq!(frame.raster.get(100, 50), Some([HI.0, HI.1, HI.2, 255]));
    let w = frame.widget(WidgetId::Row(0)).copied().expect("pushed");
    assert_eq!(w.rect, Rect::new(107, 66, 100, 8));
    assert_eq!(w.left, Some(Rect::new(107, 66, 6, 8)));
    assert_eq!(w.right, Some(Rect::new(201, 66, 6, 8)));
    assert_eq!(
        hit(&frame.widgets, 202, 70).map(|h| h.part),
        Some(Part::Right)
    );
    assert_eq!(
        hit(&frame.widgets, 7, 16),
        None,
        "nothing at the untranslated spot"
    );
    frame.outline(WidgetId::Row(0));
    assert_eq!(frame.raster.get(106, 65), Some([HI.0, HI.1, HI.2, 255]));
    frame.reset(64, 32);
    assert!(frame.widgets.is_empty());
    assert_eq!((frame.raster.width, frame.raster.height), (64, 32));
    assert_eq!(frame.raster.get(0, 0), Some([0, 0, 0, 0]));
}
